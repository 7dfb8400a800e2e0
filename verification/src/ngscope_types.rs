//! Wire protocol of the external DCI sniffer.
//!
//! Every frame starts with a four-byte preamble (one byte repeated four
//! times), then one version byte, then a fixed-size payload whose layout
//! is the C struct of the sniffer with little-endian integers and the
//! usual C padding.

use vstd::prelude::*;

verus! {

/// Number of validation frames after which the handshake succeeds.
pub const NOF_VALIDATE_SUCCESS: usize = 2;

/// Receive buffer size: frames above it are not accepted.
pub const NGSCOPE_REMOTE_BUFFER_SIZE: usize = 1400;

/// Highest number of per-RNTI records a cell DCI frame carries.
pub const NGSCOPE_MAX_NOF_RNTI: usize = 20;

/// Highest number of cells a config frame describes.
pub const NGSCOPE_MAX_NOF_CELL: usize = 4;

/// Length of the preamble.
pub const NGSCOPE_MESSAGE_TYPE_SIZE: usize = 4;

/// Position of the version byte.
pub const NGSCOPE_MESSAGE_VERSION_POSITION: usize = 4;

/// Position of the payload.
pub const NGSCOPE_MESSAGE_CONTENT_POSITION: usize = 5;

/// Payload size of a UE DCI frame.
pub const NGSCOPE_STRUCT_SIZE_DCI: usize = 40;

/// Payload size of a cell DCI frame.
pub const NGSCOPE_STRUCT_SIZE_CELL_DCI: usize = 448;

/// Payload size of a config frame.
pub const NGSCOPE_STRUCT_SIZE_CONFIG: usize = 12;

/// The little-endian value of two bytes of `b` starting at `i`.
pub open spec fn le_u16(b: Seq<u8>, i: int) -> int {
    b[i] + 0x100 * b[i + 1]
}

/// The little-endian value of four bytes of `b` starting at `i`.
pub open spec fn le_u32(b: Seq<u8>, i: int) -> int {
    b[i] + 0x100 * b[i + 1] + 0x1_0000 * b[i + 2] + 0x100_0000 * b[i + 3]
}

/// The little-endian value of eight bytes of `b` starting at `i`.
pub open spec fn le_u64(b: Seq<u8>, i: int) -> int {
    b[i] + 0x100 * b[i + 1] + 0x1_0000 * b[i + 2] + 0x100_0000 * b[i + 3] + 0x1_0000_0000 * b[i + 4]
        + 0x100_0000_0000 * b[i + 5] + 0x1_0000_0000_0000 * b[i + 6] + 0x100_0000_0000_0000 * b[i
        + 7]
}

/// Reads a little-endian `u16` at `i`.
pub fn read_le_u16(b: &[u8], i: usize) -> (r: u16)
    requires
        i + 2 <= b@.len(),
    ensures
        r == le_u16(b@, i as int),
{
    (b[i] as u16) + 0x100 * (b[i + 1] as u16)
}

/// Reads a little-endian `u32` at `i`.
pub fn read_le_u32(b: &[u8], i: usize) -> (r: u32)
    requires
        i + 4 <= b@.len(),
    ensures
        r == le_u32(b@, i as int),
{
    (b[i] as u32) + 0x100 * (b[i + 1] as u32) + 0x1_0000 * (b[i + 2] as u32) + 0x100_0000 * (b[i
        + 3] as u32)
}

/// Reads a little-endian `u64` at `i`.
pub fn read_le_u64(b: &[u8], i: usize) -> (r: u64)
    requires
        i + 8 <= b@.len(),
    ensures
        r == le_u64(b@, i as int),
{
    (b[i] as u64) + 0x100 * (b[i + 1] as u64) + 0x1_0000 * (b[i + 2] as u64) + 0x100_0000 * (b[i
        + 3] as u64) + 0x1_0000_0000 * (b[i + 4] as u64) + 0x100_0000_0000 * (b[i + 5] as u64)
        + 0x1_0000_0000_0000 * (b[i + 6] as u64) + 0x100_0000_0000_0000 * (b[i + 7] as u64)
}

/// Frame kinds of the sniffer protocol.
#[derive(Clone, Copy, Debug, PartialEq, Eq, Structural)]
pub enum MessageType {
    Start,
    Dci,
    CellDci,
    Config,
    Exit,
}

/// The preamble byte of a frame kind.
pub open spec fn preamble_byte(t: MessageType) -> u8 {
    match t {
        MessageType::Start => 0xCC,
        MessageType::Dci => 0xAA,
        MessageType::CellDci => 0xAB,
        MessageType::Config => 0xBB,
        MessageType::Exit => 0xFF,
    }
}

/// The frame kind of a four-byte preamble, if the four bytes repeat one
/// known preamble byte.
pub open spec fn message_type_of(b: Seq<u8>) -> Option<MessageType> {
    if b.len() >= 4 && b[0] == b[1] && b[1] == b[2] && b[2] == b[3] {
        if b[0] == 0xCC {
            Some(MessageType::Start)
        } else if b[0] == 0xAA {
            Some(MessageType::Dci)
        } else if b[0] == 0xAB {
            Some(MessageType::CellDci)
        } else if b[0] == 0xBB {
            Some(MessageType::Config)
        } else if b[0] == 0xFF {
            Some(MessageType::Exit)
        } else {
            None
        }
    } else {
        None
    }
}

impl MessageType {
    /// Recognises a four-byte preamble.
    pub fn from_bytes(bytes: &[u8; 4]) -> (r: Option<MessageType>)
        ensures
            r == message_type_of(bytes@),
    {
        if bytes[0] == bytes[1] && bytes[1] == bytes[2] && bytes[2] == bytes[3] {
            match bytes[0] {
                0xCC => Some(MessageType::Start),
                0xAA => Some(MessageType::Dci),
                0xAB => Some(MessageType::CellDci),
                0xBB => Some(MessageType::Config),
                0xFF => Some(MessageType::Exit),
                _ => None,
            }
        } else {
            None
        }
    }

    /// The four-byte preamble of this frame kind.
    pub fn to_bytes(self) -> (r: [u8; 4])
        ensures
            forall|i: int| 0 <= i < 4 ==> r@[i] == preamble_byte(self),
    {
        match self {
            MessageType::Start => [0xCC; 4],
            MessageType::Dci => [0xAA; 4],
            MessageType::CellDci => [0xAB; 4],
            MessageType::Config => [0xBB; 4],
            MessageType::Exit => [0xFF; 4],
        }
    }
}

/// Decode errors of the sniffer protocol.
#[derive(Clone, Copy, Debug, PartialEq, Eq, Structural)]
pub enum NgScopeError {
    /// Fewer bytes than a preamble.
    TooShort,
    /// The first four bytes are no known preamble.
    UnknownPreamble,
    /// The payload has not the fixed size of its frame kind.
    WrongPayloadSize,
}

/// One per-RNTI record of a cell DCI frame.
#[derive(Clone, Copy, Debug, PartialEq, Eq, Structural, Default)]
pub struct NgScopeRntiDci {
    pub rnti: u16,
    pub dl_tbs_bit: u32,
    pub dl_prb: u8,
    pub dl_no_tbs_prb: u8,
    pub ul_tbs_bit: u32,
    pub ul_prb: u8,
    pub ul_no_tbs_prb: u8,
}

/// The per-RNTI record read from 20 payload bytes starting at `i`
/// (C layout: `rnti` at 0, `dl_tbs_bit` at 4, `dl_prb` at 8,
/// `dl_no_tbs_prb` at 9, `ul_tbs_bit` at 12, `ul_prb` at 16,
/// `ul_no_tbs_prb` at 17).
pub open spec fn spec_rnti_dci(b: Seq<u8>, i: int) -> NgScopeRntiDci {
    NgScopeRntiDci {
        rnti: le_u16(b, i) as u16,
        dl_tbs_bit: le_u32(b, i + 4) as u32,
        dl_prb: b[i + 8],
        dl_no_tbs_prb: b[i + 9],
        ul_tbs_bit: le_u32(b, i + 12) as u32,
        ul_prb: b[i + 16],
        ul_no_tbs_prb: b[i + 17],
    }
}

fn read_rnti_dci(b: &[u8], i: usize) -> (r: NgScopeRntiDci)
    requires
        i + 20 <= b@.len(),
    ensures
        r == spec_rnti_dci(b@, i as int),
{
    let n: usize = b.len();
    proof {
        assert(i + 20 <= n);
    }
    NgScopeRntiDci {
        rnti: read_le_u16(b, i),
        dl_tbs_bit: read_le_u32(b, i + 4),
        dl_prb: b[i + 8],
        dl_no_tbs_prb: b[i + 9],
        ul_tbs_bit: read_le_u32(b, i + 12),
        ul_prb: b[i + 16],
        ul_no_tbs_prb: b[i + 17],
    }
}

/// One DCI record for one subframe on one cell.  Only the first
/// `nof_rnti` entries of `rnti_list` are valid.
#[derive(Clone, Copy, Debug, PartialEq, Eq)]
pub struct NgScopeCellDci {
    pub cell_id: u8,
    pub time_stamp: u64,
    pub tti: u16,
    pub total_dl_tbs_bit: u64,
    pub total_ul_tbs_bit: u64,
    pub total_dl_prb: u8,
    pub total_ul_prb: u8,
    pub total_dl_no_tbs_prb: u8,
    pub total_ul_no_tbs_prb: u8,
    pub nof_rnti: u8,
    pub rnti_list: [NgScopeRntiDci; 20],
}

/// The all-zero per-RNTI record.
pub open spec fn spec_zero_rnti_dci() -> NgScopeRntiDci {
    NgScopeRntiDci {
        rnti: 0,
        dl_tbs_bit: 0,
        dl_prb: 0,
        dl_no_tbs_prb: 0,
        ul_tbs_bit: 0,
        ul_prb: 0,
        ul_no_tbs_prb: 0,
    }
}

impl Default for NgScopeCellDci {
    /// The all-zero record.
    fn default() -> (r: NgScopeCellDci)
        ensures
            r.cell_id == 0 && r.time_stamp == 0 && r.tti == 0,
            r.total_dl_tbs_bit == 0 && r.total_ul_tbs_bit == 0,
            r.total_dl_prb == 0 && r.total_ul_prb == 0,
            r.total_dl_no_tbs_prb == 0 && r.total_ul_no_tbs_prb == 0,
            r.nof_rnti == 0,
            forall|k: int| 0 <= k < 20 ==> (#[trigger] r.rnti_list@[k]) == spec_zero_rnti_dci(),
    {
        NgScopeCellDci {
            cell_id: 0,
            time_stamp: 0,
            tti: 0,
            total_dl_tbs_bit: 0,
            total_ul_tbs_bit: 0,
            total_dl_prb: 0,
            total_ul_prb: 0,
            total_dl_no_tbs_prb: 0,
            total_ul_no_tbs_prb: 0,
            nof_rnti: 0,
            rnti_list: [NgScopeRntiDci {
                rnti: 0,
                dl_tbs_bit: 0,
                dl_prb: 0,
                dl_no_tbs_prb: 0,
                ul_tbs_bit: 0,
                ul_prb: 0,
                ul_no_tbs_prb: 0,
            }; 20],
        }
    }
}

/// The header fields read from a 448-byte cell DCI payload (C layout:
/// `cell_id` at 0, `time_stamp` at 8, `tti` at 16, the two total TBS
/// counters at 24 and 32, the four PRB counters at 40..44, `nof_rnti`
/// at 44, and the 20 RNTI records from 48 on, 20 bytes each).
pub open spec fn spec_cell_dci_header_ok(b: Seq<u8>, d: NgScopeCellDci) -> bool {
    &&& d.cell_id == b[0]
    &&& d.time_stamp == le_u64(b, 8)
    &&& d.tti == le_u16(b, 16)
    &&& d.total_dl_tbs_bit == le_u64(b, 24)
    &&& d.total_ul_tbs_bit == le_u64(b, 32)
    &&& d.total_dl_prb == b[40]
    &&& d.total_ul_prb == b[41]
    &&& d.total_dl_no_tbs_prb == b[42]
    &&& d.total_ul_no_tbs_prb == b[43]
    &&& d.nof_rnti == b[44]
}

impl NgScopeCellDci {
    /// Decodes the 448-byte payload of a cell DCI frame; any other
    /// length is rejected.
    pub fn from_bytes(bytes: &[u8]) -> (r: Result<NgScopeCellDci, NgScopeError>)
        ensures
            r is Ok <==> bytes@.len() == NGSCOPE_STRUCT_SIZE_CELL_DCI,
            r matches Ok(d) ==> spec_cell_dci_header_ok(bytes@, d) && forall|k: int|
                0 <= k < 20 ==> d.rnti_list@[k] == spec_rnti_dci(bytes@, 48 + 20 * k),
            r matches Err(e) ==> e == NgScopeError::WrongPayloadSize,
    {
        if bytes.len() != NGSCOPE_STRUCT_SIZE_CELL_DCI {
            return Err(NgScopeError::WrongPayloadSize);
        }
        let mut d = NgScopeCellDci::default();
        d.cell_id = bytes[0];
        d.time_stamp = read_le_u64(bytes, 8);
        d.tti = read_le_u16(bytes, 16);
        d.total_dl_tbs_bit = read_le_u64(bytes, 24);
        d.total_ul_tbs_bit = read_le_u64(bytes, 32);
        d.total_dl_prb = bytes[40];
        d.total_ul_prb = bytes[41];
        d.total_dl_no_tbs_prb = bytes[42];
        d.total_ul_no_tbs_prb = bytes[43];
        d.nof_rnti = bytes[44];
        let mut k: usize = 0;
        while k < 20
            invariant
                0 <= k <= 20,
                bytes@.len() == 448,
                spec_cell_dci_header_ok(bytes@, d),
                forall|j: int| 0 <= j < k ==> d.rnti_list@[j] == spec_rnti_dci(bytes@, 48 + 20 * j),
            decreases 20 - k,
        {
            d.rnti_list[k] = read_rnti_dci(bytes, 48 + 20 * k);
            k = k + 1;
        }
        Ok(d)
    }
}

/// One decoded scheduling grant of the UE itself.
#[derive(Clone, Copy, Debug, PartialEq, Eq, Structural)]
pub struct NgScopeUeDci {
    pub cell_idx: u8,
    pub time_stamp: u64,
    pub tti: u16,
    pub rnti: u16,
    pub dl_tbs: u32,
    pub dl_re_tx: u8,
    pub dl_rv_flag: bool,
    pub ul_tbs: u32,
    pub ul_re_tx: u8,
    pub ul_rv_flag: bool,
}

/// The UE DCI read from a 40-byte payload (C layout: `cell_idx` at 0,
/// `time_stamp` at 8, `tti` at 16, `rnti` at 18, `dl_tbs` at 20,
/// `dl_re_tx` at 24, `dl_rv_flag` at 25, `ul_tbs` at 28, `ul_re_tx` at
/// 32, `ul_rv_flag` at 33).
pub open spec fn spec_ue_dci(b: Seq<u8>) -> NgScopeUeDci {
    NgScopeUeDci {
        cell_idx: b[0],
        time_stamp: le_u64(b, 8) as u64,
        tti: le_u16(b, 16) as u16,
        rnti: le_u16(b, 18) as u16,
        dl_tbs: le_u32(b, 20) as u32,
        dl_re_tx: b[24],
        dl_rv_flag: b[25] != 0,
        ul_tbs: le_u32(b, 28) as u32,
        ul_re_tx: b[32],
        ul_rv_flag: b[33] != 0,
    }
}

impl NgScopeUeDci {
    /// Decodes the 40-byte payload of a UE DCI frame; any other length
    /// is rejected.
    pub fn from_bytes(bytes: &[u8]) -> (r: Result<NgScopeUeDci, NgScopeError>)
        ensures
            r is Ok <==> bytes@.len() == NGSCOPE_STRUCT_SIZE_DCI,
            r matches Ok(d) ==> d == spec_ue_dci(bytes@),
            r matches Err(e) ==> e == NgScopeError::WrongPayloadSize,
    {
        if bytes.len() != NGSCOPE_STRUCT_SIZE_DCI {
            return Err(NgScopeError::WrongPayloadSize);
        }
        Ok(
            NgScopeUeDci {
                cell_idx: bytes[0],
                time_stamp: read_le_u64(bytes, 8),
                tti: read_le_u16(bytes, 16),
                rnti: read_le_u16(bytes, 18),
                dl_tbs: read_le_u32(bytes, 20),
                dl_re_tx: bytes[24],
                dl_rv_flag: bytes[25] != 0,
                ul_tbs: read_le_u32(bytes, 28),
                ul_re_tx: bytes[32],
                ul_rv_flag: bytes[33] != 0,
            },
        )
    }
}

/// Cell configuration announced by the sniffer.
#[derive(Clone, Copy, Debug, PartialEq, Eq)]
pub struct NgScopeCellConfig {
    pub nof_cell: u8,
    pub cell_prb: [u16; 4],
    pub rnti: u16,
}

/// The config read from a 12-byte payload (C layout: `nof_cell` at 0,
/// the four PRB counts at 2..10, `rnti` at 10).
pub open spec fn spec_cell_config_ok(b: Seq<u8>, c: NgScopeCellConfig) -> bool {
    &&& c.nof_cell == b[0]
    &&& forall|k: int| 0 <= k < 4 ==> c.cell_prb@[k] == le_u16(b, 2 + 2 * k)
    &&& c.rnti == le_u16(b, 10)
}

impl NgScopeCellConfig {
    /// Decodes the 12-byte payload of a config frame; any other length
    /// is rejected.
    pub fn from_bytes(bytes: &[u8]) -> (r: Result<NgScopeCellConfig, NgScopeError>)
        ensures
            r is Ok <==> bytes@.len() == NGSCOPE_STRUCT_SIZE_CONFIG,
            r matches Ok(c) ==> spec_cell_config_ok(bytes@, c),
            r matches Err(e) ==> e == NgScopeError::WrongPayloadSize,
    {
        if bytes.len() != NGSCOPE_STRUCT_SIZE_CONFIG {
            return Err(NgScopeError::WrongPayloadSize);
        }
        let prb0: u16 = read_le_u16(bytes, 2);
        let prb1: u16 = read_le_u16(bytes, 4);
        let prb2: u16 = read_le_u16(bytes, 6);
        let prb3: u16 = read_le_u16(bytes, 8);
        let c = NgScopeCellConfig {
            nof_cell: bytes[0],
            cell_prb: [prb0, prb1, prb2, prb3],
            rnti: read_le_u16(bytes, 10),
        };
        Ok(c)
    }
}

/// A decoded sniffer frame.
#[derive(Clone, Debug, PartialEq)]
pub enum Message {
    Start,
    Dci(NgScopeUeDci),
    CellDci(Box<NgScopeCellDci>),
    Config(NgScopeCellConfig),
    Exit,
}

impl Message {
    /// Decodes one frame: preamble, version byte, payload.  A frame
    /// shorter than preamble plus version, an unknown preamble, and a
    /// payload of the wrong fixed size are each rejected.
    pub fn from_bytes(bytes: &[u8]) -> (r: Result<Message, NgScopeError>)
        ensures
            bytes@.len() < NGSCOPE_MESSAGE_CONTENT_POSITION ==> r == Result::<
                Message,
                NgScopeError,
            >::Err(NgScopeError::TooShort),
            bytes@.len() >= NGSCOPE_MESSAGE_CONTENT_POSITION ==> match message_type_of(
                bytes@.take(4),
            ) {
                None => r == Result::<Message, NgScopeError>::Err(NgScopeError::UnknownPreamble),
                Some(t) => {
                    let content = bytes@.skip(5);
                    match t {
                        MessageType::Start => r == Result::<Message, NgScopeError>::Ok(
                            Message::Start,
                        ),
                        MessageType::Exit => r == Result::<Message, NgScopeError>::Ok(
                            Message::Exit,
                        ),
                        MessageType::Dci => if content.len() == NGSCOPE_STRUCT_SIZE_DCI {
                            r matches Ok(m) && m matches Message::Dci(d) && d == spec_ue_dci(
                                content,
                            )
                        } else {
                            r == Result::<Message, NgScopeError>::Err(
                                NgScopeError::WrongPayloadSize,
                            )
                        },
                        MessageType::CellDci => if content.len() == NGSCOPE_STRUCT_SIZE_CELL_DCI {
                            r matches Ok(m) && m matches Message::CellDci(d)
                                && spec_cell_dci_header_ok(content, *d) && forall|k: int|
                                0 <= k < 20 ==> d.rnti_list@[k] == spec_rnti_dci(
                                    content,
                                    48 + 20 * k,
                                )
                        } else {
                            r == Result::<Message, NgScopeError>::Err(
                                NgScopeError::WrongPayloadSize,
                            )
                        },
                        MessageType::Config => if content.len() == NGSCOPE_STRUCT_SIZE_CONFIG {
                            r matches Ok(m) && m matches Message::Config(c) && spec_cell_config_ok(
                                content,
                                c,
                            )
                        } else {
                            r == Result::<Message, NgScopeError>::Err(
                                NgScopeError::WrongPayloadSize,
                            )
                        },
                    }
                },
            },
    {
        if bytes.len() < NGSCOPE_MESSAGE_CONTENT_POSITION {
            return Err(NgScopeError::TooShort);
        }
        let (preamble, rest) = bytes.split_at(NGSCOPE_MESSAGE_TYPE_SIZE);
        let type_bytes: [u8; 4] = [preamble[0], preamble[1], preamble[2], preamble[3]];
        proof {
            assert(type_bytes@ =~= bytes@.take(4));
        }
        let (_, content) = rest.split_at(1);
        proof {
            assert(content@ =~= bytes@.skip(5));
        }
        match MessageType::from_bytes(&type_bytes) {
            None => Err(NgScopeError::UnknownPreamble),
            Some(MessageType::Start) => Ok(Message::Start),
            Some(MessageType::Exit) => Ok(Message::Exit),
            Some(MessageType::Dci) => match NgScopeUeDci::from_bytes(content) {
                Ok(d) => Ok(Message::Dci(d)),
                Err(e) => Err(e),
            },
            Some(MessageType::CellDci) => match NgScopeCellDci::from_bytes(content) {
                Ok(d) => Ok(Message::CellDci(Box::new(d))),
                Err(e) => Err(e),
            },
            Some(MessageType::Config) => match NgScopeCellConfig::from_bytes(content) {
                Ok(c) => Ok(Message::Config(c)),
                Err(e) => Err(e),
            },
        }
    }
}

/// Splits one frame into its kind and its bytes after the preamble.
/// Succeeds exactly on a frame of at least four bytes whose preamble is
/// known; the version byte stays at the front of the content.
pub fn ngscope_extract_packet(packet: &[u8]) -> (r: Result<(MessageType, Vec<u8>), NgScopeError>)
    ensures
        packet@.len() < NGSCOPE_MESSAGE_TYPE_SIZE ==> (r matches Err(e) && e
            == NgScopeError::TooShort),
        packet@.len() >= NGSCOPE_MESSAGE_TYPE_SIZE ==> match message_type_of(packet@.take(4)) {
            None => (r matches Err(e) && e == NgScopeError::UnknownPreamble),
            Some(t) => (r matches Ok(p) && p.0 == t && p.1@ =~= packet@.skip(4)),
        },
{
    if packet.len() < NGSCOPE_MESSAGE_TYPE_SIZE {
        return Err(NgScopeError::TooShort);
    }
    let (preamble, content) = packet.split_at(NGSCOPE_MESSAGE_TYPE_SIZE);
    let type_bytes: [u8; 4] = [preamble[0], preamble[1], preamble[2], preamble[3]];
    proof {
        assert(type_bytes@ =~= packet@.take(4));
    }
    match MessageType::from_bytes(&type_bytes) {
        None => Err(NgScopeError::UnknownPreamble),
        Some(t) => {
            let mut out: Vec<u8> = Vec::new();
            let mut i: usize = 0;
            while i < content.len()
                invariant
                    0 <= i <= content@.len(),
                    out@ =~= content@.take(i as int),
                decreases content@.len() - i,
            {
                out.push(content[i]);
                i = i + 1;
            }
            proof {
                assert(content@.take(content@.len() as int) =~= content@);
                assert(content@ =~= packet@.skip(4));
            }
            Ok((t, out))
        },
    }
}

/// Where the fetcher's handshake with the sniffer stands.
#[derive(Clone, Copy, Debug, PartialEq, Eq, Structural)]
pub enum HandshakeState {
    /// Still counting valid frames; the payload is the count so far.
    Waiting(u8),
    /// Enough valid frames arrived: the sniffer is alive.
    Confirmed,
    /// The sniffer said goodbye.
    Aborted,
}

/// One step of the liveness handshake: after the `Start` preamble went
/// out, any `NOF_VALIDATE_SUCCESS` valid frames confirm the sniffer;
/// an `Exit` frame aborts; silence and undecodable bytes change
/// nothing.
pub fn handshake_step(successful_auths: u8, frame: Option<&Message>) -> (r: HandshakeState)
    requires
        successful_auths < 0xFF,
    ensures
        frame is None ==> r == HandshakeState::Waiting(successful_auths),
        (frame matches Some(m) && *m is Exit) ==> r == HandshakeState::Aborted,
        (frame matches Some(m) && !(*m is Exit)) ==> if successful_auths + 1
            >= NOF_VALIDATE_SUCCESS {
            r == HandshakeState::Confirmed
        } else {
            r == HandshakeState::Waiting((successful_auths + 1) as u8)
        },
{
    match frame {
        None => HandshakeState::Waiting(successful_auths),
        Some(Message::Exit) => HandshakeState::Aborted,
        Some(_) => {
            if successful_auths as usize + 1 >= NOF_VALIDATE_SUCCESS {
                HandshakeState::Confirmed
            } else {
                HandshakeState::Waiting(successful_auths + 1)
            }
        },
    }
}

} // verus!
