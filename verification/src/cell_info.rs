//! Serving-cell data: cell identity, radio technology, and the 3GPP
//! ARFCN-to-frequency band tables.

use vstd::prelude::*;
use vstd::string::StrSliceExecFns;

use crate::util::{helper_json_pointer, json_value_as_string};

verus! {

/// Radio technology of a cell.
#[derive(Clone, Copy, Debug, PartialEq, Eq, Structural)]
pub enum CellularType {
    LTE,
    NR,
}

/// The technology named by a network-type string: `LTE`, `4G` and
/// `4G LTE` mean LTE; `NR`, `5G` and `5G NR` mean NR.
pub open spec fn cellular_type_of(s: Seq<char>) -> Option<CellularType> {
    if s =~= seq!['L', 'T', 'E'] || s =~= seq!['4', 'G'] || s =~= seq![
        '4',
        'G',
        ' ',
        'L',
        'T',
        'E',
    ] {
        Some(CellularType::LTE)
    } else if s =~= seq!['N', 'R'] || s =~= seq!['5', 'G'] || s =~= seq!['5', 'G', ' ', 'N', 'R'] {
        Some(CellularType::NR)
    } else {
        None
    }
}

impl CellularType {
    /// Reads the radio technology out of a network-type string.
    pub fn from_str(cell_str: &str) -> (r: Result<CellularType, CellInfoError>)
        ensures
            r matches Ok(t) ==> cellular_type_of(cell_str@) == Some(t),
            r is Err <==> cellular_type_of(cell_str@) is None,
            r matches Err(e) ==> e == CellInfoError::UnknownCellType,
    {
        let n: usize = cell_str.unicode_len();
        if n == 3 && cell_str.get_char(0) == 'L' && cell_str.get_char(1) == 'T' && cell_str.get_char(
            2,
        ) == 'E' {
            proof {
                assert(cell_str@ =~= seq!['L', 'T', 'E']);
            }
            Ok(CellularType::LTE)
        } else if n == 2 && cell_str.get_char(0) == '4' && cell_str.get_char(1) == 'G' {
            proof {
                assert(cell_str@ =~= seq!['4', 'G']);
            }
            Ok(CellularType::LTE)
        } else if n == 6 && cell_str.get_char(0) == '4' && cell_str.get_char(1) == 'G'
            && cell_str.get_char(2) == ' ' && cell_str.get_char(3) == 'L' && cell_str.get_char(4)
            == 'T' && cell_str.get_char(5) == 'E' {
            proof {
                assert(cell_str@ =~= seq!['4', 'G', ' ', 'L', 'T', 'E']);
            }
            Ok(CellularType::LTE)
        } else if n == 2 && cell_str.get_char(0) == 'N' && cell_str.get_char(1) == 'R' {
            proof {
                assert(cell_str@ =~= seq!['N', 'R']);
            }
            Ok(CellularType::NR)
        } else if n == 2 && cell_str.get_char(0) == '5' && cell_str.get_char(1) == 'G' {
            proof {
                assert(cell_str@ =~= seq!['5', 'G']);
            }
            Ok(CellularType::NR)
        } else if n == 5 && cell_str.get_char(0) == '5' && cell_str.get_char(1) == 'G'
            && cell_str.get_char(2) == ' ' && cell_str.get_char(3) == 'N' && cell_str.get_char(4)
            == 'R' {
            proof {
                assert(cell_str@ =~= seq!['5', 'G', ' ', 'N', 'R']);
            }
            Ok(CellularType::NR)
        } else {
            Err(CellInfoError::UnknownCellType)
        }
    }
}

/// Errors of the cell-info layer.
#[derive(Clone, Copy, Debug, PartialEq, Eq, Structural)]
pub enum CellInfoError {
    /// The textual network type matched neither LTE nor NR.
    UnknownCellType,
    /// The ARFCN lies outside every band of the table.
    ArfcnOutOfRange,
    /// A field did not hold a number of the expected shape, or the
    /// number does not fit its word.
    InvalidNumber,
    /// A field of the back-end reply was absent or not a string.
    MissingField,
    /// The signal string carried no parenthesised dBm reading.
    SignalNotFound,
}

/// Frequency in Hz of an LTE EARFCN, by the downlink band table;
/// `None` outside every listed band.  Band edges follow the table
/// first-match ordering, so EARFCN 9919 falls into band 31.
pub open spec fn lte_frequency(arfcn: int) -> Option<int> {
    if 0 <= arfcn <= 599 {
        Some(2110000000 + 100000 * arfcn)
    } else if 600 <= arfcn <= 1199 {
        Some(1930000000 + 100000 * (arfcn - 600))
    } else if 1200 <= arfcn <= 1949 {
        Some(1805000000 + 100000 * (arfcn - 1200))
    } else if 1950 <= arfcn <= 2399 {
        Some(2110000000 + 100000 * (arfcn - 1949))
    } else if 2400 <= arfcn <= 2649 {
        Some(869000000 + 100000 * (arfcn - 2400))
    } else if 2750 <= arfcn <= 3449 {
        Some(2620000000 + 100000 * (arfcn - 2750))
    } else if 3450 <= arfcn <= 3799 {
        Some(925000000 + 100000 * (arfcn - 3450))
    } else if 3800 <= arfcn <= 4149 {
        Some(1844900000 + 100000 * (arfcn - 3800))
    } else if 4150 <= arfcn <= 4749 {
        Some(2110000000 + 100000 * (arfcn - 4150))
    } else if 4750 <= arfcn <= 4949 {
        Some(1475900000 + 100000 * (arfcn - 4750))
    } else if 5010 <= arfcn <= 5179 {
        Some(729000000 + 100000 * (arfcn - 5010))
    } else if 5180 <= arfcn <= 5279 {
        Some(746000000 + 100000 * (arfcn - 5180))
    } else if 5280 <= arfcn <= 5379 {
        Some(758000000 + 100000 * (arfcn - 5280))
    } else if 5730 <= arfcn <= 5849 {
        Some(734000000 + 100000 * (arfcn - 5730))
    } else if 5850 <= arfcn <= 5999 {
        Some(860000000 + 100000 * (arfcn - 5850))
    } else if 6000 <= arfcn <= 6149 {
        Some(875000000 + 100000 * (arfcn - 6000))
    } else if 6150 <= arfcn <= 6449 {
        Some(791000000 + 100000 * (arfcn - 6150))
    } else if 6450 <= arfcn <= 6599 {
        Some(1495900000 + 100000 * (arfcn - 6450))
    } else if 6600 <= arfcn <= 7399 {
        Some(3510000000 + 100000 * (arfcn - 6600))
    } else if 7700 <= arfcn <= 8039 {
        Some(1525000000 + 100000 * (arfcn - 7700))
    } else if 8040 <= arfcn <= 8689 {
        Some(1930000000 + 100000 * (arfcn - 8040))
    } else if 8690 <= arfcn <= 9039 {
        Some(859000000 + 100000 * (arfcn - 8690))
    } else if 9040 <= arfcn <= 9209 {
        Some(852000000 + 100000 * (arfcn - 9040))
    } else if 9210 <= arfcn <= 9659 {
        Some(758000000 + 100000 * (arfcn - 9210))
    } else if 9660 <= arfcn <= 9769 {
        Some(728000000 + 100000 * (arfcn - 9660))
    } else if 9770 <= arfcn <= 9869 {
        Some(2350000000 + 100000 * (arfcn - 9770))
    } else if 9870 <= arfcn <= 9919 {
        Some(462500000 + 100000 * (arfcn - 9870))
    } else if 9919 <= arfcn <= 10359 {
        Some(1492000000 + 100000 * (arfcn - 9919))
    } else if 131072 <= arfcn <= 131971 {
        Some(2110000000 + 100000 * (arfcn - 131072))
    } else if 131972 <= arfcn <= 132671 {
        Some(2110000000 + 100000 * (arfcn - 131972))
    } else if 132672 <= arfcn <= 132971 {
        Some(753000000 + 100000 * (arfcn - 132672))
    } else if 132972 <= arfcn <= 133121 {
        Some(1995000000 + 100000 * (arfcn - 132972))
    } else if 133122 <= arfcn <= 133471 {
        Some(617000000 + 100000 * (arfcn - 133122))
    } else {
        None
    }
}

/// Largest NR-ARFCN of the 3GPP global frequency raster (100 GHz).
///
/// The raster formula of `nr_frequency` is defined only up to this
/// channel number; past it the formula has no 3GPP meaning, and the
/// value it would produce soon leaves `u64` when taken in Hz.
/// `arfcn_to_frequency` therefore answers `ArfcnOutOfRange` above this
/// bound instead of evaluating the formula.
pub const MAX_NR_ARFCN: u64 = 3279165;

/// Frequency in Hz of an NR-ARFCN on the global frequency raster:
/// `(F_ref_offs + dF_global * (arfcn - N_ref_offs)) * 1000`, with the
/// three raster segments selecting the parameter triple.
pub open spec fn nr_frequency(arfcn: int) -> int {
    if arfcn <= 599999 {
        5 * arfcn * 1000
    } else if arfcn <= 2016666 {
        (3000000 + 15 * (arfcn - 600000)) * 1000
    } else {
        (24250080 + 60 * (arfcn - 2016667)) * 1000
    }
}

/// What `arfcn_to_frequency` returns for every input.
pub open spec fn arfcn_frequency_result(arfcn: int, cell_type: CellularType) -> Result<
    u64,
    CellInfoError,
> {
    match cell_type {
        CellularType::LTE => match lte_frequency(arfcn) {
            Some(f) => Ok(f as u64),
            None => Err(CellInfoError::ArfcnOutOfRange),
        },
        CellularType::NR => {
            if arfcn <= MAX_NR_ARFCN {
                Ok(nr_frequency(arfcn) as u64)
            } else {
                Err(CellInfoError::ArfcnOutOfRange)
            }
        },
    }
}

/// Converts an ARFCN to its carrier frequency in Hz.
///
/// For LTE the conversion is the piecewise-linear downlink band table of
/// `lte_frequency`; an EARFCN outside every band is rejected.  For NR it is
/// the global-raster formula of `nr_frequency`; an NR-ARFCN beyond the
/// raster end (`MAX_NR_ARFCN`) is rejected rather than fed to a formula
/// that is undefined there and whose Hz value would outgrow `u64`.
pub fn arfcn_to_frequency(arfcn: u64, cell_type: &CellularType) -> (r: Result<u64, CellInfoError>)
    ensures
        r == arfcn_frequency_result(arfcn as int, *cell_type),
{
    match *cell_type {
        CellularType::LTE => {
            if arfcn <= 599 {
                Ok(2110000000 + 100000 * arfcn)
            } else if arfcn <= 1199 {
                Ok(1930000000 + 100000 * (arfcn - 600))
            } else if arfcn <= 1949 {
                Ok(1805000000 + 100000 * (arfcn - 1200))
            } else if arfcn <= 2399 {
                Ok(2110000000 + 100000 * (arfcn - 1949))
            } else if arfcn <= 2649 {
                Ok(869000000 + 100000 * (arfcn - 2400))
            } else if arfcn < 2750 {
                Err(CellInfoError::ArfcnOutOfRange)
            } else if arfcn <= 3449 {
                Ok(2620000000 + 100000 * (arfcn - 2750))
            } else if arfcn <= 3799 {
                Ok(925000000 + 100000 * (arfcn - 3450))
            } else if arfcn <= 4149 {
                Ok(1844900000 + 100000 * (arfcn - 3800))
            } else if arfcn <= 4749 {
                Ok(2110000000 + 100000 * (arfcn - 4150))
            } else if arfcn <= 4949 {
                Ok(1475900000 + 100000 * (arfcn - 4750))
            } else if arfcn < 5010 {
                Err(CellInfoError::ArfcnOutOfRange)
            } else if arfcn <= 5179 {
                Ok(729000000 + 100000 * (arfcn - 5010))
            } else if arfcn <= 5279 {
                Ok(746000000 + 100000 * (arfcn - 5180))
            } else if arfcn <= 5379 {
                Ok(758000000 + 100000 * (arfcn - 5280))
            } else if arfcn < 5730 {
                Err(CellInfoError::ArfcnOutOfRange)
            } else if arfcn <= 5849 {
                Ok(734000000 + 100000 * (arfcn - 5730))
            } else if arfcn <= 5999 {
                Ok(860000000 + 100000 * (arfcn - 5850))
            } else if arfcn <= 6149 {
                Ok(875000000 + 100000 * (arfcn - 6000))
            } else if arfcn <= 6449 {
                Ok(791000000 + 100000 * (arfcn - 6150))
            } else if arfcn <= 6599 {
                Ok(1495900000 + 100000 * (arfcn - 6450))
            } else if arfcn <= 7399 {
                Ok(3510000000 + 100000 * (arfcn - 6600))
            } else if arfcn < 7700 {
                Err(CellInfoError::ArfcnOutOfRange)
            } else if arfcn <= 8039 {
                Ok(1525000000 + 100000 * (arfcn - 7700))
            } else if arfcn <= 8689 {
                Ok(1930000000 + 100000 * (arfcn - 8040))
            } else if arfcn <= 9039 {
                Ok(859000000 + 100000 * (arfcn - 8690))
            } else if arfcn <= 9209 {
                Ok(852000000 + 100000 * (arfcn - 9040))
            } else if arfcn <= 9659 {
                Ok(758000000 + 100000 * (arfcn - 9210))
            } else if arfcn <= 9769 {
                Ok(728000000 + 100000 * (arfcn - 9660))
            } else if arfcn <= 9869 {
                Ok(2350000000 + 100000 * (arfcn - 9770))
            } else if arfcn <= 9919 {
                Ok(462500000 + 100000 * (arfcn - 9870))
            } else if arfcn <= 10359 {
                Ok(1492000000 + 100000 * (arfcn - 9919))
            } else if arfcn < 131072 {
                Err(CellInfoError::ArfcnOutOfRange)
            } else if arfcn <= 131971 {
                Ok(2110000000 + 100000 * (arfcn - 131072))
            } else if arfcn <= 132671 {
                Ok(2110000000 + 100000 * (arfcn - 131972))
            } else if arfcn <= 132971 {
                Ok(753000000 + 100000 * (arfcn - 132672))
            } else if arfcn <= 133121 {
                Ok(1995000000 + 100000 * (arfcn - 132972))
            } else if arfcn <= 133471 {
                Ok(617000000 + 100000 * (arfcn - 133122))
            } else {
                Err(CellInfoError::ArfcnOutOfRange)
            }
        },
        CellularType::NR => {
            if arfcn > MAX_NR_ARFCN {
                Err(CellInfoError::ArfcnOutOfRange)
            } else if arfcn <= 599999 {
                Ok(5 * arfcn * 1000)
            } else if arfcn <= 2016666 {
                Ok((3000000 + 15 * (arfcn - 600000)) * 1000)
            } else {
                Ok((24250080 + 60 * (arfcn - 2016667)) * 1000)
            }
        },
    }
}

/// One observed cell.  Signal levels are milli-dB(m) integers: `-77 dBm`
/// is stored as `-77_000`.
#[derive(Clone, Debug, PartialEq)]
pub struct SingleCell {
    pub cell_id: u64,
    pub cell_type: CellularType,
    pub nof_prb: u16,
    pub frequency: u64,
    pub rssi_milli_dbm: i64,
    pub rsrp_milli_dbm: i64,
    pub rsrq_milli_db: i64,
    pub dl_est: Option<u64>,
    pub ul_est: Option<u64>,
}

/// The set of currently observed cells, as one poll of the back-end
/// reported it.
#[derive(Clone, Debug, PartialEq)]
pub struct CellInfo {
    pub cells: Vec<SingleCell>,
}

/// One record of the DevicePublisher cell-data reply.  Signal levels are
/// milli-dB(m) integers, bandwidth estimates stay in the unit the
/// back-end uses.
#[derive(Clone, Debug)]
#[allow(non_snake_case)]
pub struct CellData {
    pub nodeB: Option<u64>,
    pub cid: Option<u64>,
    pub pci: Option<u64>,
    pub type_str: String,
    pub arfcn: u64,
    pub band: String,
    pub rssi_milli_dbm: i64,
    pub rsrp_milli_dbm: i64,
    pub rsrq_milli_db: i64,
    pub estimated_down_bandwidth: Option<u64>,
    pub estimated_up_bandwidth: Option<u64>,
}

/// The identifier preference of a DevicePublisher record:
/// `cid`, then `pci`, then `nodeB`, then 0.
pub open spec fn spec_safe_id(c: CellData) -> u64 {
    if c.cid is Some {
        c.cid->0
    } else if c.pci is Some {
        c.pci->0
    } else if c.nodeB is Some {
        c.nodeB->0
    } else {
        0
    }
}

impl CellData {
    /// The first identifier among `cid`, `pci` and `nodeB`; 0 if all are
    /// absent.
    pub fn safe_id(&self) -> (r: u64)
        ensures
            r == spec_safe_id(*self),
    {
        if let Some(v) = self.cid {
            v
        } else if let Some(v) = self.pci {
            v
        } else if let Some(v) = self.nodeB {
            v
        } else {
            0
        }
    }
}

/// Cells of `s` that share `frequency` and `cell_type`.
pub open spec fn key_count(s: Seq<SingleCell>, frequency: u64, cell_type: CellularType) -> nat
    decreases s.len(),
{
    if s.len() == 0 {
        0
    } else {
        key_count(s.drop_last(), frequency, cell_type) + if s.last().frequency == frequency
            && s.last().cell_type == cell_type {
            1nat
        } else {
            0nat
        }
    }
}

/// Two polls report the same radio situation iff their cells map
/// 1-to-1 on `(frequency, cell_type)`: equally many cells, and every
/// `(frequency, cell_type)` pair occurs equally often on both sides;
/// identifiers are ignored.
pub open spec fn spec_equal_content(a: Seq<SingleCell>, b: Seq<SingleCell>) -> bool {
    &&& a.len() == b.len()
    &&& forall|i: int|
        0 <= i < a.len() ==> key_count(b, (#[trigger] a[i]).frequency, a[i].cell_type)
            == key_count(a, a[i].frequency, a[i].cell_type)
    &&& forall|j: int|
        0 <= j < b.len() ==> key_count(a, (#[trigger] b[j]).frequency, b[j].cell_type)
            == key_count(b, b[j].frequency, b[j].cell_type)
}

/// Counting over one more cell of a prefix.
proof fn lemma_key_count_take_step(s: Seq<SingleCell>, i: int, frequency: u64, cell_type: CellularType)
    requires
        0 <= i < s.len(),
    ensures
        key_count(s.take(i + 1), frequency, cell_type) == key_count(s.take(i), frequency, cell_type)
            + if s[i].frequency == frequency && s[i].cell_type == cell_type {
            1nat
        } else {
            0nat
        },
{
    assert(s.take(i + 1).drop_last() =~= s.take(i));
    assert(s.take(i + 1).last() == s[i]);
}

/// Cells of `cells` sharing the given key.
fn cell_key_count(cells: &Vec<SingleCell>, frequency: u64, cell_type: CellularType) -> (c: usize)
    ensures
        c == key_count(cells@, frequency, cell_type),
{
    let mut c: usize = 0;
    let mut i: usize = 0;
    while i < cells.len()
        invariant
            0 <= i <= cells@.len(),
            c <= i,
            c == key_count(cells@.take(i as int), frequency, cell_type),
        decreases cells@.len() - i,
    {
        proof {
            lemma_key_count_take_step(cells@, i as int, frequency, cell_type);
        }
        if cells[i].frequency == frequency && cells[i].cell_type == cell_type {
            c = c + 1;
        }
        i = i + 1;
    }
    proof {
        assert(cells@.take(cells@.len() as int) =~= cells@);
    }
    c
}

impl CellInfo {
    /// Whether two polls describe the same cells 1-to-1, compared on
    /// frequency and technology only.
    pub fn equal_content(info_a: &CellInfo, info_b: &CellInfo) -> (r: bool)
        ensures
            r == spec_equal_content(info_a.cells@, info_b.cells@),
    {
        if info_a.cells.len() != info_b.cells.len() {
            return false;
        }
        let mut i: usize = 0;
        while i < info_a.cells.len()
            invariant
                0 <= i <= info_a.cells@.len(),
                forall|k: int|
                    0 <= k < i ==> key_count(
                        info_b.cells@,
                        (#[trigger] info_a.cells@[k]).frequency,
                        info_a.cells@[k].cell_type,
                    ) == key_count(
                        info_a.cells@,
                        info_a.cells@[k].frequency,
                        info_a.cells@[k].cell_type,
                    ),
            decreases info_a.cells@.len() - i,
        {
            let frequency: u64 = info_a.cells[i].frequency;
            let cell_type: CellularType = info_a.cells[i].cell_type;
            if cell_key_count(&info_b.cells, frequency, cell_type) != cell_key_count(
                &info_a.cells,
                frequency,
                cell_type,
            ) {
                return false;
            }
            i = i + 1;
        }
        let mut j: usize = 0;
        while j < info_b.cells.len()
            invariant
                0 <= j <= info_b.cells@.len(),
                forall|k: int|
                    0 <= k < info_a.cells@.len() ==> key_count(
                        info_b.cells@,
                        (#[trigger] info_a.cells@[k]).frequency,
                        info_a.cells@[k].cell_type,
                    ) == key_count(
                        info_a.cells@,
                        info_a.cells@[k].frequency,
                        info_a.cells@[k].cell_type,
                    ),
                forall|k: int|
                    0 <= k < j ==> key_count(
                        info_a.cells@,
                        (#[trigger] info_b.cells@[k]).frequency,
                        info_b.cells@[k].cell_type,
                    ) == key_count(
                        info_b.cells@,
                        info_b.cells@[k].frequency,
                        info_b.cells@[k].cell_type,
                    ),
            decreases info_b.cells@.len() - j,
        {
            let frequency: u64 = info_b.cells[j].frequency;
            let cell_type: CellularType = info_b.cells[j].cell_type;
            if cell_key_count(&info_a.cells, frequency, cell_type) != cell_key_count(
                &info_b.cells,
                frequency,
                cell_type,
            ) {
                return false;
            }
            j = j + 1;
        }
        true
    }
}

/// The resource blocks a cell offers per slot, looked up by cell
/// identity; 100 where the cell is not known.
pub open spec fn spec_prb_from_cell_id(cell_id: u64) -> u16 {
    if cell_id == 21 || cell_id == 6 {
        50
    } else {
        100
    }
}

/// Number of PRBs per slot of a known cell; the default is 100.
pub fn prb_from_cell_id(cell_id: u64) -> (r: u16)
    ensures
        r == spec_prb_from_cell_id(cell_id),
{
    match cell_id {
        21 => 50,
        41 => 100,
        51 => 100,
        61 => 100,
        63 => 100,
        6 => 50,
        7 => 100,
        8 => 100,
        _ => 100,
    }
}

/// The cell a DevicePublisher record describes, or the error of its
/// conversion: an unknown network type or an out-of-range ARFCN.
pub open spec fn spec_cell_of_celldata(c: CellData) -> Result<SingleCell, CellInfoError> {
    match cellular_type_of(c.type_str@) {
        None => Err(CellInfoError::UnknownCellType),
        Some(t) => match arfcn_frequency_result(c.arfcn as int, t) {
            Err(e) => Err(e),
            Ok(f) => Ok(
                SingleCell {
                    cell_id: spec_safe_id(c),
                    cell_type: t,
                    nof_prb: spec_prb_from_cell_id(spec_safe_id(c)),
                    frequency: f,
                    rssi_milli_dbm: c.rssi_milli_dbm,
                    rsrp_milli_dbm: c.rsrp_milli_dbm,
                    rsrq_milli_db: c.rsrq_milli_db,
                    dl_est: c.estimated_down_bandwidth,
                    ul_est: c.estimated_up_bandwidth,
                },
            ),
        },
    }
}

/// The conversion of a whole DevicePublisher reply: every record in
/// order, stopped by the first failing record's error.
pub open spec fn spec_cells_of_celldata(s: Seq<CellData>) -> Result<Seq<SingleCell>, CellInfoError>
    decreases s.len(),
{
    if s.len() == 0 {
        Ok(Seq::empty())
    } else {
        match spec_cells_of_celldata(s.drop_last()) {
            Err(e) => Err(e),
            Ok(cells) => match spec_cell_of_celldata(s.last()) {
                Err(e) => Err(e),
                Ok(sc) => Ok(cells.push(sc)),
            },
        }
    }
}

impl CellInfo {
    /// Builds the cell set out of a DevicePublisher reply.  Succeeds iff
    /// every record carries a known network type and an in-range ARFCN;
    /// the first failing record decides the error.
    pub fn from_devpub_celldata(cell_data: Vec<CellData>) -> (r: Result<CellInfo, CellInfoError>)
        ensures
            r matches Ok(ci) ==> spec_cells_of_celldata(cell_data@) matches Ok(cells) && ci.cells@
                =~= cells,
            r matches Err(e) ==> spec_cells_of_celldata(cell_data@) matches Err(e2) && e == e2,
    {
        let mut cells: Vec<SingleCell> = Vec::new();
        let mut i: usize = 0;
        while i < cell_data.len()
            invariant
                0 <= i <= cell_data@.len(),
                spec_cells_of_celldata(cell_data@.take(i as int)) matches Ok(cs) && cells@ =~= cs,
            decreases cell_data@.len() - i,
        {
            let cell = &cell_data[i];
            let cell_type = match CellularType::from_str(cell.type_str.as_str()) {
                Ok(t) => t,
                Err(e) => {
                    proof {
                        lemma_cells_of_celldata_prefix_err(cell_data@, i as int);
                    }
                    return Err(e);
                },
            };
            let frequency = match arfcn_to_frequency(cell.arfcn, &cell_type) {
                Ok(f) => f,
                Err(e) => {
                    proof {
                        lemma_cells_of_celldata_prefix_err(cell_data@, i as int);
                    }
                    return Err(e);
                },
            };
            let cell_id = cell.safe_id();
            let single_cell = SingleCell {
                cell_id,
                cell_type,
                nof_prb: prb_from_cell_id(cell_id),
                frequency,
                rssi_milli_dbm: cell.rssi_milli_dbm,
                rsrp_milli_dbm: cell.rsrp_milli_dbm,
                rsrq_milli_db: cell.rsrq_milli_db,
                dl_est: cell.estimated_down_bandwidth,
                ul_est: cell.estimated_up_bandwidth,
            };
            cells.push(single_cell);
            proof {
                assert(cell_data@.take(i + 1).drop_last() =~= cell_data@.take(i as int));
                assert(cell_data@.take(i + 1).last() == cell_data@[i as int]);
            }
            i = i + 1;
        }
        proof {
            assert(cell_data@.take(cell_data@.len() as int) =~= cell_data@);
        }
        Ok(CellInfo { cells })
    }
}

/// If the conversion succeeds on a prefix and fails on the next record,
/// it fails on the whole reply with that record's error.
proof fn lemma_cells_of_celldata_prefix_err(s: Seq<CellData>, i: int)
    requires
        0 <= i < s.len(),
        spec_cells_of_celldata(s.take(i)) is Ok,
        spec_cell_of_celldata(s[i]) is Err,
    ensures
        spec_cells_of_celldata(s) matches Err(e) && (spec_cell_of_celldata(s[i]) matches Err(e2)
            && e == e2),
    decreases s.len() - i,
{
    if i + 1 == s.len() {
        assert(s.take(s.len() as int) =~= s);
        assert(s.drop_last() =~= s.take(i));
        assert(s.last() == s[i]);
    } else {
        assert(s.take(i + 1).drop_last() =~= s.take(i));
        assert(s.take(i + 1).last() == s[i]);
        lemma_cells_of_celldata_step_err(s, i + 1);
    }
}

/// Once a prefix fails, every longer prefix fails with the same error.
proof fn lemma_cells_of_celldata_step_err(s: Seq<CellData>, i: int)
    requires
        0 <= i <= s.len(),
        spec_cells_of_celldata(s.take(i)) is Err,
    ensures
        spec_cells_of_celldata(s) == spec_cells_of_celldata(s.take(i)),
    decreases s.len() - i,
{
    if i < s.len() {
        assert(s.take(i + 1).drop_last() =~= s.take(i));
        lemma_cells_of_celldata_step_err(s, i + 1);
    } else {
        assert(s.take(i) =~= s);
    }
}

/// Whether `c` is a decimal digit.
pub open spec fn is_digit(c: char) -> bool {
    '0' <= c <= '9'
}

/// The value of a decimal digit sequence, most significant first.
pub open spec fn dec_val(s: Seq<char>) -> int
    decreases s.len(),
{
    if s.len() == 0 {
        0
    } else {
        dec_val(s.drop_last()) * 10 + (s.last() as int - '0' as int)
    }
}

/// Whether every character of `s` is a decimal digit.
pub open spec fn all_digits(s: Seq<char>) -> bool {
    forall|i: int| 0 <= i < s.len() ==> is_digit(#[trigger] s[i])
}

/// The value of a digit sequence never shrinks as the sequence grows.
proof fn lemma_dec_val_monotone(s: Seq<char>, i: int, j: int)
    requires
        all_digits(s),
        0 <= i <= j <= s.len(),
    ensures
        0 <= dec_val(s.take(i)) <= dec_val(s.take(j)),
    decreases j - i,
{
    if i == j {
        lemma_dec_val_nonneg(s.take(i));
    } else {
        lemma_dec_val_monotone(s, i, j - 1);
        assert(s.take(j).drop_last() =~= s.take(j - 1));
        assert(is_digit(s[j - 1]));
    }
}

/// A digit sequence's value is never negative.
proof fn lemma_dec_val_nonneg(s: Seq<char>)
    requires
        all_digits(s),
    ensures
        dec_val(s) >= 0,
    decreases s.len(),
{
    if s.len() > 0 {
        assert(all_digits(s.drop_last())) by {
            assert forall|i: int| 0 <= i < s.drop_last().len() implies is_digit(
                #[trigger] s.drop_last()[i],
            ) by {
                assert(is_digit(s[i]));
            }
        }
        lemma_dec_val_nonneg(s.drop_last());
        assert(is_digit(s[s.len() - 1]));
    }
}

/// Reads the decimal digits `s[from..to]` as a number.  `None` exactly
/// when the value does not fit a word.
fn parse_decimal_range(s: &str, from: usize, to: usize) -> (r: Option<u64>)
    requires
        from <= to <= s@.len(),
        all_digits(s@.subrange(from as int, to as int)),
    ensures
        r matches Some(v) ==> v == dec_val(s@.subrange(from as int, to as int)) && dec_val(
            s@.subrange(from as int, to as int),
        ) <= u64::MAX,
        r is None <==> dec_val(s@.subrange(from as int, to as int)) > u64::MAX,
{
    let ghost digits = s@.subrange(from as int, to as int);
    let mut v: u64 = 0;
    let mut i: usize = from;
    while i < to
        invariant
            from <= i <= to <= s@.len(),
            digits == s@.subrange(from as int, to as int),
            all_digits(digits),
            v == dec_val(digits.take(i - from)),
        decreases to - i,
    {
        proof {
            assert(digits.take(i - from + 1).drop_last() =~= digits.take(i - from));
            assert(digits.take(i - from + 1).last() == digits[i - from]);
            assert(digits[i - from] == s@[i as int]);
            assert(is_digit(digits[i - from]));
            lemma_dec_val_nonneg(digits.take(i - from));
            assert(all_digits(digits.take(i - from))) by {
                assert forall|k: int| 0 <= k < digits.take(i - from).len() implies is_digit(
                    #[trigger] digits.take(i - from)[k],
                ) by {
                    assert(is_digit(digits[k]));
                }
            }
        }
        let c: char = s.get_char(i);
        let d: u64 = (c as u32) as u64 - 48;
        if v > (u64::MAX - d) / 10 {
            proof {
                assert(dec_val(digits.take(i - from + 1)) > u64::MAX) by (nonlinear_arith)
                    requires
                        dec_val(digits.take(i - from + 1)) == dec_val(digits.take(i - from)) * 10
                            + d,
                        dec_val(digits.take(i - from)) == v,
                        v > (u64::MAX - d) / 10,
                        0 <= d <= 9,
                        v >= 0,
                ;
                lemma_dec_val_monotone(digits, i - from + 1, digits.len() as int);
                assert(digits.take(digits.len() as int) =~= digits);
            }
            return None;
        }
        proof {
            assert(v * 10 + d <= u64::MAX) by (nonlinear_arith)
                requires
                    v <= (u64::MAX - d) / 10,
                    0 <= d <= 9,
                    0 <= v,
            ;
        }
        v = v * 10 + d;
        i = i + 1;
    }
    proof {
        assert(digits.take(digits.len() as int) =~= digits);
    }
    Some(v)
}

/// Position of the first non-digit at or after `j`, or the end.
pub open spec fn digit_run_end(s: Seq<char>, j: int) -> int
    decreases s.len() - j,
{
    if j < 0 || j >= s.len() {
        j
    } else if is_digit(s[j]) {
        digit_run_end(s, j + 1)
    } else {
        j
    }
}

/// Whether the signal pattern `( -? digits+ dBm )` matches at `i`: an
/// opening parenthesis, an optional minus, at least one digit, and the
/// closing `dBm)` right after the digits.
pub open spec fn signal_match_at(s: Seq<char>, i: int) -> bool {
    &&& 0 <= i < s.len()
    &&& s[i] == '('
    &&& ({
        let j0 = if i + 1 < s.len() && s[i + 1] == '-' {
            i + 2
        } else {
            i + 1
        };
        let k = digit_run_end(s, j0);
        &&& k > j0
        &&& k + 4 <= s.len()
        &&& s[k] == 'd'
        &&& s[k + 1] == 'B'
        &&& s[k + 2] == 'm'
        &&& s[k + 3] == ')'
    })
}

/// The dBm reading of the match at `i`.
pub open spec fn signal_value_at(s: Seq<char>, i: int) -> int {
    let neg = i + 1 < s.len() && s[i + 1] == '-';
    let j0 = if neg {
        i + 2
    } else {
        i + 1
    };
    let k = digit_run_end(s, j0);
    if neg {
        -dec_val(s.subrange(j0, k))
    } else {
        dec_val(s.subrange(j0, k))
    }
}

/// The leftmost signal match at or after `i`, if any.
pub open spec fn find_signal(s: Seq<char>, i: int) -> Option<int>
    decreases s.len() - i,
{
    if i < 0 || i >= s.len() {
        None
    } else if signal_match_at(s, i) {
        Some(signal_value_at(s, i))
    } else {
        find_signal(s, i + 1)
    }
}

/// Position of the first non-digit at or after `j`.
fn digit_run_end_exec(s: &str, j: usize) -> (r: usize)
    requires
        j <= s@.len(),
    ensures
        r == digit_run_end(s@, j as int),
        j <= r <= s@.len(),
{
    let n: usize = s.unicode_len();
    let mut k: usize = j;
    while k < n
        invariant
            j <= k <= n,
            n == s@.len(),
            digit_run_end(s@, j as int) == digit_run_end(s@, k as int),
        decreases n - k,
    {
        let c: char = s.get_char(k);
        if !(c >= '0' && c <= '9') {
            return k;
        }
        k = k + 1;
    }
    n
}

/// Reads the parenthesised dBm value out of a signal string, e.g. the
/// `-51` of `31asu (-51dBm)`: the leftmost match of the pattern
/// decides.  Succeeds exactly on a matching string whose reading fits
/// a signed word; a reading too large errs `InvalidNumber`, a string
/// without a match errs `SignalNotFound`.
pub fn cgi_extract_signal_dbm(signal: &str) -> (r: Result<i64, CellInfoError>)
    ensures
        (match find_signal(signal@, 0) {
            Some(v) => if -0x7fff_ffff_ffff_ffff <= v <= 0x7fff_ffff_ffff_ffff {
                r matches Ok(ok) && ok == v
            } else {
                r == Result::<i64, CellInfoError>::Err(CellInfoError::InvalidNumber)
            },
            None => r == Result::<i64, CellInfoError>::Err(CellInfoError::SignalNotFound),
        }),
{
    let n: usize = signal.unicode_len();
    if n == 0 {
        return Err(CellInfoError::SignalNotFound);
    }
    let mut i: usize = 0;
    while i < n
        invariant
            0 <= i <= n,
            n == signal@.len(),
            find_signal(signal@, 0) == find_signal(signal@, i as int),
        decreases n - i,
    {
        if signal.get_char(i) == '(' {
            let neg: bool = i + 1 < n && signal.get_char(i + 1) == '-';
            let j0: usize = if neg {
                i + 2
            } else {
                i + 1
            };
            if j0 <= n {
                let k: usize = digit_run_end_exec(signal, j0);
                if k > j0 && n >= 4 && k <= n - 4 && signal.get_char(k) == 'd' && signal.get_char(
                    k + 1,
                ) == 'B' && signal.get_char(k + 2) == 'm' && signal.get_char(k + 3) == ')' {
                    proof {
                        assert(signal_match_at(signal@, i as int));
                        assert(all_digits(signal@.subrange(j0 as int, k as int))) by {
                            assert forall|l: int| 0 <= l < k - j0 implies is_digit(
                                #[trigger] signal@.subrange(j0 as int, k as int)[l],
                            ) by {
                                lemma_digit_run_digits(signal@, j0 as int, j0 + l);
                            }
                        }
                    }
                    proof {
                        assert(find_signal(signal@, i as int) == Some(
                            signal_value_at(signal@, i as int),
                        ));
                        lemma_dec_val_nonneg(signal@.subrange(j0 as int, k as int));
                    }
                    let value = match parse_decimal_range(signal, j0, k) {
                        Some(v) => v,
                        None => {
                            proof {
                                assert(dec_val(signal@.subrange(j0 as int, k as int))
                                    > 0x7fff_ffff_ffff_ffff);
                            }
                            return Err(CellInfoError::InvalidNumber);
                        },
                    };
                    if value > i64::MAX as u64 {
                        return Err(CellInfoError::InvalidNumber);
                    }
                    let signed: i64 = if neg {
                        -(value as i64)
                    } else {
                        value as i64
                    };
                    return Ok(signed);
                }
            }
            proof {
                assert(!signal_match_at(signal@, i as int));
            }
        } else {
            proof {
                assert(!signal_match_at(signal@, i as int));
            }
        }
        i = i + 1;
    }
    Err(CellInfoError::SignalNotFound)
}

/// Every position of a digit run up to its end holds a digit.
proof fn lemma_digit_run_digits(s: Seq<char>, j: int, l: int)
    requires
        0 <= j <= l,
        l < digit_run_end(s, j),
    ensures
        0 <= l < s.len() && is_digit(s[l]),
    decreases l - j,
{
    if j < l {
        lemma_digit_run_digits(s, j + 1, l);
    }
}

/// The hexadecimal value of `c`, or 16 where `c` is no hex digit.
pub open spec fn hex_digit_val(c: char) -> int {
    if '0' <= c <= '9' {
        c as int - '0' as int
    } else if 'a' <= c <= 'f' {
        c as int - 'a' as int + 10
    } else if 'A' <= c <= 'F' {
        c as int - 'A' as int + 10
    } else {
        16
    }
}

/// Whether every character of `s` is a hex digit.
pub open spec fn all_hex_digits(s: Seq<char>) -> bool {
    forall|i: int| 0 <= i < s.len() ==> hex_digit_val(#[trigger] s[i]) < 16
}

/// The value of a hex digit sequence, most significant first.
pub open spec fn hex_val(s: Seq<char>) -> int
    decreases s.len(),
{
    if s.len() == 0 {
        0
    } else {
        hex_val(s.drop_last()) * 16 + hex_digit_val(s.last())
    }
}

/// A hex digit sequence's value is never negative.
proof fn lemma_hex_val_nonneg(s: Seq<char>)
    requires
        all_hex_digits(s),
    ensures
        hex_val(s) >= 0,
    decreases s.len(),
{
    if s.len() > 0 {
        assert(all_hex_digits(s.drop_last())) by {
            assert forall|i: int| 0 <= i < s.drop_last().len() implies hex_digit_val(
                #[trigger] s.drop_last()[i],
            ) < 16 by {
                assert(hex_digit_val(s[i]) < 16);
            }
        }
        lemma_hex_val_nonneg(s.drop_last());
        assert(hex_digit_val(s[s.len() - 1]) < 16);
        assert(hex_digit_val(s[s.len() - 1]) >= 0);
    }
}

/// The value of a hex digit sequence never shrinks as it grows.
proof fn lemma_hex_val_monotone(s: Seq<char>, i: int, j: int)
    requires
        all_hex_digits(s),
        0 <= i <= j <= s.len(),
    ensures
        0 <= hex_val(s.take(i)) <= hex_val(s.take(j)),
    decreases j - i,
{
    if i == j {
        assert(all_hex_digits(s.take(i))) by {
            assert forall|k: int| 0 <= k < s.take(i).len() implies hex_digit_val(
                #[trigger] s.take(i)[k],
            ) < 16 by {
                assert(hex_digit_val(s[k]) < 16);
            }
        }
        lemma_hex_val_nonneg(s.take(i));
    } else {
        lemma_hex_val_monotone(s, i, j - 1);
        assert(s.take(j).drop_last() =~= s.take(j - 1));
        assert(hex_digit_val(s[j - 1]) < 16);
        assert(hex_digit_val(s[j - 1]) >= 0);
    }
}

/// Reads a hexadecimal cell identifier such as `1C17302`.  Succeeds
/// exactly on a non-empty all-hex string whose value fits a word.
pub fn parse_hex_u64(s: &str) -> (r: Result<u64, CellInfoError>)
    ensures
        r matches Ok(v) ==> s@.len() > 0 && all_hex_digits(s@) && v == hex_val(s@),
        r is Err <==> (s@.len() == 0 || !all_hex_digits(s@) || hex_val(s@) > u64::MAX),
{
    let n: usize = s.unicode_len();
    if n == 0 {
        return Err(CellInfoError::InvalidNumber);
    }
    let mut v: u64 = 0;
    let mut i: usize = 0;
    while i < n
        invariant
            0 <= i <= n,
            n == s@.len(),
            all_hex_digits(s@.take(i as int)),
            v == hex_val(s@.take(i as int)),
        decreases n - i,
    {
        proof {
            assert(s@.take(i + 1).drop_last() =~= s@.take(i as int));
            assert(s@.take(i + 1).last() == s@[i as int]);
            lemma_hex_val_nonneg(s@.take(i as int));
        }
        let c: char = s.get_char(i);
        let d: u64 = if c >= '0' && c <= '9' {
            (c as u32) as u64 - 48
        } else if c >= 'a' && c <= 'f' {
            (c as u32) as u64 - 97 + 10
        } else if c >= 'A' && c <= 'F' {
            (c as u32) as u64 - 65 + 10
        } else {
            proof {
                assert(hex_digit_val(s@[i as int]) == 16);
            }
            return Err(CellInfoError::InvalidNumber);
        };
        proof {
            assert(d == hex_digit_val(s@[i as int]));
        }
        if v > (u64::MAX - d) / 16 {
            proof {
                assert(all_hex_digits(s@.take(i + 1))) by {
                    assert forall|k: int| 0 <= k < i + 1 implies hex_digit_val(
                        #[trigger] s@.take(i + 1)[k],
                    ) < 16 by {
                        if k < i {
                            assert(hex_digit_val(s@.take(i as int)[k]) < 16);
                        }
                    }
                }
                assert(hex_val(s@.take(i + 1)) > u64::MAX) by (nonlinear_arith)
                    requires
                        hex_val(s@.take(i + 1)) == hex_val(s@.take(i as int)) * 16 + d,
                        hex_val(s@.take(i as int)) == v,
                        v > (u64::MAX - d) / 16,
                        0 <= d <= 15,
                        v >= 0,
                ;
                if all_hex_digits(s@) {
                    lemma_hex_val_monotone(s@, i + 1, n as int);
                    assert(s@.take(n as int) =~= s@);
                }
            }
            return Err(CellInfoError::InvalidNumber);
        }
        proof {
            assert(v * 16 + d <= u64::MAX) by (nonlinear_arith)
                requires
                    v <= (u64::MAX - d) / 16,
                    0 <= d <= 15,
                    0 <= v,
            ;
        }
        v = v * 16 + d;
        i = i + 1;
    }
    proof {
        assert(s@.take(n as int) =~= s@);
    }
    Ok(v)
}

/// Reads a decimal ARFCN string such as `1300`.  Succeeds exactly on a
/// non-empty all-digit string whose value fits a word.
pub fn parse_u64_decimal(s: &str) -> (r: Result<u64, CellInfoError>)
    ensures
        r matches Ok(v) ==> s@.len() > 0 && all_digits(s@) && v == dec_val(s@),
        r is Err <==> (s@.len() == 0 || !all_digits(s@) || dec_val(s@) > u64::MAX),
{
    let n: usize = s.unicode_len();
    if n == 0 {
        return Err(CellInfoError::InvalidNumber);
    }
    let mut i: usize = 0;
    while i < n
        invariant
            0 <= i <= n,
            n == s@.len(),
            all_digits(s@.take(i as int)),
        decreases n - i,
    {
        let c: char = s.get_char(i);
        if !(c >= '0' && c <= '9') {
            proof {
                assert(!is_digit(s@[i as int]));
            }
            return Err(CellInfoError::InvalidNumber);
        }
        proof {
            assert(all_digits(s@.take(i + 1))) by {
                assert forall|k: int| 0 <= k < i + 1 implies is_digit(
                    #[trigger] s@.take(i + 1)[k],
                ) by {
                    if k < i {
                        assert(is_digit(s@.take(i as int)[k]));
                    }
                }
            }
        }
        i = i + 1;
    }
    proof {
        assert(s@.take(n as int) =~= s@);
        assert(all_digits(s@));
    }
    match parse_decimal_range(s, 0, n) {
        Some(v) => {
            proof {
                assert(s@.subrange(0, n as int) =~= s@);
            }
            Ok(v)
        },
        None => {
            proof {
                assert(s@.subrange(0, n as int) =~= s@);
            }
            Err(CellInfoError::InvalidNumber)
        },
    }
}

/// Position of the first non-digit in `s[j..to]`, or `to`.
pub open spec fn digit_run_end_to(s: Seq<char>, j: int, to: int) -> int
    decreases to - j,
{
    if j < 0 || j >= to || to > s.len() {
        j
    } else if is_digit(s[j]) {
        digit_run_end_to(s, j + 1, to)
    } else {
        j
    }
}

/// The trimmed sub-range of `s[from..to]`: surrounding spaces go.
pub open spec fn spec_trim_range(s: Seq<char>, from: int, to: int) -> (int, int)
    decreases to - from,
{
    if from >= to {
        (from, to)
    } else if s[from] == ' ' {
        spec_trim_range(s, from + 1, to)
    } else if s[to - 1] == ' ' {
        spec_trim_range(s, from, to - 1)
    } else {
        (from, to)
    }
}

/// The thousandths a signed decimal with an optional fraction in
/// `s[from..to]` denotes: `-? digits+ (. digits+)?`, fraction digits
/// beyond the third read but ignored; `None` where the shape is wrong
/// or the value does not fit a signed word.
pub open spec fn spec_signed_milli(s: Seq<char>, from: int, to: int) -> Option<int> {
    if from >= to || to > s.len() {
        None
    } else {
        let neg = s[from] == '-';
        let start = if neg {
            from + 1
        } else {
            from
        };
        let int_end = digit_run_end_to(s, start, to);
        if int_end == start {
            None
        } else {
            let iv = dec_val(s.subrange(start, int_end));
            let frac = if int_end == to {
                Some(0int)
            } else if s[int_end] == '.' && int_end + 1 < to && digit_run_end_to(s, int_end + 1, to)
                == to {
                let f0 = s[int_end + 1] as int - '0' as int;
                let f1 = if int_end + 2 < to {
                    s[int_end + 2] as int - '0' as int
                } else {
                    0
                };
                let f2 = if int_end + 3 < to {
                    s[int_end + 3] as int - '0' as int
                } else {
                    0
                };
                Some(f0 * 100 + f1 * 10 + f2)
            } else {
                None
            };
            match frac {
                None => None,
                Some(f) => if iv * 1000 + f > i64::MAX {
                    None
                } else if neg {
                    Some(-(iv * 1000 + f))
                } else {
                    Some(iv * 1000 + f)
                },
            }
        }
    }
}

/// Reads a signed decimal with an optional fraction out of
/// `s[from..to]`, in thousandths.
pub fn parse_signed_milli(s: &str, from: usize, to: usize) -> (r: Result<i64, CellInfoError>)
    requires
        from <= to <= s@.len(),
    ensures
        r matches Ok(v) ==> spec_signed_milli(s@, from as int, to as int) == Some(v as int),
        r is Err <==> spec_signed_milli(s@, from as int, to as int) is None,
{
    if from >= to {
        return Err(CellInfoError::InvalidNumber);
    }
    let neg: bool = s.get_char(from) == '-';
    let start: usize = if neg {
        from + 1
    } else {
        from
    };
    if start >= to {
        proof {
            assert(digit_run_end_to(s@, start as int, to as int) == start);
        }
        return Err(CellInfoError::InvalidNumber);
    }
    let int_end: usize = digit_run_end_exec_bounded(s, start, to);
    if int_end == start {
        return Err(CellInfoError::InvalidNumber);
    }
    proof {
        assert(all_digits(s@.subrange(start as int, int_end as int))) by {
            assert forall|l: int| 0 <= l < int_end - start implies is_digit(
                #[trigger] s@.subrange(start as int, int_end as int)[l],
            ) by {
                assert(is_digit(s@[start + l]));
            }
        }
    }
    let int_part: u64 = match parse_decimal_range(s, start, int_end) {
        Some(v) => v,
        None => {
            proof {
                lemma_milli_overflow_large_int(s@, from as int, to as int, start as int, int_end as int);
            }
            return Err(CellInfoError::InvalidNumber);
        },
    };
    let mut frac_milli: u64 = 0;
    if int_end < to {
        if s.get_char(int_end) != '.' {
            return Err(CellInfoError::InvalidNumber);
        }
        let frac_start: usize = int_end + 1;
        if frac_start >= to {
            return Err(CellInfoError::InvalidNumber);
        }
        let frac_end: usize = digit_run_end_exec_bounded(s, frac_start, to);
        if frac_end != to || frac_end == frac_start {
            return Err(CellInfoError::InvalidNumber);
        }
        let d0: u64 = digit_at(s, frac_start);
        let d1: u64 = if to - frac_start > 1 {
            digit_at(s, frac_start + 1)
        } else {
            0
        };
        let d2: u64 = if to - frac_start > 2 {
            digit_at(s, frac_start + 2)
        } else {
            0
        };
        frac_milli = d0 * 100 + d1 * 10 + d2;
    }
    proof {
        assert(frac_milli <= 999);
        assert((int_part * 1000 + frac_milli > i64::MAX) == (int_part > (i64::MAX - frac_milli)
            / 1000)) by (nonlinear_arith)
            requires
                0 <= frac_milli <= 999,
                0 <= int_part,
        ;
    }
    if int_part > (i64::MAX as u64 - frac_milli) / 1000 {
        return Err(CellInfoError::InvalidNumber);
    }
    let magnitude: i64 = (int_part * 1000 + frac_milli) as i64;
    if neg {
        Ok(-magnitude)
    } else {
        Ok(magnitude)
    }
}

/// A value too large for an unsigned word is too large for thousandths
/// of a signed one.
proof fn lemma_milli_overflow_large_int(s: Seq<char>, from: int, to: int, start: int, int_end: int)
    requires
        0 <= from < to <= s.len(),
        start == (if s[from] == '-' {
            from + 1
        } else {
            from
        }),
        int_end == digit_run_end_to(s, start, to),
        start < int_end,
        all_digits(s.subrange(start, int_end)),
        dec_val(s.subrange(start, int_end)) > u64::MAX,
    ensures
        spec_signed_milli(s, from, to) is None,
{
    let iv = dec_val(s.subrange(start, int_end));
    assert(iv * 1000 > i64::MAX) by (nonlinear_arith)
        requires
            iv > 0xFFFF_FFFF_FFFF_FFFF,
    ;
    if int_end < to && s[int_end] == '.' && int_end + 1 < to && digit_run_end_to(s, int_end + 1, to)
        == to {
        lemma_run_to_digits(s, int_end + 1, to, int_end + 1);
        if int_end + 2 < to {
            lemma_run_to_digits(s, int_end + 1, to, int_end + 2);
        }
        if int_end + 3 < to {
            lemma_run_to_digits(s, int_end + 1, to, int_end + 3);
        }
    }
}

/// Every position before a bounded digit run's end holds a digit.
proof fn lemma_run_to_digits(s: Seq<char>, j: int, to: int, l: int)
    requires
        0 <= j <= l,
        to <= s.len(),
        l < digit_run_end_to(s, j, to),
    ensures
        l < s.len() && is_digit(s[l]),
    decreases l - j,
{
    if j < l {
        lemma_run_to_digits(s, j + 1, to, l);
    }
}

/// The digit at position `i`, as a number.
fn digit_at(s: &str, i: usize) -> (r: u64)
    requires
        i < s@.len(),
        is_digit(s@[i as int]),
    ensures
        r == s@[i as int] as int - '0' as int,
        r <= 9,
{
    let c: char = s.get_char(i);
    (c as u32) as u64 - 48
}

/// Position of the first non-digit in `s[j..to]`, or `to`.
fn digit_run_end_exec_bounded(s: &str, j: usize, to: usize) -> (r: usize)
    requires
        j <= to <= s@.len(),
    ensures
        r == digit_run_end_to(s@, j as int, to as int),
        j <= r <= to,
        forall|l: int| j <= l < r ==> is_digit(#[trigger] s@[l]),
        r < to ==> !is_digit(s@[r as int]),
{
    let mut k: usize = j;
    while k < to
        invariant
            j <= k <= to <= s@.len(),
            digit_run_end_to(s@, j as int, to as int) == digit_run_end_to(s@, k as int, to as int),
            forall|l: int| j <= l < k ==> is_digit(#[trigger] s@[l]),
        decreases to - k,
    {
        let c: char = s.get_char(k);
        if !(c >= '0' && c <= '9') {
            proof {
                assert(!is_digit(s@[k as int]));
            }
            return k;
        }
        k = k + 1;
    }
    k
}

/// Reads a value with a trailing unit, such as `-77dBm` with three unit
/// characters: the unit is stripped, surrounding spaces go, and the
/// rest is read as a signed decimal in thousandths.
pub fn cgi_extract_trailing_value_milli(s: &str, strip: usize) -> (r: Result<i64, CellInfoError>)
    ensures
        s@.len() < strip ==> r is Err,
        s@.len() >= strip ==> ({
            let range = spec_trim_range(s@, 0, s@.len() - strip);
            &&& (r matches Ok(v) ==> spec_signed_milli(s@, range.0, range.1) == Some(v as int))
            &&& (r is Err <==> spec_signed_milli(s@, range.0, range.1) is None)
        }),
{
    let n: usize = s.unicode_len();
    if n < strip {
        return Err(CellInfoError::InvalidNumber);
    }
    let mut from: usize = 0;
    let mut to: usize = n - strip;
    while from < to && s.get_char(from) == ' '
        invariant
            0 <= from <= to <= s@.len(),
            n == s@.len(),
            to == n - strip,
            spec_trim_range(s@, 0, (n - strip) as int) == spec_trim_range(
                s@,
                from as int,
                to as int,
            ),
        decreases to - from,
    {
        from = from + 1;
    }
    while to > from && s.get_char(to - 1) == ' '
        invariant
            0 <= from <= to <= s@.len(),
            n == s@.len(),
            from == to || s@[from as int] != ' ',
            spec_trim_range(s@, 0, (n - strip) as int) == spec_trim_range(
                s@,
                from as int,
                to as int,
            ),
        decreases to,
    {
        to = to - 1;
    }
    proof {
        assert(spec_trim_range(s@, from as int, to as int) == (from as int, to as int));
    }
    parse_signed_milli(s, from, to)
}

/// Reads the pointed-to string out of a back-end reply; the navigation
/// and the string conversion are done by the JSON library.
fn cgi_string_field(response: &serde_json::Value, pointer: &str) -> (r: Result<
    String,
    CellInfoError,
>) {
    match helper_json_pointer(response, pointer) {
        Some(value) => match json_value_as_string(&value) {
            Some(text) => Ok(text),
            None => Err(CellInfoError::MissingField),
        },
        None => Err(CellInfoError::MissingField),
    }
}

/// The cell identifier of a Milesight reply: the `cellid` field read as
/// hexadecimal.
pub fn cgi_response_extract_cell_id(response: &serde_json::Value) -> (r: Result<
    u64,
    CellInfoError,
>) {
    match cgi_string_field(response, "/result/0/get/0/value/modem/cellid") {
        Ok(text) => parse_hex_u64(text.as_str()),
        Err(e) => Err(e),
    }
}

/// The radio technology of a Milesight reply: the `net_type` field.
pub fn cgi_response_extract_cell_type(response: &serde_json::Value) -> (r: Result<
    CellularType,
    CellInfoError,
>) {
    match cgi_string_field(response, "/result/0/get/0/value/modem/net_type") {
        Ok(text) => CellularType::from_str(text.as_str()),
        Err(e) => Err(e),
    }
}

/// The carrier frequency of a Milesight reply: the `earfcn` field, or
/// the `nrarfcn` field where the first is absent, converted by the band
/// tables.
pub fn cgi_response_extract_frequency(
    response: &serde_json::Value,
    cell_type: &CellularType,
) -> (r: Result<u64, CellInfoError>) {
    let arfcn_text = match cgi_string_field(response, "/result/0/get/0/value/more/earfcn") {
        Ok(text) => text,
        Err(_) => {
            match cgi_string_field(response, "/result/0/get/0/value/more/nrarfcn") {
                Ok(text) => text,
                Err(e) => {
                    return Err(e);
                },
            }
        },
    };
    match parse_u64_decimal(arfcn_text.as_str()) {
        Ok(arfcn) => arfcn_to_frequency(arfcn, cell_type),
        Err(e) => Err(e),
    }
}

/// The RSSI of a Milesight reply, in milli-dBm: the parenthesised dBm
/// reading of the `signal` field.
pub fn cgi_response_extract_rssi(response: &serde_json::Value) -> (r: Result<i64, CellInfoError>) {
    let text = match cgi_string_field(response, "/result/0/get/0/value/modem/signal") {
        Ok(text) => text,
        Err(e) => {
            return Err(e);
        },
    };
    let dbm = match cgi_extract_signal_dbm(text.as_str()) {
        Ok(v) => v,
        Err(e) => {
            return Err(e);
        },
    };
    if dbm > i64::MAX / 1000 || dbm < i64::MIN / 1000 {
        return Err(CellInfoError::InvalidNumber);
    }
    Ok(dbm * 1000)
}

/// The RSRP of a Milesight reply, in milli-dBm: the `rsrp` field with
/// its three-character unit stripped.
pub fn cgi_response_extract_rsrp(response: &serde_json::Value) -> (r: Result<i64, CellInfoError>) {
    match cgi_string_field(response, "/result/0/get/0/value/more/rsrp") {
        Ok(text) => cgi_extract_trailing_value_milli(text.as_str(), 3),
        Err(e) => Err(e),
    }
}

/// The RSRQ of a Milesight reply, in milli-dB: the `rsrq` field with
/// its two-character unit stripped.
pub fn cgi_response_extract_rsrq(response: &serde_json::Value) -> (r: Result<i64, CellInfoError>) {
    match cgi_string_field(response, "/result/0/get/0/value/more/rsrq") {
        Ok(text) => cgi_extract_trailing_value_milli(text.as_str(), 2),
        Err(e) => Err(e),
    }
}

impl CellInfo {
    /// Builds the cell set out of a Milesight CGI reply: one cell with
    /// every field extracted from the reply and the PRB count looked up
    /// by the cell identity.
    pub fn from_cgi_response(response_value: &serde_json::Value) -> (r: Result<
        CellInfo,
        CellInfoError,
    >)
        ensures
            r matches Ok(ci) ==> ci.cells@.len() == 1 && ci.cells@[0].nof_prb
                == spec_prb_from_cell_id(ci.cells@[0].cell_id),
    {
        let cell_id = match cgi_response_extract_cell_id(response_value) {
            Ok(v) => v,
            Err(e) => {
                return Err(e);
            },
        };
        let cell_type = match cgi_response_extract_cell_type(response_value) {
            Ok(v) => v,
            Err(e) => {
                return Err(e);
            },
        };
        let frequency = match cgi_response_extract_frequency(response_value, &cell_type) {
            Ok(v) => v,
            Err(e) => {
                return Err(e);
            },
        };
        let rssi_milli_dbm = match cgi_response_extract_rssi(response_value) {
            Ok(v) => v,
            Err(e) => {
                return Err(e);
            },
        };
        let rsrp_milli_dbm = match cgi_response_extract_rsrp(response_value) {
            Ok(v) => v,
            Err(e) => {
                return Err(e);
            },
        };
        let rsrq_milli_db = match cgi_response_extract_rsrq(response_value) {
            Ok(v) => v,
            Err(e) => {
                return Err(e);
            },
        };
        let single_cell = SingleCell {
            cell_id,
            cell_type,
            nof_prb: prb_from_cell_id(cell_id),
            frequency,
            rssi_milli_dbm,
            rsrp_milli_dbm,
            rsrq_milli_db,
            dl_est: None,
            ul_est: None,
        };
        let mut cells: Vec<SingleCell> = Vec::new();
        cells.push(single_cell);
        Ok(CellInfo { cells })
    }
}

} // verus!
