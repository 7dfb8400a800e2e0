//! The measurement downloader: per-download accounting, the RTT marker
//! embedded by the peer, and the download state machine.

use vstd::prelude::*;
use vstd::string::{StrSliceExecFns, StringExecFns};

use crate::logic::DownloaderState;
use crate::parse::Scenario;
use crate::ngscope_types::{NgScopeCellDci, NgScopeRntiDci};
use crate::util::{sat_add_u64, spec_sat_add_u64};

verus! {

broadcast use vstd::array::group_array_axioms;

/// Sleep before the first download, in milliseconds.
pub const INITIAL_SLEEP_TIME_MS: u64 = 20_000;

/// Sleep of the idle `Ready` state, in milliseconds.
pub const READILY_WAITING_SLEEP_TIME_MS: u64 = 500;

/// Sleep after a failed download, in milliseconds.
pub const RECOVERY_SLEEP_TIME_MS: u64 = 2_000;

/// Sleep between two downloads, in milliseconds.
pub const BETWEEN_DOWNLOADS_SLEEP_TIME_MS: u64 = 1_000;

/// A download that carried no byte for this long is aborted, in
/// microseconds.
pub const RESTART_TIMEOUT_US: u64 = 2_000_000;

/// DCIs are still collected for this long after the stream ends, in
/// microseconds.
pub const POST_DOWNLOAD_TIME_US: u64 = 2_000_000;

/// Size of the TCP read buffer.
pub const TCP_STREAM_READ_BUFFER_SIZE: usize = 100_000;

/// Bytes and round-trip time of one read.
#[derive(Clone, Copy, Debug, PartialEq, Eq, Structural)]
pub struct TcpLogStats {
    pub received_bytes: u64,
    pub rtt_us: u64,
}

/// The accounting of one active download.
#[derive(Clone, Debug, PartialEq)]
pub struct DownloadStreamState {
    pub base_addr: String,
    pub path: String,
    pub rnti_share_type: u8,
    pub last_rtt_us: Option<u64>,
    pub start_timestamp_us: u64,
    pub finish_timestamp_us: Option<u64>,
    pub timedata: Vec<(u64, TcpLogStats)>,
    pub dci_total_dl_bit: u64,
    pub dci_rnti_dl_bit: u64,
    pub dci_total_dl_prb_with_tbs: u64,
    pub dci_total_dl_prb_no_tbs: u64,
    pub dci_rnti_dl_prb_with_tbs: u64,
    pub dci_rnti_dl_prb_no_tbs: u64,
}

/// The record emitted when a download ends.
#[derive(Clone, Debug, PartialEq)]
pub struct DownloadFinishParameters {
    pub base_addr: String,
    pub path: String,
    pub start_timestamp_us: u64,
    pub finish_timestamp_us: u64,
    pub average_rtt_us: u64,
    pub total_download_bytes: u64,
    pub dci_total_dl_bit: u64,
    pub dci_rnti_dl_bit: u64,
    pub dci_total_dl_prb_with_tbs: u64,
    pub dci_total_dl_prb_no_tbs: u64,
    pub dci_rnti_dl_prb_with_tbs: u64,
    pub dci_rnti_dl_prb_no_tbs: u64,
}

/// What the model is told while a download runs.
#[derive(Clone, Copy, Debug, PartialEq, Eq, Structural)]
pub struct DownloadConfig {
    pub rtt_us: u64,
    pub rnti_share_type: u8,
}

/// The big-endian value of the four bytes at `i`.
pub open spec fn be_u32(b: Seq<u8>, i: int) -> int {
    0x100_0000 * b[i] + 0x1_0000 * b[i + 1] + 0x100 * b[i + 2] + b[i + 3]
}

/// Whether the ten bytes at `i` are an RTT marker:
/// `AA AB AC <rtt: 4 bytes big-endian> BA BB BC`.
pub open spec fn rtt_marker_at(b: Seq<u8>, i: int) -> bool {
    &&& 0 <= i
    &&& i + 10 <= b.len()
    &&& b[i] == 0xAA
    &&& b[i + 1] == 0xAB
    &&& b[i + 2] == 0xAC
    &&& b[i + 7] == 0xBA
    &&& b[i + 8] == 0xBB
    &&& b[i + 9] == 0xBC
}

/// The RTT of the marker closest to the tail at or below position `i`,
/// if any.
pub open spec fn spec_find_rtt(b: Seq<u8>, i: int) -> Option<int>
    decreases i + 1,
{
    if i < 0 {
        None
    } else if rtt_marker_at(b, i) {
        Some(be_u32(b, i + 3))
    } else {
        spec_find_rtt(b, i - 1)
    }
}

/// What `try_to_extract_last_rtt` returns: the tail-most marker's RTT.
pub open spec fn spec_last_rtt(b: Seq<u8>) -> Option<int> {
    if b.len() < 10 {
        None
    } else {
        spec_find_rtt(b, b.len() - 10)
    }
}

/// Reads the RTT marker nearest to the buffer's tail.  Returns the
/// big-endian value between the marker halves, or `None` when no
/// position of the buffer carries a marker.
pub fn try_to_extract_last_rtt(buffer: &[u8]) -> (r: Option<u64>)
    ensures
        r matches Some(v) ==> spec_last_rtt(buffer@) == Some(v as int),
        r is None <==> spec_last_rtt(buffer@) is None,
{
    let n: usize = buffer.len();
    if n < 10 {
        return None;
    }
    let mut i: usize = n - 10;
    loop
        invariant
            0 <= i <= n - 10,
            n == buffer@.len(),
            n >= 10,
            spec_find_rtt(buffer@, n - 10) == spec_find_rtt(buffer@, i as int),
        decreases i,
    {
        if buffer[i] == 0xAA && buffer[i + 1] == 0xAB && buffer[i + 2] == 0xAC && buffer[i + 7]
            == 0xBA && buffer[i + 8] == 0xBB && buffer[i + 9] == 0xBC {
            proof {
                assert(rtt_marker_at(buffer@, i as int));
            }
            let rtt: u64 = 0x100_0000 * (buffer[i + 3] as u64) + 0x1_0000 * (buffer[i + 4] as u64)
                + 0x100 * (buffer[i + 5] as u64) + (buffer[i + 6] as u64);
            return Some(rtt);
        }
        proof {
            assert(!rtt_marker_at(buffer@, i as int));
        }
        if i == 0 {
            proof {
                assert(spec_find_rtt(buffer@, 0) == spec_find_rtt(buffer@, -1));
            }
            return None;
        }
        i = i - 1;
    }
}

/// A buffer that ends in a marker yields exactly that marker's RTT.
pub proof fn lemma_rtt_marker_at_tail(b: Seq<u8>)
    requires
        b.len() >= 10,
        rtt_marker_at(b, b.len() - 10),
    ensures
        spec_last_rtt(b) == Some(be_u32(b, b.len() - 7)),
{
}

/// A buffer without any marker yields nothing.
pub proof fn lemma_rtt_no_marker(b: Seq<u8>)
    requires
        forall|i: int| !rtt_marker_at(b, i),
    ensures
        spec_last_rtt(b) is None,
{
    if b.len() >= 10 {
        lemma_rtt_no_marker_rec(b, b.len() - 10);
    }
}

proof fn lemma_rtt_no_marker_rec(b: Seq<u8>, i: int)
    requires
        forall|j: int| !rtt_marker_at(b, j),
    ensures
        spec_find_rtt(b, i) is None,
    decreases i + 1,
{
    if i >= 0 {
        lemma_rtt_no_marker_rec(b, i - 1);
    }
}

/// Decodes the RTT out of the last 40 bytes of a read; keeps and
/// returns the previous RTT when the read carries no marker.
pub fn try_to_decode_rtt(buffer: &[u8], last_rtt_us: &mut Option<u64>) -> (r: Option<u64>)
    ensures
        ({
            let tail = if buffer@.len() > 40 {
                buffer@.skip(buffer@.len() - 40)
            } else {
                buffer@
            };
            match spec_last_rtt(tail) {
                Some(v) => r == Some(v as u64) && *final(last_rtt_us) == Some(v as u64),
                None => r == *old(last_rtt_us) && *final(last_rtt_us) == *old(last_rtt_us),
            }
        }),
{
    let n: usize = buffer.len();
    let partial: &[u8] = if n > 40 {
        let (_, tail) = buffer.split_at(n - 40);
        proof {
            assert(tail@ =~= buffer@.skip(buffer@.len() - 40));
        }
        tail
    } else {
        buffer
    };
    match try_to_extract_last_rtt(partial) {
        Some(rtt_us) => {
            *last_rtt_us = Some(rtt_us);
            Some(rtt_us)
        },
        None => *last_rtt_us,
    }
}

/// Whether the five characters `f a i r d` occur in `s` at `i`.
pub open spec fn fair_at(s: Seq<char>, d: char, i: int) -> bool {
    &&& 0 <= i
    &&& i + 5 <= s.len()
    &&& s[i] == 'f'
    &&& s[i + 1] == 'a'
    &&& s[i + 2] == 'i'
    &&& s[i + 3] == 'r'
    &&& s[i + 4] == d
}

/// Whether `fair<d>` occurs anywhere in `s`.
pub open spec fn contains_fair(s: Seq<char>, d: char) -> bool {
    exists|i: int| fair_at(s, d, i)
}

/// Whether the path names the `fair<digit>` download flavour.
fn path_contains_fair(path: &str, digit: char) -> (r: bool)
    ensures
        r == contains_fair(path@, digit),
{
    let n: usize = path.unicode_len();
    if n < 5 {
        proof {
            assert(!contains_fair(path@, digit)) by {
                if contains_fair(path@, digit) {
                    let i = choose|i: int| fair_at(path@, digit, i);
                }
            }
        }
        return false;
    }
    let mut i: usize = 0;
    while i <= n - 5
        invariant
            0 <= i <= n - 5 + 1,
            n == path@.len(),
            n >= 5,
            forall|j: int| 0 <= j < i ==> !fair_at(path@, digit, j),
        decreases n - i,
    {
        if path.get_char(i) == 'f' && path.get_char(i + 1) == 'a' && path.get_char(i + 2) == 'i'
            && path.get_char(i + 3) == 'r' && path.get_char(i + 4) == digit {
            proof {
                assert(fair_at(path@, digit, i as int));
            }
            return true;
        }
        i = i + 1;
    }
    proof {
        assert(!contains_fair(path@, digit)) by {
            if contains_fair(path@, digit) {
                let j = choose|j: int| fair_at(path@, digit, j);
                assert(j <= path@.len() - 5);
            }
        }
    }
    false
}

/// The share type a download path selects: `fair2` means greedy
/// sharing, `fair1` occurrence-based sharing, anything else the
/// default.
pub open spec fn spec_share_type_of_path(s: Seq<char>) -> u8 {
    if contains_fair(s, '2') {
        2
    } else if contains_fair(s, '1') {
        1
    } else {
        0
    }
}

/// Reads the RNTI share type out of a download path.
pub fn determine_rnti_fair_share_type_by_path(path: &str) -> (r: u8)
    ensures
        r == spec_share_type_of_path(path@),
{
    if path_contains_fair(path, '2') {
        2
    } else if path_contains_fair(path, '1') {
        1
    } else {
        0
    }
}

/// The valid per-RNTI records of one DCI.
pub open spec fn valid_entries(d: NgScopeCellDci) -> Seq<NgScopeRntiDci> {
    d.rnti_list@.take(
        if d.nof_rnti as int <= 20 {
            d.nof_rnti as int
        } else {
            20
        },
    )
}

/// Saturating sum of `dl_tbs_bit` over the records of `r`, on `base`.
pub open spec fn rnti_bits_after(es: Seq<NgScopeRntiDci>, r: u16, base: int) -> int
    decreases es.len(),
{
    if es.len() == 0 {
        base
    } else {
        spec_sat_add_u64(
            rnti_bits_after(es.drop_last(), r, base),
            if es.last().rnti == r {
                es.last().dl_tbs_bit as int
            } else {
                0
            },
        )
    }
}

/// Saturating sum of `dl_prb` over the records of `r`, on `base`.
pub open spec fn rnti_prb_after(es: Seq<NgScopeRntiDci>, r: u16, base: int) -> int
    decreases es.len(),
{
    if es.len() == 0 {
        base
    } else {
        spec_sat_add_u64(
            rnti_prb_after(es.drop_last(), r, base),
            if es.last().rnti == r {
                es.last().dl_prb as int
            } else {
                0
            },
        )
    }
}

/// Saturating sum of `dl_no_tbs_prb` over the records of `r`, on `base`.
pub open spec fn rnti_no_tbs_after(es: Seq<NgScopeRntiDci>, r: u16, base: int) -> int
    decreases es.len(),
{
    if es.len() == 0 {
        base
    } else {
        spec_sat_add_u64(
            rnti_no_tbs_after(es.drop_last(), r, base),
            if es.last().rnti == r {
                es.last().dl_no_tbs_prb as int
            } else {
                0
            },
        )
    }
}

/// Saturating sum of `dl_tbs_bit` over all records, on `base`.
pub open spec fn all_bits_after(es: Seq<NgScopeRntiDci>, base: int) -> int
    decreases es.len(),
{
    if es.len() == 0 {
        base
    } else {
        spec_sat_add_u64(all_bits_after(es.drop_last(), base), es.last().dl_tbs_bit as int)
    }
}

/// Saturating sum of `dl_prb` over all records, on `base`.
pub open spec fn all_prb_after(es: Seq<NgScopeRntiDci>, base: int) -> int
    decreases es.len(),
{
    if es.len() == 0 {
        base
    } else {
        spec_sat_add_u64(all_prb_after(es.drop_last(), base), es.last().dl_prb as int)
    }
}

/// Saturating sum of `dl_no_tbs_prb` over all records, on `base`.
pub open spec fn all_no_tbs_after(es: Seq<NgScopeRntiDci>, base: int) -> int
    decreases es.len(),
{
    if es.len() == 0 {
        base
    } else {
        spec_sat_add_u64(all_no_tbs_after(es.drop_last(), base), es.last().dl_no_tbs_prb as int)
    }
}

impl DownloadStreamState {
    /// A fresh accounting record for one download of `path`, with the
    /// share type the path selects.
    pub fn new(base_addr: String, path: String) -> (r: DownloadStreamState)
        ensures
            r.base_addr@ == base_addr@,
            r.path@ == path@,
            r.rnti_share_type == spec_share_type_of_path(path@),
            r.last_rtt_us is None,
            r.start_timestamp_us == 0,
            r.finish_timestamp_us is None,
            r.timedata@.len() == 0,
            r.dci_total_dl_bit == 0 && r.dci_rnti_dl_bit == 0,
            r.dci_total_dl_prb_with_tbs == 0 && r.dci_total_dl_prb_no_tbs == 0,
            r.dci_rnti_dl_prb_with_tbs == 0 && r.dci_rnti_dl_prb_no_tbs == 0,
    {
        let rnti_share_type = determine_rnti_fair_share_type_by_path(path.as_str());
        DownloadStreamState {
            base_addr,
            path,
            rnti_share_type,
            last_rtt_us: None,
            start_timestamp_us: 0,
            finish_timestamp_us: None,
            timedata: Vec::new(),
            dci_total_dl_bit: 0,
            dci_rnti_dl_bit: 0,
            dci_total_dl_prb_with_tbs: 0,
            dci_total_dl_prb_no_tbs: 0,
            dci_rnti_dl_prb_with_tbs: 0,
            dci_rnti_dl_prb_no_tbs: 0,
        }
    }

    /// Adds one DCI to the download's counters: the cell-wide sums
    /// always grow, the per-RNTI sums only when the UE RNTI is known.
    pub fn add_ngscope_dci(&mut self, ngscope_dci: &NgScopeCellDci, rnti_option: Option<u16>)
        ensures
            spec_add_dci_step(*old(self), *final(self), *ngscope_dci, rnti_option),
    {
        let m: usize = if (ngscope_dci.nof_rnti as usize) <= 20 {
            ngscope_dci.nof_rnti as usize
        } else {
            20
        };
        let ghost es = valid_entries(*ngscope_dci);
        proof {
            assert(ngscope_dci.rnti_list@.len() == 20);
            assert(es.len() == m);
        }
        let mut j: usize = 0;
        while j < m
            invariant
                0 <= j <= m <= 20,
                es == valid_entries(*ngscope_dci),
                es.len() == m,
                forall|k: int| 0 <= k < m ==> es[k] == ngscope_dci.rnti_list@[k],
                self.dci_total_dl_bit == all_bits_after(
                    es.take(j as int),
                    old(self).dci_total_dl_bit as int,
                ),
                self.dci_total_dl_prb_with_tbs == all_prb_after(
                    es.take(j as int),
                    old(self).dci_total_dl_prb_with_tbs as int,
                ),
                self.dci_total_dl_prb_no_tbs == all_no_tbs_after(
                    es.take(j as int),
                    old(self).dci_total_dl_prb_no_tbs as int,
                ),
                rnti_option matches Some(r) ==> self.dci_rnti_dl_bit == rnti_bits_after(
                    es.take(j as int),
                    r,
                    old(self).dci_rnti_dl_bit as int,
                ) && self.dci_rnti_dl_prb_with_tbs == rnti_prb_after(
                    es.take(j as int),
                    r,
                    old(self).dci_rnti_dl_prb_with_tbs as int,
                ) && self.dci_rnti_dl_prb_no_tbs == rnti_no_tbs_after(
                    es.take(j as int),
                    r,
                    old(self).dci_rnti_dl_prb_no_tbs as int,
                ),
                rnti_option is None ==> self.dci_rnti_dl_bit == old(self).dci_rnti_dl_bit
                    && self.dci_rnti_dl_prb_with_tbs == old(self).dci_rnti_dl_prb_with_tbs
                    && self.dci_rnti_dl_prb_no_tbs == old(self).dci_rnti_dl_prb_no_tbs,
                self.base_addr == old(self).base_addr,
                self.path == old(self).path,
                self.rnti_share_type == old(self).rnti_share_type,
                self.last_rtt_us == old(self).last_rtt_us,
                self.start_timestamp_us == old(self).start_timestamp_us,
                self.finish_timestamp_us == old(self).finish_timestamp_us,
                self.timedata == old(self).timedata,
            decreases m - j,
        {
            proof {
                assert(es.take(j + 1).drop_last() =~= es.take(j as int));
                assert(es.take(j + 1).last() == es[j as int]);
            }
            let e = &ngscope_dci.rnti_list[j];
            self.dci_total_dl_bit = sat_add_u64(self.dci_total_dl_bit, e.dl_tbs_bit as u64);
            self.dci_total_dl_prb_with_tbs = sat_add_u64(
                self.dci_total_dl_prb_with_tbs,
                e.dl_prb as u64,
            );
            self.dci_total_dl_prb_no_tbs = sat_add_u64(
                self.dci_total_dl_prb_no_tbs,
                e.dl_no_tbs_prb as u64,
            );
            if let Some(r) = rnti_option {
                if e.rnti == r {
                    self.dci_rnti_dl_bit = sat_add_u64(self.dci_rnti_dl_bit, e.dl_tbs_bit as u64);
                    self.dci_rnti_dl_prb_with_tbs = sat_add_u64(
                        self.dci_rnti_dl_prb_with_tbs,
                        e.dl_prb as u64,
                    );
                    self.dci_rnti_dl_prb_no_tbs = sat_add_u64(
                        self.dci_rnti_dl_prb_no_tbs,
                        e.dl_no_tbs_prb as u64,
                    );
                }
            }
            j = j + 1;
        }
        proof {
            assert(es.take(m as int) =~= es);
        }
    }
}

/// The full relation of adding one DCI to a download's counters: each
/// cell-wide sum grows by the DCI's valid-record total (saturating),
/// each per-RNTI sum by the records of the known UE RNTI, and nothing
/// else changes.
pub open spec fn spec_add_dci_step(
    before: DownloadStreamState,
    after: DownloadStreamState,
    dci: NgScopeCellDci,
    rnti_option: Option<u16>,
) -> bool {
    let es = valid_entries(dci);
    &&& after.dci_total_dl_bit == all_bits_after(es, before.dci_total_dl_bit as int)
    &&& after.dci_total_dl_prb_with_tbs == all_prb_after(
        es,
        before.dci_total_dl_prb_with_tbs as int,
    )
    &&& after.dci_total_dl_prb_no_tbs == all_no_tbs_after(
        es,
        before.dci_total_dl_prb_no_tbs as int,
    )
    &&& match rnti_option {
        Some(r) => {
            &&& after.dci_rnti_dl_bit == rnti_bits_after(es, r, before.dci_rnti_dl_bit as int)
            &&& after.dci_rnti_dl_prb_with_tbs == rnti_prb_after(
                es,
                r,
                before.dci_rnti_dl_prb_with_tbs as int,
            )
            &&& after.dci_rnti_dl_prb_no_tbs == rnti_no_tbs_after(
                es,
                r,
                before.dci_rnti_dl_prb_no_tbs as int,
            )
        },
        None => {
            &&& after.dci_rnti_dl_bit == before.dci_rnti_dl_bit
            &&& after.dci_rnti_dl_prb_with_tbs == before.dci_rnti_dl_prb_with_tbs
            &&& after.dci_rnti_dl_prb_no_tbs == before.dci_rnti_dl_prb_no_tbs
        },
    }
    &&& after.base_addr == before.base_addr
    &&& after.path == before.path
    &&& after.rnti_share_type == before.rnti_share_type
    &&& after.last_rtt_us == before.last_rtt_us
    &&& after.start_timestamp_us == before.start_timestamp_us
    &&& after.finish_timestamp_us == before.finish_timestamp_us
    &&& after.timedata == before.timedata
}

/// Saturating sum of the received bytes of a download.
pub open spec fn spec_total_bytes(s: Seq<(u64, TcpLogStats)>) -> int
    decreases s.len(),
{
    if s.len() == 0 {
        0
    } else {
        spec_sat_add_u64(spec_total_bytes(s.drop_last()), s.last().1.received_bytes as int)
    }
}

/// Saturating sum of the recorded round-trip times.
pub open spec fn spec_total_rtt(s: Seq<(u64, TcpLogStats)>) -> int
    decreases s.len(),
{
    if s.len() == 0 {
        0
    } else {
        spec_sat_add_u64(spec_total_rtt(s.drop_last()), s.last().1.rtt_us as int)
    }
}

/// Sums the bytes every read of the download received.
pub fn determine_average_download_bytes(timedata: &Vec<(u64, TcpLogStats)>) -> (r: u64)
    ensures
        r == spec_total_bytes(timedata@),
{
    let mut sum: u64 = 0;
    let mut i: usize = 0;
    while i < timedata.len()
        invariant
            0 <= i <= timedata@.len(),
            sum == spec_total_bytes(timedata@.take(i as int)),
        decreases timedata@.len() - i,
    {
        proof {
            assert(timedata@.take(i + 1).drop_last() =~= timedata@.take(i as int));
            assert(timedata@.take(i + 1).last() == timedata@[i as int]);
        }
        sum = sat_add_u64(sum, timedata[i].1.received_bytes);
        i = i + 1;
    }
    proof {
        assert(timedata@.take(timedata@.len() as int) =~= timedata@);
    }
    sum
}

/// The mean recorded round-trip time; 0 where nothing was recorded.
pub fn determine_average_rtt_us(timedata: &Vec<(u64, TcpLogStats)>) -> (r: u64)
    ensures
        timedata@.len() == 0 ==> r == 0,
        timedata@.len() > 0 ==> r == spec_total_rtt(timedata@) / (timedata@.len() as int),
{
    let n: usize = timedata.len();
    if n == 0 {
        return 0;
    }
    let mut sum: u64 = 0;
    let mut i: usize = 0;
    while i < n
        invariant
            0 <= i <= n,
            n == timedata@.len(),
            sum == spec_total_rtt(timedata@.take(i as int)),
        decreases n - i,
    {
        proof {
            assert(timedata@.take(i + 1).drop_last() =~= timedata@.take(i as int));
            assert(timedata@.take(i + 1).last() == timedata@[i as int]);
        }
        sum = sat_add_u64(sum, timedata[i].1.rtt_us);
        i = i + 1;
    }
    proof {
        assert(timedata@.take(n as int) =~= timedata@);
    }
    sum / (n as u64)
}

/// What the finish record of a download holds: the endpoints, the
/// recorded byte total, the mean round-trip time (0 without reads),
/// and every DCI counter copied from the accounting.
pub open spec fn spec_finish_record(
    s: DownloadStreamState,
    finish_us: u64,
    p: DownloadFinishParameters,
) -> bool {
    &&& p.base_addr@ == s.base_addr@
    &&& p.path@ == s.path@
    &&& p.start_timestamp_us == s.start_timestamp_us
    &&& p.finish_timestamp_us == finish_us
    &&& p.total_download_bytes == spec_total_bytes(s.timedata@)
    &&& (s.timedata@.len() == 0 ==> p.average_rtt_us == 0)
    &&& (s.timedata@.len() > 0 ==> p.average_rtt_us == spec_total_rtt(s.timedata@) / (
    s.timedata@.len() as int))
    &&& p.dci_total_dl_bit == s.dci_total_dl_bit
    &&& p.dci_rnti_dl_bit == s.dci_rnti_dl_bit
    &&& p.dci_total_dl_prb_with_tbs == s.dci_total_dl_prb_with_tbs
    &&& p.dci_total_dl_prb_no_tbs == s.dci_total_dl_prb_no_tbs
    &&& p.dci_rnti_dl_prb_with_tbs == s.dci_rnti_dl_prb_with_tbs
    &&& p.dci_rnti_dl_prb_no_tbs == s.dci_rnti_dl_prb_no_tbs
}

/// The finish record of a download that ended at `finish_us`.
pub fn finish_parameters(state: &DownloadStreamState, finish_us: u64) -> (r:
    DownloadFinishParameters)
    ensures
        spec_finish_record(*state, finish_us, r),
{
    DownloadFinishParameters {
        base_addr: state.base_addr.clone(),
        path: state.path.clone(),
        start_timestamp_us: state.start_timestamp_us,
        finish_timestamp_us: finish_us,
        average_rtt_us: determine_average_rtt_us(&state.timedata),
        total_download_bytes: determine_average_download_bytes(&state.timedata),
        dci_total_dl_bit: state.dci_total_dl_bit,
        dci_rnti_dl_bit: state.dci_rnti_dl_bit,
        dci_total_dl_prb_with_tbs: state.dci_total_dl_prb_with_tbs,
        dci_total_dl_prb_no_tbs: state.dci_total_dl_prb_no_tbs,
        dci_rnti_dl_prb_with_tbs: state.dci_rnti_dl_prb_with_tbs,
        dci_rnti_dl_prb_no_tbs: state.dci_rnti_dl_prb_no_tbs,
    }
}

/// One outcome of a non-blocking read on the download stream.
#[derive(Clone, Debug, PartialEq)]
pub enum TcpReadOutcome {
    /// Bytes arrived (possibly none: none means end of stream).
    Data(Vec<u8>),
    /// Nothing to read right now.
    WouldBlock,
    /// The server reset the connection.
    ConnectionReset,
    /// Any other stream error, as text.
    OtherError(String),
}

/// The full relation of one `Downloading` step: what the next state,
/// the broadcast, the accounting and the read log look like for each
/// read outcome.
pub open spec fn spec_downloading_step(
    before: DownloadStreamState,
    after: DownloadStreamState,
    outcome: TcpReadOutcome,
    now_us: u64,
    next: DownloaderState,
    cfg: Option<DownloadConfig>,
) -> bool {
    match outcome {
        TcpReadOutcome::Data(chunk) => {
            if chunk@.len() == 0 {
                &&& next is PostDownload
                &&& cfg is None
                &&& after == (DownloadStreamState {
                    finish_timestamp_us: Some(now_us),
                    ..before
                })
            } else {
                let tail = if chunk@.len() > 40 {
                    chunk@.skip(chunk@.len() - 40)
                } else {
                    chunk@
                };
                &&& next is Downloading
                &&& match spec_last_rtt(tail) {
                    Some(v) => {
                        &&& cfg == Some(
                            DownloadConfig {
                                rtt_us: v as u64,
                                rnti_share_type: before.rnti_share_type,
                            },
                        )
                        &&& after == (DownloadStreamState {
                            last_rtt_us: Some(v as u64),
                            timedata: after.timedata,
                            ..before
                        })
                        &&& after.timedata@ == (if spec_has_read_at(before.timedata@, now_us) {
                            before.timedata@
                        } else {
                            before.timedata@.push(
                                (
                                    now_us,
                                    TcpLogStats {
                                        received_bytes: chunk@.len() as u64,
                                        rtt_us: v as u64,
                                    },
                                ),
                            )
                        })
                    },
                    None => {
                        match before.last_rtt_us {
                            Some(prev) => {
                                &&& cfg == Some(
                                    DownloadConfig {
                                        rtt_us: prev,
                                        rnti_share_type: before.rnti_share_type,
                                    },
                                )
                                &&& after == (DownloadStreamState {
                                    timedata: after.timedata,
                                    ..before
                                })
                                &&& after.timedata@ == (if spec_has_read_at(
                                    before.timedata@,
                                    now_us,
                                ) {
                                    before.timedata@
                                } else {
                                    before.timedata@.push(
                                        (
                                            now_us,
                                            TcpLogStats {
                                                received_bytes: chunk@.len() as u64,
                                                rtt_us: prev,
                                            },
                                        ),
                                    )
                                })
                            },
                            None => {
                                cfg is None && after == before
                            },
                        }
                    },
                }
            }
        },
        TcpReadOutcome::WouldBlock => {
            &&& cfg is None
            &&& after == before
            &&& if before.timedata@.len() == 0 && now_us - before.start_timestamp_us
                > RESTART_TIMEOUT_US {
                next is ErrorStartingDownload
            } else {
                next is Downloading
            }
        },
        TcpReadOutcome::ConnectionReset => {
            &&& cfg is None
            &&& after == before
            &&& next matches DownloaderState::FinishDownload(p) && spec_finish_record(
                before,
                now_us,
                p,
            )
        },
        TcpReadOutcome::OtherError(_) => {
            &&& cfg is None
            &&& after == before
            &&& next is ErrorStartingDownload
        },
    }
}

/// Whether a read was already recorded at `ts`.
pub open spec fn spec_has_read_at(timedata: Seq<(u64, TcpLogStats)>, ts: u64) -> bool {
    exists|i: int| 0 <= i < timedata.len() && (#[trigger] timedata[i]).0 == ts
}

/// One step of the `Downloading` state, on one read outcome at `now_us`.
///
/// An empty read ends the stream and moves to `PostDownload`.  Data with
/// a decodable (or remembered) RTT records the read and reports the
/// download config to broadcast.  `WouldBlock` keeps downloading unless
/// nothing ever arrived within the restart timeout.  A connection reset
/// finalises the download at once; any other error aborts it.
#[verifier::rlimit(100)]
pub fn handle_downloading(state: &mut DownloadStreamState, outcome: &TcpReadOutcome, now_us: u64) -> (r: (
    DownloaderState,
    Option<DownloadConfig>,
))
    requires
        old(state).timedata@.len() < usize::MAX,
        now_us >= old(state).start_timestamp_us,
    ensures
        spec_downloading_step(*old(state), *final(state), *outcome, now_us, r.0, r.1),
{
    match outcome {
        TcpReadOutcome::Data(chunk) => {
            if chunk.len() == 0 {
                state.finish_timestamp_us = Some(now_us);
                (DownloaderState::PostDownload, None)
            } else {
                let decoded = try_to_decode_rtt(chunk.as_slice(), &mut state.last_rtt_us);
                match decoded {
                    Some(rtt_us) => {
                        if !timedata_has_key(&state.timedata, now_us) {
                            state.timedata.push(
                                (
                                    now_us,
                                    TcpLogStats { received_bytes: chunk.len() as u64, rtt_us },
                                ),
                            );
                        }
                        (
                            DownloaderState::Downloading,
                            Some(
                                DownloadConfig { rtt_us, rnti_share_type: state.rnti_share_type },
                            ),
                        )
                    },
                    None => (DownloaderState::Downloading, None),
                }
            }
        },
        TcpReadOutcome::WouldBlock => {
            if state.timedata.len() == 0 && now_us - state.start_timestamp_us > RESTART_TIMEOUT_US {
                (
                    DownloaderState::ErrorStartingDownload(
                        String::from_str("Downloading Timeout!"),
                    ),
                    None,
                )
            } else {
                (DownloaderState::Downloading, None)
            }
        },
        TcpReadOutcome::ConnectionReset => {
            let params = finish_parameters(state, now_us);
            (DownloaderState::FinishDownload(params), None)
        },
        TcpReadOutcome::OtherError(msg) => {
            (DownloaderState::ErrorStartingDownload(msg.clone()), None)
        },
    }
}

/// Whether a read was already recorded at `ts`.
fn timedata_has_key(timedata: &Vec<(u64, TcpLogStats)>, ts: u64) -> (r: bool)
    ensures
        r == spec_has_read_at(timedata@, ts),
{
    let mut i: usize = 0;
    while i < timedata.len()
        invariant
            0 <= i <= timedata@.len(),
            forall|k: int| 0 <= k < i ==> (#[trigger] timedata@[k]).0 != ts,
        decreases timedata@.len() - i,
    {
        if timedata[i].0 == ts {
            return true;
        }
        i = i + 1;
    }
    false
}

/// One step of the `PostDownload` state: DCIs keep arriving until the
/// grace period after the stream end has passed; then the finish record
/// goes out.
pub fn handle_post_download(state: &DownloadStreamState, now_us: u64) -> (r: DownloaderState)
    requires
        state.finish_timestamp_us is Some,
        state.finish_timestamp_us->0 + POST_DOWNLOAD_TIME_US <= u64::MAX,
    ensures
        now_us < state.finish_timestamp_us->0 + POST_DOWNLOAD_TIME_US ==> r is PostDownload,
        now_us >= state.finish_timestamp_us->0 + POST_DOWNLOAD_TIME_US ==> (r matches
            DownloaderState::FinishDownload(p) && spec_finish_record(
            *state,
            state.finish_timestamp_us->0,
            p,
        )),
{
    let finish_us: u64 = match state.finish_timestamp_us {
        Some(v) => v,
        None => 0,
    };
    if now_us < finish_us + POST_DOWNLOAD_TIME_US {
        DownloaderState::PostDownload
    } else {
        DownloaderState::FinishDownload(finish_parameters(state, finish_us))
    }
}

/// The state after a finished download: pause, then the next one.
pub fn handle_finish_download() -> (r: DownloaderState)
    ensures
        r matches DownloaderState::SleepMs(ms, next) ==> ms == BETWEEN_DOWNLOADS_SLEEP_TIME_MS
            && *next is StartDownload,
        r is SleepMs,
{
    DownloaderState::SleepMs(
        BETWEEN_DOWNLOADS_SLEEP_TIME_MS,
        Box::new(DownloaderState::StartDownload),
    )
}

/// Whether a DCI timestamp falls into the download's collection window.
pub fn dci_in_download_window(
    time_stamp: u64,
    start_timestamp_us: u64,
    finish_timestamp_us: &Option<u64>,
) -> (r: bool)
    ensures
        r == (time_stamp >= start_timestamp_us && match *finish_timestamp_us {
            Some(f) => time_stamp <= f,
            None => true,
        }),
{
    if time_stamp < start_timestamp_us {
        return false;
    }
    match finish_timestamp_us {
        Some(f) => time_stamp <= *f,
        None => true,
    }
}

/// Whether the downloader sits idle under this scenario: it runs only
/// during a measurement.
pub fn is_idle_scenario(scenario: Scenario) -> (r: bool)
    ensures
        r == !(scenario is PerformMeasurement),
{
    match scenario {
        Scenario::TrackCellDciOnly => true,
        Scenario::TrackUeAndEstimateTransportCapacity => true,
        Scenario::PerformMeasurement => false,
    }
}

} // verus!
