//! The RNTI matcher: per-round traffic accounting, the basic candidate
//! filter, and the selection of the best matching RNTI.

use vstd::prelude::*;

use crate::logic::{MetricA, MetricTypes, RntiMatcherState, RntiMatchingErrorType};
use crate::ngscope_types::{le_u16, le_u64, NgScopeCellDci, NgScopeRntiDci};
use crate::parse::Scenario;
use crate::traffic_patterns::TrafficPatternFeatures;
use crate::util::{sat_add_u64, spec_sat_add_u64};

verus! {

broadcast use vstd::array::group_array_axioms;

/// Pause between two matching rounds, in milliseconds.
pub const MATCHING_INTERVAL_MS: u64 = 1000;

/// Milliseconds-to-microseconds factor.
pub const TIME_MS_TO_US_FACTOR: u64 = 1000;

/// Largest uplink bytes a single DCI may attribute to a candidate.
pub const BASIC_FILTER_MAX_UL_PER_DCI: u64 = 5_000_000;

/// Number of winners the ring of recent winners keeps.
pub const RNTI_RING_BUFFER_SIZE: usize = 5;

/// Length of the metric header in a probe payload: magic plus version.
pub const METRIC_HEADER_LENGTH: usize = 5;

/// The magic bytes announcing a metric inside a probe payload.
pub const METRIC_INITIAL: [u8; 4] = [0x11, 0x21, 0x12, 0x22];

/// Version byte of the metric side channel.
pub const METRIC_VERSION: u8 = 1;

/// Uplink and downlink bytes of one subframe.
#[derive(Clone, Copy, Debug, PartialEq, Eq, Structural)]
pub struct Traffic {
    pub dl_bytes: u64,
    pub ul_bytes: u64,
}

/// The traffic of one RNTI over a matching round: bytes per DCI
/// timestamp plus running totals (saturating).
#[derive(Clone, Debug, PartialEq)]
pub struct UeTraffic {
    pub traffic: Vec<(u64, Traffic)>,
    pub total_dl_bytes: u64,
    pub total_ul_bytes: u64,
}

/// The traffic of one cell over a matching round.
#[derive(Clone, Debug, PartialEq)]
pub struct CellTrafficCollection {
    pub traffic: Vec<(u16, UeTraffic)>,
    pub nof_total_dci: u64,
    pub nof_empty_dci: u64,
    pub first_dci_timestamp_us: u64,
    pub last_dci_timestamp_us: u64,
}

/// How many candidates each basic filter removed.
#[derive(Clone, Copy, Debug, PartialEq, Eq, Structural, Default)]
pub struct BasicFilterStatistics {
    pub max_total_ul: u64,
    pub min_total_ul: u64,
    pub max_ul_per_dci: u64,
    pub min_occurences: u64,
}

/// One matching round: everything collected between `start_timestamp_ms`
/// and `finish_timestamp_ms`, with the pattern features to match against.
#[derive(Clone, Debug, PartialEq)]
pub struct TrafficCollection {
    pub cell_traffic: Vec<(u64, CellTrafficCollection)>,
    pub start_timestamp_ms: u64,
    pub finish_timestamp_ms: u64,
    pub traffic_pattern_features: TrafficPatternFeatures,
    pub basic_filter_statistics: Option<BasicFilterStatistics>,
}

/// Unique keys in a timestamp-to-traffic list.
pub open spec fn ts_keys_unique(s: Seq<(u64, Traffic)>) -> bool {
    forall|i: int, j: int| 0 <= i < j < s.len() ==> s[i].0 != s[j].0
}

/// Unique keys in an RNTI-to-traffic list.
pub open spec fn rnti_keys_unique(s: Seq<(u16, UeTraffic)>) -> bool {
    forall|i: int, j: int| 0 <= i < j < s.len() ==> s[i].0 != s[j].0
}

/// Unique keys in a cell-to-collection list.
pub open spec fn cell_keys_unique(s: Seq<(u64, CellTrafficCollection)>) -> bool {
    forall|i: int, j: int| 0 <= i < j < s.len() ==> s[i].0 != s[j].0
}

/// The traffic of RNTI `r` in an RNTI list, if present.
pub open spec fn spec_ue_of(s: Seq<(u16, UeTraffic)>, r: u16) -> Option<UeTraffic> {
    if exists|i: int| 0 <= i < s.len() && (#[trigger] s[i]).0 == r {
        let i = choose|i: int| 0 <= i < s.len() && (#[trigger] s[i]).0 == r;
        Some(s[i].1)
    } else {
        None
    }
}

/// Total uplink bytes of `r` in an RNTI list; 0 if unseen.
pub open spec fn spec_total_ul_of(s: Seq<(u16, UeTraffic)>, r: u16) -> int {
    match spec_ue_of(s, r) {
        Some(ue) => ue.total_ul_bytes as int,
        None => 0,
    }
}

/// Total downlink bytes of `r` in an RNTI list; 0 if unseen.
pub open spec fn spec_total_dl_of(s: Seq<(u16, UeTraffic)>, r: u16) -> int {
    match spec_ue_of(s, r) {
        Some(ue) => ue.total_dl_bytes as int,
        None => 0,
    }
}

/// With unique keys, the lookup of position `idx`'s key yields that
/// position's value.
proof fn lemma_assoc_lookup(s: Seq<(u16, UeTraffic)>, idx: int)
    requires
        rnti_keys_unique(s),
        0 <= idx < s.len(),
    ensures
        spec_ue_of(s, s[idx].0) == Some(s[idx].1),
{
    let r = s[idx].0;
    assert(s[idx].0 == r);
    let i = choose|i: int| 0 <= i < s.len() && (#[trigger] s[i]).0 == r;
    if i != idx {
        if i < idx {
            assert(s[i].0 != s[idx].0);
        } else {
            assert(s[idx].0 != s[i].0);
        }
    }
}

/// Updating one position's value leaves every other key's lookup
/// unchanged.
proof fn lemma_assoc_update_other(
    before: Seq<(u16, UeTraffic)>,
    after: Seq<(u16, UeTraffic)>,
    idx: int,
    q: u16,
)
    requires
        rnti_keys_unique(before),
        0 <= idx < before.len(),
        after.len() == before.len(),
        forall|k: int| 0 <= k < before.len() && k != idx ==> after[k] == before[k],
        after[idx].0 == before[idx].0,
        q != before[idx].0,
    ensures
        spec_ue_of(after, q) == spec_ue_of(before, q),
{
    if exists|i: int| 0 <= i < after.len() && (#[trigger] after[i]).0 == q {
        let i = choose|i: int| 0 <= i < after.len() && (#[trigger] after[i]).0 == q;
        assert(i != idx);
        assert(before[i].0 == q);
        let j = choose|j: int| 0 <= j < before.len() && (#[trigger] before[j]).0 == q;
        assert(j != idx);
        assert(after[j].0 == q);
        if i != j {
            if i < j {
                assert(before[i].0 != before[j].0);
            } else {
                assert(before[j].0 != before[i].0);
            }
        }
        assert(after[i] == before[i]);
    } else {
        assert forall|j: int| 0 <= j < before.len() implies (#[trigger] before[j]).0 != q by {
            if before[j].0 == q {
                if j == idx {
                } else {
                    assert(after[j].0 == q);
                }
            }
        }
    }
}

/// Pushing a new entry leaves every other key's lookup unchanged.
proof fn lemma_assoc_push_other(
    before: Seq<(u16, UeTraffic)>,
    after: Seq<(u16, UeTraffic)>,
    q: u16,
)
    requires
        rnti_keys_unique(before),
        after.len() == before.len() + 1,
        forall|k: int| 0 <= k < before.len() ==> after[k] == before[k],
        q != after[before.len() as int].0,
    ensures
        spec_ue_of(after, q) == spec_ue_of(before, q),
{
    if exists|i: int| 0 <= i < after.len() && (#[trigger] after[i]).0 == q {
        let i = choose|i: int| 0 <= i < after.len() && (#[trigger] after[i]).0 == q;
        assert(i < before.len());
        assert(before[i].0 == q);
        let j = choose|j: int| 0 <= j < before.len() && (#[trigger] before[j]).0 == q;
        assert(after[j].0 == q);
        if i != j {
            if i < j {
                assert(before[i].0 != before[j].0);
            } else {
                assert(before[j].0 != before[i].0);
            }
        }
        assert(after[i] == before[i]);
    } else {
        assert forall|j: int| 0 <= j < before.len() implies (#[trigger] before[j]).0 != q by {
            if before[j].0 == q {
                assert(after[j].0 == q);
            }
        }
    }
}

impl UeTraffic {
    pub open spec fn wf(&self) -> bool {
        ts_keys_unique(self.traffic@)
    }

    /// Whether a DCI timestamp is recorded.
    pub open spec fn spec_has_ts(&self, ts: u64) -> bool {
        exists|i: int| 0 <= i < self.traffic@.len() && (#[trigger] self.traffic@[i]).0 == ts
    }

    /// Records one DCI of this RNTI: the bytes accumulate under the DCI
    /// timestamp, and the totals grow (saturating).
    fn add_dci(&mut self, ts: u64, dl_bytes: u64, ul_bytes: u64)
        requires
            old(self).wf(),
        ensures
            final(self).wf(),
            final(self).total_ul_bytes == spec_sat_add_u64(
                old(self).total_ul_bytes as int,
                ul_bytes as int,
            ),
            final(self).total_dl_bytes == spec_sat_add_u64(
                old(self).total_dl_bytes as int,
                dl_bytes as int,
            ),
            final(self).spec_has_ts(ts),
            final(self).traffic@.len() == old(self).traffic@.len() + if old(self).spec_has_ts(ts) {
                0int
            } else {
                1int
            },
    {
        let mut i: usize = 0;
        let mut found: Option<usize> = None;
        while i < self.traffic.len() && found.is_none()
            invariant
                0 <= i <= self.traffic@.len(),
                found matches Some(idx) ==> i < self.traffic@.len() && idx == i
                    && self.traffic@[i as int].0 == ts,
                found is None ==> forall|k: int|
                    0 <= k < i ==> (#[trigger] self.traffic@[k]).0 != ts,
            decreases self.traffic@.len() - i + if found is None {
                1int
            } else {
                0int
            },
        {
            if self.traffic[i].0 == ts {
                found = Some(i);
            } else {
                i = i + 1;
            }
        }
        match found {
            Some(idx) => {
                proof {
                    assert(old(self).spec_has_ts(ts)) by {
                        assert(old(self).traffic@[idx as int].0 == ts);
                    }
                }
                let ghost before = self.traffic@;
                let mut pair = self.traffic.remove(idx);
                pair.1.dl_bytes = sat_add_u64(pair.1.dl_bytes, dl_bytes);
                pair.1.ul_bytes = sat_add_u64(pair.1.ul_bytes, ul_bytes);
                self.traffic.insert(idx, pair);
                proof {
                    assert(self.traffic@ =~= before.update(idx as int, (ts, pair.1)));
                    assert(self.traffic@[idx as int].0 == ts);
                    assert(self.spec_has_ts(ts));
                }
            },
            None => {
                proof {
                    assert(!old(self).spec_has_ts(ts));
                }
                self.traffic.push((ts, Traffic { dl_bytes, ul_bytes }));
                proof {
                    assert(self.traffic@[self.traffic@.len() - 1].0 == ts);
                    assert(self.spec_has_ts(ts));
                }
            },
        }
        self.total_dl_bytes = sat_add_u64(self.total_dl_bytes, dl_bytes);
        self.total_ul_bytes = sat_add_u64(self.total_ul_bytes, ul_bytes);
    }
}

impl CellTrafficCollection {
    pub open spec fn wf(&self) -> bool {
        rnti_keys_unique(self.traffic@) && forall|i: int|
            0 <= i < self.traffic@.len() ==> (#[trigger] self.traffic@[i]).1.wf()
    }

    /// Total uplink bytes recorded for `r`; 0 if unseen.
    pub open spec fn spec_total_ul(&self, r: u16) -> int {
        spec_total_ul_of(self.traffic@, r)
    }

    /// Total downlink bytes recorded for `r`; 0 if unseen.
    pub open spec fn spec_total_dl(&self, r: u16) -> int {
        spec_total_dl_of(self.traffic@, r)
    }

    /// An empty per-cell collection.
    pub fn new() -> (r: CellTrafficCollection)
        ensures
            r.wf(),
            r.traffic@.len() == 0,
            r.nof_total_dci == 0 && r.nof_empty_dci == 0,
            r.first_dci_timestamp_us == 0 && r.last_dci_timestamp_us == 0,
    {
        CellTrafficCollection {
            traffic: Vec::new(),
            nof_total_dci: 0,
            nof_empty_dci: 0,
            first_dci_timestamp_us: 0,
            last_dci_timestamp_us: 0,
        }
    }

    /// Records the bytes of one RNTI record of one DCI: `r`'s totals
    /// grow by the bytes, every other RNTI's stay.
    fn add_rnti_dci(&mut self, r: u16, ts: u64, dl_bytes: u64, ul_bytes: u64)
        requires
            old(self).wf(),
        ensures
            final(self).wf(),
            final(self).spec_total_ul(r) == spec_sat_add_u64(
                old(self).spec_total_ul(r),
                ul_bytes as int,
            ),
            final(self).spec_total_dl(r) == spec_sat_add_u64(
                old(self).spec_total_dl(r),
                dl_bytes as int,
            ),
            forall|q: u16|
                q != r ==> #[trigger] final(self).spec_total_ul(q) == old(self).spec_total_ul(q)
                    && final(self).spec_total_dl(q) == old(self).spec_total_dl(q),
            final(self).nof_total_dci == old(self).nof_total_dci,
            final(self).nof_empty_dci == old(self).nof_empty_dci,
            final(self).first_dci_timestamp_us == old(self).first_dci_timestamp_us,
            final(self).last_dci_timestamp_us == old(self).last_dci_timestamp_us,
    {
        let mut i: usize = 0;
        let mut found: Option<usize> = None;
        while i < self.traffic.len() && found.is_none()
            invariant
                0 <= i <= self.traffic@.len(),
                found matches Some(idx) ==> i < self.traffic@.len() && idx == i
                    && self.traffic@[i as int].0 == r,
                found is None ==> forall|k: int|
                    0 <= k < i ==> (#[trigger] self.traffic@[k]).0 != r,
            decreases self.traffic@.len() - i + if found is None {
                1int
            } else {
                0int
            },
        {
            if self.traffic[i].0 == r {
                found = Some(i);
            } else {
                i = i + 1;
            }
        }
        match found {
            Some(idx) => {
                let ghost before = self.traffic@;
                let mut pair = self.traffic.remove(idx);
                proof {
                    lemma_assoc_lookup(before, idx as int);
                }
                pair.1.add_dci(ts, dl_bytes, ul_bytes);
                self.traffic.insert(idx, pair);
                proof {
                    assert(self.traffic@ =~= before.update(idx as int, (r, pair.1)));
                    lemma_assoc_lookup(self.traffic@, idx as int);
                    assert forall|q: u16| q != r implies #[trigger] spec_ue_of(self.traffic@, q)
                        == spec_ue_of(before, q) by {
                        lemma_assoc_update_other(before, self.traffic@, idx as int, q);
                    }
                }
            },
            None => {
                let mut ue = UeTraffic { traffic: Vec::new(), total_dl_bytes: 0, total_ul_bytes: 0 };
                ue.add_dci(ts, dl_bytes, ul_bytes);
                let ghost before = self.traffic@;
                self.traffic.push((r, ue));
                proof {
                    assert(self.traffic@[self.traffic@.len() - 1].0 == r);
                    lemma_assoc_lookup(self.traffic@, self.traffic@.len() - 1);
                    assert(spec_ue_of(before, r) is None);
                    assert forall|q: u16| q != r implies #[trigger] spec_ue_of(self.traffic@, q)
                        == spec_ue_of(before, q) by {
                        lemma_assoc_push_other(before, self.traffic@, q);
                    }
                }
            },
        }
    }
}

/// The valid per-RNTI records of one DCI.
pub open spec fn dci_valid_entries(d: NgScopeCellDci) -> Seq<NgScopeRntiDci> {
    d.rnti_list@.take(
        if d.nof_rnti as int <= 20 {
            d.nof_rnti as int
        } else {
            20
        },
    )
}

/// Uplink bytes a record list attributes to `r`: the saturating sum of
/// `ul_tbs_bit / 8` over the records of `r`, on top of `base`.
pub open spec fn spec_ul_after(es: Seq<NgScopeRntiDci>, r: u16, base: int) -> int
    decreases es.len(),
{
    if es.len() == 0 {
        base
    } else {
        spec_sat_add_u64(
            spec_ul_after(es.drop_last(), r, base),
            if es.last().rnti == r {
                es.last().ul_tbs_bit as int / 8
            } else {
                0
            },
        )
    }
}

/// Downlink bytes a record list attributes to `r`, on top of `base`.
pub open spec fn spec_dl_after(es: Seq<NgScopeRntiDci>, r: u16, base: int) -> int
    decreases es.len(),
{
    if es.len() == 0 {
        base
    } else {
        spec_sat_add_u64(
            spec_dl_after(es.drop_last(), r, base),
            if es.last().rnti == r {
                es.last().dl_tbs_bit as int / 8
            } else {
                0
            },
        )
    }
}

/// The entry of `c` in a cell list, if present.
pub open spec fn spec_cell_of(s: Seq<(u64, CellTrafficCollection)>, c: u64) -> Option<
    CellTrafficCollection,
> {
    if exists|i: int| 0 <= i < s.len() && (#[trigger] s[i]).0 == c {
        let i = choose|i: int| 0 <= i < s.len() && (#[trigger] s[i]).0 == c;
        Some(s[i].1)
    } else {
        None
    }
}

/// `nof_total_dci` of cell `c`; 0 if the cell is unseen.
pub open spec fn spec_cell_nof_total(s: Seq<(u64, CellTrafficCollection)>, c: u64) -> int {
    match spec_cell_of(s, c) {
        Some(cc) => cc.nof_total_dci as int,
        None => 0,
    }
}

/// `nof_empty_dci` of cell `c`; 0 if the cell is unseen.
pub open spec fn spec_cell_nof_empty(s: Seq<(u64, CellTrafficCollection)>, c: u64) -> int {
    match spec_cell_of(s, c) {
        Some(cc) => cc.nof_empty_dci as int,
        None => 0,
    }
}

/// First DCI timestamp of cell `c`; 0 if the cell is unseen.
pub open spec fn spec_cell_first_ts(s: Seq<(u64, CellTrafficCollection)>, c: u64) -> int {
    match spec_cell_of(s, c) {
        Some(cc) => cc.first_dci_timestamp_us as int,
        None => 0,
    }
}

/// Last DCI timestamp of cell `c`; 0 if the cell is unseen.
pub open spec fn spec_cell_last_ts(s: Seq<(u64, CellTrafficCollection)>, c: u64) -> int {
    match spec_cell_of(s, c) {
        Some(cc) => cc.last_dci_timestamp_us as int,
        None => 0,
    }
}

/// Total uplink bytes of RNTI `r` in cell `c`; 0 if unseen.
pub open spec fn spec_cell_total_ul(s: Seq<(u64, CellTrafficCollection)>, c: u64, r: u16) -> int {
    match spec_cell_of(s, c) {
        Some(cc) => spec_total_ul_of(cc.traffic@, r),
        None => 0,
    }
}

/// Total downlink bytes of RNTI `r` in cell `c`; 0 if unseen.
pub open spec fn spec_cell_total_dl(s: Seq<(u64, CellTrafficCollection)>, c: u64, r: u16) -> int {
    match spec_cell_of(s, c) {
        Some(cc) => spec_total_dl_of(cc.traffic@, r),
        None => 0,
    }
}

/// With unique keys, the lookup of position `idx`'s key yields that
/// position's value.
proof fn lemma_cell_assoc_lookup(s: Seq<(u64, CellTrafficCollection)>, idx: int)
    requires
        cell_keys_unique(s),
        0 <= idx < s.len(),
    ensures
        spec_cell_of(s, s[idx].0) == Some(s[idx].1),
{
    let c = s[idx].0;
    assert(s[idx].0 == c);
    let i = choose|i: int| 0 <= i < s.len() && (#[trigger] s[i]).0 == c;
    if i != idx {
        if i < idx {
            assert(s[i].0 != s[idx].0);
        } else {
            assert(s[idx].0 != s[i].0);
        }
    }
}

/// The saturating accumulators stay within the word, given a base in
/// range.
proof fn lemma_after_in_range(es: Seq<NgScopeRntiDci>, r: u16, base: int)
    requires
        0 <= base <= u64::MAX,
    ensures
        0 <= spec_ul_after(es, r, base) <= u64::MAX,
        0 <= spec_dl_after(es, r, base) <= u64::MAX,
    decreases es.len(),
{
    if es.len() > 0 {
        lemma_after_in_range(es.drop_last(), r, base);
    }
}

/// The full relation of indexing one DCI into a round: the round's
/// window and pattern stay, the DCI's cell gets `nof_total_dci` grown
/// by one, `nof_empty_dci` by one exactly on a DCI without records,
/// the first timestamp set once, the last kept at the maximum, and for
/// every RNTI `r` the byte totals grown by `r`'s valid records
/// (`tbs_bit / 8`, saturating); every other cell's entry is unchanged.
pub open spec fn spec_dci_update(
    before: TrafficCollection,
    after: TrafficCollection,
    dci: NgScopeCellDci,
) -> bool {
    let old_list = before.cell_traffic@;
    let id = dci.cell_id as u64;
    let es = dci_valid_entries(dci);
    &&& after.start_timestamp_ms == before.start_timestamp_ms
    &&& after.finish_timestamp_ms == before.finish_timestamp_ms
    &&& after.traffic_pattern_features == before.traffic_pattern_features
    &&& after.basic_filter_statistics == before.basic_filter_statistics
    &&& after.cell_traffic@.len() >= old_list.len()
    &&& forall|c2: u64|
        c2 != id ==> #[trigger] spec_cell_of(after.cell_traffic@, c2) == spec_cell_of(old_list, c2)
    &&& match spec_cell_of(after.cell_traffic@, id) {
        None => false,
        Some(c) => {
            &&& c.nof_total_dci == spec_sat_add_u64(spec_cell_nof_total(old_list, id), 1)
            &&& c.nof_empty_dci == spec_sat_add_u64(
                spec_cell_nof_empty(old_list, id),
                if dci.nof_rnti == 0 {
                    1
                } else {
                    0
                },
            )
            &&& c.first_dci_timestamp_us == (if spec_cell_first_ts(old_list, id) == 0 {
                dci.time_stamp as int
            } else {
                spec_cell_first_ts(old_list, id)
            })
            &&& c.last_dci_timestamp_us == (if spec_cell_first_ts(old_list, id) == 0 {
                dci.time_stamp as int
            } else if spec_cell_last_ts(old_list, id) < dci.time_stamp {
                dci.time_stamp as int
            } else {
                spec_cell_last_ts(old_list, id)
            })
            &&& forall|r: u16|
                #![trigger spec_total_ul_of(c.traffic@, r)]
                spec_total_ul_of(c.traffic@, r) == spec_ul_after(
                    es,
                    r,
                    spec_cell_total_ul(old_list, id, r),
                )
            &&& forall|r: u16|
                #![trigger spec_total_dl_of(c.traffic@, r)]
                spec_total_dl_of(c.traffic@, r) == spec_dl_after(
                    es,
                    r,
                    spec_cell_total_dl(old_list, id, r),
                )
        },
    }
}

/// Updating one position's collection leaves every other cell's lookup
/// unchanged.
proof fn lemma_cell_update_other(
    before: Seq<(u64, CellTrafficCollection)>,
    after: Seq<(u64, CellTrafficCollection)>,
    idx: int,
    q: u64,
)
    requires
        cell_keys_unique(before),
        0 <= idx < before.len(),
        after.len() == before.len(),
        forall|k: int| 0 <= k < before.len() && k != idx ==> after[k] == before[k],
        after[idx].0 == before[idx].0,
        q != before[idx].0,
    ensures
        spec_cell_of(after, q) == spec_cell_of(before, q),
{
    if exists|i: int| 0 <= i < after.len() && (#[trigger] after[i]).0 == q {
        let i = choose|i: int| 0 <= i < after.len() && (#[trigger] after[i]).0 == q;
        assert(i != idx);
        assert(before[i].0 == q);
        let j = choose|j: int| 0 <= j < before.len() && (#[trigger] before[j]).0 == q;
        assert(j != idx);
        assert(after[j].0 == q);
        if i != j {
            if i < j {
                assert(before[i].0 != before[j].0);
            } else {
                assert(before[j].0 != before[i].0);
            }
        }
        assert(after[i] == before[i]);
    } else {
        assert forall|j: int| 0 <= j < before.len() implies (#[trigger] before[j]).0 != q by {
            if before[j].0 == q {
                if j != idx {
                    assert(after[j].0 == q);
                }
            }
        }
    }
}

/// Appending a new cell leaves every other cell's lookup unchanged.
proof fn lemma_cell_push_other(
    before: Seq<(u64, CellTrafficCollection)>,
    after: Seq<(u64, CellTrafficCollection)>,
    q: u64,
)
    requires
        cell_keys_unique(before),
        after.len() == before.len() + 1,
        forall|k: int| 0 <= k < before.len() ==> after[k] == before[k],
        q != after[before.len() as int].0,
    ensures
        spec_cell_of(after, q) == spec_cell_of(before, q),
{
    if exists|i: int| 0 <= i < after.len() && (#[trigger] after[i]).0 == q {
        let i = choose|i: int| 0 <= i < after.len() && (#[trigger] after[i]).0 == q;
        assert(i < before.len());
        assert(before[i].0 == q);
        let j = choose|j: int| 0 <= j < before.len() && (#[trigger] before[j]).0 == q;
        assert(after[j].0 == q);
        if i != j {
            if i < j {
                assert(before[i].0 != before[j].0);
            } else {
                assert(before[j].0 != before[i].0);
            }
        }
        assert(after[i] == before[i]);
    } else {
        assert forall|j: int| 0 <= j < before.len() implies (#[trigger] before[j]).0 != q by {
            if before[j].0 == q {
                assert(after[j].0 == q);
            }
        }
    }
}

impl TrafficCollection {
    pub open spec fn wf(&self) -> bool {
        cell_keys_unique(self.cell_traffic@) && forall|i: int|
            0 <= i < self.cell_traffic@.len() ==> (#[trigger] self.cell_traffic@[i]).1.wf()
    }

    /// The position of a cell in the collection.
    fn find_cell(&self, cell: u64) -> (r: Option<usize>)
        ensures
            r matches Some(i) ==> i < self.cell_traffic@.len() && self.cell_traffic@[i as int].0
                == cell,
            r is None ==> forall|j: int|
                0 <= j < self.cell_traffic@.len() ==> (#[trigger] self.cell_traffic@[j]).0 != cell,
    {
        let mut i: usize = 0;
        while i < self.cell_traffic.len()
            invariant
                0 <= i <= self.cell_traffic@.len(),
                forall|j: int| 0 <= j < i ==> (#[trigger] self.cell_traffic@[j]).0 != cell,
            decreases self.cell_traffic@.len() - i,
        {
            if self.cell_traffic[i].0 == cell {
                return Some(i);
            }
            i = i + 1;
        }
        None
    }

    /// Indexes one DCI into the round.
    ///
    /// The whole effect is `spec_dci_update`: the DCI's cell (created
    /// empty when unseen) gets its counters and timestamps advanced and
    /// every RNTI's byte totals grown by the DCI's valid records, and
    /// every other cell's data stays as it was.
    #[verifier::rlimit(60)]
    pub fn update_from_cell_dci(&mut self, cell_dci: &NgScopeCellDci)
        requires
            old(self).wf(),
        ensures
            final(self).wf(),
            spec_dci_update(*old(self), *final(self), *cell_dci),
    {
        let cell_id: u64 = cell_dci.cell_id as u64;
        let ghost old_list = self.cell_traffic@;
        let found = self.find_cell(cell_id);
        let idx: usize;
        let mut entry: (u64, CellTrafficCollection);
        match found {
            Some(i) => {
                idx = i;
                entry = self.cell_traffic.remove(i);
                proof {
                    lemma_cell_assoc_lookup(old_list, i as int);
                }
            },
            None => {
                idx = self.cell_traffic.len();
                entry = (cell_id, CellTrafficCollection::new());
            },
        };
        let ghost old_c = entry.1;
        proof {
            assert(entry.0 == cell_id);
            assert(old_c.nof_total_dci == spec_cell_nof_total(old_list, cell_id));
            assert(old_c.nof_empty_dci == spec_cell_nof_empty(old_list, cell_id));
            assert(old_c.first_dci_timestamp_us == spec_cell_first_ts(old_list, cell_id));
            assert(old_c.last_dci_timestamp_us == spec_cell_last_ts(old_list, cell_id));
            assert forall|r: u16| #[trigger] spec_total_ul_of(old_c.traffic@, r)
                == spec_cell_total_ul(old_list, cell_id, r) && spec_total_dl_of(old_c.traffic@, r)
                == spec_cell_total_dl(old_list, cell_id, r) by {
                if spec_cell_of(old_list, cell_id) is None {
                    assert(old_c.traffic@.len() == 0);
                }
            }
        }

        let m: usize = if (cell_dci.nof_rnti as usize) <= 20 {
            cell_dci.nof_rnti as usize
        } else {
            20
        };
        let ghost es = dci_valid_entries(*cell_dci);
        proof {
            assert(cell_dci.rnti_list@.len() == 20);
            assert(es.len() == m);
        }
        let mut j: usize = 0;
        while j < m
            invariant
                0 <= j <= m <= 20,
                es == dci_valid_entries(*cell_dci),
                es.len() == m,
                entry.0 == cell_id,
                entry.1.wf(),
                forall|k: int| 0 <= k < m ==> es[k] == cell_dci.rnti_list@[k],
                forall|r: u16|
                    #![trigger spec_total_ul_of(entry.1.traffic@, r)]
                    spec_total_ul_of(entry.1.traffic@, r) == spec_ul_after(
                        es.take(j as int),
                        r,
                        spec_total_ul_of(old_c.traffic@, r),
                    ) && spec_total_dl_of(entry.1.traffic@, r) == spec_dl_after(
                        es.take(j as int),
                        r,
                        spec_total_dl_of(old_c.traffic@, r),
                    ),
                entry.1.nof_total_dci == old_c.nof_total_dci,
                entry.1.nof_empty_dci == old_c.nof_empty_dci,
                entry.1.first_dci_timestamp_us == old_c.first_dci_timestamp_us,
                entry.1.last_dci_timestamp_us == old_c.last_dci_timestamp_us,
            decreases m - j,
        {
            proof {
                assert(es.take(j + 1).drop_last() =~= es.take(j as int));
                assert(es.take(j + 1).last() == es[j as int]);
            }
            let e = &cell_dci.rnti_list[j];
            let ghost pre = entry.1;
            entry.1.add_rnti_dci(
                e.rnti,
                cell_dci.time_stamp,
                e.dl_tbs_bit as u64 / 8,
                e.ul_tbs_bit as u64 / 8,
            );
            proof {
                assert forall|r: u16|
                    #![trigger spec_total_ul_of(entry.1.traffic@, r)]
                    spec_total_ul_of(entry.1.traffic@, r) == spec_ul_after(
                        es.take(j + 1),
                        r,
                        spec_total_ul_of(old_c.traffic@, r),
                    ) && spec_total_dl_of(entry.1.traffic@, r) == spec_dl_after(
                        es.take(j + 1),
                        r,
                        spec_total_dl_of(old_c.traffic@, r),
                    ) by {
                    assert(entry.1.spec_total_ul(r) == spec_total_ul_of(entry.1.traffic@, r));
                    assert(pre.spec_total_ul(r) == spec_total_ul_of(pre.traffic@, r));
                    assert(entry.1.spec_total_dl(r) == spec_total_dl_of(entry.1.traffic@, r));
                    assert(pre.spec_total_dl(r) == spec_total_dl_of(pre.traffic@, r));
                    lemma_after_in_range(
                        es.take(j as int),
                        r,
                        spec_total_ul_of(old_c.traffic@, r),
                    );
                    lemma_after_in_range(
                        es.take(j as int),
                        r,
                        spec_total_dl_of(old_c.traffic@, r),
                    );
                    if r == es[j as int].rnti {
                    } else {
                        assert(entry.1.spec_total_ul(r) == pre.spec_total_ul(r));
                    }
                }
            }
            j = j + 1;
        }
        proof {
            assert(es.take(m as int) =~= es);
        }

        entry.1.nof_total_dci = sat_add_u64(entry.1.nof_total_dci, 1);
        if cell_dci.nof_rnti == 0 {
            entry.1.nof_empty_dci = sat_add_u64(entry.1.nof_empty_dci, 1);
        }
        if entry.1.first_dci_timestamp_us == 0 {
            entry.1.first_dci_timestamp_us = cell_dci.time_stamp;
            entry.1.last_dci_timestamp_us = cell_dci.time_stamp;
        } else if entry.1.last_dci_timestamp_us < cell_dci.time_stamp {
            entry.1.last_dci_timestamp_us = cell_dci.time_stamp;
        }

        proof {
            assert(entry.0 == cell_id);
        }
        let ghost new_entry = entry;
        self.cell_traffic.insert(idx, entry);
        proof {
            if found is Some {
                let i = idx as int;
                assert(self.cell_traffic@ =~= old_list.update(i, (cell_id, new_entry.1)));
                assert(old_list[i].0 == cell_id);
                assert forall|a: int, b: int|
                    0 <= a < b < self.cell_traffic@.len() implies self.cell_traffic@[a].0
                    != self.cell_traffic@[b].0 by {
                    assert(old_list[a].0 != old_list[b].0);
                }
                assert forall|k: int|
                    0 <= k < self.cell_traffic@.len() implies (
                #[trigger] self.cell_traffic@[k]).1.wf() by {
                    if k != i {
                        assert(self.cell_traffic@[k] == old_list[k]);
                        assert(old_list[k].1.wf());
                    }
                }
            } else {
                assert(self.cell_traffic@ =~= old_list.push((cell_id, new_entry.1)));
                assert forall|a: int, b: int|
                    0 <= a < b < self.cell_traffic@.len() implies self.cell_traffic@[a].0
                    != self.cell_traffic@[b].0 by {
                    if b < old_list.len() {
                        assert(old_list[a].0 != old_list[b].0);
                    } else {
                        assert(self.cell_traffic@[a].0 == old_list[a].0);
                        assert(old_list[a].0 != cell_id);
                    }
                }
                assert forall|k: int|
                    0 <= k < self.cell_traffic@.len() implies (
                #[trigger] self.cell_traffic@[k]).1.wf() by {
                    if k < old_list.len() {
                        assert(self.cell_traffic@[k] == old_list[k]);
                        assert(old_list[k].1.wf());
                    }
                }
            }
            assert(self.cell_traffic@[idx as int].0 == cell_id);
            lemma_cell_assoc_lookup(self.cell_traffic@, idx as int);
            assert(spec_cell_of(self.cell_traffic@, cell_id) == Some(new_entry.1));
            assert forall|c2: u64| c2 != cell_id implies #[trigger] spec_cell_of(
                self.cell_traffic@,
                c2,
            ) == spec_cell_of(old_list, c2) by {
                if found is Some {
                    lemma_cell_update_other(old_list, self.cell_traffic@, idx as int, c2);
                } else {
                    lemma_cell_push_other(old_list, self.cell_traffic@, c2);
                }
            }
            assert(new_entry.1.traffic@ == old_c_after_loop_traffic(new_entry.1));
            assert forall|r: u16| #[trigger] spec_total_ul_of(new_entry.1.traffic@, r)
                == spec_ul_after(es, r, spec_cell_total_ul(old_list, cell_id, r)) by {
                assert(spec_total_ul_of(new_entry.1.traffic@, r) == spec_ul_after(
                    es,
                    r,
                    spec_total_ul_of(old_c.traffic@, r),
                ));
            }
            assert forall|r: u16| #[trigger] spec_total_dl_of(new_entry.1.traffic@, r)
                == spec_dl_after(es, r, spec_cell_total_dl(old_list, cell_id, r)) by {
                assert(spec_total_ul_of(new_entry.1.traffic@, r) == spec_ul_after(
                    es,
                    r,
                    spec_total_ul_of(old_c.traffic@, r),
                ));
                assert(spec_total_dl_of(new_entry.1.traffic@, r) == spec_dl_after(
                    es,
                    r,
                    spec_total_dl_of(old_c.traffic@, r),
                ));
            }
            assert(new_entry.1.nof_total_dci == spec_sat_add_u64(
                spec_cell_nof_total(old_list, cell_id),
                1,
            ));
        }
    }
}

/// Identity helper that keeps the traffic field of a collection in the
/// triggering context.
pub open spec fn old_c_after_loop_traffic(c: CellTrafficCollection) -> Seq<(u16, UeTraffic)> {
    c.traffic@
}

/// Whether a candidate survives every basic filter: total uplink bytes
/// within `[min_ul, max_ul]`, at least `min_occ` distinct subframes,
/// and no single subframe above the per-DCI uplink cap.
pub open spec fn rnti_passes(ue: UeTraffic, max_ul: int, min_ul: int, min_occ: int) -> bool {
    &&& ue.total_ul_bytes <= max_ul
    &&& ue.total_ul_bytes >= min_ul
    &&& ue.traffic@.len() >= min_occ
    &&& forall|k: int|
        0 <= k < ue.traffic@.len() ==> (#[trigger] ue.traffic@[k]).1.ul_bytes
            <= BASIC_FILTER_MAX_UL_PER_DCI
}

/// The first filter a candidate fails: 0 too much uplink, 1 too little
/// uplink, 2 too few occurrences, 3 one subframe too large, 4 none.
pub open spec fn filter_category(ue: UeTraffic, max_ul: int, min_ul: int, min_occ: int) -> int {
    if ue.total_ul_bytes > max_ul {
        0
    } else if ue.total_ul_bytes < min_ul {
        1
    } else if ue.traffic@.len() < min_occ {
        2
    } else if exists|k: int|
        0 <= k < ue.traffic@.len() && (#[trigger] ue.traffic@[k]).1.ul_bytes
            > BASIC_FILTER_MAX_UL_PER_DCI {
        3
    } else {
        4
    }
}

/// The candidates of one cell that survive the basic filters, in order.
pub open spec fn filtered_ues(
    s: Seq<(u16, UeTraffic)>,
    max_ul: int,
    min_ul: int,
    min_occ: int,
) -> Seq<(u16, UeTraffic)>
    decreases s.len(),
{
    if s.len() == 0 {
        Seq::empty()
    } else {
        let rest = filtered_ues(s.drop_last(), max_ul, min_ul, min_occ);
        if rnti_passes(s.last().1, max_ul, min_ul, min_occ) {
            rest.push(s.last())
        } else {
            rest
        }
    }
}

/// How many candidates of one cell fail with category `cat`.
pub open spec fn category_count(
    s: Seq<(u16, UeTraffic)>,
    max_ul: int,
    min_ul: int,
    min_occ: int,
    cat: int,
) -> nat
    decreases s.len(),
{
    if s.len() == 0 {
        0
    } else {
        category_count(s.drop_last(), max_ul, min_ul, min_occ, cat) + if filter_category(
            s.last().1,
            max_ul,
            min_ul,
            min_occ,
        ) == cat {
            1nat
        } else {
            0nat
        }
    }
}

/// Every element of the filtered list stems from the unfiltered one.
proof fn lemma_filtered_ues_contained(
    s: Seq<(u16, UeTraffic)>,
    max_ul: int,
    min_ul: int,
    min_occ: int,
)
    ensures
        forall|i: int|
            0 <= i < filtered_ues(s, max_ul, min_ul, min_occ).len() ==> s.contains(
                #[trigger] filtered_ues(s, max_ul, min_ul, min_occ)[i],
            ),
    decreases s.len(),
{
    if s.len() > 0 {
        lemma_filtered_ues_contained(s.drop_last(), max_ul, min_ul, min_occ);
        let f = filtered_ues(s, max_ul, min_ul, min_occ);
        let fd = filtered_ues(s.drop_last(), max_ul, min_ul, min_occ);
        assert forall|i: int| 0 <= i < f.len() implies s.contains(#[trigger] f[i]) by {
            if i < fd.len() {
                assert(s.drop_last().contains(fd[i]));
                let j = choose|j: int|
                    0 <= j < s.drop_last().len() && s.drop_last()[j] == fd[i];
                assert(s[j] == fd[i]);
            } else {
                assert(f[i] == s.last());
                assert(s[s.len() - 1] == s.last());
            }
        }
    }
}

/// Filtering keeps keys unique and every entry well-formed.
proof fn lemma_filtered_ues_wf(s: Seq<(u16, UeTraffic)>, max_ul: int, min_ul: int, min_occ: int)
    requires
        rnti_keys_unique(s),
        forall|i: int| 0 <= i < s.len() ==> (#[trigger] s[i]).1.wf(),
    ensures
        rnti_keys_unique(filtered_ues(s, max_ul, min_ul, min_occ)),
        forall|i: int|
            0 <= i < filtered_ues(s, max_ul, min_ul, min_occ).len() ==> (#[trigger] filtered_ues(
                s,
                max_ul,
                min_ul,
                min_occ,
            )[i]).1.wf(),
    decreases s.len(),
{
    if s.len() > 0 {
        assert(rnti_keys_unique(s.drop_last()));
        assert forall|i: int|
            0 <= i < s.drop_last().len() implies (#[trigger] s.drop_last()[i]).1.wf() by {
            assert(s[i].1.wf());
        }
        lemma_filtered_ues_wf(s.drop_last(), max_ul, min_ul, min_occ);
        lemma_filtered_ues_contained(s.drop_last(), max_ul, min_ul, min_occ);
        let f = filtered_ues(s, max_ul, min_ul, min_occ);
        let fd = filtered_ues(s.drop_last(), max_ul, min_ul, min_occ);
        assert forall|a: int, b: int| 0 <= a < b < f.len() implies f[a].0 != f[b].0 by {
            if b < fd.len() {
            } else if b == fd.len() && f.len() == fd.len() + 1 {
                assert(f[b] == s.last());
                assert(s.drop_last().contains(fd[a]));
                let j = choose|j: int|
                    0 <= j < s.drop_last().len() && s.drop_last()[j] == fd[a];
                assert(s[j] == fd[a]);
                assert(s[j].0 != s[s.len() - 1].0);
            }
        }
        assert forall|i: int| 0 <= i < f.len() implies (#[trigger] f[i]).1.wf() by {
            if i < fd.len() {
            } else {
                assert(f[i] == s.last());
                assert(s[s.len() - 1].1.wf());
            }
        }
    }
}

impl TrafficCollection {
    /// The largest total uplink a candidate may have: 200 times the
    /// pattern's bytes, capped at the word.
    pub open spec fn spec_max_total_ul(&self) -> int {
        if 200 * self.traffic_pattern_features.total_ul_bytes > u64::MAX {
            u64::MAX as int
        } else {
            200 * self.traffic_pattern_features.total_ul_bytes
        }
    }

    /// The smallest total uplink a candidate may have: half a percent of
    /// the pattern's bytes, rounded to the nearest byte.
    pub open spec fn spec_min_total_ul(&self) -> int {
        (self.traffic_pattern_features.total_ul_bytes + 100) / 200
    }

    /// The fewest subframes a candidate must appear in: five percent of
    /// the pattern's packets, rounded to the nearest packet.
    pub open spec fn spec_min_occurences(&self) -> int {
        (self.traffic_pattern_features.nof_packets + 10) / 20
    }

    /// Removes every candidate that fails a basic filter, drops cells
    /// left without candidates, and records how many candidates each
    /// filter removed (counters saturate at the word).
    #[verifier::rlimit(100)]
    pub fn apply_basic_filter(&mut self)
        requires
            old(self).wf(),
        ensures
            final(self).wf(),
            final(self).start_timestamp_ms == old(self).start_timestamp_ms,
            final(self).finish_timestamp_ms == old(self).finish_timestamp_ms,
            final(self).traffic_pattern_features == old(self).traffic_pattern_features,
            spec_filtered_collection(*old(self), *final(self)),
    {
        let max_ul: u64 = if self.traffic_pattern_features.total_ul_bytes > u64::MAX / 200 {
            u64::MAX
        } else {
            200 * self.traffic_pattern_features.total_ul_bytes
        };
        let min_ul: u64 = (self.traffic_pattern_features.total_ul_bytes / 200) + if self
            .traffic_pattern_features
            .total_ul_bytes % 200 >= 100 {
            1
        } else {
            0
        };
        let min_occ: u64 = (self.traffic_pattern_features.nof_packets / 20) + if self
            .traffic_pattern_features
            .nof_packets % 20 >= 10 {
            1
        } else {
            0
        };
        proof {
            assert(max_ul == old(self).spec_max_total_ul());
            assert(min_ul == old(self).spec_min_total_ul()) by {
                let t = self.traffic_pattern_features.total_ul_bytes as int;
                assert(t / 200 + (if t % 200 >= 100 { 1int } else { 0 }) == (t + 100) / 200)
                    by (nonlinear_arith);
            }
            assert(min_occ == old(self).spec_min_occurences()) by {
                let t = self.traffic_pattern_features.nof_packets as int;
                assert(t / 20 + (if t % 20 >= 10 { 1int } else { 0 }) == (t + 10) / 20)
                    by (nonlinear_arith);
            }
        }
        let mut cells: Vec<(u64, CellTrafficCollection)> = Vec::new();
        core::mem::swap(&mut cells, &mut self.cell_traffic);
        let ghost old_cells = cells@;
        let total_cells: usize = cells.len();
        proof {
            assert(old_cells.len() == total_cells);
        }
        let mut out: Vec<(u64, CellTrafficCollection)> = Vec::new();
        let mut stats = BasicFilterStatistics {
            max_total_ul: 0,
            min_total_ul: 0,
            max_ul_per_dci: 0,
            min_occurences: 0,
        };
        let mut i: usize = 0;
        while cells.len() > 0
            invariant
                0 <= i <= old_cells.len(),
                old_cells.len() == total_cells,
                cells@ =~= old_cells.skip(i as int),
                cell_keys_unique(old_cells),
                forall|k: int| 0 <= k < old_cells.len() ==> (#[trigger] old_cells[k]).1.wf(),
                cells_filtered_rel(
                    old_cells.take(i as int),
                    out@,
                    max_ul as int,
                    min_ul as int,
                    min_occ as int,
                ),
                stats.max_total_ul == sat64(
                    spec_cells_category(
                        old_cells.take(i as int),
                        max_ul as int,
                        min_ul as int,
                        min_occ as int,
                        0,
                    ) as int,
                ),
                stats.min_total_ul == sat64(
                    spec_cells_category(
                        old_cells.take(i as int),
                        max_ul as int,
                        min_ul as int,
                        min_occ as int,
                        1,
                    ) as int,
                ),
                stats.min_occurences == sat64(
                    spec_cells_category(
                        old_cells.take(i as int),
                        max_ul as int,
                        min_ul as int,
                        min_occ as int,
                        2,
                    ) as int,
                ),
                stats.max_ul_per_dci == sat64(
                    spec_cells_category(
                        old_cells.take(i as int),
                        max_ul as int,
                        min_ul as int,
                        min_occ as int,
                        3,
                    ) as int,
                ),
            decreases cells@.len(),
        {
            let mut pair = cells.remove(0);
            proof {
                assert(pair == old_cells[i as int]);
                assert(old_cells.take(i + 1).drop_last() =~= old_cells.take(i as int));
                assert(old_cells.take(i + 1).last() == old_cells[i as int]);
                assert(cells@ =~= old_cells.skip(i + 1));
            }
            let ghost ues = pair.1.traffic@;
            let ghost pair_start = pair.1;
            let total_ues: usize = pair.1.traffic.len();
            proof {
                assert(ues.len() == total_ues);
            }
            let mut kept: Vec<(u16, UeTraffic)> = Vec::new();
            let mut j: usize = 0;
            while pair.1.traffic.len() > 0
                invariant
                    0 <= j <= ues.len(),
                    ues.len() == total_ues,
                    pair.1.traffic@ =~= ues.skip(j as int),
                    pair.0 == old_cells[i as int].0,
                    i < old_cells.len(),
                    ues == old_cells[i as int].1.traffic@,
                    pair.1.nof_total_dci == pair_start.nof_total_dci,
                    pair.1.nof_empty_dci == pair_start.nof_empty_dci,
                    pair.1.first_dci_timestamp_us == pair_start.first_dci_timestamp_us,
                    pair.1.last_dci_timestamp_us == pair_start.last_dci_timestamp_us,
                    pair_start == old_cells[i as int].1,
                    kept@ =~= filtered_ues(
                        ues.take(j as int),
                        max_ul as int,
                        min_ul as int,
                        min_occ as int,
                    ),
                    stats.max_total_ul == sat64(
                        spec_cells_category(
                            old_cells.take(i as int),
                            max_ul as int,
                            min_ul as int,
                            min_occ as int,
                            0,
                        ) + category_count(
                            ues.take(j as int),
                            max_ul as int,
                            min_ul as int,
                            min_occ as int,
                            0,
                        ) as int,
                    ),
                    stats.min_total_ul == sat64(
                        spec_cells_category(
                            old_cells.take(i as int),
                            max_ul as int,
                            min_ul as int,
                            min_occ as int,
                            1,
                        ) + category_count(
                            ues.take(j as int),
                            max_ul as int,
                            min_ul as int,
                            min_occ as int,
                            1,
                        ) as int,
                    ),
                    stats.min_occurences == sat64(
                        spec_cells_category(
                            old_cells.take(i as int),
                            max_ul as int,
                            min_ul as int,
                            min_occ as int,
                            2,
                        ) + category_count(
                            ues.take(j as int),
                            max_ul as int,
                            min_ul as int,
                            min_occ as int,
                            2,
                        ) as int,
                    ),
                    stats.max_ul_per_dci == sat64(
                        spec_cells_category(
                            old_cells.take(i as int),
                            max_ul as int,
                            min_ul as int,
                            min_occ as int,
                            3,
                        ) + category_count(
                            ues.take(j as int),
                            max_ul as int,
                            min_ul as int,
                            min_occ as int,
                            3,
                        ) as int,
                    ),
                decreases pair.1.traffic@.len(),
            {
                let ue = pair.1.traffic.remove(0);
                proof {
                    assert(ue == ues[j as int]);
                    assert(ues.take(j + 1).drop_last() =~= ues.take(j as int));
                    assert(ues.take(j + 1).last() == ues[j as int]);
                    assert(pair.1.traffic@ =~= ues.skip(j + 1));
                }
                if ue.1.total_ul_bytes > max_ul {
                    stats.max_total_ul = sat_add_u64(stats.max_total_ul, 1);
                } else if ue.1.total_ul_bytes < min_ul {
                    stats.min_total_ul = sat_add_u64(stats.min_total_ul, 1);
                } else if (ue.1.traffic.len() as u64) < min_occ {
                    stats.min_occurences = sat_add_u64(stats.min_occurences, 1);
                } else if ue_has_oversize_dci(&ue.1) {
                    stats.max_ul_per_dci = sat_add_u64(stats.max_ul_per_dci, 1);
                } else {
                    proof {
                        assert(rnti_passes(
                            ues[j as int].1,
                            max_ul as int,
                            min_ul as int,
                            min_occ as int,
                        ));
                    }
                    kept.push(ue);
                }
                j = j + 1;
            }
            proof {
                assert(j == ues.len());
                assert(ues.take(ues.len() as int) =~= ues);
            }
            let ghost fu = filtered_ues(ues, max_ul as int, min_ul as int, min_occ as int);
            let ghost out_before = out@;
            let ghost kept_view = kept@;
            proof {
                assert(kept_view =~= fu);
            }
            if kept.len() > 0 {
                let new_cell = CellTrafficCollection {
                    traffic: kept,
                    nof_total_dci: pair.1.nof_total_dci,
                    nof_empty_dci: pair.1.nof_empty_dci,
                    first_dci_timestamp_us: pair.1.first_dci_timestamp_us,
                    last_dci_timestamp_us: pair.1.last_dci_timestamp_us,
                };
                out.push((pair.0, new_cell));
                proof {
                    assert(out@.drop_last() =~= out_before);
                    assert(out@.last().0 == old_cells[i as int].0);
                    assert(out@.last().1.traffic@ =~= fu);
                    assert(cells_filtered_rel(
                        old_cells.take(i + 1),
                        out@,
                        max_ul as int,
                        min_ul as int,
                        min_occ as int,
                    ));
                }
            } else {
                proof {
                    assert(fu.len() == 0);
                    assert(cells_filtered_rel(
                        old_cells.take(i + 1),
                        out@,
                        max_ul as int,
                        min_ul as int,
                        min_occ as int,
                    ));
                }
            }
            i = i + 1;
        }
        proof {
            assert(i == old_cells.len());
            assert(old_cells.take(old_cells.len() as int) =~= old_cells);
        }
        self.cell_traffic = out;
        self.basic_filter_statistics = Some(stats);
        proof {
            lemma_rel_wf(
                old_cells,
                self.cell_traffic@,
                max_ul as int,
                min_ul as int,
                min_occ as int,
            );
        }
    }
}

/// `x` capped at the largest `u64`.
pub open spec fn sat64(x: int) -> int {
    if x > u64::MAX {
        u64::MAX as int
    } else {
        x
    }
}

/// 200 times the pattern bytes, capped at the word.
pub open spec fn spec_capped_max(total_ul_bytes: int) -> int {
    if 200 * total_ul_bytes > u64::MAX {
        u64::MAX as int
    } else {
        200 * total_ul_bytes
    }
}

/// `after` is `before` with every cell reduced to its surviving
/// candidates and every cell left empty dropped; counters and
/// timestamps of the surviving cells stay.
pub open spec fn cells_filtered_rel(
    before: Seq<(u64, CellTrafficCollection)>,
    after: Seq<(u64, CellTrafficCollection)>,
    max_ul: int,
    min_ul: int,
    min_occ: int,
) -> bool
    decreases before.len(),
{
    if before.len() == 0 {
        after.len() == 0
    } else {
        let fu = filtered_ues(before.last().1.traffic@, max_ul, min_ul, min_occ);
        if fu.len() > 0 {
            &&& after.len() > 0
            &&& cells_filtered_rel(before.drop_last(), after.drop_last(), max_ul, min_ul, min_occ)
            &&& after.last().0 == before.last().0
            &&& after.last().1.traffic@ =~= fu
            &&& after.last().1.nof_total_dci == before.last().1.nof_total_dci
            &&& after.last().1.nof_empty_dci == before.last().1.nof_empty_dci
            &&& after.last().1.first_dci_timestamp_us == before.last().1.first_dci_timestamp_us
            &&& after.last().1.last_dci_timestamp_us == before.last().1.last_dci_timestamp_us
        } else {
            cells_filtered_rel(before.drop_last(), after, max_ul, min_ul, min_occ)
        }
    }
}

/// Candidates failing with category `cat`, summed over all cells.
pub open spec fn spec_cells_category(
    s: Seq<(u64, CellTrafficCollection)>,
    max_ul: int,
    min_ul: int,
    min_occ: int,
    cat: int,
) -> nat
    decreases s.len(),
{
    if s.len() == 0 {
        0
    } else {
        spec_cells_category(s.drop_last(), max_ul, min_ul, min_occ, cat) + category_count(
            s.last().1.traffic@,
            max_ul,
            min_ul,
            min_occ,
            cat,
        )
    }
}

/// What `apply_basic_filter` leaves behind: the filtered cells and the
/// per-filter drop counts.
pub open spec fn spec_filtered_collection(before: TrafficCollection, after: TrafficCollection) -> bool {
    let max_ul = before.spec_max_total_ul();
    let min_ul = before.spec_min_total_ul();
    let min_occ = before.spec_min_occurences();
    &&& cells_filtered_rel(before.cell_traffic@, after.cell_traffic@, max_ul, min_ul, min_occ)
    &&& after.basic_filter_statistics matches Some(st) && st.max_total_ul == sat64(
        spec_cells_category(before.cell_traffic@, max_ul, min_ul, min_occ, 0) as int,
    ) && st.min_total_ul == sat64(
        spec_cells_category(before.cell_traffic@, max_ul, min_ul, min_occ, 1) as int,
    ) && st.min_occurences == sat64(
        spec_cells_category(before.cell_traffic@, max_ul, min_ul, min_occ, 2) as int,
    ) && st.max_ul_per_dci == sat64(
        spec_cells_category(before.cell_traffic@, max_ul, min_ul, min_occ, 3) as int,
    )
}

/// Every key of the filtered list occurs in the unfiltered one.
proof fn lemma_rel_keys(
    before: Seq<(u64, CellTrafficCollection)>,
    after: Seq<(u64, CellTrafficCollection)>,
    max_ul: int,
    min_ul: int,
    min_occ: int,
)
    requires
        cells_filtered_rel(before, after, max_ul, min_ul, min_occ),
    ensures
        forall|i: int|
            0 <= i < after.len() ==> exists|j: int|
                0 <= j < before.len() && (#[trigger] before[j]).0 == (#[trigger] after[i]).0,
    decreases before.len(),
{
    if before.len() > 0 {
        let fu = filtered_ues(before.last().1.traffic@, max_ul, min_ul, min_occ);
        if fu.len() > 0 {
            lemma_rel_keys(before.drop_last(), after.drop_last(), max_ul, min_ul, min_occ);
            assert forall|i: int| 0 <= i < after.len() implies exists|j: int|
                0 <= j < before.len() && (#[trigger] before[j]).0 == (#[trigger] after[i]).0 by {
                if i < after.len() - 1 {
                    assert(after.drop_last()[i] == after[i]);
                    let j = choose|j: int|
                        0 <= j < before.drop_last().len() && (#[trigger] before.drop_last()[j]).0
                            == after.drop_last()[i].0;
                    assert(before[j].0 == after[i].0);
                } else {
                    assert(before[before.len() - 1].0 == after[i].0);
                }
            }
        } else {
            lemma_rel_keys(before.drop_last(), after, max_ul, min_ul, min_occ);
            assert forall|i: int| 0 <= i < after.len() implies exists|j: int|
                0 <= j < before.len() && (#[trigger] before[j]).0 == (#[trigger] after[i]).0 by {
                let j = choose|j: int|
                    0 <= j < before.drop_last().len() && (#[trigger] before.drop_last()[j]).0
                        == after[i].0;
                assert(before[j].0 == after[i].0);
            }
        }
    }
}

/// The filtered cell list keeps unique keys and well-formed entries.
proof fn lemma_rel_wf(
    before: Seq<(u64, CellTrafficCollection)>,
    after: Seq<(u64, CellTrafficCollection)>,
    max_ul: int,
    min_ul: int,
    min_occ: int,
)
    requires
        cells_filtered_rel(before, after, max_ul, min_ul, min_occ),
        cell_keys_unique(before),
        forall|i: int| 0 <= i < before.len() ==> (#[trigger] before[i]).1.wf(),
    ensures
        cell_keys_unique(after),
        forall|i: int| 0 <= i < after.len() ==> (#[trigger] after[i]).1.wf(),
    decreases before.len(),
{
    if before.len() == 0 {
    } else {
        assert(cell_keys_unique(before.drop_last()));
        assert forall|i: int|
            0 <= i < before.drop_last().len() implies (#[trigger] before.drop_last()[i]).1.wf() by {
            assert(before[i].1.wf());
        }
        let fu = filtered_ues(before.last().1.traffic@, max_ul, min_ul, min_occ);
        if fu.len() > 0 {
            lemma_rel_wf(before.drop_last(), after.drop_last(), max_ul, min_ul, min_occ);
            lemma_rel_keys(before.drop_last(), after.drop_last(), max_ul, min_ul, min_occ);
            assert forall|a: int, b: int|
                0 <= a < b < after.len() implies after[a].0 != after[b].0 by {
                if b < after.len() - 1 {
                    assert(after.drop_last()[a].0 != after.drop_last()[b].0);
                } else {
                    assert(after.drop_last()[a] == after[a]);
                    let j = choose|j: int|
                        0 <= j < before.drop_last().len() && (#[trigger] before.drop_last()[j]).0
                            == after.drop_last()[a].0;
                    assert(before[j].0 == after[a].0);
                    assert(before[j].0 != before[before.len() - 1].0);
                    assert(after[b].0 == before[before.len() - 1].0);
                }
            }
            assert forall|i: int| 0 <= i < after.len() implies (#[trigger] after[i]).1.wf() by {
                if i < after.len() - 1 {
                    assert(after.drop_last()[i].1.wf());
                } else {
                    assert(before[before.len() - 1].1.wf());
                    lemma_filtered_ues_wf(before.last().1.traffic@, max_ul, min_ul, min_occ);
                    assert(after[i].1.traffic@ =~= fu);
                }
            }
        } else {
            lemma_rel_wf(before.drop_last(), after, max_ul, min_ul, min_occ);
        }
    }
}

/// Whether any subframe of this candidate carried more uplink bytes
/// than the per-DCI cap.
fn ue_has_oversize_dci(ue: &UeTraffic) -> (r: bool)
    ensures
        r == exists|k: int|
            0 <= k < ue.traffic@.len() && (#[trigger] ue.traffic@[k]).1.ul_bytes
                > BASIC_FILTER_MAX_UL_PER_DCI,
{
    let mut k: usize = 0;
    while k < ue.traffic.len()
        invariant
            0 <= k <= ue.traffic@.len(),
            forall|l: int|
                0 <= l < k ==> (#[trigger] ue.traffic@[l]).1.ul_bytes
                    <= BASIC_FILTER_MAX_UL_PER_DCI,
        decreases ue.traffic@.len() - k,
    {
        if ue.traffic[k].1.ul_bytes > BASIC_FILTER_MAX_UL_PER_DCI {
            return true;
        }
        k = k + 1;
    }
    false
}

/// Candidate `a` beats `b`: strictly smaller distance, or the same
/// distance and the lower RNTI.
pub open spec fn beats(a: (u16, u64), b: (u16, u64)) -> bool {
    a.1 < b.1 || (a.1 == b.1 && a.0 < b.0)
}

/// The winning `(rnti, distance)` pair of a candidate list: the pair
/// with the smallest distance, ties broken towards the lower RNTI.
pub open spec fn spec_best(s: Seq<(u16, u64)>) -> Option<(u16, u64)>
    decreases s.len(),
{
    if s.len() == 0 {
        None
    } else {
        match spec_best(s.drop_last()) {
            None => Some(s.last()),
            Some(b) => if beats(s.last(), b) {
                Some(s.last())
            } else {
                Some(b)
            },
        }
    }
}

/// The winner is one of the candidates.
pub proof fn lemma_best_is_candidate(s: Seq<(u16, u64)>)
    ensures
        spec_best(s) matches Some(p) ==> s.contains(p),
    decreases s.len(),
{
    if s.len() > 0 {
        lemma_best_is_candidate(s.drop_last());
        if spec_best(s) is Some {
            let p = spec_best(s)->0;
            if p == s.last() {
                assert(s[s.len() - 1] == p);
            } else {
                assert(s.drop_last().contains(p));
                let i = choose|i: int| 0 <= i < s.drop_last().len() && s.drop_last()[i] == p;
                assert(s[i] == p);
            }
        }
    }
}

/// No candidate beats the winner.
pub proof fn lemma_best_is_minimal(s: Seq<(u16, u64)>)
    ensures
        spec_best(s) matches Some(p) ==> forall|j: int| 0 <= j < s.len() ==> !beats(#[trigger] s[j], p),
    decreases s.len(),
{
    if s.len() > 0 {
        lemma_best_is_minimal(s.drop_last());
        if spec_best(s) is Some {
            let p = spec_best(s)->0;
            assert forall|j: int| 0 <= j < s.len() implies !beats(#[trigger] s[j], p) by {
                if j < s.len() - 1 {
                    assert(s.drop_last()[j] == s[j]);
                }
            }
        }
    }
}

/// Picks the best matching RNTI out of `(rnti, distance)` candidates:
/// the smallest distance wins, equal distances go to the lower RNTI.
pub fn select_best_rnti(candidates: &Vec<(u16, u64)>) -> (r: Option<u16>)
    ensures
        r is Some <==> candidates@.len() > 0,
        r matches Some(v) ==> (spec_best(candidates@) matches Some(p) && p.0 == v),
{
    if candidates.len() == 0 {
        return None;
    }
    let mut best: (u16, u64) = candidates[0];
    proof {
        assert(candidates@.take(1).drop_last() =~= Seq::<(u16, u64)>::empty());
        assert(candidates@.take(1).last() == candidates@[0]);
        assert(spec_best(Seq::<(u16, u64)>::empty()) is None);
        assert(spec_best(candidates@.take(1)) == Some(candidates@[0]));
    }
    let mut i: usize = 1;
    while i < candidates.len()
        invariant
            1 <= i <= candidates@.len(),
            spec_best(candidates@.take(i as int)) == Some(best),
        decreases candidates@.len() - i,
    {
        proof {
            assert(candidates@.take(i + 1).drop_last() =~= candidates@.take(i as int));
            assert(candidates@.take(i + 1).last() == candidates@[i as int]);
        }
        let c: (u16, u64) = candidates[i];
        if c.1 < best.1 || (c.1 == best.1 && c.0 < best.0) {
            best = c;
        }
        i = i + 1;
    }
    proof {
        assert(candidates@.take(candidates@.len() as int) =~= candidates@);
    }
    Some(best.0)
}

/// A candidate whose features coincide with the pattern has distance 0;
/// if it is the only such candidate, it wins, whatever else competes.
pub proof fn lemma_exact_match_wins(s: Seq<(u16, u64)>, i: int)
    requires
        0 <= i < s.len(),
        s[i].1 == 0,
        forall|j: int| 0 <= j < s.len() && j != i ==> (#[trigger] s[j]).1 > 0,
    ensures
        spec_best(s) matches Some(p) && p.0 == s[i].0,
    decreases s.len(),
{
    if i == s.len() - 1 {
        if s.len() > 1 {
            lemma_best_is_candidate(s.drop_last());
            let b = spec_best(s.drop_last());
            if b is Some {
                let p = b->0;
                let k = choose|k: int| 0 <= k < s.drop_last().len() && s.drop_last()[k] == p;
                assert(s[k] == p);
                assert(s[k].1 > 0);
                assert(beats(s.last(), p));
            }
        }
    } else {
        assert forall|j: int|
            0 <= j < s.drop_last().len() && j != i implies (#[trigger] s.drop_last()[j]).1 > 0 by {
            assert(s[j].1 > 0);
        }
        lemma_exact_match_wins(s.drop_last(), i);
        assert(s.last().1 > 0) by {
            assert(s[s.len() - 1].1 > 0);
        }
        let p = spec_best(s.drop_last())->0;
        assert(p.0 == s.drop_last()[i].0);
        if beats(s.last(), p) {
            lemma_best_is_minimal(s.drop_last());
            assert(!beats(s.drop_last()[i], p));
            assert(s.drop_last()[i] == s[i]);
            assert(p.1 <= s[i].1 || (p.1 == s[i].1));
            assert(p.1 == 0 || p.1 <= 0) by {
                lemma_best_is_candidate(s.drop_last());
                let k = choose|k: int|
                    0 <= k < s.drop_last().len() && s.drop_last()[k] == p;
                if k != i {
                    assert(s[k].1 > 0);
                    assert(!beats(s[i], p)) by {
                        lemma_best_is_minimal(s.drop_last());
                    }
                    assert(s[i].1 == 0);
                    assert(beats(s[i], p) == (s[i].1 < p.1 || (s[i].1 == p.1 && s[i].0 < p.0)));
                    assert(p.1 <= 0);
                } else {
                    assert(p == s[i]);
                }
            }
            assert(false);
        }
    }
}

/// A fresh matching round: the window opens at `start_timestamp_ms` and
/// closes after the pattern's total time plus a ten percent overlap.
pub fn new_matching_collection(
    features: TrafficPatternFeatures,
    start_timestamp_ms: u64,
    pattern_total_ms: u64,
) -> (r: TrafficCollection)
    ensures
        r.wf(),
        r.cell_traffic@.len() == 0,
        r.start_timestamp_ms == start_timestamp_ms,
        r.finish_timestamp_ms == spec_sat_add_u64(
            start_timestamp_ms as int,
            11 * pattern_total_ms as int / 10,
        ),
        r.traffic_pattern_features == features,
        r.basic_filter_statistics is None,
{
    let overlap_wide: u128 = 11 * (pattern_total_ms as u128) / 10;
    let overlap: u64 = if overlap_wide > u64::MAX as u128 {
        u64::MAX
    } else {
        overlap_wide as u64
    };
    proof {
        assert(11 * pattern_total_ms as int / 10 <= 11 * 0xFFFF_FFFF_FFFF_FFFF / 10)
            by (nonlinear_arith)
            requires
                pattern_total_ms <= 0xFFFF_FFFF_FFFF_FFFF,
        ;
    }
    let finish_timestamp_ms: u64 = sat_add_u64(start_timestamp_ms, overlap);
    proof {
        assert(finish_timestamp_ms == spec_sat_add_u64(
            start_timestamp_ms as int,
            11 * pattern_total_ms as int / 10,
        ));
    }
    TrafficCollection {
        cell_traffic: Vec::new(),
        start_timestamp_ms,
        finish_timestamp_ms,
        traffic_pattern_features: features,
        basic_filter_statistics: None,
    }
}

/// The round after one drain of the DCI bus: every DCI of `dcis`
/// stamped at or after `bound_us`, in order, indexed by the
/// `spec_dci_update` relation; DCIs stamped earlier leave the round as
/// it was.
pub open spec fn spec_collect_rel(
    dcis: Seq<NgScopeCellDci>,
    bound_us: int,
    before: TrafficCollection,
    after: TrafficCollection,
) -> bool
    decreases dcis.len(),
{
    if dcis.len() == 0 {
        after == before
    } else if dcis.last().time_stamp >= bound_us {
        exists|mid: TrafficCollection|
            #![trigger spec_dci_update(mid, after, dcis.last())]
            spec_collect_rel(dcis.drop_last(), bound_us, before, mid) && spec_dci_update(
                mid,
                after,
                dcis.last(),
            )
    } else {
        spec_collect_rel(dcis.drop_last(), bound_us, before, after)
    }
}

/// Extending a drain by one DCI extends the relation by one step.
proof fn lemma_collect_rel_step(
    dcis: Seq<NgScopeCellDci>,
    bound_us: int,
    before: TrafficCollection,
    mid: TrafficCollection,
    after: TrafficCollection,
)
    requires
        dcis.len() > 0,
        spec_collect_rel(dcis.drop_last(), bound_us, before, mid),
        dcis.last().time_stamp >= bound_us ==> spec_dci_update(mid, after, dcis.last()),
        dcis.last().time_stamp < bound_us ==> after == mid,
    ensures
        spec_collect_rel(dcis, bound_us, before, after),
{
    assert(spec_collect_rel(dcis.drop_last(), bound_us, before, mid));
    if dcis.last().time_stamp >= bound_us {
        assert(spec_dci_update(mid, after, dcis.last()));
    } else {
        assert(after == mid);
    }
}

/// One `MatchingCollectDci` step: past the window's close the round
/// moves on to processing; before it, every DCI stamped at or after the
/// window's start is indexed into the round by the `spec_dci_update`
/// relation, in arrival order.
pub fn handle_collect_dci(
    dci_list: &Vec<NgScopeCellDci>,
    collection: TrafficCollection,
    now_ms: u64,
) -> (r: RntiMatcherState)
    requires
        collection.wf(),
    ensures
        now_ms >= collection.finish_timestamp_ms ==> (r matches
            RntiMatcherState::MatchingProcessDci(c) && *c == collection),
        now_ms < collection.finish_timestamp_ms ==> (r matches
            RntiMatcherState::MatchingCollectDci(c) && c.wf() && spec_collect_rel(
            dci_list@,
            collection.start_timestamp_ms * TIME_MS_TO_US_FACTOR,
            collection,
            *c,
        ) && c.start_timestamp_ms == collection.start_timestamp_ms && c.finish_timestamp_ms
            == collection.finish_timestamp_ms && c.traffic_pattern_features
            == collection.traffic_pattern_features),
{
    if now_ms >= collection.finish_timestamp_ms {
        return RntiMatcherState::MatchingProcessDci(Box::new(collection));
    }
    let mut c = collection;
    let ghost original = c;
    let bound_us: u128 = (c.start_timestamp_ms as u128) * (TIME_MS_TO_US_FACTOR as u128);
    let ghost bound = original.start_timestamp_ms * TIME_MS_TO_US_FACTOR;
    let mut i: usize = 0;
    while i < dci_list.len()
        invariant
            c.wf(),
            0 <= i <= dci_list@.len(),
            original == collection,
            bound == collection.start_timestamp_ms * TIME_MS_TO_US_FACTOR,
            bound_us == bound,
            spec_collect_rel(dci_list@.take(i as int), bound, original, c),
            c.start_timestamp_ms == collection.start_timestamp_ms,
            c.finish_timestamp_ms == collection.finish_timestamp_ms,
            c.traffic_pattern_features == collection.traffic_pattern_features,
        decreases dci_list@.len() - i,
    {
        proof {
            assert(dci_list@.take(i + 1).drop_last() =~= dci_list@.take(i as int));
            assert(dci_list@.take(i + 1).last() == dci_list@[i as int]);
        }
        let ghost mid = c;
        if (dci_list[i].time_stamp as u128) >= bound_us {
            c.update_from_cell_dci(&dci_list[i]);
        }
        proof {
            lemma_collect_rel_step(dci_list@.take(i + 1), bound, original, mid, c);
        }
        i = i + 1;
    }
    proof {
        assert(dci_list@.take(dci_list@.len() as int) =~= dci_list@);
    }
    RntiMatcherState::MatchingCollectDci(Box::new(c))
}

/// The state after a matching error: a pause, then the next round; the
/// flag says whether the probe generator is sent back to idle, which
/// happens for every error but a DCI timestamp gap.
pub fn handle_matching_error(error_type: RntiMatchingErrorType) -> (r: (RntiMatcherState, bool))
    ensures
        r.0 matches RntiMatcherState::SleepMs(ms, next) && ms == MATCHING_INTERVAL_MS
            && *next is StartMatching,
        r.1 == !(error_type is ExceededDciTimestampDelta),
{
    let tell_generator_idle = match error_type {
        RntiMatchingErrorType::ExceededDciTimestampDelta => false,
        _ => true,
    };
    (
        RntiMatcherState::SleepMs(
            MATCHING_INTERVAL_MS,
            Box::new(RntiMatcherState::StartMatching),
        ),
        tell_generator_idle,
    )
}

/// The next pattern of the round-robin over the configured list.
pub fn next_pattern_index(index: usize, len: usize) -> (r: usize)
    requires
        index < len,
    ensures
        r == (index + 1) % (len as int),
{
    (index + 1) % len
}

/// How long the probe generator sleeps before the next packet: the
/// scheduled gap, shortened by the time already spent since the last
/// send; a gap already exceeded falls back to the full scheduled time.
pub fn next_sleep_us(scheduled_ms: u16, last_sent_us: Option<u64>, now_us: u64) -> (r: u64)
    requires
        last_sent_us matches Some(t) ==> t <= now_us,
    ensures
        last_sent_us is None ==> r == scheduled_ms * TIME_MS_TO_US_FACTOR,
        last_sent_us matches Some(t) ==> {
            let delta = now_us - t;
            if delta > scheduled_ms * TIME_MS_TO_US_FACTOR {
                r == scheduled_ms * TIME_MS_TO_US_FACTOR
            } else {
                r == scheduled_ms * TIME_MS_TO_US_FACTOR - delta
            }
        },
{
    let scheduled_us: u64 = (scheduled_ms as u64) * TIME_MS_TO_US_FACTOR;
    match last_sent_us {
        None => scheduled_us,
        Some(t) => {
            let delta: u64 = now_us - t;
            if delta > scheduled_us {
                scheduled_us
            } else {
                scheduled_us - delta
            }
        },
    }
}

/// Number of payload bytes of a serialized metric.
pub const METRIC_STRUCT_SIZE: usize = 59;

/// The serialized metric: every counter little-endian at a fixed
/// offset (timestamps and rates at 0, 8, 16, 24; the DCI count at 32;
/// the PRB ratio pair at 34 and 42; the coarse flag at 50; the per-PRB
/// rate at 51).
pub open spec fn spec_metric_bytes_ok(m: MetricA, b: Seq<u8>) -> bool {
    &&& b.len() == METRIC_STRUCT_SIZE
    &&& le_u64(b, 0) == m.timestamp_us
    &&& le_u64(b, 8) == m.fair_share_send_rate
    &&& le_u64(b, 16) == m.latest_dci_timestamp_us
    &&& le_u64(b, 24) == m.oldest_dci_timestamp_us
    &&& le_u16(b, 32) == m.nof_dci
    &&& le_u64(b, 34) == m.no_tbs_prb_ratio.no_tbs_prb
    &&& le_u64(b, 42) == m.no_tbs_prb_ratio.total_prb
    &&& b[50] == m.flag_phy_rate_all_rnti
    &&& le_u64(b, 51) == m.phy_rate
}

/// Appends a value's little-endian bytes.
fn push_le_u64(out: &mut Vec<u8>, v: u64)
    ensures
        final(out)@.len() == old(out)@.len() + 8,
        forall|k: int| 0 <= k < old(out)@.len() ==> final(out)@[k] == old(out)@[k],
        le_u64(final(out)@, old(out)@.len() as int) == v,
{
    let b0: u8 = (v % 0x100) as u8;
    let q1: u64 = v / 0x100;
    let b1: u8 = (q1 % 0x100) as u8;
    let q2: u64 = q1 / 0x100;
    let b2: u8 = (q2 % 0x100) as u8;
    let q3: u64 = q2 / 0x100;
    let b3: u8 = (q3 % 0x100) as u8;
    let q4: u64 = q3 / 0x100;
    let b4: u8 = (q4 % 0x100) as u8;
    let q5: u64 = q4 / 0x100;
    let b5: u8 = (q5 % 0x100) as u8;
    let q6: u64 = q5 / 0x100;
    let b6: u8 = (q6 % 0x100) as u8;
    let q7: u64 = q6 / 0x100;
    let b7: u8 = q7 as u8;
    proof {
        assert(q7 < 0x100);
        assert(v == b0 + 0x100 * q1);
        assert(q1 == b1 + 0x100 * q2);
        assert(q2 == b2 + 0x100 * q3);
        assert(q3 == b3 + 0x100 * q4);
        assert(q4 == b4 + 0x100 * q5);
        assert(q5 == b5 + 0x100 * q6);
        assert(q6 == b6 + 0x100 * q7);
        assert(v == b0 + 0x100 * b1 + 0x1_0000 * b2 + 0x100_0000 * b3 + 0x1_0000_0000 * b4
            + 0x100_0000_0000 * b5 + 0x1_0000_0000_0000 * b6 + 0x100_0000_0000_0000 * b7);
    }
    out.push(b0);
    out.push(b1);
    out.push(b2);
    out.push(b3);
    out.push(b4);
    out.push(b5);
    out.push(b6);
    out.push(b7);
}

/// Appends a 16-bit value's little-endian bytes.
fn push_le_u16(out: &mut Vec<u8>, v: u16)
    ensures
        final(out)@.len() == old(out)@.len() + 2,
        forall|k: int| 0 <= k < old(out)@.len() ==> final(out)@[k] == old(out)@[k],
        le_u16(final(out)@, old(out)@.len() as int) == v,
{
    let b0: u8 = (v % 0x100) as u8;
    let b1: u8 = (v / 0x100) as u8;
    proof {
        assert(v / 0x100 < 0x100);
        assert(v == b0 + 0x100 * b1);
    }
    out.push(b0);
    out.push(b1);
}

/// Serializes a metric into its fixed little-endian layout.
pub fn metric_a_to_bytes(m: &MetricA) -> (r: Vec<u8>)
    ensures
        spec_metric_bytes_ok(*m, r@),
{
    let mut out: Vec<u8> = Vec::new();
    push_le_u64(&mut out, m.timestamp_us);
    push_le_u64(&mut out, m.fair_share_send_rate);
    push_le_u64(&mut out, m.latest_dci_timestamp_us);
    push_le_u64(&mut out, m.oldest_dci_timestamp_us);
    push_le_u16(&mut out, m.nof_dci);
    push_le_u64(&mut out, m.no_tbs_prb_ratio.no_tbs_prb);
    push_le_u64(&mut out, m.no_tbs_prb_ratio.total_prb);
    out.push(m.flag_phy_rate_all_rnti);
    push_le_u64(&mut out, m.phy_rate);
    out
}

/// Writes the metric side channel into a probe payload: the magic, the
/// version byte, then the serialized metric; the rest of the payload
/// stays.  A payload too short for the header and the metric is left
/// unchanged.
pub fn prepend_metric_to_payload(payload: &mut Vec<u8>, metric: &MetricTypes) -> (r: Result<
    (),
    (),
>)
    ensures
        r is Ok <==> old(payload)@.len() >= METRIC_HEADER_LENGTH + METRIC_STRUCT_SIZE,
        r is Err ==> *final(payload) == *old(payload),
        r is Ok ==> {
            let b = final(payload)@;
            let m = metric->A_0;
            &&& b.len() == old(payload)@.len()
            &&& b[0] == 0x11 && b[1] == 0x21 && b[2] == 0x12 && b[3] == 0x22
            &&& b[4] == METRIC_VERSION
            &&& spec_metric_bytes_ok(m, b.subrange(5, 5 + METRIC_STRUCT_SIZE as int))
            &&& forall|k: int|
                METRIC_HEADER_LENGTH + METRIC_STRUCT_SIZE <= k < b.len() ==> b[k] == old(
                    payload,
                )@[k]
        },
{
    if payload.len() < METRIC_HEADER_LENGTH + METRIC_STRUCT_SIZE {
        return Err(());
    }
    let MetricTypes::A(m) = metric;
    let bytes = metric_a_to_bytes(m);
    payload.set(0, 0x11);
    payload.set(1, 0x21);
    payload.set(2, 0x12);
    payload.set(3, 0x22);
    payload.set(4, METRIC_VERSION);
    let mut k: usize = 0;
    while k < METRIC_STRUCT_SIZE
        invariant
            0 <= k <= METRIC_STRUCT_SIZE,
            bytes@.len() == METRIC_STRUCT_SIZE,
            payload@.len() == old(payload)@.len() >= METRIC_HEADER_LENGTH + METRIC_STRUCT_SIZE,
            payload@[0] == 0x11 && payload@[1] == 0x21 && payload@[2] == 0x12 && payload@[3]
                == 0x22 && payload@[4] == METRIC_VERSION,
            forall|l: int| 0 <= l < k ==> payload@[5 + l] == bytes@[l],
            forall|l: int|
                METRIC_HEADER_LENGTH + METRIC_STRUCT_SIZE <= l < payload@.len() ==> payload@[l]
                    == old(payload)@[l],
            spec_metric_bytes_ok(metric->A_0, bytes@),
        decreases METRIC_STRUCT_SIZE - k,
    {
        let b: u8 = bytes[k];
        payload.set(5 + k, b);
        k = k + 1;
    }
    proof {
        assert(final(payload)@.subrange(5, 5 + METRIC_STRUCT_SIZE as int) =~= bytes@);
    }
    Ok(())
}

/// Whether the matcher sits idle under this scenario: it does while
/// only the cell's DCI stream is tracked.
pub fn is_idle_scenario(scenario: Scenario) -> (r: bool)
    ensures
        r == (scenario is TrackCellDciOnly),
{
    match scenario {
        Scenario::TrackCellDciOnly => true,
        Scenario::TrackUeAndEstimateTransportCapacity => false,
        Scenario::PerformMeasurement => false,
    }
}

} // verus!
