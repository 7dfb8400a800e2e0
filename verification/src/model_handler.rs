//! The capacity model: the DCI ring buffer and the PBE-CC fair-share
//! estimate computed from a slice of recent DCIs.

use vstd::prelude::*;

use crate::cell_info::CellInfo;
use crate::logic::MetricA;
use crate::ngscope_types::{NgScopeCellDci, NgScopeRntiDci};
use crate::parse::{DynamicValue, FlattenedModelArgs, Scenario};
use crate::util::count_of;
use vstd::arithmetic::div_mod::lemma_div_nonincreasing;
use vstd::pervasive::VecAdditionalExecFns;

verus! {

broadcast use vstd::array::group_array_axioms;

/// Capacity of the DCI ring buffer.
pub const MAX_DCI_ARRAY_SIZE: usize = 10000;

/// Number of most recent entries kept when the ring buffer wraps, and
/// the largest slice the model looks at.
pub const MAX_DCI_SLICE_SIZE: usize = 1000;

/// Write position after a wrap.
pub const MAX_DCI_SLICE_INDEX: usize = 9000;

/// Per-PRB bit rate used when no allocation was observed at all.
pub const STANDARD_BIT_PER_PRB: u64 = 500;

/// Slot-PRBs to subframe-PRBs for FDD.
pub const STANDARD_NOF_PRB_SLOT_TO_SUBFRAME: u64 = 2;

/// Share of the physical rate that survives into the transport layer,
/// in per-mille: `1 - 0.068`.
pub const PHYSICAL_TO_TRANSPORT_PER_MILLE: u64 = 932;

/// Share idle PRBs among all RNTIs seen in the slice.
pub const RNTI_SHARE_TYPE_ALL: u8 = 0;

/// Share idle PRBs among RNTIs with enough downlink occurrences.
pub const RNTI_SHARE_TYPE_DL_OCCURENCES: u8 = 1;

/// Keep all idle PRBs for the UE itself.
pub const RNTI_SHARE_TYPE_GREEDY: u8 = 2;

/// Errors of the capacity model.
#[derive(Clone, Copy, Debug, PartialEq, Eq, Structural)]
pub enum ModelError {
    /// The slice holds no DCI.
    ZeroDci,
    /// More PRBs allocated than the cell offers in the window.
    ExcessivePrbAllocation,
    /// A computed rate does not fit the metric's word size.
    ValueOverflow,
}

/// The valid per-RNTI records of one DCI: the first `nof_rnti` entries,
/// at most the 20 the frame carries.
pub open spec fn valid_entries(d: NgScopeCellDci) -> Seq<NgScopeRntiDci> {
    d.rnti_list@.take(
        if d.nof_rnti as int <= 20 {
            d.nof_rnti as int
        } else {
            20
        },
    )
}

/// Whether an entry belongs to `t` and allocated downlink PRBs.
pub open spec fn entry_is_target(e: NgScopeRntiDci, t: u16) -> bool {
    e.rnti == t && e.dl_prb > 0
}

/// Downlink TBS bits of `t` over a record list.
pub open spec fn entries_tbs(es: Seq<NgScopeRntiDci>, t: u16) -> int
    decreases es.len(),
{
    if es.len() == 0 {
        0
    } else {
        entries_tbs(es.drop_last(), t) + if entry_is_target(es.last(), t) {
            es.last().dl_tbs_bit as int
        } else {
            0
        }
    }
}

/// Downlink PRBs of `t` over a record list.
pub open spec fn entries_prb(es: Seq<NgScopeRntiDci>, t: u16) -> int
    decreases es.len(),
{
    if es.len() == 0 {
        0
    } else {
        entries_prb(es.drop_last(), t) + if entry_is_target(es.last(), t) {
            es.last().dl_prb as int
        } else {
            0
        }
    }
}

/// Downlink no-TBS PRBs of `t` over a record list.
pub open spec fn entries_no_tbs(es: Seq<NgScopeRntiDci>, t: u16) -> int
    decreases es.len(),
{
    if es.len() == 0 {
        0
    } else {
        entries_no_tbs(es.drop_last(), t) + if entry_is_target(es.last(), t) {
            es.last().dl_no_tbs_prb as int
        } else {
            0
        }
    }
}

/// The RNTIs of the records with downlink PRBs, in record order.
pub open spec fn entries_active_rntis(es: Seq<NgScopeRntiDci>) -> Seq<u16>
    decreases es.len(),
{
    if es.len() == 0 {
        Seq::empty()
    } else {
        entries_active_rntis(es.drop_last()) + if es.last().dl_prb > 0 {
            seq![es.last().rnti]
        } else {
            Seq::empty()
        }
    }
}

/// Sum of `total_dl_prb` over a slice.
pub open spec fn sum_total_dl_prb(s: Seq<NgScopeCellDci>) -> int
    decreases s.len(),
{
    if s.len() == 0 {
        0
    } else {
        sum_total_dl_prb(s.drop_last()) + s.last().total_dl_prb as int
    }
}

/// Sum of `total_dl_no_tbs_prb` over a slice.
pub open spec fn sum_total_dl_no_tbs_prb(s: Seq<NgScopeCellDci>) -> int
    decreases s.len(),
{
    if s.len() == 0 {
        0
    } else {
        sum_total_dl_no_tbs_prb(s.drop_last()) + s.last().total_dl_no_tbs_prb as int
    }
}

/// Sum of `total_dl_tbs_bit` over a slice.
pub open spec fn sum_total_dl_tbs_bit(s: Seq<NgScopeCellDci>) -> int
    decreases s.len(),
{
    if s.len() == 0 {
        0
    } else {
        sum_total_dl_tbs_bit(s.drop_last()) + s.last().total_dl_tbs_bit as int
    }
}

/// Downlink TBS bits of `t` over a slice.
pub open spec fn sum_tbs_rnti(s: Seq<NgScopeCellDci>, t: u16) -> int
    decreases s.len(),
{
    if s.len() == 0 {
        0
    } else {
        sum_tbs_rnti(s.drop_last(), t) + entries_tbs(valid_entries(s.last()), t)
    }
}

/// Downlink PRBs of `t` over a slice.
pub open spec fn sum_prb_rnti(s: Seq<NgScopeCellDci>, t: u16) -> int
    decreases s.len(),
{
    if s.len() == 0 {
        0
    } else {
        sum_prb_rnti(s.drop_last(), t) + entries_prb(valid_entries(s.last()), t)
    }
}

/// Downlink no-TBS PRBs of `t` over a slice.
pub open spec fn sum_no_tbs_rnti(s: Seq<NgScopeCellDci>, t: u16) -> int
    decreases s.len(),
{
    if s.len() == 0 {
        0
    } else {
        sum_no_tbs_rnti(s.drop_last(), t) + entries_no_tbs(valid_entries(s.last()), t)
    }
}

/// Every active RNTI occurrence of a slice, one element per record with
/// downlink PRBs, in slice order.
pub open spec fn flat_active_rntis(s: Seq<NgScopeCellDci>) -> Seq<u16>
    decreases s.len(),
{
    if s.len() == 0 {
        Seq::empty()
    } else {
        flat_active_rntis(s.drop_last()) + entries_active_rntis(valid_entries(s.last()))
    }
}

/// Number of distinct values of a sequence.
pub open spec fn distinct_count(s: Seq<u16>) -> nat
    decreases s.len(),
{
    if s.len() == 0 {
        0
    } else {
        distinct_count(s.drop_last()) + if s.drop_last().contains(s.last()) {
            0nat
        } else {
            1nat
        }
    }
}

/// Number of distinct values of `s` that occur at least `thr` times in
/// `full`.
pub open spec fn distinct_count_meeting(s: Seq<u16>, full: Seq<u16>, thr: int) -> nat
    decreases s.len(),
{
    if s.len() == 0 {
        0
    } else {
        distinct_count_meeting(s.drop_last(), full, thr) + if !s.drop_last().contains(s.last())
            && count_of(full, s.last()) >= thr {
            1nat
        } else {
            0nat
        }
    }
}

/// PRBs the cell offers over the window: two slot-PRB sets per subframe.
pub open spec fn spec_p_cell(nof_prb: u16, n: int) -> int {
    2 * (nof_prb as int) * n
}

/// The per-PRB bit rate: the UE's own rate where it allocated PRBs, the
/// cell-wide rate where only others did, a historical constant where
/// nothing was allocated.
pub open spec fn spec_r_w(s: Seq<NgScopeCellDci>, t: u16) -> int {
    if sum_prb_rnti(s, t) > 0 {
        sum_tbs_rnti(s, t) / sum_prb_rnti(s, t)
    } else if sum_total_dl_prb(s) > 0 {
        sum_total_dl_tbs_bit(s) / sum_total_dl_prb(s)
    } else {
        STANDARD_BIT_PER_PRB as int
    }
}

/// 1 where the per-PRB rate had to be averaged over all RNTIs.
pub open spec fn spec_coarse_flag(s: Seq<NgScopeCellDci>, t: u16) -> u8 {
    if sum_prb_rnti(s, t) > 0 {
        0
    } else {
        1
    }
}

/// Number of distinct RNTIs that allocated downlink PRBs in the slice.
pub open spec fn spec_nof_rnti(s: Seq<NgScopeCellDci>) -> int {
    distinct_count(flat_active_rntis(s)) as int
}

/// The share type actually applied: unknown types fall back to ALL.
pub open spec fn spec_used_share_type(share_type: u8) -> u8 {
    if share_type == RNTI_SHARE_TYPE_DL_OCCURENCES || share_type == RNTI_SHARE_TYPE_GREEDY {
        share_type
    } else {
        RNTI_SHARE_TYPE_ALL
    }
}

/// With how many RNTIs the idle PRBs are shared; never 0.
pub open spec fn spec_nof_rnti_shared(s: Seq<NgScopeCellDci>, share_type: u8) -> int {
    if share_type == RNTI_SHARE_TYPE_DL_OCCURENCES {
        let flat = flat_active_rntis(s);
        let c = distinct_count_meeting(flat, flat, s.len() as int / 10) as int;
        if c == 0 {
            1
        } else {
            c
        }
    } else if share_type == RNTI_SHARE_TYPE_GREEDY {
        1
    } else {
        if spec_nof_rnti(s) <= 1 {
            1
        } else {
            spec_nof_rnti(s)
        }
    }
}

/// PRBs left unused in the window.
pub open spec fn spec_p_idle(s: Seq<NgScopeCellDci>, nof_prb: u16) -> int {
    spec_p_cell(nof_prb, s.len() as int) - (sum_total_dl_prb(s) + sum_total_dl_no_tbs_prb(s))
}

/// PRBs suggested for the UE: its own plus its rounded-up share of the
/// idle ones.
pub open spec fn spec_suggested(s: Seq<NgScopeCellDci>, t: u16, nof_prb: u16, st: u8) -> int {
    sum_prb_rnti(s, t) + (spec_p_idle(s, nof_prb) + spec_nof_rnti_shared(s, st) - 1)
        / spec_nof_rnti_shared(s, st)
}

/// Physical-layer fair-share rate in bits per subframe.
pub open spec fn spec_c_p(s: Seq<NgScopeCellDci>, t: u16, nof_prb: u16, st: u8) -> int {
    spec_r_w(s, t) * (sum_prb_rnti(s, t) + spec_suggested(s, t, nof_prb, st)) / (s.len() as int)
}

/// Transport-layer rate: the physical rate shrunk by the overhead
/// factor, rounded to the nearest integer.
pub open spec fn spec_transport_of(c_physical: int) -> int {
    (c_physical * PHYSICAL_TO_TRANSPORT_PER_MILLE + 500) / 1000
}

/// Whether the slice admits a metric: at least one DCI, no more PRBs
/// allocated than the cell offers, and every computed value fits u64.
pub open spec fn spec_capacity_ok(s: Seq<NgScopeCellDci>, t: u16, nof_prb: u16, st: u8) -> bool {
    &&& s.len() > 0
    &&& sum_total_dl_prb(s) + sum_total_dl_no_tbs_prb(s) <= spec_p_cell(nof_prb, s.len() as int)
    &&& sum_total_dl_tbs_bit(s) <= u64::MAX
    &&& spec_r_w(s, t) <= u64::MAX
    &&& spec_c_p(s, t, nof_prb, st) <= u64::MAX
}

/// Ratio of no-TBS PRBs to all allocated PRBs, kept as the exact pair;
/// the ratio is 0 where `total_prb` is 0.
#[derive(Clone, Copy, Debug, PartialEq, Eq, Structural)]
pub struct PrbRatio {
    pub no_tbs_prb: u64,
    pub total_prb: u64,
}

/// The capacity estimate of one slice.
#[derive(Clone, Copy, Debug, PartialEq, Eq, Structural)]
pub struct MetricResult {
    pub transport_fair_share_capacity_bit_per_ms: u64,
    pub physical_fair_share_capacity_bit_per_ms: u64,
    pub physical_rate_bit_per_prb: u64,
    /// 1 where the per-PRB rate was averaged over all RNTIs, 0 where it
    /// is the UE's own.
    pub physical_rate_coarse_flag: u8,
    pub no_tbs_prb_ratio: PrbRatio,
}

/// Everything the estimate was computed from.
#[derive(Clone, Copy, Debug, PartialEq, Eq, Structural)]
pub struct MetricBasis {
    pub nof_dci: u64,
    pub p_cell: u64,
    pub nof_rnti_shared: u64,
    pub nof_rnti_in_dci: u64,
    pub rnti_share_type: u8,
    pub p_alloc: u64,
    pub p_alloc_no_tbs: u64,
    pub tbs_alloc_bit: u64,
    pub target_rnti: u16,
    pub tbs_alloc_rnti_bit: u64,
    pub p_alloc_rnti: u64,
    pub p_alloc_no_tbs_rnti: u64,
    pub p_alloc_rnti_suggested: u64,
}

/// One computed metric with its basis, as handed to the metric log.
#[derive(Clone, Copy, Debug, PartialEq, Eq, Structural)]
pub struct LogMetric {
    pub result: MetricResult,
    pub basis: MetricBasis,
}

/// All the contract clauses of a successful capacity computation.
pub open spec fn spec_capacity_result(
    m: LogMetric,
    s: Seq<NgScopeCellDci>,
    t: u16,
    nof_prb: u16,
    st: u8,
) -> bool {
    &&& m.result.physical_rate_bit_per_prb == spec_r_w(s, t)
    &&& m.result.physical_rate_coarse_flag == spec_coarse_flag(s, t)
    &&& m.result.physical_fair_share_capacity_bit_per_ms == spec_c_p(s, t, nof_prb, st)
    &&& m.result.transport_fair_share_capacity_bit_per_ms == spec_transport_of(
        spec_c_p(s, t, nof_prb, st),
    )
    &&& m.result.no_tbs_prb_ratio.no_tbs_prb == sum_total_dl_no_tbs_prb(s)
    &&& m.result.no_tbs_prb_ratio.total_prb == sum_total_dl_prb(s) + sum_total_dl_no_tbs_prb(s)
    &&& m.basis.nof_dci == s.len()
    &&& m.basis.p_cell == spec_p_cell(nof_prb, s.len() as int)
    &&& m.basis.nof_rnti_shared == spec_nof_rnti_shared(s, st)
    &&& m.basis.nof_rnti_in_dci == spec_nof_rnti(s)
    &&& m.basis.rnti_share_type == spec_used_share_type(st)
    &&& m.basis.p_alloc == sum_total_dl_prb(s)
    &&& m.basis.p_alloc_no_tbs == sum_total_dl_no_tbs_prb(s)
    &&& m.basis.tbs_alloc_bit == sum_total_dl_tbs_bit(s)
    &&& m.basis.target_rnti == t
    &&& m.basis.tbs_alloc_rnti_bit == sum_tbs_rnti(s, t)
    &&& m.basis.p_alloc_rnti == sum_prb_rnti(s, t)
    &&& m.basis.p_alloc_no_tbs_rnti == sum_no_tbs_rnti(s, t)
    &&& m.basis.p_alloc_rnti_suggested == spec_suggested(s, t, nof_prb, st)
}

proof fn lemma_aggregate_bounds(s: Seq<NgScopeCellDci>)
    ensures
        0 <= sum_total_dl_prb(s) <= 255 * s.len(),
        0 <= sum_total_dl_no_tbs_prb(s) <= 255 * s.len(),
        0 <= sum_total_dl_tbs_bit(s) <= 0xFFFF_FFFF_FFFF_FFFF * s.len(),
    decreases s.len(),
{
    if s.len() > 0 {
        lemma_aggregate_bounds(s.drop_last());
    }
}

proof fn lemma_entry_bounds(es: Seq<NgScopeRntiDci>, t: u16)
    ensures
        0 <= entries_tbs(es, t) <= 0xFFFF_FFFF * es.len(),
        0 <= entries_prb(es, t) <= 255 * es.len(),
        0 <= entries_no_tbs(es, t) <= 255 * es.len(),
        0 <= entries_active_rntis(es).len() <= es.len(),
    decreases es.len(),
{
    if es.len() > 0 {
        lemma_entry_bounds(es.drop_last(), t);
    }
}

proof fn lemma_target_bounds(s: Seq<NgScopeCellDci>, t: u16)
    ensures
        0 <= sum_tbs_rnti(s, t) <= 0xFFFF_FFFF * 20 * s.len(),
        0 <= sum_prb_rnti(s, t) <= 255 * 20 * s.len(),
        0 <= sum_no_tbs_rnti(s, t) <= 255 * 20 * s.len(),
        0 <= flat_active_rntis(s).len() <= 20 * s.len(),
    decreases s.len(),
{
    if s.len() > 0 {
        lemma_target_bounds(s.drop_last(), t);
        assert(s.last().rnti_list@.len() == 20);
        assert(valid_entries(s.last()).len() <= 20);
        lemma_entry_bounds(valid_entries(s.last()), t);
        assert(entries_tbs(valid_entries(s.last()), t) <= 0xFFFF_FFFF * 20);
        assert(sum_tbs_rnti(s.drop_last(), t) <= 0xFFFF_FFFF * 20 * (s.len() - 1));
        assert(sum_tbs_rnti(s, t) == sum_tbs_rnti(s.drop_last(), t) + entries_tbs(
            valid_entries(s.last()),
            t,
        ));
        assert(0xFFFF_FFFF * 20 * (s.len() - 1) + 0xFFFF_FFFF * 20 == 0xFFFF_FFFF * 20 * s.len())
            by (nonlinear_arith)
            requires
                s.len() >= 1,
        ;
        assert(255 * 20 * (s.len() - 1) + 255 * 20 == 255 * 20 * s.len()) by (nonlinear_arith)
            requires
                s.len() >= 1,
        ;
    }
}

/// Sums the cell-wide counters of a slice.
fn sum_aggregates(dci_list: &[NgScopeCellDci]) -> (r: (u64, u64, u128))
    requires
        dci_list@.len() <= MAX_DCI_ARRAY_SIZE,
    ensures
        r.0 == sum_total_dl_prb(dci_list@),
        r.1 == sum_total_dl_no_tbs_prb(dci_list@),
        r.2 == sum_total_dl_tbs_bit(dci_list@),
{
    let n: usize = dci_list.len();
    let mut p_alloc: u64 = 0;
    let mut p_alloc_no_tbs: u64 = 0;
    let mut tbs_alloc_bit: u128 = 0;
    let mut i: usize = 0;
    while i < n
        invariant
            0 <= i <= n,
            n == dci_list@.len() <= MAX_DCI_ARRAY_SIZE,
            p_alloc == sum_total_dl_prb(dci_list@.take(i as int)),
            p_alloc_no_tbs == sum_total_dl_no_tbs_prb(dci_list@.take(i as int)),
            tbs_alloc_bit == sum_total_dl_tbs_bit(dci_list@.take(i as int)),
        decreases n - i,
    {
        proof {
            assert(dci_list@.take(i + 1).drop_last() =~= dci_list@.take(i as int));
            assert(dci_list@.take(i + 1).last() == dci_list@[i as int]);
            lemma_aggregate_bounds(dci_list@.take(i as int));
        }
        p_alloc = p_alloc + dci_list[i].total_dl_prb as u64;
        p_alloc_no_tbs = p_alloc_no_tbs + dci_list[i].total_dl_no_tbs_prb as u64;
        tbs_alloc_bit = tbs_alloc_bit + dci_list[i].total_dl_tbs_bit as u128;
        i = i + 1;
    }
    proof {
        assert(dci_list@.take(n as int) =~= dci_list@);
    }
    (p_alloc, p_alloc_no_tbs, tbs_alloc_bit)
}

/// Sums the counters of the target RNTI over a slice.
fn sum_target(dci_list: &[NgScopeCellDci], target: u16) -> (r: (u64, u64, u64))
    requires
        dci_list@.len() <= MAX_DCI_ARRAY_SIZE,
    ensures
        r.0 == sum_tbs_rnti(dci_list@, target),
        r.1 == sum_prb_rnti(dci_list@, target),
        r.2 == sum_no_tbs_rnti(dci_list@, target),
{
    let n: usize = dci_list.len();
    let mut tbs: u64 = 0;
    let mut prb: u64 = 0;
    let mut no_tbs: u64 = 0;
    let mut i: usize = 0;
    while i < n
        invariant
            0 <= i <= n,
            n == dci_list@.len() <= MAX_DCI_ARRAY_SIZE,
            tbs == sum_tbs_rnti(dci_list@.take(i as int), target),
            prb == sum_prb_rnti(dci_list@.take(i as int), target),
            no_tbs == sum_no_tbs_rnti(dci_list@.take(i as int), target),
        decreases n - i,
    {
        let d = &dci_list[i];
        let m: usize = if (d.nof_rnti as usize) <= 20 {
            d.nof_rnti as usize
        } else {
            20
        };
        let ghost es = valid_entries(dci_list@[i as int]);
        proof {
            assert(dci_list@[i as int].rnti_list@.len() == 20);
            assert(es.len() == m);
        }
        let mut j: usize = 0;
        let mut d_tbs: u64 = 0;
        let mut d_prb: u64 = 0;
        let mut d_no_tbs: u64 = 0;
        while j < m
            invariant
                0 <= j <= m <= 20,
                es == valid_entries(dci_list@[i as int]),
                es.len() == m,
                i < dci_list@.len(),
                d == dci_list@[i as int],
                d_tbs == entries_tbs(es.take(j as int), target),
                d_prb == entries_prb(es.take(j as int), target),
                d_no_tbs == entries_no_tbs(es.take(j as int), target),
            decreases m - j,
        {
            proof {
                assert(es.take(j + 1).drop_last() =~= es.take(j as int));
                assert(es.take(j + 1).last() == es[j as int]);
                assert(es[j as int] == dci_list@[i as int].rnti_list@[j as int]);
                lemma_entry_bounds(es.take(j as int), target);
                assert(entries_tbs(es.take(j as int), target) <= 0xFFFF_FFFF * 20)
                    by (nonlinear_arith)
                    requires
                        entries_tbs(es.take(j as int), target) <= 0xFFFF_FFFF * es.take(
                            j as int,
                        ).len(),
                        es.take(j as int).len() <= 20,
                ;
                assert(entries_prb(es.take(j as int), target) <= 255 * 20) by (nonlinear_arith)
                    requires
                        entries_prb(es.take(j as int), target) <= 255 * es.take(j as int).len(),
                        es.take(j as int).len() <= 20,
                ;
                assert(entries_no_tbs(es.take(j as int), target) <= 255 * 20) by (nonlinear_arith)
                    requires
                        entries_no_tbs(es.take(j as int), target) <= 255 * es.take(j as int).len(),
                        es.take(j as int).len() <= 20,
                ;
            }
            let e = &d.rnti_list[j];
            if e.rnti == target && e.dl_prb > 0 {
                d_tbs = d_tbs + e.dl_tbs_bit as u64;
                d_prb = d_prb + e.dl_prb as u64;
                d_no_tbs = d_no_tbs + e.dl_no_tbs_prb as u64;
            }
            j = j + 1;
        }
        proof {
            assert(es.take(m as int) =~= es);
            assert(dci_list@.take(i + 1).drop_last() =~= dci_list@.take(i as int));
            assert(dci_list@.take(i + 1).last() == dci_list@[i as int]);
            lemma_target_bounds(dci_list@.take(i as int), target);
            assert(tbs <= 0xFFFF_FFFF * 20 * 10000 && prb <= 255 * 20 * 10000 && no_tbs <= 255 * 20
                * 10000) by (nonlinear_arith)
                requires
                    tbs <= 0xFFFF_FFFF * 20 * dci_list@.take(i as int).len(),
                    prb <= 255 * 20 * dci_list@.take(i as int).len(),
                    no_tbs <= 255 * 20 * dci_list@.take(i as int).len(),
                    dci_list@.take(i as int).len() <= 10000,
            ;
            lemma_entry_bounds(es, target);
            assert(d_tbs <= 0xFFFF_FFFF * 20 && d_prb <= 255 * 20 && d_no_tbs <= 255 * 20)
                by (nonlinear_arith)
                requires
                    d_tbs <= 0xFFFF_FFFF * es.len(),
                    d_prb <= 255 * es.len(),
                    d_no_tbs <= 255 * es.len(),
                    es.len() <= 20,
            ;
        }
        tbs = tbs + d_tbs;
        prb = prb + d_prb;
        no_tbs = no_tbs + d_no_tbs;
        i = i + 1;
    }
    proof {
        assert(dci_list@.take(n as int) =~= dci_list@);
    }
    (tbs, prb, no_tbs)
}

/// Collects every active RNTI occurrence of the slice, in order.
fn collect_active_rntis(dci_list: &[NgScopeCellDci]) -> (r: Vec<u16>)
    requires
        dci_list@.len() <= MAX_DCI_ARRAY_SIZE,
    ensures
        r@ =~= flat_active_rntis(dci_list@),
{
    let n: usize = dci_list.len();
    let mut flat: Vec<u16> = Vec::new();
    let mut i: usize = 0;
    while i < n
        invariant
            0 <= i <= n,
            n == dci_list@.len() <= MAX_DCI_ARRAY_SIZE,
            flat@ =~= flat_active_rntis(dci_list@.take(i as int)),
        decreases n - i,
    {
        let d = &dci_list[i];
        let m: usize = if (d.nof_rnti as usize) <= 20 {
            d.nof_rnti as usize
        } else {
            20
        };
        let ghost es = valid_entries(dci_list@[i as int]);
        proof {
            assert(dci_list@[i as int].rnti_list@.len() == 20);
            assert(es.len() == m);
        }
        let ghost flat_before = flat@;
        let mut j: usize = 0;
        while j < m
            invariant
                0 <= j <= m <= 20,
                es == valid_entries(dci_list@[i as int]),
                es.len() == m,
                i < dci_list@.len(),
                d == dci_list@[i as int],
                flat@ =~= flat_before + entries_active_rntis(es.take(j as int)),
            decreases m - j,
        {
            proof {
                assert(es.take(j + 1).drop_last() =~= es.take(j as int));
                assert(es.take(j + 1).last() == es[j as int]);
                assert(es[j as int] == dci_list@[i as int].rnti_list@[j as int]);
            }
            let e = &d.rnti_list[j];
            if e.dl_prb > 0 {
                flat.push(e.rnti);
            }
            j = j + 1;
        }
        proof {
            assert(es.take(m as int) =~= es);
            assert(dci_list@.take(i + 1).drop_last() =~= dci_list@.take(i as int));
            assert(dci_list@.take(i + 1).last() == dci_list@[i as int]);
        }
        i = i + 1;
    }
    proof {
        assert(dci_list@.take(n as int) =~= dci_list@);
    }
    flat
}

/// Whether `x` occurs among the first `j` elements.
fn prefix_contains(v: &Vec<u16>, j: usize, x: u16) -> (r: bool)
    requires
        j <= v@.len(),
    ensures
        r == v@.take(j as int).contains(x),
{
    let mut k: usize = 0;
    while k < j
        invariant
            0 <= k <= j <= v@.len(),
            forall|l: int| 0 <= l < k ==> v@[l] != x,
        decreases j - k,
    {
        if v[k] == x {
            proof {
                assert(v@.take(j as int)[k as int] == x);
            }
            return true;
        }
        k = k + 1;
    }
    proof {
        if v@.take(j as int).contains(x) {
            let l = choose|l: int| 0 <= l < j && v@.take(j as int)[l] == x;
            assert(v@[l] == x);
        }
    }
    false
}

/// Occurrences of `x` in `v`.
fn count_value(v: &Vec<u16>, x: u16) -> (c: usize)
    ensures
        c == count_of(v@, x),
{
    let mut c: usize = 0;
    let mut k: usize = 0;
    while k < v.len()
        invariant
            0 <= k <= v@.len(),
            c <= k,
            c == count_of(v@.take(k as int), x),
        decreases v@.len() - k,
    {
        proof {
            assert(v@.take(k + 1).drop_last() =~= v@.take(k as int));
            assert(v@.take(k + 1).last() == v@[k as int]);
        }
        if v[k] == x {
            c = c + 1;
        }
        k = k + 1;
    }
    proof {
        assert(v@.take(v@.len() as int) =~= v@);
    }
    c
}

/// Number of distinct values of `v`.
fn count_distinct(v: &Vec<u16>) -> (c: usize)
    ensures
        c == distinct_count(v@),
        c <= v@.len(),
{
    let mut c: usize = 0;
    let mut k: usize = 0;
    while k < v.len()
        invariant
            0 <= k <= v@.len(),
            c <= k,
            c == distinct_count(v@.take(k as int)),
        decreases v@.len() - k,
    {
        proof {
            assert(v@.take(k + 1).drop_last() =~= v@.take(k as int));
            assert(v@.take(k + 1).last() == v@[k as int]);
        }
        if !prefix_contains(v, k, v[k]) {
            c = c + 1;
        }
        k = k + 1;
    }
    proof {
        assert(v@.take(v@.len() as int) =~= v@);
    }
    c
}

/// Number of distinct values of `v` occurring at least `thr` times.
fn count_distinct_meeting(v: &Vec<u16>, thr: u64) -> (c: usize)
    ensures
        c == distinct_count_meeting(v@, v@, thr as int),
        c <= v@.len(),
{
    let mut c: usize = 0;
    let mut k: usize = 0;
    while k < v.len()
        invariant
            0 <= k <= v@.len(),
            c <= k,
            c == distinct_count_meeting(v@.take(k as int), v@, thr as int),
        decreases v@.len() - k,
    {
        proof {
            assert(v@.take(k + 1).drop_last() =~= v@.take(k as int));
            assert(v@.take(k + 1).last() == v@[k as int]);
        }
        let novel: bool = !prefix_contains(v, k, v[k]);
        if novel && count_value(v, v[k]) as u64 >= thr {
            c = c + 1;
        }
        k = k + 1;
    }
    proof {
        assert(v@.take(v@.len() as int) =~= v@);
    }
    c
}

/// Shrinks a physical rate to the transport layer: the overhead share
/// leaves, the result is rounded to the nearest bit.
pub fn translate_physcial_to_transport_simple(c_physical: u64) -> (r: u64)
    ensures
        r == spec_transport_of(c_physical as int),
{
    proof {
        assert(c_physical as int * 932 + 500 < 0x1_0000_0000_0000_0000_0000_0000_0000_0000)
            by (nonlinear_arith)
            requires
                c_physical <= 0xFFFF_FFFF_FFFF_FFFF,
        ;
    }
    let wide: u128 = (c_physical as u128 * PHYSICAL_TO_TRANSPORT_PER_MILLE as u128 + 500) / 1000;
    proof {
        assert(wide <= c_physical) by (nonlinear_arith)
            requires
                wide == (c_physical * 932 + 500) / 1000,
        ;
    }
    wide as u64
}

/// Computes the PBE-CC fair-share capacity of one DCI slice.
///
/// Succeeds exactly when the slice is non-empty, the allocated PRBs do
/// not exceed what the cell offers over the window, and every computed
/// value fits its word; the metric and its whole basis are pinned by
/// `spec_capacity_result`.
pub fn calculate_pbe_cc_capacity(
    target_rnti: u16,
    cell_info: &CellInfo,
    dci_list: &[NgScopeCellDci],
    rnti_share_type: u8,
) -> (r: Result<LogMetric, ModelError>)
    requires
        dci_list@.len() <= MAX_DCI_ARRAY_SIZE,
        cell_info.cells@.len() > 0,
    ensures
        ({
            let s = dci_list@;
            let prb = cell_info.cells@[0].nof_prb;
            &&& (r is Ok <==> spec_capacity_ok(s, target_rnti, prb, rnti_share_type))
            &&& (r matches Ok(m) ==> spec_capacity_result(m, s, target_rnti, prb, rnti_share_type))
            &&& (s.len() == 0 ==> r == Result::<LogMetric, ModelError>::Err(ModelError::ZeroDci))
            &&& (s.len() > 0 && sum_total_dl_prb(s) + sum_total_dl_no_tbs_prb(s) > spec_p_cell(
                prb,
                s.len() as int,
            ) ==> r == Result::<LogMetric, ModelError>::Err(ModelError::ExcessivePrbAllocation))
        }),
{
    let n: usize = dci_list.len();
    if n == 0 {
        return Err(ModelError::ZeroDci);
    }
    let nof_prb: u16 = cell_info.cells[0].nof_prb;
    proof {
        assert(2 * (nof_prb as int) * (n as int) <= 2 * 65535 * 10000) by (nonlinear_arith)
            requires
                nof_prb <= 65535,
                0 <= n <= 10000,
        ;
    }
    let p_cell: u64 = 2 * (nof_prb as u64) * (n as u64);

    let (p_alloc, p_alloc_no_tbs, tbs_alloc_bit_wide) = sum_aggregates(dci_list);
    let (tbs_alloc_rnti_bit, p_alloc_rnti, p_alloc_no_tbs_rnti) = sum_target(dci_list, target_rnti);
    proof {
        lemma_aggregate_bounds(dci_list@);
        lemma_target_bounds(dci_list@, target_rnti);
        assert(sum_total_dl_prb(dci_list@) <= 2_550_000 && sum_total_dl_no_tbs_prb(dci_list@)
            <= 2_550_000 && sum_total_dl_tbs_bit(dci_list@) <= 0xFFFF_FFFF_FFFF_FFFF * 10000
            && sum_tbs_rnti(dci_list@, target_rnti) <= 0xFFFF_FFFF * 20 * 10000 && sum_prb_rnti(
            dci_list@,
            target_rnti,
        ) <= 255 * 20 * 10000 && flat_active_rntis(dci_list@).len() <= 20 * 10000)
            by (nonlinear_arith)
            requires
                dci_list@.len() <= 10000,
                sum_total_dl_prb(dci_list@) <= 255 * dci_list@.len(),
                sum_total_dl_no_tbs_prb(dci_list@) <= 255 * dci_list@.len(),
                sum_total_dl_tbs_bit(dci_list@) <= 0xFFFF_FFFF_FFFF_FFFF * dci_list@.len(),
                sum_tbs_rnti(dci_list@, target_rnti) <= 0xFFFF_FFFF * 20 * dci_list@.len(),
                sum_prb_rnti(dci_list@, target_rnti) <= 255 * 20 * dci_list@.len(),
                flat_active_rntis(dci_list@).len() <= 20 * dci_list@.len(),
        ;
    }

    let p_alloc_total: u64 = p_alloc + p_alloc_no_tbs;
    if p_alloc_total > p_cell {
        return Err(ModelError::ExcessivePrbAllocation);
    }
    let p_idle: u64 = p_cell - p_alloc_total;

    let flat = collect_active_rntis(dci_list);
    let nof_rnti: u64 = count_distinct(&flat) as u64;

    let mut used_rnti_share_type: u8 = RNTI_SHARE_TYPE_ALL;
    let nof_rnti_shared: u64 = if rnti_share_type == RNTI_SHARE_TYPE_DL_OCCURENCES {
        used_rnti_share_type = RNTI_SHARE_TYPE_DL_OCCURENCES;
        let thr: u64 = (n as u64) / 10;
        let c: u64 = count_distinct_meeting(&flat, thr) as u64;
        if c == 0 {
            1
        } else {
            c
        }
    } else if rnti_share_type == RNTI_SHARE_TYPE_GREEDY {
        used_rnti_share_type = RNTI_SHARE_TYPE_GREEDY;
        1
    } else {
        if nof_rnti <= 1 {
            1
        } else {
            nof_rnti
        }
    };

    let r_w_wide: u128 = if p_alloc_rnti > 0 {
        proof {
            lemma_div_nonincreasing(tbs_alloc_rnti_bit as int, p_alloc_rnti as int);
        }
        (tbs_alloc_rnti_bit as u128) / (p_alloc_rnti as u128)
    } else if p_alloc > 0 {
        proof {
            lemma_div_nonincreasing(tbs_alloc_bit_wide as int, p_alloc as int);
        }
        tbs_alloc_bit_wide / (p_alloc as u128)
    } else {
        STANDARD_BIT_PER_PRB as u128
    };
    proof {
        assert(r_w_wide <= 0xFFFF_FFFF_FFFF_FFFF * 10000);
    }
    let coarse_flag: u8 = if p_alloc_rnti > 0 {
        0
    } else {
        1
    };

    proof {
        lemma_div_nonincreasing(
            p_idle + nof_rnti_shared - 1,
            nof_rnti_shared as int,
        );
    }
    let p_alloc_rnti_suggested: u64 = p_alloc_rnti + (p_idle + nof_rnti_shared - 1)
        / nof_rnti_shared;
    proof {
        assert(p_idle <= 1_310_700_000);
        assert(1 <= nof_rnti_shared <= 200_001);
        assert(p_alloc_rnti <= 51_000_000);
        assert(p_alloc_rnti_suggested <= 1_362_100_001);
        assert(r_w_wide * ((p_alloc_rnti + p_alloc_rnti_suggested) as int) < 0x1_0000_0000_0000_0000_0000_0000_0000_0000)
            by (nonlinear_arith)
            requires
                0 <= r_w_wide <= 0xFFFF_FFFF_FFFF_FFFF * 10000,
                0 <= p_alloc_rnti + p_alloc_rnti_suggested <= 1_413_100_001,
        ;
    }
    let c_p_wide: u128 = r_w_wide * ((p_alloc_rnti + p_alloc_rnti_suggested) as u128) / (n as u128);

    if tbs_alloc_bit_wide > u64::MAX as u128 || r_w_wide > u64::MAX as u128 || c_p_wide
        > u64::MAX as u128 {
        return Err(ModelError::ValueOverflow);
    }
    let r_w: u64 = r_w_wide as u64;
    let c_p: u64 = c_p_wide as u64;
    let c_t: u64 = translate_physcial_to_transport_simple(c_p);

    Ok(
        LogMetric {
            result: MetricResult {
                physical_fair_share_capacity_bit_per_ms: c_p,
                transport_fair_share_capacity_bit_per_ms: c_t,
                physical_rate_bit_per_prb: r_w,
                physical_rate_coarse_flag: coarse_flag,
                no_tbs_prb_ratio: PrbRatio { no_tbs_prb: p_alloc_no_tbs, total_prb: p_alloc_total },
            },
            basis: MetricBasis {
                nof_dci: n as u64,
                p_cell,
                nof_rnti_shared,
                nof_rnti_in_dci: nof_rnti,
                rnti_share_type: used_rnti_share_type,
                p_alloc,
                p_alloc_no_tbs,
                tbs_alloc_bit: tbs_alloc_bit_wide as u64,
                target_rnti,
                tbs_alloc_rnti_bit,
                p_alloc_rnti,
                p_alloc_no_tbs_rnti,
                p_alloc_rnti_suggested,
            },
        },
    )
}

/// Computes the capacity metric of one slice; the caller decides what
/// to log and to broadcast.
pub fn calculate_capacity(
    target_rnti: u16,
    cell_info: &CellInfo,
    dci_list: &[NgScopeCellDci],
    rnti_share_type: u8,
) -> (r: Result<LogMetric, ModelError>)
    requires
        dci_list@.len() <= MAX_DCI_ARRAY_SIZE,
        cell_info.cells@.len() > 0,
    ensures
        ({
            let s = dci_list@;
            let prb = cell_info.cells@[0].nof_prb;
            &&& (r is Ok <==> spec_capacity_ok(s, target_rnti, prb, rnti_share_type))
            &&& (r matches Ok(m) ==> spec_capacity_result(m, s, target_rnti, prb, rnti_share_type))
        }),
{
    calculate_pbe_cc_capacity(target_rnti, cell_info, dci_list, rnti_share_type)
}

/// Ring of the most recent DCIs.  When the buffer is full, the last
/// `MAX_DCI_SLICE_SIZE` entries move to the front and everything older
/// is discarded.
pub struct DciRingBuffer {
    pub dci_array: Vec<NgScopeCellDci>,
    pub dci_next: usize,
}

impl DciRingBuffer {
    /// The entries currently held, oldest first.
    pub open spec fn view(&self) -> Seq<NgScopeCellDci> {
        self.dci_array@.take(self.dci_next as int)
    }

    pub open spec fn wf(&self) -> bool {
        self.dci_array@.len() == MAX_DCI_ARRAY_SIZE && self.dci_next <= MAX_DCI_ARRAY_SIZE
    }

    /// Creates an empty ring of `MAX_DCI_ARRAY_SIZE` slots.
    pub fn new() -> (r: DciRingBuffer)
        ensures
            r.wf(),
            r@ =~= Seq::<NgScopeCellDci>::empty(),
    {
        let mut v: Vec<NgScopeCellDci> = Vec::new();
        let zero = NgScopeCellDci::default();
        let mut i: usize = 0;
        while i < MAX_DCI_ARRAY_SIZE
            invariant
                0 <= i <= MAX_DCI_ARRAY_SIZE,
                v@.len() == i,
            decreases MAX_DCI_ARRAY_SIZE - i,
        {
            v.push(zero);
            i = i + 1;
        }
        DciRingBuffer { dci_array: v, dci_next: 0 }
    }

    /// Appends one DCI.  While the buffer is not full the contents only
    /// grow; at the wrap, exactly the most recent `MAX_DCI_SLICE_SIZE`
    /// entries survive, in order, and `item` follows them.
    pub fn push(&mut self, item: NgScopeCellDci)
        requires
            old(self).wf(),
        ensures
            final(self).wf(),
            old(self)@.len() < MAX_DCI_ARRAY_SIZE ==> final(self)@ =~= old(self)@.push(item),
            old(self)@.len() == MAX_DCI_ARRAY_SIZE ==> final(self)@ =~= old(self)@.skip(
                MAX_DCI_SLICE_INDEX as int,
            ).push(item),
    {
        if self.dci_next >= MAX_DCI_ARRAY_SIZE {
            // keep the most recent MAX_DCI_SLICE_SIZE entries
            let mut k: usize = 0;
            while k < MAX_DCI_SLICE_SIZE
                invariant
                    0 <= k <= MAX_DCI_SLICE_SIZE,
                    self.dci_array@.len() == MAX_DCI_ARRAY_SIZE,
                    forall|l: int|
                        0 <= l < k ==> self.dci_array@[l] == old(self).dci_array@[
                        MAX_DCI_SLICE_INDEX + l],
                    forall|l: int|
                        k <= l < MAX_DCI_ARRAY_SIZE ==> self.dci_array@[l] == old(
                            self,
                        ).dci_array@[l],
                decreases MAX_DCI_SLICE_SIZE - k,
            {
                let moved = self.dci_array[MAX_DCI_SLICE_INDEX + k];
                self.dci_array.set(k, moved);
                k = k + 1;
            }
            self.dci_next = MAX_DCI_SLICE_SIZE;
        }
        let at: usize = self.dci_next;
        self.dci_array.set(at, item);
        self.dci_next = at + 1;
    }

    /// The `min(wanted, len)` most recent entries, in insertion order;
    /// empty when nothing is wanted or held.
    pub fn slice(&self, wanted_slice_size: usize) -> (r: &[NgScopeCellDci])
        requires
            self.wf(),
        ensures
            wanted_slice_size == 0 || self@.len() == 0 ==> r@ =~= Seq::<NgScopeCellDci>::empty(),
            wanted_slice_size > 0 && self@.len() > 0 ==> r@ =~= self@.skip(
                if wanted_slice_size as int <= self@.len() {
                    self@.len() - wanted_slice_size
                } else {
                    0
                },
            ),
            r@.len() <= wanted_slice_size,
    {
        if wanted_slice_size == 0 || self.dci_next == 0 {
            let empty: &[NgScopeCellDci] = &self.dci_array.as_slice()[0..0];
            return empty;
        }
        let slice_size: usize = if wanted_slice_size <= self.dci_next {
            wanted_slice_size
        } else {
            self.dci_next
        };
        let delta: usize = self.dci_next - slice_size;
        &self.dci_array.as_slice()[delta..self.dci_next]
    }
}

/// Whether the model sits idle under this scenario: it does while only
/// the cell's DCI stream is tracked.
pub fn is_idle_scenario(scenario: Scenario) -> (r: bool)
    ensures
        r == (scenario is TrackCellDciOnly),
{
    match scenario {
        Scenario::TrackCellDciOnly => true,
        Scenario::TrackUeAndEstimateTransportCapacity => false,
        Scenario::PerformMeasurement => false,
    }
}

/// Microseconds between two metric broadcasts: a fixed time, or the
/// last RTT scaled by the configured factor (in thousandths).
pub fn determine_sending_interval(model_args: &FlattenedModelArgs, last_rtt_us: &Option<u64>) -> (r:
    u64)
    requires
        model_args.model_send_metric_interval_type is RttFactor ==> last_rtt_us is Some,
    ensures
        model_args.model_send_metric_interval_type is FixedMs ==> r
            == model_args.model_send_metric_interval_value,
        model_args.model_send_metric_interval_type is RttFactor ==> r as int == sat_u64(
            (last_rtt_us->0) * model_args.model_send_metric_interval_value as int / 1000,
        ),
{
    match model_args.model_send_metric_interval_type {
        DynamicValue::FixedMs => model_args.model_send_metric_interval_value,
        DynamicValue::RttFactor => {
            let rtt: u64 = match *last_rtt_us {
                Some(v) => v,
                None => 0,
            };
            proof {
                assert((rtt as int) * (model_args.model_send_metric_interval_value as int)
                    < 0x1_0000_0000_0000_0000_0000_0000_0000_0000) by (nonlinear_arith)
                    requires
                        rtt <= 0xFFFF_FFFF_FFFF_FFFF,
                        model_args.model_send_metric_interval_value <= 0xFFFF_FFFF_FFFF_FFFF,
                ;
            }
            let wide: u128 = (rtt as u128) * (model_args.model_send_metric_interval_value as u128)
                / 1000;
            if wide > u64::MAX as u128 {
                u64::MAX
            } else {
                wide as u64
            }
        },
    }
}

/// `x` capped at the largest `u64`.
pub open spec fn sat_u64(x: int) -> int {
    if x > u64::MAX {
        u64::MAX as int
    } else {
        x
    }
}

/// Subframes of the smoothing window: a fixed count, or the last RTT
/// scaled by the configured factor, never more than the largest slice.
pub fn determine_smoothing_size(model_args: &FlattenedModelArgs, last_rtt_us: &Option<u64>) -> (r:
    u64)
    requires
        model_args.model_metric_smoothing_size_type is RttFactor ==> last_rtt_us is Some,
    ensures
        r <= MAX_DCI_SLICE_SIZE,
        ({
            let unbound = if model_args.model_metric_smoothing_size_type is FixedMs {
                model_args.model_metric_smoothing_size_value as int / 1000
            } else {
                (last_rtt_us->0) * model_args.model_metric_smoothing_size_value as int / 1000000
            };
            r == if unbound > MAX_DCI_SLICE_SIZE {
                MAX_DCI_SLICE_SIZE as int
            } else {
                unbound
            }
        }),
{
    let unbound_slice: u64 = match model_args.model_metric_smoothing_size_type {
        DynamicValue::FixedMs => model_args.model_metric_smoothing_size_value / 1000,
        DynamicValue::RttFactor => {
            let rtt: u64 = match *last_rtt_us {
                Some(v) => v,
                None => 0,
            };
            proof {
                assert((rtt as int) * (model_args.model_metric_smoothing_size_value as int)
                    < 0x1_0000_0000_0000_0000_0000_0000_0000_0000) by (nonlinear_arith)
                    requires
                        rtt <= 0xFFFF_FFFF_FFFF_FFFF,
                        model_args.model_metric_smoothing_size_value <= 0xFFFF_FFFF_FFFF_FFFF,
                ;
            }
            let wide: u128 = (rtt as u128) * (model_args.model_metric_smoothing_size_value as u128)
                / 1000000;
            if wide > u64::MAX as u128 {
                u64::MAX
            } else {
                wide as u64
            }
        },
    };
    if unbound_slice > MAX_DCI_SLICE_SIZE as u64 {
        return MAX_DCI_SLICE_SIZE as u64;
    }
    unbound_slice
}

/// The broadcast record of one computed metric: stamped `now_us`, the
/// slice's first entry as the oldest DCI and its last as the latest,
/// and every rate copied from the computation.
pub fn build_metric_a(metric: &LogMetric, slice: &[NgScopeCellDci], now_us: u64) -> (r: MetricA)
    requires
        slice@.len() > 0,
        slice@.len() <= u16::MAX,
    ensures
        r.timestamp_us == now_us,
        r.fair_share_send_rate == metric.result.transport_fair_share_capacity_bit_per_ms,
        r.oldest_dci_timestamp_us == slice@.first().time_stamp,
        r.latest_dci_timestamp_us == slice@.last().time_stamp,
        r.nof_dci == slice@.len(),
        r.no_tbs_prb_ratio == metric.result.no_tbs_prb_ratio,
        r.flag_phy_rate_all_rnti == metric.result.physical_rate_coarse_flag,
        r.phy_rate == metric.result.physical_rate_bit_per_prb,
{
    let n: usize = slice.len();
    MetricA {
        timestamp_us: now_us,
        fair_share_send_rate: metric.result.transport_fair_share_capacity_bit_per_ms,
        oldest_dci_timestamp_us: slice[0].time_stamp,
        latest_dci_timestamp_us: slice[n - 1].time_stamp,
        nof_dci: n as u16,
        no_tbs_prb_ratio: metric.result.no_tbs_prb_ratio,
        flag_phy_rate_all_rnti: metric.result.physical_rate_coarse_flag,
        phy_rate: metric.result.physical_rate_bit_per_prb,
    }
}

} // verus!
