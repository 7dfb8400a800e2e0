//! Small helpers: the rings of recent RNTI winners with their mode, the
//! TCP_INFO mirror struct, buffer allocation, and JSON navigation.

use vstd::prelude::*;

verus! {

/// Occurrences of `v` in `s`.
pub open spec fn count_of(s: Seq<u16>, v: u16) -> nat
    decreases s.len(),
{
    if s.len() == 0 {
        0
    } else {
        count_of(s.drop_last(), v) + if s.last() == v {
            1nat
        } else {
            0nat
        }
    }
}

/// A value that occurs at least once is an element of the sequence.
proof fn lemma_count_positive_implies_contains(s: Seq<u16>, v: u16)
    requires
        count_of(s, v) > 0,
    ensures
        s.contains(v),
    decreases s.len(),
{
    if s.len() > 0 {
        if s.last() == v {
            assert(s[s.len() - 1] == v);
        } else {
            lemma_count_positive_implies_contains(s.drop_last(), v);
            let i = choose|i: int| 0 <= i < s.drop_last().len() && s.drop_last()[i] == v;
            assert(s[i] == v);
        }
    }
}

/// Counting over one more element of a prefix.
proof fn lemma_count_take_step(s: Seq<u16>, i: int, v: u16)
    requires
        0 <= i < s.len(),
    ensures
        count_of(s.take(i + 1), v) == count_of(s.take(i), v) + if s[i] == v {
            1nat
        } else {
            0nat
        },
{
    assert(s.take(i + 1).drop_last() =~= s.take(i));
    assert(s.take(i + 1).last() == s[i]);
}

/// `v` is a mode of `s`: it occurs, and no value occurs more often.
pub open spec fn is_mode(s: Seq<u16>, v: u16) -> bool {
    s.contains(v) && forall|w: u16| #[trigger] count_of(s, w) <= count_of(s, v)
}

/// Fixed-size ring of recent RNTI winners.  Adding to a full ring drops
/// the oldest entry.
#[derive(Clone, Debug)]
pub struct RingBuffer {
    pub buffer: Vec<u16>,
    pub size: usize,
}

impl RingBuffer {
    /// Contents, oldest first.
    pub open spec fn view(&self) -> Seq<u16> {
        self.buffer@
    }

    /// Configured capacity.
    pub open spec fn spec_size(&self) -> usize {
        self.size
    }

    pub open spec fn wf(&self) -> bool {
        self.buffer@.len() <= self.size
    }

    /// Creates an empty ring that will keep the last `size` values.
    pub fn new(size: usize) -> (r: RingBuffer)
        ensures
            r.wf(),
            r@ =~= Seq::<u16>::empty(),
            r.spec_size() == size,
    {
        RingBuffer { buffer: Vec::new(), size }
    }

    /// Appends `value`; when the ring is full the oldest value leaves first.
    pub fn add(&mut self, value: u16)
        requires
            old(self).wf(),
            old(self).spec_size() > 0,
        ensures
            final(self).wf(),
            final(self).spec_size() == old(self).spec_size(),
            final(self)@ =~= if old(self)@.len() == old(self).spec_size() {
                old(self)@.skip(1).push(value)
            } else {
                old(self)@.push(value)
            },
    {
        if self.buffer.len() == self.size {
            self.buffer.remove(0);
        }
        self.buffer.push(value);
    }

    /// Occurrences of `value` in the ring.
    fn count(&self, value: u16) -> (c: usize)
        ensures
            c == count_of(self@, value),
    {
        let mut c: usize = 0;
        let mut i: usize = 0;
        while i < self.buffer.len()
            invariant
                0 <= i <= self.buffer@.len(),
                c == count_of(self.buffer@.take(i as int), value),
                c <= i,
            decreases self.buffer@.len() - i,
        {
            proof {
                lemma_count_take_step(self.buffer@, i as int, value);
            }
            if self.buffer[i] == value {
                c = c + 1;
            }
            i = i + 1;
        }
        proof {
            assert(self.buffer@.take(self.buffer@.len() as int) =~= self.buffer@);
        }
        c
    }

    /// A most frequent value of the ring: `None` on an empty ring, else a
    /// value of the ring whose count no other value exceeds.
    pub fn most_frequent(&self) -> (r: Option<u16>)
        ensures
            r is Some <==> self@.len() > 0,
            r matches Some(v) ==> is_mode(self@, v),
    {
        if self.buffer.len() == 0 {
            return None;
        }
        let mut best: u16 = self.buffer[0];
        let mut best_count: usize = self.count(best);
        proof {
            assert(self@.contains(self@[0]));
        }
        let mut i: usize = 1;
        while i < self.buffer.len()
            invariant
                1 <= i <= self.buffer@.len(),
                self@.contains(best),
                best_count == count_of(self@, best),
                forall|j: int| 0 <= j < i ==> count_of(self@, self@[j]) <= best_count,
            decreases self.buffer@.len() - i,
        {
            let candidate: u16 = self.buffer[i];
            let c: usize = self.count(candidate);
            if c > best_count {
                best = candidate;
                best_count = c;
                proof {
                    assert(self@.contains(self@[i as int]));
                }
            }
            i = i + 1;
        }
        proof {
            assert forall|w: u16| #[trigger] count_of(self@, w) <= count_of(self@, best) by {
                if count_of(self@, w) > 0 {
                    lemma_count_positive_implies_contains(self@, w);
                    let j = choose|j: int| 0 <= j < self@.len() && self@[j] == w;
                    assert(count_of(self@, self@[j]) <= best_count);
                }
            }
        }
        Some(best)
    }
}

/// The contents of `cell`'s ring in a cell list, if the cell is known.
pub open spec fn ring_of(s: Seq<(u64, RingBuffer)>, cell: u64) -> Option<Seq<u16>> {
    if exists|i: int| 0 <= i < s.len() && (#[trigger] s[i]).0 == cell {
        let i = choose|i: int| 0 <= i < s.len() && (#[trigger] s[i]).0 == cell;
        Some(s[i].1@)
    } else {
        None
    }
}

/// The contents of `cell`'s ring after every `(cell, rnti)` pair of
/// `pairs` was pushed, in order, onto `base` (a missing ring starts
/// empty; a full ring drops its oldest value first).
pub open spec fn spec_ring_after(
    pairs: Seq<(u64, u16)>,
    cell: u64,
    base: Option<Seq<u16>>,
    size: int,
) -> Option<Seq<u16>>
    decreases pairs.len(),
{
    if pairs.len() == 0 {
        base
    } else {
        let prev = spec_ring_after(pairs.drop_last(), cell, base, size);
        if pairs.last().0 == cell {
            let cur = match prev {
                None => Seq::<u16>::empty(),
                Some(v) => v,
            };
            Some(
                if cur.len() == size {
                    cur.skip(1).push(pairs.last().1)
                } else {
                    cur.push(pairs.last().1)
                },
            )
        } else {
            prev
        }
    }
}

/// With unique keys, position `idx`'s ring is what the lookup yields.
proof fn lemma_ring_lookup(s: Seq<(u64, RingBuffer)>, idx: int)
    requires
        forall|a: int, b: int| 0 <= a < b < s.len() ==> s[a].0 != s[b].0,
        0 <= idx < s.len(),
    ensures
        ring_of(s, s[idx].0) == Some(s[idx].1@),
{
    let c = s[idx].0;
    assert(s[idx].0 == c);
    let i = choose|i: int| 0 <= i < s.len() && (#[trigger] s[i]).0 == c;
    if i != idx {
        if i < idx {
            assert(s[i].0 != s[idx].0);
        } else {
            assert(s[idx].0 != s[i].0);
        }
    }
}

/// Updating one position's ring leaves every other cell's lookup
/// unchanged.
proof fn lemma_ring_update_other(
    before: Seq<(u64, RingBuffer)>,
    after: Seq<(u64, RingBuffer)>,
    idx: int,
    q: u64,
)
    requires
        forall|a: int, b: int| 0 <= a < b < before.len() ==> before[a].0 != before[b].0,
        0 <= idx < before.len(),
        after.len() == before.len(),
        forall|k: int| 0 <= k < before.len() && k != idx ==> after[k] == before[k],
        after[idx].0 == before[idx].0,
        q != before[idx].0,
    ensures
        ring_of(after, q) == ring_of(before, q),
{
    if exists|i: int| 0 <= i < after.len() && (#[trigger] after[i]).0 == q {
        let i = choose|i: int| 0 <= i < after.len() && (#[trigger] after[i]).0 == q;
        assert(i != idx);
        assert(before[i].0 == q);
        let j = choose|j: int| 0 <= j < before.len() && (#[trigger] before[j]).0 == q;
        assert(j != idx);
        assert(after[j].0 == q);
        if i != j {
            if i < j {
                assert(before[i].0 != before[j].0);
            } else {
                assert(before[j].0 != before[i].0);
            }
        }
        assert(after[i] == before[i]);
    } else {
        assert forall|j: int| 0 <= j < before.len() implies (#[trigger] before[j]).0 != q by {
            if before[j].0 == q {
                if j != idx {
                    assert(after[j].0 == q);
                }
            }
        }
    }
}

/// Appending a new cell leaves every other cell's lookup unchanged.
proof fn lemma_ring_push_other(
    before: Seq<(u64, RingBuffer)>,
    after: Seq<(u64, RingBuffer)>,
    q: u64,
)
    requires
        forall|a: int, b: int| 0 <= a < b < before.len() ==> before[a].0 != before[b].0,
        after.len() == before.len() + 1,
        forall|k: int| 0 <= k < before.len() ==> after[k] == before[k],
        q != after[before.len() as int].0,
    ensures
        ring_of(after, q) == ring_of(before, q),
{
    if exists|i: int| 0 <= i < after.len() && (#[trigger] after[i]).0 == q {
        let i = choose|i: int| 0 <= i < after.len() && (#[trigger] after[i]).0 == q;
        assert(i < before.len());
        assert(before[i].0 == q);
        let j = choose|j: int| 0 <= j < before.len() && (#[trigger] before[j]).0 == q;
        assert(after[j].0 == q);
        if i != j {
            if i < j {
                assert(before[i].0 != before[j].0);
            } else {
                assert(before[j].0 != before[i].0);
            }
        }
        assert(after[i] == before[i]);
    } else {
        assert forall|j: int| 0 <= j < before.len() implies (#[trigger] before[j]).0 != q by {
            if before[j].0 == q {
                assert(after[j].0 == q);
            }
        }
    }
}

/// Rings of recent winners per cell: `cell_id` to its `RingBuffer`, one
/// entry per cell, and never an empty ring.
#[derive(Clone, Debug)]
pub struct CellRntiRingBuffer {
    pub cell_buffers: Vec<(u64, RingBuffer)>,
    pub size: usize,
}

impl CellRntiRingBuffer {
    pub open spec fn wf(&self) -> bool {
        &&& self.size > 0
        &&& forall|i: int, j: int|
            0 <= i < j < self.cell_buffers@.len() ==> self.cell_buffers@[i].0
                != self.cell_buffers@[j].0
        &&& forall|i: int|
            0 <= i < self.cell_buffers@.len() ==> (#[trigger] self.cell_buffers@[i].1).wf()
                && self.cell_buffers@[i].1.spec_size() == self.size
                && self.cell_buffers@[i].1@.len() > 0
    }

    /// Creates an empty collection whose rings keep `size` winners each.
    pub fn new(size: usize) -> (r: CellRntiRingBuffer)
        requires
            size > 0,
        ensures
            r.wf(),
            r.cell_buffers@.len() == 0,
    {
        CellRntiRingBuffer { size, cell_buffers: Vec::new() }
    }

    /// Position of `cell` among the tracked cells.
    fn find_cell(&self, cell: u64) -> (r: Option<usize>)
        ensures
            r matches Some(i) ==> i < self.cell_buffers@.len() && self.cell_buffers@[i as int].0
                == cell,
            r is None ==> forall|j: int|
                0 <= j < self.cell_buffers@.len() ==> (#[trigger] self.cell_buffers@[j]).0 != cell,
    {
        let mut i: usize = 0;
        while i < self.cell_buffers.len()
            invariant
                0 <= i <= self.cell_buffers@.len(),
                forall|j: int| 0 <= j < i ==> (#[trigger] self.cell_buffers@[j]).0 != cell,
            decreases self.cell_buffers@.len() - i,
        {
            if self.cell_buffers[i].0 == cell {
                return Some(i);
            }
            i = i + 1;
        }
        None
    }

    /// Pushes, for every `(cell, rnti)` pair, in order, the winner
    /// `rnti` into the ring of `cell`: the ring starts empty on first
    /// sight of the cell and drops its oldest winner when full, and
    /// every cell not named in `cell_rntis` keeps its ring unchanged.
    pub fn update(&mut self, cell_rntis: &Vec<(u64, u16)>)
        requires
            old(self).wf(),
        ensures
            final(self).wf(),
            final(self).size == old(self).size,
            forall|c: u64| #[trigger] ring_of(final(self).cell_buffers@, c) == spec_ring_after(
                cell_rntis@,
                c,
                ring_of(old(self).cell_buffers@, c),
                old(self).size as int,
            ),
    {
        let ghost original = self.cell_buffers@;
        let mut k: usize = 0;
        while k < cell_rntis.len()
            invariant
                self.wf(),
                self.size == old(self).size,
                0 <= k <= cell_rntis@.len(),
                forall|c: u64| #[trigger] ring_of(self.cell_buffers@, c) == spec_ring_after(
                    cell_rntis@.take(k as int),
                    c,
                    ring_of(original, c),
                    self.size as int,
                ),
            decreases cell_rntis@.len() - k,
        {
            proof {
                assert(cell_rntis@.take(k + 1).drop_last() =~= cell_rntis@.take(k as int));
                assert(cell_rntis@.take(k + 1).last() == cell_rntis@[k as int]);
            }
            let cell: u64 = cell_rntis[k].0;
            let rnti: u16 = cell_rntis[k].1;
            let ghost before = self.cell_buffers@;
            match self.find_cell(cell) {
                Some(i) => {
                    proof {
                        lemma_ring_lookup(before, i as int);
                    }
                    let mut pair = self.cell_buffers.remove(i);
                    pair.1.add(rnti);
                    self.cell_buffers.insert(i, pair);
                    proof {
                        assert(self.cell_buffers@ =~= before.update(i as int, (cell, pair.1)));
                        assert forall|a: int, b: int|
                            0 <= a < b < self.cell_buffers@.len() implies self.cell_buffers@[a].0
                            != self.cell_buffers@[b].0 by {}
                        assert forall|a: int|
                            0 <= a < self.cell_buffers@.len() implies (
                        #[trigger] self.cell_buffers@[a].1).wf()
                            && self.cell_buffers@[a].1.spec_size() == self.size
                            && self.cell_buffers@[a].1@.len() > 0 by {}
                        lemma_ring_lookup(self.cell_buffers@, i as int);
                        assert forall|c: u64| #[trigger] ring_of(self.cell_buffers@, c)
                            == spec_ring_after(
                            cell_rntis@.take(k + 1),
                            c,
                            ring_of(original, c),
                            self.size as int,
                        ) by {
                            if c == cell {
                                assert(ring_of(self.cell_buffers@, c) == Some(pair.1@));
                                assert(ring_of(before, c) == Some(before[i as int].1@));
                            } else {
                                lemma_ring_update_other(
                                    before,
                                    self.cell_buffers@,
                                    i as int,
                                    c,
                                );
                            }
                        }
                    }
                },
                None => {
                    let mut ring = RingBuffer::new(self.size);
                    ring.add(rnti);
                    self.cell_buffers.push((cell, ring));
                    proof {
                        assert(self.cell_buffers@ =~= before.push((cell, ring)));
                        assert(self.cell_buffers@[self.cell_buffers@.len() - 1].0 == cell);
                        assert forall|a: int, b: int|
                            0 <= a < b < self.cell_buffers@.len() implies self.cell_buffers@[a].0
                            != self.cell_buffers@[b].0 by {
                            if b == self.cell_buffers@.len() - 1 {
                                assert(self.cell_buffers@[a] == before[a]);
                                assert(before[a].0 != cell);
                            }
                        }
                        assert forall|a: int|
                            0 <= a < self.cell_buffers@.len() implies (
                        #[trigger] self.cell_buffers@[a].1).wf()
                            && self.cell_buffers@[a].1.spec_size() == self.size
                            && self.cell_buffers@[a].1@.len() > 0 by {
                            if a < before.len() {
                                assert(self.cell_buffers@[a] == before[a]);
                                assert(before[a].1.wf());
                            }
                        }
                        lemma_ring_lookup(self.cell_buffers@, self.cell_buffers@.len() - 1);
                        assert(ring_of(before, cell) is None);
                        assert forall|c: u64| #[trigger] ring_of(self.cell_buffers@, c)
                            == spec_ring_after(
                            cell_rntis@.take(k + 1),
                            c,
                            ring_of(original, c),
                            self.size as int,
                        ) by {
                            if c == cell {
                                assert(ring_of(self.cell_buffers@, c) == Some(ring@));
                                assert(ring@ =~= Seq::<u16>::empty().push(rnti));
                            } else {
                                lemma_ring_push_other(before, self.cell_buffers@, c);
                            }
                        }
                    }
                },
            }
            k = k + 1;
        }
        proof {
            assert(cell_rntis@.take(cell_rntis@.len() as int) =~= cell_rntis@);
        }
    }

    /// The mode of every cell's ring: one `(cell, rnti)` pair per known
    /// cell, where no value of that cell's ring occurs more often than
    /// `rnti` does.
    pub fn most_frequent(&self) -> (r: Vec<(u64, u16)>)
        requires
            self.wf(),
        ensures
            r@.len() == self.cell_buffers@.len(),
            forall|i: int|
                0 <= i < r@.len() ==> (#[trigger] r@[i]).0 == self.cell_buffers@[i].0 && is_mode(
                    self.cell_buffers@[i].1@,
                    r@[i].1,
                ),
    {
        let mut out: Vec<(u64, u16)> = Vec::new();
        let mut i: usize = 0;
        while i < self.cell_buffers.len()
            invariant
                self.wf(),
                0 <= i <= self.cell_buffers@.len(),
                out@.len() == i,
                forall|j: int|
                    0 <= j < i ==> (#[trigger] out@[j]).0 == self.cell_buffers@[j].0 && is_mode(
                        self.cell_buffers@[j].1@,
                        out@[j].1,
                    ),
            decreases self.cell_buffers@.len() - i,
        {
            let cell: u64 = self.cell_buffers[i].0;
            match self.cell_buffers[i].1.most_frequent() {
                Some(rnti) => {
                    out.push((cell, rnti));
                },
                None => {
                    // unreachable: a well-formed collection has no empty ring
                    proof {
                        assert(false);
                    }
                    out.push((cell, 0));
                },
            }
            i = i + 1;
        }
        out
    }
}

/// `a + b`, saturating at the largest `u64`.
pub open spec fn spec_sat_add_u64(a: int, b: int) -> int {
    if a + b > u64::MAX {
        u64::MAX as int
    } else {
        a + b
    }
}

/// Adds two words, stopping at the largest value instead of wrapping.
pub fn sat_add_u64(a: u64, b: u64) -> (r: u64)
    ensures
        r == spec_sat_add_u64(a as int, b as int),
{
    if a > u64::MAX - b {
        u64::MAX
    } else {
        a + b
    }
}

/// Allocates a zero-filled read buffer of the wanted size.
pub fn init_heap_buffer(size: usize) -> (r: Vec<u8>)
    ensures
        r@.len() == size,
        forall|i: int| 0 <= i < r@.len() ==> r@[i] == 0u8,
{
    let mut v: Vec<u8> = Vec::new();
    let mut i: usize = 0;
    while i < size
        invariant
            v@.len() == i,
            i <= size,
            forall|j: int| 0 <= j < v@.len() ==> v@[j] == 0u8,
        decreases size - i,
    {
        v.push(0);
        i = i + 1;
    }
    v
}

/// Kernel TCP_INFO fields, in the order and widths of the C struct; the
/// caller that queries the socket fills it.
#[derive(Clone, Copy, Debug, Default)]
pub struct StockTcpInfo {
    pub tcpi_state: u8,
    pub tcpi_ca_state: u8,
    pub tcpi_retransmits: u8,
    pub tcpi_probes: u8,
    pub tcpi_backoff: u8,
    pub tcpi_options: u8,
    pub tcpi_snd_wscale: u8,
    pub tcpi_rcv_wscale: u8,
    pub tcpi_rto: u32,
    pub tcpi_ato: u32,
    pub tcpi_snd_mss: u32,
    pub tcpi_rcv_mss: u32,
    pub tcpi_unacked: u32,
    pub tcpi_sacked: u32,
    pub tcpi_lost: u32,
    pub tcpi_retrans: u32,
    pub tcpi_fackets: u32,
    pub tcpi_last_data_sent: u32,
    pub tcpi_last_ack_sent: u32,
    pub tcpi_last_data_recv: u32,
    pub tcpi_last_ack_recv: u32,
    pub tcpi_pmtu: u32,
    pub tcpi_rcv_ssthresh: u32,
    pub tcpi_rtt: u32,
    pub tcpi_rttvar: u32,
    pub tcpi_snd_ssthresh: u32,
    pub tcpi_snd_cwnd: u32,
    pub tcpi_advmss: u32,
    pub tcpi_reordering: u32,
    pub tcpi_rcv_rtt: u32,
    pub tcpi_rcv_space: u32,
    pub tcpi_total_retrans: u32,
}

/// JSON values of the cell-info back-ends pass through the library
/// opaquely; only the strings taken out of them are parsed here.
#[verifier::external_type_specification]
#[verifier::external_body]
pub struct ExValue(serde_json::Value);

/// Relies on `serde_json::Value::pointer`: navigates the reply by a
/// JSON pointer and hands the addressed value back, or nothing when the
/// path is absent.  The value itself stays opaque.
#[verifier::external_body]
pub fn helper_json_pointer(nested_value: &serde_json::Value, pointer: &str) -> (r: Option<
    serde_json::Value,
>) {
    nested_value.pointer(pointer).cloned()
}

/// Relies on `serde_json::Value::as_str`: the text of a JSON string
/// value, or nothing when the value is no string.
#[verifier::external_body]
pub fn json_value_as_string(value: &serde_json::Value) -> (r: Option<String>) {
    value.as_str().map(|s| s.to_string())
}

} // verus!
