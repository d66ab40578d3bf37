//! Received-block bitmap and loss scanner.

use crate::heap::{HeapItem, MinHeap};
use crate::rate::RTT_PREC_US;
use std::collections::HashSet;
use vstd::prelude::*;

verus! {

broadcast use vstd::std_specs::hash::group_hash_axioms;

/// A bitmap of received blocks, in words of 64.
pub struct RecvBitmap {
    words: Vec<u64>,
    total: u64,
}

/// Bit `k` of a word.
spec fn bit(w: u64, k: u64) -> bool {
    w & (1u64 << k) != 0
}

/// The number of 64-bit words that hold `total` bits.
pub open spec fn words_for(total: int) -> int {
    (total + 63) / 64
}

/// Setting a bit sets that bit and no other.
proof fn set_bit(w: u64, k: u64, j: u64)
    requires
        k < 64,
        j < 64,
    ensures
        bit(w | (1u64 << k), j) == (j == k || bit(w, j)),
{
    assert(((w | (1u64 << k)) & (1u64 << j) != 0) == (j == k || (w & (1u64 << j) != 0)))
        by (bit_vector)
        requires
            k < 64,
            j < 64,
    ;
}

impl View for RecvBitmap {
    type V = Seq<bool>;

    /// Which blocks are marked. The bitmap is kept in whole words, so it may be
    /// longer than the number of blocks.
    closed spec fn view(&self) -> Seq<bool> {
        Seq::new(
            64 * self.words@.len(),
            |i: int| bit(self.words@[i / 64], (i % 64) as u64),
        )
    }
}

impl RecvBitmap {
    /// The number of blocks that the bitmap was made for.
    pub closed spec fn total(&self) -> u64 {
        self.total
    }

    /// The bitmap has room for its blocks and ends with the word of the last one.
    pub open spec fn wf(&self) -> bool {
        self@.len() == 64 * words_for(self.total() as int)
    }

    /// A bitmap of `total` blocks, none of them marked.
    pub fn new(total: u64) -> (r: RecvBitmap)
        requires
            words_for(total as int) <= usize::MAX,
        ensures
            r.wf(),
            r.total() == total,
            forall|i: int| 0 <= i < r@.len() ==> !#[trigger] r@[i],
    {
        let n: usize = (total / 64) as usize + if total % 64 == 0 {
            0
        } else {
            1
        };
        let mut words: Vec<u64> = Vec::with_capacity(n);
        let mut i: usize = 0;
        while i < n
            invariant
                i <= n,
                words@.len() == i,
                forall|j: int| 0 <= j < i ==> words@[j] == 0,
            decreases n - i,
        {
            words.push(0);
            i = i + 1;
        }
        let r = RecvBitmap { words, total };
        assert forall|i: int| 0 <= i < r@.len() implies !#[trigger] r@[i] by {
            let k = (i % 64) as u64;
            assert(0u64 & (1u64 << k) == 0) by (bit_vector);
        }
        r
    }

    /// Marks `seq` received and reports whether this was the first time
    /// (`false` for a duplicate).
    pub fn set_and_test(&mut self, seq: u64) -> (r: bool)
        requires
            seq < old(self)@.len(),
        ensures
            r == !old(self)@[seq as int],
            final(self)@ == old(self)@.update(seq as int, true),
            final(self).total() == old(self).total(),
    {
        assert(seq / 64 < self.words.len());
        let w: usize = (seq / 64) as usize;
        let k: u64 = seq % 64;
        let ghost before = self@;
        let prev: u64 = self.words[w];
        let mask: u64 = 1u64 << k;
        self.words[w] = prev | mask;
        assert forall|i: int| 0 <= i < before.len() implies #[trigger] self@[i] == before.update(
            seq as int,
            true,
        )[i] by {
            if i / 64 == w {
                set_bit(prev, k, (i % 64) as u64);
            }
        }
        assert(self@ =~= before.update(seq as int, true));
        prev & mask == 0
    }

    /// Whether `seq` is marked.
    pub fn is_set(&self, seq: u64) -> (r: bool)
        requires
            seq < self@.len(),
        ensures
            r == self@[seq as int],
    {
        assert(seq / 64 < self.words.len());
        self.words[(seq / 64) as usize] & (1u64 << (seq % 64)) != 0
    }

    /// The number of positions, marked or not.
    pub fn capacity(&self) -> (r: u128)
        ensures
            r == self@.len(),
    {
        64 * (self.words.len() as u128)
    }
}

/// Law: marking a block that is already marked changes nothing and is reported
/// as a duplicate; marks are never taken back.
pub proof fn marking_is_idempotent(bits: Seq<bool>, seq: int)
    requires
        0 <= seq < bits.len(),
    ensures
        bits.update(seq, true).update(seq, true) == bits.update(seq, true),
        bits.update(seq, true)[seq],
        forall|i: int| 0 <= i < bits.len() && bits[i] ==> #[trigger] bits.update(seq, true)[i],
{
    assert(bits.update(seq, true).update(seq, true) =~= bits.update(seq, true));
}

/// Law: the order in which blocks are marked does not matter.
pub proof fn marking_commutes(bits: Seq<bool>, a: int, b: int)
    requires
        0 <= a < bits.len(),
        0 <= b < bits.len(),
    ensures
        bits.update(a, true).update(b, true) == bits.update(b, true).update(a, true),
{
    assert(bits.update(a, true).update(b, true) =~= bits.update(b, true).update(a, true));
}

/// Detects missing blocks and schedules retransmission requests. A block is
/// requested only after it has been missing for one RTO of elapsed time, so
/// reordering in flight is not mistaken for loss.
pub struct LossScanner {
    total: u64,
    hi_contig: u64,
    next_scan: u64,
    pending: HashSet<u64>,
    heap: MinHeap,
    due: Ghost<Map<u64, u64>>,
}

/// What a loss scanner knows.
#[verifier::ext_equal]
pub struct ScanState {
    /// The number of blocks.
    pub total: u64,
    /// The number of blocks known to be received without a gap.
    pub hi_contig: u64,
    /// The first block not yet examined for loss.
    pub next_scan: u64,
    /// The blocks found missing and not yet known to have arrived.
    pub pending: Set<u64>,
    /// The scheduled requests: when each block is to be requested next.
    pub due: Map<u64, u64>,
}

/// Whether `seq` is requested before `other`: the earlier due time first, the
/// lower block among equals.
pub open spec fn due_before(due: Map<u64, u64>, seq: u64, other: u64) -> bool {
    due[seq] < due[other] || (due[seq] == due[other] && seq < other)
}

/// Whether a request for `seq` is scheduled for `now` or earlier.
pub open spec fn is_due(s: ScanState, now: u64, seq: u64) -> bool {
    s.due.dom().contains(seq) && s.due[seq] <= now
}

/// Whether a scheduled request for `seq` is still wanted: the block was found
/// missing and has not arrived.
pub open spec fn is_wanted(s: ScanState, bits: Seq<bool>, seq: u64) -> bool {
    s.pending.contains(seq) && !bits[seq as int]
}

/// Whether collecting requests reached the one for `seq`: it was due, and the
/// quota `max` was not used up by requests that come before it.
pub open spec fn reached(s: ScanState, now: u64, out: Seq<u64>, max: int, seq: u64) -> bool {
    &&& is_due(s, now, seq)
    &&& max > 0
    &&& (out.len() < max || seq == out.last() || due_before(s.due, seq, out.last()))
}

impl ScanState {
    /// Every request belongs to an examined block, and every pending block has
    /// one.
    pub open spec fn wf(self) -> bool {
        &&& self.hi_contig <= self.total
        &&& self.next_scan <= self.total
        &&& self.pending.subset_of(self.due.dom())
        &&& self.pending.finite()
        &&& forall|seq: u64| #[trigger] self.due.dom().contains(seq) ==> seq < self.next_scan
    }
}

/// The state after examining the blocks up to `max_seen`: every missing one
/// among the blocks not examined before is pending, with its first request due
/// one RTO (and the clock's precision) from now.
pub open spec fn after_scan(
    s: ScanState,
    bits: Seq<bool>,
    max_seen: u64,
    now: u64,
    rto: u64,
) -> ScanState {
    if s.total == 0 {
        s
    } else {
        let top = if max_seen >= s.total {
            (s.total - 1) as u64
        } else {
            max_seen
        };
        let fresh = Set::new(|seq: u64| s.next_scan <= seq <= top && !bits[seq as int]);
        ScanState {
            next_scan: if top + 1 > s.next_scan {
                (top + 1) as u64
            } else {
                s.next_scan
            },
            pending: s.pending.union(fresh),
            due: s.due.union_prefer_right(
                Map::new(|seq: u64| fresh.contains(seq), |seq: u64| (now + rto + RTT_PREC_US) as u64),
            ),
            ..s
        }
    }
}

/// The requests that are handed out when at most `max` are collected at time
/// `now`: the wanted requests that are due, in the order in which they are due,
/// as many as fit.
pub open spec fn requests_collected(
    s: ScanState,
    bits: Seq<bool>,
    now: u64,
    max: int,
    out: Seq<u64>,
) -> bool {
    &&& out.len() <= max
    &&& forall|i: int|
        0 <= i < out.len() ==> is_due(s, now, #[trigger] out[i]) && is_wanted(s, bits, out[i])
    &&& forall|i: int, j: int|
        0 <= i < j < out.len() ==> due_before(s.due, #[trigger] out[i], #[trigger] out[j])
    &&& forall|seq: u64|
        #![trigger s.due.dom().contains(seq)]
        reached(s, now, out, max, seq) && is_wanted(s, bits, seq) ==> out.contains(seq)
}

/// The state after handing out the requests `out`: each is scheduled again, and
/// the requests that were reached and are no longer wanted are dropped.
pub open spec fn after_collect(
    s: ScanState,
    bits: Seq<bool>,
    now: u64,
    rto: u64,
    max: int,
    out: Seq<u64>,
) -> ScanState {
    ScanState {
        pending: Set::new(
            |seq: u64|
                s.pending.contains(seq) && !(reached(s, now, out, max, seq) && bits[seq as int]),
        ),
        due: Map::new(
            |seq: u64|
                s.due.dom().contains(seq) && (reached(s, now, out, max, seq) ==> is_wanted(
                    s,
                    bits,
                    seq,
                )),
            |seq: u64|
                if reached(s, now, out, max, seq) {
                    (now + rto + RTT_PREC_US) as u64
                } else {
                    s.due[seq]
                },
        ),
        ..s
    }
}

/// Whether the heap holds one item for each scheduled request and no other.
spec fn heap_matches(heap: vstd::multiset::Multiset<HeapItem>, due: Map<u64, u64>) -> bool {
    forall|x: HeapItem|
        #[trigger] heap.count(x) == (if due.dom().contains(x.seq) && due[x.seq] == x.due {
            1nat
        } else {
            0nat
        })
}

impl View for LossScanner {
    type V = ScanState;

    closed spec fn view(&self) -> ScanState {
        ScanState {
            total: self.total,
            hi_contig: self.hi_contig,
            next_scan: self.next_scan,
            pending: self.pending@,
            due: self.due@,
        }
    }
}

impl LossScanner {
    /// The scanner's own bookkeeping agrees with its schedule.
    pub closed spec fn wf(&self) -> bool {
        &&& self@.wf()
        &&& self.heap.wf()
        &&& heap_matches(self.heap@, self.due@)
    }

    /// What a scanner knows agrees with itself.
    pub proof fn state_is_wf(&self)
        requires
            self.wf(),
        ensures
            self@.wf(),
    {
    }

    /// A scanner for `total` blocks that has examined none.
    pub fn new(total: u64) -> (r: LossScanner)
        ensures
            r.wf(),
            r@ == (ScanState {
                total,
                hi_contig: 0,
                next_scan: 0,
                pending: Set::empty(),
                due: Map::empty(),
            }),
    {
        LossScanner {
            total,
            hi_contig: 0,
            next_scan: 0,
            pending: HashSet::new(),
            heap: MinHeap::new(),
            due: Ghost(Map::empty()),
        }
    }

    /// Moves the contiguous high-water mark forward and drops pending entries
    /// that have since been filled. Returns the number of contiguous blocks.
    pub fn advance(&mut self, bm: &RecvBitmap) -> (r: u64)
        requires
            old(self).wf(),
            bm.wf(),
            bm.total() == old(self)@.total,
        ensures
            final(self).wf(),
            r == final(self)@.hi_contig,
            old(self)@.hi_contig <= r <= bm.total(),
            forall|i: int| old(self)@.hi_contig <= i < r ==> #[trigger] bm@[i],
            r < bm.total() ==> !bm@[r as int],
            final(self)@ == after_advance(old(self)@, r),
    {
        let ghost start = self@;
        while self.hi_contig < self.total && bm.is_set(self.hi_contig)
            invariant
                self.wf(),
                bm.wf(),
                bm.total() == self.total,
                start.hi_contig <= self.hi_contig <= self.total,
                forall|i: int| start.hi_contig <= i < self.hi_contig ==> #[trigger] bm@[i],
                self@ =~= after_advance(start, self.hi_contig),
            decreases self.total - self.hi_contig,
        {
            let ghost before = self.pending@;
            self.pending.remove(&self.hi_contig);
            self.hi_contig = self.hi_contig + 1;
            assert(self.pending@ =~= Set::new(
                |seq: u64|
                    start.pending.contains(seq) && !(start.hi_contig <= seq < self.hi_contig),
            ));
        }
        self.hi_contig
    }

    /// Records newly-missing blocks in `[next_scan, max_seen]` and schedules
    /// their first retransmit request at `now + rto + precision`.
    pub fn scan_holes(&mut self, bm: &RecvBitmap, max_seen: u64, now: u64, rto: u64)
        requires
            old(self).wf(),
            bm.wf(),
            bm.total() == old(self)@.total,
            now + rto + RTT_PREC_US <= u64::MAX,
        ensures
            final(self).wf(),
            final(self)@ == after_scan(old(self)@, bm@, max_seen, now, rto),
    {
        if self.total == 0 {
            return;
        }
        let mut top: u64 = max_seen;
        if top >= self.total {
            top = self.total - 1;
        }
        let due: u64 = now + rto + RTT_PREC_US;
        let ghost start = self@;
        let mut seq: u64 = self.next_scan;
        while seq <= top
            invariant
                self.total == start.total,
                self.hi_contig == start.hi_contig,
                self.next_scan == start.next_scan,
                start.next_scan <= seq,
                top < start.total,
                start.total == bm.total(),
                bm.wf(),
                start.wf(),
                self.heap.wf(),
                heap_matches(self.heap@, self.due@),
                due == now + rto + RTT_PREC_US,
                self.pending@ =~= start.pending.union(
                    Set::new(|q: u64| start.next_scan <= q < seq && q <= top && !bm@[q as int]),
                ),
                self.pending@.finite(),
                self.due@ =~= start.due.union_prefer_right(
                    Map::new(
                        |q: u64| start.next_scan <= q < seq && q <= top && !bm@[q as int],
                        |q: u64| due,
                    ),
                ),
            decreases top + 1 - seq,
        {
            if !bm.is_set(seq) && self.pending.insert(seq) {
                let ghost heap_before = self.heap@;
                let ghost due_before_push = self.due@;
                self.heap.push(HeapItem { due, seq });
                proof {
                    self.due@ = self.due@.insert(seq, due);
                }
                assert(!due_before_push.dom().contains(seq));
            }
            seq = seq + 1;
        }
        if top + 1 > self.next_scan {
            self.next_scan = top + 1;
        }
        let ghost fresh = Set::new(|q: u64| start.next_scan <= q <= top && !bm@[q as int]);
        assert(self.pending@ =~= start.pending.union(fresh));
        assert(self.due@ =~= start.due.union_prefer_right(
            Map::new(|q: u64| fresh.contains(q), |q: u64| (now + rto + RTT_PREC_US) as u64),
        ));
    }

    /// Returns up to `max` sequence numbers whose retransmit request is due,
    /// rescheduling each so the request repeats every RTO until it arrives.
    pub fn collect_due(&mut self, bm: &RecvBitmap, now: u64, rto: u64, max: usize) -> (out: Vec<u64>)
        requires
            old(self).wf(),
            bm.wf(),
            bm.total() == old(self)@.total,
            now + rto + RTT_PREC_US <= u64::MAX,
        ensures
            final(self).wf(),
            requests_collected(old(self)@, bm@, now, max as int, out@),
            final(self)@ == after_collect(old(self)@, bm@, now, rto, max as int, out@),
    {
        let mut out: Vec<u64> = Vec::new();
        let re_due: u64 = now + rto + RTT_PREC_US;
        let ghost start = self@;
        // The requests taken off the heap so far.
        let ghost mut taken: Set<u64> = Set::empty();
        while out.len() < max
            invariant_except_break
                self.total == start.total,
                self.hi_contig == start.hi_contig,
                self.next_scan == start.next_scan,
                start.total == bm.total(),
                bm.wf(),
                start.wf(),
                self.heap.wf(),
                heap_matches(self.heap@, self.due@),
                re_due == now + rto + RTT_PREC_US,
                out@.len() <= max,
                collecting(start, bm@, now, re_due, out@, taken, self.pending@, self.due@),
                out@.len() == max ==> ends_with_last(start, out@, taken),
            ensures
                self.total == start.total,
                self.hi_contig == start.hi_contig,
                self.next_scan == start.next_scan,
                self.heap.wf(),
                heap_matches(self.heap@, self.due@),
                start.wf(),
                out@.len() <= max,
                re_due == now + rto + RTT_PREC_US,
                collecting(start, bm@, now, re_due, out@, taken, self.pending@, self.due@),
                out@.len() == max ==> ends_with_last(start, out@, taken),
                out@.len() < max ==> forall|q: u64| #[trigger] start.due.dom().contains(q) && is_due(start, now, q) ==> taken.contains(q),
            decreases
                    max - out.len(),
                    self.heap@.len(),
        {
            let top = match self.heap.peek() {
                None => {
                    proof {
                        none_left(start, bm@, now, re_due, out@, taken, self.pending@, self.due@, self.heap@);
                    }
                    break;
                },
                Some(top) => top,
            };
            if top.due > now {
                proof {
                    least_not_due(start, bm@, now, re_due, out@, taken, self.pending@, self.due@, self.heap@, top);
                }
                break;
            }
            let ghost heap0 = self.heap@;
            let ghost due0 = self.due@;
            let ghost taken0 = taken;
            let ghost out0 = out@;
            let ghost pending0 = self.pending@;
            self.heap.pop();
            assert(self.heap@.len() < heap0.len());
            proof {
                top_is_next(start, bm@, now, re_due, out0, taken0, pending0, due0, heap0, top);
                self.due@ = self.due@.remove(top.seq);
                taken = taken.insert(top.seq);
            }
            if !self.pending.contains(&top.seq) {
                assert(collecting(start, bm@, now, re_due, out@, taken, self.pending@, self.due@));
                continue;
            }
            if bm.is_set(top.seq) {
                self.pending.remove(&top.seq);
                assert(collecting(start, bm@, now, re_due, out@, taken, self.pending@, self.due@));
                continue;
            }
            out.push(top.seq);
            self.heap.push(HeapItem { due: re_due, seq: top.seq });
            proof {
                self.due@ = self.due@.insert(top.seq, re_due);
            }
            assert forall|q: u64| #[trigger]
                taken.contains(q) && is_wanted(start, bm@, q) implies out@.contains(q) by {
                if q == top.seq {
                    assert(out@[out0.len() as int] == q);
                } else {
                    let i = choose|i: int| 0 <= i < out0.len() && out0[i] == q;
                    assert(out0.contains(q) && out@[i] == q);
                }
            }
            assert(collecting(start, bm@, now, re_due, out@, taken, self.pending@, self.due@));
        }
        proof {
            collected(start, bm@, now, rto, max as int, out@, taken, self.pending@, self.due@);
        }
        out
    }

    /// The number of blocks found missing and not yet known to have arrived.
    pub fn pending_count(&self) -> (r: usize)
        ensures
            r == self@.pending.len(),
    {
        self.pending.len()
    }

    /// Whether every block is known to have arrived.
    pub fn completed(&self) -> (r: bool)
        ensures
            r == (self@.hi_contig == self@.total),
    {
        self.hi_contig == self.total
    }
}

/// How far collecting requests has come: `taken` are the requests taken off the
/// heap, the least ones of those due; `out` are the wanted ones among them, in
/// order, which are scheduled again; what `taken` holds besides is dropped.
spec fn collecting(
    s: ScanState,
    bits: Seq<bool>,
    now: u64,
    re_due: u64,
    out: Seq<u64>,
    taken: Set<u64>,
    pending: Set<u64>,
    due: Map<u64, u64>,
) -> bool {
    &&& forall|q: u64| #[trigger] taken.contains(q) ==> is_due(s, now, q)
    &&& forall|q: u64, p: u64|
        #![trigger taken.contains(q), s.due.dom().contains(p)]
        taken.contains(q) && s.due.dom().contains(p) && !taken.contains(p) ==> due_before(
            s.due,
            q,
            p,
        )
    &&& forall|i: int|
        0 <= i < out.len() ==> taken.contains(#[trigger] out[i]) && is_wanted(s, bits, out[i])
    &&& forall|q: u64| #[trigger] taken.contains(q) && is_wanted(s, bits, q) ==> out.contains(q)
    &&& forall|i: int, j: int|
        0 <= i < j < out.len() ==> due_before(s.due, #[trigger] out[i], #[trigger] out[j])
    &&& pending =~= Set::new(
        |q: u64| s.pending.contains(q) && !(taken.contains(q) && bits[q as int]),
    )
    &&& pending.finite()
    &&& due =~= Map::new(
        |q: u64| s.due.dom().contains(q) && (taken.contains(q) ==> is_wanted(s, bits, q)),
        |q: u64|
            if taken.contains(q) {
                re_due
            } else {
                s.due[q]
            },
    )
}

/// Whether the request taken off last is the one handed out last.
spec fn ends_with_last(s: ScanState, out: Seq<u64>, taken: Set<u64>) -> bool {
    if out.len() == 0 {
        taken =~= Set::empty()
    } else {
        forall|q: u64| #[trigger]
            taken.contains(q) ==> q == out.last() || due_before(s.due, q, out.last())
    }
}

/// The least request on the heap, when it is due, was not taken before, and
/// comes after all that were and before all that were not.
proof fn top_is_next(
    s: ScanState,
    bits: Seq<bool>,
    now: u64,
    re_due: u64,
    out: Seq<u64>,
    taken: Set<u64>,
    pending: Set<u64>,
    due: Map<u64, u64>,
    heap: vstd::multiset::Multiset<HeapItem>,
    top: HeapItem,
)
    requires
        collecting(s, bits, now, re_due, out, taken, pending, due),
        heap_matches(heap, due),
        heap.contains(top),
        forall|y: HeapItem| #[trigger] heap.contains(y) ==> crate::heap::item_le(top, y),
        now < re_due,
        top.due <= now,
    ensures
        !taken.contains(top.seq),
        is_due(s, now, top.seq),
        s.due[top.seq] == top.due,
        forall|q: u64| #[trigger] taken.contains(q) ==> due_before(s.due, q, top.seq),
        forall|p: u64| #[trigger]
            s.due.dom().contains(p) && !taken.contains(p) ==> p == top.seq || due_before(
                s.due,
                top.seq,
                p,
            ),
{
    assert(heap.count(top) > 0);
    assert(due.dom().contains(top.seq) && due[top.seq] == top.due);
    assert forall|p: u64| #[trigger]
        s.due.dom().contains(p) && !taken.contains(p) implies p == top.seq || due_before(
        s.due,
        top.seq,
        p,
    ) by {
        let y = HeapItem { due: s.due[p], seq: p };
        assert(due.dom().contains(p) && due[p] == s.due[p]);
        assert(heap.count(y) == 1);
        assert(heap.contains(y));
    }
}

/// When the heap is empty, every request that was due has been taken.
proof fn none_left(
    s: ScanState,
    bits: Seq<bool>,
    now: u64,
    re_due: u64,
    out: Seq<u64>,
    taken: Set<u64>,
    pending: Set<u64>,
    due: Map<u64, u64>,
    heap: vstd::multiset::Multiset<HeapItem>,
)
    requires
        collecting(s, bits, now, re_due, out, taken, pending, due),
        heap_matches(heap, due),
        heap.len() == 0,
    ensures
        forall|q: u64| #[trigger] s.due.dom().contains(q) && is_due(s, now, q) ==> taken.contains(q),
{
    assert forall|q: u64| #[trigger]
        s.due.dom().contains(q) && is_due(s, now, q) implies taken.contains(q) by {
        if !taken.contains(q) {
            let y = HeapItem { due: s.due[q], seq: q };
            assert(due.dom().contains(q) && due[q] == s.due[q]);
            assert(heap.count(y) == 1);
            assert(heap =~= vstd::multiset::Multiset::empty());
        }
    }
}

/// When the least request is not due, every request that was has been taken.
proof fn least_not_due(
    s: ScanState,
    bits: Seq<bool>,
    now: u64,
    re_due: u64,
    out: Seq<u64>,
    taken: Set<u64>,
    pending: Set<u64>,
    due: Map<u64, u64>,
    heap: vstd::multiset::Multiset<HeapItem>,
    top: HeapItem,
)
    requires
        collecting(s, bits, now, re_due, out, taken, pending, due),
        heap_matches(heap, due),
        forall|y: HeapItem| #[trigger] heap.contains(y) ==> crate::heap::item_le(top, y),
        top.due > now,
    ensures
        forall|q: u64| #[trigger] s.due.dom().contains(q) && is_due(s, now, q) ==> taken.contains(q),
{
    assert forall|q: u64| #[trigger]
        s.due.dom().contains(q) && is_due(s, now, q) implies taken.contains(q) by {
        if !taken.contains(q) {
            let y = HeapItem { due: s.due[q], seq: q };
            assert(due.dom().contains(q) && due[q] == s.due[q]);
            assert(heap.count(y) == 1);
            assert(heap.contains(y));
        }
    }
}

/// What has been collected when no further request is due or the quota is used
/// up.
proof fn collected(
    s: ScanState,
    bits: Seq<bool>,
    now: u64,
    rto: u64,
    max: int,
    out: Seq<u64>,
    taken: Set<u64>,
    pending: Set<u64>,
    due: Map<u64, u64>,
)
    requires
        now + rto + RTT_PREC_US <= u64::MAX,
        out.len() <= max,
        collecting(s, bits, now, (now + rto + RTT_PREC_US) as u64, out, taken, pending, due),
        out.len() == max ==> ends_with_last(s, out, taken),
        out.len() < max ==> forall|q: u64| #[trigger]
            s.due.dom().contains(q) && is_due(s, now, q) ==> taken.contains(q),
    ensures
        requests_collected(s, bits, now, max, out),
        pending == after_collect(s, bits, now, rto, max, out).pending,
        due == after_collect(s, bits, now, rto, max, out).due,
{
    assert forall|q: u64| taken.contains(q) == #[trigger] reached(s, now, out, max, q) by {
        if out.len() == max && max > 0 {
            assert(taken.contains(out[out.len() - 1]));
            if s.due.dom().contains(q) && !taken.contains(q) {
                assert(due_before(s.due, out.last(), q));
            }
        }
    }
    assert(pending =~= after_collect(s, bits, now, rto, max, out).pending);
    assert(due =~= after_collect(s, bits, now, rto, max, out).due);
    assert forall|q: u64|
        #![trigger s.due.dom().contains(q)]
        reached(s, now, out, max, q) && is_wanted(s, bits, q) implies out.contains(q) by {
        assert(taken.contains(q));
    }
}

// --- laws -------------------------------------------------------------------

/// The state after the contiguous mark has moved to `hi`.
pub open spec fn after_advance(s: ScanState, hi: u64) -> ScanState {
    ScanState {
        hi_contig: hi,
        pending: Set::new(
            |seq: u64| s.pending.contains(seq) && !(s.hi_contig <= seq < hi),
        ),
        ..s
    }
}

/// Whether every examined block that has not arrived is pending.
pub open spec fn covers_missing(s: ScanState, bits: Seq<bool>) -> bool {
    forall|seq: u64| seq < s.next_scan && !bits[seq as int] ==> #[trigger] s.pending.contains(seq)
}

/// Law: a block is not requested before it has been missing for one RTO. A
/// request for a block that was first found missing at `now` is handed out at
/// `now + rto + RTT_PREC_US` or later.
pub proof fn request_waits_one_rto(
    s: ScanState,
    bits: Seq<bool>,
    max_seen: u64,
    now: u64,
    rto: u64,
    later_bits: Seq<bool>,
    later: u64,
    max: int,
    out: Seq<u64>,
    i: int,
)
    requires
        s.wf(),
        now + rto + RTT_PREC_US <= u64::MAX,
        requests_collected(after_scan(s, bits, max_seen, now, rto), later_bits, later, max, out),
        0 <= i < out.len(),
        out[i] >= s.next_scan,
    ensures
        later >= now + rto + RTT_PREC_US,
        !bits[out[i] as int],
{
    assert(is_due(after_scan(s, bits, max_seen, now, rto), later, out[i]));
    assert(!s.due.dom().contains(out[i]));
}

/// Law: a request repeats, but not within one RTO. A block handed out at `now` is
/// handed out again at `now + rto + RTT_PREC_US` or later.
pub proof fn request_repeats_after_one_rto(
    s: ScanState,
    bits: Seq<bool>,
    now: u64,
    rto: u64,
    max: int,
    out: Seq<u64>,
    later_bits: Seq<bool>,
    later: u64,
    later_max: int,
    later_out: Seq<u64>,
    i: int,
    j: int,
)
    requires
        s.wf(),
        now + rto + RTT_PREC_US <= u64::MAX,
        requests_collected(s, bits, now, max, out),
        requests_collected(
            after_collect(s, bits, now, rto, max, out),
            later_bits,
            later,
            later_max,
            later_out,
        ),
        0 <= i < out.len(),
        0 <= j < later_out.len(),
        later_out[j] == out[i],
    ensures
        later >= now + rto + RTT_PREC_US,
{
    let seq = out[i];
    assert(is_due(s, now, seq));
    if i < out.len() - 1 {
        assert(due_before(s.due, out[i], out[out.len() - 1]));
    }
    assert(reached(s, now, out, max, seq));
    assert(is_due(after_collect(s, bits, now, rto, max, out), later, later_out[j]));
}

/// Law: only missing blocks are requested, none of them twice in one round, and
/// with room left in the quota every wanted request that is due is handed out.
pub proof fn requests_are_exact(
    s: ScanState,
    bits: Seq<bool>,
    now: u64,
    max: int,
    out: Seq<u64>,
)
    requires
        requests_collected(s, bits, now, max, out),
    ensures
        forall|i: int| 0 <= i < out.len() ==> !bits[(#[trigger] out[i]) as int],
        out.no_duplicates(),
        out.len() < max ==> forall|seq: u64| #[trigger]
            is_due(s, now, seq) && is_wanted(s, bits, seq) ==> out.contains(seq),
{
    assert forall|i: int| 0 <= i < out.len() implies !bits[(#[trigger] out[i]) as int] by {
        assert(is_wanted(s, bits, out[i]));
    }
    assert forall|i: int, j: int| 0 <= i < out.len() && 0 <= j < out.len() && i != j implies out[i]
        != out[j] by {
        if i < j {
            assert(due_before(s.due, out[i], out[j]));
        } else {
            assert(due_before(s.due, out[j], out[i]));
        }
    }
    if out.len() < max {
        assert forall|seq: u64| #[trigger]
            is_due(s, now, seq) && is_wanted(s, bits, seq) implies out.contains(seq) by {
            assert(s.due.dom().contains(seq));
            assert(reached(s, now, out, max, seq));
        }
    }
}

/// Law: no missing block is forgotten. Once every examined missing block is
/// pending, that stays so whatever the scanner does next, and as blocks arrive.
pub proof fn missing_blocks_stay_pending(
    s: ScanState,
    bits: Seq<bool>,
    more_bits: Seq<bool>,
    max_seen: u64,
    now: u64,
    rto: u64,
    max: int,
    out: Seq<u64>,
    hi: u64,
)
    requires
        s.wf(),
        covers_missing(s, bits),
        requests_collected(s, bits, now, max, out),
        forall|i: int| s.hi_contig <= i < hi ==> #[trigger] bits[i],
        forall|i: int| 0 <= i < s.total && bits[i] ==> #[trigger] more_bits[i],
    ensures
        covers_missing(after_scan(s, bits, max_seen, now, rto), bits),
        covers_missing(after_collect(s, bits, now, rto, max, out), bits),
        covers_missing(after_advance(s, hi), bits),
        covers_missing(s, more_bits),
{
    let scanned = after_scan(s, bits, max_seen, now, rto);
    assert forall|seq: u64| seq < scanned.next_scan && !bits[seq as int] implies #[trigger]
        scanned.pending.contains(seq) by {
        if seq < s.next_scan {
            assert(s.pending.contains(seq));
        }
    }
    let gone = after_collect(s, bits, now, rto, max, out);
    assert forall|seq: u64| seq < gone.next_scan && !bits[seq as int] implies #[trigger]
        gone.pending.contains(seq) by {
        assert(s.pending.contains(seq));
    }
    let moved = after_advance(s, hi);
    assert forall|seq: u64| seq < moved.next_scan && !bits[seq as int] implies #[trigger]
        moved.pending.contains(seq) by {
        assert(s.pending.contains(seq));
    }
    assert forall|seq: u64| seq < s.next_scan && !more_bits[seq as int] implies #[trigger]
        s.pending.contains(seq) by {
        assert(!bits[seq as int]);
    }
}

/// Law: the scan is complete exactly when every block has arrived. The mark `hi`
/// is what `LossScanner::advance` returns for a scanner whose mark had only
/// arrived blocks below it.
pub proof fn complete_iff_all_received(bits: Seq<bool>, total: u64, before: u64, hi: u64)
    requires
        forall|i: int| 0 <= i < before ==> #[trigger] bits[i],
        before <= hi <= total,
        forall|i: int| before <= i < hi ==> #[trigger] bits[i],
        hi < total ==> !bits[hi as int],
    ensures
        hi == total <==> forall|i: int| 0 <= i < total ==> #[trigger] bits[i],
        forall|i: int| 0 <= i < hi ==> #[trigger] bits[i],
{
}

// --- laws over a history of calls -------------------------------------------

/// A call on a scanner.
pub enum ScanCall {
    /// The mark moved to `hi`.
    Advance { hi: u64 },
    Scan { max_seen: u64, now: u64, rto: u64 },
    /// The requests `out` were handed out.
    Collect { now: u64, rto: u64, max: int, out: Seq<u64> },
}

/// A scanner's history: its states, the calls between them, and the blocks that
/// had arrived at each call.
pub struct ScanHistory {
    pub states: Seq<ScanState>,
    pub calls: Seq<ScanCall>,
    pub bits: Seq<Seq<bool>>,
}

/// A scanner that has examined none of `total` blocks.
pub open spec fn fresh_scan(total: u64) -> ScanState {
    ScanState {
        total,
        hi_contig: 0,
        next_scan: 0,
        pending: Set::empty(),
        due: Map::empty(),
    }
}

/// The last block that a scan up to `max_seen` examines.
pub open spec fn scan_top(s: ScanState, max_seen: u64) -> u64 {
    if max_seen >= s.total {
        (s.total - 1) as u64
    } else {
        max_seen
    }
}

/// Whether a scan finds `seq` missing.
pub open spec fn found_missing(s: ScanState, bits: Seq<bool>, max_seen: u64, seq: u64) -> bool {
    s.total > 0 && s.next_scan <= seq <= scan_top(s, max_seen) && !bits[seq as int]
}

impl ScanHistory {
    /// Whether the `i`-th call took the scanner from its `i`-th state to the next.
    pub open spec fn called(self, i: int) -> bool {
        let s = self.states[i];
        let bits = self.bits[i];
        match self.calls[i] {
            ScanCall::Advance { hi } => self.states[i + 1] == after_advance(s, hi) && forall|k: int|
                s.hi_contig <= k < hi ==> #[trigger] bits[k],
            ScanCall::Scan { max_seen, now, rto } => now + rto + RTT_PREC_US <= u64::MAX
                && self.states[i + 1] == after_scan(s, bits, max_seen, now, rto),
            ScanCall::Collect { now, rto, max, out } => now + rto + RTT_PREC_US <= u64::MAX
                && requests_collected(s, bits, now, max, out) && self.states[i + 1]
                == after_collect(s, bits, now, rto, max, out),
        }
    }

    /// Whether blocks only ever arrive between the `i`-th call and the next.
    pub open spec fn keeps_blocks(self, i: int) -> bool {
        forall|k: int|
            0 <= k < self.states[0].total && self.bits[i][k] ==> #[trigger] self.bits[i + 1][k]
    }

    /// Whether this can be the history of a scanner for `total` blocks.
    pub open spec fn possible(self, total: u64) -> bool {
        &&& self.states.len() == self.calls.len() + 1
        &&& self.bits.len() == self.calls.len() + 1
        &&& self.states[0] == fresh_scan(total)
        &&& forall|i: int| 0 <= i < self.calls.len() ==> #[trigger] self.called(i)
        &&& forall|i: int| 0 <= i < self.calls.len() ==> #[trigger] self.keeps_blocks(i)
    }

    /// When `seq` is to be requested next, by the first `n` calls: one RTO and the
    /// clock's precision after the scan that found it missing, or after the last
    /// call that handed it out. Nothing where no scan has found it missing.
    pub open spec fn scheduled(self, n: nat, seq: u64) -> Option<int>
        decreases n,
    {
        if n == 0 {
            None
        } else {
            let before = self.scheduled((n - 1) as nat, seq);
            match self.calls[n - 1] {
                ScanCall::Advance { .. } => before,
                ScanCall::Scan { max_seen, now, rto } => if found_missing(
                    self.states[n - 1],
                    self.bits[n - 1],
                    max_seen,
                    seq,
                ) {
                    Some(now + rto + RTT_PREC_US)
                } else {
                    before
                },
                ScanCall::Collect { now, rto, out, .. } => if out.contains(seq) {
                    Some(now + rto + RTT_PREC_US)
                } else {
                    before
                },
            }
        }
    }

    /// Whether what the scanner holds of the missing block `seq` after `n` calls
    /// is what the calls scheduled.
    pub open spec fn agrees(self, n: nat, seq: u64) -> bool {
        let s = self.states[n as int];
        match self.scheduled(n, seq) {
            Some(due) => s.pending.contains(seq) && s.due.dom().contains(seq) && s.due[seq] == due,
            None => !s.pending.contains(seq),
        }
    }
}

/// A request that is handed out was reached.
proof fn handed_out_is_reached(
    s: ScanState,
    bits: Seq<bool>,
    now: u64,
    max: int,
    out: Seq<u64>,
    seq: u64,
)
    requires
        requests_collected(s, bits, now, max, out),
        out.contains(seq),
    ensures
        reached(s, now, out, max, seq),
        is_wanted(s, bits, seq),
{
    let i = choose|i: int| 0 <= i < out.len() && out[i] == seq;
    assert(is_due(s, now, out[i]));
    if i < out.len() - 1 {
        assert(due_before(s.due, out[i], out[out.len() - 1]));
    }
}

/// Law: a scanner schedules each missing block as its history says, whatever calls
/// it had in whatever order.
pub proof fn schedule_follows_history(h: ScanHistory, total: u64, n: nat, seq: u64)
    requires
        h.possible(total),
        n < h.states.len(),
        seq < total,
        !h.bits[n as int][seq as int],
    ensures
        h.states[n as int].total == total,
        h.agrees(n, seq),
    decreases n,
{
    if n > 0 {
        let i = n - 1;
        assert(h.called(i));
        assert(h.keeps_blocks(i));
        assert(h.bits[i + 1] == h.bits[n as int]);
        assert(h.states[0].total == total);
        if h.bits[i][seq as int] {
            assert(h.bits[i + 1][seq as int]);
        }
        schedule_follows_history(h, total, i as nat, seq);
        let s = h.states[i];
        let bits = h.bits[i];
        match h.calls[i] {
            ScanCall::Advance { hi } => {
                assert(!(s.hi_contig <= seq < hi)) by {
                    if s.hi_contig <= seq < hi {
                        assert(bits[seq as int]);
                    }
                }
            },
            ScanCall::Scan { max_seen, now, rto } => {},
            ScanCall::Collect { now, rto, max, out } => {
                if out.contains(seq) {
                    handed_out_is_reached(s, bits, now, max, out, seq);
                } else if s.due.dom().contains(seq) {
                    assert(!(reached(s, now, out, max, seq) && is_wanted(s, bits, seq)));
                }
            },
        }
    }
}

/// Only blocks of the object are ever pending.
proof fn only_blocks_are_pending(h: ScanHistory, total: u64, n: nat, seq: u64)
    requires
        h.possible(total),
        n < h.states.len(),
    ensures
        h.states[n as int].total == total,
        h.states[n as int].pending.contains(seq) ==> seq < total,
    decreases n,
{
    if n > 0 {
        only_blocks_are_pending(h, total, (n - 1) as nat, seq);
        assert(h.called(n - 1));
    }
}

/// Law: over any history of calls, the requests handed out are exactly the missing
/// blocks whose time has come. At most `max` of them, none twice, the earlier due
/// first and the lower block among equals; each was found missing by an earlier
/// scan, is still missing, and is due by `now`; with room left none of those is
/// left out; and each is scheduled again one RTO from now.
pub proof fn requests_follow_history(
    h: ScanHistory,
    total: u64,
    n: nat,
    now: u64,
    rto: u64,
    max: int,
    out: Seq<u64>,
)
    requires
        h.possible(total),
        n < h.calls.len(),
        h.calls[n as int] == (ScanCall::Collect { now, rto, max, out }),
    ensures
        out.len() <= max,
        out.no_duplicates(),
        forall|i: int|
            0 <= i < out.len() ==> (#[trigger] out[i]) < total
                && !h.bits[n as int][out[i] as int] && h.scheduled(
                n,
                out[i],
            ) is Some && h.scheduled(n, out[i])->Some_0 <= now && h.scheduled(n + 1, out[i])
                == Some(now + rto + RTT_PREC_US),
        forall|i: int, j: int|
            0 <= i < j < out.len() ==> {
                let a = h.scheduled(n, #[trigger] out[i])->Some_0;
                let b = h.scheduled(n, #[trigger] out[j])->Some_0;
                a < b || (a == b && out[i] < out[j])
            },
        out.len() < max ==> forall|seq: u64|
            seq < total && !h.bits[n as int][seq as int] && (#[trigger] h.scheduled(n, seq))
                is Some && h.scheduled(n, seq)->Some_0 <= now ==> out.contains(seq),
{
    assert(h.called(n as int));
    let s = h.states[n as int];
    let bits = h.bits[n as int];
    requests_are_exact(s, bits, now, max, out);
    assert forall|i: int| 0 <= i < out.len() implies (#[trigger] out[i]) < total
        && !bits[out[i] as int] && h.scheduled(n, out[i]) is Some && h.scheduled(n, out[i])->Some_0 <= now && h.scheduled(
        n + 1,
        out[i],
    ) == Some(now + rto + RTT_PREC_US) && h.scheduled(n, out[i])->Some_0 == s.due[out[i]] by {
        assert(is_due(s, now, out[i]) && is_wanted(s, bits, out[i]));
        only_blocks_are_pending(h, total, n, out[i]);
        schedule_follows_history(h, total, n, out[i]);
        assert(out.contains(out[i]));
    }
    assert forall|i: int, j: int| 0 <= i < j < out.len() implies {
        let a = h.scheduled(n, #[trigger] out[i])->Some_0;
        let b = h.scheduled(n, #[trigger] out[j])->Some_0;
        a < b || (a == b && out[i] < out[j])
    } by {
        assert(due_before(s.due, out[i], out[j]));
    }
    if out.len() < max {
        assert forall|seq: u64|
            seq < total && !bits[seq as int] && (#[trigger] h.scheduled(n, seq)) is Some
                && h.scheduled(n, seq)->Some_0 <= now implies out.contains(seq) by {
            schedule_follows_history(h, total, n, seq);
            assert(is_due(s, now, seq) && is_wanted(s, bits, seq));
        }
    }
}

} // verus!
