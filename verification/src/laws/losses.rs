//! What holds of the bookkeeping of arrivals and losses.

use crate::heap::{HeapItem, MinHeap};
use crate::losstracker::{LossScanner, RecvBitmap};
use vstd::prelude::*;

verus! {

/// Law: a block is marked from the first time on and never unmarked; only the
/// first time is reported as such, and no other block is marked with it.
pub proof fn marks_stay()
    ensures
        forall|total: u64, r: RecvBitmap| #[trigger]
            call_ensures(RecvBitmap::new, (total,), r) ==> r@.len() >= total && r@.len() < total
                + 64 && (forall|i: int| 0 <= i < r@.len() ==> !#[trigger] r@[i]),
        forall|m: &mut RecvBitmap, seq: u64, r: bool| #[trigger]
            call_ensures(RecvBitmap::set_and_test, (m, seq), r) && seq < m@.len() ==> {
                &&& r <==> !m@[seq as int]
                &&& final(m)@.len() == m@.len()
                &&& final(m)@[seq as int]
                &&& forall|i: int|
                    0 <= i < m@.len() && i != seq ==> #[trigger] final(m)@[i] == m@[i]
            },
        forall|m: &mut RecvBitmap, a: u64, r: bool, n: &mut RecvBitmap, b: u64, again: bool|
            #![trigger call_ensures(RecvBitmap::set_and_test, (m, a), r), call_ensures(RecvBitmap::set_and_test, (n, b), again)]
            call_ensures(RecvBitmap::set_and_test, (m, a), r) && *n == *final(m) && call_ensures(
                RecvBitmap::set_and_test,
                (n, b),
                again,
            ) && a < m@.len() && b == a ==> !again && final(n)@ == final(m)@,
        forall|m: &RecvBitmap, seq: u64, r: bool| #[trigger]
            call_ensures(RecvBitmap::is_set, (m, seq), r) && seq < m@.len() ==> (r
                <==> m@[seq as int]),
        forall|m: &RecvBitmap, r: u128| #[trigger]
            call_ensures(RecvBitmap::capacity, (m,), r) ==> r == m@.len(),
{
    assert forall|m: &mut RecvBitmap, a: u64, r: bool, n: &mut RecvBitmap, b: u64, again: bool|
        #![trigger call_ensures(RecvBitmap::set_and_test, (m, a), r), call_ensures(RecvBitmap::set_and_test, (n, b), again)]
        call_ensures(RecvBitmap::set_and_test, (m, a), r) && *n == *final(m) && call_ensures(
            RecvBitmap::set_and_test,
            (n, b),
            again,
        ) && a < m@.len() && b == a implies !again && final(n)@ == final(m)@ by {
        assert(final(n)@ =~= final(m)@);
    }
}

/// Law: the mark is the number of blocks that have arrived without a gap. Moving
/// it on takes exactly the blocks that it passes off the pending ones.
pub proof fn marks_move_to_the_first_gap()
    ensures
        forall|total: u64, r: LossScanner| #[trigger]
            call_ensures(LossScanner::new, (total,), r) ==> r@.total == total && r@.hi_contig == 0
                && r@.next_scan == 0 && (forall|q: u64| !#[trigger] r@.pending.contains(q)) && (
            forall|q: u64| !#[trigger] r@.due.dom().contains(q)),
        forall|m: &mut LossScanner, bm: &RecvBitmap, r: u64| #[trigger]
            call_ensures(LossScanner::advance, (m, bm), r) ==> {
                &&& m@.hi_contig <= r <= bm.total()
                &&& forall|i: int| m@.hi_contig <= i < r ==> #[trigger] bm@[i]
                &&& r < bm.total() ==> !bm@[r as int]
                &&& final(m)@.hi_contig == r
                &&& final(m)@.total == m@.total
                &&& final(m)@.next_scan == m@.next_scan
                &&& final(m)@.due == m@.due
                &&& forall|q: u64| #[trigger]
                    final(m)@.pending.contains(q) <==> m@.pending.contains(q) && !(m@.hi_contig
                        <= q < r)
            },
        forall|m: &LossScanner, r: bool| #[trigger]
            call_ensures(LossScanner::completed, (m,), r) ==> (r <==> m@.hi_contig == m@.total),
        forall|m: &LossScanner, r: usize| #[trigger]
            call_ensures(LossScanner::pending_count, (m,), r) ==> r == m@.pending.len(),
{
}

/// Law: a scan finds exactly the blocks that are missing among those up to
/// `max_seen` that were not examined before, and asks for each of them one timeout
/// and a millisecond from now; what was scheduled before stays as it was.
pub proof fn scans_find_new_holes()
    ensures
        forall|m: &mut LossScanner, bm: &RecvBitmap, max_seen: u64, now: u64, rto: u64, u: ()|
         #[trigger]
            call_ensures(LossScanner::scan_holes, (m, bm, max_seen, now, rto), u) && m.wf() && now
                + rto + 1000 <= u64::MAX ==> {
                &&& forall|q: u64| #[trigger]
                    final(m)@.pending.contains(q) <==> m@.pending.contains(q) || (m@.next_scan <= q
                        && q <= max_seen && q < m@.total && !bm@[q as int])
                &&& forall|q: u64| #[trigger]
                    final(m)@.due.dom().contains(q) <==> m@.due.dom().contains(q) || (m@.next_scan
                        <= q && q <= max_seen && q < m@.total && !bm@[q as int])
                &&& forall|q: u64|
                    m@.due.dom().contains(q) ==> #[trigger] final(m)@.due[q] == m@.due[q]
                &&& forall|q: u64|
                    m@.next_scan <= q && q <= max_seen && q < m@.total && !bm@[q as int]
                        ==> #[trigger] final(m)@.due[q] == now + rto + 1000
                &&& final(m)@.next_scan >= m@.next_scan
                &&& max_seen < m@.total ==> final(m)@.next_scan > max_seen
                &&& max_seen >= m@.total ==> final(m)@.next_scan == m@.total
                &&& final(m)@.next_scan == m@.next_scan || final(m)@.next_scan == max_seen + 1
                    || final(m)@.next_scan == m@.total
                &&& final(m)@.hi_contig == m@.hi_contig
                &&& final(m)@.total == m@.total
            },
{
    assert forall|m: &mut LossScanner, bm: &RecvBitmap, max_seen: u64, now: u64, rto: u64, u: ()|
     #[trigger]
        call_ensures(LossScanner::scan_holes, (m, bm, max_seen, now, rto), u) && m.wf() && now + rto
            + 1000 <= u64::MAX implies {
        &&& forall|q: u64| #[trigger]
            final(m)@.pending.contains(q) <==> m@.pending.contains(q) || (m@.next_scan <= q && q
                <= max_seen && q < m@.total && !bm@[q as int])
        &&& forall|q: u64| #[trigger]
            final(m)@.due.dom().contains(q) <==> m@.due.dom().contains(q) || (m@.next_scan <= q && q
                <= max_seen && q < m@.total && !bm@[q as int])
        &&& forall|q: u64|
            m@.due.dom().contains(q) ==> #[trigger] final(m)@.due[q] == m@.due[q]
        &&& forall|q: u64|
            m@.next_scan <= q && q <= max_seen && q < m@.total && !bm@[q as int]
                ==> #[trigger] final(m)@.due[q] == now + rto + 1000
        &&& final(m)@.next_scan >= m@.next_scan
        &&& max_seen < m@.total ==> final(m)@.next_scan > max_seen
        &&& max_seen >= m@.total ==> final(m)@.next_scan == m@.total
    } by {
        m.state_is_wf();
    }
}

/// Law: requests are handed out when they are due, for blocks that are still
/// missing, the longest due first and the lower block among equals, each once and
/// no more than asked for; with room left none that is due is held back. A block
/// that was handed out is due again one timeout and a millisecond from now; one
/// that is not due yet keeps its time; one that is missing stays pending.
pub proof fn requests_are_handed_out_when_due()
    ensures
        forall|m: &mut LossScanner, bm: &RecvBitmap, now: u64, rto: u64, max: usize, r: Vec<u64>|
         #[trigger]
            call_ensures(LossScanner::collect_due, (m, bm, now, rto, max), r) && now + rto + 1000
                <= u64::MAX ==> {
                &&& r@.len() <= max
                &&& forall|i: int| #![trigger r@[i]]
                    0 <= i < r@.len() ==> {
                        &&& m@.due.dom().contains(r@[i])
                        &&& m@.due[r@[i]] <= now
                        &&& m@.pending.contains(r@[i])
                        &&& !bm@[r@[i] as int]
                        &&& final(m)@.due.dom().contains(r@[i])
                        &&& final(m)@.due[r@[i]] == now + rto + 1000
                    }
                &&& forall|i: int, j: int|
                    0 <= i < j < r@.len() ==> m@.due[#[trigger] r@[i]] < m@.due[#[trigger] r@[j]]
                        || (m@.due[r@[i]] == m@.due[r@[j]] && r@[i] < r@[j])
                &&& r@.len() < max ==> forall|q: u64| #[trigger]
                    m@.due.dom().contains(q) && m@.due[q] <= now && m@.pending.contains(q)
                        && !bm@[q as int] ==> r@.contains(q)
                &&& forall|q: u64| #[trigger]
                    m@.due.dom().contains(q) && m@.due[q] > now ==> final(m)@.due.dom().contains(q)
                        && final(m)@.due[q] == m@.due[q]
                &&& forall|q: u64| #[trigger]
                    final(m)@.due.dom().contains(q) ==> m@.due.dom().contains(q)
                &&& forall|q: u64| #[trigger]
                    m@.pending.contains(q) && !bm@[q as int] ==> final(m)@.pending.contains(q)
                &&& forall|q: u64| #[trigger]
                    final(m)@.pending.contains(q) ==> m@.pending.contains(q)
                &&& r@.len() < max ==> forall|q: u64| #[trigger]
                    m@.due.dom().contains(q) && m@.due[q] <= now && bm@[q as int] ==> !final(
                        m)@.pending.contains(q) && !final(m)@.due.dom().contains(q)
                &&& final(m)@.hi_contig == m@.hi_contig
                &&& final(m)@.next_scan == m@.next_scan
                &&& final(m)@.total == m@.total
            },
{
    assert forall|
        m: &mut LossScanner,
        bm: &RecvBitmap,
        now: u64,
        rto: u64,
        max: usize,
        r: Vec<u64>,
    | #[trigger]
        call_ensures(LossScanner::collect_due, (m, bm, now, rto, max), r) && now + rto + 1000
            <= u64::MAX implies (forall|i: int| #![trigger r@[i]]
        0 <= i < r@.len() ==> {
            &&& m@.due.dom().contains(r@[i])
            &&& m@.due[r@[i]] <= now
            &&& m@.pending.contains(r@[i])
            &&& !bm@[r@[i] as int]
            &&& final(m)@.due.dom().contains(r@[i])
            &&& final(m)@.due[r@[i]] == now + rto + 1000
        }) by {
        assert forall|i: int| #![trigger r@[i]] 0 <= i < r@.len() implies {
            &&& m@.due.dom().contains(r@[i])
            &&& m@.due[r@[i]] <= now
            &&& m@.pending.contains(r@[i])
            &&& !bm@[r@[i] as int]
            &&& final(m)@.due.dom().contains(r@[i])
            &&& final(m)@.due[r@[i]] == now + rto + 1000
        } by {
            let q = r@[i];
            assert(crate::losstracker::is_due(m@, now, q));
            if i < r@.len() - 1 {
                assert(crate::losstracker::due_before(m@.due, r@[i], r@.last()));
            }
            assert(crate::losstracker::reached(m@, now, r@, max as int, q));
        }
    }
}

/// Law: a block is not asked for twice within one timeout.
pub proof fn requests_do_not_repeat_early()
    ensures
        forall|
            m: &mut LossScanner,
            bm: &RecvBitmap,
            now: u64,
            rto: u64,
            max: usize,
            r: Vec<u64>,
            n: &mut LossScanner,
            bm2: &RecvBitmap,
            now2: u64,
            rto2: u64,
            max2: usize,
            r2: Vec<u64>,
        |
            #![trigger call_ensures(LossScanner::collect_due, (m, bm, now, rto, max), r), call_ensures(LossScanner::collect_due, (n, bm2, now2, rto2, max2), r2)]
            call_ensures(LossScanner::collect_due, (m, bm, now, rto, max), r) && *n == *final(m)
                && call_ensures(LossScanner::collect_due, (n, bm2, now2, rto2, max2), r2) && now
                + rto + 1000 <= u64::MAX && now2 + rto2 + 1000 <= u64::MAX && now2 < now + rto
                + 1000 ==> (forall|i: int, j: int|
                0 <= i < r@.len() && 0 <= j < r2@.len() ==> #[trigger] r@[i] != #[trigger] r2@[j]),
{
    requests_are_handed_out_when_due();
}

/// Law: the queue of requests hands out its least item first, whatever was put in
/// in whatever order, and loses none.
pub proof fn least_item_comes_first()
    ensures
        forall|m: &mut MinHeap, x: HeapItem, u: ()| #[trigger]
            call_ensures(MinHeap::push, (m, x), u) ==> final(m)@ == m@.insert(x),
        forall|m: &mut MinHeap, r: Option<HeapItem>| #[trigger]
            call_ensures(MinHeap::pop, (m,), r) ==> {
                &&& r is None ==> m@.len() == 0
                &&& r matches Some(x) ==> m@.count(x) > 0 && final(m)@ == m@.remove(x) && forall|
                    y: HeapItem,
                | #[trigger]
                    m@.count(y) > 0 ==> x.due < y.due || (x.due == y.due && x.seq <= y.seq)
            },
        forall|m: &MinHeap, r: Option<HeapItem>| #[trigger]
            call_ensures(MinHeap::peek, (m,), r) ==> {
                &&& r is None ==> m@.len() == 0
                &&& r matches Some(x) ==> m@.count(x) > 0 && forall|y: HeapItem| #[trigger]
                    m@.count(y) > 0 ==> x.due < y.due || (x.due == y.due && x.seq <= y.seq)
            },
{
    assert forall|m: &mut MinHeap, r: Option<HeapItem>| #[trigger]
        call_ensures(MinHeap::pop, (m,), r) && r is Some implies (forall|y: HeapItem| #[trigger]
        m@.count(y) > 0 ==> r->Some_0.due < y.due || (r->Some_0.due == y.due && r->Some_0.seq
            <= y.seq)) by {
        assert forall|y: HeapItem| #[trigger] m@.count(y) > 0 implies r->Some_0.due < y.due || (
        r->Some_0.due == y.due && r->Some_0.seq <= y.seq) by {
            assert(m@.contains(y));
        }
    }
    assert forall|m: &MinHeap, r: Option<HeapItem>| #[trigger]
        call_ensures(MinHeap::peek, (m,), r) && r is Some implies (forall|y: HeapItem| #[trigger]
        m@.count(y) > 0 ==> r->Some_0.due < y.due || (r->Some_0.due == y.due && r->Some_0.seq
            <= y.seq)) by {
        assert forall|y: HeapItem| #[trigger] m@.count(y) > 0 implies r->Some_0.due < y.due || (
        r->Some_0.due == y.due && r->Some_0.seq <= y.seq) by {
            assert(m@.contains(y));
        }
    }
}

} // verus!
