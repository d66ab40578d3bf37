//! A binary min-heap of scheduled block numbers.

use vstd::multiset::Multiset;
use vstd::prelude::*;

verus! {

/// A block number with the time at which it becomes due.
#[derive(Debug, Clone, Copy, PartialEq, Eq, Structural)]
pub struct HeapItem {
    pub due: u64,
    pub seq: u64,
}

/// The order of the heap: by due time, then by block number.
pub open spec fn item_le(a: HeapItem, b: HeapItem) -> bool {
    a.due < b.due || (a.due == b.due && a.seq <= b.seq)
}

/// Whether `a` comes before `b` or is `b`.
fn not_after(a: &HeapItem, b: &HeapItem) -> (r: bool)
    ensures
        r == item_le(*a, *b),
{
    a.due < b.due || (a.due == b.due && a.seq <= b.seq)
}

/// A priority queue that hands out its least item first.
pub struct MinHeap {
    items: Vec<HeapItem>,
}

/// Whether no item of `s` comes before its parent, but for the pairs in which
/// the child stands at `hole` or the parent stands at `gap`.
spec fn ordered_but(s: Seq<HeapItem>, hole: int, gap: int) -> bool {
    forall|i: int|
        #![trigger s[i]]
        0 < i < s.len() && i != hole && (i - 1) / 2 != gap ==> item_le(s[(i - 1) / 2], s[i])
}

/// Whether `s` is a heap with the item at `i` taken out of the path: every child
/// of `i` is bounded below by the parent of `i`.
spec fn bridged(s: Seq<HeapItem>, i: int) -> bool {
    forall|c: int|
        #![trigger s[c]]
        0 < i < s.len() && 0 < c < s.len() && (c - 1) / 2 == i ==> item_le(s[(i - 1) / 2], s[c])
}

/// The root of an ordered heap bounds every item below.
proof fn root_is_least(s: Seq<HeapItem>, i: int)
    requires
        ordered_but(s, -1, -1),
        0 <= i < s.len(),
    ensures
        item_le(s[0], s[i]),
    decreases i,
{
    if i > 0 {
        root_is_least(s, (i - 1) / 2);
        assert(item_le(s[(i - 1) / 2], s[i]));
    }
}

/// Exchanging two items leaves the bag of items as it was.
proof fn swap_keeps_bag(s: Seq<HeapItem>, i: int, j: int)
    requires
        0 <= i < s.len(),
        0 <= j < s.len(),
    ensures
        s.update(i, s[j]).update(j, s[i]).to_multiset() == s.to_multiset(),
{
    broadcast use vstd::seq_lib::group_to_multiset_ensures;

    vstd::seq_lib::to_multiset_update(s, i, s[j]);
    vstd::seq_lib::to_multiset_update(s.update(i, s[j]), j, s[i]);
    assert(s.contains(s[i]));
    assert(s.contains(s[j]));
    assert(s.update(i, s[j]).update(j, s[i]).to_multiset() =~= s.to_multiset());
}

impl View for MinHeap {
    type V = Multiset<HeapItem>;

    closed spec fn view(&self) -> Multiset<HeapItem> {
        self.items@.to_multiset()
    }
}

impl MinHeap {
    /// The heap order holds.
    pub closed spec fn wf(&self) -> bool {
        ordered_but(self.items@, -1, -1)
    }

    /// An empty heap.
    pub fn new() -> (r: MinHeap)
        ensures
            r.wf(),
            r@ == Multiset::<HeapItem>::empty(),
    {
        let r = MinHeap { items: Vec::new() };
        proof {
            broadcast use vstd::seq_lib::group_to_multiset_ensures;

            assert(r.items@.to_multiset().len() == 0);
            assert(r@ =~= Multiset::<HeapItem>::empty());
        }
        r
    }

    /// The number of items.
    pub fn len(&self) -> (r: usize)
        ensures
            r == self@.len(),
    {
        proof {
            broadcast use vstd::seq_lib::group_to_multiset_ensures;

        }
        self.items.len()
    }

    /// The least item, left in place.
    pub fn peek(&self) -> (r: Option<HeapItem>)
        requires
            self.wf(),
        ensures
            match r {
                None => self@.len() == 0,
                Some(x) => self@.contains(x) && forall|y: HeapItem| #[trigger]
                    self@.contains(y) ==> item_le(x, y),
            },
    {
        proof {
            broadcast use vstd::seq_lib::group_to_multiset_ensures;

            assert(self@.len() == self.items@.len());
        }
        if self.items.len() == 0 {
            return None;
        }
        let x = self.items[0];
        proof {
            self.first_is_least();
        }
        Some(x)
    }

    /// The first item of a heap is in it and bounds all others.
    proof fn first_is_least(&self)
        requires
            self.wf(),
            self.items@.len() > 0,
        ensures
            self@.contains(self.items@[0]),
            forall|y: HeapItem| #[trigger] self@.contains(y) ==> item_le(self.items@[0], y),
    {
        broadcast use vstd::seq_lib::group_to_multiset_ensures;

        assert(self.items@.contains(self.items@[0]));
        assert forall|y: HeapItem| #[trigger] self@.contains(y) implies item_le(
            self.items@[0],
            y,
        ) by {
            assert(self.items@.contains(y));
            let i = choose|i: int| 0 <= i < self.items@.len() && self.items@[i] == y;
            root_is_least(self.items@, i);
        }
    }

    /// Adds an item.
    pub fn push(&mut self, x: HeapItem)
        requires
            old(self).wf(),
        ensures
            final(self).wf(),
            final(self)@ == old(self)@.insert(x),
    {
        let ghost bag = self.items@.to_multiset().insert(x);
        proof {
            broadcast use vstd::seq_lib::group_to_multiset_ensures;

        }
        self.items.push(x);
        let mut i: usize = self.items.len() - 1;
        while i > 0
            invariant_except_break
                i < self.items@.len(),
                ordered_but(self.items@, i as int, -1),
                bridged(self.items@, i as int),
                self.items@.to_multiset() == bag,
            ensures
                ordered_but(self.items@, -1, -1),
                self.items@.to_multiset() == bag,
            decreases i,
        {
            let p: usize = (i - 1) / 2;
            let child = self.items[i];
            let parent = self.items[p];
            if not_after(&parent, &child) {
                break;
            }
            proof {
                swap_keeps_bag(self.items@, i as int, p as int);
            }
            let ghost before = self.items@;
            self.items[i] = parent;
            self.items[p] = child;
            assert(self.items@ =~= before.update(i as int, before[p as int]).update(
                p as int,
                before[i as int],
            ));
            i = p;
        }
    }

    /// Takes out the least item.
    pub fn pop(&mut self) -> (r: Option<HeapItem>)
        requires
            old(self).wf(),
        ensures
            final(self).wf(),
            match r {
                None => old(self)@.len() == 0 && final(self)@ == old(self)@,
                Some(x) => old(self)@.contains(x) && final(self)@ == old(self)@.remove(x)
                    && forall|y: HeapItem| #[trigger] old(self)@.contains(y) ==> item_le(x, y),
            },
    {
        proof {
            broadcast use vstd::seq_lib::group_to_multiset_ensures;

            assert(self@.len() == self.items@.len());
        }
        let n: usize = self.items.len();
        if n == 0 {
            return None;
        }
        proof {
            self.first_is_least();
        }
        let top = self.items[0];
        let ghost start = self.items@;
        let ghost bag = start.to_multiset().remove(top);
        let last = self.items[n - 1];
        self.items.pop();
        if n == 1 {
            proof {
                broadcast use vstd::seq_lib::group_to_multiset_ensures;

                assert(self.items@ =~= start.remove(0));
            }
            return Some(top);
        }
        proof {
            broadcast use vstd::seq_lib::group_to_multiset_ensures;

            let cut = start.remove(n - 1);
            assert(self.items@ =~= cut);
            vstd::seq_lib::to_multiset_update(cut, 0, last);
            assert(start.contains(top));
            assert(start.contains(last));
            assert(cut.update(0, last).to_multiset() =~= bag);
        }
        self.items[0] = last;
        let mut i: usize = 0;
        let m: usize = n - 1;
        loop
            invariant_except_break
                i < self.items@.len(),
                m == self.items@.len(),
                ordered_but(self.items@, -1, i as int),
                bridged(self.items@, i as int),
                self.items@.to_multiset() == bag,
            ensures
                ordered_but(self.items@, -1, -1),
                self.items@.to_multiset() == bag,
            decreases m - i,
        {
            if i >= m / 2 {
                break;
            }
            let l: usize = 2 * i + 1;
            let mut c: usize = l;
            if l + 1 < m && !not_after(&self.items[l], &self.items[l + 1]) {
                c = l + 1;
            }
            let child = self.items[c];
            let parent = self.items[i];
            if not_after(&parent, &child) {
                assert forall|k: int|
                    #![trigger self.items@[k]]
                    0 < k < self.items@.len() && (k - 1) / 2 == i implies item_le(
                    self.items@[i as int],
                    self.items@[k],
                ) by {
                    assert(k == l || k == l + 1);
                }
                break;
            }
            proof {
                swap_keeps_bag(self.items@, i as int, c as int);
            }
            let ghost before = self.items@;
            self.items[i] = child;
            self.items[c] = parent;
            assert(self.items@ =~= before.update(i as int, before[c as int]).update(
                c as int,
                before[i as int],
            ));
            i = c;
        }
        Some(top)
    }
}

} // verus!
