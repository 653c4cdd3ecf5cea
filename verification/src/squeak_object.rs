//! Tagged Squeak object words.
//!
//! A word is a pointer when it is even.  A header word encodes the length of the
//! object it heads in bits 2..8.  An [`SVal`] is the pair of words that its two
//! references designate: the value at its pointer and its length.  Object memory
//! is handed in as a word-addressed heap.
use vstd::prelude::*;

verus! {

/// The pointer test on a tagged word.
pub open spec fn spec_is_pointer(v: u64) -> bool {
    v % 2 == 0
}

/// The length field of a header word.
pub open spec fn spec_len(v: u64) -> u64 {
    ((v / 4) % 64) as u64
}

/// Whether `v` is a pointer word (pointers are even).
#[allow(non_snake_case)]
pub fn isPointerS(v: u64) -> (r: bool)
    ensures
        r == spec_is_pointer(v),
{
    v % 2 == 0
}

/// The object length stored in header word `v`.
#[allow(non_snake_case)]
pub fn getLenS(v: u64) -> (r: u64)
    ensures
        r == spec_len(v),
        r < 64,
{
    v / 4 % 64
}

/// A Squeak value: the word its pointer designates and its length.
#[derive(Clone, Copy, Debug, PartialEq, Eq)]
pub struct SVal {
    pub pointer_val: u64,
    pub len: u64,
}

/// The child that slot `i` of `sv` designates: its pointer is the word after
/// the slot, its length is read from the header at the slot.
pub open spec fn slot_child(sv: SVal, heap: Seq<u64>, i: int) -> SVal {
    SVal { pointer_val: heap[sv.pointer_val + i + 1], len: spec_len(heap[sv.pointer_val + i]) }
}

/// The children marked while walking the first `n` slots of `sv`, in order.
pub open spec fn marked_upto(sv: SVal, heap: Seq<u64>, n: nat) -> Seq<SVal>
    decreases n,
{
    if n == 0 {
        Seq::empty()
    } else {
        let prev = marked_upto(sv, heap, (n - 1) as nat);
        if spec_is_pointer((sv.pointer_val + n - 1) as u64) {
            prev.push(slot_child(sv, heap, n - 1))
        } else {
            prev
        }
    }
}

/// All children marked by a walk of `sv`.
pub open spec fn marked(sv: SVal, heap: Seq<u64>) -> Seq<SVal> {
    marked_upto(sv, heap, sv.len as nat)
}

/// The walk of `sv` stays inside `heap`: slot addresses fit in a word, and every
/// pointer slot has its header and the following word in the heap.
pub open spec fn walk_in_bounds(sv: SVal, heap: Seq<u64>) -> bool {
    &&& sv.pointer_val + sv.len <= u64::MAX + 1
    &&& forall|i: int|
        0 <= i < sv.len && #[trigger] spec_is_pointer((sv.pointer_val + i) as u64) ==> sv.pointer_val + i + 1
            < heap.len()
}

impl SVal {
    pub fn new(pointer_val: u64, len: u64) -> (r: SVal)
        ensures
            r.pointer_val == pointer_val,
            r.len == len,
    {
        SVal { pointer_val, len }
    }

    /// Walks the slots of this value and returns, in slot order, the child of
    /// every slot that is a pointer word.
    pub fn track(self, heap: &[u64]) -> (r: Vec<SVal>)
        requires
            walk_in_bounds(self, heap@),
        ensures
            r@ == marked(self, heap@),
            r@ == pointer_slot_children(self, heap@, self.len as nat),
    {
        proof {
            lemma_marked_are_pointer_slot_children(self, heap@, self.len as nat);
        }
        let mut out: Vec<SVal> = Vec::new();
        let mut i: u64 = 0;
        while i < self.len
            invariant
                i <= self.len,
                walk_in_bounds(self, heap@),
                out@ == marked_upto(self, heap@, i as nat),
            decreases self.len - i,
        {
            let c: u64 = self.pointer_val + i;
            if isPointerS(c) {
                assert(self.pointer_val + i + 1 < heap@.len());
                let child = SVal { pointer_val: heap[(c + 1) as usize], len: getLenS(heap[c as usize]) };
                out.push(child);
            }
            i = i + 1;
        }
        out
    }

    /// The region this value releases when it is finalized: the address one word
    /// before its pointer and its length.
    pub fn finalize(&self) -> (r: (u64, u64))
        requires
            self.pointer_val >= 1,
        ensures
            r.0 == self.pointer_val - 1,
            r.1 == self.len,
    {
        (self.pointer_val - 1, self.len)
    }
}

/// A walk marks at most one child per slot.
pub proof fn lemma_marked_len(sv: SVal, heap: Seq<u64>, n: nat)
    ensures
        marked_upto(sv, heap, n).len() <= n,
    decreases n,
{
    if n > 0 {
        lemma_marked_len(sv, heap, (n - 1) as nat);
    }
}

/// Every child a walk marks has a length below 64, since lengths come from the
/// six-bit header field.
pub proof fn lemma_marked_children_short(sv: SVal, heap: Seq<u64>, n: nat)
    ensures
        forall|k: int| 0 <= k < marked_upto(sv, heap, n).len() ==> #[trigger] marked_upto(sv, heap, n)[k].len < 64,
    decreases n,
{
    if n > 0 {
        lemma_marked_children_short(sv, heap, (n - 1) as nat);
        let prev = marked_upto(sv, heap, (n - 1) as nat);
        let cur = marked_upto(sv, heap, n);
        assert(slot_child(sv, heap, n - 1).len < 64);
        assert forall|k: int| 0 <= k < cur.len() implies #[trigger] cur[k].len < 64 by {
            if k < prev.len() {
                assert(cur[k] == prev[k]);
            }
        }
    }
}

} // verus!

verus! {

/// The slot indexes below `n` whose address holds a pointer word, each mapped
/// to the child it designates, in slot order.
pub open spec fn pointer_slot_children(sv: SVal, heap: Seq<u64>, n: nat) -> Seq<SVal> {
    Seq::new(n, |i: int| i).filter_map(
        |i: int|
            if spec_is_pointer((sv.pointer_val + i) as u64) {
                Some(slot_child(sv, heap, i))
            } else {
                None
            },
    )
}

/// The slot indexes below `n` whose address holds a pointer word.
pub open spec fn pointer_slots(sv: SVal, n: nat) -> Seq<int> {
    Seq::new(n, |i: int| i).filter_map(
        |i: int|
            if spec_is_pointer((sv.pointer_val + i) as u64) {
                Some(i)
            } else {
                None
            },
    )
}

/// A walk of the first `n` slots marks the child of every pointer slot, in
/// slot order, and nothing else: exactly one child per pointer slot, whatever
/// that child's length.
pub proof fn lemma_marked_are_pointer_slot_children(sv: SVal, heap: Seq<u64>, n: nat)
    ensures
        marked_upto(sv, heap, n) == pointer_slot_children(sv, heap, n),
        marked_upto(sv, heap, n).len() == pointer_slots(sv, n).len(),
        forall|i: int|
            0 <= i < n && spec_is_pointer((sv.pointer_val + i) as u64) ==> #[trigger] marked_upto(
                sv,
                heap,
                n,
            ).contains(slot_child(sv, heap, i)),
    decreases n,
{
    let f = |i: int|
        if spec_is_pointer((sv.pointer_val + i) as u64) {
            Some(slot_child(sv, heap, i))
        } else {
            None
        };
    let g = |i: int|
        if spec_is_pointer((sv.pointer_val + i) as u64) {
            Some(i)
        } else {
            None
        };
    if n > 0 {
        lemma_marked_are_pointer_slot_children(sv, heap, (n - 1) as nat);
        let idx = Seq::new(n, |i: int| i);
        assert(idx.drop_last() =~= Seq::new((n - 1) as nat, |i: int| i));
        assert(idx.last() == n - 1);
        assert(pointer_slot_children(sv, heap, n) == idx.filter_map(f));
        assert(pointer_slots(sv, n) == idx.filter_map(g));
        let prev = marked_upto(sv, heap, (n - 1) as nat);
        let cur = marked_upto(sv, heap, n);
        assert forall|i: int|
            0 <= i < n && spec_is_pointer((sv.pointer_val + i) as u64) implies #[trigger] cur.contains(
            slot_child(sv, heap, i),
        ) by {
            if i < n - 1 {
                assert(prev.contains(slot_child(sv, heap, i)));
                let k = choose|k: int| 0 <= k < prev.len() && prev[k] == slot_child(sv, heap, i);
                assert(cur[k] == prev[k]);
            } else {
                assert(cur[prev.len() as int] == slot_child(sv, heap, i));
            }
        }
    } else {
        assert(pointer_slot_children(sv, heap, 0) =~= Seq::<SVal>::empty());
        assert(pointer_slots(sv, 0) =~= Seq::<int>::empty());
    }
}

} // verus!
