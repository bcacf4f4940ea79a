//! A gap buffer: a sequence with a movable cursor at which elements are
//! inserted and from which they are removed in amortized constant time.
//!
//! The storage is a vector of slots. Slots outside the gap hold the
//! elements; the slots of the gap, `[gap_start, gap_end)`, are empty. The
//! cursor is the start of the gap.
use vstd::prelude::*;

verus! {

/// The capacity that the first growth of an empty buffer allocates.
pub const MIN_CAPACITY: usize = 16;

/// The capacity after one growth of a buffer whose capacity is `c`.
pub open spec fn grown_capacity(c: nat) -> nat {
    if c == 0 {
        MIN_CAPACITY as nat
    } else {
        2 * c
    }
}

/// The capacity after `n` single insertions into a buffer of capacity `c`
/// holding `size` elements: each insertion into a full buffer grows it.
pub open spec fn capacity_after(c: nat, size: nat, n: nat) -> nat
    decreases n,
{
    if n == 0 {
        c
    } else {
        capacity_after(
            if c == size {
                grown_capacity(c)
            } else {
                c
            },
            size + 1,
            (n - 1) as nat,
        )
    }
}

/// A sequence of `T` with a cursor. Each slot of `storage` is `Some`
/// outside the gap and `None` inside it, so dropping the buffer drops every
/// element exactly once and no gap slot.
pub struct GapBuffer<T> {
    storage: Vec<Option<T>>,
    gap_start: usize,
    gap_end: usize,
}

impl<T> View for GapBuffer<T> {
    type V = Seq<T>;

    /// The elements of the buffer in logical order, skipping the gap.
    closed spec fn view(&self) -> Seq<T> {
        Seq::new(
            (self.storage@.len() - (self.gap_end - self.gap_start)) as nat,
            |i: int| self.storage@[self.raw_of(i)]->Some_0,
        )
    }
}

impl<T> GapBuffer<T> {
    /// The slot that holds the element of logical index `i`.
    closed spec fn raw_of(&self, i: int) -> int {
        if i < self.gap_start {
            i
        } else {
            i + (self.gap_end - self.gap_start)
        }
    }

    /// The gap lies inside the storage, its slots are exactly the empty ones.
    pub closed spec fn wf(&self) -> bool {
        &&& self.gap_start <= self.gap_end <= self.storage@.len() <= usize::MAX
        &&& forall|j: int|
            0 <= j < self.storage@.len() ==> (#[trigger] self.storage@[j] is None <==> (
            self.gap_start <= j < self.gap_end))
    }

    /// Number of slots allocated, elements and gap together.
    pub closed spec fn spec_capacity(&self) -> nat {
        self.storage@.len()
    }

    /// The cursor: the logical index at which the next insertion lands.
    pub closed spec fn spec_position(&self) -> nat {
        self.gap_start as nat
    }

    /// An empty buffer; nothing is allocated until the first insertion.
    pub fn new() -> (r: Self)
        ensures
            r.wf(),
            r@ == Seq::<T>::empty(),
            r.spec_capacity() == 0,
            r.spec_position() == 0,
    {
        let r = GapBuffer { storage: Vec::new(), gap_start: 0, gap_end: 0 };
        assert(r@ =~= Seq::<T>::empty());
        r
    }

    /// Number of elements held.
    pub fn size(&self) -> (r: usize)
        requires
            self.wf(),
        ensures
            r == self@.len(),
    {
        self.capacity() - (self.gap_end - self.gap_start)
    }

    /// Number of slots allocated.
    pub fn capacity(&self) -> (r: usize)
        ensures
            r == self.spec_capacity(),
    {
        self.storage.len()
    }

    /// The cursor position: the number of elements before the cursor.
    pub fn position(&self) -> (r: usize)
        requires
            self.wf(),
        ensures
            r == self.spec_position(),
            r <= self@.len(),
    {
        self.gap_start
    }

    /// The slot index of logical index `index`: indices before the cursor
    /// map to themselves, later ones skip the gap. The index is not checked
    /// against the size.
    pub fn index_to_raw(&self, index: usize) -> (r: usize)
        requires
            self.wf(),
            index < self.spec_position() || index + (self.spec_capacity() - self@.len())
                <= usize::MAX,
        ensures
            r == (if index < self.spec_position() {
                index as int
            } else {
                index + (self.spec_capacity() - self@.len())
            }),
    {
        if index < self.gap_start {
            index
        } else {
            index + (self.gap_end - self.gap_start)
        }
    }

    /// The element at logical index `index`, or `None` past the end.
    pub fn get(&self, index: usize) -> (r: Option<&T>)
        requires
            self.wf(),
        ensures
            index < self@.len() ==> r is Some && *r->Some_0 == self@[index as int],
            index >= self@.len() ==> r is None,
    {
        if index >= self.size() {
            None
        } else {
            let raw = self.index_to_raw(index);
            self.storage[raw].as_ref()
        }
    }

    /// Moves the cursor to `pos`, carrying the gap along; the elements and
    /// their order stay as they were.
    pub fn set_pos(&mut self, pos: usize)
        requires
            old(self).wf(),
            pos <= old(self)@.len(),
        ensures
            final(self).wf(),
            final(self)@ == old(self)@,
            final(self).spec_position() == pos,
            final(self).spec_capacity() == old(self).spec_capacity(),
    {
        let ghost content = self@;
        while self.gap_start < pos
            invariant
                self.wf(),
                self@ == content,
                pos <= self@.len(),
                self.spec_capacity() == old(self).spec_capacity(),
            decreases pos - self.gap_start,
        {
            self.shift_right();
        }
        while self.gap_start > pos
            invariant
                self.wf(),
                self@ == content,
                pos <= self.gap_start,
                self.spec_capacity() == old(self).spec_capacity(),
            decreases self.gap_start - pos,
        {
            self.shift_left();
        }
    }

    /// Moves the element just after the gap to just before it.
    fn shift_right(&mut self)
        requires
            old(self).wf(),
            old(self).gap_start < old(self)@.len(),
        ensures
            final(self).wf(),
            final(self)@ == old(self)@,
            final(self).gap_start == old(self).gap_start + 1,
            final(self).spec_capacity() == old(self).spec_capacity(),
    {
        let ghost before = self@;
        let x = self.storage[self.gap_end].take();
        self.storage[self.gap_start] = x;
        self.gap_start = self.gap_start + 1;
        self.gap_end = self.gap_end + 1;
        assert(self@ =~= before);
    }

    /// Moves the element just before the gap to just after it.
    fn shift_left(&mut self)
        requires
            old(self).wf(),
            old(self).gap_start > 0,
        ensures
            final(self).wf(),
            final(self)@ == old(self)@,
            final(self).gap_start == old(self).gap_start - 1,
            final(self).spec_capacity() == old(self).spec_capacity(),
    {
        let ghost before = self@;
        self.gap_start = self.gap_start - 1;
        self.gap_end = self.gap_end - 1;
        let x = self.storage[self.gap_start].take();
        self.storage[self.gap_end] = x;
        assert(self@ =~= before);
    }

    /// Takes out the element just after the cursor, or returns `None` when
    /// the cursor is at the end.
    pub fn remove(&mut self) -> (r: Option<T>)
        requires
            old(self).wf(),
        ensures
            final(self).wf(),
            final(self).spec_position() == old(self).spec_position(),
            final(self).spec_capacity() == old(self).spec_capacity(),
            old(self).spec_position() < old(self)@.len() ==> r == Some(
                old(self)@[old(self).spec_position() as int],
            ) && final(self)@ == old(self)@.remove(old(self).spec_position() as int),
            old(self).spec_position() == old(self)@.len() ==> r is None && final(self)@ == old(
                self,
            )@,
    {
        if self.gap_end == self.capacity() {
            return None;
        }
        let ghost before = self@;
        let element = self.storage[self.gap_end].take();
        self.gap_end = self.gap_end + 1;
        assert(self@ =~= before.remove(self.gap_start as int));
        element
    }

    /// Grows an exhausted gap: the capacity becomes `grown_capacity` of the
    /// old one, the elements before the gap keep their slots and those after
    /// it move to the end of the new storage.
    fn enlarge_gap(&mut self)
        requires
            old(self).wf(),
            old(self).gap_start == old(self).gap_end,
            grown_capacity(old(self).spec_capacity()) <= usize::MAX,
        ensures
            final(self).wf(),
            final(self)@ == old(self)@,
            final(self).gap_start == old(self).gap_start,
            final(self).gap_start < final(self).gap_end,
            final(self).spec_capacity() == grown_capacity(old(self).spec_capacity()),
    {
        let ghost before = self@;
        let ghost old_storage = self.storage@;
        let old_capacity = self.capacity();
        let new_capacity = if old_capacity == 0 {
            MIN_CAPACITY
        } else {
            old_capacity * 2
        };
        let mut tail = self.storage.split_off(self.gap_start);
        let tail_len = tail.len();
        let mut n: usize = old_capacity;
        while n < new_capacity
            invariant
                old_capacity <= n <= new_capacity,
                old_capacity == old_storage.len(),
                self.gap_start <= old_capacity,
                self.storage@.len() + tail_len == n,
                self.gap_start == self.gap_end,
                tail@ == old_storage.subrange(self.gap_start as int, old_capacity as int),
                tail_len == tail@.len(),
                forall|j: int|
                    0 <= j < self.gap_start ==> self.storage@[j] == old_storage[j],
                forall|j: int|
                    self.gap_start <= j < self.storage@.len() ==> self.storage@[j] is None,
                self.gap_start <= self.storage@.len(),
            decreases new_capacity - n,
        {
            self.storage.push(None);
            n = n + 1;
        }
        self.storage.append(&mut tail);
        self.gap_end = new_capacity - tail_len;
        assert forall|j: int| self.gap_end <= j < new_capacity implies self.storage@[j]
            == old_storage[j - (new_capacity - old_capacity)] by {}
        assert forall|j: int| 0 <= j < self.storage@.len() implies (
        #[trigger] self.storage@[j] is None <==> (self.gap_start <= j < self.gap_end)) by {
            if j >= self.gap_end {
                let k = j - (new_capacity - old_capacity);
                assert(old(self).storage@[k] is Some);
            } else if j < self.gap_start {
                assert(old(self).storage@[j] is Some);
            }
        }
        assert(self@ =~= before);
    }

    /// Puts `elem` at the cursor and moves the cursor past it. When the gap
    /// is exhausted the storage grows first.
    pub fn insert(&mut self, elem: T)
        requires
            old(self).wf(),
            old(self)@.len() < usize::MAX / 2,
        ensures
            final(self).wf(),
            final(self)@ == old(self)@.insert(old(self).spec_position() as int, elem),
            final(self).spec_position() == old(self).spec_position() + 1,
            final(self).spec_capacity() == (if old(self).spec_capacity() == old(self)@.len() {
                grown_capacity(old(self).spec_capacity())
            } else {
                old(self).spec_capacity()
            }),
    {
        if self.gap_start == self.gap_end {
            self.enlarge_gap();
        }
        let ghost before = self@;
        self.storage[self.gap_start] = Some(elem);
        self.gap_start = self.gap_start + 1;
        assert(self@ =~= before.insert(self.gap_start - 1, elem));
    }

    /// Inserts the elements of `items` at the cursor, in their order, as as
    /// many single insertions would; the cursor ends after the last one.
    pub fn insert_iter(&mut self, items: Vec<T>)
        requires
            old(self).wf(),
            old(self)@.len() + items@.len() < usize::MAX / 2,
        ensures
            final(self).wf(),
            final(self)@ == old(self)@.take(old(self).spec_position() as int) + items@ + old(
                self,
            )@.skip(old(self).spec_position() as int),
            final(self).spec_position() == old(self).spec_position() + items@.len(),
            final(self).spec_capacity() == capacity_after(
                old(self).spec_capacity(),
                old(self)@.len(),
                items@.len(),
            ),
    {
        let ghost start = self.spec_position() as int;
        let ghost content = self@;
        let ghost all = items@;
        for elem in iter: items
            invariant
                self.wf(),
                iter.seq() == all,
                self@ == content.take(start) + all.take(iter.index()) + content.skip(start),
                self.spec_position() == start + iter.index(),
                content.len() + all.len() < usize::MAX / 2,
                0 <= start <= content.len(),
                all.len() == items@.len(),
                capacity_after(self.spec_capacity(), self@.len(), (all.len() - iter.index()) as nat)
                    == capacity_after(old(self).spec_capacity(), old(self)@.len(), all.len()),
        {
            proof {
                assert(all.take(iter.index() + 1) =~= all.take(iter.index()).push(elem));
            }
            self.insert(elem);
            assert(self@ =~= content.take(start) + all.take(iter.index() + 1) + content.skip(start));
        }
        assert(all.take(all.len() as int) =~= all);
    }
}

/// The content that inserting `items` one at a time at cursor `p` produces,
/// each insertion leaving the cursor just after the new element.
pub open spec fn after_inserts<T>(v: Seq<T>, p: int, items: Seq<T>) -> Seq<T>
    decreases items.len(),
{
    if items.len() == 0 {
        v
    } else {
        after_inserts(v.insert(p, items[0]), p + 1, items.skip(1))
    }
}

/// Single insertions at a cursor that is not moved in between leave the
/// inserted elements side by side at the cursor, in the order they were
/// inserted; this is also what `insert_iter` produces.
pub proof fn lemma_inserts_keep_order<T>(v: Seq<T>, p: int, items: Seq<T>)
    requires
        0 <= p <= v.len(),
    ensures
        after_inserts(v, p, items) == v.take(p) + items + v.skip(p),
    decreases items.len(),
{
    if items.len() > 0 {
        let w = v.insert(p, items[0]);
        lemma_inserts_keep_order(w, p + 1, items.skip(1));
        assert(w.take(p + 1) =~= v.take(p).push(items[0]));
        assert(w.skip(p + 1) =~= v.skip(p));
        assert(v.take(p) + items =~= v.take(p).push(items[0]) + items.skip(1));
        assert(w.take(p + 1) + items.skip(1) + w.skip(p + 1) =~= v.take(p) + items + v.skip(p));
    }
}

/// Starting from an empty buffer and only inserting, the element at logical
/// index `i` is the `i`-th element inserted.
pub proof fn lemma_inserts_from_empty<T>(items: Seq<T>)
    ensures
        after_inserts(Seq::<T>::empty(), 0, items) == items,
        forall|i: int|
            0 <= i < items.len() ==> #[trigger] after_inserts(Seq::<T>::empty(), 0, items)[i]
                == items[i],
{
    lemma_inserts_keep_order(Seq::<T>::empty(), 0, items);
    assert(Seq::<T>::empty().take(0) + items + Seq::<T>::empty().skip(0) =~= items);
}

/// An insertion followed at once by a removal is no round trip: the removal
/// takes the element that followed the cursor before the insertion (there
/// is none when the cursor was at the end). Moving the cursor back onto the
/// inserted element first makes the removal return it and restores the
/// content.
pub proof fn lemma_insert_then_remove<T>(v: Seq<T>, p: int, e: T)
    requires
        0 <= p <= v.len(),
    ensures
        p < v.len() ==> p + 1 < v.insert(p, e).len() && v.insert(p, e)[p + 1] == v[p]
            && v.insert(p, e).remove(p + 1) == v.remove(p).insert(p, e),
        p == v.len() ==> p + 1 == v.insert(p, e).len(),
        v.insert(p, e)[p] == e,
        v.insert(p, e).remove(p) == v,
{
    if p < v.len() {
        assert(v.insert(p, e).remove(p + 1) =~= v.remove(p).insert(p, e));
    }
    assert(v.insert(p, e).remove(p) =~= v);
}

/// Insertions that keep the element count within the capacity leave the
/// capacity as it is.
pub proof fn lemma_capacity_steady(c: nat, size: nat, n: nat)
    requires
        size + n <= c,
    ensures
        capacity_after(c, size, n) == c,
    decreases n,
{
    if n > 0 {
        lemma_capacity_steady(c, size + 1, (n - 1) as nat);
    }
}

/// `a + b` insertions are `a` insertions followed by `b` more.
pub proof fn lemma_capacity_after_split(c: nat, size: nat, a: nat, b: nat)
    ensures
        capacity_after(c, size, a + b) == capacity_after(capacity_after(c, size, a), size + a, b),
    decreases a,
{
    if a > 0 {
        let c1 = if c == size {
            grown_capacity(c)
        } else {
            c
        };
        lemma_capacity_after_split(c1, size + 1, (a - 1) as nat, b);
        assert((a + b - 1) as nat == (a - 1) as nat + b);
    }
}

/// From an empty buffer, the first insertion allocates the minimum
/// capacity, which lasts up to that many elements; the next insertion
/// doubles it, once, and the doubled capacity lasts up to twice as many.
pub proof fn lemma_one_growth_past_minimum(n: nat)
    requires
        1 <= n <= 2 * MIN_CAPACITY,
    ensures
        capacity_after(0, 0, n) == (if n <= MIN_CAPACITY {
            MIN_CAPACITY as nat
        } else {
            2 * MIN_CAPACITY as nat
        }),
{
    let m = MIN_CAPACITY as nat;
    assert(capacity_after(0, 0, n) == capacity_after(m, 1, (n - 1) as nat));
    if n <= m {
        lemma_capacity_steady(m, 1, (n - 1) as nat);
    } else {
        lemma_capacity_after_split(m, 1, (m - 1) as nat, (n - m) as nat);
        lemma_capacity_steady(m, 1, (m - 1) as nat);
        assert(capacity_after(m, m, (n - m) as nat) == capacity_after(
            2 * m,
            m + 1,
            (n - m - 1) as nat,
        ));
        lemma_capacity_steady(2 * m, m + 1, (n - m - 1) as nat);
    }
}

} // verus!
