use vstd::prelude::*;

verus! {

/// Spec-level swap-remove: the last element takes the place of the element at
/// `idx`, and the sequence loses its last position.
pub open spec fn seq_swap_remove<A>(s: Seq<A>, idx: int) -> Seq<A> {
    s.update(idx, s.last()).drop_last()
}

/// A transparent wrapper for frequently updated data with a dirty flag.
pub struct DataView<T> {
    data: T,
    is_dirty: bool,
}

impl<T> DataView<T> {
    /// The wrapped value.
    pub closed spec fn value(&self) -> T {
        self.data
    }

    /// Whether the wrapped value changed since it was last marked clean.
    pub closed spec fn dirty(&self) -> bool {
        self.is_dirty
    }

    /// The view of a value with the given contents and flag.
    pub closed spec fn spec_make(data: T, dirty: bool) -> Self {
        DataView { data, is_dirty: dirty }
    }

    pub proof fn lemma_make(data: T, dirty: bool)
        ensures
            Self::spec_make(data, dirty).value() == data,
            Self::spec_make(data, dirty).dirty() == dirty,
    {
    }

    /// Two views with the same value and flag are equal.
    pub proof fn lemma_view_eq(a: Self, b: Self)
        requires
            a.value() == b.value(),
            a.dirty() == b.dirty(),
        ensures
            a == b,
    {
    }

    /// Wrap a value; a fresh view is dirty.
    pub fn new(data: T) -> (v: Self)
        ensures
            v.value() == data,
            v.dirty(),
    {
        DataView { data, is_dirty: true }
    }

    /// Check if the data has changed.
    pub fn is_dirty(&self) -> (b: bool)
        ensures
            b == self.dirty(),
    {
        self.is_dirty
    }

    /// Mark the data as clean.
    pub fn mark_clean(&mut self)
        ensures
            final(self).value() == old(self).value(),
            !final(self).dirty(),
    {
        self.is_dirty = false;
    }

    /// Mark the data as dirty.
    pub fn mark_dirty(&mut self)
        ensures
            final(self).value() == old(self).value(),
            final(self).dirty(),
    {
        self.is_dirty = true;
    }

    /// Set the data held in the view, marking it dirty.
    pub fn set(&mut self, data: T)
        ensures
            final(self).value() == data,
            final(self).dirty(),
    {
        self.data = data;
        self.is_dirty = true;
    }

    /// Read access to the wrapped value.
    pub fn get(&self) -> (r: &T)
        ensures
            *r == self.value(),
    {
        &self.data
    }
}

impl<T: Clone> DataView<T> {
    /// A copy of this view: the value is cloned and the copy starts dirty.
    pub fn duplicate(&self) -> (v: Self)
        ensures
            cloned::<T>(self.value(), v.value()),
            v.dirty(),
    {
        DataView::new(self.data.clone())
    }
}

/// A vector whose elements carry dirty flags.
pub struct DirtyVec<T> {
    inner: Vec<DataView<T>>,
}

impl<T> View for DirtyVec<T> {
    type V = Seq<DataView<T>>;

    closed spec fn view(&self) -> Seq<DataView<T>> {
        self.inner@
    }
}

impl<T> DirtyVec<T> {
    /// The values held, in order.
    pub open spec fn values(&self) -> Seq<T> {
        self@.map_values(|d: DataView<T>| d.value())
    }

    /// The dirty flags, in order.
    pub open spec fn flags(&self) -> Seq<bool> {
        self@.map_values(|d: DataView<T>| d.dirty())
    }

    /// An empty vector.
    pub fn new() -> (v: Self)
        ensures
            v@.len() == 0,
    {
        DirtyVec { inner: Vec::new() }
    }

    /// An empty vector with room for `capacity` elements.
    pub fn with_capacity(capacity: usize) -> (v: Self)
        ensures
            v@.len() == 0,
    {
        DirtyVec { inner: Vec::with_capacity(capacity) }
    }

    /// Create a dirty vector from a Vec: every element starts dirty.
    pub fn from_vec(data_vec: Vec<T>) -> (v: Self)
        ensures
            v@.len() == data_vec@.len(),
            forall|i: int| 0 <= i < data_vec@.len() ==> #[trigger] v@[i].value() == data_vec@[i] && v@[i].dirty(),
    {
        let mut out = DirtyVec::with_capacity(data_vec.len());
        let ghost src = data_vec@;
        let ghost before = out@;
        out.append(data_vec);
        assert forall|i: int| 0 <= i < src.len() implies #[trigger] out@[i].value() == src[i] && out@[i].dirty() by {
            assert(before.len() == 0);
            assert(out@[before.len() + i].value() == src[i]);
            assert(out@[before.len() + i] == out@[i]);
        }
        out
    }

    /// Move all elements of `other` to the end of this vector, each one dirty.
    pub fn append(&mut self, other: Vec<T>)
        ensures
            final(self)@.len() == old(self)@.len() + other@.len(),
            forall|i: int| 0 <= i < old(self)@.len() ==> #[trigger] final(self)@[i] == old(self)@[i],
            forall|i: int| 0 <= i < other@.len() ==> #[trigger] final(self)@[old(self)@.len() + i].value() == other@[i]
                && final(self)@[old(self)@.len() + i].dirty(),
    {
        let ghost start = self.inner@;
        let ghost src = other@;
        let mut rest = other;
        let n = rest.len();
        let mut k: usize = 0;
        while k < n
            invariant
                n == src.len(),
                k <= n,
                rest@ == src.subrange(k as int, n as int),
                self.inner@.len() == start.len() + k,
                forall|i: int| 0 <= i < start.len() ==> #[trigger] self.inner@[i] == start[i],
                forall|i: int| 0 <= i < k ==> #[trigger] self.inner@[start.len() + i].value() == src[i]
                    && self.inner@[start.len() + i].dirty(),
            decreases n - k,
        {
            let elem = rest.remove(0);
            assert(elem == src[k as int]);
            let ghost prev = self.inner@;
            let dv = DataView::new(elem);
            Vec::push(&mut self.inner, dv);
            assert(self.inner@ == prev.push(dv));
            assert(self.inner@[start.len() + k] == dv);
            assert forall|i: int| 0 <= i < k + 1 implies #[trigger] self.inner@[start.len() + i].value() == src[i]
                && self.inner@[start.len() + i].dirty() by {
                if i < k {
                    assert(self.inner@[start.len() + i] == prev[start.len() + i]);
                }
            }
            k = k + 1;
            assert(rest@ =~= src.subrange(k as int, n as int));
        }
    }

    /// Number of elements.
    pub fn len(&self) -> (n: usize)
        ensures
            n == self@.len(),
    {
        self.inner.len()
    }

    /// Push a value; it starts dirty.
    pub fn push(&mut self, data: T)
        ensures
            final(self)@.len() == old(self)@.len() + 1,
            forall|i: int| 0 <= i < old(self)@.len() ==> #[trigger] final(self)@[i] == old(self)@[i],
            final(self)@.last().value() == data,
            final(self)@.last().dirty(),
    {
        Vec::push(&mut self.inner, DataView::new(data));
    }

    /// Push an already wrapped value, keeping its flag.
    pub fn push_view(&mut self, view: DataView<T>)
        ensures
            final(self)@ == old(self)@.push(view),
    {
        Vec::push(&mut self.inner, view);
    }

    /// Remove all elements.
    pub fn clear(&mut self)
        ensures
            final(self)@.len() == 0,
    {
        self.inner.clear();
    }

    /// Get the view at an index, if it exists.
    pub fn get(&self, idx: usize) -> (r: Option<&DataView<T>>)
        ensures
            idx < self@.len() ==> r == Some(&self@[idx as int]),
            idx >= self@.len() ==> r is None,
    {
        if idx < self.inner.len() {
            Some(&self.inner[idx])
        } else {
            None
        }
    }

    /// Get a mutable reference to the view at an index, if it exists; what is
    /// written through it lands at that index.
    pub fn get_mut(&mut self, idx: usize) -> (r: Option<&mut DataView<T>>)
        ensures
            match r {
                Some(v) => idx < old(self)@.len() && *v == old(self)@[idx as int]
                    && final(self)@ == old(self)@.update(idx as int, *final(v)),
                None => idx >= old(self)@.len() && *final(self) == *old(self),
            },
    {
        if idx < self.inner.len() {
            Some(&mut self.inner[idx])
        } else {
            None
        }
    }

    /// A reference to the value at `idx`.
    pub fn value_ref(&self, idx: usize) -> (r: &T)
        requires
            idx < self@.len(),
        ensures
            *r == self@[idx as int].value(),
    {
        self.inner[idx].get()
    }

    /// Get a reference to a raw element, if it exists.
    pub fn get_raw(&self, idx: usize) -> (r: Option<&T>)
        ensures
            idx < self@.len() ==> r == Some(&self@[idx as int].value()),
            idx >= self@.len() ==> r is None,
    {
        if idx < self.inner.len() {
            Some(self.inner[idx].get())
        } else {
            None
        }
    }

    /// Set the value at an index, marking it dirty. Out-of-range indices are ignored.
    pub fn set(&mut self, idx: usize, data: T)
        ensures
            idx < old(self)@.len() ==> final(self)@ == old(self)@.update(idx as int, DataView::spec_make(data, true)),
            idx >= old(self)@.len() ==> final(self)@ == old(self)@,
    {
        if idx < self.inner.len() {
            let mut v = DataView::new(data);
            proof { DataView::lemma_make(data, true); }
            assert(v == DataView::spec_make(data, true));
            self.inner.set(idx, v);
        }
    }

    /// Whether the element at `idx` is dirty (an index out of range reads as clean).
    pub fn is_dirty(&self, idx: usize) -> (b: bool)
        ensures
            b == (idx < self@.len() && self@[idx as int].dirty()),
    {
        if idx < self.inner.len() {
            self.inner[idx].is_dirty()
        } else {
            false
        }
    }

    /// Mark the element at `idx` dirty (an index out of range is ignored).
    pub fn mark_dirty(&mut self, idx: usize)
        ensures
            final(self)@.len() == old(self)@.len(),
            forall|i: int| 0 <= i < old(self)@.len() ==> #[trigger] final(self)@[i].value() == old(self)@[i].value(),
            forall|i: int| 0 <= i < old(self)@.len() && i != idx ==> #[trigger] final(self)@[i] == old(self)@[i],
            idx < old(self)@.len() ==> final(self)@[idx as int].dirty(),
    {
        if idx < self.inner.len() {
            let mut v = self.inner.remove(idx);
            v.mark_dirty();
            self.inner.insert(idx, v);
        }
    }

    /// Mark the element at `idx` clean (an index out of range is ignored).
    pub fn mark_clean(&mut self, idx: usize)
        ensures
            final(self)@.len() == old(self)@.len(),
            forall|i: int| 0 <= i < old(self)@.len() ==> #[trigger] final(self)@[i].value() == old(self)@[i].value(),
            forall|i: int| 0 <= i < old(self)@.len() && i != idx ==> #[trigger] final(self)@[i] == old(self)@[i],
            idx < old(self)@.len() ==> !final(self)@[idx as int].dirty(),
    {
        if idx < self.inner.len() {
            let mut v = self.inner.remove(idx);
            v.mark_clean();
            self.inner.insert(idx, v);
        }
    }

    /// Swap the last element with the one at `idx`, then remove the last
    /// element. The element that moved into `idx` is marked dirty. An index out
    /// of range leaves the vector unchanged.
    pub fn swap_remove(&mut self, idx: usize)
        ensures
            idx >= old(self)@.len() ==> final(self)@ == old(self)@,
            idx < old(self)@.len() ==> {
                &&& final(self)@.len() == old(self)@.len() - 1
                &&& final(self).values() == seq_swap_remove(old(self).values(), idx as int)
                &&& forall|i: int| 0 <= i < final(self)@.len() && i != idx ==> #[trigger] final(self)@[i] == old(self)@[i]
                &&& idx < final(self)@.len() ==> final(self)@[idx as int].dirty()
            },
    {
        if idx >= self.inner.len() {
            return;
        }
        let ghost before = self.inner@;
        self.inner.swap_remove(idx);
        if idx < self.inner.len() {
            self.mark_dirty(idx);
        }
        proof {
            let after = self.inner@;
            assert(self.values() =~= seq_swap_remove(before.map_values(|d: DataView<T>| d.value()), idx as int));
        }
    }
}


/// Represents collections that track changes to their contents.
pub trait DirtyTracker {
    /// Number of tracked elements.
    spec fn tracked_len(&self) -> nat;

    /// Whether the element at `idx` changed since it was last marked clean.
    fn is_dirty(&self, idx: usize) -> bool
        requires
            idx < self.tracked_len(),
    ;

    /// Mark the element at `idx` as changed.
    fn mark_dirty(&mut self, idx: usize)
        requires
            idx < old(self).tracked_len(),
    ;

    /// Mark the element at `idx` as unchanged.
    fn mark_clean(&mut self, idx: usize)
        requires
            idx < old(self).tracked_len(),
    ;
}

/// Represents collections that can push to their contents.
pub trait Pushable {
    type Item;

    /// Append an item.
    fn push(&mut self, data: Self::Item);
}

impl<T> DirtyTracker for DirtyVec<T> {
    open spec fn tracked_len(&self) -> nat {
        self@.len()
    }

    fn is_dirty(&self, idx: usize) -> (b: bool)
        ensures
            b == self@[idx as int].dirty(),
    {
        DirtyVec::is_dirty(self, idx)
    }

    fn mark_dirty(&mut self, idx: usize)
        ensures
            final(self)@ == old(self)@.update(idx as int, DataView::spec_make(old(self)@[idx as int].value(), true)),
    {
        DirtyVec::mark_dirty(self, idx);
        proof {
            DataView::lemma_make(old(self)@[idx as int].value(), true);
            DataView::<T>::lemma_view_eq(final(self)@[idx as int], DataView::spec_make(old(self)@[idx as int].value(), true));
            assert(final(self)@ =~= old(self)@.update(idx as int, DataView::spec_make(old(self)@[idx as int].value(), true)));
        }
    }

    fn mark_clean(&mut self, idx: usize)
        ensures
            final(self)@ == old(self)@.update(idx as int, DataView::spec_make(old(self)@[idx as int].value(), false)),
    {
        DirtyVec::mark_clean(self, idx);
        proof {
            DataView::lemma_make(old(self)@[idx as int].value(), false);
            DataView::<T>::lemma_view_eq(final(self)@[idx as int], DataView::spec_make(old(self)@[idx as int].value(), false));
            assert(final(self)@ =~= old(self)@.update(idx as int, DataView::spec_make(old(self)@[idx as int].value(), false)));
        }
    }
}

impl<T> Pushable for DirtyVec<T> {
    type Item = T;

    fn push(&mut self, data: T)
        ensures
            final(self)@ == old(self)@.push(DataView::spec_make(data, true)),
    {
        DirtyVec::push(self, data);
        proof {
            DataView::lemma_make(data, true);
            DataView::<T>::lemma_view_eq(final(self)@.last(), DataView::spec_make(data, true));
            assert(final(self)@ =~= old(self)@.push(DataView::spec_make(data, true)));
        }
    }
}

impl<T> Pushable for Vec<T> {
    type Item = T;

    fn push(&mut self, data: T)
        ensures
            final(self)@ == old(self)@.push(data),
    {
        Vec::push(self, data);
    }
}

} // verus!
