use vstd::prelude::*;
use crate::data_view::{DirtyVec, Pushable, seq_swap_remove};
use crate::text::{concat3, owned};

verus! {

/// Whether `v` is a value that `T::default()` may return.
pub open spec fn is_default<T: Default>(v: T) -> bool {
    call_ensures(T::default, (), v)
}

/// The concrete vector type behind a [`DynVec`].
#[derive(PartialEq, Eq, Structural, Clone, Copy, Debug)]
pub enum VecKind {
    /// A plain vector of values.
    Plain,
    /// A vector of values with dirty flags.
    Dirty,
}

/// A property column: either a plain vector or a dirty-tracked vector.
pub enum DynVec<T> {
    Plain(Vec<T>),
    Dirty(DirtyVec<T>),
}

impl<T> DynVec<T> {
    /// Which concrete vector this column holds.
    pub open spec fn kind(&self) -> VecKind {
        match self {
            DynVec::Plain(_) => VecKind::Plain,
            DynVec::Dirty(_) => VecKind::Dirty,
        }
    }

    /// The values held, in order.
    pub open spec fn values(&self) -> Seq<T> {
        match self {
            DynVec::Plain(v) => v@,
            DynVec::Dirty(d) => d.values(),
        }
    }

    /// Number of values held.
    pub open spec fn spec_len(&self) -> nat {
        self.values().len()
    }

    /// The dirty flags (all false for a plain vector).
    pub open spec fn flags(&self) -> Seq<bool> {
        match self {
            DynVec::Plain(v) => Seq::new(v@.len(), |i: int| false),
            DynVec::Dirty(d) => d.flags(),
        }
    }

    /// An empty column of the given kind.
    pub fn empty(kind: VecKind) -> (v: Self)
        ensures
            v.kind() == kind,
            v.spec_len() == 0,
    {
        match kind {
            VecKind::Plain => DynVec::Plain(Vec::new()),
            VecKind::Dirty => DynVec::Dirty(DirtyVec::new()),
        }
    }

    /// The kind of this column.
    pub fn vec_kind(&self) -> (k: VecKind)
        ensures
            k == self.kind(),
    {
        match self {
            DynVec::Plain(_) => VecKind::Plain,
            DynVec::Dirty(_) => VecKind::Dirty,
        }
    }

    /// Get the length of the vector.
    pub fn len(&self) -> (n: usize)
        ensures
            n == self.spec_len(),
    {
        match self {
            DynVec::Plain(v) => v.len(),
            DynVec::Dirty(d) => d.len(),
        }
    }

    /// Clear the vector, keeping its kind.
    pub fn clear(&mut self)
        ensures
            final(self).kind() == old(self).kind(),
            final(self).spec_len() == 0,
    {
        match self {
            DynVec::Plain(v) => v.clear(),
            DynVec::Dirty(d) => d.clear(),
        }
    }

    /// Append a value; in a dirty-tracked vector it starts dirty.
    pub fn push(&mut self, data: T)
        ensures
            final(self).kind() == old(self).kind(),
            final(self).values() == old(self).values().push(data),
            final(self).kind() == VecKind::Dirty ==> final(self).flags() == old(self).flags().push(true),
    {
        match self {
            DynVec::Plain(v) => v.push(data),
            DynVec::Dirty(d) => {
                let ghost before = *d;
                d.push(data);
                proof {
                    assert(d.values() =~= before.values().push(data));
                    assert(d.flags() =~= before.flags().push(true));
                }
            },
        }
    }

    /// `after` is `before` with the element at `idx` swap-removed: the values
    /// follow [`seq_swap_remove`]; in a dirty-tracked vector the element moved
    /// into `idx` is dirty, the other flags keep their place, and an index out of
    /// range changes nothing.
    pub open spec fn swap_removed(before: Self, after: Self, idx: int) -> bool {
        &&& after.kind() == before.kind()
        &&& idx < before.spec_len() ==> after.values() == seq_swap_remove(before.values(), idx)
        &&& idx >= before.spec_len() ==> after.values() == before.values() && after.flags() == before.flags()
        &&& after.kind() == VecKind::Dirty && idx < before.spec_len() ==> {
            &&& after.flags().len() == before.flags().len() - 1
            &&& forall|i: int| 0 <= i < after.flags().len() && i != idx ==> #[trigger] after.flags()[i] == before.flags()[i]
            &&& idx + 1 < before.spec_len() ==> after.flags()[idx]
        }
    }

    /// Swap the last element with the one at `idx`, then remove the last element.
    ///
    /// A plain vector requires `idx` to be in range; a dirty-tracked vector
    /// ignores an index out of range and marks the element moved into `idx` dirty.
    pub fn swap_remove(&mut self, idx: usize)
        requires
            old(self).kind() == VecKind::Plain ==> idx < old(self).spec_len(),
        ensures
            Self::swap_removed(*old(self), *final(self), idx as int),
    {
        match self {
            DynVec::Plain(v) => {
                v.swap_remove(idx);
            },
            DynVec::Dirty(d) => {
                d.swap_remove(idx);
            },
        }
    }

    /// A reference to the value at `idx`.
    pub fn value_at(&self, idx: usize) -> (r: &T)
        requires
            idx < self.spec_len(),
        ensures
            *r == self.values()[idx as int],
    {
        match self {
            DynVec::Plain(v) => &v[idx],
            DynVec::Dirty(d) => d.value_ref(idx),
        }
    }

    /// Mark the element at `idx` clean; plain vectors are left as they are.
    pub fn mark_clean(&mut self, idx: usize)
        requires
            old(self).kind() == VecKind::Dirty ==> idx < old(self).spec_len(),
        ensures
            final(self).kind() == old(self).kind(),
            final(self).values() == old(self).values(),
            final(self).kind() == VecKind::Plain ==> *final(self) == *old(self),
            final(self).kind() == VecKind::Dirty ==> final(self).flags() == old(self).flags().update(idx as int, false),
    {
        match self {
            DynVec::Plain(_) => {},
            DynVec::Dirty(d) => {
                let ghost before = *d;
                d.mark_clean(idx);
                proof {
                    assert(d.values() =~= before.values());
                    assert(d.flags() =~= before.flags().update(idx as int, false));
                }
            },
        }
    }

    /// Whether the element at `idx` is dirty; plain vectors never are.
    pub fn is_dirty(&self, idx: usize) -> (b: bool)
        ensures
            b == (idx < self.spec_len() && self.flags()[idx as int]),
    {
        match self {
            DynVec::Plain(_) => false,
            DynVec::Dirty(d) => d.is_dirty(idx),
        }
    }
}

impl<T> DynVec<T> {
    /// Create a new empty vector of the same kind.
    pub fn clone_empty(&self) -> (v: Self)
        ensures
            v.kind() == self.kind(),
            v.spec_len() == 0,
    {
        DynVec::empty(self.vec_kind())
    }

    /// View this vector as a dirty tracker, if it tracks changes.
    pub fn as_dirty_tracker(&self) -> (r: Option<&DirtyVec<T>>)
        ensures
            match r {
                Some(d) => *self == DynVec::Dirty(*d),
                None => self.kind() == VecKind::Plain,
            },
    {
        match self {
            DynVec::Plain(_) => None,
            DynVec::Dirty(d) => Some(d),
        }
    }

    /// This vector, if its concrete type is `kind`.
    pub fn downcast_ref(&self, kind: VecKind) -> (r: Option<&Self>)
        ensures
            match r {
                Some(v) => self.kind() == kind && *v == *self,
                None => self.kind() != kind,
            },
    {
        if self.vec_kind() == kind {
            Some(self)
        } else {
            None
        }
    }

    /// This vector, mutably, if its concrete type is `kind`.
    pub fn downcast_mut(&mut self, kind: VecKind) -> (r: Option<&mut Self>)
        ensures
            match r {
                Some(v) => old(self).kind() == kind && *v == *old(self) && *final(self) == *final(v),
                None => old(self).kind() != kind && *final(self) == *old(self),
            },
    {
        if self.vec_kind() == kind {
            Some(self)
        } else {
            None
        }
    }
}

impl<T: Clone> DynVec<T> {
    /// Clone the values of the vector into a new one of the same kind. Values
    /// copied into a dirty-tracked vector start dirty.
    pub fn clone_box(&self) -> (v: Self)
        ensures
            v.kind() == self.kind(),
            v.spec_len() == self.spec_len(),
            forall|i: int| 0 <= i < self.spec_len() ==> cloned::<T>(self.values()[i], #[trigger] v.values()[i]),
            v.kind() == VecKind::Dirty ==> forall|i: int| 0 <= i < self.spec_len() ==> #[trigger] v.flags()[i],
    {
        let mut out = self.clone_empty();
        out.append_from(self);
        assert forall|i: int| 0 <= i < self.spec_len() implies cloned::<T>(self.values()[i], #[trigger] out.values()[i]) by {
            assert(out.values()[0 + i] == out.values()[i]);
        }
        if out.vec_kind() == VecKind::Dirty {
            assert forall|i: int| 0 <= i < self.spec_len() implies #[trigger] out.flags()[i] by {
                assert(out.flags()[0 + i] == out.flags()[i]);
            }
        }
        out
    }

    /// Append clones of the values of `other` to this vector. Values appended to a
    /// dirty-tracked vector start dirty. Both vectors must be of the same kind.
    pub fn append_from(&mut self, other: &Self)
        requires
            old(self).kind() == other.kind(),
        ensures
            final(self).kind() == old(self).kind(),
            final(self).spec_len() == old(self).spec_len() + other.spec_len(),
            forall|i: int| 0 <= i < old(self).spec_len() ==> #[trigger] final(self).values()[i] == old(self).values()[i],
            forall|i: int| 0 <= i < other.spec_len() ==>
                cloned::<T>(other.values()[i], #[trigger] final(self).values()[old(self).spec_len() + i]),
            final(self).kind() == VecKind::Dirty ==> {
                &&& forall|i: int| 0 <= i < old(self).spec_len() ==> #[trigger] final(self).flags()[i] == old(self).flags()[i]
                &&& forall|i: int| 0 <= i < other.spec_len() ==> #[trigger] final(self).flags()[old(self).spec_len() + i]
            },
    {
        let n = other.len();
        let ghost start = *self;
        let mut i: usize = 0;
        while i < n
            invariant
                n == other.spec_len(),
                i <= n,
                self.kind() == start.kind(),
                self.kind() == other.kind(),
                self.spec_len() == start.spec_len() + i,
                forall|j: int| 0 <= j < start.spec_len() ==> #[trigger] self.values()[j] == start.values()[j],
                forall|j: int| 0 <= j < i ==> cloned::<T>(other.values()[j], #[trigger] self.values()[start.spec_len() + j]),
                self.kind() == VecKind::Dirty ==> {
                    &&& forall|j: int| 0 <= j < start.spec_len() ==> #[trigger] self.flags()[j] == start.flags()[j]
                    &&& forall|j: int| 0 <= j < i ==> #[trigger] self.flags()[start.spec_len() + j]
                },
            decreases n - i,
        {
            let item = other.value_at(i).clone();
            let ghost before = *self;
            self.push(item);
            proof {
                assert(self.values()[start.spec_len() + i] == item);
                if self.kind() == VecKind::Dirty {
                    assert(self.flags() == before.flags().push(true));
                }
            }
            i = i + 1;
        }
    }
}

impl<T> Pushable for DynVec<T> {
    type Item = T;

    fn push(&mut self, data: T)
        ensures
            final(self).kind() == old(self).kind(),
            final(self).values() == old(self).values().push(data),
            final(self).kind() == VecKind::Dirty ==> final(self).flags() == old(self).flags().push(true),
    {
        DynVec::push(self, data);
    }
}

impl<T: Default> DynVec<T> {
    /// Push a default value into the vector; in a dirty-tracked vector it starts dirty.
    pub fn push_default(&mut self)
        ensures
            final(self).kind() == old(self).kind(),
            final(self).spec_len() == old(self).spec_len() + 1,
            final(self).values().drop_last() == old(self).values(),
            is_default(final(self).values().last()),
            final(self).kind() == VecKind::Dirty ==> final(self).flags() == old(self).flags().push(true),
    {
        let d = T::default();
        self.push(d);
        proof {
            assert(final(self).values().drop_last() =~= old(self).values());
        }
    }
}


/// The message of the error that `push_to` returns for a full table.
pub open spec fn full_table_message(key: Seq<char>) -> Seq<char> {
    "Table is at max capacity, cannot insert data into stream '"@ + key + "'"@
}

/// The message of the error that `push_to` returns when no column of the
/// requested kind is stored under the key.
pub open spec fn missing_stream_message(key: Seq<char>) -> Seq<char> {
    "Expected stream with key '"@ + key + "', but none was found."@
}

/// A homogenous collection of columns of data, keyed by a string.
pub struct DataTable<T> {
    keys: Vec<String>,
    columns: Vec<DynVec<T>>,
    capacity: usize,
}

impl<T> DataTable<T> {
    /// The number of rows that each column may hold.
    pub closed spec fn spec_capacity(&self) -> usize {
        self.capacity
    }

    /// The number of rows that each column may hold.
    pub fn capacity(&self) -> (c: usize)
        ensures
            c == self.spec_capacity(),
    {
        self.capacity
    }

    /// The keys of the properties, in the order in which they were added.
    pub closed spec fn key_seq(&self) -> Seq<Seq<char>> {
        self.keys@.map_values(|k: String| k@)
    }

    /// The property columns, in the order of `key_seq`.
    pub closed spec fn column_seq(&self) -> Seq<DynVec<T>> {
        self.columns@
    }

    /// There is one column per key, and no key occurs twice.
    pub open spec fn wf(&self) -> bool {
        &&& self.key_seq().len() == self.column_seq().len()
        &&& self.key_seq().no_duplicates()
    }

    /// Whether a property is stored under `key`.
    pub open spec fn has_key(&self, key: Seq<char>) -> bool {
        self.key_seq().contains(key)
    }

    /// The position of `key` among the keys (meaningful when `has_key(key)`).
    pub open spec fn key_index(&self, key: Seq<char>) -> int {
        self.key_seq().index_of(key)
    }

    /// The column stored under `key` (meaningful when `has_key(key)`).
    pub open spec fn column(&self, key: Seq<char>) -> DynVec<T> {
        self.column_seq()[self.key_index(key)]
    }

    /// Whether a column of the given kind is stored under `key`.
    pub open spec fn has_column(&self, key: Seq<char>, kind: VecKind) -> bool {
        self.has_key(key) && self.column(key).kind() == kind
    }

    /// A key that is present is found at a position within the keys.
    pub proof fn lemma_found(&self, key: Seq<char>)
        requires
            self.has_key(key),
        ensures
            0 <= self.key_index(key) < self.key_seq().len(),
            self.key_seq()[self.key_index(key)] == key,
    {
    }

    /// In a table whose keys are distinct, the key at position `i` is found at `i`.
    pub proof fn lemma_key_index(&self, i: int)
        requires
            self.wf(),
            0 <= i < self.key_seq().len(),
        ensures
            self.has_key(self.key_seq()[i]),
            self.key_index(self.key_seq()[i]) == i,
    {
        let k = self.key_seq()[i];
        assert(self.key_seq()[i] == k);
        let j = self.key_index(k);
        assert(0 <= j < self.key_seq().len() && self.key_seq()[j] == k);
    }

    /// The position of `key` among the keys, if present.
    fn find(&self, key: &str) -> (r: Option<usize>)
        requires
            self.wf(),
        ensures
            match r {
                Some(i) => i < self.key_seq().len() && self.key_seq()[i as int] == key@
                    && self.has_key(key@) && self.key_index(key@) == i,
                None => !self.has_key(key@),
            },
    {
        let target = owned(key);
        let n = self.keys.len();
        let mut i: usize = 0;
        while i < n
            invariant
                n == self.keys@.len(),
                self.wf(),
                target@ == key@,
                i <= n,
                forall|j: int| 0 <= j < i ==> #[trigger] self.key_seq()[j] != key@,
            decreases n - i,
        {
            if self.keys[i] == target {
                proof {
                    assert(self.key_seq()[i as int] == key@);
                    self.lemma_key_index(i as int);
                }
                return Some(i);
            }
            i = i + 1;
        }
        proof {
            if self.has_key(key@) {
                let j = choose|j: int| 0 <= j < self.key_seq().len() && self.key_seq()[j] == key@;
                assert(self.key_seq()[j] != key@);
            }
        }
        None
    }

    /// An empty table whose columns may each hold `capacity` rows.
    pub fn new(capacity: usize) -> (t: Self)
        ensures
            t.wf(),
            t.key_seq().len() == 0,
            t.spec_capacity() == capacity,
    {
        let t = DataTable { keys: Vec::new(), columns: Vec::new(), capacity };
        assert(t.key_seq() =~= Seq::<Seq<char>>::empty());
        t
    }

    /// Get the keys to the properties in this table, in the order in which they were added.
    pub fn keys(&self) -> (r: Vec<String>)
        ensures
            r@.map_values(|k: String| k@) == self.key_seq(),
    {
        let mut out: Vec<String> = Vec::new();
        let n = self.keys.len();
        let mut i: usize = 0;
        while i < n
            invariant
                n == self.keys@.len(),
                i <= n,
                out@.len() == i,
                forall|j: int| 0 <= j < i ==> #[trigger] out@[j]@ == self.keys@[j]@,
            decreases n - i,
        {
            out.push(self.keys[i].clone());
            i = i + 1;
        }
        assert(out@.map_values(|k: String| k@) =~= self.key_seq());
        out
    }

    /// Add a property to this data table, unless one is stored under `key` already.
    ///
    /// * 'key' a unique string referencing the property in the table.
    /// * 'prop_func' a closure that takes in the capacity of the table and returns the column.
    pub fn add_property<F: FnOnce(usize) -> DynVec<T>>(&mut self, key: &str, prop_func: F)
        requires
            old(self).wf(),
            !old(self).has_key(key@) ==> prop_func.requires((old(self).spec_capacity(),)),
        ensures
            final(self).wf(),
            final(self).spec_capacity() == old(self).spec_capacity(),
            old(self).has_key(key@) ==> final(self).key_seq() == old(self).key_seq()
                && final(self).column_seq() == old(self).column_seq(),
            !old(self).has_key(key@) ==> {
                &&& final(self).key_seq() == old(self).key_seq().push(key@)
                &&& final(self).column_seq().drop_last() == old(self).column_seq()
                &&& prop_func.ensures((old(self).spec_capacity(),), final(self).column_seq().last())
            },
    {
        if self.find(key).is_none() {
            let property = prop_func(self.capacity);
            let ghost old_keys = self.key_seq();
            self.keys.push(owned(key));
            self.columns.push(property);
            proof {
                assert(self.key_seq() =~= old_keys.push(key@));
                assert(self.column_seq().drop_last() =~= old(self).column_seq());
                assert forall|i: int, j: int|
                    0 <= i < self.key_seq().len() && 0 <= j < self.key_seq().len() && i != j
                    implies self.key_seq()[i] != self.key_seq()[j] by {
                    if i < old_keys.len() && j < old_keys.len() {
                    } else if i < old_keys.len() {
                        assert(old_keys[i] != key@);
                    } else {
                        assert(old_keys[j] != key@);
                    }
                }
            }
        }
    }

    /// Add a property to this data table, unless one is stored under `key` already.
    pub fn with_property<F: FnOnce(usize) -> DynVec<T>>(self, key: &str, prop_func: F) -> (t: Self)
        requires
            self.wf(),
            !self.has_key(key@) ==> prop_func.requires((self.spec_capacity(),)),
        ensures
            t.wf(),
            t.spec_capacity() == self.spec_capacity(),
            self.has_key(key@) ==> t.key_seq() == self.key_seq() && t.column_seq() == self.column_seq(),
            !self.has_key(key@) ==> {
                &&& t.key_seq() == self.key_seq().push(key@)
                &&& t.column_seq().drop_last() == self.column_seq()
                &&& prop_func.ensures((self.spec_capacity(),), t.column_seq().last())
            },
    {
        let mut t = self;
        t.add_property(key, prop_func);
        t
    }

    /// Get a reference to the column of the given kind stored under `key`, if exists.
    pub fn get_property(&self, key: &str, kind: VecKind) -> (r: Option<&DynVec<T>>)
        requires
            self.wf(),
        ensures
            match r {
                Some(c) => self.has_column(key@, kind) && *c == self.column(key@),
                None => !self.has_column(key@, kind),
            },
    {
        match self.find(key) {
            Some(i) => {
                if self.columns[i].vec_kind() == kind {
                    Some(&self.columns[i])
                } else {
                    None
                }
            },
            None => None,
        }
    }

    /// Get a mutable reference to the column of the given kind stored under `key`, if exists.
    pub fn get_property_mut(&mut self, key: &str, kind: VecKind) -> (r: Option<&mut DynVec<T>>)
        requires
            old(self).wf(),
        ensures
            final(self).key_seq() == old(self).key_seq(),
            final(self).spec_capacity() == old(self).spec_capacity(),
            final(self).column_seq().len() == old(self).column_seq().len(),
            match r {
                Some(c) => {
                    &&& old(self).has_column(key@, kind)
                    &&& *c == old(self).column(key@)
                    &&& final(self).column_seq() == old(self).column_seq().update(old(self).key_index(key@), *final(c))
                },
                None => !old(self).has_column(key@, kind) && final(self).column_seq() == old(self).column_seq(),
            },
    {
        match self.find(key) {
            Some(i) => {
                if self.columns[i].vec_kind() == kind {
                    Some(&mut self.columns[i])
                } else {
                    None
                }
            },
            None => None,
        }
    }

    /// The column stored under `key`, whatever its kind, if any.
    pub fn get_column(&self, key: &str) -> (r: Option<&DynVec<T>>)
        requires
            self.wf(),
        ensures
            match r {
                Some(c) => self.has_key(key@) && *c == self.column(key@),
                None => !self.has_key(key@),
            },
    {
        match self.find(key) {
            Some(i) => Some(&self.columns[i]),
            None => None,
        }
    }

    /// Number of rows in the column stored under `key`, if any.
    pub fn property_len(&self, key: &str) -> (r: Option<usize>)
        requires
            self.wf(),
        ensures
            match r {
                Some(n) => self.has_key(key@) && n == self.column(key@).spec_len(),
                None => !self.has_key(key@),
            },
    {
        match self.find(key) {
            Some(i) => Some(self.columns[i].len()),
            None => None,
        }
    }

    /// Append data to an existing property in the table.
    ///
    /// Fails when no column of the given kind is stored under `key`, or when
    /// that column already holds `capacity` rows.
    pub fn push_to(&mut self, key: &str, kind: VecKind, data: T) -> (r: Result<(), String>)
        requires
            old(self).wf(),
        ensures
            final(self).wf(),
            final(self).spec_capacity() == old(self).spec_capacity(),
            final(self).key_seq() == old(self).key_seq(),
            (r is Ok) == (old(self).has_column(key@, kind)
                && old(self).column(key@).spec_len() < old(self).spec_capacity()),
            r is Ok ==> {
                let i = old(self).key_index(key@);
                &&& final(self).column_seq().len() == old(self).column_seq().len()
                &&& forall|j: int| 0 <= j < old(self).column_seq().len() && j != i
                    ==> #[trigger] final(self).column_seq()[j] == old(self).column_seq()[j]
                &&& final(self).column(key@).kind() == kind
                &&& final(self).column(key@).values() == old(self).column(key@).values().push(data)
                &&& kind == VecKind::Dirty ==> final(self).column(key@).flags() == old(self).column(key@).flags().push(true)
            },
            r matches Err(msg) ==> {
                &&& final(self).column_seq() == old(self).column_seq()
                &&& msg@ == (if old(self).has_column(key@, kind) {
                    full_table_message(key@)
                } else {
                    missing_stream_message(key@)
                })
            },
    {
        let capacity = self.capacity;
        match self.find(key) {
            Some(i) => {
                if self.columns[i].vec_kind() == kind {
                    if self.columns[i].len() >= capacity {
                        proof {
                            reveal_strlit("Table is at max capacity, cannot insert data into stream '");
                            reveal_strlit("'");
                        }
                        return Err(concat3("Table is at max capacity, cannot insert data into stream '", key, "'"));
                    }
                    self.columns[i].push(data);
                    proof {
                        assert(self.key_seq() =~= old(self).key_seq());
                    }
                    return Ok(());
                }
            },
            None => {},
        }
        Err(concat3("Expected stream with key '", key, "', but none was found."))
    }

    /// Number of properties in the table.
    pub fn num_properties(&self) -> (n: usize)
        requires
            self.wf(),
        ensures
            n == self.key_seq().len(),
    {
        self.keys.len()
    }

    /// The key of the property at position `i`.
    pub fn key_at(&self, i: usize) -> (k: &String)
        requires
            self.wf(),
            i < self.key_seq().len(),
        ensures
            k@ == self.key_seq()[i as int],
    {
        &self.keys[i]
    }

    /// The column of the property at position `i`.
    pub fn column_at(&self, i: usize) -> (c: &DynVec<T>)
        requires
            self.wf(),
            i < self.key_seq().len(),
        ensures
            *c == self.column_seq()[i as int],
    {
        &self.columns[i]
    }

    /// The column of the property at position `i`, mutably.
    pub fn column_at_mut(&mut self, i: usize) -> (c: &mut DynVec<T>)
        requires
            old(self).wf(),
            i < old(self).key_seq().len(),
        ensures
            *c == old(self).column_seq()[i as int],
            final(self).key_seq() == old(self).key_seq(),
            final(self).spec_capacity() == old(self).spec_capacity(),
            final(self).column_seq() == old(self).column_seq().update(i as int, *final(c)),
    {
        &mut self.columns[i]
    }

    /// Store `column` under `key`, replacing the column stored there before, if any.
    pub fn insert_property(&mut self, key: &str, column: DynVec<T>)
        requires
            old(self).wf(),
        ensures
            final(self).wf(),
            final(self).spec_capacity() == old(self).spec_capacity(),
            old(self).has_key(key@) ==> final(self).key_seq() == old(self).key_seq()
                && final(self).column_seq() == old(self).column_seq().update(old(self).key_index(key@), column),
            !old(self).has_key(key@) ==> final(self).key_seq() == old(self).key_seq().push(key@)
                && final(self).column_seq() == old(self).column_seq().push(column),
            final(self).has_key(key@),
            final(self).column(key@) == column,
    {
        match self.find(key) {
            Some(i) => {
                self.columns.set(i, column);
                proof {
                    assert(self.key_seq() =~= old(self).key_seq());
                    self.lemma_key_index(i as int);
                }
            },
            None => {
                let ghost old_keys = self.key_seq();
                self.keys.push(owned(key));
                self.columns.push(column);
                proof {
                    assert(self.key_seq() =~= old_keys.push(key@));
                    assert forall|i: int, j: int|
                        0 <= i < self.key_seq().len() && 0 <= j < self.key_seq().len() && i != j
                        implies self.key_seq()[i] != self.key_seq()[j] by {
                        if i < old_keys.len() && j < old_keys.len() {
                        } else if i < old_keys.len() {
                            assert(old_keys[i] != key@);
                        } else {
                            assert(old_keys[j] != key@);
                        }
                    }
                    self.lemma_key_index(old_keys.len() as int);
                }
            },
        }
    }

    /// Remove the property stored under `key`, returning its column, if any.
    /// The other properties keep their relative order.
    pub fn remove_property(&mut self, key: &str) -> (r: Option<DynVec<T>>)
        requires
            old(self).wf(),
        ensures
            final(self).wf(),
            final(self).spec_capacity() == old(self).spec_capacity(),
            match r {
                Some(c) => {
                    let i = old(self).key_index(key@);
                    &&& old(self).has_key(key@)
                    &&& c == old(self).column(key@)
                    &&& final(self).key_seq() == old(self).key_seq().remove(i)
                    &&& final(self).column_seq() == old(self).column_seq().remove(i)
                },
                None => !old(self).has_key(key@) && final(self).key_seq() == old(self).key_seq()
                    && final(self).column_seq() == old(self).column_seq(),
            },
    {
        match self.find(key) {
            Some(i) => {
                let ghost old_keys = self.key_seq();
                self.keys.remove(i);
                let c = self.columns.remove(i);
                proof {
                    assert(self.key_seq() =~= old_keys.remove(i as int));
                    assert forall|a: int, b: int|
                        0 <= a < self.key_seq().len() && 0 <= b < self.key_seq().len() && a != b
                        implies self.key_seq()[a] != self.key_seq()[b] by {
                        let a2 = if a < i { a } else { a + 1 };
                        let b2 = if b < i { b } else { b + 1 };
                        assert(self.key_seq()[a] == old_keys[a2]);
                        assert(self.key_seq()[b] == old_keys[b2]);
                    }
                }
                Some(c)
            },
            None => None,
        }
    }

    /// Swap-remove the row at `idx` in every column.
    ///
    /// Every plain column must hold more than `idx` rows; dirty-tracked columns
    /// ignore an index out of range.
    pub fn swap_remove(&mut self, idx: usize)
        requires
            old(self).wf(),
            forall|j: int| 0 <= j < old(self).column_seq().len()
                && #[trigger] old(self).column_seq()[j].kind() == VecKind::Plain
                ==> idx < old(self).column_seq()[j].spec_len(),
        ensures
            final(self).wf(),
            final(self).spec_capacity() == old(self).spec_capacity(),
            final(self).key_seq() == old(self).key_seq(),
            final(self).column_seq().len() == old(self).column_seq().len(),
            forall|j: int| 0 <= j < old(self).column_seq().len() ==> DynVec::swap_removed(
                old(self).column_seq()[j], #[trigger] final(self).column_seq()[j], idx as int),
    {
        let n = self.columns.len();
        let mut j: usize = 0;
        while j < n
            invariant
                n == self.columns@.len(),
                j <= n,
                self.keys == old(self).keys,
                self.spec_capacity() == old(self).spec_capacity(),
                self.columns@.len() == old(self).columns@.len(),
                forall|k: int| 0 <= k < j ==> DynVec::swap_removed(
                    old(self).columns@[k], #[trigger] self.columns@[k], idx as int),
                forall|k: int| j <= k < n ==> #[trigger] self.columns@[k] == old(self).columns@[k],
                forall|k: int| 0 <= k < n && #[trigger] old(self).columns@[k].kind() == VecKind::Plain
                    ==> idx < old(self).columns@[k].spec_len(),
            decreases n - j,
        {
            self.columns[j].swap_remove(idx);
            j = j + 1;
        }
    }

    /// Clear the columns of this table, keeping the properties themselves.
    pub fn reset_properties(&mut self)
        requires
            old(self).wf(),
        ensures
            final(self).wf(),
            final(self).spec_capacity() == old(self).spec_capacity(),
            final(self).key_seq() == old(self).key_seq(),
            final(self).column_seq().len() == old(self).column_seq().len(),
            forall|j: int| 0 <= j < old(self).column_seq().len() ==> {
                &&& (#[trigger] final(self).column_seq()[j]).kind() == old(self).column_seq()[j].kind()
                &&& final(self).column_seq()[j].spec_len() == 0
            },
    {
        let n = self.columns.len();
        let mut j: usize = 0;
        while j < n
            invariant
                n == self.columns@.len(),
                j <= n,
                self.keys == old(self).keys,
                self.spec_capacity() == old(self).spec_capacity(),
                self.columns@.len() == old(self).columns@.len(),
                forall|k: int| 0 <= k < j ==> (#[trigger] self.columns@[k]).kind() == old(self).columns@[k].kind()
                    && self.columns@[k].spec_len() == 0,
                forall|k: int| j <= k < n ==> #[trigger] self.columns@[k] == old(self).columns@[k],
            decreases n - j,
        {
            self.columns[j].clear();
            j = j + 1;
        }
    }

    /// Remove every property from the table, keeping its capacity.
    pub fn clear(&mut self)
        requires
            old(self).wf(),
        ensures
            final(self).wf(),
            final(self).spec_capacity() == old(self).spec_capacity(),
            final(self).key_seq().len() == 0,
    {
        self.keys.clear();
        self.columns.clear();
        assert(self.key_seq() =~= Seq::<Seq<char>>::empty());
    }
}


/// Two different elements of a vector, mutably.
fn pair_mut<T>(v: &mut Vec<DynVec<T>>, i: usize, j: usize) -> (r: (&mut DynVec<T>, &mut DynVec<T>))
    requires
        i < j < old(v)@.len(),
    ensures
        *r.0 == old(v)@[i as int],
        *r.1 == old(v)@[j as int],
        final(v)@ == old(v)@.update(i as int, *final(r.0)).update(j as int, *final(r.1)),
{
    let s = v.as_mut_slice();
    let (lo, hi) = s.split_at_mut(j);
    let (front, mid) = lo.split_at_mut(i);
    let a = mid.first_mut().unwrap();
    let b = hi.first_mut().unwrap();
    (a, b)
}

impl<T> DataTable<T> {
    /// Get mutable references to two different columns at once: the column of
    /// kind `kind1` under `key1` and the column of kind `kind2` under `key2`.
    /// `None` if the keys are the same (a column is borrowed once at a time)
    /// or either column is missing.
    pub fn get_properties_mut(&mut self, key1: &str, kind1: VecKind, key2: &str, kind2: VecKind)
        -> (r: Option<(&mut DynVec<T>, &mut DynVec<T>)>)
        requires
            old(self).wf(),
        ensures
            final(self).key_seq() == old(self).key_seq(),
            final(self).spec_capacity() == old(self).spec_capacity(),
            final(self).column_seq().len() == old(self).column_seq().len(),
            (r is Some) == (key1@ != key2@ && old(self).has_column(key1@, kind1) && old(self).has_column(key2@, kind2)),
            match r {
                Some(pair) => {
                    &&& *pair.0 == old(self).column(key1@)
                    &&& *pair.1 == old(self).column(key2@)
                    &&& final(self).column_seq() == old(self).column_seq()
                        .update(old(self).key_index(key1@), *final(pair.0))
                        .update(old(self).key_index(key2@), *final(pair.1))
                },
                None => final(self).column_seq() == old(self).column_seq(),
            },
    {
        let i = match self.find(key1) {
            Some(i) => i,
            None => return None,
        };
        let j = match self.find(key2) {
            Some(j) => j,
            None => return None,
        };
        if i == j || self.columns[i].vec_kind() != kind1 || self.columns[j].vec_kind() != kind2 {
            proof {
                if i == j {
                    assert(key1@ == key2@);
                }
            }
            return None;
        }
        proof {
            if key1@ == key2@ {
                assert(i == j);
            }
        }
        if i < j {
            let (a, b) = pair_mut(&mut self.columns, i, j);
            Some((a, b))
        } else {
            let (b, a) = pair_mut(&mut self.columns, j, i);
            proof {
                assert(old(self).column_seq().update(j as int, *final(b)).update(i as int, *final(a))
                    =~= old(self).column_seq().update(i as int, *final(a)).update(j as int, *final(b)));
            }
            Some((a, b))
        }
    }
}

/// Mutable access to the columns of a table, as a borrow of the table.
///
/// A column borrowed through the proxy stays borrowed for as long as the
/// reference to it lives, and no other borrow can be taken through the proxy
/// meanwhile; when the reference goes away the column is free again. Two
/// different columns can be borrowed together with `get_properties_mut`.
pub struct DataTableProxy<'a, T> {
    /// The table seen through the proxy.
    pub table: &'a mut DataTable<T>,
}

impl<'a, T> DataTableProxy<'a, T> {
    /// A proxy for `table`.
    pub fn new(table: &'a mut DataTable<T>) -> (p: Self)
        ensures
            *p.table == *old(table),
            *final(p.table) == *final(table),
    {
        DataTableProxy { table }
    }

    /// Get a reference to the column of the given kind stored under `key`, if exists.
    pub fn get_property(&self, key: &str, kind: VecKind) -> (r: Option<&DynVec<T>>)
        requires
            old(self.table).wf(),
        ensures
            match r {
                Some(c) => old(self.table).has_column(key@, kind) && *c == old(self.table).column(key@),
                None => !old(self.table).has_column(key@, kind),
            },
    {
        self.table.get_property(key, kind)
    }

    /// Borrow the column of the given kind stored under `key`, mutably; `None`
    /// if there is none. The borrow lasts as long as the reference returned.
    pub fn get_property_mut(&mut self, key: &str, kind: VecKind) -> (r: Option<&mut DynVec<T>>)
        requires
            old(self).table.wf(),
        ensures
            *final(final(self).table) == *final(old(self).table),
            final(self).table.key_seq() == old(self).table.key_seq(),
            final(self).table.spec_capacity() == old(self).table.spec_capacity(),
            final(self).table.column_seq().len() == old(self).table.column_seq().len(),
            match r {
                Some(c) => {
                    &&& old(self).table.has_column(key@, kind)
                    &&& *c == old(self).table.column(key@)
                    &&& final(self).table.column_seq() == old(self).table.column_seq().update(
                        old(self).table.key_index(key@), *final(c))
                },
                None => !old(self).table.has_column(key@, kind)
                    && final(self).table.column_seq() == old(self).table.column_seq(),
            },
    {
        self.table.get_property_mut(key, kind)
    }

    /// Borrow two different columns at once, mutably; `None` if the keys are
    /// the same or either column is missing.
    pub fn get_properties_mut(&mut self, key1: &str, kind1: VecKind, key2: &str, kind2: VecKind)
        -> (r: Option<(&mut DynVec<T>, &mut DynVec<T>)>)
        requires
            old(self).table.wf(),
        ensures
            *final(final(self).table) == *final(old(self).table),
            final(self).table.key_seq() == old(self).table.key_seq(),
            final(self).table.column_seq().len() == old(self).table.column_seq().len(),
            (r is Some) == (key1@ != key2@ && old(self).table.has_column(key1@, kind1)
                && old(self).table.has_column(key2@, kind2)),
            match r {
                Some(pair) => {
                    &&& *pair.0 == old(self).table.column(key1@)
                    &&& *pair.1 == old(self).table.column(key2@)
                    &&& final(self).table.column_seq() == old(self).table.column_seq()
                        .update(old(self).table.key_index(key1@), *final(pair.0))
                        .update(old(self).table.key_index(key2@), *final(pair.1))
                },
                None => final(self).table.column_seq() == old(self).table.column_seq(),
            },
    {
        self.table.get_properties_mut(key1, kind1, key2, kind2)
    }

    /// Swap-remove the row at `idx` in every column of the table.
    pub fn swap_remove_all(&mut self, idx: usize)
        requires
            old(self).table.wf(),
            forall|j: int| 0 <= j < old(self).table.column_seq().len()
                && #[trigger] old(self).table.column_seq()[j].kind() == VecKind::Plain
                ==> idx < old(self).table.column_seq()[j].spec_len(),
        ensures
            *final(final(self).table) == *final(old(self).table),
            final(self).table.wf(),
            final(self).table.spec_capacity() == old(self).table.spec_capacity(),
            final(self).table.key_seq() == old(self).table.key_seq(),
            final(self).table.column_seq().len() == old(self).table.column_seq().len(),
            forall|j: int| 0 <= j < old(self).table.column_seq().len() ==> DynVec::swap_removed(
                old(self).table.column_seq()[j], #[trigger] final(self).table.column_seq()[j], idx as int),
    {
        self.table.swap_remove(idx);
    }
}

impl<T> DataTable<T> {
    /// Get a proxy for the table, through which columns can be borrowed mutably.
    pub fn borrow_mut<'a>(&'a mut self) -> (p: DataTableProxy<'a, T>)
        ensures
            *p.table == *old(self),
            *final(p.table) == *final(self),
    {
        DataTableProxy::new(self)
    }
}


} // verus!
