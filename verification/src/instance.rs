use vstd::prelude::*;
use crate::attr::TRANSFORM;
use crate::buffer::BufferBuilder;
use crate::data_table::{DataTable, DynVec, VecKind, is_default};
use crate::data_view::{DataView, DirtyVec};
use crate::layout::{AttributeSpec, VertexAttributeLayout, VertexLayoutBuilder, attr_bytes, layout_entries, total_locations};
use crate::text::owned;

verus! {

/// A modifiable template for new entity instances: the attribute values that
/// a new instance starts with.
pub struct InstanceTemplate<T> {
    pub data: DataTable<T>,
}

impl<T> InstanceTemplate<T> {
    /// The template's attribute table is well formed.
    pub open spec fn wf(&self) -> bool {
        self.data.wf()
    }

    /// An empty template.
    pub fn new() -> (t: Self)
        ensures
            t.wf(),
            t.data.key_seq().len() == 0,
    {
        InstanceTemplate { data: DataTable::new(0) }
    }

    /// Get the known attributes of this template.
    pub fn attributes(&self) -> (r: Vec<String>)
        requires
            self.wf(),
        ensures
            r@.map_values(|k: String| k@) == self.data.key_seq(),
    {
        self.data.keys()
    }

    /// Set a known attribute's value on this template: the attribute holds that
    /// one value, dirty.
    pub fn set_attribute(&mut self, attribute: &str, data: T)
        requires
            old(self).wf(),
        ensures
            final(self).wf(),
            final(self).data.has_key(attribute@),
            final(self).data.column(attribute@).kind() == VecKind::Dirty,
            final(self).data.column(attribute@).values() == seq![data],
            final(self).data.column(attribute@).flags() == seq![true],
            old(self).data.has_key(attribute@) ==> final(self).data.key_seq() == old(self).data.key_seq(),
            !old(self).data.has_key(attribute@) ==> final(self).data.key_seq() == old(self).data.key_seq().push(attribute@),
            forall|k: Seq<char>| k != attribute@ && #[trigger] old(self).data.has_key(k)
                ==> final(self).data.has_key(k) && final(self).data.column(k) == old(self).data.column(k),
    {
        let mut v: Vec<T> = Vec::new();
        v.push(data);
        assert(v@[0] == data);
        let ghost vv = v@;
        let d = DirtyVec::from_vec(v);
        assert(vv[0] == data);
        assert(vv.len() == 1);
        assert(d@.len() == 1);
        assert(d@[0].value() == vv[0]);
        assert(d@[0].dirty() && d@[0].value() == data);
        assert(d.flags()[0]);
        let col = DynVec::Dirty(d);
        proof {
            assert(col.values() =~= seq![data]);
            assert(col.flags() =~= seq![true]);
        }
        self.set_attribute_vec(attribute, col);
    }

    /// Add an attribute's value to this template.
    pub fn with_attribute(self, attribute: &str, data: T) -> (t: Self)
        requires
            self.wf(),
        ensures
            t.wf(),
            t.data.has_key(attribute@),
            t.data.column(attribute@).kind() == VecKind::Dirty,
            t.data.column(attribute@).values() == seq![data],
            t.data.column(attribute@).flags() == seq![true],
            forall|k: Seq<char>| k != attribute@ && #[trigger] self.data.has_key(k)
                ==> t.data.has_key(k) && t.data.column(k) == self.data.column(k),
    {
        let mut t = self;
        t.set_attribute(attribute, data);
        t
    }

    /// Add a transform value to this template.
    pub fn with_transform(self, transform: T) -> (t: Self)
        requires
            self.wf(),
        ensures
            t.wf(),
            t.data.has_key(TRANSFORM@),
            t.data.column(TRANSFORM@).kind() == VecKind::Dirty,
            t.data.column(TRANSFORM@).values() == seq![transform],
            t.data.column(TRANSFORM@).flags() == seq![true],
            forall|k: Seq<char>| k != TRANSFORM@ && #[trigger] self.data.has_key(k)
                ==> t.data.has_key(k) && t.data.column(k) == self.data.column(k),
    {
        self.with_attribute(TRANSFORM, transform)
    }

    /// Set the transform value of this template.
    pub fn set_transform(&mut self, transform: T)
        requires
            old(self).wf(),
        ensures
            final(self).wf(),
            final(self).data.has_key(TRANSFORM@),
            final(self).data.column(TRANSFORM@).kind() == VecKind::Dirty,
            final(self).data.column(TRANSFORM@).values() == seq![transform],
            final(self).data.column(TRANSFORM@).flags() == seq![true],
            old(self).data.has_key(TRANSFORM@) ==> final(self).data.key_seq() == old(self).data.key_seq(),
            !old(self).data.has_key(TRANSFORM@) ==> final(self).data.key_seq() == old(self).data.key_seq().push(TRANSFORM@),
            forall|k: Seq<char>| k != TRANSFORM@ && #[trigger] old(self).data.has_key(k)
                ==> final(self).data.has_key(k) && final(self).data.column(k) == old(self).data.column(k),
    {
        self.set_attribute(TRANSFORM, transform);
    }

    /// Set a known attribute's data to a column on this template.
    pub fn set_attribute_vec(&mut self, attribute: &str, vec: DynVec<T>)
        requires
            old(self).wf(),
        ensures
            final(self).wf(),
            final(self).data.has_key(attribute@),
            final(self).data.column(attribute@) == vec,
            old(self).data.has_key(attribute@) ==> final(self).data.key_seq() == old(self).data.key_seq(),
            !old(self).data.has_key(attribute@) ==> final(self).data.key_seq() == old(self).data.key_seq().push(attribute@),
            forall|k: Seq<char>| k != attribute@ && #[trigger] old(self).data.has_key(k)
                ==> final(self).data.has_key(k) && final(self).data.column(k) == old(self).data.column(k),
    {
        let ghost old_data = self.data;
        self.data.insert_property(attribute, vec);
        proof {
            assert forall|k: Seq<char>| k != attribute@ && #[trigger] old_data.has_key(k)
                implies self.data.has_key(k) && self.data.column(k) == old_data.column(k) by {
                let j = old_data.key_index(k);
                old_data.lemma_key_index(j);
                if old_data.has_key(attribute@) {
                    assert(self.data.key_seq()[j] == k);
                    self.data.lemma_key_index(j);
                } else {
                    assert(self.data.key_seq()[j] == k);
                    self.data.lemma_key_index(j);
                }
            }
        }
    }
}

/// `b` is a copy of column `a`: the same kind and length, each value a clone,
/// every dirty-tracked value dirty.
pub open spec fn copied_column<T: Clone>(a: DynVec<T>, b: DynVec<T>) -> bool {
    &&& b.kind() == a.kind()
    &&& b.spec_len() == a.spec_len()
    &&& forall|i: int| 0 <= i < a.spec_len() ==> cloned::<T>(a.values()[i], #[trigger] b.values()[i])
    &&& b.kind() == VecKind::Dirty ==> forall|i: int| 0 <= i < a.spec_len() ==> #[trigger] b.flags()[i]
}

impl<T: Clone> InstanceTemplate<T> {
    /// A copy of this template: the same attributes, in the same order, each
    /// holding clones of the values.
    pub fn duplicate(&self) -> (t: Self)
        requires
            self.wf(),
        ensures
            t.wf(),
            t.data.key_seq() == self.data.key_seq(),
            forall|j: int| 0 <= j < self.data.column_seq().len()
                ==> copied_column(self.data.column_seq()[j], #[trigger] t.data.column_seq()[j]),
    {
        let mut data: DataTable<T> = DataTable::new(self.data.capacity());
        let n = self.data.num_properties();
        let mut i: usize = 0;
        while i < n
            invariant
                self.data.wf(),
                n == self.data.key_seq().len(),
                i <= n,
                data.wf(),
                data.key_seq() == self.data.key_seq().take(i as int),
                data.column_seq().len() == i,
                forall|j: int| 0 <= j < i ==> copied_column(self.data.column_seq()[j], #[trigger] data.column_seq()[j]),
            decreases n - i,
        {
            let key = self.data.key_at(i);
            let column = self.data.column_at(i).clone_box();
            proof {
                if data.has_key(key@) {
                    let j = data.key_index(key@);
                    data.lemma_found(key@);
                    assert(self.data.key_seq()[j] == self.data.key_seq()[i as int]);
                }
                assert(self.data.key_seq().take(i + 1) =~= self.data.key_seq().take(i as int).push(key@));
            }
            data.insert_property(key.as_str(), column);
            i = i + 1;
        }
        assert(self.data.key_seq().take(n as int) =~= self.data.key_seq());
        InstanceTemplate { data }
    }
}

impl<T: Default> InstanceTemplate<T> {
    /// Add a default value to every attribute of the template.
    pub fn with_defaults(self) -> (t: Self)
        requires
            self.wf(),
        ensures
            t.wf(),
            t.data.key_seq() == self.data.key_seq(),
            t.data.column_seq().len() == self.data.column_seq().len(),
            forall|j: int| 0 <= j < self.data.column_seq().len() ==> {
                let before = self.data.column_seq()[j];
                let after = #[trigger] t.data.column_seq()[j];
                &&& after.kind() == before.kind()
                &&& after.values().drop_last() == before.values()
                &&& after.spec_len() == before.spec_len() + 1
                &&& is_default(after.values().last())
            },
    {
        let mut t = self;
        let n = t.data.num_properties();
        let mut j: usize = 0;
        while j < n
            invariant
                t.wf(),
                n == self.data.key_seq().len(),
                j <= n,
                t.data.key_seq() == self.data.key_seq(),
                t.data.column_seq().len() == self.data.column_seq().len(),
                forall|k: int| 0 <= k < j ==> {
                    let before = self.data.column_seq()[k];
                    let after = #[trigger] t.data.column_seq()[k];
                    &&& after.kind() == before.kind()
                    &&& after.values().drop_last() == before.values()
                    &&& after.spec_len() == before.spec_len() + 1
                    &&& is_default(after.values().last())
                },
                forall|k: int| j <= k < n ==> #[trigger] t.data.column_seq()[k] == self.data.column_seq()[k],
            decreases n - j,
        {
            t.data.column_at_mut(j).push_default();
            j = j + 1;
        }
        t
    }
}

/// Represents a read-only proxy to one instance (one row) of an instance table.
pub struct Instance<'a, T> {
    pub index: usize,
    pub data: &'a DataTable<T>,
}

impl<'a, T> Instance<'a, T> {
    /// A proxy to the row `index` of `data`.
    pub fn new(data: &'a DataTable<T>, index: usize) -> (i: Self)
        ensures
            i.index == index,
            *i.data == *data,
    {
        Instance { index, data }
    }

    /// Get the properties (known attribute names) of this instance.
    pub fn properties(&self) -> (r: Vec<String>)
        requires
            self.data.wf(),
        ensures
            r@.map_values(|k: String| k@) == self.data.key_seq(),
    {
        self.data.keys()
    }

    /// Get a reference to an attribute value of this instance, if the attribute
    /// is a dirty-tracked column that has a row for this instance.
    pub fn get_attribute(&self, attribute: &str) -> (r: Option<&'a DataView<T>>)
        requires
            self.data.wf(),
        ensures
            match r {
                Some(v) => {
                    let c = self.data.column(attribute@);
                    &&& self.data.has_column(attribute@, VecKind::Dirty)
                    &&& c matches DynVec::Dirty(d) && self.index < d@.len() && *v == d@[self.index as int]
                },
                None => !self.data.has_column(attribute@, VecKind::Dirty)
                    || self.index >= self.data.column(attribute@).spec_len(),
            },
    {
        get_row(self.data, attribute, self.index)
    }

    /// Get a reference to this instance's transform, if it has one.
    pub fn get_transform(&self) -> (r: Option<&'a DataView<T>>)
        requires
            self.data.wf(),
        ensures
            match r {
                Some(v) => {
                    let c = self.data.column(TRANSFORM@);
                    &&& self.data.has_column(TRANSFORM@, VecKind::Dirty)
                    &&& c matches DynVec::Dirty(d) && self.index < d@.len() && *v == d@[self.index as int]
                },
                None => !self.data.has_column(TRANSFORM@, VecKind::Dirty)
                    || self.index >= self.data.column(TRANSFORM@).spec_len(),
            },
    {
        get_row(self.data, TRANSFORM, self.index)
    }

    /// Get a reference to this instance's transform, which it must have.
    pub fn transform(&self) -> (v: &'a DataView<T>)
        requires
            self.data.wf(),
            self.data.has_column(TRANSFORM@, VecKind::Dirty),
            self.index < self.data.column(TRANSFORM@).spec_len(),
        ensures
            self.data.column(TRANSFORM@) matches DynVec::Dirty(d) && *v == d@[self.index as int],
    {
        get_row(self.data, TRANSFORM, self.index).unwrap()
    }
}

/// The row `index` of the dirty-tracked column stored under `attribute`, if any.
fn get_row<'a, T>(data: &'a DataTable<T>, attribute: &str, index: usize) -> (r: Option<&'a DataView<T>>)
    requires
        data.wf(),
    ensures
        match r {
            Some(v) => {
                let c = data.column(attribute@);
                &&& data.has_column(attribute@, VecKind::Dirty)
                &&& c matches DynVec::Dirty(d) && index < d@.len() && *v == d@[index as int]
            },
            None => !data.has_column(attribute@, VecKind::Dirty)
                || index >= data.column(attribute@).spec_len(),
        },
{
    match data.get_property(attribute, VecKind::Dirty) {
        Some(col) => {
            match col {
                DynVec::Dirty(d) => d.get(index),
                DynVec::Plain(_) => None,
            }
        },
        None => None,
    }
}

/// `after` is `before` with the row `index` of the dirty-tracked column under
/// `key`, which held `v`, now holding `w`; every other column is unchanged.
pub open spec fn row_written<T>(before: DataTable<T>, after: DataTable<T>, key: Seq<char>, index: int, v: DataView<T>, w: DataView<T>) -> bool {
    let i = before.key_index(key);
    &&& before.has_column(key, VecKind::Dirty)
    &&& before.column(key) matches DynVec::Dirty(d0) && 0 <= index < d0@.len() && v == d0@[index]
        && (after.column_seq()[i] matches DynVec::Dirty(d1) && d1@ == d0@.update(index, w))
    &&& after.column_seq().len() == before.column_seq().len()
    &&& forall|j: int| 0 <= j < before.column_seq().len() && j != i
        ==> #[trigger] after.column_seq()[j] == before.column_seq()[j]
}

/// Represents a mutable proxy to one instance (one row) of an instance table.
pub struct InstanceMut<'a, T> {
    pub index: usize,
    pub data: &'a mut DataTable<T>,
}

impl<'a, T> InstanceMut<'a, T> {
    /// A mutable proxy to the row `index` of `data`.
    pub fn new(data: &'a mut DataTable<T>, index: usize) -> (i: Self)
        ensures
            i.index == index,
            *i.data == *old(data),
            *final(i.data) == *final(data),
    {
        InstanceMut { index, data }
    }

    /// Get the properties (known attribute names) of this instance.
    pub fn properties(&self) -> (r: Vec<String>)
        requires
            old(self.data).wf(),
        ensures
            r@.map_values(|k: String| k@) == old(self.data).key_seq(),
    {
        self.data.keys()
    }

    /// Get a reference to an attribute value of this instance, if the attribute
    /// is a dirty-tracked column that has a row for this instance.
    pub fn get_attribute(&self, attribute: &str) -> (r: Option<&DataView<T>>)
        requires
            old(self.data).wf(),
        ensures
            match r {
                Some(v) => {
                    let c = old(self.data).column(attribute@);
                    &&& old(self.data).has_column(attribute@, VecKind::Dirty)
                    &&& c matches DynVec::Dirty(d) && self.index < d@.len() && *v == d@[self.index as int]
                },
                None => !old(self.data).has_column(attribute@, VecKind::Dirty)
                    || self.index >= old(self.data).column(attribute@).spec_len(),
            },
    {
        get_row(self.data, attribute, self.index)
    }

    /// Get a reference to this instance's transform, if it has one.
    pub fn get_transform(&self) -> (r: Option<&DataView<T>>)
        requires
            old(self.data).wf(),
        ensures
            match r {
                Some(v) => {
                    let c = old(self.data).column(TRANSFORM@);
                    &&& old(self.data).has_column(TRANSFORM@, VecKind::Dirty)
                    &&& c matches DynVec::Dirty(d) && self.index < d@.len() && *v == d@[self.index as int]
                },
                None => !old(self.data).has_column(TRANSFORM@, VecKind::Dirty)
                    || self.index >= old(self.data).column(TRANSFORM@).spec_len(),
            },
    {
        get_row(self.data, TRANSFORM, self.index)
    }

    /// Get a reference to this instance's transform, which it must have.
    pub fn transform(&self) -> (v: &DataView<T>)
        requires
            old(self.data).wf(),
            old(self.data).has_column(TRANSFORM@, VecKind::Dirty),
            self.index < old(self.data).column(TRANSFORM@).spec_len(),
        ensures
            old(self.data).column(TRANSFORM@) matches DynVec::Dirty(d) && *v == d@[self.index as int],
    {
        get_row(self.data, TRANSFORM, self.index).unwrap()
    }

    /// Get a mutable reference to an attribute value of this instance, if the
    /// attribute is a dirty-tracked column that has a row for this instance;
    /// what is written through it lands in that row.
    pub fn get_attribute_mut(&mut self, attribute: &str) -> (r: Option<&mut DataView<T>>)
        requires
            old(self).data.wf(),
        ensures
            final(self).index == old(self).index,
            *final(final(self).data) == *final(old(self).data),
            final(self).data.key_seq() == old(self).data.key_seq(),
            final(self).data.spec_capacity() == old(self).data.spec_capacity(),
            match r {
                Some(v) => row_written(*old(self).data, *final(self).data, attribute@, old(self).index as int, *v, *final(v)),
                None => {
                    &&& !old(self).data.has_column(attribute@, VecKind::Dirty)
                        || old(self).index >= old(self).data.column(attribute@).spec_len()
                    &&& final(self).data.column_seq() == old(self).data.column_seq()
                },
            },
    {
        let index = self.index;
        proof {
            if self.data.has_key(attribute@) {
                self.data.lemma_found(attribute@);
            }
        }
        match self.data.get_property_mut(attribute, VecKind::Dirty) {
            Some(col) => {
                match col {
                    DynVec::Dirty(d) => d.get_mut(index),
                    DynVec::Plain(_) => None,
                }
            },
            None => None,
        }
    }

    /// Get a mutable reference to this instance's transform, if it has one.
    pub fn get_transform_mut(&mut self) -> (r: Option<&mut DataView<T>>)
        requires
            old(self).data.wf(),
        ensures
            final(self).index == old(self).index,
            *final(final(self).data) == *final(old(self).data),
            final(self).data.key_seq() == old(self).data.key_seq(),
            final(self).data.spec_capacity() == old(self).data.spec_capacity(),
            match r {
                Some(v) => row_written(*old(self).data, *final(self).data, TRANSFORM@, old(self).index as int, *v, *final(v)),
                None => {
                    &&& !old(self).data.has_column(TRANSFORM@, VecKind::Dirty)
                        || old(self).index >= old(self).data.column(TRANSFORM@).spec_len()
                    &&& final(self).data.column_seq() == old(self).data.column_seq()
                },
            },
    {
        self.get_attribute_mut(TRANSFORM)
    }

    /// Get a mutable reference to this instance's transform, which it must have.
    pub fn transform_mut(&mut self) -> (v: &mut DataView<T>)
        requires
            old(self).data.wf(),
            old(self).data.has_column(TRANSFORM@, VecKind::Dirty),
            old(self).index < old(self).data.column(TRANSFORM@).spec_len(),
        ensures
            final(self).index == old(self).index,
            *final(final(self).data) == *final(old(self).data),
            final(self).data.key_seq() == old(self).data.key_seq(),
            final(self).data.spec_capacity() == old(self).data.spec_capacity(),
            row_written(*old(self).data, *final(self).data, TRANSFORM@, old(self).index as int, *v, *final(v)),
    {
        self.get_attribute_mut(TRANSFORM).unwrap()
    }

    /// Set an attribute value of this instance, marking it dirty. Returns false,
    /// and changes nothing, when the attribute is not a dirty-tracked column
    /// with a row for this instance.
    pub fn set_attribute(&mut self, attribute: &str, value: T) -> (ok: bool)
        requires
            old(self).data.wf(),
        ensures
            final(self).index == old(self).index,
            *final(final(self).data) == *final(old(self).data),
            final(self).data.wf(),
            final(self).data.key_seq() == old(self).data.key_seq(),
            final(self).data.spec_capacity() == old(self).data.spec_capacity(),
            ok == (old(self).data.has_column(attribute@, VecKind::Dirty)
                && old(self).index < old(self).data.column(attribute@).spec_len()),
            !ok ==> final(self).data.column_seq() == old(self).data.column_seq(),
            ok ==> {
                let i = old(self).data.key_index(attribute@);
                &&& final(self).data.column_seq().len() == old(self).data.column_seq().len()
                &&& forall|j: int| 0 <= j < old(self).data.column_seq().len() && j != i
                    ==> #[trigger] final(self).data.column_seq()[j] == old(self).data.column_seq()[j]
                &&& old(self).data.column(attribute@) matches DynVec::Dirty(d0)
                    && final(self).data.column(attribute@) matches DynVec::Dirty(d1)
                    && d1@ == d0@.update(old(self).index as int, DataView::spec_make(value, true))
            },
    {
        let index = self.index;
        match self.data.get_property_mut(attribute, VecKind::Dirty) {
            Some(col) => {
                match col {
                    DynVec::Dirty(d) => {
                        if index < d.len() {
                            d.set(index, value);
                            true
                        } else {
                            false
                        }
                    },
                    DynVec::Plain(_) => false,
                }
            },
            None => false,
        }
    }
}


/// Represents the instances of an entity: a table of per-instance attributes,
/// the number of live instances, and the layout of the instance buffer.
pub struct InstanceGroup<T> {
    label: String,
    instances: DataTable<T>,
    count: usize,
    attributes: VertexAttributeLayout,
}

impl<T> InstanceGroup<T> {
    /// The label of the group.
    pub closed spec fn spec_label(&self) -> Seq<char> {
        self.label@
    }

    /// The table of instance attributes.
    pub closed spec fn table(&self) -> DataTable<T> {
        self.instances
    }

    /// The number of live instances.
    pub closed spec fn spec_count(&self) -> usize {
        self.count
    }

    /// The layout of the instance buffer.
    pub closed spec fn layout(&self) -> VertexAttributeLayout {
        self.attributes
    }

    /// The table and the layout are well formed.
    pub open spec fn wf(&self) -> bool {
        self.table().wf() && self.layout().wf()
    }

    /// Create a new instance group with `init_count` instances and room for `capacity`.
    ///
    /// The attributes added afterwards are expected to hold at least `init_count` values.
    pub fn new(init_count: usize, capacity: usize) -> (g: Self)
        ensures
            g.wf(),
            g.spec_label() == "instances"@,
            g.spec_count() == init_count,
            g.table().key_seq().len() == 0,
            g.table().spec_capacity() == capacity,
            g.layout().attribute_seq().len() == 0,
            g.layout().spec_step_mode() == crate::layout::VertexStepMode::Instance,
    {
        InstanceGroup {
            label: owned("instances"),
            instances: DataTable::new(capacity),
            attributes: VertexAttributeLayout::as_instance(),
            count: init_count,
        }
    }

    /// Set the label for this instance group.
    pub fn with_label(self, label: &str) -> (g: Self)
        ensures
            g.spec_label() == label@,
            g.table() == self.table(),
            g.spec_count() == self.spec_count(),
            g.layout() == self.layout(),
    {
        InstanceGroup { label: owned(label), ..self }
    }

    /// Get the label of this instance group.
    pub fn get_label(&self) -> (l: String)
        ensures
            l@ == self.spec_label(),
    {
        self.label.clone()
    }

    /// Get the current number of instances in the group.
    pub fn count(&self) -> (n: usize)
        ensures
            n == self.spec_count(),
    {
        self.count
    }

    /// Add an attribute to the instance group, with its values for the
    /// instances, all dirty. When the table already holds a property under the
    /// attribute's name, the table keeps it; the layout gains the attribute either way.
    pub fn add_attribute(&mut self, attribute: AttributeSpec, data: Vec<T>)
        requires
            old(self).wf(),
            old(self).layout().spec_stride() + attr_bytes(attribute) <= usize::MAX,
        ensures
            final(self).wf(),
            final(self).spec_label() == old(self).spec_label(),
            final(self).spec_count() == old(self).spec_count(),
            final(self).table().spec_capacity() == old(self).table().spec_capacity(),
            final(self).layout().attribute_seq() == old(self).layout().attribute_seq().push(attribute),
            final(self).layout().spec_step_mode() == old(self).layout().spec_step_mode(),
            old(self).table().has_key(attribute.name@) ==> final(self).table().key_seq() == old(self).table().key_seq()
                && final(self).table().column_seq() == old(self).table().column_seq(),
            !old(self).table().has_key(attribute.name@) ==> {
                let c = final(self).table().column_seq().last();
                &&& final(self).table().key_seq() == old(self).table().key_seq().push(attribute.name@)
                &&& final(self).table().column_seq().drop_last() == old(self).table().column_seq()
                &&& c.kind() == VecKind::Dirty
                &&& c.values() == data@
                &&& forall|i: int| 0 <= i < c.spec_len() ==> #[trigger] c.flags()[i]
            },
    {
        let ghost dv = data@;
        let make = move |cap: usize| -> (c: DynVec<T>)
            ensures
                c.kind() == VecKind::Dirty,
                c.values() == dv,
                forall|i: int| 0 <= i < c.spec_len() ==> #[trigger] c.flags()[i],
        {
            let mut d = DirtyVec::with_capacity(cap);
            let ghost before = d@;
            d.append(data);
            proof {
                assert forall|i: int| 0 <= i < dv.len() implies #[trigger] d@[i].value() == dv[i] && d@[i].dirty() by {
                    assert(d@[before.len() + i] == d@[i]);
                }
                assert(d.values() =~= dv);
                assert forall|i: int| 0 <= i < d@.len() implies #[trigger] d.flags()[i] by {
                    assert(d@[before.len() + i].value() == dv[i]);
                    assert(d@[before.len() + i] == d@[i]);
                    assert(d@[i].dirty());
                }
            }
            DynVec::Dirty(d)
        };
        self.instances.add_property(attribute.name.as_str(), make);
        self.attributes.add_attribute(attribute);
    }

    /// Add an attribute to the instance group, with its values for the instances.
    pub fn with_attribute(self, attribute: AttributeSpec, data: Vec<T>) -> (g: Self)
        requires
            self.wf(),
            self.layout().spec_stride() + attr_bytes(attribute) <= usize::MAX,
        ensures
            g.wf(),
            g.spec_label() == self.spec_label(),
            g.spec_count() == self.spec_count(),
            g.table().spec_capacity() == self.table().spec_capacity(),
            g.layout().attribute_seq() == self.layout().attribute_seq().push(attribute),
            self.table().has_key(attribute.name@) ==> g.table().key_seq() == self.table().key_seq()
                && g.table().column_seq() == self.table().column_seq(),
            !self.table().has_key(attribute.name@) ==> {
                let c = g.table().column_seq().last();
                &&& g.table().key_seq() == self.table().key_seq().push(attribute.name@)
                &&& g.table().column_seq().drop_last() == self.table().column_seq()
                &&& c.kind() == VecKind::Dirty
                &&& c.values() == data@
            },
    {
        let mut g = self;
        g.add_attribute(attribute, data);
        g
    }

    /// Get an instance in the group at the specified index, if exists.
    pub fn get_instance(&self, index: usize) -> (r: Option<Instance<'_, T>>)
        ensures
            index >= self.spec_count() ==> r is None,
            index < self.spec_count() ==> (r matches Some(i) && i.index == index && *i.data == self.table()),
    {
        if index >= self.count {
            return None;
        }
        Some(Instance::new(&self.instances, index))
    }

    /// Get a mutable proxy to the instance at the specified index, if exists;
    /// what is written through it lands in the group's table.
    pub fn get_instance_mut(&mut self, index: usize) -> (r: Option<InstanceMut<'_, T>>)
        ensures
            final(self).spec_label() == old(self).spec_label(),
            final(self).spec_count() == old(self).spec_count(),
            final(self).layout() == old(self).layout(),
            match r {
                Some(i) => {
                    &&& index < old(self).spec_count()
                    &&& i.index == index
                    &&& *i.data == old(self).table()
                    &&& final(self).table() == *final(i.data)
                },
                None => index >= old(self).spec_count() && final(self).table() == old(self).table(),
            },
    {
        if index >= self.count {
            return None;
        }
        Some(InstanceMut::new(&mut self.instances, index))
    }

    /// Remove the instance at `idx` from the group: every column swap-removes
    /// its row `idx`, and the row moved into its place is marked dirty. An index
    /// at or past the number of instances changes nothing.
    pub fn remove_instance(&mut self, idx: usize)
        requires
            old(self).wf(),
            idx < old(self).spec_count() ==> forall|j: int| 0 <= j < old(self).table().column_seq().len()
                && #[trigger] old(self).table().column_seq()[j].kind() == VecKind::Plain
                ==> idx < old(self).table().column_seq()[j].spec_len(),
        ensures
            final(self).wf(),
            final(self).spec_label() == old(self).spec_label(),
            final(self).layout() == old(self).layout(),
            final(self).table().spec_capacity() == old(self).table().spec_capacity(),
            final(self).table().key_seq() == old(self).table().key_seq(),
            idx >= old(self).spec_count() ==> final(self).table() == old(self).table()
                && final(self).spec_count() == old(self).spec_count(),
            idx < old(self).spec_count() ==> {
                &&& final(self).spec_count() == old(self).spec_count() - 1
                &&& final(self).table().column_seq().len() == old(self).table().column_seq().len()
                &&& forall|j: int| 0 <= j < old(self).table().column_seq().len() ==> DynVec::swap_removed(
                    old(self).table().column_seq()[j], #[trigger] final(self).table().column_seq()[j], idx as int)
            },
    {
        if idx >= self.count {
            return;
        }
        self.instances.swap_remove(idx);
        self.count = self.count - 1;
    }

    /// Remove all instances from the group, keeping their attributes.
    pub fn clear_instances(&mut self)
        requires
            old(self).wf(),
        ensures
            final(self).wf(),
            final(self).spec_label() == old(self).spec_label(),
            final(self).layout() == old(self).layout(),
            final(self).spec_count() == 0,
            old(self).spec_count() == 0 ==> final(self).table() == old(self).table(),
            old(self).spec_count() != 0 ==> {
                &&& final(self).table().key_seq() == old(self).table().key_seq()
                &&& final(self).table().spec_capacity() == old(self).table().spec_capacity()
                &&& final(self).table().column_seq().len() == old(self).table().column_seq().len()
                &&& forall|j: int| 0 <= j < old(self).table().column_seq().len() ==> {
                    &&& (#[trigger] final(self).table().column_seq()[j]).kind() == old(self).table().column_seq()[j].kind()
                    &&& final(self).table().column_seq()[j].spec_len() == 0
                }
            },
    {
        if self.count == 0 {
            return;
        }
        self.instances.reset_properties();
        self.count = 0;
    }

    /// Get the dirty-tracked column of the given attribute, if exists.
    pub fn get_attribute(&self, attribute: &str) -> (r: Option<&DirtyVec<T>>)
        requires
            self.wf(),
        ensures
            match r {
                Some(d) => self.table().has_column(attribute@, VecKind::Dirty)
                    && self.table().column(attribute@) == DynVec::Dirty(*d),
                None => !self.table().has_column(attribute@, VecKind::Dirty),
            },
    {
        match self.instances.get_property(attribute, VecKind::Dirty) {
            Some(col) => col.as_dirty_tracker(),
            None => None,
        }
    }

    /// Get a mutable reference to the dirty-tracked column of the given
    /// attribute, if exists; what is written through it lands in the table.
    pub fn get_attribute_mut(&mut self, attribute: &str) -> (r: Option<&mut DirtyVec<T>>)
        requires
            old(self).wf(),
        ensures
            final(self).spec_label() == old(self).spec_label(),
            final(self).spec_count() == old(self).spec_count(),
            final(self).layout() == old(self).layout(),
            final(self).table().key_seq() == old(self).table().key_seq(),
            final(self).table().spec_capacity() == old(self).table().spec_capacity(),
            match r {
                Some(d) => {
                    &&& old(self).table().has_column(attribute@, VecKind::Dirty)
                    &&& old(self).table().column(attribute@) == DynVec::Dirty(*d)
                    &&& final(self).table().column_seq() == old(self).table().column_seq().update(
                        old(self).table().key_index(attribute@), DynVec::Dirty(*final(d)))
                },
                None => !old(self).table().has_column(attribute@, VecKind::Dirty)
                    && final(self).table().column_seq() == old(self).table().column_seq(),
            },
    {
        match self.instances.get_property_mut(attribute, VecKind::Dirty) {
            Some(col) => {
                match col {
                    DynVec::Dirty(d) => Some(d),
                    DynVec::Plain(_) => None,
                }
            },
            None => None,
        }
    }

    /// Get a reference to the instance data table of this group.
    pub fn get_instances(&self) -> (t: &DataTable<T>)
        ensures
            *t == self.table(),
    {
        &self.instances
    }

    /// Get a mutable reference to the instance data table of this group.
    pub fn get_instances_mut(&mut self) -> (t: &mut DataTable<T>)
        ensures
            *t == old(self).table(),
            final(self).table() == *final(t),
            final(self).spec_label() == old(self).spec_label(),
            final(self).spec_count() == old(self).spec_count(),
            final(self).layout() == old(self).layout(),
    {
        &mut self.instances
    }

    /// The names of the attributes in the instance layout, in order.
    pub fn attribute_names(&self) -> (r: Vec<String>)
        ensures
            r@.len() == self.layout().attribute_seq().len(),
            forall|i: int| 0 <= i < r@.len() ==> #[trigger] r@[i]@ == self.layout().attribute_seq()[i].name@,
    {
        self.attributes.attribute_names()
    }

    /// Get the vertex layout builder of the instance buffer.
    pub fn get_layout_builder(&self) -> (b: VertexLayoutBuilder)
        requires
            self.wf(),
            self.layout().base_location() + total_locations(self.layout().attribute_seq()) <= u32::MAX,
        ensures
            b.label@ == self.spec_label(),
            b.step_mode == self.layout().spec_step_mode(),
            b.attributes@ == layout_entries(self.layout().attribute_seq(), self.layout().base_location()),
            b.curr_offset == self.layout().spec_stride(),
    {
        self.attributes.get_builder(self.label.as_str())
    }

    /// Get the builder for the instance buffer of this group, given the packed
    /// bytes of the instances: a vertex buffer labelled with the group's label,
    /// with room for `capacity` instances of the layout's stride.
    pub fn get_buffer_builder(&self, instance_bytes: Vec<u8>) -> (b: BufferBuilder)
        requires
            self.wf(),
            self.table().spec_capacity() * self.layout().spec_stride() <= usize::MAX,
        ensures
            b.spec_label() == self.spec_label(),
            b.spec_usage() == crate::buffer::BufferType::Vertex,
            b.spec_capacity() == self.table().spec_capacity() * self.layout().spec_stride(),
            b.spec_data() == instance_bytes@,
    {
        let buffer_cap = self.instances.capacity() * self.attributes.stride();
        BufferBuilder::as_vertex()
            .with_label(self.label.as_str())
            .with_capacity(buffer_cap)
            .with_data(instance_bytes)
    }
}


/// `after` is `before` extended for a new instance from `template`: with a
/// clone of the template's values for that key when the template has one,
/// and with a default value otherwise. Values appended to a dirty-tracked
/// column start dirty.
pub open spec fn extended_from_template<T: Default + Clone>(before: DynVec<T>, after: DynVec<T>, template: DataTable<T>, key: Seq<char>) -> bool {
    &&& after.kind() == before.kind()
    &&& if template.has_key(key) {
        let src = template.column(key);
        &&& after.spec_len() == before.spec_len() + src.spec_len()
        &&& forall|i: int| 0 <= i < before.spec_len() ==> #[trigger] after.values()[i] == before.values()[i]
        &&& forall|i: int| 0 <= i < src.spec_len() ==>
            cloned::<T>(src.values()[i], #[trigger] after.values()[before.spec_len() + i])
    } else {
        &&& after.spec_len() == before.spec_len() + 1
        &&& after.values().drop_last() == before.values()
        &&& is_default(after.values().last())
    }
}

impl<T: Default + Clone> InstanceGroup<T> {
    /// Add an instance to the group from a template: each column of the group
    /// takes the template's values under its key, or a default value when the
    /// template has none. Columns must be of the same kind as the template's.
    pub fn add_instance(&mut self, instance: InstanceTemplate<T>)
        requires
            old(self).wf(),
            instance.wf(),
            old(self).spec_count() < usize::MAX,
            forall|j: int| 0 <= j < old(self).table().key_seq().len()
                && #[trigger] instance.data.has_key(old(self).table().key_seq()[j])
                ==> instance.data.column(old(self).table().key_seq()[j]).kind() == old(self).table().column_seq()[j].kind(),
        ensures
            final(self).wf(),
            final(self).spec_label() == old(self).spec_label(),
            final(self).layout() == old(self).layout(),
            final(self).spec_count() == old(self).spec_count() + 1,
            final(self).table().key_seq() == old(self).table().key_seq(),
            final(self).table().spec_capacity() == old(self).table().spec_capacity(),
            final(self).table().column_seq().len() == old(self).table().column_seq().len(),
            forall|j: int| 0 <= j < old(self).table().column_seq().len() ==> extended_from_template(
                old(self).table().column_seq()[j], #[trigger] final(self).table().column_seq()[j],
                instance.data, old(self).table().key_seq()[j]),
    {
        let n = self.instances.num_properties();
        let ghost t0 = self.instances;
        let mut j: usize = 0;
        while j < n
            invariant
                self.instances.wf(),
                self.attributes == old(self).attributes,
                self.label == old(self).label,
                self.count == old(self).count,
                instance.wf(),
                t0 == old(self).instances,
                n == t0.key_seq().len(),
                j <= n,
                self.instances.key_seq() == t0.key_seq(),
                self.instances.spec_capacity() == t0.spec_capacity(),
                self.instances.column_seq().len() == t0.column_seq().len(),
                forall|k: int| 0 <= k < n && #[trigger] instance.data.has_key(t0.key_seq()[k])
                    ==> instance.data.column(t0.key_seq()[k]).kind() == t0.column_seq()[k].kind(),
                forall|k: int| 0 <= k < j ==> extended_from_template(
                    t0.column_seq()[k], #[trigger] self.instances.column_seq()[k], instance.data, t0.key_seq()[k]),
                forall|k: int| j <= k < n ==> #[trigger] self.instances.column_seq()[k] == t0.column_seq()[k],
            decreases n - j,
        {
            let name = self.instances.key_at(j).clone();
            let ghost key = t0.key_seq()[j as int];
            assert(self.instances.column_seq()[j as int] == t0.column_seq()[j as int]);
            match instance.data.get_column(name.as_str()) {
                Some(src) => {
                    assert(instance.data.has_key(t0.key_seq()[j as int]));
                    let col = self.instances.column_at_mut(j);
                    col.append_from(src);
                },
                None => {
                    let col = self.instances.column_at_mut(j);
                    col.push_default();
                },
            }
            j = j + 1;
        }
        self.count = self.count + 1;
    }
}

impl<T> InstanceGroup<T> {
    /// Get all updates of the instance data: for each maximal run of
    /// consecutive dirty instances among the live ones, the bytes of their rows
    /// at the byte offset of the first of them. The instances are then clean.
    ///
    /// * 'rows' - the packed bytes of each instance
    pub fn get_updated(&mut self, rows: &Vec<Vec<u8>>) -> (updates: Vec<crate::packing::ResourceUpdate>)
        requires
            old(self).wf(),
            crate::packing::dirty_columns_cover(old(self).table(), old(self).spec_count() as int),
            old(self).spec_count() <= rows@.len(),
            old(self).spec_count() * old(self).layout().spec_stride() <= usize::MAX,
        ensures
            ({
                let names = old(self).layout().attribute_seq().map_values(|a: AttributeSpec| a.name@);
                let d = crate::packing::instance_flags(old(self).table(), names, old(self).spec_count() as int);
                &&& crate::packing::updates_match(updates@, crate::packing::dirty_runs(d), rows@,
                    old(self).layout().spec_stride() as int)
                &&& final(self).wf()
                &&& final(self).spec_label() == old(self).spec_label()
                &&& final(self).layout() == old(self).layout()
                &&& final(self).spec_count() == old(self).spec_count()
                &&& final(self).table().key_seq() == old(self).table().key_seq()
                &&& final(self).table().spec_capacity() == old(self).table().spec_capacity()
                &&& final(self).table().column_seq().len() == old(self).table().column_seq().len()
                &&& forall|j: int| 0 <= j < old(self).table().column_seq().len() ==> {
                    let before = old(self).table().column_seq()[j];
                    let after = #[trigger] final(self).table().column_seq()[j];
                    &&& after.kind() == before.kind()
                    &&& after.values() == before.values()
                    &&& before.kind() == VecKind::Dirty ==> after.flags() == Seq::new(before.flags().len(),
                        |i: int| if i < old(self).spec_count() && d[i] { false } else { before.flags()[i] })
                }
            }),
    {
        let names = self.attributes.attribute_names();
        proof {
            assert(names@.map_values(|k: String| k@) =~= self.attributes.attribute_seq().map_values(|a: AttributeSpec| a.name@));
        }
        crate::packing::collect_dirty_updates(&mut self.instances, &names, rows, self.count, self.attributes.stride())
    }
}

} // verus!
