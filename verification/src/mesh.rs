use vstd::prelude::*;
use std::sync::Arc;
use crate::bytes::{index_bytes, words_bytes};
use crate::ids::IdCounter;
use crate::text::{concat3, decimal, owned, u32_to_string};

verus! {

/// `Arc::clone`: another handle to the same shared value.
#[verifier::external_body]
pub(crate) fn arc_clone<A>(a: &Arc<A>) -> (r: Arc<A>)
    ensures
        *r == **a,
{
    Arc::clone(a)
}

/// Vertex and index data as it lives in cpu memory, with a unique id.
pub struct MeshData<V> {
    id: u32,
    label: String,
    vertex_data: Vec<V>,
    index_data: Vec<u32>,
}

impl<V> MeshData<V> {
    /// The id of this data.
    pub closed spec fn spec_id(&self) -> u32 {
        self.id
    }

    /// The label used for GPU profiling.
    pub closed spec fn spec_label(&self) -> Seq<char> {
        self.label@
    }

    /// The vertices.
    pub closed spec fn vertices(&self) -> Seq<V> {
        self.vertex_data@
    }

    /// The indices.
    pub closed spec fn indices(&self) -> Seq<u32> {
        self.index_data@
    }

    /// New mesh data, taking its id from `ids`. Its label is the literal text `{id}`.
    pub fn new(ids: &mut IdCounter, vertex_data: Vec<V>, index_data: Vec<u32>) -> (m: Self)
        ensures
            m.spec_id() == old(ids)@,
            final(ids)@ == (if old(ids)@ == u32::MAX { 0 } else { (old(ids)@ + 1) as u32 }),
            m.spec_label() == "{id}"@,
            m.vertices() == vertex_data@,
            m.indices() == index_data@,
    {
        let id = ids.next_id();
        MeshData { label: owned("{id}"), id, vertex_data, index_data }
    }

    /// Add a custom label to this mesh data for GPU profiling.
    pub fn with_label(self, label: &str) -> (m: Self)
        ensures
            m.spec_label() == label@,
            m.spec_id() == self.spec_id(),
            m.vertices() == self.vertices(),
            m.indices() == self.indices(),
    {
        MeshData { label: owned(label), ..self }
    }

    /// The id of this data.
    pub fn id(&self) -> (id: u32)
        ensures
            id == self.spec_id(),
    {
        self.id
    }

    /// The number of indices, as the gpu counts them (truncated to 32 bits).
    pub fn num_indices(&self) -> (n: u32)
        ensures
            n == self.indices().len() as u32,
    {
        self.index_data.len() as u32
    }

    /// The bytes of the index data, four per index, in the machine's byte order.
    pub fn index_bytes(&self) -> (b: Vec<u8>)
        ensures
            b@.len() == 4 * self.indices().len(),
            exists|little: bool| b@ == words_bytes(self.indices(), little),
    {
        index_bytes(self.index_data.as_slice())
    }

    /// The vertices.
    pub fn vertex_data(&self) -> (v: &Vec<V>)
        ensures
            v@ == self.vertices(),
    {
        &self.vertex_data
    }

    /// The label used for GPU profiling.
    pub fn label(&self) -> (l: &String)
        ensures
            l@ == self.spec_label(),
    {
        &self.label
    }
}

impl<V: Clone> MeshData<V> {
    /// A deep copy of this data, with a new id (and the label `{id}`).
    pub fn duplicate(&self, ids: &mut IdCounter) -> (m: Self)
        ensures
            m.spec_id() == old(ids)@,
            final(ids)@ == (if old(ids)@ == u32::MAX { 0 } else { (old(ids)@ + 1) as u32 }),
            m.spec_label() == "{id}"@,
            m.vertices().len() == self.vertices().len(),
            forall|i: int| 0 <= i < self.vertices().len() ==> cloned::<V>(self.vertices()[i], #[trigger] m.vertices()[i]),
            m.indices() == self.indices(),
    {
        let vertices = self.vertex_data.clone();
        let mut indices: Vec<u32> = Vec::new();
        let n = self.index_data.len();
        let mut i: usize = 0;
        while i < n
            invariant
                n == self.index_data@.len(),
                i <= n,
                indices@ == self.index_data@.subrange(0, i as int),
            decreases n - i,
        {
            indices.push(self.index_data[i]);
            i = i + 1;
            assert(indices@ =~= self.index_data@.subrange(0, i as int));
        }
        assert(indices@ =~= self.index_data@);
        MeshData::new(ids, vertices, indices)
    }
}

/// The key of a mesh: its label, its id and the id of its data, joined by `_`.
pub open spec fn mesh_key(label: Seq<char>, id: u32, data_id: u32) -> Seq<char> {
    label + "_"@ + decimal(id as nat) + "_"@ + decimal(data_id as nat)
}

/// A labelled handle to shared mesh data, with a unique id.
pub struct Mesh<V> {
    label: String,
    id: u32,
    data: Arc<MeshData<V>>,
}

impl<V> Mesh<V> {
    /// The label of the mesh.
    pub closed spec fn spec_label(&self) -> Seq<char> {
        self.label@
    }

    /// The id of the mesh.
    pub closed spec fn spec_id(&self) -> u32 {
        self.id
    }

    /// The shared data of the mesh.
    pub closed spec fn data(&self) -> MeshData<V> {
        *self.data
    }

    /// A new mesh over `data`, taking its id from `ids`.
    pub fn new(ids: &mut IdCounter, label: &str, data: Arc<MeshData<V>>) -> (m: Self)
        ensures
            m.spec_id() == old(ids)@,
            final(ids)@ == (if old(ids)@ == u32::MAX { 0 } else { (old(ids)@ + 1) as u32 }),
            m.spec_label() == label@,
            m.data() == *data,
    {
        let id = ids.next_id();
        Mesh { id, label: owned(label), data: arc_clone(&data) }
    }

    /// Get the unique key of this mesh (label, id and data id).
    pub fn get_key(&self) -> (k: String)
        ensures
            k@ == mesh_key(self.spec_label(), self.spec_id(), self.data().spec_id()),
    {
        let id = u32_to_string(self.id);
        let data_id = u32_to_string(self.data.id());
        let first = concat3(self.label.as_str(), "_", id.as_str());
        concat3(first.as_str(), "_", data_id.as_str())
    }

    /// Get the id of the vertex/index data that this mesh uses.
    pub fn get_data_key(&self) -> (id: u32)
        ensures
            id == self.data().spec_id(),
    {
        self.data.id()
    }

    /// A shallow copy of this mesh with a new id: the data is shared, not duplicated.
    pub fn duplicate(&self, ids: &mut IdCounter) -> (m: Self)
        ensures
            m.spec_id() == old(ids)@,
            final(ids)@ == (if old(ids)@ == u32::MAX { 0 } else { (old(ids)@ + 1) as u32 }),
            m.spec_label() == self.spec_label(),
            m.data() == self.data(),
    {
        let label = self.label.clone();
        Mesh::new(ids, label.as_str(), arc_clone(&self.data))
    }

    /// A shallow copy of this mesh with a new id and label: the data is shared, not duplicated.
    pub fn duplicate_with_label(&self, ids: &mut IdCounter, label: &str) -> (m: Self)
        ensures
            m.spec_id() == old(ids)@,
            final(ids)@ == (if old(ids)@ == u32::MAX { 0 } else { (old(ids)@ + 1) as u32 }),
            m.spec_label() == label@,
            m.data() == self.data(),
    {
        Mesh::new(ids, label, arc_clone(&self.data))
    }

    /// The shared data of this mesh.
    pub fn get_data_builder(&self) -> (d: Arc<MeshData<V>>)
        ensures
            *d == self.data(),
    {
        arc_clone(&self.data)
    }
}

} // verus!
