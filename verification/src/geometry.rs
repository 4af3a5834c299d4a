use vstd::prelude::*;
use std::sync::Arc;
use crate::buffer::{BufferBuilder, BufferType};
use crate::bytes::{index_bytes, words_bytes};
use crate::data_table::DataTable;
use crate::layout::{attr_bytes, layout_entries, total_locations, AttributeSpec, VertexAttributeLayout, VertexLayoutBuilder, VertexStepMode};
use crate::resources::{GeometryID, ResourceID, ResourceScope, ResourceType};
use crate::text::concat2;
use crate::texture::copy_bytes;

verus! {

/// The shared data of a geometry: a label, the vertex table (one column per
/// vertex attribute), the indices, and how many vertices there are.
pub struct GeometryData<T> {
    pub label: String,
    pub vertices: DataTable<T>,
    pub indices: Vec<u32>,
    pub vertex_count: usize,
}

/// The signature of a geometry: the ids of its gpu buffers and the builders
/// that construct them.
pub struct GeometrySignature {
    pub ids: GeometryID,
    pub vertex_builder: BufferBuilder,
    pub index_builder: BufferBuilder,
}

/// The key of a geometry's vertex buffer.
pub open spec fn vertices_key(label: Seq<char>) -> Seq<char> {
    label + "::vertices"@
}

/// The key of a geometry's index buffer.
pub open spec fn indices_key(label: Seq<char>) -> Seq<char> {
    label + "::indices"@
}

/// Shared geometry data with the layout of its vertex attributes.
pub struct Geometry<T> {
    geometry_data: Arc<GeometryData<T>>,
    attributes: VertexAttributeLayout,
    packed_data: Option<Vec<u8>>,
}

impl<T> Geometry<T> {
    /// The shared data.
    pub closed spec fn data(&self) -> GeometryData<T> {
        *self.geometry_data
    }

    /// The layout of the vertex attributes.
    pub closed spec fn layout(&self) -> VertexAttributeLayout {
        self.attributes
    }

    /// Vertex bytes packed earlier, if any.
    pub closed spec fn packed(&self) -> Option<Seq<u8>> {
        match self.packed_data {
            Some(d) => Some(d@),
            None => None,
        }
    }

    /// The layout is well formed and per vertex.
    pub open spec fn wf(&self) -> bool {
        self.layout().wf() && self.layout().spec_step_mode() == VertexStepMode::Vertex
    }

    /// A geometry over `geometry_data`, with no attributes yet.
    pub fn new(geometry_data: Arc<GeometryData<T>>) -> (g: Self)
        ensures
            g.wf(),
            g.data() == *geometry_data,
            g.layout().attribute_seq().len() == 0,
            g.packed() is None,
    {
        Geometry { geometry_data, attributes: VertexAttributeLayout::as_vertex(), packed_data: None }
    }

    /// Get the generic label of this geometry.
    pub fn get_label(&self) -> (l: String)
        ensures
            l@ == self.data().label@,
    {
        self.geometry_data.label.clone()
    }

    /// Add a vertex attribute to this geometry; packed data is dropped.
    pub fn add_attribute(&mut self, attribute: AttributeSpec)
        requires
            old(self).wf(),
            old(self).layout().spec_stride() + attr_bytes(attribute) <= usize::MAX,
        ensures
            final(self).wf(),
            final(self).data() == old(self).data(),
            final(self).layout().attribute_seq() == old(self).layout().attribute_seq().push(attribute),
            final(self).layout().spec_stride() == old(self).layout().spec_stride() + attr_bytes(attribute),
            final(self).packed() is None,
    {
        self.attributes.add_attribute(attribute);
        self.packed_data = None;
    }

    /// Add a vertex attribute to this geometry; packed data is dropped.
    pub fn with_attribute(self, attribute: AttributeSpec) -> (g: Self)
        requires
            self.wf(),
            self.layout().spec_stride() + attr_bytes(attribute) <= usize::MAX,
        ensures
            g.wf(),
            g.data() == self.data(),
            g.layout().attribute_seq() == self.layout().attribute_seq().push(attribute),
            g.layout().spec_stride() == self.layout().spec_stride() + attr_bytes(attribute),
            g.packed() is None,
    {
        let mut g = self;
        g.add_attribute(attribute);
        g
    }

    /// Get the vertex layout builder of this geometry, labelled with its label.
    pub fn get_layout_builder(&self) -> (b: VertexLayoutBuilder)
        requires
            self.wf(),
            self.layout().base_location() + total_locations(self.layout().attribute_seq()) <= u32::MAX,
        ensures
            b.label@ == self.data().label@,
            b.step_mode == VertexStepMode::Vertex,
            b.attributes@ == layout_entries(self.layout().attribute_seq(), self.layout().base_location()),
            b.curr_offset == self.layout().spec_stride(),
    {
        self.attributes.get_builder(self.geometry_data.label.as_str())
    }

    /// Get the ids of the buffers of this geometry: the vertex buffer (with
    /// this geometry's layout) and the index buffer, both scoped to the
    /// primitive, and the number of indices (truncated to 32 bits).
    pub fn get_ids(&self) -> (ids: GeometryID)
        requires
            self.wf(),
            self.layout().base_location() + total_locations(self.layout().attribute_seq()) <= u32::MAX,
        ensures
            ids.vertex_id.key@ == vertices_key(self.data().label@),
            ids.vertex_id.scope == ResourceScope::Primitive,
            ids.vertex_id.r_type matches ResourceType::Vertex(b) && b.label@ == self.data().label@
                && b.step_mode == VertexStepMode::Vertex
                && b.attributes@ == layout_entries(self.layout().attribute_seq(), self.layout().base_location())
                && b.curr_offset == self.layout().spec_stride(),
            ids.index_id.key@ == indices_key(self.data().label@),
            ids.index_id.scope == ResourceScope::Primitive,
            ids.index_id.r_type == ResourceType::Index,
            ids.indices == self.data().indices@.len() as u32,
    {
        let label = self.get_label();
        let vertex_id = ResourceID {
            key: concat2(label.as_str(), "::vertices"),
            scope: ResourceScope::Primitive,
            r_type: ResourceType::Vertex(self.get_layout_builder()),
        };
        let index_id = ResourceID {
            key: concat2(label.as_str(), "::indices"),
            scope: ResourceScope::Primitive,
            r_type: ResourceType::Index,
        };
        let indices = self.geometry_data.indices.len() as u32;
        GeometryID { vertex_id, index_id, indices }
    }

    /// Get the signature of this geometry: the ids of its buffers and the
    /// builders that construct them. The vertex buffer holds the packed data,
    /// if any, else `vertex_bytes`, the vertex table packed by this geometry's
    /// layout; the index buffer holds the indices as bytes.
    pub fn get_signature(&self, vertex_bytes: Vec<u8>) -> (s: GeometrySignature)
        requires
            self.wf(),
            self.layout().base_location() + total_locations(self.layout().attribute_seq()) <= u32::MAX,
        ensures
            s.ids.vertex_id.key@ == vertices_key(self.data().label@),
            s.ids.index_id.key@ == indices_key(self.data().label@),
            s.ids.indices == self.data().indices@.len() as u32,
            s.vertex_builder.spec_label() == vertices_key(self.data().label@),
            s.vertex_builder.spec_usage() == BufferType::Vertex,
            s.vertex_builder.spec_data() == (match self.packed() {
                Some(d) => d,
                None => vertex_bytes@,
            }),
            s.index_builder.spec_label() == indices_key(self.data().label@),
            s.index_builder.spec_usage() == BufferType::Index,
            s.index_builder.spec_data().len() == 4 * self.data().indices@.len(),
            exists|little: bool| s.index_builder.spec_data() == words_bytes(self.data().indices@, little),
    {
        let vertex_data = match &self.packed_data {
            Some(data) => copy_bytes(data),
            None => vertex_bytes,
        };
        let index_data = index_bytes(self.geometry_data.indices.as_slice());
        let label = self.get_label();
        let vertex_builder = BufferBuilder::as_vertex()
            .with_label(concat2(label.as_str(), "::vertices").as_str())
            .with_data(vertex_data);
        let index_builder = BufferBuilder::as_index()
            .with_label(concat2(label.as_str(), "::indices").as_str())
            .with_data(index_data);
        GeometrySignature { ids: self.get_ids(), vertex_builder, index_builder }
    }
}

} // verus!
