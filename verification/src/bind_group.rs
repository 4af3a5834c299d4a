use vstd::prelude::*;
use std::sync::Arc;
use crate::text::owned;

verus! {

/// The shader stages a bind group entry is visible to.
#[derive(PartialEq, Eq, Structural, Clone, Copy, Debug)]
pub enum LayoutVisibility {
    /// Visible to the vertex stage.
    Vertex,
    /// Visible to the fragment stage.
    Fragment,
    /// Visible to the vertex and fragment stages.
    VertexFragment,
}

/// Bind group entry types.
#[derive(PartialEq, Eq, Structural, Clone, Copy, Debug)]
pub enum LayoutBindType {
    /// Uniform buffers.
    Uniform,
    /// Storage buffers, read-only or not.
    Storage(bool),
    /// Textures and texture views.
    Texture,
    /// Texture samplers.
    Sampler,
}

/// Bind group entry types of a layout configuration.
#[derive(PartialEq, Eq, Structural, Clone, Copy, Debug)]
pub enum BindingType {
    Uniform,
    Storage,
    Texture,
    Sampler,
}

/// A single bind group layout entry.
#[derive(PartialEq, Eq, Structural, Clone, Copy, Debug)]
pub struct LayoutEntry {
    pub binding: u32,
    pub visibility: LayoutVisibility,
    pub ty: LayoutBindType,
}

/// The entries of a layout built by adding, in order, an entry for each
/// (visibility, type) request: entry `i` takes bind slot `i`.
pub open spec fn entries_for(reqs: Seq<(LayoutVisibility, LayoutBindType)>) -> Seq<LayoutEntry> {
    Seq::new(reqs.len(), |i: int| LayoutEntry { binding: i as u32, visibility: reqs[i].0, ty: reqs[i].1 })
}

/// Adding one more request to the entries of `reqs` numbers it after them.
pub proof fn law_next_slot(reqs: Seq<(LayoutVisibility, LayoutBindType)>, visibility: LayoutVisibility, ty: LayoutBindType)
    requires
        reqs.len() < u32::MAX,
    ensures
        entries_for(reqs).push(LayoutEntry { binding: entries_for(reqs).len() as u32, visibility, ty })
            == entries_for(reqs.push((visibility, ty))),
{
    assert(entries_for(reqs).push(LayoutEntry { binding: entries_for(reqs).len() as u32, visibility, ty })
        =~= entries_for(reqs.push((visibility, ty))));
}

/// A layout built from `new()` by one `with_next_entry` (or
/// `with_uniform_entry`) call per request has one entry per request, in
/// order: entry `i` takes bind slot `i` and the visibility and type of
/// request `i`.
pub proof fn law_layout_numbering(reqs: Seq<(LayoutVisibility, LayoutBindType)>)
    requires
        reqs.len() <= u32::MAX,
    ensures
        entries_for(reqs).len() == reqs.len(),
        forall|i: int| 0 <= i < reqs.len() ==> {
            &&& (#[trigger] entries_for(reqs)[i]).binding == i
            &&& entries_for(reqs)[i].visibility == reqs[i].0
            &&& entries_for(reqs)[i].ty == reqs[i].1
        },
{
}

/// Describes a bind group layout: a label and its entries, in order.
pub struct BindGroupLayoutBuilder {
    pub label: String,
    pub entries: Vec<LayoutEntry>,
}

impl BindGroupLayoutBuilder {
    /// An empty layout.
    pub fn new() -> (b: Self)
        ensures
            b.label@ == "bgl-builder"@,
            b.entries@.len() == 0,
            b.entries@ == entries_for(Seq::empty()),
    {
        let b = BindGroupLayoutBuilder { label: owned("bgl-builder"), entries: Vec::new() };
        assert(b.entries@ =~= entries_for(Seq::empty()));
        b
    }

    /// Add a custom label for GPU profiling.
    pub fn with_label(self, label: &str) -> (b: Self)
        ensures
            b.label@ == label@,
            b.entries@ == self.entries@,
    {
        BindGroupLayoutBuilder { label: owned(label), entries: self.entries }
    }

    /// Add an entry into the bind group layout.
    pub fn with_entry(self, entry: LayoutEntry) -> (b: Self)
        ensures
            b.label@ == self.label@,
            b.entries@ == self.entries@.push(entry),
    {
        let mut b = self;
        b.add_entry(entry);
        b
    }

    /// Add an entry into the bind group layout.
    pub fn add_entry(&mut self, entry: LayoutEntry)
        ensures
            final(self).label@ == old(self).label@,
            final(self).entries@ == old(self).entries@.push(entry),
    {
        self.entries.push(entry);
    }

    /// Add an entry of the given type visible to the given stages. Bind slots
    /// go by order: the entry takes the slot numbered by the count of entries
    /// before it.
    pub fn with_next_entry(self, visibility: LayoutVisibility, ty: LayoutBindType) -> (b: Self)
        ensures
            b.label@ == self.label@,
            b.entries@ == self.entries@.push(LayoutEntry { binding: self.entries@.len() as u32, visibility, ty }),
            forall|reqs: Seq<(LayoutVisibility, LayoutBindType)>| self.entries@ == entries_for(reqs) && reqs.len() < u32::MAX
                ==> b.entries@ == #[trigger] entries_for(reqs.push((visibility, ty))),
    {
        let slot = self.entries.len() as u32;
        let b = self.with_entry(LayoutEntry { binding: slot, visibility, ty });
        proof {
            assert forall|reqs: Seq<(LayoutVisibility, LayoutBindType)>| self.entries@ == entries_for(reqs) && reqs.len() < u32::MAX
                implies b.entries@ == #[trigger] entries_for(reqs.push((visibility, ty))) by {
                law_next_slot(reqs, visibility, ty);
            }
        }
        b
    }

    /// Add a uniform buffer entry visible to the given stages. Bind slots go
    /// by order: the entry takes the slot numbered by the count of entries
    /// before it.
    pub fn with_uniform_entry(self, visibility: LayoutVisibility) -> (b: Self)
        ensures
            b.label@ == self.label@,
            b.entries@ == self.entries@.push(
                LayoutEntry { binding: self.entries@.len() as u32, visibility, ty: LayoutBindType::Uniform }),
            forall|reqs: Seq<(LayoutVisibility, LayoutBindType)>| self.entries@ == entries_for(reqs) && reqs.len() < u32::MAX
                ==> b.entries@ == #[trigger] entries_for(reqs.push((visibility, LayoutBindType::Uniform))),
    {
        self.with_next_entry(visibility, LayoutBindType::Uniform)
    }

    /// Check if an entry with the given bind slot has been added.
    pub fn has_binding(&self, bind_slot: u32) -> (b: bool)
        ensures
            b == exists|i: int| 0 <= i < self.entries@.len() && #[trigger] self.entries@[i].binding == bind_slot,
    {
        let n = self.entries.len();
        let mut i: usize = 0;
        while i < n
            invariant
                n == self.entries@.len(),
                i <= n,
                forall|j: int| 0 <= j < i ==> #[trigger] self.entries@[j].binding != bind_slot,
            decreases n - i,
        {
            if self.entries[i].binding == bind_slot {
                return true;
            }
            i = i + 1;
        }
        false
    }

    /// A copy of this builder.
    pub fn duplicate(&self) -> (b: Self)
        ensures
            b.label@ == self.label@,
            b.entries@ == self.entries@,
    {
        let mut entries: Vec<LayoutEntry> = Vec::new();
        let n = self.entries.len();
        let mut i: usize = 0;
        while i < n
            invariant
                n == self.entries@.len(),
                i <= n,
                entries@ == self.entries@.subrange(0, i as int),
            decreases n - i,
        {
            entries.push(self.entries[i]);
            i = i + 1;
            assert(entries@ =~= self.entries@.subrange(0, i as int));
        }
        assert(entries@ =~= self.entries@);
        BindGroupLayoutBuilder { label: self.label.clone(), entries }
    }
}

/// `wgpu::Buffer`, carried through bind group entries unread.
#[verifier::external_type_specification]
#[verifier::external_body]
pub struct ExBuffer(wgpu::Buffer);

/// `wgpu::TextureView`, carried through bind group entries unread.
#[verifier::external_type_specification]
#[verifier::external_body]
pub struct ExTextureView(wgpu::TextureView);

/// `wgpu::Sampler`, carried through bind group entries unread.
#[verifier::external_type_specification]
#[verifier::external_body]
pub struct ExSampler(wgpu::Sampler);

/// A resource stored in a bind group entry.
pub enum BindGroupResource {
    Buffer(Arc<wgpu::Buffer>),
    Texture(Arc<wgpu::TextureView>),
    Sampler(Arc<wgpu::Sampler>),
}

/// A resource and the slot it is bound to.
pub struct BindGroupEntry {
    pub bind_slot: u32,
    pub resource: BindGroupResource,
}

/// The entries of the resources, in order.
pub open spec fn entries_of(resources: Seq<(u32, BindGroupResource)>) -> Seq<BindGroupEntry> {
    resources.map_values(|r: (u32, BindGroupResource)| BindGroupEntry { bind_slot: r.0, resource: r.1 })
}

/// Describes a bind group: a label and its entries, in order.
pub struct BindGroupBuilder {
    pub label: String,
    pub entries: Vec<BindGroupEntry>,
}

impl BindGroupBuilder {
    /// A bind group with no entries.
    pub fn new() -> (b: Self)
        ensures
            b.label@ == "bind-group-builder"@,
            b.entries@.len() == 0,
    {
        BindGroupBuilder { label: owned("bind-group-builder"), entries: Vec::new() }
    }

    /// Add resources, each bound to its slot, after the entries there are.
    pub fn with_resources(self, resources: Vec<(u32, BindGroupResource)>) -> (b: Self)
        ensures
            b.label == self.label,
            b.entries@ == self.entries@ + entries_of(resources@),
    {
        let mut b = self;
        let ghost start = b.entries@;
        let ghost all = resources@;
        for item in it: resources.into_iter()
            invariant
                it.seq() == all,
                b.label == self.label,
                b.entries@ == start + entries_of(all.take(it.index() as int)),
        {
            let (bind_slot, resource) = item;
            b.entries.push(BindGroupEntry { bind_slot, resource });
            proof {
                assert(all.take(it.index() + 1) =~= all.take(it.index() as int).push(all[it.index() as int]));
                assert(entries_of(all.take(it.index() + 1)) =~= entries_of(all.take(it.index() as int)).push(
                    BindGroupEntry { bind_slot, resource }));
            }
        }
        proof {
            assert(all.take(all.len() as int) =~= all);
        }
        b
    }

    /// Add a custom label for GPU profiling.
    pub fn with_label(self, label: &str) -> (b: Self)
        ensures
            b.label@ == label@,
            b.entries == self.entries,
    {
        BindGroupBuilder { label: owned(label), entries: self.entries }
    }
}

} // verus!
