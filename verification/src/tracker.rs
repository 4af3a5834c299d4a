use vstd::prelude::*;
use crate::layout::{VertexAttributeDesc, VertexLayoutBuilder, VertexStepMode};
use crate::render_pipeline::{BlendState, Face, PrimitiveTopology, RenderPipelineBuilder};
use crate::resources::{same_layout, same_type, ResourceID, ResourceScope, ResourceType};
use crate::text::same_text;

verus! {

/// Values that a set tells apart by a key: two values with the same key are
/// the same member.
pub trait Keyed: Sized {
    type Key;

    /// What tells this value apart from others.
    spec fn key(&self) -> Self::Key;

    /// Whether two values have the same key.
    fn same_member(&self, other: &Self) -> (r: bool)
        ensures
            r == (self.key() == other.key());

    /// A copy of this value, with the same key.
    fn copy_member(&self) -> (r: Self)
        ensures
            r.key() == self.key();
}

impl Keyed for String {
    type Key = Seq<char>;

    open spec fn key(&self) -> Seq<char> {
        self@
    }

    fn same_member(&self, other: &Self) -> (r: bool) {
        same_text(self.as_str(), other.as_str())
    }

    fn copy_member(&self) -> (r: Self) {
        self.clone()
    }
}

/// What tells one pipeline description apart from another.
pub open spec fn pipeline_key(b: RenderPipelineBuilder) -> (Seq<char>, PrimitiveTopology, Option<BlendState>, Option<Face>) {
    (b.label@, b.topology, b.blend_state, b.cull_mode)
}

/// Two pipeline descriptions are the same tracked pipeline exactly when they
/// agree in label, topology, blend state and cull mode. So a description that
/// differs from a tracked one in any of them (a line-list pipeline beside a
/// triangle-list one) is not taken for it, and tracking it adds a second
/// pipeline.
pub proof fn law_pipeline_identity(
    a: RenderPipelineBuilder,
    b: RenderPipelineBuilder,
    known: Set<(Seq<char>, PrimitiveTopology, Option<BlendState>, Option<Face>)>,
)
    ensures
        (a.key() == b.key()) == (a.label@ == b.label@ && a.topology == b.topology
            && a.blend_state == b.blend_state && a.cull_mode == b.cull_mode),
        (known == set![a.key()] && a.topology != b.topology) ==> {
            &&& !known.contains(b.key())
            &&& known.insert(b.key()).len() == 2
        },
{
    if known == set![a.key()] && a.topology != b.topology {
        assert(a.key() != b.key());
        assert(known.finite() && known.len() == 1) by {
            assert(known == Set::<(Seq<char>, PrimitiveTopology, Option<BlendState>, Option<Face>)>::empty().insert(a.key()));
        }
    }
}

impl Keyed for RenderPipelineBuilder {
    type Key = (Seq<char>, PrimitiveTopology, Option<BlendState>, Option<Face>);

    open spec fn key(&self) -> (Seq<char>, PrimitiveTopology, Option<BlendState>, Option<Face>) {
        pipeline_key(*self)
    }

    fn same_member(&self, other: &Self) -> (r: bool)
        ensures
            r == (self.label@ == other.label@ && self.topology == other.topology
                && self.blend_state == other.blend_state && self.cull_mode == other.cull_mode),
    {
        proof {
            law_pipeline_identity(*self, *other, Set::empty());
        }
        let blend = match (self.blend_state, other.blend_state) {
            (Some(x), Some(y)) => x == y,
            (None, None) => true,
            _ => false,
        };
        let cull = match (self.cull_mode, other.cull_mode) {
            (Some(x), Some(y)) => x == y,
            (None, None) => true,
            _ => false,
        };
        same_text(self.label.as_str(), other.label.as_str()) && self.topology == other.topology && blend && cull
    }

    fn copy_member(&self) -> (r: Self) {
        self.duplicate()
    }
}

/// What tells one vertex buffer layout apart from another.
pub open spec fn layout_key(l: VertexLayoutBuilder) -> (Seq<char>, Seq<VertexAttributeDesc>, u64, VertexStepMode) {
    (l.label@, l.attributes@, l.curr_offset, l.step_mode)
}

/// What tells one resource type apart from another: a tag for the variant,
/// and the layout of a vertex or instance buffer.
pub open spec fn type_key(t: ResourceType) -> (nat, Option<(Seq<char>, Seq<VertexAttributeDesc>, u64, VertexStepMode)>) {
    match t {
        ResourceType::Uniform => (0, None),
        ResourceType::Vertex(l) => (1, Some(layout_key(l))),
        ResourceType::Instance(l) => (2, Some(layout_key(l))),
        ResourceType::Index => (3, None),
        ResourceType::Storage => (4, None),
        ResourceType::Texture => (5, None),
        ResourceType::Sampler => (6, None),
        ResourceType::BindGroup => (7, None),
        ResourceType::Font => (8, None),
    }
}

/// Two resource types have the same key exactly when they are the same type.
pub proof fn lemma_type_key(a: ResourceType, b: ResourceType)
    ensures
        (type_key(a) == type_key(b)) == same_type(a, b),
{
}

/// Whether two layouts describe the same vertex buffer layout.
fn layouts_match(a: &VertexLayoutBuilder, b: &VertexLayoutBuilder) -> (r: bool)
    ensures
        r == same_layout(*a, *b),
{
    if !same_text(a.label.as_str(), b.label.as_str()) || a.curr_offset != b.curr_offset || a.step_mode != b.step_mode {
        return false;
    }
    let n = a.attributes.len();
    if n != b.attributes.len() {
        return false;
    }
    let mut i: usize = 0;
    while i < n
        invariant
            n == a.attributes@.len(),
            n == b.attributes@.len(),
            i <= n,
            forall|j: int| 0 <= j < i ==> a.attributes@[j] == b.attributes@[j],
        decreases n - i,
    {
        if a.attributes[i] != b.attributes[i] {
            return false;
        }
        i = i + 1;
    }
    assert(a.attributes@ =~= b.attributes@);
    true
}

/// Whether two resource types are the same type.
fn types_match(a: &ResourceType, b: &ResourceType) -> (r: bool)
    ensures
        r == same_type(*a, *b),
{
    match (a, b) {
        (ResourceType::Uniform, ResourceType::Uniform) => true,
        (ResourceType::Vertex(x), ResourceType::Vertex(y)) => layouts_match(x, y),
        (ResourceType::Instance(x), ResourceType::Instance(y)) => layouts_match(x, y),
        (ResourceType::Index, ResourceType::Index) => true,
        (ResourceType::Storage, ResourceType::Storage) => true,
        (ResourceType::Texture, ResourceType::Texture) => true,
        (ResourceType::Sampler, ResourceType::Sampler) => true,
        (ResourceType::BindGroup, ResourceType::BindGroup) => true,
        (ResourceType::Font, ResourceType::Font) => true,
        _ => false,
    }
}

/// What tells one resource id apart from another.
pub open spec fn id_key(id: ResourceID) -> (Seq<char>, ResourceScope, (nat, Option<(Seq<char>, Seq<VertexAttributeDesc>, u64, VertexStepMode)>)) {
    (id.key@, id.scope, type_key(id.r_type))
}

/// Two resource ids are the same tracked resource exactly when they agree in
/// key, scope and type (vertex and instance buffers by their layouts): an id
/// that differs in any of them is tracked as a resource of its own.
pub proof fn law_resource_id_identity(a: ResourceID, b: ResourceID)
    ensures
        (a.key() == b.key()) == (a.key@ == b.key@ && a.scope == b.scope && same_type(a.r_type, b.r_type)),
{
    lemma_type_key(a.r_type, b.r_type);
}

impl Keyed for ResourceID {
    type Key = (Seq<char>, ResourceScope, (nat, Option<(Seq<char>, Seq<VertexAttributeDesc>, u64, VertexStepMode)>));

    open spec fn key(&self) -> (Seq<char>, ResourceScope, (nat, Option<(Seq<char>, Seq<VertexAttributeDesc>, u64, VertexStepMode)>)) {
        id_key(*self)
    }

    fn same_member(&self, other: &Self) -> (r: bool)
        ensures
            r == (self.key@ == other.key@ && self.scope == other.scope && same_type(self.r_type, other.r_type)),
    {
        proof {
            lemma_type_key(self.r_type, other.r_type);
            law_resource_id_identity(*self, *other);
        }
        same_text(self.key.as_str(), other.key.as_str()) && self.scope == other.scope && types_match(&self.r_type, &other.r_type)
    }

    fn copy_member(&self) -> (r: Self) {
        let r = self.duplicate();
        proof {
            lemma_type_key(r.r_type, self.r_type);
        }
        r
    }
}

/// A set of values told apart by their keys; nothing occurs twice.
pub struct KeySet<T: Keyed> {
    items: Vec<T>,
}

impl<T: Keyed> KeySet<T> {
    /// The keys of the members, in the order they were added.
    pub closed spec fn keys(&self) -> Seq<T::Key> {
        self.items@.map_values(|t: T| t.key())
    }

    #[verifier::type_invariant]
    closed spec fn no_key_twice(&self) -> bool {
        self.keys().no_duplicates()
    }
}

impl<T: Keyed> View for KeySet<T> {
    type V = Set<T::Key>;

    /// The keys of the members.
    closed spec fn view(&self) -> Set<T::Key> {
        self.keys().to_set()
    }
}

impl<T: Keyed> KeySet<T> {
    /// An empty set.
    pub fn new() -> (s: Self)
        ensures
            s@ == Set::<T::Key>::empty(),
    {
        let s = KeySet { items: Vec::new() };
        assert(s.keys() =~= Seq::<T::Key>::empty());
        assert(s@ =~= Set::<T::Key>::empty());
        s
    }

    /// Whether a member has the key of `value`.
    pub fn contains(&self, value: &T) -> (r: bool)
        ensures
            r == self@.contains(value.key()),
    {
        let n = self.items.len();
        let mut i: usize = 0;
        while i < n
            invariant
                n == self.items@.len(),
                i <= n,
                forall|j: int| 0 <= j < i ==> self.items@[j].key() != value.key(),
            decreases n - i,
        {
            if self.items[i].same_member(value) {
                assert(self.keys()[i as int] == value.key());
                return true;
            }
            i = i + 1;
        }
        proof {
            if self.keys().contains(value.key()) {
                let j = choose|j: int| 0 <= j < self.keys().len() && self.keys()[j] == value.key();
                assert(self.items@[j].key() == value.key());
            }
        }
        false
    }

    /// Add `value` unless a member has its key; true when it was added.
    pub fn insert(&mut self, value: T) -> (added: bool)
        ensures
            added == !old(self)@.contains(value.key()),
            final(self)@ == old(self)@.insert(value.key()),
    {
        proof {
            use_type_invariant(&*self);
        }
        if self.contains(&value) {
            assert(self@.insert(value.key()) =~= self@);
            return false;
        }
        let ghost before = self.keys();
        let ghost k = value.key();
        let mut items: Vec<T> = Vec::new();
        std::mem::swap(&mut items, &mut self.items);
        items.push(value);
        assert(items@.map_values(|t: T| t.key()) =~= before.push(k));
        self.items = items;
        assert(self.keys() =~= before.push(k));
        assert(self@ =~= before.to_set().insert(k)) by {
            assert forall|x: T::Key| self@.contains(x) <==> before.to_set().insert(k).contains(x) by {
                if x != k && self.keys().contains(x) {
                    let j = choose|j: int| 0 <= j < self.keys().len() && self.keys()[j] == x;
                    assert(before[j] == x);
                }
                if before.contains(x) {
                    let j = choose|j: int| 0 <= j < before.len() && before[j] == x;
                    assert(self.keys()[j] == x);
                }
                assert(self.keys()[before.len() as int] == k);
            }
        }
        true
    }

    /// The number of members.
    pub fn len(&self) -> (n: usize)
        ensures
            n == self@.len(),
    {
        proof {
            use_type_invariant(self);
            self.keys().unique_seq_to_set();
        }
        self.items.len()
    }

    /// Remove every member.
    pub fn clear(&mut self)
        ensures
            final(self)@ == Set::<T::Key>::empty(),
    {
        self.items = Vec::new();
        assert(self.keys() =~= Seq::<T::Key>::empty());
        assert(self@ =~= Set::<T::Key>::empty());
    }

    /// Add a copy of each member of `other` whose key no member has.
    pub fn insert_all(&mut self, other: &KeySet<T>)
        ensures
            final(self)@ == old(self)@.union(other@),
    {
        let ghost start = self@;
        let n = other.items.len();
        let mut i: usize = 0;
        while i < n
            invariant
                n == other.items@.len(),
                i <= n,
                self@ == start.union(other.keys().take(i as int).to_set()),
            decreases n - i,
        {
            let ghost prev = self@;
            self.insert(other.items[i].copy_member());
            proof {
                let k = other.keys()[i as int];
                assert(other.keys().take(i + 1) =~= other.keys().take(i as int).push(k));
                assert(other.keys().take(i + 1).to_set() =~= other.keys().take(i as int).to_set().insert(k)) by {
                    assert forall|x: T::Key| #[trigger] other.keys().take(i + 1).to_set().contains(x)
                        <==> other.keys().take(i as int).to_set().insert(k).contains(x) by {
                        let t = other.keys().take(i + 1);
                        let u = other.keys().take(i as int);
                        if t.contains(x) && x != k {
                            let j = choose|j: int| 0 <= j < t.len() && t[j] == x;
                            assert(u[j] == x);
                        }
                        if u.contains(x) {
                            let j = choose|j: int| 0 <= j < u.len() && u[j] == x;
                            assert(t[j] == x);
                        }
                        assert(t[i as int] == k);
                    }
                }
                assert(self@ =~= start.union(other.keys().take(i + 1).to_set()));
            }
            i = i + 1;
        }
        assert(other.keys().take(n as int) =~= other.keys());
    }
}

/// Tracks resource requests, so that a renderer can tell what it has asked
/// for already.
pub struct ResourceTracker {
    pub shader_specs: KeySet<String>,
    pub shader_mods: KeySet<String>,
    pub pipelines: KeySet<RenderPipelineBuilder>,
    pub bind_groups: KeySet<String>,
    pub geometries: KeySet<String>,
    pub buffers: KeySet<ResourceID>,
    pub textures: KeySet<ResourceID>,
    pub samplers: KeySet<ResourceID>,
}

impl ResourceTracker {
    /// Whether every set of the tracker is empty.
    pub open spec fn is_empty(&self) -> bool {
        &&& self.shader_specs@ == Set::<Seq<char>>::empty()
        &&& self.shader_mods@ == Set::<Seq<char>>::empty()
        &&& self.pipelines@ == Set::<<RenderPipelineBuilder as Keyed>::Key>::empty()
        &&& self.bind_groups@ == Set::<Seq<char>>::empty()
        &&& self.geometries@ == Set::<Seq<char>>::empty()
        &&& self.buffers@ == Set::<<ResourceID as Keyed>::Key>::empty()
        &&& self.textures@ == Set::<<ResourceID as Keyed>::Key>::empty()
        &&& self.samplers@ == Set::<<ResourceID as Keyed>::Key>::empty()
    }

    /// Whether each set of `after` is the union of the same set of `before`
    /// and of `other`.
    pub open spec fn is_union(after: ResourceTracker, before: ResourceTracker, other: ResourceTracker) -> bool {
        &&& after.shader_specs@ == before.shader_specs@.union(other.shader_specs@)
        &&& after.shader_mods@ == before.shader_mods@.union(other.shader_mods@)
        &&& after.pipelines@ == before.pipelines@.union(other.pipelines@)
        &&& after.bind_groups@ == before.bind_groups@.union(other.bind_groups@)
        &&& after.geometries@ == before.geometries@.union(other.geometries@)
        &&& after.buffers@ == before.buffers@.union(other.buffers@)
        &&& after.textures@ == before.textures@.union(other.textures@)
        &&& after.samplers@ == before.samplers@.union(other.samplers@)
    }

    /// Whether two trackers track the same resources.
    pub open spec fn tracks_same(a: ResourceTracker, b: ResourceTracker) -> bool {
        &&& a.shader_specs@ == b.shader_specs@
        &&& a.shader_mods@ == b.shader_mods@
        &&& a.pipelines@ == b.pipelines@
        &&& a.bind_groups@ == b.bind_groups@
        &&& a.geometries@ == b.geometries@
        &&& a.buffers@ == b.buffers@
        &&& a.textures@ == b.textures@
        &&& a.samplers@ == b.samplers@
    }

    /// A tracker that has tracked nothing.
    pub fn new() -> (t: Self)
        ensures
            t.is_empty(),
    {
        ResourceTracker {
            shader_specs: KeySet::new(),
            shader_mods: KeySet::new(),
            pipelines: KeySet::new(),
            bind_groups: KeySet::new(),
            geometries: KeySet::new(),
            buffers: KeySet::new(),
            textures: KeySet::new(),
            samplers: KeySet::new(),
        }
    }

    /// Reset the state of this tracker.
    pub fn clear(&mut self)
        ensures
            final(self).is_empty(),
    {
        self.shader_specs.clear();
        self.shader_mods.clear();
        self.bind_groups.clear();
        self.buffers.clear();
        self.geometries.clear();
        self.pipelines.clear();
        self.textures.clear();
        self.samplers.clear();
    }

    /// Copy the resources tracked by another tracker into this one.
    pub fn copy_from(&mut self, other: &ResourceTracker)
        ensures
            ResourceTracker::is_union(*final(self), *old(self), *other),
    {
        self.shader_specs.insert_all(&other.shader_specs);
        self.shader_mods.insert_all(&other.shader_mods);
        self.bind_groups.insert_all(&other.bind_groups);
        self.geometries.insert_all(&other.geometries);
        self.pipelines.insert_all(&other.pipelines);
        self.buffers.insert_all(&other.buffers);
        self.textures.insert_all(&other.textures);
        self.samplers.insert_all(&other.samplers);
    }
}

} // verus!
