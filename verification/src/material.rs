use vstd::prelude::*;
use crate::bind_group::{BindGroupLayoutBuilder, LayoutBindType, LayoutEntry, LayoutVisibility};
use crate::buffer::{padded16, BufferBuilder, BufferType};
use crate::ids::IdCounter;
use crate::packing::ResourceUpdate;
use crate::presets::{sampler_address_mode, sampler_filter_mode, sampler_label, TextureSampler};
use crate::resources::{same_type, ResourceBinding, ResourceID, ResourceScope, ResourceType};
use crate::text::{concat3, decimal, owned, u32_to_string};
use crate::texture::{copy_bytes, SamplerBuilder, TextureBuilder, TextureFormat};

verus! {

/// The builder of the gpu resource behind a material component.
pub enum UniformBuilder {
    /// A uniform buffer.
    Buffer(BufferBuilder),
    /// A standard rgba texture.
    Texture(TextureBuilder),
    /// A texture sampler.
    Sampler(SamplerBuilder),
    /// The resource is made by another system (for example, fonts).
    PreAllocated,
}

/// A uniform stored in a bind group, attached to a material.
///
/// A component reports its buffer data when it has changed: `pending_update`
/// is the data that the next `get_updated` hands out, if any, after which the
/// component has nothing pending.
pub trait MaterialComponent {
    /// The key of this component's resource id.
    spec fn id_key(&self) -> Seq<char>;

    /// The scope of this component's resource id.
    spec fn id_scope(&self) -> ResourceScope;

    /// The bind type and visibility of this component.
    spec fn vis_type(&self) -> (LayoutBindType, LayoutVisibility);

    /// The buffer data that the next `get_updated` hands out, if any.
    spec fn pending_update(&self) -> Option<Seq<u8>>;

    /// The type of this component's resource.
    spec fn id_type(&self) -> ResourceType;

    /// Whether `u` is the builder of this component's resource.
    spec fn builds(&self, u: UniformBuilder) -> bool;

    /// Get the key, scope and type of this resource.
    fn get_id(&self) -> (id: ResourceID)
        ensures
            id.key@ == self.id_key(),
            id.scope == self.id_scope(),
            same_type(id.r_type, self.id_type()),
    ;

    /// Get the bind type and visibility of this resource.
    fn get_vis_type(&self) -> (r: (LayoutBindType, LayoutVisibility))
        ensures
            r == self.vis_type(),
    ;

    /// Get the uniform builder for this component.
    fn get_uniform_builder(&self) -> (u: UniformBuilder)
        ensures
            self.builds(u),
    ;

    /// Get this component's updated buffer data, if any, at offset 0.
    fn get_updated(&mut self) -> (u: Option<ResourceUpdate>)
        ensures
            final(self).id_key() == old(self).id_key(),
            final(self).id_scope() == old(self).id_scope(),
            final(self).vis_type() == old(self).vis_type(),
            final(self).id_type() == old(self).id_type(),
            final(self).pending_update() is None,
            match u {
                Some(up) => old(self).pending_update() == Some(up.data@) && up.offset == 0,
                None => old(self).pending_update() is None,
            },
    ;
}

/// A material component that holds a color, as the bytes of its rgba value.
pub struct ColorComponent {
    label: String,
    color: Vec<u8>,
    is_dirty: bool,
}

impl ColorComponent {
    /// The label of this component.
    pub closed spec fn spec_label(&self) -> Seq<char> {
        self.label@
    }

    /// The bytes of the color.
    pub closed spec fn spec_color(&self) -> Seq<u8> {
        self.color@
    }

    /// Whether the color has changed since it was last reported.
    pub closed spec fn spec_dirty(&self) -> bool {
        self.is_dirty
    }

    /// A new color component; its color is reported by the first `get_updated`.
    pub fn new(label: &str, color: Vec<u8>) -> (c: Self)
        ensures
            c.spec_label() == label@,
            c.spec_color() == color@,
            c.spec_dirty(),
    {
        ColorComponent { label: owned(label), color, is_dirty: true }
    }

    /// Set the color. The new color is not marked as changed.
    pub fn set_color(&mut self, color: Vec<u8>)
        ensures
            final(self).spec_label() == old(self).spec_label(),
            final(self).spec_color() == color@,
            !final(self).spec_dirty(),
    {
        self.color = color;
        self.is_dirty = false;
    }
}

impl MaterialComponent for ColorComponent {
    open spec fn id_key(&self) -> Seq<char> {
        self.spec_label()
    }

    open spec fn id_scope(&self) -> ResourceScope {
        ResourceScope::Primitive
    }

    open spec fn vis_type(&self) -> (LayoutBindType, LayoutVisibility) {
        (LayoutBindType::Uniform, LayoutVisibility::Fragment)
    }

    open spec fn pending_update(&self) -> Option<Seq<u8>> {
        if self.spec_dirty() { Some(self.spec_color()) } else { None }
    }

    open spec fn id_type(&self) -> ResourceType {
        ResourceType::Uniform
    }

    open spec fn builds(&self, u: UniformBuilder) -> bool {
        u matches UniformBuilder::Buffer(b) && b.spec_label() == self.spec_label()
            && b.spec_usage() == BufferType::Uniform && b.spec_capacity() == 0
            && b.spec_data() == padded16(self.spec_color())
    }

    fn get_id(&self) -> (id: ResourceID) {
        ResourceID { key: self.label.clone(), scope: ResourceScope::Primitive, r_type: ResourceType::Uniform }
    }

    fn get_vis_type(&self) -> (r: (LayoutBindType, LayoutVisibility)) {
        (LayoutBindType::Uniform, LayoutVisibility::Fragment)
    }

    fn get_uniform_builder(&self) -> (u: UniformBuilder) {
        let builder = BufferBuilder::as_uniform()
            .with_label(self.label.as_str())
            .with_data_from_struct(self.color.as_slice());
        UniformBuilder::Buffer(builder)
    }

    fn get_updated(&mut self) -> (u: Option<ResourceUpdate>) {
        if self.is_dirty {
            self.is_dirty = false;
            let data = copy_bytes(&self.color);
            Some(ResourceUpdate { data, offset: 0 })
        } else {
            None
        }
    }
}

/// A material component that holds a texture read from an image file.
pub struct TextureComponent {
    label: String,
    path: String,
}

impl TextureComponent {
    /// The label of this component.
    pub closed spec fn spec_label(&self) -> Seq<char> {
        self.label@
    }

    /// The path of the image file.
    pub closed spec fn spec_path(&self) -> Seq<char> {
        self.path@
    }

    /// A texture component for the image at `path`.
    pub fn new(label: &str, path: &str) -> (c: Self)
        ensures
            c.spec_label() == label@,
            c.spec_path() == path@,
    {
        TextureComponent { label: owned(label), path: owned(path) }
    }
}

impl MaterialComponent for TextureComponent {
    open spec fn id_key(&self) -> Seq<char> {
        self.spec_path()
    }

    open spec fn id_scope(&self) -> ResourceScope {
        ResourceScope::Material
    }

    open spec fn vis_type(&self) -> (LayoutBindType, LayoutVisibility) {
        (LayoutBindType::Texture, LayoutVisibility::Fragment)
    }

    open spec fn pending_update(&self) -> Option<Seq<u8>> {
        None
    }

    open spec fn id_type(&self) -> ResourceType {
        ResourceType::Texture
    }

    open spec fn builds(&self, u: UniformBuilder) -> bool {
        u matches UniformBuilder::Texture(t) && t.label@ == self.spec_label()
            && t.img_path is Some && t.img_path.unwrap()@ == self.spec_path()
            && t.data is None && t.format == TextureFormat::Rgba8UnormSrgb
    }

    fn get_id(&self) -> (id: ResourceID)
        ensures
            id.r_type == ResourceType::Texture,
    {
        ResourceID { key: self.path.clone(), scope: ResourceScope::Material, r_type: ResourceType::Texture }
    }

    fn get_vis_type(&self) -> (r: (LayoutBindType, LayoutVisibility)) {
        (LayoutBindType::Texture, LayoutVisibility::Fragment)
    }

    fn get_uniform_builder(&self) -> (u: UniformBuilder) {
        let builder = TextureBuilder::new().with_label(self.label.as_str()).with_img_file(self.path.as_str());
        UniformBuilder::Texture(builder)
    }

    fn get_updated(&mut self) -> (u: Option<ResourceUpdate>) {
        None
    }
}

/// A material component that holds a font (texture) atlas made elsewhere.
pub struct FontComponent {
    label: String,
    id: ResourceID,
}

impl FontComponent {
    /// The label of this component.
    pub closed spec fn spec_label(&self) -> Seq<char> {
        self.label@
    }

    /// The id of the font atlas.
    pub closed spec fn spec_id(&self) -> ResourceID {
        self.id
    }

    /// A component for the font atlas with the given id.
    pub fn new(label: &str, id: ResourceID) -> (c: Self)
        ensures
            c.spec_label() == label@,
            c.spec_id() == id,
    {
        FontComponent { label: owned(label), id }
    }
}

impl MaterialComponent for FontComponent {
    open spec fn id_key(&self) -> Seq<char> {
        self.spec_id().key@
    }

    open spec fn id_scope(&self) -> ResourceScope {
        self.spec_id().scope
    }

    open spec fn vis_type(&self) -> (LayoutBindType, LayoutVisibility) {
        (LayoutBindType::Texture, LayoutVisibility::Fragment)
    }

    open spec fn pending_update(&self) -> Option<Seq<u8>> {
        None
    }

    open spec fn id_type(&self) -> ResourceType {
        self.spec_id().r_type
    }

    open spec fn builds(&self, u: UniformBuilder) -> bool {
        u is PreAllocated
    }

    fn get_id(&self) -> (id: ResourceID) {
        self.id.duplicate()
    }

    fn get_vis_type(&self) -> (r: (LayoutBindType, LayoutVisibility)) {
        (LayoutBindType::Texture, LayoutVisibility::Fragment)
    }

    fn get_uniform_builder(&self) -> (u: UniformBuilder) {
        UniformBuilder::PreAllocated
    }

    fn get_updated(&mut self) -> (u: Option<ResourceUpdate>) {
        None
    }
}

/// A material component that holds a texture sampler.
pub struct SamplerComponent {
    label: String,
    sampler: TextureSampler,
}

impl SamplerComponent {
    /// The label of this component.
    pub closed spec fn spec_label(&self) -> Seq<char> {
        self.label@
    }

    /// The sampler.
    pub closed spec fn spec_sampler(&self) -> TextureSampler {
        self.sampler
    }

    /// A component for the given sampler, labelled with the sampler's key name.
    pub fn new(sampler: TextureSampler) -> (c: Self)
        ensures
            c.spec_label() == sampler_label(sampler),
            c.spec_sampler() == sampler,
    {
        SamplerComponent { label: sampler.label(), sampler }
    }
}

impl MaterialComponent for SamplerComponent {
    open spec fn id_key(&self) -> Seq<char> {
        self.spec_label()
    }

    open spec fn id_scope(&self) -> ResourceScope {
        ResourceScope::Global
    }

    open spec fn vis_type(&self) -> (LayoutBindType, LayoutVisibility) {
        (LayoutBindType::Sampler, LayoutVisibility::Fragment)
    }

    open spec fn pending_update(&self) -> Option<Seq<u8>> {
        None
    }

    open spec fn id_type(&self) -> ResourceType {
        ResourceType::Sampler
    }

    open spec fn builds(&self, u: UniformBuilder) -> bool {
        u matches UniformBuilder::Sampler(b) && b.label@ == sampler_label(self.spec_sampler())
            && b.address_mode == sampler_address_mode(self.spec_sampler())
            && b.filter_mode == sampler_filter_mode(self.spec_sampler())
    }

    fn get_id(&self) -> (id: ResourceID)
        ensures
            id.r_type == ResourceType::Sampler,
    {
        ResourceID { key: self.label.clone(), scope: ResourceScope::Global, r_type: ResourceType::Sampler }
    }

    fn get_vis_type(&self) -> (r: (LayoutBindType, LayoutVisibility)) {
        (LayoutBindType::Sampler, LayoutVisibility::Fragment)
    }

    fn get_uniform_builder(&self) -> (u: UniformBuilder) {
        UniformBuilder::Sampler(self.sampler.get())
    }

    fn get_updated(&mut self) -> (u: Option<ResourceUpdate>) {
        None
    }
}

/// Any of the components that this library provides, so that one material
/// can hold components of different kinds.
pub enum Component {
    Color(ColorComponent),
    Texture(TextureComponent),
    Font(FontComponent),
    Sampler(SamplerComponent),
}

impl MaterialComponent for Component {
    open spec fn id_key(&self) -> Seq<char> {
        match self {
            Component::Color(c) => c.id_key(),
            Component::Texture(c) => c.id_key(),
            Component::Font(c) => c.id_key(),
            Component::Sampler(c) => c.id_key(),
        }
    }

    open spec fn id_scope(&self) -> ResourceScope {
        match self {
            Component::Color(c) => c.id_scope(),
            Component::Texture(c) => c.id_scope(),
            Component::Font(c) => c.id_scope(),
            Component::Sampler(c) => c.id_scope(),
        }
    }

    open spec fn vis_type(&self) -> (LayoutBindType, LayoutVisibility) {
        match self {
            Component::Color(c) => c.vis_type(),
            Component::Texture(c) => c.vis_type(),
            Component::Font(c) => c.vis_type(),
            Component::Sampler(c) => c.vis_type(),
        }
    }

    open spec fn pending_update(&self) -> Option<Seq<u8>> {
        match self {
            Component::Color(c) => c.pending_update(),
            Component::Texture(c) => c.pending_update(),
            Component::Font(c) => c.pending_update(),
            Component::Sampler(c) => c.pending_update(),
        }
    }

    open spec fn id_type(&self) -> ResourceType {
        match self {
            Component::Color(c) => c.id_type(),
            Component::Texture(c) => c.id_type(),
            Component::Font(c) => c.id_type(),
            Component::Sampler(c) => c.id_type(),
        }
    }

    open spec fn builds(&self, u: UniformBuilder) -> bool {
        match self {
            Component::Color(c) => c.builds(u),
            Component::Texture(c) => c.builds(u),
            Component::Font(c) => c.builds(u),
            Component::Sampler(c) => c.builds(u),
        }
    }

    fn get_id(&self) -> (id: ResourceID) {
        match self {
            Component::Color(c) => c.get_id(),
            Component::Texture(c) => c.get_id(),
            Component::Font(c) => c.get_id(),
            Component::Sampler(c) => c.get_id(),
        }
    }

    fn get_vis_type(&self) -> (r: (LayoutBindType, LayoutVisibility)) {
        match self {
            Component::Color(c) => c.get_vis_type(),
            Component::Texture(c) => c.get_vis_type(),
            Component::Font(c) => c.get_vis_type(),
            Component::Sampler(c) => c.get_vis_type(),
        }
    }

    fn get_uniform_builder(&self) -> (u: UniformBuilder) {
        match self {
            Component::Color(c) => c.get_uniform_builder(),
            Component::Texture(c) => c.get_uniform_builder(),
            Component::Font(c) => c.get_uniform_builder(),
            Component::Sampler(c) => c.get_uniform_builder(),
        }
    }

    fn get_updated(&mut self) -> (u: Option<ResourceUpdate>) {
        match self {
            Component::Color(c) => c.get_updated(),
            Component::Texture(c) => c.get_updated(),
            Component::Font(c) => c.get_updated(),
            Component::Sampler(c) => c.get_updated(),
        }
    }
}

/// The unique key of a material: its label and its id, joined by `_`.
pub open spec fn material_key(label: Seq<char>, id: u32) -> Seq<char> {
    label + "_"@ + decimal(id as nat)
}

/// A component key namespaced to a material: the material key, `::`, and the
/// component key.
pub open spec fn namespaced(material: Seq<char>, component: Seq<char>) -> Seq<char> {
    material + "::"@ + component
}

/// The key under which a material binds a component: global components keep
/// their own key, the others are namespaced to the material.
pub open spec fn binding_key(material: Seq<char>, key: Seq<char>, scope: ResourceScope) -> Seq<char> {
    if scope == ResourceScope::Global { key } else { namespaced(material, key) }
}

/// The updates that a material reports for the components `comps`, in order:
/// for each component with pending data, its namespaced key, its scope, the
/// data and the type of its resource.
pub open spec fn material_updates<C: MaterialComponent>(material: Seq<char>, comps: Seq<C>) -> Seq<(Seq<char>, ResourceScope, Seq<u8>, ResourceType)>
    decreases comps.len(),
{
    if comps.len() == 0 {
        seq![]
    } else {
        let rest = material_updates(material, comps.drop_last());
        let last = comps.last();
        match last.pending_update() {
            Some(d) => rest.push((namespaced(material, last.id_key()), last.id_scope(), d, last.id_type())),
            None => rest,
        }
    }
}

/// A high level description of how a primitive should look when rendered:
/// a labelled list of components, each bound at the slot of its position.
pub struct Material<C> {
    id: u32,
    label: String,
    components: Vec<C>,
}

impl<C: MaterialComponent> Material<C> {
    /// The id of the material.
    pub closed spec fn spec_id(&self) -> u32 {
        self.id
    }

    /// The label of the material.
    pub closed spec fn spec_label(&self) -> Seq<char> {
        self.label@
    }

    /// The components, in the order they were added.
    pub closed spec fn comps(&self) -> Seq<C> {
        self.components@
    }

    /// The unique key of the material.
    pub open spec fn key(&self) -> Seq<char> {
        material_key(self.spec_label(), self.spec_id())
    }

    /// A material with no components, taking its id from `ids`.
    pub fn new(ids: &mut IdCounter, label: &str) -> (m: Self)
        ensures
            m.spec_id() == old(ids)@,
            final(ids)@ == (if old(ids)@ == u32::MAX { 0 } else { (old(ids)@ + 1) as u32 }),
            m.spec_label() == label@,
            m.comps().len() == 0,
    {
        let id = ids.next_id();
        Material { id, label: owned(label), components: Vec::new() }
    }

    /// Get the unique key of this material (label and id).
    pub fn get_key(&self) -> (k: String)
        ensures
            k@ == self.key(),
    {
        let id = u32_to_string(self.id);
        concat3(self.label.as_str(), "_", id.as_str())
    }

    /// Add a component to this material, at the next slot.
    pub fn add_component(&mut self, component: C)
        ensures
            final(self).spec_id() == old(self).spec_id(),
            final(self).spec_label() == old(self).spec_label(),
            final(self).comps() == old(self).comps().push(component),
    {
        self.components.push(component);
    }

    /// Namespace a component's resource key to this material.
    fn namespace_component(&self, comp_label: &String) -> (r: String)
        ensures
            r@ == namespaced(self.key(), comp_label@),
    {
        let key = self.get_key();
        concat3(key.as_str(), "::", comp_label.as_str())
    }

    /// Get the buffers that changed in this material's components, each with
    /// its id namespaced to this material, in component order. Afterwards no
    /// component has anything pending.
    pub fn get_updated(&mut self) -> (updated: Vec<(ResourceID, ResourceUpdate)>)
        ensures
            final(self).spec_id() == old(self).spec_id(),
            final(self).spec_label() == old(self).spec_label(),
            final(self).comps().len() == old(self).comps().len(),
            forall|i: int| 0 <= i < old(self).comps().len() ==> {
                &&& #[trigger] final(self).comps()[i].id_key() == old(self).comps()[i].id_key()
                &&& final(self).comps()[i].id_scope() == old(self).comps()[i].id_scope()
                &&& final(self).comps()[i].vis_type() == old(self).comps()[i].vis_type()
                &&& final(self).comps()[i].pending_update() is None
            },
            updated@.len() == material_updates(old(self).key(), old(self).comps()).len(),
            forall|j: int| 0 <= j < updated@.len() ==> {
                let e = material_updates(old(self).key(), old(self).comps())[j];
                &&& (#[trigger] updated@[j]).0.key@ == e.0
                &&& updated@[j].0.scope == e.1
                &&& updated@[j].1.data@ == e.2
                &&& updated@[j].1.offset == 0
                &&& same_type(updated@[j].0.r_type, e.3)
            },
    {
        let ghost old_comps = self.components@;
        let ghost key = self.key();
        let mut remaining: Vec<C> = Vec::new();
        std::mem::swap(&mut remaining, &mut self.components);
        let mut done: Vec<C> = Vec::new();
        let mut updated: Vec<(ResourceID, ResourceUpdate)> = Vec::new();
        let n = remaining.len();
        let mut i: usize = 0;
        while i < n
            invariant
                n == old_comps.len(),
                i <= n,
                key == material_key(self.label@, self.id),
                self.id == old(self).spec_id(),
                self.label@ == old(self).spec_label(),
                key == old(self).key(),
                remaining@ == old_comps.subrange(i as int, n as int),
                done@.len() == i,
                forall|k: int| 0 <= k < i ==> {
                    &&& #[trigger] done@[k].id_key() == old_comps[k].id_key()
                    &&& done@[k].id_scope() == old_comps[k].id_scope()
                    &&& done@[k].vis_type() == old_comps[k].vis_type()
                    &&& done@[k].pending_update() is None
                },
                updated@.len() == material_updates(key, old_comps.subrange(0, i as int)).len(),
                forall|j: int| 0 <= j < updated@.len() ==> {
                    let e = material_updates(key, old_comps.subrange(0, i as int))[j];
                    &&& (#[trigger] updated@[j]).0.key@ == e.0
                    &&& updated@[j].0.scope == e.1
                    &&& updated@[j].1.data@ == e.2
                    &&& updated@[j].1.offset == 0
                    &&& same_type(updated@[j].0.r_type, e.3)
                },
            decreases n - i,
        {
            let mut component = remaining.remove(0);
            assert(component == old_comps[i as int]);
            let ghost before = component;
            let update = component.get_updated();
            let ghost prev = material_updates(key, old_comps.subrange(0, i as int));
            assert(old_comps.subrange(0, i + 1).drop_last() =~= old_comps.subrange(0, i as int));
            match update {
                Some(up) => {
                    let id = component.get_id();
                    let ns = self.namespace_component(&id.key);
                    let id = ResourceID { key: ns, scope: id.scope, r_type: id.r_type };
                    updated.push((id, up));
                },
                None => {},
            }
            done.push(component);
            i = i + 1;
            assert(remaining@ =~= old_comps.subrange(i as int, n as int));
        }
        assert(old_comps.subrange(0, n as int) =~= old_comps);
        self.components = done;
        updated
    }

    /// Get the 'signature' of this material as a bind group layout: one entry
    /// per component, bound at the component's slot.
    pub fn get_layout_builder(&self) -> (b: BindGroupLayoutBuilder)
        requires
            self.comps().len() <= u32::MAX,
        ensures
            b.label@ == self.spec_label(),
            b.entries@.len() == self.comps().len(),
            forall|i: int| 0 <= i < b.entries@.len() ==> #[trigger] b.entries@[i] == (LayoutEntry {
                binding: i as u32,
                visibility: self.comps()[i].vis_type().1,
                ty: self.comps()[i].vis_type().0,
            }),
    {
        let mut builder = BindGroupLayoutBuilder::new().with_label(self.label.as_str());
        let n = self.components.len();
        let mut i: usize = 0;
        while i < n
            invariant
                n == self.comps().len(),
                n <= u32::MAX,
                i <= n,
                builder.label@ == self.spec_label(),
                builder.entries@.len() == i,
                forall|k: int| 0 <= k < i ==> #[trigger] builder.entries@[k] == (LayoutEntry {
                    binding: k as u32,
                    visibility: self.comps()[k].vis_type().1,
                    ty: self.comps()[k].vis_type().0,
                }),
            decreases n - i,
        {
            let (ty, visibility) = self.components[i].get_vis_type();
            let binding = i as u32;
            builder.add_entry(LayoutEntry { binding, visibility, ty });
            i = i + 1;
        }
        builder
    }

    /// Get the uniforms of this material as binding-builder pairs: the slot of
    /// each is the component's position, and its key is the component's key,
    /// namespaced to this material unless the component is global.
    pub fn get_uniforms(&self) -> (r: Vec<(ResourceBinding, UniformBuilder)>)
        requires
            self.comps().len() <= u32::MAX,
        ensures
            r@.len() == self.comps().len(),
            forall|i: int| 0 <= i < r@.len() ==> {
                &&& (#[trigger] r@[i]).0.slot == i
                &&& r@[i].0.id.key@ == binding_key(self.key(), self.comps()[i].id_key(), self.comps()[i].id_scope())
                &&& r@[i].0.id.scope == self.comps()[i].id_scope()
                &&& same_type(r@[i].0.id.r_type, self.comps()[i].id_type())
                &&& self.comps()[i].builds(r@[i].1)
            },
    {
        let mut builders: Vec<(ResourceBinding, UniformBuilder)> = Vec::new();
        let n = self.components.len();
        let mut i: usize = 0;
        while i < n
            invariant
                n == self.comps().len(),
                n <= u32::MAX,
                i <= n,
                builders@.len() == i,
                forall|k: int| 0 <= k < i ==> {
                    &&& (#[trigger] builders@[k]).0.slot == k
                    &&& builders@[k].0.id.key@ == binding_key(self.key(), self.comps()[k].id_key(), self.comps()[k].id_scope())
                    &&& builders@[k].0.id.scope == self.comps()[k].id_scope()
                    &&& same_type(builders@[k].0.id.r_type, self.comps()[k].id_type())
                    &&& self.comps()[k].builds(builders@[k].1)
                },
            decreases n - i,
        {
            let component = &self.components[i];
            let id = component.get_id();
            let key = match id.scope {
                ResourceScope::Global => id.key,
                _ => self.namespace_component(&id.key),
            };
            let slot = i as u32;
            let binding = ResourceBinding { id: ResourceID { key, scope: id.scope, r_type: id.r_type }, slot };
            builders.push((binding, component.get_uniform_builder()));
            i = i + 1;
        }
        builders
    }
}

} // verus!
