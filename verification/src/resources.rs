use vstd::prelude::*;
use crate::layout::VertexLayoutBuilder;
use std::sync::Arc;
use std::sync::atomic::AtomicBool;

verus! {

/// Specifies the scope at which a resource is namespaced, which decides how
/// widely it is shared.
#[derive(PartialEq, Eq, Structural, Clone, Copy, Debug)]
pub enum ResourceScope {
    /// Scoped to individual primitives and not shared (best used for buffers).
    Primitive,
    /// Scoped to materials and shared between primitives (best used for textures).
    Material,
    /// Globally scoped and shared everywhere (best used for samplers and fonts).
    Global,
}

/// The type of a stored gpu resource.
pub enum ResourceType {
    /// A uniform buffer.
    Uniform,
    /// A vertex buffer with vertex step mode.
    Vertex(VertexLayoutBuilder),
    /// A vertex buffer with instance step mode.
    Instance(VertexLayoutBuilder),
    /// An index buffer.
    Index,
    /// A storage buffer.
    Storage,
    /// A texture view.
    Texture,
    /// A texture sampler.
    Sampler,
    /// A bind group.
    BindGroup,
    /// A font asset (atlas and metrics).
    Font,
}

/// Whether two layouts describe the same vertex buffer layout.
pub open spec fn same_layout(a: VertexLayoutBuilder, b: VertexLayoutBuilder) -> bool {
    &&& a.label@ == b.label@
    &&& a.attributes@ == b.attributes@
    &&& a.curr_offset == b.curr_offset
    &&& a.step_mode == b.step_mode
}

/// Whether two resource types are the same type (with the same layout, for
/// vertex and instance buffers).
pub open spec fn same_type(a: ResourceType, b: ResourceType) -> bool {
    match (a, b) {
        (ResourceType::Uniform, ResourceType::Uniform) => true,
        (ResourceType::Vertex(x), ResourceType::Vertex(y)) => same_layout(x, y),
        (ResourceType::Instance(x), ResourceType::Instance(y)) => same_layout(x, y),
        (ResourceType::Index, ResourceType::Index) => true,
        (ResourceType::Storage, ResourceType::Storage) => true,
        (ResourceType::Texture, ResourceType::Texture) => true,
        (ResourceType::Sampler, ResourceType::Sampler) => true,
        (ResourceType::BindGroup, ResourceType::BindGroup) => true,
        (ResourceType::Font, ResourceType::Font) => true,
        _ => false,
    }
}

impl ResourceType {
    /// A copy of this resource type.
    pub fn duplicate(&self) -> (r: Self)
        ensures
            same_type(r, *self),
    {
        match self {
            ResourceType::Uniform => ResourceType::Uniform,
            ResourceType::Vertex(b) => ResourceType::Vertex(b.duplicate()),
            ResourceType::Instance(b) => ResourceType::Instance(b.duplicate()),
            ResourceType::Index => ResourceType::Index,
            ResourceType::Storage => ResourceType::Storage,
            ResourceType::Texture => ResourceType::Texture,
            ResourceType::Sampler => ResourceType::Sampler,
            ResourceType::BindGroup => ResourceType::BindGroup,
            ResourceType::Font => ResourceType::Font,
        }
    }
}

/// The identifier of a gpu resource: its unique key, its scope and its type.
pub struct ResourceID {
    /// The unique key of the resource.
    pub key: String,
    /// The namespaced scope of the resource.
    pub scope: ResourceScope,
    /// The resource type.
    pub r_type: ResourceType,
}

impl ResourceID {
    /// A copy of this id.
    pub fn duplicate(&self) -> (r: Self)
        ensures
            r.key@ == self.key@,
            r.scope == self.scope,
            same_type(r.r_type, self.r_type),
    {
        ResourceID { key: self.key.clone(), scope: self.scope, r_type: self.r_type.duplicate() }
    }
}

/// The binding of a resource in a bind group.
pub struct ResourceBinding {
    /// The id of the resource.
    pub id: ResourceID,
    /// The bind slot of the resource in a matching shader.
    pub slot: u32,
}

/// The ids of the buffers of a geometry.
pub struct GeometryID {
    pub vertex_id: ResourceID,
    pub index_id: ResourceID,
    pub indices: u32,
}

/// How long a gpu resource stays in memory after it was last used.
#[derive(PartialEq, Eq, Structural, Clone, Copy, Debug)]
pub enum HoldPolicy {
    /// Kept for a short time (5 seconds).
    Volatile,
    /// Kept for a medium short time (10 seconds).
    Dynamic,
    /// Kept for a medium long time (15 seconds).
    Transient,
    /// Kept for a long time (30 seconds).
    Persistent,
    /// Kept for the entire runtime.
    Indefinite,
}

impl HoldPolicy {
    /// The hold time in seconds, if the resource is ever released.
    pub open spec fn spec_seconds(self) -> Option<u64> {
        match self {
            HoldPolicy::Indefinite => None,
            HoldPolicy::Volatile => Some(5),
            HoldPolicy::Dynamic => Some(10),
            HoldPolicy::Transient => Some(15),
            HoldPolicy::Persistent => Some(30),
        }
    }

    /// Get this hold policy in seconds.
    pub fn as_seconds(self) -> (s: Option<u64>)
        ensures
            s == self.spec_seconds(),
    {
        match self {
            HoldPolicy::Indefinite => None,
            HoldPolicy::Volatile => Some(5),
            HoldPolicy::Dynamic => Some(10),
            HoldPolicy::Transient => Some(15),
            HoldPolicy::Persistent => Some(30),
        }
    }
}

/// Specifies the type of work that a resource builder does.
#[derive(PartialEq, Eq, Structural, Clone, Copy, Debug)]
pub enum BuilderType {
    /// Mostly non-blocking, or io-bound, work (such as reading a file).
    NonBlocking,
    /// Mostly blocking, or cpu-bound, work (such as generating a texture).
    Blocking,
}

/// A builder of resources of type `Output` from a shared `Context`, as a
/// resource handler's worker runs it.
pub trait ResourceBuilder {
    /// What the builder makes.
    type Output;
    /// What the builder needs to make it.
    type Context;

    /// The kind of work this builder does. The default is non-blocking.
    fn builder_type(&self) -> (kind: BuilderType)
        default_ensures
            kind == BuilderType::NonBlocking,
    {
        BuilderType::NonBlocking
    }

    /// Seconds to keep the resource after its last access; `None` (the
    /// default) keeps it indefinitely.
    fn hold_time(&self) -> (seconds: Option<u64>)
        default_ensures
            seconds is None,
    {
        None
    }

    /// Make the resource. `cancel_flag` is set when the handler gives the
    /// builder up; long running builders should stop then.
    fn build(&self, context: Arc<Self::Context>, cancel_flag: Arc<AtomicBool>) -> Result<Self::Output, String>;
}

/// A high level description of a resource that gives a builder for it.
pub trait ResourceTemplate {
    /// The builder that this template gives.
    type Builder: ResourceBuilder;

    /// The builder configured as this template says.
    fn to_builder(&self) -> Self::Builder;
}

/// Initialization mode for state initialization commands.
#[derive(PartialEq, Eq, Structural, Clone, Copy, Debug)]
pub enum InitMode {
    /// Request creation, and wait until it is finished (blocks the main thread).
    Immediate,
    /// Request creation, without waiting for it.
    Deferred,
}

} // verus!
