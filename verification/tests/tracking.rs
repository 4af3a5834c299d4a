use wgpu_renderer::bind_group::{BindGroupBuilder, BindGroupResource};
use wgpu_renderer::context::{
    bind_group_resources, pipeline_step, prepare_bind_group, store_of_type, update_fits, BindingLookup, PipelineStep, ResourceStore,
};
use wgpu_renderer::handler::{ResourceHandler, ResourceStatus};
use wgpu_renderer::layout::{VertexLayoutBuilder, VertexStepMode};
use wgpu_renderer::render_pipeline::RenderPipelineBuilder;
use wgpu_renderer::resources::{ResourceID, ResourceScope, ResourceType};
use wgpu_renderer::tracker::{KeySet, ResourceTracker};

fn id(key: &str, r_type: ResourceType) -> ResourceID {
    ResourceID { key: key.to_string(), scope: ResourceScope::Primitive, r_type }
}

#[test]
fn key_sets_hold_each_key_once() {
    let mut set: KeySet<String> = KeySet::new();
    assert_eq!(set.len(), 0);
    assert!(set.insert("a".to_string()));
    assert!(set.insert("b".to_string()));
    assert!(!set.insert("a".to_string()));
    assert_eq!(set.len(), 2);
    assert!(set.contains(&"b".to_string()));
    assert!(!set.contains(&"c".to_string()));
    set.clear();
    assert_eq!(set.len(), 0);
    assert!(!set.contains(&"a".to_string()));
}

#[test]
fn pipelines_are_told_apart_by_description() {
    let mut set: KeySet<RenderPipelineBuilder> = KeySet::new();
    assert!(set.insert(RenderPipelineBuilder::new()));
    assert!(!set.insert(RenderPipelineBuilder::new()));
    assert!(set.insert(RenderPipelineBuilder::new().with_no_culling()));
    assert!(set.insert(RenderPipelineBuilder::new().with_alpha_blending()));
    assert!(set.insert(RenderPipelineBuilder::new().with_label("other")));
    assert_eq!(set.len(), 4);
    assert!(set.contains(&RenderPipelineBuilder::new().with_no_culling()));
    assert!(!set.contains(&RenderPipelineBuilder::new().with_front_culling()));
}

#[test]
fn resource_ids_are_told_apart_by_key_scope_and_type() {
    let mut set: KeySet<ResourceID> = KeySet::new();
    assert!(set.insert(id("k", ResourceType::Texture)));
    assert!(!set.insert(id("k", ResourceType::Texture)));
    assert!(set.insert(id("k", ResourceType::Sampler)));
    assert!(set.insert(ResourceID { key: "k".to_string(), scope: ResourceScope::Global, r_type: ResourceType::Texture }));
    assert!(set.insert(id("k", ResourceType::Vertex(VertexLayoutBuilder::with_position()))));
    assert!(!set.insert(id("k", ResourceType::Vertex(VertexLayoutBuilder::with_position()))));
    assert!(set.insert(id("k", ResourceType::Vertex(VertexLayoutBuilder::new(VertexStepMode::Vertex)))));
    assert!(set.insert(id("k", ResourceType::Instance(VertexLayoutBuilder::with_position()))));
    assert_eq!(set.len(), 6);
}

#[test]
fn trackers_copy_and_clear() {
    let mut a = ResourceTracker::new();
    a.shader_specs.insert("s.wgsl".to_string());
    a.pipelines.insert(RenderPipelineBuilder::new());
    a.buffers.insert(id("b", ResourceType::Uniform));
    let mut b = ResourceTracker::new();
    b.shader_specs.insert("t.wgsl".to_string());
    b.shader_specs.insert("s.wgsl".to_string());
    b.textures.insert(id("t", ResourceType::Texture));
    b.copy_from(&a);
    assert_eq!(b.shader_specs.len(), 2);
    assert!(b.shader_specs.contains(&"t.wgsl".to_string()));
    assert_eq!(b.pipelines.len(), 1);
    assert_eq!(b.buffers.len(), 1);
    assert_eq!(b.textures.len(), 1);
    b.copy_from(&a);
    assert_eq!(b.shader_specs.len(), 2);
    assert_eq!(b.pipelines.len(), 1);
    b.clear();
    assert_eq!(b.shader_specs.len(), 0);
    assert_eq!(b.textures.len(), 0);
    b.copy_from(&a);
    assert_eq!(b.shader_specs.len(), 1);
    assert!(b.shader_specs.contains(&"s.wgsl".to_string()));
    assert_eq!(b.samplers.len(), 0);
}

#[test]
fn bind_groups_keep_label_and_entries() {
    let empty: Vec<(u32, BindGroupResource)> = Vec::new();
    let group = BindGroupBuilder::new().with_label("group").with_resources(empty);
    assert_eq!(group.label, "group");
    assert!(group.entries.is_empty());
    assert_eq!(BindGroupBuilder::new().label, "bind-group-builder");
}

#[test]
fn resource_types_have_stores() {
    assert_eq!(store_of_type(&ResourceType::Texture), ResourceStore::Textures);
    assert_eq!(store_of_type(&ResourceType::Sampler), ResourceStore::Samplers);
    assert_eq!(store_of_type(&ResourceType::Font), ResourceStore::Fonts);
    assert_eq!(store_of_type(&ResourceType::BindGroup), ResourceStore::BindGroups);
    assert_eq!(store_of_type(&ResourceType::Uniform), ResourceStore::Buffers);
    assert_eq!(store_of_type(&ResourceType::Index), ResourceStore::Buffers);
    assert_eq!(store_of_type(&ResourceType::Instance(VertexLayoutBuilder::with_transform())), ResourceStore::Buffers);
}

#[test]
fn updates_fit_within_the_buffer() {
    assert!(update_fits(0, 16, 16));
    assert!(update_fits(16, 0, 16));
    assert!(!update_fits(8, 16, 16));
    assert!(!update_fits(17, 0, 16));
    assert!(!update_fits(u64::MAX, 1, u64::MAX));
    assert!(update_fits(u64::MAX - 1, 1, u64::MAX));
}

#[test]
fn bind_groups_wait_for_every_binding() {
    assert_eq!(bind_group_resources(Vec::new()).map(|r| r.len()), Some(0));
    let missing = BindingLookup { slot: 0, buffer: None, texture: None, font_atlas: None, sampler: None };
    assert!(bind_group_resources(vec![missing]).is_none());
}

fn accessed(h: &ResourceHandler<u32>, key: &str) -> Option<u64> {
    match h.status_of(key) {
        Some(ResourceStatus::Ready(r)) => Some(r.accessed),
        _ => None,
    }
}

#[test]
fn bind_group_dependencies_are_marked_accessed() {
    let mut buffers: ResourceHandler<u32> = ResourceHandler::new();
    let mut textures: ResourceHandler<u32> = ResourceHandler::new();
    let mut samplers: ResourceHandler<u32> = ResourceHandler::new();
    buffers.store("b", 1, Some(5), 100);
    buffers.store("other", 2, Some(5), 100);
    textures.store("t", 3, Some(5), 100);
    let deps = vec![id("b", ResourceType::Uniform), id("t", ResourceType::Texture), id("gone", ResourceType::Sampler)];
    prepare_bind_group(&mut buffers, &mut textures, &mut samplers, &deps, 900);
    assert_eq!(accessed(&buffers, "b"), Some(900));
    assert_eq!(accessed(&buffers, "other"), Some(100));
    assert_eq!(accessed(&textures, "t"), Some(900));
    assert!(!samplers.contains("gone"));
}

#[test]
fn pipelines_wait_for_what_they_need() {
    let none: Vec<bool> = Vec::new();
    assert_eq!(pipeline_step(true, true, true, &none, &none), PipelineStep::Wait);
    assert_eq!(pipeline_step(false, false, true, &none, &none), PipelineStep::Wait);
    assert_eq!(pipeline_step(false, true, false, &none, &none), PipelineStep::RequestModule);
    assert_eq!(pipeline_step(false, true, true, &none, &none), PipelineStep::Create);
    assert_eq!(pipeline_step(false, true, true, &vec![true, false], &none), PipelineStep::Wait);
    assert_eq!(pipeline_step(false, true, true, &vec![true, true], &vec![false]), PipelineStep::Wait);
    assert_eq!(pipeline_step(false, true, true, &vec![true, true], &vec![true]), PipelineStep::Create);
}
