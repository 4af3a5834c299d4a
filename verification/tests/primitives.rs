use std::sync::Arc;
use wgpu_renderer::data_table::{DataTable, VecKind};
use wgpu_renderer::geometry::{Geometry, GeometryData};
use wgpu_renderer::ids::IdCounter;
use wgpu_renderer::bind_group::{BindGroupLayoutBuilder, LayoutBindType, LayoutVisibility};
use wgpu_renderer::layout::{Vec3Attribute, VertexFormat, VertexLayoutBuilder, VertexStepMode};
use wgpu_renderer::material::{ColorComponent, Component, Material, SamplerComponent};
use wgpu_renderer::presets::{RenderPipeline, ShaderSpecPreset, TextureSampler};
use wgpu_renderer::primitive::{Primitive, RenderInfo};
use wgpu_renderer::resources::{ResourceID, ResourceScope, ResourceType};
use wgpu_renderer::shader::{ShaderAttribute, ShaderSpecBuilder};

fn geometry() -> Geometry<u32> {
    let data = Arc::new(GeometryData {
        label: "quad".to_string(),
        vertices: DataTable::new(4),
        indices: vec![0, 1, 2],
        vertex_count: 4,
    });
    Geometry::new(data).with_attribute(Vec3Attribute("position").spec())
}

fn material(ids: &mut IdCounter) -> Material<Component> {
    let mut m = Material::new(ids, "mat");
    m.add_component(Component::Color(ColorComponent::new("tint", vec![9; 16])));
    m.add_component(Component::Sampler(SamplerComponent::new(TextureSampler::LinearRepeat)));
    m
}

fn info() -> RenderInfo {
    RenderInfo { shader_path: ShaderSpecPreset::ColoredSpriteInstanced.path(), pipeline: RenderPipeline::ColoredSpriteInstanced.get() }
}

#[test]
fn primitive_keys_are_namespaced() {
    let mut ids = IdCounter::new();
    let m = material(&mut ids);
    let p = Primitive::new(&mut ids, "sprite", geometry(), m, 7u32, info());
    assert_eq!(p.label, "sprite");
    assert_eq!(p.instances.count(), 1);
    assert_eq!(p.instance_id().key, "quad_1::sprite");
    assert_eq!(p.instance_id().scope, ResourceScope::Primitive);
    assert_eq!(p.material_id().key, "quad_1::quad");
    assert!(matches!(p.material_id().r_type, ResourceType::BindGroup));
    assert_eq!(p.geometry_id().indices, 3);
    let uniforms = p.get_uniforms();
    assert_eq!(uniforms[0].0.id.key, "quad_1::mat_0::tint");
    assert_eq!(uniforms[1].0.id.key, "linear_repeat");
    assert_eq!(uniforms[1].0.slot, 1);
}

#[test]
fn primitive_updates_are_namespaced_once() {
    let mut ids = IdCounter::new();
    let m = material(&mut ids);
    let mut p = Primitive::new(&mut ids, "sprite", geometry(), m, 7u32, info());
    let updates = p.uniform_updates();
    assert_eq!(updates.len(), 1);
    assert_eq!(updates[0].0.key, "quad_1::mat_0::tint");
    assert_eq!(updates[0].1.data, vec![9; 16]);
    assert!(p.uniform_updates().is_empty());
}

#[test]
fn instanced_primitive_and_templates() {
    let mut ids = IdCounter::new();
    let m = material(&mut ids);
    let p = Primitive::new_instanced(&mut ids, "many", geometry(), m, vec![1u32, 2, 3], info());
    assert_eq!(p.instances.count(), 3);
    assert!(p.get_first().is_some());
    assert_eq!(*p.first().get_attribute("transform").unwrap().get(), 1);
    let t = p.get_template();
    assert_eq!(t.attributes(), vec!["transform".to_string()]);
    assert_eq!(t.data.property_len("transform"), Some(0));
    assert!(t.data.get_property("transform", VecKind::Dirty).is_some());
}

#[test]
fn first_mut_changes_the_first_instance() {
    let mut ids = IdCounter::new();
    let m = material(&mut ids);
    let mut p = Primitive::new(&mut ids, "one", geometry(), m, 1u32, info());
    {
        let mut first = p.first_mut();
        assert!(first.set_attribute("transform", 5));
    }
    assert_eq!(*p.first().get_attribute("transform").unwrap().get(), 5);
    let mut empty = Primitive::new_instanced(&mut ids, "none", geometry(), material(&mut IdCounter::new()), Vec::<u32>::new(), info());
    assert!(empty.get_first_mut().is_none());
    assert!(empty.get_first().is_none());
}

#[test]
fn shader_vertex_layouts() {
    let spec = ShaderSpecBuilder::new("s.wgsl")
        .with_vertex_attribute(ShaderAttribute::Position, 0)
        .with_vertex_attribute(ShaderAttribute::UV, 1)
        .with_instance_attribute(ShaderAttribute::Transform, 2)
        .with_source("// source".to_string());
    assert_eq!(spec.vs_main, "vs_main");
    assert_eq!(spec.fs_main, "fs_main");
    assert_eq!(spec.shader_builder.path, "s.wgsl");
    assert_eq!(spec.shader_builder.source, "// source");
    assert_eq!(spec.get_vertex_attributes(), vec![(ShaderAttribute::Position, 0), (ShaderAttribute::UV, 1)]);
    let layouts = spec.build_vertex_layouts();
    assert_eq!(layouts.len(), 2);
    assert_eq!(layouts[0].curr_offset, 20);
    assert_eq!(layouts[0].attributes[1].offset, 12);
    assert_eq!(layouts[0].attributes[1].format, VertexFormat::Float32x2);
    let locations: Vec<u32> = layouts[1].attributes.iter().map(|a| a.shader_location).collect();
    assert_eq!(locations, vec![2, 3, 4, 5]);
    assert_eq!(layouts[1].curr_offset, 64);
    assert!(ShaderSpecBuilder::new("x").with_source(String::new()).build_vertex_layouts().is_empty());
}

#[test]
fn shader_layouts_given_whole_follow() {
    let mut builder = ShaderSpecBuilder::new("s.wgsl")
        .with_vertex_attribute(ShaderAttribute::Position, 0)
        .with_vt_layout(VertexLayoutBuilder::with_transform());
    builder.add_vt_layout(VertexLayoutBuilder::with_position().with_label("extra"));
    builder.add_bg_layout(BindGroupLayoutBuilder::new().with_uniform_entry(LayoutVisibility::Vertex));
    let spec = builder.with_source(String::new());
    assert_eq!(spec.bg_layouts.len(), 1);
    assert_eq!(spec.bg_layouts[0].entries[0].binding, 0);
    let layouts = spec.build_vertex_layouts();
    assert_eq!(layouts.len(), 3);
    assert_eq!(layouts[0].curr_offset, 12);
    assert_eq!(layouts[1].step_mode, VertexStepMode::Instance);
    assert_eq!(layouts[1].curr_offset, 64);
    let locations: Vec<u32> = layouts[1].attributes.iter().map(|a| a.shader_location).collect();
    assert_eq!(locations, vec![8, 9, 10, 11]);
    assert_eq!(layouts[2].label, "extra");
    assert_eq!(layouts[2].attributes[0].shader_location, 0);
    assert_eq!(layouts[2].curr_offset, 16);
}

#[test]
fn uniform_entries_take_slots_in_order() {
    let layout = BindGroupLayoutBuilder::new()
        .with_uniform_entry(LayoutVisibility::Vertex)
        .with_uniform_entry(LayoutVisibility::Fragment);
    let slots: Vec<u32> = layout.entries.iter().map(|e| e.binding).collect();
    assert_eq!(slots, vec![0, 1]);
    assert_eq!(layout.entries[1].visibility, LayoutVisibility::Fragment);
    assert_eq!(layout.entries[1].ty, LayoutBindType::Uniform);
    assert!(layout.has_binding(1));
    assert!(!layout.has_binding(2));
    let layout = layout.with_next_entry(LayoutVisibility::Fragment, LayoutBindType::Sampler);
    assert_eq!(layout.entries[2].binding, 2);
    assert_eq!(layout.entries[2].ty, LayoutBindType::Sampler);
}

#[test]
fn resource_ids_copy() {
    let id = ResourceID { key: "k".to_string(), scope: ResourceScope::Material, r_type: ResourceType::Texture };
    let copy = id.duplicate();
    assert_eq!(copy.key, "k");
    assert_eq!(copy.scope, ResourceScope::Material);
    assert!(matches!(copy.r_type, ResourceType::Texture));
}
