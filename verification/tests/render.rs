use std::sync::Arc;
use wgpu_renderer::bind_group::{LayoutBindType, LayoutEntry, LayoutVisibility};
use wgpu_renderer::buffer::{BufferBuilder, BufferType};
use wgpu_renderer::geometry::{Geometry, GeometryData};
use wgpu_renderer::ids::IdCounter;
use wgpu_renderer::init_state::StateInit;
use wgpu_renderer::layout::{TransformAttribute, Vec2Attribute, Vec3Attribute, VertexAttributeLayout, VertexStepMode};
use wgpu_renderer::material::{
    ColorComponent, Component, FontComponent, Material, MaterialComponent, SamplerComponent, TextureComponent, UniformBuilder,
};
use wgpu_renderer::mesh::{Mesh, MeshData};
use wgpu_renderer::particle::ParticleConfig;
use wgpu_renderer::presets::{MaterialPreset, ShaderSpecPreset, TextureSampler};
use wgpu_renderer::render_pipeline::RenderPipelineBuilder;
use wgpu_renderer::resources::{BuilderType, HoldPolicy, InitMode, ResourceBuilder, ResourceID, ResourceScope, ResourceType};
use wgpu_renderer::shape_factory::{gen_square, Shape2D};
use wgpu_renderer::transient::{InitCommand, RenderCommand, Renderer};
use wgpu_renderer::uniform::pad_uniform;

#[test]
fn ids_are_sequential_and_wrap() {
    let mut ids = IdCounter::new();
    assert_eq!(ids.next_id(), 0);
    assert_eq!(ids.next_id(), 1);
    let a = ids.next_id();
    let b = ids.next_id();
    assert_ne!(a, b);
}

#[test]
fn mesh_keys_hold_label_and_ids() {
    let mut ids = IdCounter::new();
    let data = Arc::new(MeshData::new(&mut ids, vec![1u8, 2], vec![0u32, 1, 2]).with_label("quad"));
    assert_eq!(data.id(), 0);
    assert_eq!(data.label(), "quad");
    assert_eq!(data.num_indices(), 3);
    let mesh = Mesh::new(&mut ids, "tree", data.clone());
    assert_eq!(mesh.get_key(), "tree_1_0");
    let copy = mesh.duplicate(&mut ids);
    assert_eq!(copy.get_key(), "tree_2_0");
    assert_ne!(copy.get_key(), mesh.get_key());
    let relabelled = mesh.duplicate_with_label(&mut ids, "bush");
    assert_eq!(relabelled.get_key(), "bush_3_0");
    assert!(Arc::ptr_eq(&mesh.get_data_builder(), &copy.get_data_builder()));
    assert_eq!(mesh.get_data_key(), 0);
}

#[test]
fn mesh_index_bytes_hold_each_index() {
    let mut ids = IdCounter::new();
    let data = MeshData::new(&mut ids, vec![0u8], vec![7u32, 65536, u32::MAX]);
    assert_eq!(data.label(), "{id}");
    let bytes = data.index_bytes();
    assert_eq!(bytes.len(), 12);
    let decoded: Vec<u32> = bytes.chunks(4).map(|c| u32::from_ne_bytes([c[0], c[1], c[2], c[3]])).collect();
    assert_eq!(decoded, vec![7, 65536, u32::MAX]);
    let dup = data.duplicate(&mut ids);
    assert_eq!(dup.id(), 1);
    assert_eq!(dup.index_bytes(), bytes);
}

#[test]
fn padding_to_sixteen_bytes() {
    assert_eq!(BufferBuilder::to_padded_vec(&[1, 2, 3]), vec![1, 2, 3, 0, 0, 0, 0, 0, 0, 0, 0, 0, 0, 0, 0, 0]);
    assert_eq!(BufferBuilder::to_padded_vec(&[5u8; 16]), vec![5u8; 16]);
    assert_eq!(BufferBuilder::to_padded_vec(&[]), Vec::<u8>::new());
    assert_eq!(pad_uniform(&[9u8; 17]).len(), 32);
}

#[test]
fn buffer_builders() {
    let b = BufferBuilder::as_uniform().with_label("u").with_capacity(64).with_data_from_struct(&[1u8; 20]);
    assert_eq!(b.label(), "u");
    assert_eq!(b.usage(), BufferType::Uniform);
    assert_eq!(b.data().len(), 32);
    assert_eq!(b.buffer_size(), 64);
    let small = BufferBuilder::as_vertex().with_capacity(4).with_data(vec![0u8; 10]);
    assert_eq!(small.buffer_size(), 10);
}

#[test]
fn instance_layout_locations() {
    let layout = VertexAttributeLayout::as_instance()
        .with_attribute(TransformAttribute.spec())
        .with_attribute(Vec2Attribute("uv").spec());
    assert_eq!(layout.stride(), 72);
    let b = layout.get_builder("inst");
    assert_eq!(b.step_mode, VertexStepMode::Instance);
    let locations: Vec<u32> = b.attributes.iter().map(|a| a.shader_location).collect();
    assert_eq!(locations, vec![6, 7, 8, 9, 10]);
    let offsets: Vec<u64> = b.attributes.iter().map(|a| a.offset).collect();
    assert_eq!(offsets, vec![0, 16, 32, 48, 64]);
    assert_eq!(b.curr_offset, 72);
}

#[test]
fn geometry_ids_and_signature() {
    let data = Arc::new(GeometryData {
        label: "square".to_string(),
        vertices: wgpu_renderer::data_table::DataTable::<u32>::new(4),
        indices: vec![0, 1, 2, 2, 3, 0],
        vertex_count: 4,
    });
    let g = Geometry::new(data).with_attribute(Vec3Attribute("position").spec());
    assert_eq!(g.get_label(), "square");
    let ids = g.get_ids();
    assert_eq!(ids.vertex_id.key, "square::vertices");
    assert_eq!(ids.index_id.key, "square::indices");
    assert_eq!(ids.indices, 6);
    match &ids.vertex_id.r_type {
        ResourceType::Vertex(b) => {
            assert_eq!(b.attributes.len(), 1);
            assert_eq!(b.attributes[0].shader_location, 0);
        },
        _ => panic!("expected a vertex layout"),
    }
    let sig = g.get_signature(vec![1u8; 48]);
    assert_eq!(sig.vertex_builder.label(), "square::vertices");
    assert_eq!(sig.vertex_builder.data(), &vec![1u8; 48]);
    assert_eq!(sig.index_builder.usage(), BufferType::Index);
    assert_eq!(sig.index_builder.data().len(), 24);
}

#[test]
fn square_is_created_once_and_shared() {
    let mut shapes: Shape2D<u32> = Shape2D::new();
    let a = shapes.square(vec![1, 2, 3, 4], vec![5, 6, 7, 8]);
    let b = shapes.square(vec![0; 4], vec![0; 4]);
    assert!(Arc::ptr_eq(&a, &b));
    assert_eq!(a.label, "square");
    assert_eq!(a.indices, vec![0, 1, 2, 2, 3, 0]);
    assert_eq!(a.vertex_count, 4);
    assert_eq!(a.vertices.keys(), vec!["position".to_string(), "uvs".to_string()]);
    assert_eq!(b.vertices.property_len("position"), Some(4));
    assert_eq!(b.vertices.property_len("uvs"), Some(4));
    let g = gen_square("s", vec![1u32, 2, 3, 4], vec![5u32, 6, 7, 8]);
    assert_eq!(g.label, "s");
    assert_eq!(g.vertices.property_len("position"), Some(4));
}

#[test]
fn material_keys_and_uniforms() {
    let mut ids = IdCounter::new();
    let mut m: Material<Component> = Material::new(&mut ids, "sprite");
    assert_eq!(m.get_key(), "sprite_0");
    m.add_component(Component::Texture(TextureComponent::new("tex", "img.png")));
    m.add_component(Component::Sampler(SamplerComponent::new(TextureSampler::LinearRepeat)));
    let uniforms = m.get_uniforms();
    assert_eq!(uniforms.len(), 2);
    assert_eq!(uniforms[0].0.slot, 0);
    assert_eq!(uniforms[0].0.id.key, "sprite_0::img.png");
    assert_eq!(uniforms[0].0.id.scope, ResourceScope::Material);
    assert_eq!(uniforms[1].0.slot, 1);
    assert_eq!(uniforms[1].0.id.key, "linear_repeat");
    match &uniforms[1].1 {
        UniformBuilder::Sampler(s) => assert_eq!(s.label, "linear_repeat"),
        _ => panic!("expected a sampler"),
    }
    let layout = m.get_layout_builder();
    assert_eq!(layout.label, "sprite");
    assert_eq!(layout.entries.len(), 2);
    assert_eq!(layout.entries[0].binding, 0);
    assert_eq!(layout.entries[0].ty, LayoutBindType::Texture);
    assert_eq!(layout.entries[1].binding, 1);
    assert_eq!(layout.entries[1].ty, LayoutBindType::Sampler);
    assert_eq!(layout.entries[1].visibility, LayoutVisibility::Fragment);
    let other: Material<Component> = Material::new(&mut ids, "sprite");
    assert_ne!(other.get_key(), m.get_key());
}

#[test]
fn color_updates_are_reported_once() {
    let mut ids = IdCounter::new();
    let mut m: Material<Component> = Material::new(&mut ids, "colored");
    m.add_component(Component::Color(ColorComponent::new("tint", vec![1, 2, 3, 4])));
    let updates = m.get_updated();
    assert_eq!(updates.len(), 1);
    assert_eq!(updates[0].0.key, "colored_0::tint");
    assert_eq!(updates[0].1.data, vec![1, 2, 3, 4]);
    assert_eq!(updates[0].1.offset, 0);
    assert!(m.get_updated().is_empty());
}

#[test]
fn set_color_is_not_reported() {
    let mut c = ColorComponent::new("tint", vec![0; 16]);
    assert!(c.get_updated().is_some());
    c.set_color(vec![1; 16]);
    assert!(c.get_updated().is_none());
    match c.get_uniform_builder() {
        UniformBuilder::Buffer(b) => {
            assert_eq!(b.data(), &vec![1u8; 16]);
            assert_eq!(b.usage(), BufferType::Uniform);
        },
        _ => panic!("expected a buffer"),
    }
}

#[test]
fn font_component_keeps_its_id() {
    let id = ResourceID { key: "font.ttf".to_string(), scope: ResourceScope::Global, r_type: ResourceType::Font };
    let f = FontComponent::new("font", id);
    let got = f.get_id();
    assert_eq!(got.key, "font.ttf");
    assert_eq!(got.scope, ResourceScope::Global);
    assert!(matches!(f.get_uniform_builder(), UniformBuilder::PreAllocated));
    assert_eq!(f.get_vis_type(), (LayoutBindType::Texture, LayoutVisibility::Fragment));
}

#[test]
fn material_presets() {
    let mut ids = IdCounter::new();
    let colored = MaterialPreset::ColoredSprite(vec![0; 16]).with_label(&mut ids, "player");
    assert_eq!(colored.get_key(), "colored-sprite_0");
    let textured = MaterialPreset::TexturedSprite("a.png".to_string()).with_label(&mut ids, "tree");
    assert_eq!(textured.get_key(), "textured-sprite_1");
    let uniforms = textured.get_uniforms();
    assert_eq!(uniforms[1].0.id.key, "nearest_clamp-to-edge");
}

#[test]
fn preset_paths_and_samplers() {
    assert_eq!(ShaderSpecPreset::ColoredSprite.path(), "src/graphics/shaders/colored_sprite.wgsl");
    assert_eq!(TextureSampler::NearestMirrorRepeat.label(), "nearest_mirror-repeat");
    assert_eq!(HoldPolicy::Persistent.as_seconds(), Some(30));
    assert_eq!(HoldPolicy::Indefinite.as_seconds(), None);
    assert_eq!(HoldPolicy::Volatile.as_seconds(), Some(5));
    assert_eq!(HoldPolicy::Dynamic.as_seconds(), Some(10));
    assert_eq!(HoldPolicy::Transient.as_seconds(), Some(15));
}

#[test]
fn particle_spawn_counts() {
    let cfg = ParticleConfig { total_particles: 100, emit_cap: 10, is_one_shot: false };
    assert_eq!(cfg.spawn_count(0), 10);
    assert_eq!(cfg.spawn_count(95), 5);
    assert_eq!(cfg.spawn_count(100), 0);
    let once = ParticleConfig { total_particles: 100, emit_cap: 10, is_one_shot: true };
    assert_eq!(once.spawn_count(0), 0);
}

#[test]
fn command_buffers_keep_order() {
    let mut init = StateInit::new();
    init.add_render_pipeline(RenderPipelineBuilder::new().with_label("a"), InitMode::Immediate);
    init.add_render_pipeline(RenderPipelineBuilder::new().with_label("b"), InitMode::Deferred);
    let cmds = init.get_rpip_cmds();
    assert_eq!(cmds.len(), 2);
    assert_eq!(cmds[0].builder.label, "a");
    assert_eq!(cmds[1].mode, InitMode::Deferred);
    assert!(init.get_bgl_cmds().is_empty());

    let mut ids = IdCounter::new();
    let data = Arc::new(MeshData::new(&mut ids, vec![0u8], vec![0u32]));
    let mesh = Arc::new(Mesh::new(&mut ids, "m", data));
    let mut renderer = Renderer::new();
    renderer.draw(RenderCommand::Mesh(mesh.clone(), RenderPipelineBuilder::new()));
    let drawn = renderer.get_commands();
    match &drawn[0] {
        RenderCommand::Mesh(m, p) => {
            assert!(Arc::ptr_eq(m, &mesh));
            assert_eq!(p.label, "default-pipeline");
        },
    }
    let mut setup = wgpu_renderer::transient::StateInit::new();
    setup.add_mesh(mesh.clone());
    setup.add_render_pipeline(RenderPipelineBuilder::new());
    let cmds = setup.get_commands();
    assert!(matches!(cmds[0], InitCommand::Mesh(_)));
    assert!(matches!(cmds[1], InitCommand::Pipeline(_)));
}

struct CountBuilder;

impl ResourceBuilder for CountBuilder {
    type Output = u32;
    type Context = u32;

    fn build(&self, context: std::sync::Arc<u32>, _cancel_flag: std::sync::Arc<std::sync::atomic::AtomicBool>) -> Result<u32, String> {
        Ok(*context + 1)
    }
}

#[test]
fn builder_defaults_are_non_blocking_and_kept() {
    let builder = CountBuilder;
    assert_eq!(builder.builder_type(), BuilderType::NonBlocking);
    assert_eq!(builder.hold_time(), None);
    let flag = std::sync::Arc::new(std::sync::atomic::AtomicBool::new(false));
    assert_eq!(builder.build(std::sync::Arc::new(4), flag), Ok(5));
}

#[test]
fn preset_shader_layouts_in_order() {
    let colored = ShaderSpecPreset::ColoredSprite.get();
    let labels: Vec<&str> = colored.bg_layouts.iter().map(|l| l.label.as_str()).collect();
    assert_eq!(labels, vec!["global-uniforms", "colored-sprite", "transform"]);
    assert_eq!(colored.bg_layouts[1].entries, vec![LayoutEntry { binding: 0, visibility: LayoutVisibility::Fragment, ty: LayoutBindType::Uniform }]);
    assert_eq!(colored.bg_layouts[2].entries, vec![LayoutEntry { binding: 0, visibility: LayoutVisibility::Vertex, ty: LayoutBindType::Uniform }]);

    let textured = ShaderSpecPreset::TexturedSpriteInstanced.get();
    let labels: Vec<&str> = textured.bg_layouts.iter().map(|l| l.label.as_str()).collect();
    assert_eq!(labels, vec!["global-uniforms", "textured-sprite"]);
    assert_eq!(
        textured.bg_layouts[1].entries,
        vec![
            LayoutEntry { binding: 0, visibility: LayoutVisibility::Fragment, ty: LayoutBindType::Texture },
            LayoutEntry { binding: 1, visibility: LayoutVisibility::Fragment, ty: LayoutBindType::Sampler },
        ]
    );
}

#[test]
fn mesh_keys_write_ids_in_decimal() {
    let mut ids = IdCounter::new();
    for _ in 0..1203 {
        ids.next_id();
    }
    let data = Arc::new(MeshData::new(&mut ids, vec![1u8], vec![0u32]));
    let mesh = Mesh::new(&mut ids, "tree", data);
    assert_eq!(mesh.get_key(), "tree_1204_1203");
}
