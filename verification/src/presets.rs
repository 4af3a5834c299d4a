use vstd::prelude::*;
use crate::bind_group::{BindGroupLayoutBuilder, LayoutBindType, LayoutEntry, LayoutVisibility};
use crate::render_pipeline::{BlendComponent, BlendFactor, BlendOperation, BlendState, RenderPipelineBuilder, alpha_blending, draws_over, law_blending_modes};
use crate::shader::{ShaderAttribute, ShaderSpecBuilder};
use crate::text::{owned, same_text};
use crate::texture::{AddressMode, FilterMode, SamplerBuilder};
use crate::ids::IdCounter;
use crate::material::{ColorComponent, Component, Material, MaterialComponent, SamplerComponent, TextureComponent};
use std::sync::Arc;

verus! {

/// Preset materials.
pub enum MaterialPreset {
    /// A material with a single color uniform, given as the bytes of its rgba value.
    ColoredSprite(Vec<u8>),
    /// A material with a single texture uniform, read from the given image
    /// path, and a sampler.
    TexturedSprite(String),
}

/// Whether `c` is the color component of a colored sprite labelled `label`.
pub open spec fn is_sprite_color(c: Component, label: Seq<char>, color: Seq<u8>) -> bool {
    c matches Component::Color(cc) && cc.spec_label() == label && cc.spec_color() == color && cc.spec_dirty()
}

/// Whether `c` is the texture component of a textured sprite labelled `label`.
pub open spec fn is_sprite_texture(c: Component, label: Seq<char>, path: Seq<char>) -> bool {
    c matches Component::Texture(t) && t.spec_label() == label && t.spec_path() == path
}

/// Whether `c` is the sampler component of a textured sprite.
pub open spec fn is_sprite_sampler(c: Component) -> bool {
    c matches Component::Sampler(sc) && sc.spec_sampler() == TextureSampler::NearestClampToEdge
        && sc.spec_label() == sampler_label(TextureSampler::NearestClampToEdge)
}

/// The bind group layout entries that a material's components describe:
/// entry `i` at slot `i`, with the bind type and visibility of component `i`.
pub open spec fn component_entries(comps: Seq<Component>) -> Seq<LayoutEntry> {
    Seq::new(comps.len(), |i: int| LayoutEntry { binding: i as u32, visibility: comps[i].vis_type().1, ty: comps[i].vis_type().0 })
}

/// The preset materials fit the preset shaders: the layout a colored
/// sprite's material describes is the colored-sprite layout the shader
/// expects (its color a uniform read by the fragment stage), and the layout a
/// textured sprite's material describes is the textured-sprite layout (a
/// texture and a sampler, both read by the fragment stage).
pub proof fn law_sprite_materials_fit_shaders(comps: Seq<Component>, label: Seq<char>, color: Seq<u8>, path: Seq<char>)
    ensures
        (comps.len() == 1 && is_sprite_color(comps[0], label, color))
            ==> component_entries(comps) == colored_layout_spec().1,
        (comps.len() == 2 && is_sprite_texture(comps[0], label, path) && is_sprite_sampler(comps[1]))
            ==> component_entries(comps) == textured_layout_spec().1,
{
    if comps.len() == 1 && is_sprite_color(comps[0], label, color) {
        assert(component_entries(comps) =~= colored_layout_spec().1);
    }
    if comps.len() == 2 && is_sprite_texture(comps[0], label, path) && is_sprite_sampler(comps[1]) {
        assert(component_entries(comps) =~= textured_layout_spec().1);
    }
}

impl MaterialPreset {
    /// The material of this preset, with its components labelled `label`.
    pub fn with_label(self, ids: &mut IdCounter, label: &str) -> (m: Arc<Material<Component>>)
        ensures
            m.spec_id() == old(ids)@,
            final(ids)@ == (if old(ids)@ == u32::MAX { 0 } else { (old(ids)@ + 1) as u32 }),
            match self {
                MaterialPreset::ColoredSprite(color) => {
                    &&& m.spec_label() == "colored-sprite"@
                    &&& m.comps().len() == 1
                    &&& is_sprite_color(m.comps()[0], label@, color@)
                    &&& component_entries(m.comps()) == colored_layout_spec().1
                },
                MaterialPreset::TexturedSprite(path) => {
                    &&& m.spec_label() == "textured-sprite"@
                    &&& m.comps().len() == 2
                    &&& is_sprite_texture(m.comps()[0], label@, path@)
                    &&& is_sprite_sampler(m.comps()[1])
                    &&& component_entries(m.comps()) == textured_layout_spec().1
                },
            },
    {
        match self {
            MaterialPreset::ColoredSprite(color) => {
                let mut material = Material::new(ids, "colored-sprite");
                let ghost c = color@;
                material.add_component(Component::Color(ColorComponent::new(label, color)));
                proof {
                    law_sprite_materials_fit_shaders(material.comps(), label@, c, Seq::empty());
                }
                Arc::new(material)
            },
            MaterialPreset::TexturedSprite(path) => {
                let mut material = Material::new(ids, "textured-sprite");
                material.add_component(Component::Texture(TextureComponent::new(label, path.as_str())));
                material.add_component(Component::Sampler(SamplerComponent::new(TextureSampler::NearestClampToEdge)));
                proof {
                    law_sprite_materials_fit_shaders(material.comps(), label@, Seq::empty(), path@);
                }
                Arc::new(material)
            },
        }
    }
}

/// Preset shaders.
#[derive(PartialEq, Eq, Structural, Clone, Copy, Debug)]
pub enum ShaderSpecPreset {
    ColoredSprite,
    TexturedSprite,
    ColoredSpriteInstanced,
    TexturedSpriteInstanced,
}

/// The source path of a preset shader.
pub open spec fn preset_path(p: ShaderSpecPreset) -> Seq<char> {
    match p {
        ShaderSpecPreset::ColoredSprite => "src/graphics/shaders/colored_sprite.wgsl"@,
        ShaderSpecPreset::ColoredSpriteInstanced => "src/graphics/shaders/colored_sprite_instanced.wgsl"@,
        ShaderSpecPreset::TexturedSprite => "src/graphics/shaders/textured_sprite.wgsl"@,
        ShaderSpecPreset::TexturedSpriteInstanced => "src/graphics/shaders/textured_sprite_instanced.wgsl"@,
    }
}

/// The label and entries of a bind group layout.
pub type LayoutSpec = (Seq<char>, Seq<LayoutEntry>);

/// The layout of the global uniforms: one uniform seen by both stages.
pub open spec fn global_layout_spec() -> LayoutSpec {
    ("global-uniforms"@, seq![LayoutEntry { binding: 0, visibility: LayoutVisibility::VertexFragment, ty: LayoutBindType::Uniform }])
}

/// The layout of a single sprite's transform: one uniform seen by the vertex stage.
pub open spec fn transform_layout_spec() -> LayoutSpec {
    ("transform"@, seq![LayoutEntry { binding: 0, visibility: LayoutVisibility::Vertex, ty: LayoutBindType::Uniform }])
}

/// The layout of a colored sprite's material: one uniform seen by the fragment stage.
pub open spec fn colored_layout_spec() -> LayoutSpec {
    ("colored-sprite"@, seq![LayoutEntry { binding: 0, visibility: LayoutVisibility::Fragment, ty: LayoutBindType::Uniform }])
}

/// The layout of a textured sprite's material: a texture at slot 0 and a
/// sampler at slot 1, both seen by the fragment stage.
pub open spec fn textured_layout_spec() -> LayoutSpec {
    ("textured-sprite"@, seq![
        LayoutEntry { binding: 0, visibility: LayoutVisibility::Fragment, ty: LayoutBindType::Texture },
        LayoutEntry { binding: 1, visibility: LayoutVisibility::Fragment, ty: LayoutBindType::Sampler },
    ])
}

/// The bind group layouts of a preset shader, in order: the global uniforms,
/// the material's, then, for the sprites drawn one at a time, the transform.
pub open spec fn preset_layouts(p: ShaderSpecPreset) -> Seq<LayoutSpec> {
    match p {
        ShaderSpecPreset::ColoredSprite => seq![global_layout_spec(), colored_layout_spec(), transform_layout_spec()],
        ShaderSpecPreset::ColoredSpriteInstanced => seq![global_layout_spec(), colored_layout_spec()],
        ShaderSpecPreset::TexturedSprite => seq![global_layout_spec(), textured_layout_spec(), transform_layout_spec()],
        ShaderSpecPreset::TexturedSpriteInstanced => seq![global_layout_spec(), textured_layout_spec()],
    }
}

/// Whether a layout builder has the given label and entries.
pub open spec fn layout_is(b: BindGroupLayoutBuilder, l: LayoutSpec) -> bool {
    b.label@ == l.0 && b.entries@ == l.1
}

/// A layout with one entry at binding 0.
fn single_entry_layout(label: &str, visibility: LayoutVisibility, ty: LayoutBindType) -> (b: BindGroupLayoutBuilder)
    ensures
        b.label@ == label@,
        b.entries@ == seq![LayoutEntry { binding: 0, visibility, ty }],
{
    let b = BindGroupLayoutBuilder::new().with_label(label).with_entry(LayoutEntry { binding: 0, visibility, ty });
    assert(b.entries@ =~= seq![LayoutEntry { binding: 0, visibility, ty }]);
    b
}

impl ShaderSpecPreset {
    /// Get the source path of this shader.
    pub fn path(&self) -> (p: String)
        ensures
            p@ == preset_path(*self),
    {
        match self {
            ShaderSpecPreset::ColoredSprite => owned("src/graphics/shaders/colored_sprite.wgsl"),
            ShaderSpecPreset::ColoredSpriteInstanced => owned("src/graphics/shaders/colored_sprite_instanced.wgsl"),
            ShaderSpecPreset::TexturedSprite => owned("src/graphics/shaders/textured_sprite.wgsl"),
            ShaderSpecPreset::TexturedSpriteInstanced => owned("src/graphics/shaders/textured_sprite_instanced.wgsl"),
        }
    }

    /// Get the shader spec of this preset: its path, its attributes and their
    /// locations, and its bind group layouts (global uniforms, then the
    /// material's, then, for the sprites drawn one at a time, the transform).
    pub fn get(self) -> (b: ShaderSpecBuilder)
        ensures
            b.path@ == preset_path(self),
            b.vertex_attrs@ == (match self {
                ShaderSpecPreset::ColoredSprite | ShaderSpecPreset::ColoredSpriteInstanced => seq![(ShaderAttribute::Position, 0u32)],
                _ => seq![(ShaderAttribute::Position, 0u32), (ShaderAttribute::UV, 1u32)],
            }),
            b.instance_attrs@ == (match self {
                ShaderSpecPreset::ColoredSpriteInstanced => seq![(ShaderAttribute::Transform, 1u32)],
                ShaderSpecPreset::TexturedSpriteInstanced => seq![(ShaderAttribute::Transform, 2u32)],
                _ => Seq::empty(),
            }),
            b.vt_layouts@.len() == 0,
            b.bg_layouts@.len() == preset_layouts(self).len(),
            forall|i: int| 0 <= i < b.bg_layouts@.len() ==> layout_is(#[trigger] b.bg_layouts@[i], preset_layouts(self)[i]),
    {
        let global_layout = single_entry_layout("global-uniforms", LayoutVisibility::VertexFragment, LayoutBindType::Uniform);
        let transform_layout = single_entry_layout("transform", LayoutVisibility::Vertex, LayoutBindType::Uniform);
        let colored_sprite_layout = single_entry_layout("colored-sprite", LayoutVisibility::Fragment, LayoutBindType::Uniform);
        let textured_sprite_layout = BindGroupLayoutBuilder::new()
            .with_label("textured-sprite")
            .with_entry(LayoutEntry { binding: 0, visibility: LayoutVisibility::Fragment, ty: LayoutBindType::Texture })
            .with_entry(LayoutEntry { binding: 1, visibility: LayoutVisibility::Fragment, ty: LayoutBindType::Sampler });
        assert(textured_sprite_layout.entries@ =~= textured_layout_spec().1);
        assert(layout_is(global_layout, global_layout_spec()));
        assert(layout_is(transform_layout, transform_layout_spec()));
        assert(layout_is(colored_sprite_layout, colored_layout_spec()));
        let path = self.path();
        let b = match self {
            ShaderSpecPreset::ColoredSprite => {
                ShaderSpecBuilder::new(path.as_str())
                    .with_vertex_attribute(ShaderAttribute::Position, 0)
                    .with_bg_layout(global_layout)
                    .with_bg_layout(colored_sprite_layout)
                    .with_bg_layout(transform_layout)
            },
            ShaderSpecPreset::ColoredSpriteInstanced => {
                ShaderSpecBuilder::new(path.as_str())
                    .with_vertex_attribute(ShaderAttribute::Position, 0)
                    .with_instance_attribute(ShaderAttribute::Transform, 1)
                    .with_bg_layout(global_layout)
                    .with_bg_layout(colored_sprite_layout)
            },
            ShaderSpecPreset::TexturedSprite => {
                ShaderSpecBuilder::new(path.as_str())
                    .with_vertex_attribute(ShaderAttribute::Position, 0)
                    .with_vertex_attribute(ShaderAttribute::UV, 1)
                    .with_bg_layout(global_layout)
                    .with_bg_layout(textured_sprite_layout)
                    .with_bg_layout(transform_layout)
            },
            ShaderSpecPreset::TexturedSpriteInstanced => {
                ShaderSpecBuilder::new(path.as_str())
                    .with_vertex_attribute(ShaderAttribute::Position, 0)
                    .with_vertex_attribute(ShaderAttribute::UV, 1)
                    .with_instance_attribute(ShaderAttribute::Transform, 2)
                    .with_bg_layout(global_layout)
                    .with_bg_layout(textured_sprite_layout)
            },
        };
        proof {
            assert(b.vertex_attrs@ =~= (match self {
                ShaderSpecPreset::ColoredSprite | ShaderSpecPreset::ColoredSpriteInstanced => seq![(ShaderAttribute::Position, 0u32)],
                _ => seq![(ShaderAttribute::Position, 0u32), (ShaderAttribute::UV, 1u32)],
            }));
            assert(b.instance_attrs@ =~= (match self {
                ShaderSpecPreset::ColoredSpriteInstanced => seq![(ShaderAttribute::Transform, 1u32)],
                ShaderSpecPreset::TexturedSpriteInstanced => seq![(ShaderAttribute::Transform, 2u32)],
                _ => Seq::empty(),
            }));
        }
        b
    }

    /// The spec of the preset shader whose path is `shader_path`, if any.
    pub fn from_known_path(shader_path: &String) -> (r: Option<ShaderSpecBuilder>)
        ensures
            r is Some <==> (shader_path@ == preset_path(ShaderSpecPreset::ColoredSprite)
                || shader_path@ == preset_path(ShaderSpecPreset::ColoredSpriteInstanced)
                || shader_path@ == preset_path(ShaderSpecPreset::TexturedSprite)
                || shader_path@ == preset_path(ShaderSpecPreset::TexturedSpriteInstanced)),
            r matches Some(b) ==> b.path@ == shader_path@,
    {
        if same_text(shader_path.as_str(), ShaderSpecPreset::ColoredSprite.path().as_str()) {
            Some(ShaderSpecPreset::ColoredSprite.get())
        } else if same_text(shader_path.as_str(), ShaderSpecPreset::ColoredSpriteInstanced.path().as_str()) {
            Some(ShaderSpecPreset::ColoredSpriteInstanced.get())
        } else if same_text(shader_path.as_str(), ShaderSpecPreset::TexturedSprite.path().as_str()) {
            Some(ShaderSpecPreset::TexturedSprite.get())
        } else if same_text(shader_path.as_str(), ShaderSpecPreset::TexturedSpriteInstanced.path().as_str()) {
            Some(ShaderSpecPreset::TexturedSpriteInstanced.get())
        } else {
            None
        }
    }
}

/// Preset rendering pipelines.
#[derive(PartialEq, Eq, Structural, Clone, Copy, Debug)]
pub enum RenderPipeline {
    /// Simple 2D colored sprite rendering pipeline.
    ColoredSprite,
    /// 2D textured sprite rendering pipeline.
    TexturedSprite,
    /// 2D colored sprite pipeline for multiple instances.
    ColoredSpriteInstanced,
    /// 2D textured sprite pipeline for multiple instances.
    TexturedSpriteInstanced,
}

impl RenderPipeline {
    /// Get the pipeline builder that this preset stands for: labelled after the
    /// preset, blending with alpha for the textured sprites.
    pub fn get(self) -> (b: RenderPipelineBuilder)
        ensures
            b.label@ == (match self {
                RenderPipeline::ColoredSprite => "colored-sprite"@,
                RenderPipeline::TexturedSprite => "textured-sprite"@,
                RenderPipeline::ColoredSpriteInstanced => "colored-sprite-instanced"@,
                RenderPipeline::TexturedSpriteInstanced => "textured-sprite-instanced"@,
            }),
            b.blend_state == (match self {
                RenderPipeline::TexturedSprite | RenderPipeline::TexturedSpriteInstanced => Some(alpha_blending()),
                _ => Some(crate::render_pipeline::replace_blending()),
            }),
            (self is TexturedSprite || self is TexturedSpriteInstanced) ==> (b.blend_state matches Some(bs) && draws_over(bs)),
    {
        proof {
            law_blending_modes(0, 0, 0, 0);
        }
        match self {
            RenderPipeline::ColoredSprite => RenderPipelineBuilder::new().with_label("colored-sprite"),
            RenderPipeline::TexturedSprite => RenderPipelineBuilder::new().with_label("textured-sprite").with_alpha_blending(),
            RenderPipeline::ColoredSpriteInstanced => RenderPipelineBuilder::new().with_label("colored-sprite-instanced"),
            RenderPipeline::TexturedSpriteInstanced => {
                RenderPipelineBuilder::new().with_label("textured-sprite-instanced").with_custom_blending(BlendState {
                    color: BlendComponent { src_factor: BlendFactor::SrcAlpha, dst_factor: BlendFactor::OneMinusSrcAlpha, operation: BlendOperation::Add },
                    alpha: BlendComponent { src_factor: BlendFactor::One, dst_factor: BlendFactor::OneMinusSrcAlpha, operation: BlendOperation::Add },
                })
            },
        }
    }
}

/// Samplers with a specific address and filter mode.
#[derive(PartialEq, Eq, Structural, Clone, Copy, Debug)]
pub enum TextureSampler {
    NearestClampToEdge,
    NearestClampToBorder,
    NearestRepeat,
    NearestMirrorRepeat,
    LinearClampToEdge,
    LinearClampToBorder,
    LinearRepeat,
    LinearMirrorRepeat,
}

/// The key name of a sampler.
pub open spec fn sampler_label(s: TextureSampler) -> Seq<char> {
    match s {
        TextureSampler::LinearClampToBorder => "linear_clamp-to-border"@,
        TextureSampler::LinearClampToEdge => "linear_clamp-to-edge"@,
        TextureSampler::LinearMirrorRepeat => "linear_mirror-repeat"@,
        TextureSampler::LinearRepeat => "linear_repeat"@,
        TextureSampler::NearestClampToBorder => "nearest_clamp-to-border"@,
        TextureSampler::NearestClampToEdge => "nearest_clamp-to-edge"@,
        TextureSampler::NearestRepeat => "nearest_repeat"@,
        TextureSampler::NearestMirrorRepeat => "nearest_mirror-repeat"@,
    }
}

/// The address mode of a sampler.
pub open spec fn sampler_address_mode(s: TextureSampler) -> AddressMode {
    match s {
        TextureSampler::NearestClampToEdge | TextureSampler::LinearClampToEdge => AddressMode::ClampToEdge,
        TextureSampler::NearestClampToBorder | TextureSampler::LinearClampToBorder => AddressMode::ClampToBorder,
        TextureSampler::NearestRepeat | TextureSampler::LinearRepeat => AddressMode::Repeat,
        TextureSampler::NearestMirrorRepeat | TextureSampler::LinearMirrorRepeat => AddressMode::MirrorRepeat,
    }
}

/// The filter mode of a sampler.
pub open spec fn sampler_filter_mode(s: TextureSampler) -> FilterMode {
    match s {
        TextureSampler::NearestClampToEdge | TextureSampler::NearestClampToBorder
        | TextureSampler::NearestRepeat | TextureSampler::NearestMirrorRepeat => FilterMode::Nearest,
        _ => FilterMode::Linear,
    }
}

/// Whether `label` begins with `word`.
pub open spec fn begins_with(label: Seq<char>, word: Seq<char>) -> bool {
    label.len() >= word.len() && label.take(word.len() as int) == word
}

/// Whether `label` ends with `word`.
pub open spec fn ends_with(label: Seq<char>, word: Seq<char>) -> bool {
    label.len() >= word.len() && label.skip(label.len() - word.len()) == word
}

/// A sampler's name tells its modes: it filters to the nearest texel exactly
/// when its name begins with `nearest_`, linearly exactly when it begins with
/// `linear_`; and its address mode is the one its name ends with.
pub proof fn law_sampler_names_tell_modes(s: TextureSampler)
    ensures
        (sampler_filter_mode(s) == FilterMode::Nearest) == begins_with(sampler_label(s), "nearest_"@),
        (sampler_filter_mode(s) == FilterMode::Linear) == begins_with(sampler_label(s), "linear_"@),
        (sampler_address_mode(s) == AddressMode::ClampToEdge) == ends_with(sampler_label(s), "_clamp-to-edge"@),
        (sampler_address_mode(s) == AddressMode::ClampToBorder) == ends_with(sampler_label(s), "_clamp-to-border"@),
        (sampler_address_mode(s) == AddressMode::Repeat) == ends_with(sampler_label(s), "_repeat"@),
        (sampler_address_mode(s) == AddressMode::MirrorRepeat) == ends_with(sampler_label(s), "_mirror-repeat"@),
{
    reveal_strlit("nearest_");
    reveal_strlit("linear_");
    reveal_strlit("_clamp-to-edge");
    reveal_strlit("_clamp-to-border");
    reveal_strlit("_repeat");
    reveal_strlit("_mirror-repeat");
    reveal_strlit("linear_clamp-to-border");
    reveal_strlit("linear_clamp-to-edge");
    reveal_strlit("linear_mirror-repeat");
    reveal_strlit("linear_repeat");
    reveal_strlit("nearest_clamp-to-border");
    reveal_strlit("nearest_clamp-to-edge");
    reveal_strlit("nearest_repeat");
    reveal_strlit("nearest_mirror-repeat");
    let l = sampler_label(s);
    match s {
        TextureSampler::NearestClampToEdge => {
            assert(l.take(8) =~= "nearest_"@);
            assert(l.take(7)[0] != "linear_"@[0]);
            assert(l.skip(7) =~= "_clamp-to-edge"@);
            assert(l.skip(5)[0] != "_clamp-to-border"@[0]);
            assert(l.skip(14)[0] != "_repeat"@[0]);
            assert(l.skip(7)[1] != "_mirror-repeat"@[1]);
        },
        TextureSampler::NearestClampToBorder => {
            assert(l.take(8) =~= "nearest_"@);
            assert(l.take(7)[0] != "linear_"@[0]);
            assert(l.skip(9)[0] != "_clamp-to-edge"@[0]);
            assert(l.skip(7) =~= "_clamp-to-border"@);
            assert(l.skip(16)[0] != "_repeat"@[0]);
            assert(l.skip(9)[0] != "_mirror-repeat"@[0]);
        },
        TextureSampler::NearestRepeat => {
            assert(l.take(8) =~= "nearest_"@);
            assert(l.take(7)[0] != "linear_"@[0]);
            assert(l.skip(0)[0] != "_clamp-to-edge"@[0]);
            assert(l.skip(7) =~= "_repeat"@);
            assert(l.skip(0)[0] != "_mirror-repeat"@[0]);
        },
        TextureSampler::NearestMirrorRepeat => {
            assert(l.take(8) =~= "nearest_"@);
            assert(l.take(7)[0] != "linear_"@[0]);
            assert(l.skip(7)[1] != "_clamp-to-edge"@[1]);
            assert(l.skip(5)[0] != "_clamp-to-border"@[0]);
            assert(l.skip(14)[0] != "_repeat"@[0]);
            assert(l.skip(7) =~= "_mirror-repeat"@);
        },
        TextureSampler::LinearClampToEdge => {
            assert(l.take(8)[0] != "nearest_"@[0]);
            assert(l.take(7) =~= "linear_"@);
            assert(l.skip(6) =~= "_clamp-to-edge"@);
            assert(l.skip(4)[0] != "_clamp-to-border"@[0]);
            assert(l.skip(13)[0] != "_repeat"@[0]);
            assert(l.skip(6)[1] != "_mirror-repeat"@[1]);
        },
        TextureSampler::LinearClampToBorder => {
            assert(l.take(8)[0] != "nearest_"@[0]);
            assert(l.take(7) =~= "linear_"@);
            assert(l.skip(8)[0] != "_clamp-to-edge"@[0]);
            assert(l.skip(6) =~= "_clamp-to-border"@);
            assert(l.skip(15)[0] != "_repeat"@[0]);
            assert(l.skip(8)[0] != "_mirror-repeat"@[0]);
        },
        TextureSampler::LinearRepeat => {
            assert(l.take(8)[0] != "nearest_"@[0]);
            assert(l.take(7) =~= "linear_"@);
            assert(l.skip(6) =~= "_repeat"@);
        },
        TextureSampler::LinearMirrorRepeat => {
            assert(l.take(8)[0] != "nearest_"@[0]);
            assert(l.take(7) =~= "linear_"@);
            assert(l.skip(6)[1] != "_clamp-to-edge"@[1]);
            assert(l.skip(4)[0] != "_clamp-to-border"@[0]);
            assert(l.skip(13)[0] != "_repeat"@[0]);
            assert(l.skip(6) =~= "_mirror-repeat"@);
        },
    }
}

impl TextureSampler {
    /// Get this sampler's key name.
    pub fn label(&self) -> (l: String)
        ensures
            l@ == sampler_label(*self),
    {
        match self {
            TextureSampler::LinearClampToBorder => owned("linear_clamp-to-border"),
            TextureSampler::LinearClampToEdge => owned("linear_clamp-to-edge"),
            TextureSampler::LinearMirrorRepeat => owned("linear_mirror-repeat"),
            TextureSampler::LinearRepeat => owned("linear_repeat"),
            TextureSampler::NearestClampToBorder => owned("nearest_clamp-to-border"),
            TextureSampler::NearestClampToEdge => owned("nearest_clamp-to-edge"),
            TextureSampler::NearestRepeat => owned("nearest_repeat"),
            TextureSampler::NearestMirrorRepeat => owned("nearest_mirror-repeat"),
        }
    }

    /// Get the sampler builder that this sampler stands for, labelled with its key name.
    pub fn get(self) -> (b: SamplerBuilder)
        ensures
            b.label@ == sampler_label(self),
            b.address_mode == sampler_address_mode(self),
            b.filter_mode == sampler_filter_mode(self),
            (b.filter_mode == FilterMode::Nearest) == begins_with(b.label@, "nearest_"@),
            (b.filter_mode == FilterMode::Linear) == begins_with(b.label@, "linear_"@),
            (b.address_mode == AddressMode::ClampToEdge) == ends_with(b.label@, "_clamp-to-edge"@),
            (b.address_mode == AddressMode::ClampToBorder) == ends_with(b.label@, "_clamp-to-border"@),
            (b.address_mode == AddressMode::Repeat) == ends_with(b.label@, "_repeat"@),
            (b.address_mode == AddressMode::MirrorRepeat) == ends_with(b.label@, "_mirror-repeat"@),
    {
        proof {
            law_sampler_names_tell_modes(self);
        }
        let (address, filter) = match self {
            TextureSampler::NearestClampToEdge => (AddressMode::ClampToEdge, FilterMode::Nearest),
            TextureSampler::NearestClampToBorder => (AddressMode::ClampToBorder, FilterMode::Nearest),
            TextureSampler::NearestRepeat => (AddressMode::Repeat, FilterMode::Nearest),
            TextureSampler::NearestMirrorRepeat => (AddressMode::MirrorRepeat, FilterMode::Nearest),
            TextureSampler::LinearClampToEdge => (AddressMode::ClampToEdge, FilterMode::Linear),
            TextureSampler::LinearClampToBorder => (AddressMode::ClampToBorder, FilterMode::Linear),
            TextureSampler::LinearRepeat => (AddressMode::Repeat, FilterMode::Linear),
            TextureSampler::LinearMirrorRepeat => (AddressMode::MirrorRepeat, FilterMode::Linear),
        };
        let label = self.label();
        SamplerBuilder::new(address, filter).with_label(label.as_str())
    }
}

} // verus!
