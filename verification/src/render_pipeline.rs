use vstd::prelude::*;
use crate::text::owned;

verus! {

/// How vertices are assembled into primitives.
#[derive(PartialEq, Eq, Structural, Clone, Copy, Debug)]
pub enum PrimitiveTopology {
    PointList,
    LineList,
    LineStrip,
    TriangleList,
    TriangleStrip,
}

/// Which triangle faces are culled.
#[derive(PartialEq, Eq, Structural, Clone, Copy, Debug)]
pub enum Face {
    Front,
    Back,
}

/// A factor of a blend equation.
#[derive(PartialEq, Eq, Structural, Clone, Copy, Debug)]
pub enum BlendFactor {
    Zero,
    One,
    SrcAlpha,
    OneMinusSrcAlpha,
}

/// The operation of a blend equation.
#[derive(PartialEq, Eq, Structural, Clone, Copy, Debug)]
pub enum BlendOperation {
    Add,
    Subtract,
}

/// One blend equation: `src * src_factor (operation) dst * dst_factor`.
#[derive(PartialEq, Eq, Structural, Clone, Copy, Debug)]
pub struct BlendComponent {
    pub src_factor: BlendFactor,
    pub dst_factor: BlendFactor,
    pub operation: BlendOperation,
}

/// The blend equations of the color and alpha channels.
#[derive(PartialEq, Eq, Structural, Clone, Copy, Debug)]
pub struct BlendState {
    pub color: BlendComponent,
    pub alpha: BlendComponent,
}

/// Blend mode that overwrites the destination with the source.
pub open spec fn replace_blending() -> BlendState {
    BlendState {
        color: BlendComponent { src_factor: BlendFactor::One, dst_factor: BlendFactor::Zero, operation: BlendOperation::Add },
        alpha: BlendComponent { src_factor: BlendFactor::One, dst_factor: BlendFactor::Zero, operation: BlendOperation::Add },
    }
}

/// Blend mode of standard alpha blending with non-premultiplied alpha.
pub open spec fn alpha_blending() -> BlendState {
    BlendState {
        color: BlendComponent { src_factor: BlendFactor::SrcAlpha, dst_factor: BlendFactor::OneMinusSrcAlpha, operation: BlendOperation::Add },
        alpha: BlendComponent { src_factor: BlendFactor::One, dst_factor: BlendFactor::OneMinusSrcAlpha, operation: BlendOperation::Add },
    }
}

/// The weight, out of 255, that a blend factor gives its operand, for a
/// source of alpha `src_alpha` (out of 255).
pub open spec fn factor_weight(f: BlendFactor, src_alpha: int) -> int {
    match f {
        BlendFactor::Zero => 0,
        BlendFactor::One => 255,
        BlendFactor::SrcAlpha => src_alpha,
        BlendFactor::OneMinusSrcAlpha => 255 - src_alpha,
    }
}

/// What a blend equation makes of a source value `src` over a destination
/// value `dst`, scaled by 255, for a source of alpha `src_alpha` (out of 255).
pub open spec fn blended(c: BlendComponent, src: int, dst: int, src_alpha: int) -> int {
    let s = src * factor_weight(c.src_factor, src_alpha);
    let d = dst * factor_weight(c.dst_factor, src_alpha);
    match c.operation {
        BlendOperation::Add => s + d,
        BlendOperation::Subtract => s - d,
    }
}

/// Whether a blend state draws the source over the destination by the
/// source's alpha (see `law_blending_modes`).
pub open spec fn draws_over(bs: BlendState) -> bool {
    &&& forall|src: int, dst: int, a: int| 0 <= a <= 255
        ==> #[trigger] blended(bs.color, src, dst, a) == a * src + (255 - a) * dst
    &&& forall|a: int, da: int| 0 <= a <= 255
        ==> #[trigger] blended(bs.alpha, a, da, a) == 255 * a + (255 - a) * da
}

/// Alpha blending draws a source pixel over the destination: each color
/// channel becomes the mix `a * src + (1 - a) * dst` of the two by the
/// source's alpha `a`, so a fully transparent pixel leaves the destination as
/// it was and an opaque one replaces it; the alpha becomes
/// `a + (1 - a) * dst_alpha`. Replace blending writes the source as it is.
/// (Values are scaled by 255.)
pub proof fn law_blending_modes(src: int, dst: int, src_alpha: int, dst_alpha: int)
    requires
        0 <= src_alpha <= 255,
    ensures
        blended(alpha_blending().color, src, dst, src_alpha) == src_alpha * src + (255 - src_alpha) * dst,
        blended(alpha_blending().alpha, src_alpha, dst_alpha, src_alpha) == 255 * src_alpha + (255 - src_alpha) * dst_alpha,
        src_alpha == 0 ==> blended(alpha_blending().color, src, dst, src_alpha) == 255 * dst,
        src_alpha == 255 ==> blended(alpha_blending().color, src, dst, src_alpha) == 255 * src,
        blended(replace_blending().color, src, dst, src_alpha) == 255 * src,
        blended(replace_blending().alpha, src_alpha, dst_alpha, src_alpha) == 255 * src_alpha,
        draws_over(alpha_blending()),
{
    if src_alpha == 255 {
        assert((255 - src_alpha) * dst == 0) by (nonlinear_arith) requires src_alpha == 255;
    }
    if src_alpha == 0 {
        assert(src_alpha * src == 0) by (nonlinear_arith) requires src_alpha == 0;
    }
    assert forall|s: int, d: int, a: int| 0 <= a <= 255
        implies #[trigger] blended(alpha_blending().color, s, d, a) == a * s + (255 - a) * d by {
        assert(s * a == a * s) by (nonlinear_arith);
        assert(d * (255 - a) == (255 - a) * d) by (nonlinear_arith);
    }
    assert forall|a: int, da: int| 0 <= a <= 255
        implies #[trigger] blended(alpha_blending().alpha, a, da, a) == 255 * a + (255 - a) * da by {
        assert(a * 255 == 255 * a) by (nonlinear_arith);
        assert(da * (255 - a) == (255 - a) * da) by (nonlinear_arith);
    }
    assert(src * src_alpha == src_alpha * src) by (nonlinear_arith);
    assert(dst * (255 - src_alpha) == (255 - src_alpha) * dst) by (nonlinear_arith);
    assert(src_alpha * 255 == 255 * src_alpha) by (nonlinear_arith);
    assert(dst_alpha * (255 - src_alpha) == (255 - src_alpha) * dst_alpha) by (nonlinear_arith);
    assert(src * 255 == 255 * src) by (nonlinear_arith);
}

impl BlendState {
    /// Blend mode that overwrites the destination with the source.
    pub fn replace() -> (b: Self)
        ensures
            b == replace_blending(),
    {
        BlendState {
            color: BlendComponent { src_factor: BlendFactor::One, dst_factor: BlendFactor::Zero, operation: BlendOperation::Add },
            alpha: BlendComponent { src_factor: BlendFactor::One, dst_factor: BlendFactor::Zero, operation: BlendOperation::Add },
        }
    }

    /// Blend mode of standard alpha blending with non-premultiplied alpha.
    pub fn alpha_blending() -> (b: Self)
        ensures
            b == alpha_blending(),
    {
        BlendState {
            color: BlendComponent { src_factor: BlendFactor::SrcAlpha, dst_factor: BlendFactor::OneMinusSrcAlpha, operation: BlendOperation::Add },
            alpha: BlendComponent { src_factor: BlendFactor::One, dst_factor: BlendFactor::OneMinusSrcAlpha, operation: BlendOperation::Add },
        }
    }
}

/// Describes a render pipeline; also serves as the key of the pipeline it builds.
pub struct RenderPipelineBuilder {
    pub label: String,
    pub topology: PrimitiveTopology,
    pub blend_state: Option<BlendState>,
    pub cull_mode: Option<Face>,
}

impl RenderPipelineBuilder {
    /// A triangle-list pipeline that replaces colors and culls back faces.
    pub fn new() -> (b: Self)
        ensures
            b.label@ == "default-pipeline"@,
            b.topology == PrimitiveTopology::TriangleList,
            b.blend_state == Some(replace_blending()),
            b.cull_mode == Some(Face::Back),
    {
        RenderPipelineBuilder {
            label: owned("default-pipeline"),
            topology: PrimitiveTopology::TriangleList,
            blend_state: Some(BlendState::replace()),
            cull_mode: Some(Face::Back),
        }
    }

    /// Add a custom label for GPU profiling.
    pub fn with_label(self, label: &str) -> (b: Self)
        ensures
            b.label@ == label@,
            b.topology == self.topology,
            b.blend_state == self.blend_state,
            b.cull_mode == self.cull_mode,
    {
        RenderPipelineBuilder { label: owned(label), ..self }
    }

    /// Set the primitive topology.
    pub fn with_topology(self, top: PrimitiveTopology) -> (b: Self)
        ensures
            b.label == self.label,
            b.topology == top,
            b.blend_state == self.blend_state,
            b.cull_mode == self.cull_mode,
    {
        RenderPipelineBuilder { topology: top, ..self }
    }

    /// Blend with alpha.
    pub fn with_alpha_blending(self) -> (b: Self)
        ensures
            b.label == self.label,
            b.topology == self.topology,
            b.blend_state == Some(alpha_blending()),
            b.blend_state matches Some(bs) && draws_over(bs),
            b.cull_mode == self.cull_mode,
    {
        proof {
            law_blending_modes(0, 0, 0, 0);
        }
        RenderPipelineBuilder { blend_state: Some(BlendState::alpha_blending()), ..self }
    }

    /// Blend with a custom blend state.
    pub fn with_custom_blending(self, blend: BlendState) -> (b: Self)
        ensures
            b.label == self.label,
            b.topology == self.topology,
            b.blend_state == Some(blend),
            b.cull_mode == self.cull_mode,
    {
        RenderPipelineBuilder { blend_state: Some(blend), ..self }
    }

    /// Cull the front faces of triangles.
    pub fn with_front_culling(self) -> (b: Self)
        ensures
            b.label == self.label,
            b.topology == self.topology,
            b.blend_state == self.blend_state,
            b.cull_mode == Some(Face::Front),
    {
        RenderPipelineBuilder { cull_mode: Some(Face::Front), ..self }
    }

    /// Cull no faces.
    pub fn with_no_culling(self) -> (b: Self)
        ensures
            b.label == self.label,
            b.topology == self.topology,
            b.blend_state == self.blend_state,
            b.cull_mode is None,
    {
        RenderPipelineBuilder { cull_mode: None, ..self }
    }

    /// A copy of this builder.
    pub fn duplicate(&self) -> (b: Self)
        ensures
            same_pipeline(b, *self),
    {
        RenderPipelineBuilder {
            label: self.label.clone(),
            topology: self.topology,
            blend_state: self.blend_state,
            cull_mode: self.cull_mode,
        }
    }
}

/// Whether two builders describe the same pipeline.
pub open spec fn same_pipeline(a: RenderPipelineBuilder, b: RenderPipelineBuilder) -> bool {
    &&& a.label@ == b.label@
    &&& a.topology == b.topology
    &&& a.blend_state == b.blend_state
    &&& a.cull_mode == b.cull_mode
}

} // verus!
