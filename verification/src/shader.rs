use vstd::prelude::*;
use crate::bind_group::BindGroupLayoutBuilder;
use crate::layout::{run_entries, VertexAttributeDesc, VertexFormat, VertexLayoutBuilder, VertexStepMode};
use crate::resources::same_layout;
use crate::text::owned;

verus! {

/// The vertex attributes a shader reads.
#[derive(PartialEq, Eq, Structural, Clone, Copy, Debug)]
pub enum ShaderAttribute {
    Position,
    UV,
    Transform,
}

/// The format of each location of a shader attribute.
pub open spec fn attr_format(a: ShaderAttribute) -> VertexFormat {
    match a {
        ShaderAttribute::Position => VertexFormat::Float32x3,
        ShaderAttribute::UV => VertexFormat::Float32x2,
        ShaderAttribute::Transform => VertexFormat::Float32x4,
    }
}

/// How many consecutive locations a shader attribute takes (a transform is
/// four columns).
pub open spec fn attr_count(a: ShaderAttribute) -> nat {
    match a {
        ShaderAttribute::Transform => 4,
        _ => 1,
    }
}

/// Bytes that the attributes take in one vertex.
pub open spec fn attrs_bytes(attrs: Seq<(ShaderAttribute, u32)>) -> int
    decreases attrs.len(),
{
    if attrs.len() == 0 {
        0
    } else {
        let a = attrs.last().0;
        attrs_bytes(attrs.drop_last()) + attr_format(a).spec_size() * attr_count(a)
    }
}

/// The layout entries of the attributes: each takes its locations from its
/// own location on, one after the other in the buffer.
pub open spec fn attrs_entries(attrs: Seq<(ShaderAttribute, u32)>) -> Seq<VertexAttributeDesc>
    decreases attrs.len(),
{
    if attrs.len() == 0 {
        Seq::empty()
    } else {
        let prev = attrs.drop_last();
        let (a, loc) = attrs.last();
        attrs_entries(prev) + run_entries(attr_format(a), attr_count(a), loc as int, attrs_bytes(prev))
    }
}

/// Every attribute's last location fits in 32 bits.
pub open spec fn locations_fit(attrs: Seq<(ShaderAttribute, u32)>) -> bool {
    forall|i: int| 0 <= i < attrs.len() ==> #[trigger] attrs[i].1 + attr_count(attrs[i].0) - 1 <= u32::MAX
}

proof fn lemma_attrs_bytes(attrs: Seq<(ShaderAttribute, u32)>)
    ensures
        0 <= attrs_bytes(attrs) <= 64 * attrs.len(),
    decreases attrs.len(),
{
    if attrs.len() > 0 {
        lemma_attrs_bytes(attrs.drop_last());
        let a = attrs.last().0;
        match a {
            ShaderAttribute::Position => assert(attr_format(a).spec_size() * attr_count(a) == 12),
            ShaderAttribute::UV => assert(attr_format(a).spec_size() * attr_count(a) == 8),
            ShaderAttribute::Transform => assert(attr_format(a).spec_size() * attr_count(a) == 64),
        }
    }
}

/// The vertex buffer layout of attributes, with the given step mode.
fn attrs_layout(attrs: &Vec<(ShaderAttribute, u32)>, step_mode: VertexStepMode) -> (b: VertexLayoutBuilder)
    requires
        locations_fit(attrs@),
        attrs@.len() <= 0x1_0000_0000,
    ensures
        b.label@ == "vtl_builder"@,
        b.step_mode == step_mode,
        b.attributes@ == attrs_entries(attrs@),
        b.curr_offset == attrs_bytes(attrs@),
{
    let ghost all = attrs@;
    let mut builder = VertexLayoutBuilder::new(step_mode);
    let n = attrs.len();
    let mut i: usize = 0;
    proof {
        assert(all.take(0) =~= Seq::<(ShaderAttribute, u32)>::empty());
        assert(builder.attributes@ =~= attrs_entries(all.take(0)));
    }
    while i < n
        invariant
            n == all.len(),
            all == attrs@,
            n <= 0x1_0000_0000,
            locations_fit(all),
            i <= n,
            builder.label@ == "vtl_builder"@,
            builder.step_mode == step_mode,
            builder.attributes@ == attrs_entries(all.take(i as int)),
            builder.curr_offset == attrs_bytes(all.take(i as int)),
        decreases n - i,
    {
        let (attr, loc) = attrs[i];
        let (format, count): (VertexFormat, u32) = match attr {
            ShaderAttribute::Position => (VertexFormat::Float32x3, 1),
            ShaderAttribute::UV => (VertexFormat::Float32x2, 1),
            ShaderAttribute::Transform => (VertexFormat::Float32x4, 4),
        };
        let ghost prev = all.take(i as int);
        let ghost next = all.take(i + 1);
        proof {
            assert(next.drop_last() =~= prev);
            assert(next.last() == all[i as int]);
            lemma_attrs_bytes(prev);
            assert(all[i as int].1 + attr_count(all[i as int].0) - 1 <= u32::MAX);
        }
        let ghost start_entries = builder.attributes@;
        let ghost start_off = builder.curr_offset as int;
        let mut r: u32 = 0;
        while r < count
            invariant
                r <= count,
                count == attr_count(attr),
                format == attr_format(attr),
                loc + count - 1 <= u32::MAX,
                0 <= start_off <= 64 * i,
                i < n,
                n <= 0x1_0000_0000,
                builder.curr_offset == start_off + r * format.spec_size(),
                builder.label@ == "vtl_builder"@,
                builder.step_mode == step_mode,
                builder.attributes@ == start_entries + run_entries(format, r as nat, loc as int, start_off),
            decreases count - r,
        {
            proof {
                assert((r + 1) * format.spec_size() == r * format.spec_size() + format.spec_size()) by (nonlinear_arith);
                assert(r * format.spec_size() <= 4 * 16) by (nonlinear_arith)
                    requires r < count, count <= 4, format.spec_size() <= 16;
            }
            builder.add_attribute(loc + r, format);
            assert(builder.attributes@ =~= start_entries + run_entries(format, (r + 1) as nat, loc as int, start_off));
            r = r + 1;
        }
        proof {
            assert(format.spec_size() * count == count * format.spec_size()) by (nonlinear_arith);
        }
        i = i + 1;
    }
    proof {
        assert(all.take(n as int) =~= all);
    }
    builder
}

/// Describes a shader: where its source is, which attributes it reads at
/// which locations, any vertex buffer layouts given whole, and its bind group
/// layouts.
pub struct ShaderSpecBuilder {
    pub path: String,
    pub vertex_attrs: Vec<(ShaderAttribute, u32)>,
    pub instance_attrs: Vec<(ShaderAttribute, u32)>,
    pub vt_layouts: Vec<VertexLayoutBuilder>,
    pub bg_layouts: Vec<BindGroupLayoutBuilder>,
}

impl ShaderSpecBuilder {
    /// A shader spec for the source at `path`, with nothing else yet.
    pub fn new(path: &str) -> (b: Self)
        ensures
            b.path@ == path@,
            b.vertex_attrs@.len() == 0,
            b.instance_attrs@.len() == 0,
            b.vt_layouts@.len() == 0,
            b.bg_layouts@.len() == 0,
    {
        ShaderSpecBuilder {
            path: owned(path),
            vertex_attrs: Vec::new(),
            instance_attrs: Vec::new(),
            vt_layouts: Vec::new(),
            bg_layouts: Vec::new(),
        }
    }

    /// Read a per-vertex attribute at a location.
    pub fn with_vertex_attribute(self, attr: ShaderAttribute, loc: u32) -> (b: Self)
        ensures
            b.path == self.path,
            b.vertex_attrs@ == self.vertex_attrs@.push((attr, loc)),
            b.instance_attrs == self.instance_attrs,
            b.vt_layouts == self.vt_layouts,
            b.bg_layouts == self.bg_layouts,
    {
        let mut b = self;
        b.vertex_attrs.push((attr, loc));
        b
    }

    /// Read a per-instance attribute at a location.
    pub fn with_instance_attribute(self, attr: ShaderAttribute, loc: u32) -> (b: Self)
        ensures
            b.path == self.path,
            b.vertex_attrs == self.vertex_attrs,
            b.instance_attrs@ == self.instance_attrs@.push((attr, loc)),
            b.vt_layouts == self.vt_layouts,
            b.bg_layouts == self.bg_layouts,
    {
        let mut b = self;
        b.instance_attrs.push((attr, loc));
        b
    }

    /// Add a vertex buffer layout.
    pub fn with_vt_layout(self, layout: VertexLayoutBuilder) -> (b: Self)
        ensures
            b.path == self.path,
            b.vertex_attrs == self.vertex_attrs,
            b.instance_attrs == self.instance_attrs,
            b.vt_layouts@ == self.vt_layouts@.push(layout),
            b.bg_layouts == self.bg_layouts,
    {
        let mut b = self;
        b.add_vt_layout(layout);
        b
    }

    /// Add a vertex buffer layout.
    pub fn add_vt_layout(&mut self, layout: VertexLayoutBuilder)
        ensures
            final(self).path == old(self).path,
            final(self).vertex_attrs == old(self).vertex_attrs,
            final(self).instance_attrs == old(self).instance_attrs,
            final(self).vt_layouts@ == old(self).vt_layouts@.push(layout),
            final(self).bg_layouts == old(self).bg_layouts,
    {
        self.vt_layouts.push(layout);
    }

    /// Add a bind group layout.
    pub fn with_bg_layout(self, layout: BindGroupLayoutBuilder) -> (b: Self)
        ensures
            b.path == self.path,
            b.vertex_attrs == self.vertex_attrs,
            b.instance_attrs == self.instance_attrs,
            b.vt_layouts == self.vt_layouts,
            b.bg_layouts@ == self.bg_layouts@.push(layout),
    {
        let mut b = self;
        b.add_bg_layout(layout);
        b
    }

    /// Add a bind group layout.
    pub fn add_bg_layout(&mut self, layout: BindGroupLayoutBuilder)
        ensures
            final(self).path == old(self).path,
            final(self).vertex_attrs == old(self).vertex_attrs,
            final(self).instance_attrs == old(self).instance_attrs,
            final(self).vt_layouts == old(self).vt_layouts,
            final(self).bg_layouts@ == old(self).bg_layouts@.push(layout),
    {
        self.bg_layouts.push(layout);
    }

    /// The shader spec of this description, given the source read from its
    /// path: entry points `vs_main` and `fs_main`, and copies of the
    /// attributes and layouts.
    pub fn with_source(&self, source: String) -> (spec: ShaderSpec)
        ensures
            spec.shader_builder.path@ == self.path@,
            spec.shader_builder.source == source,
            spec.vs_main@ == "vs_main"@,
            spec.fs_main@ == "fs_main"@,
            spec.vertex_attrs@ == self.vertex_attrs@,
            spec.instance_attrs@ == self.instance_attrs@,
            spec.vt_layouts@.len() == self.vt_layouts@.len(),
            forall|i: int| 0 <= i < self.vt_layouts@.len() ==> same_layout(#[trigger] spec.vt_layouts@[i], self.vt_layouts@[i]),
            spec.bg_layouts@.len() == self.bg_layouts@.len(),
            forall|i: int| 0 <= i < self.bg_layouts@.len() ==> {
                &&& (#[trigger] spec.bg_layouts@[i]).label@ == self.bg_layouts@[i].label@
                &&& spec.bg_layouts@[i].entries@ == self.bg_layouts@[i].entries@
            },
    {
        let mut vt_layouts: Vec<VertexLayoutBuilder> = Vec::new();
        let n = self.vt_layouts.len();
        let mut i: usize = 0;
        while i < n
            invariant
                n == self.vt_layouts@.len(),
                i <= n,
                vt_layouts@.len() == i,
                forall|j: int| 0 <= j < i ==> same_layout(#[trigger] vt_layouts@[j], self.vt_layouts@[j]),
            decreases n - i,
        {
            vt_layouts.push(self.vt_layouts[i].duplicate());
            i = i + 1;
        }
        let mut bg_layouts: Vec<BindGroupLayoutBuilder> = Vec::new();
        let m = self.bg_layouts.len();
        let mut k: usize = 0;
        while k < m
            invariant
                m == self.bg_layouts@.len(),
                k <= m,
                bg_layouts@.len() == k,
                forall|j: int| 0 <= j < k ==> {
                    &&& (#[trigger] bg_layouts@[j]).label@ == self.bg_layouts@[j].label@
                    &&& bg_layouts@[j].entries@ == self.bg_layouts@[j].entries@
                },
            decreases m - k,
        {
            bg_layouts.push(self.bg_layouts[k].duplicate());
            k = k + 1;
        }
        ShaderSpec {
            shader_builder: ShaderModuleBuilder::new(self.path.clone(), source),
            vs_main: owned("vs_main"),
            fs_main: owned("fs_main"),
            vertex_attrs: copy_attrs(&self.vertex_attrs),
            instance_attrs: copy_attrs(&self.instance_attrs),
            vt_layouts,
            bg_layouts,
        }
    }
}

/// A copy of a list of attributes and their locations.
fn copy_attrs(attrs: &Vec<(ShaderAttribute, u32)>) -> (r: Vec<(ShaderAttribute, u32)>)
    ensures
        r@ == attrs@,
{
    let mut r: Vec<(ShaderAttribute, u32)> = Vec::new();
    let n = attrs.len();
    let mut i: usize = 0;
    while i < n
        invariant
            n == attrs@.len(),
            i <= n,
            r@ == attrs@.subrange(0, i as int),
        decreases n - i,
    {
        r.push(attrs[i]);
        i = i + 1;
        assert(r@ =~= attrs@.subrange(0, i as int));
    }
    assert(r@ =~= attrs@);
    r
}

/// A shader ready to be compiled: its module, its entry points, the
/// attributes it reads, the vertex buffer layouts given whole, and its bind
/// group layouts.
pub struct ShaderSpec {
    pub shader_builder: ShaderModuleBuilder,
    pub vs_main: String,
    pub fs_main: String,
    pub vertex_attrs: Vec<(ShaderAttribute, u32)>,
    pub instance_attrs: Vec<(ShaderAttribute, u32)>,
    pub vt_layouts: Vec<VertexLayoutBuilder>,
    pub bg_layouts: Vec<BindGroupLayoutBuilder>,
}

/// How many layouts the attributes of a shader make: one for its per-vertex
/// attributes, if any, and one for its per-instance attributes, if any.
pub open spec fn attr_layout_count(vertex_attrs: Seq<(ShaderAttribute, u32)>, instance_attrs: Seq<(ShaderAttribute, u32)>) -> int {
    (if vertex_attrs.len() > 0 { 1int } else { 0 }) + (if instance_attrs.len() > 0 { 1int } else { 0 })
}

/// The layouts open with those the attributes make: the per-vertex layout,
/// if there are per-vertex attributes, then the per-instance layout, if there
/// are per-instance attributes.
pub open spec fn attr_layouts_lead(
    r: Seq<VertexLayoutBuilder>,
    vertex_attrs: Seq<(ShaderAttribute, u32)>,
    instance_attrs: Seq<(ShaderAttribute, u32)>,
) -> bool {
    &&& vertex_attrs.len() > 0 ==> {
        &&& r[0].step_mode == VertexStepMode::Vertex
        &&& r[0].attributes@ == attrs_entries(vertex_attrs)
        &&& r[0].curr_offset == attrs_bytes(vertex_attrs)
    }
    &&& instance_attrs.len() > 0 ==> {
        let k = attr_layout_count(vertex_attrs, instance_attrs) - 1;
        &&& r[k].step_mode == VertexStepMode::Instance
        &&& r[k].attributes@ == attrs_entries(instance_attrs)
        &&& r[k].curr_offset == attrs_bytes(instance_attrs)
    }
}

impl ShaderSpec {
    /// The vertex buffer layouts the shader reads: the per-vertex layout, if
    /// it reads per-vertex attributes, then the per-instance layout, if it
    /// reads per-instance attributes, then the layouts given whole, in order.
    pub fn build_vertex_layouts(&self) -> (r: Vec<VertexLayoutBuilder>)
        requires
            locations_fit(self.vertex_attrs@),
            locations_fit(self.instance_attrs@),
            self.vertex_attrs@.len() <= 0x1_0000_0000,
            self.instance_attrs@.len() <= 0x1_0000_0000,
        ensures
            r@.len() == attr_layout_count(self.vertex_attrs@, self.instance_attrs@) + self.vt_layouts@.len(),
            attr_layouts_lead(r@, self.vertex_attrs@, self.instance_attrs@),
            forall|i: int| 0 <= i < self.vt_layouts@.len() ==> same_layout(
                #[trigger] r@[attr_layout_count(self.vertex_attrs@, self.instance_attrs@) + i], self.vt_layouts@[i]),
    {
        let mut layouts: Vec<VertexLayoutBuilder> = Vec::new();
        if self.vertex_attrs.len() > 0 {
            layouts.push(attrs_layout(&self.vertex_attrs, VertexStepMode::Vertex));
        }
        if self.instance_attrs.len() > 0 {
            layouts.push(attrs_layout(&self.instance_attrs, VertexStepMode::Instance));
        }
        let ghost base = attr_layout_count(self.vertex_attrs@, self.instance_attrs@);
        assert(layouts@.len() == base);
        let n = self.vt_layouts.len();
        let mut i: usize = 0;
        while i < n
            invariant
                n == self.vt_layouts@.len(),
                i <= n,
                base == attr_layout_count(self.vertex_attrs@, self.instance_attrs@),
                layouts@.len() == base + i,
                attr_layouts_lead(layouts@, self.vertex_attrs@, self.instance_attrs@),
                forall|j: int| 0 <= j < i ==> same_layout(#[trigger] layouts@[base + j], self.vt_layouts@[j]),
            decreases n - i,
        {
            let ghost before = layouts@;
            layouts.push(self.vt_layouts[i].duplicate());
            proof {
                assert forall|j: int| 0 <= j < i + 1 implies same_layout(#[trigger] layouts@[base + j], self.vt_layouts@[j]) by {
                    if j < i {
                        assert(layouts@[base + j] == before[base + j]);
                    }
                }
                if self.vertex_attrs@.len() > 0 {
                    assert(layouts@[0] == before[0]);
                }
                if self.instance_attrs@.len() > 0 {
                    assert(layouts@[base - 1] == before[base - 1]);
                }
            }
            i = i + 1;
        }
        layouts
    }

    /// The per-vertex attributes and their locations.
    pub fn get_vertex_attributes(&self) -> (r: Vec<(ShaderAttribute, u32)>)
        ensures
            r@ == self.vertex_attrs@,
    {
        copy_attrs(&self.vertex_attrs)
    }
}

/// Describes a shader module: the path of its source and the source itself.
pub struct ShaderModuleBuilder {
    pub path: String,
    pub source: String,
}

impl ShaderModuleBuilder {
    /// A shader module with the given path and source.
    pub fn new(path: String, source: String) -> (b: Self)
        ensures
            b.path == path,
            b.source == source,
    {
        ShaderModuleBuilder { path, source }
    }
}

} // verus!
