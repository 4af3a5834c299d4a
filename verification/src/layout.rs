use vstd::prelude::*;
use crate::attr::TRANSFORM;
use crate::text::owned;

verus! {

/// The base shader location for vertex attributes.
pub const VERTEX_BASE_LOC: u32 = 0;
/// The base shader location for instance attributes.
pub const INSTANCE_BASE_LOC: u32 = 6;

/// The shader location of the vertex position.
pub const POSITION_LOC: u32 = 0;
/// The shader location of the vertex texture coordinates.
pub const UV_LOC: u32 = 1;
/// The shader location of the vertex normal.
pub const NORMAL_LOC: u32 = 2;
/// The first shader location of the instance transform.
pub const TRANSFORM_LOC: u32 = 8;
/// The shader location of the instance tint.
pub const TINT_LOC: u32 = 12;
/// The shader location of the instance sprite-sheet texture bounds.
pub const UV_BOUNDS_LOC: u32 = 13;

/// The vertex formats used by attributes: 32-bit floats, one to four per attribute.
#[derive(PartialEq, Eq, Structural, Clone, Copy, Debug)]
pub enum VertexFormat {
    Float32,
    Float32x2,
    Float32x3,
    Float32x4,
}

impl VertexFormat {
    /// Size of one value of this format, in bytes.
    pub open spec fn spec_size(self) -> u64 {
        match self {
            VertexFormat::Float32 => 4,
            VertexFormat::Float32x2 => 8,
            VertexFormat::Float32x3 => 12,
            VertexFormat::Float32x4 => 16,
        }
    }

    /// Size of one value of this format, in bytes.
    pub fn size(&self) -> (s: u64)
        ensures
            s == self.spec_size(),
    {
        match self {
            VertexFormat::Float32 => 4,
            VertexFormat::Float32x2 => 8,
            VertexFormat::Float32x3 => 12,
            VertexFormat::Float32x4 => 16,
        }
    }
}

/// Whether a vertex buffer is indexed by vertex or by instance.
#[derive(PartialEq, Eq, Structural, Clone, Copy, Debug)]
pub enum VertexStepMode {
    Vertex,
    Instance,
}

/// One attribute of a vertex buffer layout: where the shader reads it, its
/// format, and its byte offset within a vertex.
#[derive(PartialEq, Eq, Structural, Clone, Copy, Debug)]
pub struct VertexAttributeDesc {
    pub shader_location: u32,
    pub format: VertexFormat,
    pub offset: u64,
}

/// Generates a vertex buffer layout: attributes are laid out one after the
/// other, each at the offset where the previous one ended.
pub struct VertexLayoutBuilder {
    pub label: String,
    pub attributes: Vec<VertexAttributeDesc>,
    pub curr_offset: u64,
    pub step_mode: VertexStepMode,
}

impl VertexLayoutBuilder {
    /// An empty layout with the given step mode.
    pub fn new(step_mode: VertexStepMode) -> (b: Self)
        ensures
            b.label@ == "vtl_builder"@,
            b.attributes@.len() == 0,
            b.curr_offset == 0,
            b.step_mode == step_mode,
    {
        VertexLayoutBuilder { label: owned("vtl_builder"), attributes: Vec::new(), curr_offset: 0, step_mode }
    }

    /// A per-vertex layout with a position attribute.
    pub fn with_position() -> (b: Self)
        ensures
            b.label@ == "vtl_builder"@,
            b.step_mode == VertexStepMode::Vertex,
            b.attributes@ == seq![
                VertexAttributeDesc { shader_location: POSITION_LOC, format: VertexFormat::Float32x4, offset: 0 },
            ],
            b.curr_offset == 16,
    {
        let b = VertexLayoutBuilder::new(VertexStepMode::Vertex).with_attribute(POSITION_LOC, VertexFormat::Float32x4);
        assert(b.attributes@ =~= seq![
            VertexAttributeDesc { shader_location: POSITION_LOC, format: VertexFormat::Float32x4, offset: 0 },
        ]);
        b
    }

    /// A per-instance layout with a transform attribute: four columns at
    /// consecutive locations from the transform location on.
    pub fn with_transform() -> (b: Self)
        ensures
            b.label@ == "vtl_builder"@,
            b.step_mode == VertexStepMode::Instance,
            b.attributes@ == seq![
                VertexAttributeDesc { shader_location: TRANSFORM_LOC, format: VertexFormat::Float32x4, offset: 0 },
                VertexAttributeDesc { shader_location: 9, format: VertexFormat::Float32x4, offset: 16 },
                VertexAttributeDesc { shader_location: 10, format: VertexFormat::Float32x4, offset: 32 },
                VertexAttributeDesc { shader_location: 11, format: VertexFormat::Float32x4, offset: 48 },
            ],
            b.curr_offset == 64,
    {
        let b = VertexLayoutBuilder::new(VertexStepMode::Instance)
            .with_attribute(TRANSFORM_LOC, VertexFormat::Float32x4)
            .with_attribute(TRANSFORM_LOC + 1, VertexFormat::Float32x4)
            .with_attribute(TRANSFORM_LOC + 2, VertexFormat::Float32x4)
            .with_attribute(TRANSFORM_LOC + 3, VertexFormat::Float32x4);
        assert(b.attributes@ =~= seq![
            VertexAttributeDesc { shader_location: TRANSFORM_LOC, format: VertexFormat::Float32x4, offset: 0 },
            VertexAttributeDesc { shader_location: 9, format: VertexFormat::Float32x4, offset: 16 },
            VertexAttributeDesc { shader_location: 10, format: VertexFormat::Float32x4, offset: 32 },
            VertexAttributeDesc { shader_location: 11, format: VertexFormat::Float32x4, offset: 48 },
        ]);
        b
    }

    /// Add a custom label for GPU profiling.
    pub fn with_label(self, label: &str) -> (b: Self)
        ensures
            b.label@ == label@,
            b.attributes == self.attributes,
            b.curr_offset == self.curr_offset,
            b.step_mode == self.step_mode,
    {
        VertexLayoutBuilder { label: owned(label), ..self }
    }

    /// Add an attribute at the current offset, and advance the offset by its size.
    pub fn add_attribute(&mut self, location: u32, format: VertexFormat)
        requires
            old(self).curr_offset + format.spec_size() <= u64::MAX,
        ensures
            final(self).label == old(self).label,
            final(self).step_mode == old(self).step_mode,
            final(self).attributes@ == old(self).attributes@.push(
                VertexAttributeDesc { shader_location: location, format, offset: old(self).curr_offset }),
            final(self).curr_offset == old(self).curr_offset + format.spec_size(),
    {
        self.attributes.push(VertexAttributeDesc { shader_location: location, format, offset: self.curr_offset });
        self.curr_offset = self.curr_offset + format.size();
    }

    /// Add an attribute at the current offset, and advance the offset by its size.
    pub fn with_attribute(self, location: u32, format: VertexFormat) -> (b: Self)
        requires
            self.curr_offset + format.spec_size() <= u64::MAX,
        ensures
            b.label == self.label,
            b.step_mode == self.step_mode,
            b.attributes@ == self.attributes@.push(
                VertexAttributeDesc { shader_location: location, format, offset: self.curr_offset }),
            b.curr_offset == self.curr_offset + format.spec_size(),
    {
        let mut b = self;
        b.add_attribute(location, format);
        b
    }

    /// A copy of this builder.
    pub fn duplicate(&self) -> (b: Self)
        ensures
            b.label@ == self.label@,
            b.attributes@ == self.attributes@,
            b.curr_offset == self.curr_offset,
            b.step_mode == self.step_mode,
    {
        let mut attributes: Vec<VertexAttributeDesc> = Vec::new();
        let n = self.attributes.len();
        let mut i: usize = 0;
        while i < n
            invariant
                n == self.attributes@.len(),
                i <= n,
                attributes@ == self.attributes@.subrange(0, i as int),
            decreases n - i,
        {
            attributes.push(self.attributes[i]);
            i = i + 1;
            assert(attributes@ =~= self.attributes@.subrange(0, i as int));
        }
        assert(attributes@ =~= self.attributes@);
        VertexLayoutBuilder {
            label: self.label.clone(),
            attributes,
            curr_offset: self.curr_offset,
            step_mode: self.step_mode,
        }
    }
}

/// What a layout needs to know of an attribute: its name, the format of one
/// of its locations, and how many consecutive locations it takes.
#[derive(PartialEq, Eq, Clone, Debug)]
pub struct AttributeSpec {
    pub name: String,
    pub format: VertexFormat,
    pub count: u32,
}

/// Bytes that one value of the attribute takes.
pub open spec fn attr_bytes(a: AttributeSpec) -> int {
    a.format.spec_size() * a.count
}

/// Total bytes of a run of attributes.
pub open spec fn total_bytes(attrs: Seq<AttributeSpec>) -> int
    decreases attrs.len(),
{
    if attrs.len() == 0 {
        0
    } else {
        total_bytes(attrs.drop_last()) + attr_bytes(attrs.last())
    }
}

/// Total shader locations taken by a run of attributes.
pub open spec fn total_locations(attrs: Seq<AttributeSpec>) -> int
    decreases attrs.len(),
{
    if attrs.len() == 0 {
        0
    } else {
        total_locations(attrs.drop_last()) + attrs.last().count
    }
}

/// The layout entries for `count` consecutive locations of one format,
/// starting at location `loc` and byte offset `off`.
pub open spec fn run_entries(format: VertexFormat, count: nat, loc: int, off: int) -> Seq<VertexAttributeDesc> {
    Seq::new(count, |r: int| VertexAttributeDesc {
        shader_location: (loc + r) as u32,
        format,
        offset: (off + r * format.spec_size()) as u64,
    })
}

/// The layout entries of a run of attributes, laid out from location `base`
/// and offset 0: each attribute takes `count` consecutive locations, and each
/// location follows the previous one in the buffer.
pub open spec fn layout_entries(attrs: Seq<AttributeSpec>, base: int) -> Seq<VertexAttributeDesc>
    decreases attrs.len(),
{
    if attrs.len() == 0 {
        Seq::empty()
    } else {
        let prev = attrs.drop_last();
        layout_entries(prev, base) + run_entries(
            attrs.last().format,
            attrs.last().count as nat,
            base + total_locations(prev),
            total_bytes(prev),
        )
    }
}

pub proof fn lemma_totals_nonneg(attrs: Seq<AttributeSpec>)
    ensures
        total_bytes(attrs) >= 0,
        total_locations(attrs) >= 0,
        layout_entries(attrs, 0).len() == total_locations(attrs),
    decreases attrs.len(),
{
    if attrs.len() > 0 {
        lemma_totals_nonneg(attrs.drop_last());
    }
}

pub proof fn lemma_totals_monotone(attrs: Seq<AttributeSpec>, i: int)
    requires
        0 <= i <= attrs.len(),
    ensures
        total_bytes(attrs.take(i)) <= total_bytes(attrs),
        total_locations(attrs.take(i)) <= total_locations(attrs),
    decreases attrs.len() - i,
{
    if i < attrs.len() {
        lemma_totals_monotone(attrs, i + 1);
        assert(attrs.take(i + 1).drop_last() =~= attrs.take(i));
        assert(attrs.take(i + 1).last() == attrs[i]);
    } else {
        assert(attrs.take(i) =~= attrs);
    }
}

/// Represents a vertex buffer layout with automatic shader location mapping.
pub struct VertexAttributeLayout {
    attributes: Vec<AttributeSpec>,
    step_mode: VertexStepMode,
    stride: usize,
}

impl VertexAttributeLayout {
    /// The attributes, in the order in which they were added.
    pub closed spec fn attribute_seq(&self) -> Seq<AttributeSpec> {
        self.attributes@
    }

    /// The step mode of the layout.
    pub closed spec fn spec_step_mode(&self) -> VertexStepMode {
        self.step_mode
    }

    /// Bytes that one vertex (or instance) takes.
    pub closed spec fn spec_stride(&self) -> usize {
        self.stride
    }

    /// The stride is the total size of the attributes.
    pub open spec fn wf(&self) -> bool {
        self.spec_stride() == total_bytes(self.attribute_seq())
    }

    /// The first shader location that the layout uses.
    pub open spec fn base_location(&self) -> int {
        match self.spec_step_mode() {
            VertexStepMode::Vertex => VERTEX_BASE_LOC as int,
            VertexStepMode::Instance => INSTANCE_BASE_LOC as int,
        }
    }

    /// An empty layout for per-vertex data.
    pub fn as_vertex() -> (l: Self)
        ensures
            l.wf(),
            l.attribute_seq().len() == 0,
            l.spec_step_mode() == VertexStepMode::Vertex,
    {
        VertexAttributeLayout { attributes: Vec::new(), step_mode: VertexStepMode::Vertex, stride: 0 }
    }

    /// An empty layout for per-instance data.
    pub fn as_instance() -> (l: Self)
        ensures
            l.wf(),
            l.attribute_seq().len() == 0,
            l.spec_step_mode() == VertexStepMode::Instance,
    {
        VertexAttributeLayout { attributes: Vec::new(), step_mode: VertexStepMode::Instance, stride: 0 }
    }

    /// Add an attribute to this layout; the stride grows by its size.
    pub fn add_attribute(&mut self, attr: AttributeSpec)
        requires
            old(self).wf(),
            old(self).spec_stride() + attr_bytes(attr) <= usize::MAX,
        ensures
            final(self).wf(),
            final(self).attribute_seq() == old(self).attribute_seq().push(attr),
            final(self).spec_step_mode() == old(self).spec_step_mode(),
            final(self).spec_stride() == old(self).spec_stride() + attr_bytes(attr),
    {
        let size = attr.format.size();
        assert(size * attr.count <= usize::MAX) by {
            lemma_totals_nonneg(self.attributes@);
        }
        let bytes = (size as u128 * attr.count as u128) as usize;
        self.stride = self.stride + bytes;
        let ghost old_attrs = self.attributes@;
        self.attributes.push(attr);
        assert(self.attributes@.drop_last() =~= old_attrs);
    }

    /// Add an attribute to this layout; the stride grows by its size.
    pub fn with_attribute(self, attr: AttributeSpec) -> (l: Self)
        requires
            self.wf(),
            self.spec_stride() + attr_bytes(attr) <= usize::MAX,
        ensures
            l.wf(),
            l.attribute_seq() == self.attribute_seq().push(attr),
            l.spec_step_mode() == self.spec_step_mode(),
            l.spec_stride() == self.spec_stride() + attr_bytes(attr),
    {
        let mut l = self;
        l.add_attribute(attr);
        l
    }

    /// Get the stride of the attributes of this layout.
    pub fn stride(&self) -> (s: usize)
        ensures
            s == self.spec_stride(),
    {
        self.stride
    }

    /// The step mode of this layout.
    pub fn step_mode(&self) -> (m: VertexStepMode)
        ensures
            m == self.spec_step_mode(),
    {
        self.step_mode
    }

    /// The names of the attributes, in order.
    pub fn attribute_names(&self) -> (r: Vec<String>)
        ensures
            r@.len() == self.attribute_seq().len(),
            forall|i: int| 0 <= i < r@.len() ==> #[trigger] r@[i]@ == self.attribute_seq()[i].name@,
    {
        let mut out: Vec<String> = Vec::new();
        let n = self.attributes.len();
        let mut i: usize = 0;
        while i < n
            invariant
                n == self.attributes@.len(),
                i <= n,
                out@.len() == i,
                forall|j: int| 0 <= j < i ==> #[trigger] out@[j]@ == self.attributes@[j].name@,
            decreases n - i,
        {
            out.push(self.attributes[i].name.clone());
            i = i + 1;
        }
        out
    }

    /// Get the vertex layout builder for this layout: each attribute takes
    /// `count` consecutive shader locations, numbered from the base location of
    /// the step mode, and each location follows the previous one in the buffer.
    pub fn get_builder(&self, label: &str) -> (b: VertexLayoutBuilder)
        requires
            self.wf(),
            self.base_location() + total_locations(self.attribute_seq()) <= u32::MAX,
        ensures
            b.label@ == label@,
            b.step_mode == self.spec_step_mode(),
            b.attributes@ == layout_entries(self.attribute_seq(), self.base_location()),
            b.curr_offset == self.spec_stride(),
    {
        let base_loc: u32 = match self.step_mode {
            VertexStepMode::Vertex => VERTEX_BASE_LOC,
            VertexStepMode::Instance => INSTANCE_BASE_LOC,
        };
        let mut builder = VertexLayoutBuilder::new(self.step_mode).with_label(label);
        let ghost attrs = self.attributes@;
        let mut location: u32 = base_loc;
        let n = self.attributes.len();
        let mut i: usize = 0;
        proof {
            lemma_totals_nonneg(attrs);
            assert(attrs.take(0) =~= Seq::<AttributeSpec>::empty());
            assert(builder.attributes@ =~= layout_entries(attrs.take(0), base_loc as int));
        }
        while i < n
            invariant
                n == attrs.len(),
                attrs == self.attributes@,
                self.wf(),
                base_loc as int == self.base_location(),
                self.base_location() + total_locations(attrs) <= u32::MAX,
                i <= n,
                builder.label@ == label@,
                builder.step_mode == self.step_mode,
                location == base_loc + total_locations(attrs.take(i as int)),
                builder.curr_offset == total_bytes(attrs.take(i as int)),
                builder.attributes@ == layout_entries(attrs.take(i as int), base_loc as int),
            decreases n - i,
        {
            let attr = &self.attributes[i];
            let count = attr.count;
            let format = attr.format;
            let ghost prev = attrs.take(i as int);
            let ghost next = attrs.take(i + 1);
            proof {
                assert(next.drop_last() =~= prev);
                assert(next.last() == attrs[i as int]);
                lemma_totals_monotone(attrs, i + 1);
                lemma_totals_nonneg(prev);
            }
            let ghost start_entries = builder.attributes@;
            let ghost start_loc = location as int;
            let ghost start_off = builder.curr_offset as int;
            let mut r: u32 = 0;
            while r < count
                invariant
                    r <= count,
                    count == attrs[i as int].count,
                    format == attrs[i as int].format,
                    start_loc + count <= u32::MAX,
                    start_off + format.spec_size() * count <= u64::MAX,
                    location == start_loc + r,
                    builder.curr_offset == start_off + r * format.spec_size(),
                    builder.label@ == label@,
                    builder.step_mode == self.step_mode,
                    builder.attributes@ == start_entries + run_entries(format, r as nat, start_loc, start_off),
                decreases count - r,
            {
                proof {
                    assert((r + 1) * format.spec_size() == r * format.spec_size() + format.spec_size()) by (nonlinear_arith);
                    assert(r * format.spec_size() + format.spec_size() <= count * format.spec_size()) by (nonlinear_arith)
                        requires r < count;
                    assert(format.spec_size() * count == count * format.spec_size()) by (nonlinear_arith);
                }
                let ghost before = builder.attributes@;
                builder.add_attribute(location, format);
                assert(builder.attributes@ =~= start_entries + run_entries(format, (r + 1) as nat, start_loc, start_off));
                location = location + 1;
                r = r + 1;
            }
            proof {
                assert(format.spec_size() * count == count * format.spec_size()) by (nonlinear_arith);
            }
            i = i + 1;
        }
        proof {
            assert(attrs.take(n as int) =~= attrs);
        }
        builder
    }
}


/// A vertex attribute holding one scalar per vertex.
pub struct ScalarAttribute(pub &'static str);

/// A vertex attribute holding a two-component vector per vertex.
pub struct Vec2Attribute(pub &'static str);

/// A vertex attribute holding a three-component vector per vertex.
pub struct Vec3Attribute(pub &'static str);

/// A vertex attribute holding a four-component vector per vertex.
pub struct Vec4Attribute(pub &'static str);

/// A vertex attribute holding a transform (a 4x4 matrix) per instance.
pub struct TransformAttribute;

impl ScalarAttribute {
    /// The layout description of this attribute.
    pub fn spec(&self) -> (a: AttributeSpec)
        ensures
            a.name@ == self.0@,
            a.format == VertexFormat::Float32,
            a.count == 1,
    {
        AttributeSpec { name: owned(self.0), format: VertexFormat::Float32, count: 1 }
    }
}

impl Vec2Attribute {
    /// The layout description of this attribute.
    pub fn spec(&self) -> (a: AttributeSpec)
        ensures
            a.name@ == self.0@,
            a.format == VertexFormat::Float32x2,
            a.count == 1,
    {
        AttributeSpec { name: owned(self.0), format: VertexFormat::Float32x2, count: 1 }
    }
}

impl Vec3Attribute {
    /// The layout description of this attribute.
    pub fn spec(&self) -> (a: AttributeSpec)
        ensures
            a.name@ == self.0@,
            a.format == VertexFormat::Float32x3,
            a.count == 1,
    {
        AttributeSpec { name: owned(self.0), format: VertexFormat::Float32x3, count: 1 }
    }
}

impl Vec4Attribute {
    /// The layout description of this attribute.
    pub fn spec(&self) -> (a: AttributeSpec)
        ensures
            a.name@ == self.0@,
            a.format == VertexFormat::Float32x4,
            a.count == 1,
    {
        AttributeSpec { name: owned(self.0), format: VertexFormat::Float32x4, count: 1 }
    }
}

impl TransformAttribute {
    /// The layout description of this attribute: a transform takes four
    /// consecutive locations of four floats each.
    pub fn spec(&self) -> (a: AttributeSpec)
        ensures
            a.name@ == TRANSFORM@,
            a.format == VertexFormat::Float32x4,
            a.count == 4,
    {
        AttributeSpec { name: owned(TRANSFORM), format: VertexFormat::Float32x4, count: 4 }
    }
}

} // verus!
