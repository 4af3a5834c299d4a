use vstd::prelude::*;
use crate::text::owned;

verus! {

/// The kind of buffer a [`BufferBuilder`] produces.
#[derive(PartialEq, Eq, Structural, Clone, Copy, Debug)]
pub enum BufferType {
    Uniform,
    Storage,
    Vertex,
    Index,
}

/// The bytes of `raw` followed by zeros up to the next multiple of 16 bytes.
pub open spec fn padded16(raw: Seq<u8>) -> Seq<u8> {
    raw + Seq::new(((16 - raw.len() % 16) % 16) as nat, |i: int| 0u8)
}

/// Describes a buffer to construct on the gpu, with the data to put in it, if any.
pub struct BufferBuilder {
    label: String,
    usage: BufferType,
    size: usize,
    data: Vec<u8>,
}

impl BufferBuilder {
    /// The label used for GPU profiling.
    pub closed spec fn spec_label(&self) -> Seq<char> {
        self.label@
    }

    /// The kind of buffer produced.
    pub closed spec fn spec_usage(&self) -> BufferType {
        self.usage
    }

    /// The requested capacity, in bytes.
    pub closed spec fn spec_capacity(&self) -> usize {
        self.size
    }

    /// The data to write into the buffer.
    pub closed spec fn spec_data(&self) -> Seq<u8> {
        self.data@
    }

    /// A builder for a buffer of the given kind, with no data and no capacity.
    pub fn new(usage: BufferType) -> (b: Self)
        ensures
            b.spec_label() == "buffer-builder"@,
            b.spec_usage() == usage,
            b.spec_capacity() == 0,
            b.spec_data().len() == 0,
    {
        BufferBuilder { label: owned("buffer-builder"), data: Vec::new(), size: 0, usage }
    }

    /// Create a buffer builder that produces a uniform buffer.
    pub fn as_uniform() -> (b: Self)
        ensures
            b.spec_label() == "buffer-builder"@,
            b.spec_usage() == BufferType::Uniform,
            b.spec_capacity() == 0,
            b.spec_data().len() == 0,
    {
        BufferBuilder::new(BufferType::Uniform)
    }

    /// Create a buffer builder that produces a storage buffer.
    pub fn as_storage() -> (b: Self)
        ensures
            b.spec_label() == "buffer-builder"@,
            b.spec_usage() == BufferType::Storage,
            b.spec_capacity() == 0,
            b.spec_data().len() == 0,
    {
        BufferBuilder::new(BufferType::Storage)
    }

    /// Create a buffer builder that produces a vertex buffer.
    pub fn as_vertex() -> (b: Self)
        ensures
            b.spec_label() == "buffer-builder"@,
            b.spec_usage() == BufferType::Vertex,
            b.spec_capacity() == 0,
            b.spec_data().len() == 0,
    {
        BufferBuilder::new(BufferType::Vertex)
    }

    /// Create a buffer builder that produces an index buffer.
    pub fn as_index() -> (b: Self)
        ensures
            b.spec_label() == "buffer-builder"@,
            b.spec_usage() == BufferType::Index,
            b.spec_capacity() == 0,
            b.spec_data().len() == 0,
    {
        BufferBuilder::new(BufferType::Index)
    }

    /// Add a custom label for GPU profiling.
    pub fn with_label(self, label: &str) -> (b: Self)
        ensures
            b.spec_label() == label@,
            b.spec_usage() == self.spec_usage(),
            b.spec_capacity() == self.spec_capacity(),
            b.spec_data() == self.spec_data(),
    {
        BufferBuilder { label: owned(label), ..self }
    }

    /// Add a capacity for the buffer. Data larger than the capacity wins: the
    /// buffer is then made large enough for the data.
    pub fn with_capacity(self, capacity: usize) -> (b: Self)
        ensures
            b.spec_label() == self.spec_label(),
            b.spec_usage() == self.spec_usage(),
            b.spec_capacity() == capacity,
            b.spec_data() == self.spec_data(),
    {
        BufferBuilder { size: capacity, ..self }
    }

    /// Add data to the buffer from a byte vector.
    pub fn with_data(self, data: Vec<u8>) -> (b: Self)
        ensures
            b.spec_label() == self.spec_label(),
            b.spec_usage() == self.spec_usage(),
            b.spec_capacity() == self.spec_capacity(),
            b.spec_data() == data@,
    {
        BufferBuilder { data, ..self }
    }

    /// Add data to the buffer from the bytes of a plain-data struct, padded
    /// with zeros to a multiple of 16 bytes.
    pub fn with_data_from_struct(self, struct_bytes: &[u8]) -> (b: Self)
        ensures
            b.spec_label() == self.spec_label(),
            b.spec_usage() == self.spec_usage(),
            b.spec_capacity() == self.spec_capacity(),
            b.spec_data() == padded16(struct_bytes@),
    {
        let data = BufferBuilder::to_padded_vec(struct_bytes);
        BufferBuilder { data, ..self }
    }

    /// Copies the bytes of a plain-data struct, followed by zeros up to the
    /// next multiple of 16 bytes.
    pub fn to_padded_vec(raw_bytes: &[u8]) -> (padded: Vec<u8>)
        ensures
            padded@ == padded16(raw_bytes@),
    {
        let n = raw_bytes.len();
        let mut padded: Vec<u8> = Vec::with_capacity(n);
        let mut i: usize = 0;
        while i < n
            invariant
                n == raw_bytes@.len(),
                i <= n,
                padded@ == raw_bytes@.subrange(0, i as int),
            decreases n - i,
        {
            padded.push(raw_bytes[i]);
            i = i + 1;
            assert(padded@ =~= raw_bytes@.subrange(0, i as int));
        }
        let padding_needed = (16 - (n % 16)) % 16;
        let mut k: usize = 0;
        while k < padding_needed
            invariant
                padding_needed == (16 - n % 16) % 16,
                n == raw_bytes@.len(),
                k <= padding_needed,
                padded@ == raw_bytes@ + Seq::new(k as nat, |j: int| 0u8),
            decreases padding_needed - k,
        {
            padded.push(0u8);
            k = k + 1;
            assert(padded@ =~= raw_bytes@ + Seq::new(k as nat, |j: int| 0u8));
        }
        assert(padded@ =~= padded16(raw_bytes@));
        padded
    }

    /// The size in bytes of the buffer to create: the capacity, or the length
    /// of the data if that is larger.
    pub fn buffer_size(&self) -> (s: usize)
        ensures
            s == if self.spec_capacity() >= self.spec_data().len() { self.spec_capacity() } else { self.spec_data().len() as usize },
    {
        if self.size >= self.data.len() {
            self.size
        } else {
            self.data.len()
        }
    }

    /// The label used for GPU profiling.
    pub fn label(&self) -> (l: &String)
        ensures
            l@ == self.spec_label(),
    {
        &self.label
    }

    /// The kind of buffer produced.
    pub fn usage(&self) -> (u: BufferType)
        ensures
            u == self.spec_usage(),
    {
        self.usage
    }

    /// The data to write into the buffer.
    pub fn data(&self) -> (d: &Vec<u8>)
        ensures
            d@ == self.spec_data(),
    {
        &self.data
    }
}

} // verus!
