use vstd::prelude::*;
use crate::text::owned;

verus! {

/// A pixel of an rgba texture.
#[derive(PartialEq, Eq, Structural, Clone, Copy, Debug)]
pub struct Pixel {
    pub r: u8,
    pub g: u8,
    pub b: u8,
    pub a: u8,
}

/// How a sampler addresses texture coordinates outside the texture.
#[derive(PartialEq, Eq, Structural, Clone, Copy, Debug)]
pub enum AddressMode {
    ClampToEdge,
    Repeat,
    MirrorRepeat,
    ClampToBorder,
}

/// How a sampler filters texels.
#[derive(PartialEq, Eq, Structural, Clone, Copy, Debug)]
pub enum FilterMode {
    Nearest,
    Linear,
}

/// The formats textures are created with.
#[derive(PartialEq, Eq, Structural, Clone, Copy, Debug)]
pub enum TextureFormat {
    /// Four 8-bit channels, srgb.
    Rgba8UnormSrgb,
    /// One 8-bit channel.
    R8Unorm,
}

/// Describes a texture sampler.
pub struct SamplerBuilder {
    pub label: String,
    pub address_mode: AddressMode,
    pub filter_mode: FilterMode,
}

impl SamplerBuilder {
    /// A sampler with the given modes, labelled `sampler`.
    pub fn new(address_mode: AddressMode, filter_mode: FilterMode) -> (s: Self)
        ensures
            s.label@ == "sampler"@,
            s.address_mode == address_mode,
            s.filter_mode == filter_mode,
    {
        SamplerBuilder { label: owned("sampler"), address_mode, filter_mode }
    }

    /// Add a custom label for GPU profiling.
    pub fn with_label(self, label: &str) -> (s: Self)
        ensures
            s.label@ == label@,
            s.address_mode == self.address_mode,
            s.filter_mode == self.filter_mode,
    {
        SamplerBuilder { label: owned(label), ..self }
    }

    /// A copy of this builder.
    pub fn duplicate(&self) -> (s: Self)
        ensures
            s.label@ == self.label@,
            s.address_mode == self.address_mode,
            s.filter_mode == self.filter_mode,
    {
        SamplerBuilder { label: self.label.clone(), address_mode: self.address_mode, filter_mode: self.filter_mode }
    }
}

/// A copy of a byte vector.
pub fn copy_bytes(src: &Vec<u8>) -> (r: Vec<u8>)
    ensures
        r@ == src@,
{
    let mut out: Vec<u8> = Vec::new();
    let n = src.len();
    let mut i: usize = 0;
    while i < n
        invariant
            n == src@.len(),
            i <= n,
            out@ == src@.subrange(0, i as int),
        decreases n - i,
    {
        out.push(src[i]);
        i = i + 1;
        assert(out@ =~= src@.subrange(0, i as int));
    }
    assert(out@ =~= src@);
    out
}

/// The rgba bytes of the 2x2 checkerboard of magenta and white that stands
/// for a texture without a usable source.
pub open spec fn fallback_rgba() -> Seq<u8> {
    seq![255u8, 0, 255, 255, 255, 255, 255, 255, 255, 255, 255, 255, 255, 0, 255, 255]
}

/// Width, height and rgba bytes, with the bytes taken by their view.
pub open spec fn pixels_view(p: Option<(u32, u32, Vec<u8>)>) -> Option<(u32, u32, Seq<u8>)> {
    match p {
        Some(d) => Some((d.0, d.1, d.2@)),
        None => None,
    }
}

/// The pixels a texture is made of: the decoded image file if there is one,
/// else the builder's data if there is any, else the fallback checkerboard.
pub open spec fn chosen_pixels(decoded: Option<(u32, u32, Seq<u8>)>, data: Option<(u32, u32, Seq<u8>)>) -> (u32, u32, Seq<u8>) {
    match decoded {
        Some(d) => d,
        None => match data {
            Some(d) => d,
            None => (2u32, 2u32, fallback_rgba()),
        },
    }
}

/// What decoding the bytes of an image file gives: its width, its height and
/// its pixels as rgba bytes, or `None` if the bytes are no image the decoder
/// reads.
pub uninterp spec fn spec_decode_rgba(bytes: Seq<u8>) -> Option<(u32, u32, Seq<u8>)>;

/// `image::load_from_memory`, then `to_rgba8`: decode the bytes of an image
/// file (its format guessed from its content) into width, height and rgba
/// bytes. The contract claims only that the result is the one the decoder
/// gives for these bytes (`spec_decode_rgba`), `None` where it reports an error.
#[verifier::external_body]
fn decode_rgba(bytes: &[u8]) -> (r: Option<(u32, u32, Vec<u8>)>)
    ensures
        pixels_view(r) == spec_decode_rgba(bytes@),
{
    match image::load_from_memory(bytes) {
        Ok(img) => Some((img.width(), img.height(), img.to_rgba8().into_raw())),
        Err(_) => None,
    }
}

/// Describes a texture to create: from an image file, from raw bytes, or (when
/// neither is given or the file cannot be read) a 2x2 checkerboard.
pub struct TextureBuilder {
    pub label: String,
    pub img_path: Option<String>,
    pub data: Option<(u32, u32, Vec<u8>)>,
    pub format: TextureFormat,
}

impl TextureBuilder {
    /// A texture with no source, labelled `texture`, in srgb rgba format.
    pub fn new() -> (t: Self)
        ensures
            t.label@ == "texture"@,
            t.img_path is None,
            t.data is None,
            t.format == TextureFormat::Rgba8UnormSrgb,
    {
        TextureBuilder { label: owned("texture"), img_path: None, data: None, format: TextureFormat::Rgba8UnormSrgb }
    }

    /// Add a custom label for GPU profiling.
    pub fn with_label(self, label: &str) -> (t: Self)
        ensures
            t.label@ == label@,
            t.img_path == self.img_path,
            t.data == self.data,
            t.format == self.format,
    {
        TextureBuilder { label: owned(label), ..self }
    }

    /// Specify the format that this texture is created with.
    pub fn with_format(self, format: TextureFormat) -> (t: Self)
        ensures
            t.label == self.label,
            t.img_path == self.img_path,
            t.data == self.data,
            t.format == format,
    {
        TextureBuilder { format, ..self }
    }

    /// Build the texture from an image file.
    pub fn with_img_file(self, img_path: &str) -> (t: Self)
        ensures
            t.label == self.label,
            t.img_path matches Some(p) && p@ == img_path@,
            t.data == self.data,
            t.format == self.format,
    {
        TextureBuilder { img_path: Some(owned(img_path)), ..self }
    }

    /// Build the texture from raw bytes.
    pub fn with_data(self, width: u32, height: u32, data: Vec<u8>) -> (t: Self)
        ensures
            t.label == self.label,
            t.img_path == self.img_path,
            t.data matches Some(d) && d.0 == width && d.1 == height && d.2@ == data@,
            t.format == self.format,
    {
        TextureBuilder { data: Some((width, height, data)), ..self }
    }

    /// The pixels of the texture made when no source can be used: a 2x2
    /// checkerboard of magenta and white, as rgba bytes.
    pub fn fallback_pixels() -> (r: (u32, u32, Vec<u8>))
        ensures
            r.0 == 2,
            r.1 == 2,
            r.2@ == fallback_rgba(),
    {
        let v: Vec<u8> = vec![255u8, 0, 255, 255, 255, 255, 255, 255, 255, 255, 255, 255, 255, 0, 255, 255];
        assert(v@ =~= fallback_rgba());
        (2, 2, v)
    }

    /// A copy of this builder.
    pub fn duplicate(&self) -> (t: Self)
        ensures
            t.label@ == self.label@,
            t.img_path is Some <==> self.img_path is Some,
            t.img_path matches Some(p) ==> p@ == self.img_path.unwrap()@,
            t.data is Some <==> self.data is Some,
            t.data matches Some(d) ==> d.0 == self.data.unwrap().0 && d.1 == self.data.unwrap().1
                && d.2@ == self.data.unwrap().2@,
            t.format == self.format,
    {
        let img_path = match &self.img_path {
            Some(p) => Some(p.clone()),
            None => None,
        };
        let data = match &self.data {
            Some(d) => Some((d.0, d.1, copy_bytes(&d.2))),
            None => None,
        };
        TextureBuilder { label: self.label.clone(), img_path, data, format: self.format }
    }
}

/// The pixels of the texture `builder` describes, given what decoding its
/// image file gave (`None` when there is no file or it could not be decoded):
/// the decoded image, else the builder's data, else the fallback checkerboard.
pub fn pixels_from(decoded: Option<(u32, u32, Vec<u8>)>, builder: &TextureBuilder) -> (r: (u32, u32, Vec<u8>))
    ensures
        (r.0, r.1, r.2@) == chosen_pixels(pixels_view(decoded), pixels_view(builder.data)),
{
    match decoded {
        Some(d) => d,
        None => match &builder.data {
            Some(d) => (d.0, d.1, copy_bytes(&d.2)),
            None => TextureBuilder::fallback_pixels(),
        },
    }
}

/// The pixels of the texture `builder` describes, given the bytes of its
/// image file (`None` when it has none or the file could not be read): the
/// decoded image if the bytes decode, else the builder's data, else the
/// fallback checkerboard.
pub fn texture_pixels(builder: &TextureBuilder, file: Option<Vec<u8>>) -> (r: (u32, u32, Vec<u8>))
    ensures
        (r.0, r.1, r.2@) == chosen_pixels(
            match file {
                Some(f) => spec_decode_rgba(f@),
                None => None,
            },
            pixels_view(builder.data),
        ),
{
    let decoded = match &file {
        Some(bytes) => decode_rgba(bytes.as_slice()),
        None => None,
    };
    pixels_from(decoded, builder)
}

} // verus!
