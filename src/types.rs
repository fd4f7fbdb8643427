use vstd::prelude::*;

verus! {

/// Target dimensions for a scalable source.
#[derive(Clone, Copy, Debug, PartialEq, Eq, Hash, Structural)]
pub enum SizeHint {
    /// Scale to this width, keeping the aspect ratio.
    Width(u32),
    /// Scale to this height, keeping the aspect ratio.
    Height(u32),
    /// Fit within this width and height.
    Size(u32, u32),
}

/// How texels are sampled when the texture is scaled.
#[derive(Clone, Copy, Debug, PartialEq, Eq, Hash, Structural)]
pub enum TextureFilter {
    Nearest,
    Linear,
}

/// What happens outside the texture's coordinates.
#[derive(Clone, Copy, Debug, PartialEq, Eq, Hash, Structural)]
pub enum TextureWrapMode {
    ClampToEdge,
    Repeat,
    MirroredRepeat,
}

/// Sampling configuration of a texture; part of the texture cache key.
#[derive(Clone, Copy, Debug, PartialEq, Eq, Hash, Structural)]
pub struct TextureOptions {
    pub magnification: TextureFilter,
    pub minification: TextureFilter,
    pub wrap_mode: TextureWrapMode,
}

/// One RGBA pixel.
#[derive(Clone, Copy, Debug, PartialEq, Eq, Hash, Structural)]
pub struct Color32 {
    pub r: u8,
    pub g: u8,
    pub b: u8,
    pub a: u8,
}

/// Bytes taken by one pixel of a decoded image.
pub const BYTES_PER_PIXEL: usize = 4;

/// A decoded pixel grid, row by row.
#[derive(Debug)]
pub struct ColorImage {
    pub width: usize,
    pub height: usize,
    pub pixels: Vec<Color32>,
}

/// An image as width, height and pixels.
pub type ImageView = (usize, usize, Seq<Color32>);

impl View for ColorImage {
    type V = ImageView;

    open spec fn view(&self) -> ImageView {
        (self.width, self.height, self.pixels@)
    }
}

impl ColorImage {
    /// A copy with the same dimensions and pixels.
    pub fn duplicate(&self) -> (r: ColorImage)
        ensures
            r@ == self@,
    {
        let mut pixels: Vec<Color32> = Vec::new();
        let mut i: usize = 0;
        while i < self.pixels.len()
            invariant
                i <= self.pixels@.len(),
                pixels@ == self.pixels@.take(i as int),
            decreases self.pixels@.len() - i,
        {
            pixels.push(self.pixels[i]);
            i = i + 1;
            assert(pixels@ =~= self.pixels@.take(i as int));
        }
        assert(pixels@ =~= self.pixels@);
        ColorImage { width: self.width, height: self.height, pixels }
    }
}

/// Why a resolution attempt did not produce a value.
#[derive(Debug)]
pub enum LoadError {
    /// This loader does not handle the URI or its content; the next one may.
    NotSupported,
    /// The URI is recognized but its bytes have not been registered yet.
    NotYetAvailable,
    /// The content was recognized but could not be decoded.
    Loading(String),
}

/// Outcome of polling the bytes layer that is not an error.
#[derive(Debug)]
pub enum BytesPoll {
    /// Work is in flight; poll again later.
    Pending { size: Option<SizeHint> },
    /// The bytes are available.
    Ready { size: Option<SizeHint>, bytes: Vec<u8>, mime: Option<String> },
}

/// Outcome of polling the image layer that is not an error.
#[derive(Debug)]
pub enum ImagePoll {
    Pending { size: Option<SizeHint> },
    Ready { image: ColorImage },
}

/// A texture handle together with the dimensions of its image.
#[derive(Clone, Copy, Debug, PartialEq, Eq, Hash, Structural)]
pub struct SizedTexture {
    pub id: u64,
    pub width: usize,
    pub height: usize,
}

/// Outcome of polling the texture layer that is not an error.
#[derive(Debug)]
pub enum TexturePoll {
    Pending { size: Option<SizeHint> },
    Ready { texture: SizedTexture },
}

/// Copies a byte buffer.
pub fn copy_bytes(b: &Vec<u8>) -> (r: Vec<u8>)
    ensures
        r@ == b@,
{
    let mut out: Vec<u8> = Vec::new();
    let mut i: usize = 0;
    while i < b.len()
        invariant
            i <= b@.len(),
            out@ == b@.take(i as int),
        decreases b@.len() - i,
    {
        out.push(b[i]);
        i = i + 1;
        assert(out@ =~= b@.take(i as int));
    }
    assert(out@ =~= b@);
    out
}

} // verus!
