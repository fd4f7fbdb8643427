//! The capabilities that each layer of the pipeline offers. Applications
//! implement them to add their own sources, decoders and loaders.
use vstd::prelude::*;
use crate::texture_loader::TextureManager;
use crate::types::{BytesPoll, ColorImage, ImagePoll, LoadError, SizeHint, TextureOptions, TexturePoll};

verus! {

/// What every loader of every layer offers besides loading.
pub trait Loader {
    /// A stable identifier, unique among the loaders of one layer.
    fn id(&self) -> String;

    /// Drops what is cached for `uri`.
    fn forget(&mut self, uri: &str);

    /// Drops everything that is cached.
    fn forget_all(&mut self);

    /// Bytes held by the cache.
    fn byte_size(&self) -> usize;
}

/// Maps a URI to raw bytes.
pub trait BytesLoader: Loader {
    fn load(&mut self, uri: &str) -> Result<BytesPoll, LoadError>;
}

/// Maps a URI to a decoded image, polling a bytes loader for its input.
pub trait ImageLoader: Loader {
    fn load<B: BytesLoader>(&mut self, bytes: &mut B, uri: &str, size_hint: SizeHint) -> Result<ImagePoll, LoadError>;
}

/// Maps a URI and texture options to a texture, polling an image loader.
pub trait TextureLoader: Loader {
    fn load<I: ImageLoader, B: BytesLoader>(
        &mut self,
        textures: &mut TextureManager,
        images: &mut I,
        bytes: &mut B,
        uri: &str,
        options: TextureOptions,
        size_hint: SizeHint,
    ) -> Result<TexturePoll, LoadError>;
}

/// A decoder of one image format.
pub trait ImageDecoder {
    /// Whether a URI extension (without the dot) names a format this decoder
    /// handles.
    fn recognizes_extension(&self, extension: &str) -> bool;

    /// Whether the header of `bytes` belongs to a format this decoder handles.
    fn recognizes(&self, bytes: &Vec<u8>) -> bool;

    /// Decodes `bytes`, scaled after `size_hint` where the format is scalable.
    fn decode(&mut self, bytes: &Vec<u8>, size_hint: Option<SizeHint>) -> Result<ColorImage, String>;
}

} // verus!
