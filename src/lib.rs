//! A polling pipeline that turns a URI into bytes, bytes into a decoded image,
//! and an image into a texture, with a cache at every layer.
pub mod types;
pub mod cache;
pub mod text;
pub mod loader;
pub mod bytes_loader;
pub mod image_loader;
pub mod texture_loader;
pub mod registry;
