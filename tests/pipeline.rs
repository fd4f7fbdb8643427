use egui_loaders::bytes_loader::DefaultBytesLoader;
use egui_loaders::image_loader::{
    hint_code, is_supported_format, is_unsupported_mime, ImageCrateLoader, SvgLoader,
};
use egui_loaders::loader::{BytesLoader, ImageDecoder, Loader};
use egui_loaders::registry::{capped_sum, falls_through, Registry, RegistryError};
use egui_loaders::text::extension_start;
use egui_loaders::texture_loader::{DefaultTextureLoader, TextureHandle, TextureManager};
use egui_loaders::types::{
    BytesPoll, Color32, ColorImage, ImagePoll, LoadError, SizeHint, TextureFilter, TextureOptions,
    TexturePoll, TextureWrapMode,
};

/// Decodes "IMG" + width byte + height byte; counts its calls.
struct CountingDecoder {
    accept: bool,
    fail: bool,
    decode_calls: usize,
}

impl CountingDecoder {
    fn new(fail: bool) -> Self {
        CountingDecoder { accept: true, fail, decode_calls: 0 }
    }

    fn refusing() -> Self {
        CountingDecoder { accept: false, fail: false, decode_calls: 0 }
    }
}

impl ImageDecoder for CountingDecoder {
    fn recognizes_extension(&self, extension: &str) -> bool {
        self.accept && extension == "png"
    }

    fn recognizes(&self, bytes: &Vec<u8>) -> bool {
        self.accept && bytes.len() >= 5 && &bytes[0..3] == b"IMG"
    }

    fn decode(&mut self, bytes: &Vec<u8>, size_hint: Option<SizeHint>) -> Result<ColorImage, String> {
        self.decode_calls += 1;
        if self.fail {
            return Err("corrupt data".to_owned());
        }
        if bytes.len() < 5 {
            return Err("too short".to_owned());
        }
        let (width, height) = match size_hint {
            Some(SizeHint::Width(w)) => (w as usize, w as usize),
            Some(SizeHint::Height(h)) => (h as usize, h as usize),
            Some(SizeHint::Size(w, h)) => (w as usize, h as usize),
            None => (bytes[3] as usize, bytes[4] as usize),
        };
        let white = Color32 { r: 255, g: 255, b: 255, a: 255 };
        Ok(ColorImage { width, height, pixels: vec![white; width * height] })
    }
}

/// A bytes source that answers `Pending` on its first poll, then delegates.
struct PendingOnce {
    inner: DefaultBytesLoader,
    polls: usize,
}

impl Loader for PendingOnce {
    fn id(&self) -> String {
        "pending_once".to_owned()
    }
    fn forget(&mut self, uri: &str) {
        self.inner.forget(uri)
    }
    fn forget_all(&mut self) {
        self.inner.forget_all()
    }
    fn byte_size(&self) -> usize {
        self.inner.byte_size()
    }
}

impl BytesLoader for PendingOnce {
    fn load(&mut self, uri: &str) -> Result<BytesPoll, LoadError> {
        self.polls += 1;
        if self.polls == 1 {
            Ok(BytesPoll::Pending { size: None })
        } else {
            self.inner.load(uri)
        }
    }
}

fn image_bytes(width: u8, height: u8, total: usize) -> Vec<u8> {
    let mut b = b"IMG".to_vec();
    b.push(width);
    b.push(height);
    b.resize(total, 0);
    b
}

fn options(filter: TextureFilter) -> TextureOptions {
    TextureOptions { magnification: filter, minification: filter, wrap_mode: TextureWrapMode::ClampToEdge }
}

fn ready_image(r: &Result<ImagePoll, LoadError>) -> (usize, usize) {
    match r {
        Ok(ImagePoll::Ready { image }) => (image.width, image.height),
        _ => panic!("expected a ready image"),
    }
}

fn ready_texture(r: &Result<TexturePoll, LoadError>) -> (u64, usize, usize) {
    match r {
        Ok(TexturePoll::Ready { texture }) => (texture.id, texture.width, texture.height),
        _ => panic!("expected a ready texture"),
    }
}

#[test]
fn bytes_registered_are_ready() {
    let mut loader = DefaultBytesLoader::new();
    loader.insert("bytes://a", vec![1, 2, 3]);
    match loader.load("bytes://a") {
        Ok(BytesPoll::Ready { size, bytes, mime }) => {
            assert_eq!(bytes, vec![1, 2, 3]);
            assert!(size.is_none());
            assert!(mime.is_none());
        }
        _ => panic!("expected ready bytes"),
    }
}

#[test]
fn bytes_missing_errors() {
    let loader = DefaultBytesLoader::new();
    assert!(matches!(loader.load("bytes://missing"), Err(LoadError::NotYetAvailable)));
    assert!(matches!(loader.load("file://x.png"), Err(LoadError::NotSupported)));
}

#[test]
fn bytes_insert_keeps_first() {
    let mut loader = DefaultBytesLoader::new();
    loader.insert("bytes://a", vec![1]);
    loader.insert("bytes://a", vec![2, 2]);
    match loader.load("bytes://a") {
        Ok(BytesPoll::Ready { bytes, .. }) => assert_eq!(bytes, vec![1]),
        _ => panic!("expected ready bytes"),
    }
    assert_eq!(loader.byte_size(), 1);
}

#[test]
fn bytes_forget_and_size() {
    let mut loader = DefaultBytesLoader::new();
    loader.insert("bytes://a", vec![0; 10]);
    loader.insert("bytes://b", vec![0; 5]);
    assert_eq!(loader.byte_size(), 15);
    loader.forget("bytes://a");
    assert_eq!(loader.byte_size(), 5);
    assert!(matches!(loader.load("bytes://a"), Err(LoadError::NotYetAvailable)));
    assert!(matches!(loader.load("bytes://b"), Ok(BytesPoll::Ready { .. })));
    loader.forget_all();
    assert_eq!(loader.byte_size(), 0);
}

#[test]
fn unsupported_mime_names_svg() {
    assert!(is_unsupported_mime("image/svg+xml"));
    assert!(!is_unsupported_mime("image/png"));
    assert!(!is_unsupported_mime(""));
}

#[test]
fn image_second_poll_does_not_decode_again() {
    let mut bytes = DefaultBytesLoader::new();
    bytes.insert("bytes://i", image_bytes(2, 3, 8));
    let mut images = ImageCrateLoader::new(CountingDecoder::new(false));
    let first = images.load(&mut bytes, "bytes://i", SizeHint::Width(10));
    let second = images.load(&mut bytes, "bytes://i", SizeHint::Width(10));
    assert_eq!(ready_image(&first), (2, 3));
    assert_eq!(ready_image(&second), (2, 3));
    assert_eq!(images.decoder().decode_calls, 1);
    assert_eq!(images.byte_size(), 2 * 3 * 4);
}

#[test]
fn image_decode_failure_is_cached() {
    let mut bytes = DefaultBytesLoader::new();
    bytes.insert("bytes://bad", image_bytes(1, 1, 5));
    let mut images = ImageCrateLoader::new(CountingDecoder::new(true));
    for _ in 0..5 {
        match images.load(&mut bytes, "bytes://bad", SizeHint::Width(1)) {
            Err(LoadError::Loading(msg)) => assert_eq!(msg, "corrupt data"),
            _ => panic!("expected the cached decode error"),
        }
    }
    assert_eq!(images.decoder().decode_calls, 1);
    assert_eq!(images.byte_size(), "corrupt data".len());
}

#[test]
fn image_pending_then_ready() {
    let mut inner = DefaultBytesLoader::new();
    inner.insert("bytes://p", image_bytes(4, 2, 8));
    let mut bytes = PendingOnce { inner, polls: 0 };
    let mut images = ImageCrateLoader::new(CountingDecoder::new(false));
    let first = images.load(&mut bytes, "bytes://p", SizeHint::Width(1));
    assert!(matches!(first, Ok(ImagePoll::Pending { .. })));
    assert_eq!(images.byte_size(), 0);
    let second = images.load(&mut bytes, "bytes://p", SizeHint::Width(1));
    assert_eq!(ready_image(&second), (4, 2));
    assert_eq!(images.decoder().decode_calls, 1);
}

#[test]
fn image_svg_mime_is_not_supported() {
    let mut images = ImageCrateLoader::new(CountingDecoder::new(false));
    let polled = Ok(BytesPoll::Ready {
        size: None,
        bytes: image_bytes(1, 1, 5),
        mime: Some("image/svg+xml".to_owned()),
    });
    let r = images.load_from_bytes("bytes://v", SizeHint::Width(1), polled);
    assert!(matches!(r, Err(LoadError::NotSupported)));
    assert_eq!(images.decoder().decode_calls, 0);
    let polled = Ok(BytesPoll::Ready { size: None, bytes: image_bytes(1, 1, 5), mime: Some("image/png".to_owned()) });
    let r = images.load_from_bytes("bytes://v", SizeHint::Width(1), polled);
    assert_eq!(ready_image(&r), (1, 1));
    // A declared MIME type decides alone: bytes without a known header are
    // still decoded, and the decode error is cached.
    let polled = Ok(BytesPoll::Ready { size: None, bytes: b"xx".to_vec(), mime: Some("image/png".to_owned()) });
    match images.load_from_bytes("bytes://w", SizeHint::Width(1), polled) {
        Err(LoadError::Loading(msg)) => assert_eq!(msg, "too short"),
        _ => panic!("expected the decode error"),
    }
    assert_eq!(images.decoder().decode_calls, 2);
}

#[test]
fn image_unrecognized_bytes_are_not_cached() {
    let mut bytes = DefaultBytesLoader::new();
    bytes.insert("bytes://t", b"plain text".to_vec());
    let mut images = ImageCrateLoader::new(CountingDecoder::new(false));
    for _ in 0..2 {
        let r = images.load(&mut bytes, "bytes://t", SizeHint::Width(1));
        assert!(matches!(r, Err(LoadError::NotSupported)));
    }
    assert_eq!(images.decoder().decode_calls, 0);
    assert_eq!(images.byte_size(), 0);
}

#[test]
fn image_bytes_errors_pass_through() {
    let mut bytes = DefaultBytesLoader::new();
    let mut images = ImageCrateLoader::new(CountingDecoder::new(false));
    let r = images.load(&mut bytes, "bytes://none", SizeHint::Width(1));
    assert!(matches!(r, Err(LoadError::NotYetAvailable)));
    let r = images.load(&mut bytes, "https://x", SizeHint::Width(1));
    assert!(matches!(r, Err(LoadError::NotSupported)));
    assert_eq!(images.byte_size(), 0);
}

#[test]
fn svg_size_hints_are_separate_entries() {
    let mut bytes = DefaultBytesLoader::new();
    bytes.insert("bytes://s", image_bytes(1, 1, 5));
    let mut svgs = SvgLoader::new(CountingDecoder::new(false));
    let a = svgs.load(&mut bytes, "bytes://s", SizeHint::Width(2));
    let b = svgs.load(&mut bytes, "bytes://s", SizeHint::Size(3, 5));
    assert_eq!(ready_image(&a), (2, 2));
    assert_eq!(ready_image(&b), (3, 5));
    assert_eq!(svgs.decoder().decode_calls, 2);
    let a2 = svgs.load(&mut bytes, "bytes://s", SizeHint::Width(2));
    assert_eq!(ready_image(&a2), (2, 2));
    assert_eq!(svgs.decoder().decode_calls, 2);
    assert_eq!(svgs.byte_size(), (4 + 15) * 4);
    svgs.forget("bytes://s");
    assert_eq!(svgs.byte_size(), 0);
}

#[test]
fn registry_falls_through_unsupported() {
    let mut bytes = DefaultBytesLoader::new();
    bytes.insert("bytes://r", image_bytes(2, 2, 6));
    let mut registry = Registry::new();
    assert!(registry.register_as("first".to_owned(), ImageCrateLoader::new(CountingDecoder::refusing())).is_ok());
    assert!(registry.register_as("second".to_owned(), ImageCrateLoader::new(CountingDecoder::new(false))).is_ok());
    assert_eq!(registry.len(), 2);
    for _ in 0..2 {
        let r = registry.load_image(&mut bytes, "bytes://r", SizeHint::Width(1));
        assert_eq!(ready_image(&r), (2, 2));
    }
    let first = registry.get(0).unwrap();
    let second = registry.get(1).unwrap();
    assert_eq!(first.byte_size(), 0);
    assert_eq!(first.decoder().decode_calls, 0);
    assert_eq!(second.decoder().decode_calls, 1);
    assert_eq!(second.byte_size(), 16);
}

#[test]
fn registry_first_answer_wins() {
    let mut bytes = DefaultBytesLoader::new();
    bytes.insert("bytes://w", image_bytes(2, 2, 6));
    let mut registry = Registry::new();
    assert!(registry.register_as("failing".to_owned(), ImageCrateLoader::new(CountingDecoder::new(true))).is_ok());
    assert!(registry.register_as("working".to_owned(), ImageCrateLoader::new(CountingDecoder::new(false))).is_ok());
    let r = registry.load_image(&mut bytes, "bytes://w", SizeHint::Width(1));
    assert!(matches!(r, Err(LoadError::Loading(_))));
    assert_eq!(registry.get(1).unwrap().decoder().decode_calls, 0);
    let empty: Registry<DefaultBytesLoader> = Registry::new();
    assert!(registry.get(2).is_none());
    assert_eq!(empty.len(), 0);
}

#[test]
fn registry_duplicate_id_is_refused() {
    let mut registry: Registry<DefaultBytesLoader> = Registry::new();
    assert!(registry.register(DefaultBytesLoader::new()).is_ok());
    match registry.register(DefaultBytesLoader::new()) {
        Err(RegistryError::DuplicateId(id)) => {
            assert_eq!(id, "egui::load::bytes_loader::DefaultBytesLoader")
        }
        Ok(()) => panic!("expected a duplicate id"),
    }
    assert_eq!(registry.len(), 1);
}

#[test]
fn texture_options_are_separate_and_forget_drops_all() {
    let mut bytes = DefaultBytesLoader::new();
    bytes.insert("bytes://t", image_bytes(2, 2, 6));
    let mut images = ImageCrateLoader::new(CountingDecoder::new(false));
    let mut textures = TextureManager::new();
    let mut loader = DefaultTextureLoader::new();
    let a = loader.load(&mut textures, &mut images, &mut bytes, "bytes://t", options(TextureFilter::Linear), SizeHint::Width(1));
    let b = loader.load(&mut textures, &mut images, &mut bytes, "bytes://t", options(TextureFilter::Nearest), SizeHint::Width(1));
    let (ida, _, _) = ready_texture(&a);
    let (idb, _, _) = ready_texture(&b);
    assert_ne!(ida, idb);
    assert_eq!(loader.byte_size(), 2 * 16);
    loader.forget("bytes://t");
    assert_eq!(loader.byte_size(), 0);
    let c = loader.load(&mut textures, &mut images, &mut bytes, "bytes://t", options(TextureFilter::Linear), SizeHint::Width(1));
    let (idc, _, _) = ready_texture(&c);
    assert_ne!(idc, ida);
    assert_ne!(idc, idb);
}

#[test]
fn texture_handle_byte_size() {
    let h = TextureHandle { id: 7, width: 3, height: 5 };
    assert_eq!(h.byte_size(), 60);
    let big = TextureHandle { id: 8, width: usize::MAX, height: 2 };
    assert_eq!(big.byte_size(), usize::MAX);
}

#[test]
fn texture_errors_pass_through() {
    let mut bytes = DefaultBytesLoader::new();
    let mut images = ImageCrateLoader::new(CountingDecoder::new(false));
    let mut textures = TextureManager::new();
    let mut loader = DefaultTextureLoader::new();
    let r = loader.load(&mut textures, &mut images, &mut bytes, "bytes://none", options(TextureFilter::Linear), SizeHint::Width(1));
    assert!(matches!(r, Err(LoadError::NotYetAvailable)));
    assert_eq!(loader.byte_size(), 0);
    loader.end_frame(0);
}

#[test]
fn forget_all_clears_every_layer() {
    let mut bytes = DefaultBytesLoader::new();
    bytes.insert("bytes://f", image_bytes(3, 3, 12));
    let mut images = ImageCrateLoader::new(CountingDecoder::new(false));
    let mut svgs = SvgLoader::new(CountingDecoder::new(false));
    let mut textures = TextureManager::new();
    let mut loader = DefaultTextureLoader::new();
    let r = loader.load(&mut textures, &mut images, &mut bytes, "bytes://f", options(TextureFilter::Linear), SizeHint::Width(1));
    assert_eq!(ready_texture(&r).1, 3);
    let _ = svgs.load(&mut bytes, "bytes://f", SizeHint::Width(4));
    assert!(bytes.byte_size() > 0 && images.byte_size() > 0 && svgs.byte_size() > 0 && loader.byte_size() > 0);
    bytes.forget_all();
    images.forget_all();
    svgs.forget_all();
    loader.forget_all();
    assert_eq!(bytes.byte_size(), 0);
    assert_eq!(images.byte_size(), 0);
    assert_eq!(svgs.byte_size(), 0);
    assert_eq!(loader.byte_size(), 0);
}

#[test]
fn logo_end_to_end() {
    let mut inner = DefaultBytesLoader::new();
    inner.insert("bytes://logo", image_bytes(40, 25, 10 * 1024));
    let mut bytes = PendingOnce { inner, polls: 0 };
    let mut images = ImageCrateLoader::new(CountingDecoder::new(false));
    let mut textures = TextureManager::new();
    let mut loader = DefaultTextureLoader::new();
    let o1 = options(TextureFilter::Linear);
    let o2 = options(TextureFilter::Nearest);
    let first = loader.load(&mut textures, &mut images, &mut bytes, "bytes://logo", o1, SizeHint::Width(40));
    assert!(matches!(first, Ok(TexturePoll::Pending { .. })));
    let second = loader.load(&mut textures, &mut images, &mut bytes, "bytes://logo", o1, SizeHint::Width(40));
    let (id1, w, h) = ready_texture(&second);
    assert_eq!((w, h), (40, 25));
    let polls = bytes.polls;
    let third = loader.load(&mut textures, &mut images, &mut bytes, "bytes://logo", o2, SizeHint::Width(40));
    let (id2, w2, h2) = ready_texture(&third);
    assert_eq!((w2, h2), (40, 25));
    assert_ne!(id1, id2);
    assert_eq!(bytes.polls, polls);
    assert_eq!(images.decoder().decode_calls, 1);
    let again = loader.load(&mut textures, &mut images, &mut bytes, "bytes://logo", o1, SizeHint::Width(40));
    assert_eq!(ready_texture(&again).0, id1);
}

#[test]
fn hint_codes_are_exact() {
    assert_eq!(hint_code(None), (0, 0, 0));
    assert_eq!(hint_code(Some(SizeHint::Width(7))), (1, 7, 0));
    assert_eq!(hint_code(Some(SizeHint::Height(7))), (2, 7, 0));
    assert_eq!(hint_code(Some(SizeHint::Size(7, 9))), (3, 7, 9));
}

#[test]
fn bytes_registry_falls_through() {
    let mut registry: Registry<DefaultBytesLoader> = Registry::new();
    let mut second = DefaultBytesLoader::new();
    second.insert("app://a", vec![9, 9]);
    assert!(registry.register_as("empty".to_owned(), DefaultBytesLoader::new()).is_ok());
    assert!(registry.register_as("app".to_owned(), second).is_ok());
    match registry.load_bytes("app://a") {
        Ok(BytesPoll::Ready { bytes, .. }) => assert_eq!(bytes, vec![9, 9]),
        _ => panic!("expected the second loader's bytes"),
    }
    assert!(matches!(registry.load_bytes("https://elsewhere"), Err(LoadError::NotSupported)));
    // The first loader recognizes the scheme, so its answer stands.
    assert!(matches!(registry.load_bytes("bytes://x"), Err(LoadError::NotYetAvailable)));
    assert_eq!(registry.byte_size(), 2);
    registry.forget_all();
    assert_eq!(registry.byte_size(), 0);
}

#[test]
fn texture_registry_dispatches() {
    let mut bytes = DefaultBytesLoader::new();
    bytes.insert("bytes://g", image_bytes(3, 1, 5));
    let mut images = ImageCrateLoader::new(CountingDecoder::new(false));
    let mut textures = TextureManager::new();
    let mut registry: Registry<DefaultTextureLoader> = Registry::new();
    assert!(registry.register(DefaultTextureLoader::new()).is_ok());
    let r = registry.load_texture(&mut textures, &mut images, &mut bytes, "bytes://g", options(TextureFilter::Linear), SizeHint::Width(1));
    assert_eq!(ready_texture(&r), (0, 3, 1));
    assert_eq!(registry.byte_size(), 12);
    registry.forget("bytes://g");
    assert_eq!(registry.byte_size(), 0);
}

#[test]
fn extension_start_finds_last_segment_dot() {
    assert_eq!(extension_start("bytes://pic.png"), Some(12));
    assert_eq!(extension_start("a.tar.gz"), Some(6));
    assert_eq!(extension_start("bytes://dir.png/pic"), None);
    assert_eq!(extension_start("plain"), None);
    assert_eq!(extension_start("ends."), Some(5));
}

#[test]
fn image_extension_is_recognized_without_mime() {
    let mut bytes = DefaultBytesLoader::new();
    bytes.insert("bytes://pic.png", b"xx".to_vec());
    bytes.insert("bytes://dir.png/pic", b"xx".to_vec());
    let mut images = ImageCrateLoader::new(CountingDecoder::new(false));
    for _ in 0..2 {
        match images.load(&mut bytes, "bytes://pic.png", SizeHint::Width(1)) {
            Err(LoadError::Loading(msg)) => assert_eq!(msg, "too short"),
            _ => panic!("expected the decode error"),
        }
    }
    assert_eq!(images.decoder().decode_calls, 1);
    let r = images.load(&mut bytes, "bytes://dir.png/pic", SizeHint::Width(1));
    assert!(matches!(r, Err(LoadError::NotSupported)));
    assert_eq!(images.decoder().decode_calls, 1);
}

#[test]
fn supported_format_decision() {
    let svg = Some("image/svg+xml".to_owned());
    let png = Some("image/png".to_owned());
    assert!(!is_supported_format(&svg, true, true));
    assert!(is_supported_format(&png, false, true));
    assert!(is_supported_format(&png, false, false));
    assert!(is_supported_format(&None, true, false));
    assert!(is_supported_format(&None, false, true));
    assert!(!is_supported_format(&None, false, false));
}

#[test]
fn stored_outcome_is_reported_without_decoding() {
    let mut bytes = DefaultBytesLoader::new();
    bytes.insert("bytes://s", image_bytes(1, 1, 5));
    let mut images = ImageCrateLoader::new(CountingDecoder::new(false));
    let stored = images.store_decoded("bytes://s", SizeHint::Width(1), Err("bad header".to_owned()));
    assert!(matches!(stored, Err(LoadError::Loading(ref m)) if m == "bad header"));
    match images.load(&mut bytes, "bytes://s", SizeHint::Height(9)) {
        Err(LoadError::Loading(msg)) => assert_eq!(msg, "bad header"),
        _ => panic!("expected the stored error"),
    }
    assert_eq!(images.decoder().decode_calls, 0);
    assert_eq!(images.byte_size(), "bad header".len());
    let mut svgs = SvgLoader::new(CountingDecoder::new(false));
    let white = Color32 { r: 255, g: 255, b: 255, a: 255 };
    let image = ColorImage { width: 2, height: 1, pixels: vec![white; 2] };
    let r = svgs.store_decoded("bytes://s", SizeHint::Width(2), Ok(image));
    assert_eq!(ready_image(&r), (2, 1));
    assert_eq!(svgs.byte_size(), 8);
    let miss = svgs.load(&mut bytes, "bytes://s", SizeHint::Width(3));
    assert_eq!(ready_image(&miss), (3, 3));
    assert_eq!(svgs.decoder().decode_calls, 1);
}

#[test]
fn ready_bytes_follow_the_format_decision() {
    let mut images = ImageCrateLoader::new(CountingDecoder::new(false));
    let r = images.load_ready_bytes("bytes://q", SizeHint::Width(1), &image_bytes(2, 2, 6), false);
    assert!(matches!(r, Err(LoadError::NotSupported)));
    assert_eq!(images.decoder().decode_calls, 0);
    assert_eq!(images.byte_size(), 0);
    let r = images.load_ready_bytes("bytes://q", SizeHint::Width(1), &image_bytes(2, 2, 6), true);
    assert_eq!(ready_image(&r), (2, 2));
    let r = images.load_ready_bytes("bytes://q", SizeHint::Width(1), &image_bytes(2, 2, 6), false);
    assert_eq!(ready_image(&r), (2, 2));
    assert_eq!(images.decoder().decode_calls, 1);
}

#[test]
fn capped_sum_saturates() {
    assert_eq!(capped_sum(&vec![]), 0);
    assert_eq!(capped_sum(&vec![3, 4, 5]), 12);
    assert_eq!(capped_sum(&vec![usize::MAX, 1]), usize::MAX);
    assert!(falls_through::<()>(&Err(LoadError::NotSupported)));
    assert!(!falls_through::<()>(&Err(LoadError::NotYetAvailable)));
    assert!(!falls_through(&Ok(())));
}
