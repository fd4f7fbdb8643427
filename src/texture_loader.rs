//! The texture layer: one texture per URI and texture options, made from the
//! image that the image layer reports.
use vstd::prelude::*;
use crate::cache::{
    capped, drop_where, keys_unique, lemma_drop_where_from, lemma_drop_where_step,
    lemma_drop_where_unique, lemma_lookup_at, lemma_lookup_none, lemma_lookup_push, lemma_total_step,
    lookup, total,
};
use crate::loader::{BytesLoader, ImageLoader, Loader, TextureLoader};
use crate::text::same_text;
use crate::types::{ImagePoll, LoadError, SizeHint, SizedTexture, TextureOptions, TexturePoll, BYTES_PER_PIXEL};

verus! {

/// A texture that the renderer holds, with the dimensions of its image.
#[derive(Clone, Copy, Debug, PartialEq, Eq, Hash, Structural)]
pub struct TextureHandle {
    pub id: u64,
    pub width: usize,
    pub height: usize,
}

/// Bytes that a texture takes on the renderer.
pub open spec fn texture_size(h: TextureHandle) -> nat {
    (h.width as nat) * (h.height as nat) * (BYTES_PER_PIXEL as nat)
}

impl TextureHandle {
    /// The handle with its size, as reported to callers.
    pub open spec fn spec_sized(self) -> SizedTexture {
        SizedTexture { id: self.id, width: self.width, height: self.height }
    }

    pub fn sized(&self) -> (r: SizedTexture)
        ensures
            r == self.spec_sized(),
    {
        SizedTexture { id: self.id, width: self.width, height: self.height }
    }

    /// Bytes the texture takes, saturated at `usize::MAX`.
    pub fn byte_size(&self) -> (r: usize)
        ensures
            r == capped(texture_size(*self)),
    {
        let w = self.width as u128;
        let h = self.height as u128;
        assert(w * h <= u128::MAX) by (nonlinear_arith)
            requires
                w <= usize::MAX,
                h <= usize::MAX,
        ;
        let px = w * h;
        if px > (usize::MAX / BYTES_PER_PIXEL) as u128 {
            usize::MAX
        } else {
            px as usize * BYTES_PER_PIXEL
        }
    }
}

/// Hands out texture ids, each one once.
pub struct TextureManager {
    next_id: u64,
}

impl TextureManager {
    /// The id that the next allocation returns; every earlier one is smaller.
    pub closed spec fn spec_next_id(&self) -> u64 {
        self.next_id
    }

    pub fn new() -> (r: Self)
        ensures
            r.spec_next_id() == 0,
    {
        TextureManager { next_id: 0 }
    }

    /// A fresh id, or `None` once every id has been handed out.
    pub fn allocate(&mut self) -> (r: Option<u64>)
        ensures
            old(self).spec_next_id() == u64::MAX ==> r is None && *final(self) == *old(self),
            old(self).spec_next_id() < u64::MAX ==> r == Some(old(self).spec_next_id())
                && final(self).spec_next_id() == old(self).spec_next_id() + 1,
    {
        if self.next_id == u64::MAX {
            None
        } else {
            let id = self.next_id;
            self.next_id = self.next_id + 1;
            Some(id)
        }
    }
}

/// A texture made on a miss takes the manager's next id, which no cached
/// texture has: variants of one URI under different options, and textures
/// made again after a forget, never share a handle.
pub proof fn new_texture_id_is_fresh(before: Seq<(TextureKey, TextureHandle)>, next: u64, made: TextureHandle)
    requires
        forall|i: int| 0 <= i < before.len() ==> #[trigger] before[i].1.id < next,
        made.id == next,
    ensures
        forall|i: int| 0 <= i < before.len() ==> #[trigger] before[i].1.id != made.id,
{
}

/// A texture cache key: the URI and the texture options.
pub type TextureKey = (Seq<char>, TextureOptions);

struct TextureEntry {
    uri: String,
    options: TextureOptions,
    handle: TextureHandle,
}

spec fn texture_entry_view(e: TextureEntry) -> (TextureKey, TextureHandle) {
    ((e.uri@, e.options), e.handle)
}

/// Uploads images as textures, one per URI and texture options.
pub struct DefaultTextureLoader {
    cache: Vec<TextureEntry>,
}

impl DefaultTextureLoader {
    /// The cached textures, in the order they were made.
    pub closed spec fn entries(&self) -> Seq<(TextureKey, TextureHandle)> {
        self.cache@.map_values(|e: TextureEntry| texture_entry_view(e))
    }

    /// Each key is cached at most once.
    pub open spec fn wf(&self) -> bool {
        keys_unique(self.entries())
    }

    /// Every cached texture got its id from a manager whose next id is now
    /// `next`, so each id is below it.
    pub open spec fn ids_below(&self, next: u64) -> bool {
        forall|i: int| 0 <= i < self.entries().len() ==> #[trigger] self.entries()[i].1.id < next
    }

    /// Bytes held by the cached textures.
    pub open spec fn spec_byte_size(&self) -> nat {
        total(self.entries(), |h: TextureHandle| texture_size(h))
    }

    pub fn new() -> (r: Self)
        ensures
            r.wf(),
            r.entries().len() == 0,
            r.ids_below(0),
    {
        let r = DefaultTextureLoader { cache: Vec::new() };
        assert(r.entries() =~= Seq::empty());
        r
    }

    /// The loader's stable identifier.
    pub fn id(&self) -> (r: String)
        ensures
            r@ == "egui::load::texture_loader::DefaultTextureLoader"@,
    {
        "egui::load::texture_loader::DefaultTextureLoader".to_owned()
    }

    fn find(&self, uri: &str, options: TextureOptions) -> (r: Option<usize>)
        ensures
            match r {
                Some(i) => i < self.entries().len() && lookup(self.entries(), (uri@, options))
                    == Some(self.entries()[i as int].1),
                None => lookup(self.entries(), (uri@, options)) is None,
            },
    {
        let ghost s = self.entries();
        let ghost k = (uri@, options);
        let mut i: usize = 0;
        while i < self.cache.len()
            invariant
                s == self.entries(),
                k == (uri@, options),
                s.len() == self.cache@.len(),
                i <= s.len(),
                lookup(s.take(i as int), k) is None,
            decreases s.len() - i,
        {
            if same_text(self.cache[i].uri.as_str(), uri) && self.cache[i].options == options {
                assert(s[i as int].0 == k);
                proof {
                    lemma_lookup_at(s, i as int);
                }
                return Some(i);
            }
            proof {
                lemma_lookup_push(s.take(i as int), s[i as int], k);
                assert(s.take(i as int).push(s[i as int]) =~= s.take(i + 1));
            }
            i = i + 1;
        }
        assert(s.take(i as int) =~= s);
        None
    }

    /// Finishes a poll of `uri` with `options` given what the image layer
    /// answered. A cached texture is reported as it is; a ready image is
    /// uploaded under a fresh id and cached; anything else is passed on.
    pub fn load_from_image(
        &mut self,
        textures: &mut TextureManager,
        uri: &str,
        options: TextureOptions,
        polled: Result<ImagePoll, LoadError>,
    ) -> (r: Result<TexturePoll, LoadError>)
        ensures
            old(self).wf() ==> final(self).wf(),
            old(self).ids_below(old(textures).spec_next_id()) ==> final(self).ids_below(
                final(textures).spec_next_id(),
            ),
            match lookup(old(self).entries(), (uri@, options)) {
                Some(h) => *final(self) == *old(self) && *final(textures) == *old(textures)
                    && r == Ok::<TexturePoll, LoadError>(TexturePoll::Ready { texture: h.spec_sized() }),
                None => match polled {
                    Ok(ImagePoll::Ready { image }) => if old(textures).spec_next_id() == u64::MAX {
                        *final(self) == *old(self) && *final(textures) == *old(textures)
                            && r matches Err(LoadError::Loading(_))
                    } else {
                        let h = TextureHandle {
                            id: old(textures).spec_next_id(),
                            width: image.width,
                            height: image.height,
                        };
                        &&& final(textures).spec_next_id() == old(textures).spec_next_id() + 1
                        &&& final(self).entries() == old(self).entries().push(((uri@, options), h))
                        &&& r == Ok::<TexturePoll, LoadError>(TexturePoll::Ready { texture: h.spec_sized() })
                    },
                    Ok(ImagePoll::Pending { size }) => *final(self) == *old(self) && *final(textures)
                        == *old(textures) && r == Ok::<TexturePoll, LoadError>(
                        TexturePoll::Pending { size },
                    ),
                    Err(e) => *final(self) == *old(self) && *final(textures) == *old(textures) && r
                        == Err::<TexturePoll, LoadError>(e),
                },
            },
    {
        match self.find(uri, options) {
            Some(i) => Ok(TexturePoll::Ready { texture: self.cache[i].handle.sized() }),
            None => match polled {
                Ok(ImagePoll::Pending { size }) => Ok(TexturePoll::Pending { size }),
                Err(e) => Err(e),
                Ok(ImagePoll::Ready { image }) => {
                    match textures.allocate() {
                        None => Err(LoadError::Loading("no texture id is left".to_owned())),
                        Some(id) => {
                            let handle = TextureHandle { id, width: image.width, height: image.height };
                            let ghost s = self.entries();
                            self.cache.push(TextureEntry { uri: uri.to_owned(), options, handle });
                            proof {
                                assert(self.entries() =~= s.push(((uri@, options), handle)));
                                lemma_lookup_none(s, (uri@, options));
                            }
                            Ok(TexturePoll::Ready { texture: handle.sized() })
                        },
                    }
                },
            },
        }
    }

    /// Polls the texture of `uri` with `options`. A cached texture is
    /// reported without touching the other layers; otherwise `images` is
    /// polled and its answer handled as [`Self::load_from_image`] does.
    pub fn load<I: ImageLoader, B: BytesLoader>(
        &mut self,
        textures: &mut TextureManager,
        images: &mut I,
        bytes: &mut B,
        uri: &str,
        options: TextureOptions,
        size_hint: SizeHint,
    ) -> (r: Result<TexturePoll, LoadError>)
        ensures
            old(self).wf() ==> final(self).wf(),
            old(self).ids_below(old(textures).spec_next_id()) ==> final(self).ids_below(
                final(textures).spec_next_id(),
            ),
            lookup(old(self).entries(), (uri@, options)) is None && *final(self) == *old(self) ==> !(r matches Ok(
                TexturePoll::Ready { .. },
            )),
            match lookup(old(self).entries(), (uri@, options)) {
                Some(h) => *final(self) == *old(self) && *final(textures) == *old(textures)
                    && *final(images) == *old(images) && *final(bytes) == *old(bytes)
                    && r == Ok::<TexturePoll, LoadError>(TexturePoll::Ready { texture: h.spec_sized() }),
                None => (*final(self) == *old(self) && *final(textures) == *old(textures)) || ({
                    let h = TextureHandle {
                        id: old(textures).spec_next_id(),
                        width: final(self).entries().last().1.width,
                        height: final(self).entries().last().1.height,
                    };
                    &&& final(textures).spec_next_id() == old(textures).spec_next_id() + 1
                    &&& final(self).entries() == old(self).entries().push(((uri@, options), h))
                    &&& r == Ok::<TexturePoll, LoadError>(TexturePoll::Ready { texture: h.spec_sized() })
                }),
            },
    {
        match self.find(uri, options) {
            Some(i) => Ok(TexturePoll::Ready { texture: self.cache[i].handle.sized() }),
            None => {
                let polled = images.load(bytes, uri, size_hint);
                self.load_from_image(textures, uri, options, polled)
            },
        }
    }

    /// Drops the textures of `uri` under every texture options.
    pub fn forget(&mut self, uri: &str)
        ensures
            old(self).wf() ==> final(self).wf(),
            forall|n: u64| old(self).ids_below(n) ==> #[trigger] final(self).ids_below(n),
            final(self).entries() == drop_where(old(self).entries(), |k: TextureKey| k.0 == uri@),
    {
        let ghost s = self.entries();
        let ghost p = |k: TextureKey| k.0 == uri@;
        let mut rest: Vec<TextureEntry> = Vec::new();
        std::mem::swap(&mut rest, &mut self.cache);
        let ghost orig = rest@;
        assert(self.entries() =~= Seq::empty());
        let n = rest.len();
        let mut i: usize = 0;
        while i < n
            invariant
                n == orig.len(),
                p == (|k: TextureKey| k.0 == uri@),
                s == orig.map_values(|e: TextureEntry| texture_entry_view(e)),
                i <= n,
                rest@ == orig.skip(i as int),
                self.entries() == drop_where(s.take(i as int), p),
            decreases n - i,
        {
            let e = rest.remove(0);
            assert(e == orig[i as int]);
            assert(s[i as int] == texture_entry_view(e));
            proof {
                lemma_drop_where_step(s, p, i as int);
            }
            if !same_text(e.uri.as_str(), uri) {
                let ghost before = self.entries();
                self.cache.push(e);
                assert(self.entries() =~= before.push(s[i as int]));
            }
            i = i + 1;
            assert(rest@ =~= orig.skip(i as int));
        }
        assert(s.take(n as int) =~= s);
        proof {
            if keys_unique(s) {
                lemma_drop_where_unique(s, p);
            }
            lemma_drop_where_from(s, p);
            let d = drop_where(s, p);
            assert forall|n: u64| old(self).ids_below(n) implies #[trigger] self.ids_below(n) by {
                assert forall|i: int| 0 <= i < d.len() implies #[trigger] d[i].1.id < n by {
                    let j = choose|j: int| 0 <= j < s.len() && s[j] == d[i];
                    assert(old(self).entries()[j].1.id < n);
                }
            }
        }
    }

    /// Drops every texture.
    pub fn forget_all(&mut self)
        ensures
            final(self).wf(),
            final(self).entries().len() == 0,
            final(self).spec_byte_size() == 0,
    {
        self.cache.clear();
        assert(self.entries() =~= Seq::empty());
    }

    /// A hook run at the end of each frame with a memory budget. This loader
    /// evicts nothing.
    pub fn end_frame(&mut self, budget: usize)
        ensures
            *final(self) == *old(self),
    {
    }

    /// Bytes held by the cached textures, saturated at `usize::MAX`.
    pub fn byte_size(&self) -> (r: usize)
        ensures
            r == capped(self.spec_byte_size()),
    {
        let ghost s = self.entries();
        let ghost size = |h: TextureHandle| texture_size(h);
        let mut sum: usize = 0;
        let mut i: usize = 0;
        while i < self.cache.len()
            invariant
                s == self.entries(),
                s.len() == self.cache@.len(),
                size == (|h: TextureHandle| texture_size(h)),
                i <= s.len(),
                sum == capped(total(s.take(i as int), size)),
            decreases s.len() - i,
        {
            proof {
                lemma_total_step(s, size, i as int);
                assert(s[i as int] == texture_entry_view(self.cache@[i as int]));
            }
            sum = sum.saturating_add(self.cache[i].handle.byte_size());
            i = i + 1;
        }
        assert(s.take(i as int) =~= s);
        sum
    }
}

impl Loader for DefaultTextureLoader {
    fn id(&self) -> String {
        DefaultTextureLoader::id(self)
    }

    fn forget(&mut self, uri: &str) {
        DefaultTextureLoader::forget(self, uri)
    }

    fn forget_all(&mut self) {
        DefaultTextureLoader::forget_all(self)
    }

    fn byte_size(&self) -> usize {
        DefaultTextureLoader::byte_size(self)
    }
}

impl TextureLoader for DefaultTextureLoader {
    fn load<I: ImageLoader, B: BytesLoader>(
        &mut self,
        textures: &mut TextureManager,
        images: &mut I,
        bytes: &mut B,
        uri: &str,
        options: TextureOptions,
        size_hint: SizeHint,
    ) -> Result<TexturePoll, LoadError> {
        DefaultTextureLoader::load(self, textures, images, bytes, uri, options, size_hint)
    }
}

} // verus!
