//! An ordered list of competing loaders of one layer. A request goes to each
//! in turn until one answers with something other than "not supported".
use vstd::prelude::*;
use crate::cache::capped;
use crate::loader::{BytesLoader, ImageLoader, Loader, TextureLoader};
use crate::texture_loader::TextureManager;
use crate::types::{BytesPoll, ImagePoll, LoadError, SizeHint, TextureOptions, TexturePoll};

verus! {

/// Why a loader could not be registered.
#[derive(Debug)]
pub enum RegistryError {
    /// A loader with this identifier is already registered.
    DuplicateId(String),
}

/// Sum of a sequence of sizes.
pub open spec fn sum_sizes(s: Seq<usize>) -> nat
    decreases s.len(),
{
    if s.len() == 0 {
        0
    } else {
        sum_sizes(s.drop_last()) + (s.last() as nat)
    }
}

/// Adds up sizes, saturating at `usize::MAX`.
pub fn capped_sum(sizes: &Vec<usize>) -> (r: usize)
    ensures
        r == capped(sum_sizes(sizes@)),
{
    let mut sum: usize = 0;
    let mut i: usize = 0;
    while i < sizes.len()
        invariant
            i <= sizes@.len(),
            sum == capped(sum_sizes(sizes@.take(i as int))),
        decreases sizes@.len() - i,
    {
        assert(sizes@.take(i + 1).drop_last() =~= sizes@.take(i as int));
        sum = sum.saturating_add(sizes[i]);
        i = i + 1;
    }
    assert(sizes@.take(i as int) =~= sizes@);
    sum
}

/// Whether an answer lets the next loader be asked: only "not supported"
/// does; any other answer, success or failure, is final.
pub fn falls_through<T>(r: &Result<T, LoadError>) -> (b: bool)
    ensures
        b == (*r matches Err(LoadError::NotSupported)),
{
    match r {
        Err(LoadError::NotSupported) => true,
        _ => false,
    }
}

/// Loaders of one layer, in the order they are asked.
pub struct Registry<L> {
    ids: Vec<String>,
    loaders: Vec<L>,
}

impl<L: Loader> Registry<L> {
    /// The registered loaders, first asked first.
    pub closed spec fn loaders(&self) -> Seq<L> {
        self.loaders@
    }

    /// The identifiers they were registered under, in the same order.
    pub closed spec fn ids(&self) -> Seq<Seq<char>> {
        self.ids@.map_values(|s: String| s@)
    }

    /// One identifier per loader, no two alike.
    pub open spec fn wf(&self) -> bool {
        &&& self.ids().len() == self.loaders().len()
        &&& self.ids().no_duplicates()
    }

    pub fn new() -> (r: Self)
        ensures
            r.wf(),
            r.loaders().len() == 0,
    {
        let r = Registry { ids: Vec::new(), loaders: Vec::new() };
        assert(r.ids() =~= Seq::empty());
        r
    }

    /// Number of registered loaders.
    pub fn len(&self) -> (r: usize)
        ensures
            r == self.loaders().len(),
    {
        self.loaders.len()
    }

    /// The loader at position `i`, if there is one.
    pub fn get(&self, i: usize) -> (r: Option<&L>)
        ensures
            i < self.loaders().len() ==> r == Some(&self.loaders()[i as int]),
            i >= self.loaders().len() ==> r is None,
    {
        if i < self.loaders.len() {
            Some(&self.loaders[i])
        } else {
            None
        }
    }

    /// Appends `loader` under `id`, unless `id` is taken.
    pub fn register_as(&mut self, id: String, loader: L) -> (r: Result<(), RegistryError>)
        requires
            old(self).wf(),
        ensures
            final(self).wf(),
            old(self).ids().contains(id@) ==> *final(self) == *old(self) && (match r {
                Err(RegistryError::DuplicateId(d)) => d@ == id@,
                Ok(_) => false,
            }),
            !old(self).ids().contains(id@) ==> r is Ok && final(self).loaders() == old(
                self,
            ).loaders().push(loader) && final(self).ids() == old(self).ids().push(id@),
    {
        let ghost s = self.ids();
        let mut i: usize = 0;
        while i < self.ids.len()
            invariant
                *self == *old(self),
                old(self).wf(),
                s == self.ids(),
                s.len() == self.ids@.len(),
                i <= s.len(),
                forall|j: int| 0 <= j < i ==> s[j] != id@,
            decreases s.len() - i,
        {
            if self.ids[i] == id {
                assert(s[i as int] == id@);
                return Err(RegistryError::DuplicateId(id));
            }
            i = i + 1;
        }
        assert(!s.contains(id@));
        let ghost sv = id@;
        self.ids.push(id);
        self.loaders.push(loader);
        assert(self.ids() =~= s.push(sv));
        Ok(())
    }

    /// Appends `loader` under the identifier it reports, unless that is taken.
    pub fn register(&mut self, loader: L) -> (r: Result<(), RegistryError>)
        requires
            old(self).wf(),
        ensures
            final(self).wf(),
            r is Ok ==> final(self).loaders() == old(self).loaders().push(loader),
            r is Err ==> *final(self) == *old(self),
    {
        let id = loader.id();
        self.register_as(id, loader)
    }

    /// Asks every loader to forget `uri`.
    pub fn forget(&mut self, uri: &str)
        ensures
            final(self).ids() == old(self).ids(),
            final(self).loaders().len() == old(self).loaders().len(),
    {
        let n = self.loaders.len();
        let mut i: usize = 0;
        while i < n
            invariant
                n == self.loaders@.len(),
                self.ids() == old(self).ids(),
                self.loaders@.len() == old(self).loaders@.len(),
            decreases n - i,
        {
            self.loaders[i].forget(uri);
            i = i + 1;
        }
    }

    /// Asks every loader to forget everything.
    pub fn forget_all(&mut self)
        ensures
            final(self).ids() == old(self).ids(),
            final(self).loaders().len() == old(self).loaders().len(),
    {
        let n = self.loaders.len();
        let mut i: usize = 0;
        while i < n
            invariant
                n == self.loaders@.len(),
                self.ids() == old(self).ids(),
                self.loaders@.len() == old(self).loaders@.len(),
            decreases n - i,
        {
            self.loaders[i].forget_all();
            i = i + 1;
        }
    }

    /// Bytes held by all loaders together, saturated at `usize::MAX`.
    pub fn byte_size(&self) -> (r: usize)
        ensures
            self.loaders().len() == 0 ==> r == 0,
    {
        let mut sizes: Vec<usize> = Vec::new();
        let mut i: usize = 0;
        while i < self.loaders.len()
            invariant
                i <= self.loaders@.len(),
                sizes@.len() == i,
            decreases self.loaders@.len() - i,
        {
            sizes.push(self.loaders[i].byte_size());
            i = i + 1;
        }
        capped_sum(&sizes)
    }
}

impl<L: Loader> Loader for Registry<L> {
    fn id(&self) -> String {
        "registry".to_owned()
    }

    fn forget(&mut self, uri: &str) {
        Registry::forget(self, uri)
    }

    fn forget_all(&mut self) {
        Registry::forget_all(self)
    }

    fn byte_size(&self) -> usize {
        Registry::byte_size(self)
    }
}

impl<L: BytesLoader> Registry<L> {
    /// Asks the loaders in order and returns the first answer other than
    /// [`LoadError::NotSupported`]; that error when every loader gives it.
    /// The loaders after the one that answered are not asked.
    pub fn load_bytes(&mut self, uri: &str) -> (r: Result<BytesPoll, LoadError>)
        ensures
            final(self).ids() == old(self).ids(),
            final(self).loaders().len() == old(self).loaders().len(),
            old(self).loaders().len() == 0 ==> r matches Err(LoadError::NotSupported),
    {
        let n = self.loaders.len();
        let mut i: usize = 0;
        while i < n
            invariant
                n == self.loaders@.len(),
                self.ids() == old(self).ids(),
                self.loaders@.len() == old(self).loaders@.len(),
            decreases n - i,
        {
            let r = self.loaders[i].load(uri);
            if !falls_through(&r) {
                return r;
            }
            i = i + 1;
        }
        Err(LoadError::NotSupported)
    }
}

impl<L: BytesLoader> BytesLoader for Registry<L> {
    fn load(&mut self, uri: &str) -> Result<BytesPoll, LoadError> {
        Registry::load_bytes(self, uri)
    }
}

impl<L: ImageLoader> Registry<L> {
    /// Asks the loaders in order and returns the first answer other than
    /// [`LoadError::NotSupported`]; that error when every loader gives it.
    /// The loaders after the one that answered are not asked.
    pub fn load_image<B: BytesLoader>(&mut self, bytes: &mut B, uri: &str, size_hint: SizeHint) -> (r: Result<ImagePoll, LoadError>)
        ensures
            final(self).ids() == old(self).ids(),
            final(self).loaders().len() == old(self).loaders().len(),
            old(self).loaders().len() == 0 ==> r matches Err(LoadError::NotSupported),
    {
        let n = self.loaders.len();
        let mut i: usize = 0;
        while i < n
            invariant
                n == self.loaders@.len(),
                self.ids() == old(self).ids(),
                self.loaders@.len() == old(self).loaders@.len(),
            decreases n - i,
        {
            let r = self.loaders[i].load(bytes, uri, size_hint);
            if !falls_through(&r) {
                return r;
            }
            i = i + 1;
        }
        Err(LoadError::NotSupported)
    }
}

impl<L: ImageLoader> ImageLoader for Registry<L> {
    fn load<B: BytesLoader>(&mut self, bytes: &mut B, uri: &str, size_hint: SizeHint) -> Result<ImagePoll, LoadError> {
        Registry::load_image(self, bytes, uri, size_hint)
    }
}

impl<L: TextureLoader> Registry<L> {
    /// Asks the loaders in order and returns the first answer other than
    /// [`LoadError::NotSupported`]; that error when every loader gives it.
    /// The loaders after the one that answered are not asked.
    pub fn load_texture<I: ImageLoader, B: BytesLoader>(&mut self, textures: &mut TextureManager, images: &mut I, bytes: &mut B, uri: &str, options: TextureOptions, size_hint: SizeHint) -> (r: Result<TexturePoll, LoadError>)
        ensures
            final(self).ids() == old(self).ids(),
            final(self).loaders().len() == old(self).loaders().len(),
            old(self).loaders().len() == 0 ==> r matches Err(LoadError::NotSupported),
    {
        let n = self.loaders.len();
        let mut i: usize = 0;
        while i < n
            invariant
                n == self.loaders@.len(),
                self.ids() == old(self).ids(),
                self.loaders@.len() == old(self).loaders@.len(),
            decreases n - i,
        {
            let r = self.loaders[i].load(textures, images, bytes, uri, options, size_hint);
            if !falls_through(&r) {
                return r;
            }
            i = i + 1;
        }
        Err(LoadError::NotSupported)
    }
}

impl<L: TextureLoader> TextureLoader for Registry<L> {
    fn load<I: ImageLoader, B: BytesLoader>(&mut self, textures: &mut TextureManager, images: &mut I, bytes: &mut B, uri: &str, options: TextureOptions, size_hint: SizeHint) -> Result<TexturePoll, LoadError> {
        Registry::load_texture(self, textures, images, bytes, uri, options, size_hint)
    }
}

} // verus!
