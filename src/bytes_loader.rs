//! The bytes layer: URIs mapped to byte buffers registered ahead of time.
use vstd::prelude::*;
use crate::cache::{
    capped, drop_where, keys_unique, lemma_drop_where_step, lemma_drop_where_unique, lemma_lookup_at,
    lemma_lookup_drop_where, lemma_lookup_none, lemma_lookup_push, lemma_total_step, lookup, total,
};
use crate::text::{has_prefix, same_text, starts_with};
use crate::loader::{BytesLoader, Loader};
use crate::types::{copy_bytes, BytesPoll, LoadError};

verus! {

/// The scheme that marks a URI as one whose bytes are registered with
/// [`DefaultBytesLoader::insert`].
pub const BYTES_SCHEME: &'static str = "bytes://";

/// Size counted for a cached byte buffer.
pub open spec fn buffer_size(b: Seq<u8>) -> nat {
    b.len()
}

/// What loading `uri` from a cache with `entries` yields, as a view.
pub open spec fn bytes_outcome(
    entries: Seq<(Seq<char>, Seq<u8>)>,
    uri: Seq<char>,
    r: Result<BytesPoll, LoadError>,
) -> bool {
    match lookup(entries, uri) {
        Some(b) => match r {
            Ok(BytesPoll::Ready { size, bytes, mime }) => size is None && mime is None && bytes@ == b,
            _ => false,
        },
        None => if has_prefix(uri, BYTES_SCHEME@) {
            r matches Err(LoadError::NotYetAvailable)
        } else {
            r matches Err(LoadError::NotSupported)
        },
    }
}

struct BytesEntry {
    uri: String,
    bytes: Vec<u8>,
}

/// Maps URIs to bytes that were registered with [`DefaultBytesLoader::insert`].
///
/// By convention such URIs start with `bytes://`.
pub struct DefaultBytesLoader {
    cache: Vec<BytesEntry>,
}

impl DefaultBytesLoader {
    /// The cached entries: URI and bytes, in order of registration.
    pub closed spec fn entries(&self) -> Seq<(Seq<char>, Seq<u8>)> {
        self.cache@.map_values(|e: BytesEntry| (e.uri@, e.bytes@))
    }

    /// Each URI is cached at most once.
    pub open spec fn wf(&self) -> bool {
        keys_unique(self.entries())
    }

    /// Bytes held by the cache.
    pub open spec fn spec_byte_size(&self) -> nat {
        total(self.entries(), |b: Seq<u8>| buffer_size(b))
    }

    /// An empty loader.
    pub fn new() -> (r: Self)
        ensures
            r.wf(),
            r.entries().len() == 0,
    {
        let r = DefaultBytesLoader { cache: Vec::new() };
        assert(r.entries() =~= Seq::empty());
        r
    }

    /// The loader's stable identifier.
    pub fn id(&self) -> (r: String)
        ensures
            r@ == "egui::load::bytes_loader::DefaultBytesLoader"@,
    {
        "egui::load::bytes_loader::DefaultBytesLoader".to_owned()
    }

    /// Position of the entry for `uri`, if any.
    fn find(&self, uri: &str) -> (r: Option<usize>)
        ensures
            match r {
                Some(i) => i < self.entries().len() && self.entries()[i as int].0 == uri@
                    && lookup(self.entries(), uri@) == Some(self.entries()[i as int].1),
                None => lookup(self.entries(), uri@) is None,
            },
    {
        let ghost s = self.entries();
        let mut i: usize = 0;
        while i < self.cache.len()
            invariant
                s == self.entries(),
                s.len() == self.cache@.len(),
                i <= s.len(),
                lookup(s.take(i as int), uri@) is None,
            decreases s.len() - i,
        {
            if same_text(self.cache[i].uri.as_str(), uri) {
                proof {
                    lemma_lookup_at(s, i as int);
                }
                return Some(i);
            }
            proof {
                lemma_lookup_push(s.take(i as int), s[i as int], uri@);
                assert(s.take(i as int).push(s[i as int]) =~= s.take(i + 1));
            }
            i = i + 1;
        }
        assert(s.take(i as int) =~= s);
        None
    }

    /// Registers `bytes` under `uri`. A URI that is already registered keeps
    /// its first bytes.
    pub fn insert(&mut self, uri: &str, bytes: Vec<u8>)
        ensures
            old(self).wf() ==> final(self).wf(),
            lookup(old(self).entries(), uri@) is Some ==> final(self).entries() == old(self).entries(),
            lookup(old(self).entries(), uri@) is None ==> final(self).entries() == old(
                self,
            ).entries().push((uri@, bytes@)),
    {
        match self.find(uri) {
            Some(_) => {},
            None => {
                let ghost s = self.entries();
                self.cache.push(BytesEntry { uri: uri.to_owned(), bytes });
                proof {
                    assert(self.entries() =~= s.push((uri@, bytes@)));
                    lemma_lookup_none(s, uri@);
                }
            },
        }
    }

    /// Polls the bytes of `uri`: the registered bytes, or why there are none.
    pub fn load(&self, uri: &str) -> (r: Result<BytesPoll, LoadError>)
        ensures
            bytes_outcome(self.entries(), uri@, r),
    {
        match self.find(uri) {
            Some(i) => Ok(BytesPoll::Ready { size: None, bytes: copy_bytes(&self.cache[i].bytes), mime: None }),
            None => {
                if starts_with(uri, BYTES_SCHEME) {
                    Err(LoadError::NotYetAvailable)
                } else {
                    Err(LoadError::NotSupported)
                }
            },
        }
    }

    /// Removes the entry of `uri`.
    pub fn forget(&mut self, uri: &str)
        ensures
            old(self).wf() ==> final(self).wf(),
            final(self).entries() == drop_where(old(self).entries(), |k: Seq<char>| k == uri@),
            forall|k: Seq<char>| #[trigger] lookup(final(self).entries(), k) == if k == uri@ {
                None
            } else {
                lookup(old(self).entries(), k)
            },
    {
        let ghost s = self.entries();
        let ghost p = |k: Seq<char>| k == uri@;
        let mut rest: Vec<BytesEntry> = Vec::new();
        std::mem::swap(&mut rest, &mut self.cache);
        let ghost orig = rest@;
        assert(self.entries() =~= Seq::empty());
        let n = rest.len();
        let mut i: usize = 0;
        while i < n
            invariant
                n == orig.len(),
                p == (|k: Seq<char>| k == uri@),
                s == orig.map_values(|e: BytesEntry| (e.uri@, e.bytes@)),
                i <= n,
                rest@ == orig.skip(i as int),
                self.entries() == drop_where(s.take(i as int), p),
            decreases n - i,
        {
            let e = rest.remove(0);
            assert(e == orig[i as int]);
            assert(s[i as int] == (e.uri@, e.bytes@));
            proof {
                lemma_drop_where_step(s, p, i as int);
            }
            if !same_text(e.uri.as_str(), uri) {
                let ghost before = self.entries();
                self.cache.push(e);
                assert(self.entries() =~= before.push(s[i as int]));
            }
            i = i + 1;
            assert(rest@ =~= orig.skip(i as int));
        }
        assert(s.take(n as int) =~= s);
        proof {
            if keys_unique(s) {
                lemma_drop_where_unique(s, p);
            }
            assert forall|k: Seq<char>| #[trigger] lookup(self.entries(), k) == if k == uri@ {
                None
            } else {
                lookup(s, k)
            } by {
                lemma_lookup_drop_where(s, p, k);
            }
        }
    }

    /// Removes every entry.
    pub fn forget_all(&mut self)
        ensures
            final(self).wf(),
            final(self).entries().len() == 0,
            final(self).spec_byte_size() == 0,
    {
        self.cache.clear();
        assert(self.entries() =~= Seq::empty());
    }

    /// Bytes held by the cache, saturated at `usize::MAX`.
    pub fn byte_size(&self) -> (r: usize)
        ensures
            r == capped(self.spec_byte_size()),
    {
        let ghost s = self.entries();
        let ghost size = |b: Seq<u8>| buffer_size(b);
        let mut sum: usize = 0;
        let mut i: usize = 0;
        while i < self.cache.len()
            invariant
                s == self.entries(),
                s.len() == self.cache@.len(),
                size == (|b: Seq<u8>| buffer_size(b)),
                i <= s.len(),
                sum == capped(total(s.take(i as int), size)),
            decreases s.len() - i,
        {
            proof {
                lemma_total_step(s, size, i as int);
                assert(s[i as int].1 == self.cache@[i as int].bytes@);
            }
            sum = sum.saturating_add(self.cache[i].bytes.len());
            i = i + 1;
        }
        assert(s.take(i as int) =~= s);
        sum
    }
}

impl Loader for DefaultBytesLoader {
    fn id(&self) -> String {
        DefaultBytesLoader::id(self)
    }

    fn forget(&mut self, uri: &str) {
        DefaultBytesLoader::forget(self, uri)
    }

    fn forget_all(&mut self) {
        DefaultBytesLoader::forget_all(self)
    }

    fn byte_size(&self) -> usize {
        DefaultBytesLoader::byte_size(self)
    }
}

impl BytesLoader for DefaultBytesLoader {
    fn load(&mut self, uri: &str) -> Result<BytesPoll, LoadError> {
        DefaultBytesLoader::load(self, uri)
    }
}

} // verus!
