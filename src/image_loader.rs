//! The image layer: decoded images memoized per URI (and per size hint for
//! scalable formats), including decode failures.
use vstd::prelude::*;
use vstd::seq_lib::seq_to_set_is_finite;
use vstd::set::fold::{is_fun_commutative, lemma_fold_empty, lemma_fold_insert};
use vstd::utf8::encode_utf8;
use crate::cache::capped;
use crate::loader::{BytesLoader, ImageDecoder, ImageLoader, Loader};
use vstd::string::*;
use crate::text::{contains, extension_start, has_substring, same_text};
use crate::types::{BytesPoll, ColorImage, ImagePoll, ImageView, LoadError, SizeHint, BYTES_PER_PIXEL};

verus! {

/// A cache key: the URI, and the code of the size hint where the decode
/// depends on it (see [`hint_code`]).
pub type ImageKey = (Seq<char>, u8, u32, u32);

/// A cache key as the table stores it.
pub type TableKey = (String, u8, u32, u32);

/// The view of a stored key.
pub open spec fn key_view(k: TableKey) -> ImageKey {
    (k.0@, k.1, k.2, k.3)
}

/// A size hint as plain integers: a tag and up to two dimensions. No hint at
/// all is the tag 0.
pub open spec fn spec_hint_code(h: Option<SizeHint>) -> (u8, u32, u32) {
    match h {
        None => (0, 0, 0),
        Some(SizeHint::Width(w)) => (1, w, 0),
        Some(SizeHint::Height(v)) => (2, v, 0),
        Some(SizeHint::Size(w, v)) => (3, w, v),
    }
}

/// The code of a size hint.
pub fn hint_code(h: Option<SizeHint>) -> (r: (u8, u32, u32))
    ensures
        r == spec_hint_code(h),
{
    match h {
        None => (0, 0, 0),
        Some(SizeHint::Width(w)) => (1, w, 0),
        Some(SizeHint::Height(v)) => (2, v, 0),
        Some(SizeHint::Size(w, v)) => (3, w, v),
    }
}

/// Different size hints have different codes, so requests that differ only
/// in their size hint never share a cache entry.
pub proof fn distinct_hints_have_distinct_codes(a: Option<SizeHint>, b: Option<SizeHint>)
    requires
        a != b,
    ensures
        spec_hint_code(a) != spec_hint_code(b),
{
}

/// A memoized outcome: the image, or the decode error's message.
pub type ImageEntryView = Result<ImageView, Seq<char>>;

/// Bytes counted for a memoized outcome.
pub open spec fn entry_size(v: ImageEntryView) -> nat {
    match v {
        Ok(img) => img.2.len() * BYTES_PER_PIXEL as nat,
        Err(msg) => encode_utf8(msg).len(),
    }
}

/// The view of a stored outcome.
pub open spec fn outcome_view(e: Result<ColorImage, String>) -> ImageEntryView {
    match e {
        Ok(img) => Ok(img@),
        Err(m) => Err(m@),
    }
}

/// `ks` lists each key of `m` once, and `sizes` holds the size of each
/// entry in that order.
pub open spec fn lists_keys_with_sizes(ks: Seq<ImageKey>, sizes: Seq<usize>, m: Map<ImageKey, ImageEntryView>) -> bool {
    &&& ks.no_duplicates()
    &&& ks.to_set() == m.dom()
    &&& ks.len() == sizes.len()
    &&& forall|i: int| 0 <= i < ks.len() ==> sizes[i] == capped(entry_size(#[trigger] m[ks[i]]))
}

/// `sizes` holds the size of each entry of `m` once, in some order.
pub open spec fn lists_entry_sizes(sizes: Seq<usize>, m: Map<ImageKey, ImageEntryView>) -> bool {
    exists|ks: Seq<ImageKey>| lists_keys_with_sizes(ks, sizes, m)
}

/// A table without entries.
pub open spec fn empty_table() -> Map<ImageKey, ImageEntryView> {
    Map::empty()
}

/// Sum of [`entry_size`] over the entries of a table.
pub open spec fn table_total(m: Map<ImageKey, ImageEntryView>) -> nat {
    m.dom().fold(0nat, |acc: nat, k: ImageKey| acc + entry_size(m[k]))
}

/// `m` without the entries of `uri`.
pub open spec fn without_uri(m: Map<ImageKey, ImageEntryView>, uri: Seq<char>) -> Map<ImageKey, ImageEntryView> {
    m.restrict(m.dom().filter(|k: ImageKey| k.0 != uri))
}

/// `r` reports the memoized outcome `v`.
pub open spec fn reports(r: Result<ImagePoll, LoadError>, v: ImageEntryView) -> bool {
    match v {
        Ok(img) => match r {
            Ok(ImagePoll::Ready { image }) => image@ == img,
            _ => false,
        },
        Err(msg) => match r {
            Err(LoadError::Loading(m)) => m@ == msg,
            _ => false,
        },
    }
}

/// The outcome that a decoded `r` reports.
pub open spec fn decoded_entry(r: Result<ImagePoll, LoadError>) -> ImageEntryView {
    match r {
        Ok(ImagePoll::Ready { image }) => Ok(image@),
        Err(LoadError::Loading(m)) => Err(m@),
        _ => Err(Seq::empty()),
    }
}

/// `r` is a decode outcome: an image or a decode error.
pub open spec fn is_decoded(r: Result<ImagePoll, LoadError>) -> bool {
    r matches Ok(ImagePoll::Ready { .. }) || r matches Err(LoadError::Loading(_))
}

/// `r` passes on a bytes-layer outcome other than ready bytes.
pub open spec fn passes_on(polled: Result<BytesPoll, LoadError>, r: Result<ImagePoll, LoadError>) -> bool {
    match polled {
        Ok(BytesPoll::Pending { size }) => match r {
            Ok(ImagePoll::Pending { size: s }) => s == size,
            _ => false,
        },
        Err(e) => r == Err::<ImagePoll, LoadError>(e),
        Ok(BytesPoll::Ready { .. }) => false,
    }
}

/// A poll that finds the entry an earlier poll cached under the same key
/// reports the same outcome, image or decode error, as that earlier poll.
pub proof fn repeated_poll_reports_same_outcome(
    before: Map<ImageKey, ImageEntryView>,
    k: ImageKey,
    first: Result<ImagePoll, LoadError>,
    second: Result<ImagePoll, LoadError>,
)
    requires
        is_decoded(first),
        reports(second, before.insert(k, decoded_entry(first))[k]),
    ensures
        is_decoded(second),
        decoded_entry(second) == decoded_entry(first),
{
}

/// A MIME type that names a format the raster decoder must not be given.
pub open spec fn mime_rejected(mime: Option<String>) -> bool {
    match mime {
        Some(m) => has_substring(m@, "svg"@),
        None => false,
    }
}

/// Whether the raster loader takes content, given its declared MIME type and
/// whether the decoder knows the URI's extension and the content's header. A
/// declared MIME type decides alone, and only a vector type is refused;
/// without one the extension suffices; the header is the last resort.
pub open spec fn spec_supported_format(mime: Option<String>, extension_known: bool, header_known: bool) -> bool {
    match mime {
        Some(_) => !mime_rejected(mime),
        None => extension_known || header_known,
    }
}

/// The raster loader's format decision.
pub fn is_supported_format(mime: &Option<String>, extension_known: bool, header_known: bool) -> (r: bool)
    ensures
        r == spec_supported_format(*mime, extension_known, header_known),
{
    match mime {
        Some(m) => !is_unsupported_mime(m.as_str()),
        None => extension_known || header_known,
    }
}

/// Whether a declared MIME type names a vector format, which the raster
/// loader leaves to other loaders.
pub fn is_unsupported_mime(mime: &str) -> (r: bool)
    ensures
        r == has_substring(mime@, "svg"@),
{
    contains(mime, "svg")
}

/// Reports a stored outcome.
fn report_entry(e: &Result<ColorImage, String>) -> (r: Result<ImagePoll, LoadError>)
    ensures
        reports(r, outcome_view(*e)),
        is_decoded(r),
        decoded_entry(r) == outcome_view(*e),
{
    match e {
        Ok(image) => Ok(ImagePoll::Ready { image: image.duplicate() }),
        Err(msg) => Err(LoadError::Loading(msg.clone())),
    }
}

/// Bytes counted for a stored outcome, saturated at `usize::MAX`.
fn entry_byte_size(e: &Result<ColorImage, String>) -> (r: usize)
    ensures
        r == capped(entry_size(outcome_view(*e))),
{
    match e {
        Ok(image) => {
            let n = image.pixels.len();
            if n > usize::MAX / BYTES_PER_PIXEL {
                usize::MAX
            } else {
                n * BYTES_PER_PIXEL
            }
        },
        Err(msg) => msg.as_str().as_bytes().len(),
    }
}

/// Whether a stored key belongs to a URI other than `uri`.
fn is_other_uri(k: &TableKey, uri: &str) -> (r: bool)
    ensures
        r == (k.0@ != uri@),
{
    !same_text(k.0.as_str(), uri)
}

/// A hash table from cache key to memoized outcome.
#[verifier::external_body]
pub struct ImageTable {
    map: hashbrown::HashMap<TableKey, Result<ColorImage, String>>,
}

/// The entries of an image table, by key.
pub uninterp spec fn image_table_contents(t: ImageTable) -> Map<ImageKey, ImageEntryView>;

impl ImageTable {
    /// Relies on hashbrown::HashMap::new: the map starts empty.
    #[verifier::external_body]
    fn new() -> (r: Self)
        ensures
            image_table_contents(r) == empty_table(),
    {
        ImageTable { map: hashbrown::HashMap::new() }
    }

    /// Relies on hashbrown::HashMap::get: the value stored under an equal
    /// key, if any.
    #[verifier::external_body]
    fn get(&self, key: &TableKey) -> (r: Option<Result<ImagePoll, LoadError>>)
        ensures
            match r {
                Some(p) => image_table_contents(*self).contains_key(key_view(*key)) && reports(
                    p,
                    image_table_contents(*self)[key_view(*key)],
                ) && decoded_entry(p) == image_table_contents(*self)[key_view(*key)],
                None => !image_table_contents(*self).contains_key(key_view(*key)),
            },
    {
        self.map.get(key).map(|e| report_entry(e))
    }

    /// Relies on hashbrown::HashMap::insert: afterwards the key maps to the
    /// new value and every other key is unchanged.
    #[verifier::external_body]
    fn insert(&mut self, key: TableKey, value: Result<ColorImage, String>)
        ensures
            image_table_contents(*final(self)) == image_table_contents(*old(self)).insert(
                key_view(key),
                outcome_view(value),
            ),
    {
        self.map.insert(key, value);
    }

    /// Relies on hashbrown::HashMap::retain: exactly the entries for which
    /// the predicate holds stay.
    #[verifier::external_body]
    fn retain_other_uris(&mut self, uri: &str)
        ensures
            image_table_contents(*final(self)) == without_uri(image_table_contents(*old(self)), uri@),
    {
        self.map.retain(|k, _| is_other_uri(k, uri));
    }

    /// Relies on hashbrown::HashMap::clear: no entry is left.
    #[verifier::external_body]
    fn clear(&mut self)
        ensures
            image_table_contents(*final(self)) == empty_table(),
    {
        self.map.clear();
    }

    /// Relies on hashbrown::HashMap::values: each entry is visited once, in
    /// an order that is not specified.
    #[verifier::external_body]
    fn entry_sizes(&self) -> (r: Vec<usize>)
        ensures
            lists_entry_sizes(r@, image_table_contents(*self)),
    {
        self.map.values().map(|e| entry_byte_size(e)).collect()
    }

    /// Bytes held by the table's outcomes, saturated at `usize::MAX`.
    fn byte_size(&self) -> (r: usize)
        ensures
            r == capped(table_total(image_table_contents(*self))),
    {
        let sizes = self.entry_sizes();
        let ghost m = image_table_contents(*self);
        let ghost ks = choose|ks: Seq<ImageKey>| lists_keys_with_sizes(ks, sizes@, m);
        let ghost f = |acc: nat, k: ImageKey| acc + entry_size(m[k]);
        proof {
            assert(is_fun_commutative(f));
            lemma_fold_empty(0nat, f);
            assert(ks.take(0).to_set() =~= Set::empty());
        }
        let mut sum: usize = 0;
        let mut i: usize = 0;
        while i < sizes.len()
            invariant
                m == image_table_contents(*self),
                f == (|acc: nat, k: ImageKey| acc + entry_size(m[k])),
                is_fun_commutative(f),
                ks.no_duplicates(),
                ks.to_set() == m.dom(),
                ks.len() == sizes@.len(),
                forall|j: int| 0 <= j < ks.len() ==> sizes@[j] == capped(entry_size(#[trigger] m[ks[j]])),
                i <= sizes@.len(),
                sum == capped(ks.take(i as int).to_set().fold(0nat, f)),
            decreases sizes@.len() - i,
        {
            proof {
                let s = ks.take(i as int).to_set();
                seq_to_set_is_finite(ks.take(i as int));
                assert(!s.contains(ks[i as int])) by {
                    if s.contains(ks[i as int]) {
                        let j = choose|j: int| 0 <= j < i && ks.take(i as int)[j] == ks[i as int];
                        assert(ks[j] == ks[i as int]);
                    }
                }
                lemma_fold_insert(s, 0nat, f, ks[i as int]);
                assert(ks.take(i + 1) =~= ks.take(i as int).push(ks[i as int]));
                ks.take(i as int).lemma_push_to_set_commute(ks[i as int]);
            }
            sum = sum.saturating_add(sizes[i]);
            i = i + 1;
        }
        assert(ks.take(i as int) =~= ks);
        sum
    }

    /// Stores `result` under `key` and reports it.
    fn record(&mut self, key: TableKey, result: Result<ColorImage, String>) -> (r: Result<ImagePoll, LoadError>)
        ensures
            is_decoded(r),
            reports(r, outcome_view(result)),
            decoded_entry(r) == outcome_view(result),
            image_table_contents(*final(self)) == image_table_contents(*old(self)).insert(
                key_view(key),
                decoded_entry(r),
            ),
    {
        let reported = report_entry(&result);
        self.insert(key, result);
        reported
    }
}

/// Loads raster images. The cache key is the URI alone: the decode does not
/// depend on the size hint. A declared MIME type that names a vector format
/// is refused; otherwise the content is accepted when the decoder recognizes
/// its header, or, without a declared MIME type, the URI's extension.
pub struct ImageCrateLoader<D> {
    table: ImageTable,
    decoder: D,
}

impl<D: ImageDecoder> ImageCrateLoader<D> {
    /// The memoized outcomes, by key.
    pub closed spec fn entries(&self) -> Map<ImageKey, ImageEntryView> {
        image_table_contents(self.table)
    }

    /// The decoder that this loader hands recognized bytes to.
    pub closed spec fn spec_decoder(&self) -> D {
        self.decoder
    }

    /// Bytes held by the memoized outcomes.
    pub open spec fn spec_byte_size(&self) -> nat {
        table_total(self.entries())
    }

    /// The cache key of `uri` under `size_hint`.
    pub open spec fn key(uri: Seq<char>, size_hint: SizeHint) -> ImageKey {
        let c = spec_hint_code(None);
        (uri, c.0, c.1, c.2)
    }

    /// A loader with an empty cache around `decoder`.
    pub fn new(decoder: D) -> (r: Self)
        ensures
            r.entries() == empty_table(),
            r.spec_decoder() == decoder,
    {
        ImageCrateLoader { table: ImageTable::new(), decoder }
    }

    /// The loader's stable identifier.
    pub fn id(&self) -> (r: String)
        ensures
            r@ == "egui_extras::loaders::image_loader::ImageCrateLoader"@,
    {
        "egui_extras::loaders::image_loader::ImageCrateLoader".to_owned()
    }

    /// The decoder, for inspection.
    pub fn decoder(&self) -> (r: &D)
        ensures
            *r == self.spec_decoder(),
    {
        &self.decoder
    }

    /// Whether the content is in a format the decoder handles, as
    /// [`is_supported_format`] decides from the decoder's answers.
    fn recognizes(&self, uri: &str, mime: &Option<String>, bytes: &Vec<u8>) -> (r: bool)
        ensures
            mime is Some ==> r == !mime_rejected(*mime),
    {
        if mime.is_some() {
            return is_supported_format(mime, false, false);
        }
        let extension_known = match extension_start(uri) {
            Some(j) => self.decoder.recognizes_extension(uri.substring_char(j, uri.unicode_len())),
            None => false,
        };
        let header_known = self.decoder.recognizes(bytes);
        is_supported_format(mime, extension_known, header_known)
    }

    fn table_key(uri: &str, size_hint: SizeHint) -> (r: TableKey)
        ensures
            key_view(r) == Self::key(uri@, size_hint),
    {
        let c = hint_code(None);
        (uri.to_owned(), c.0, c.1, c.2)
    }

    /// Caches the decode outcome `result` of `uri` under `size_hint` and
    /// reports it.
    pub fn store_decoded(&mut self, uri: &str, size_hint: SizeHint, result: Result<ColorImage, String>) -> (r: Result<
        ImagePoll,
        LoadError,
    >)
        ensures
            reports(r, outcome_view(result)),
            final(self).spec_decoder() == old(self).spec_decoder(),
            final(self).entries() == old(self).entries().insert(Self::key(uri@, size_hint), outcome_view(result)),
    {
        let key = Self::table_key(uri, size_hint);
        self.table.record(key, result)
    }

    /// Finishes a poll of `uri` whose bytes are ready, given whether their
    /// format is supported. A cached outcome is reported as it is; bytes in a
    /// supported format are decoded once and the outcome is cached; any
    /// other bytes are refused with nothing cached.
    pub fn load_ready_bytes(&mut self, uri: &str, size_hint: SizeHint, bytes: &Vec<u8>, supported: bool) -> (r: Result<
        ImagePoll,
        LoadError,
    >)
        ensures
            old(self).entries().contains_key(Self::key(uri@, size_hint)) ==> *final(self) == *old(self)
                && reports(r, old(self).entries()[Self::key(uri@, size_hint)]),
            !old(self).entries().contains_key(Self::key(uri@, size_hint)) && !supported ==> *final(self)
                == *old(self) && r matches Err(LoadError::NotSupported),
            !old(self).entries().contains_key(Self::key(uri@, size_hint)) && supported ==> is_decoded(r)
                && final(self).entries() == old(self).entries().insert(Self::key(uri@, size_hint), decoded_entry(r)),
    {
        let key = Self::table_key(uri, size_hint);
        match self.table.get(&key) {
            Some(cached) => cached,
            None => {
                if !supported {
                    return Err(LoadError::NotSupported);
                }
                let result = self.decoder.decode(bytes, None);
                let r = self.store_decoded(uri, size_hint, result);
                proof {
                    assert(decoded_entry(r) == outcome_view(result));
                }
                r
            },
        }
    }

    /// Finishes a poll of `uri` given what the bytes layer answered. A cached
    /// outcome is reported as it is; otherwise ready bytes that this loader
    /// handles are decoded once and the outcome, image or error, is cached.
    /// A declared MIME type decides alone whether the bytes are handled.
    pub fn load_from_bytes(&mut self, uri: &str, size_hint: SizeHint, polled: Result<BytesPoll, LoadError>) -> (r: Result<
        ImagePoll,
        LoadError,
    >)
        ensures
            old(self).entries().contains_key(Self::key(uri@, size_hint)) ==> *final(self) == *old(self)
                && reports(r, old(self).entries()[Self::key(uri@, size_hint)]),
            !old(self).entries().contains_key(Self::key(uri@, size_hint)) ==> match polled {
                Ok(BytesPoll::Ready { mime, .. }) => match mime {
                    Some(_) => if mime_rejected(mime) {
                        *final(self) == *old(self) && r matches Err(LoadError::NotSupported)
                    } else {
                        is_decoded(r) && final(self).entries() == old(self).entries().insert(
                            Self::key(uri@, size_hint),
                            decoded_entry(r),
                        )
                    },
                    None => (*final(self) == *old(self) && r matches Err(LoadError::NotSupported)) || (
                    is_decoded(r) && final(self).entries() == old(self).entries().insert(
                        Self::key(uri@, size_hint),
                        decoded_entry(r),
                    )),
                },
                _ => *final(self) == *old(self) && passes_on(polled, r),
            },
    {
        let key = Self::table_key(uri, size_hint);
        match self.table.get(&key) {
            Some(cached) => cached,
            None => match polled {
                Ok(BytesPoll::Ready { bytes, mime, .. }) => {
                    let supported = self.recognizes(uri, &mime, &bytes);
                    self.load_ready_bytes(uri, size_hint, &bytes, supported)
                },
                Ok(BytesPoll::Pending { size }) => Ok(ImagePoll::Pending { size }),
                Err(e) => Err(e),
            },
        }
    }

    /// Polls the image of `uri`. A cached outcome is reported without
    /// touching the bytes loader or the decoder; otherwise `bytes` is polled
    /// and its answer handled as [`Self::load_from_bytes`] does.
    pub fn load<B: BytesLoader>(&mut self, bytes: &mut B, uri: &str, size_hint: SizeHint) -> (r: Result<ImagePoll, LoadError>)
        ensures
            old(self).entries().contains_key(Self::key(uri@, size_hint)) ==> *final(self) == *old(self)
                && *final(bytes) == *old(bytes) && reports(r, old(self).entries()[Self::key(uri@, size_hint)]),
            !old(self).entries().contains_key(Self::key(uri@, size_hint)) ==> *final(self) == *old(self) || (
            is_decoded(r) && final(self).entries() == old(self).entries().insert(
                Self::key(uri@, size_hint),
                decoded_entry(r),
            )),
            !old(self).entries().contains_key(Self::key(uri@, size_hint)) && *final(self) == *old(self)
                ==> !(r matches Ok(ImagePoll::Ready { .. })),
    {
        let key = Self::table_key(uri, size_hint);
        match self.table.get(&key) {
            Some(cached) => cached,
            None => {
                let polled = bytes.load(uri);
                self.load_from_bytes(uri, size_hint, polled)
            },
        }
    }

    /// Drops every memoized outcome of `uri`, whatever its size hint.
    pub fn forget(&mut self, uri: &str)
        ensures
            final(self).spec_decoder() == old(self).spec_decoder(),
            final(self).entries() == without_uri(old(self).entries(), uri@),
    {
        self.table.retain_other_uris(uri)
    }

    /// Drops every memoized outcome.
    pub fn forget_all(&mut self)
        ensures
            final(self).spec_decoder() == old(self).spec_decoder(),
            final(self).entries() == empty_table(),
            final(self).spec_byte_size() == 0,
    {
        self.table.clear();
        proof {
            lemma_fold_empty(0nat, |acc: nat, k: ImageKey| acc + entry_size(self.entries()[k]));
            assert(self.entries().dom() =~= Set::empty());
        }
    }

    /// Bytes held by the memoized outcomes, saturated at `usize::MAX`.
    pub fn byte_size(&self) -> (r: usize)
        ensures
            r == capped(self.spec_byte_size()),
    {
        self.table.byte_size()
    }
}

impl<D: ImageDecoder> Loader for ImageCrateLoader<D> {
    fn id(&self) -> String {
        ImageCrateLoader::id(self)
    }

    fn forget(&mut self, uri: &str) {
        ImageCrateLoader::forget(self, uri)
    }

    fn forget_all(&mut self) {
        ImageCrateLoader::forget_all(self)
    }

    fn byte_size(&self) -> usize {
        ImageCrateLoader::byte_size(self)
    }
}

impl<D: ImageDecoder> ImageLoader for ImageCrateLoader<D> {
    fn load<B: BytesLoader>(&mut self, bytes: &mut B, uri: &str, size_hint: SizeHint) -> Result<ImagePoll, LoadError> {
        ImageCrateLoader::load(self, bytes, uri, size_hint)
    }
}

/// Loads vector images. The decode depends on the size hint, so the cache key
/// is the URI together with the hint.
pub struct SvgLoader<D> {
    table: ImageTable,
    decoder: D,
}

impl<D: ImageDecoder> SvgLoader<D> {
    /// The memoized outcomes, by key.
    pub closed spec fn entries(&self) -> Map<ImageKey, ImageEntryView> {
        image_table_contents(self.table)
    }

    /// The decoder that this loader hands recognized bytes to.
    pub closed spec fn spec_decoder(&self) -> D {
        self.decoder
    }

    /// Bytes held by the memoized outcomes.
    pub open spec fn spec_byte_size(&self) -> nat {
        table_total(self.entries())
    }

    /// The cache key of `uri` under `size_hint`.
    pub open spec fn key(uri: Seq<char>, size_hint: SizeHint) -> ImageKey {
        let c = spec_hint_code(Some(size_hint));
        (uri, c.0, c.1, c.2)
    }

    /// A loader with an empty cache around `decoder`.
    pub fn new(decoder: D) -> (r: Self)
        ensures
            r.entries() == empty_table(),
            r.spec_decoder() == decoder,
    {
        SvgLoader { table: ImageTable::new(), decoder }
    }

    /// The loader's stable identifier.
    pub fn id(&self) -> (r: String)
        ensures
            r@ == "egui_extras::loaders::svg_loader::SvgLoader"@,
    {
        "egui_extras::loaders::svg_loader::SvgLoader".to_owned()
    }

    /// The decoder, for inspection.
    pub fn decoder(&self) -> (r: &D)
        ensures
            *r == self.spec_decoder(),
    {
        &self.decoder
    }

    fn table_key(uri: &str, size_hint: SizeHint) -> (r: TableKey)
        ensures
            key_view(r) == Self::key(uri@, size_hint),
    {
        let c = hint_code(Some(size_hint));
        (uri.to_owned(), c.0, c.1, c.2)
    }

    /// Caches the decode outcome `result` of `uri` under `size_hint` and
    /// reports it.
    pub fn store_decoded(&mut self, uri: &str, size_hint: SizeHint, result: Result<ColorImage, String>) -> (r: Result<
        ImagePoll,
        LoadError,
    >)
        ensures
            reports(r, outcome_view(result)),
            final(self).spec_decoder() == old(self).spec_decoder(),
            final(self).entries() == old(self).entries().insert(Self::key(uri@, size_hint), outcome_view(result)),
    {
        let key = Self::table_key(uri, size_hint);
        self.table.record(key, result)
    }

    /// Finishes a poll of `uri` given what the bytes layer answered. A cached
    /// outcome is reported as it is; otherwise ready bytes that this loader
    /// handles are decoded once and the outcome, image or error, is cached.
    pub fn load_from_bytes(&mut self, uri: &str, size_hint: SizeHint, polled: Result<BytesPoll, LoadError>) -> (r: Result<
        ImagePoll,
        LoadError,
    >)
        ensures
            old(self).entries().contains_key(Self::key(uri@, size_hint)) ==> *final(self) == *old(self)
                && reports(r, old(self).entries()[Self::key(uri@, size_hint)]),
            !old(self).entries().contains_key(Self::key(uri@, size_hint)) ==> match polled {
                Ok(BytesPoll::Ready { mime, .. }) => is_decoded(r) && final(self).entries() == old(self).entries().insert(
                    Self::key(uri@, size_hint),
                    decoded_entry(r),
                ),
                _ => *final(self) == *old(self) && passes_on(polled, r),
            },
    {
        let key = Self::table_key(uri, size_hint);
        match self.table.get(&key) {
            Some(cached) => cached,
            None => match polled {
                Ok(BytesPoll::Ready { bytes, mime, .. }) => {
                    let result = self.decoder.decode(&bytes, Some(size_hint));
                    self.store_decoded(uri, size_hint, result)
                },
                Ok(BytesPoll::Pending { size }) => Ok(ImagePoll::Pending { size }),
                Err(e) => Err(e),
            },
        }
    }

    /// Polls the image of `uri`. A cached outcome is reported without
    /// touching the bytes loader or the decoder; otherwise `bytes` is polled
    /// and its answer handled as [`Self::load_from_bytes`] does.
    pub fn load<B: BytesLoader>(&mut self, bytes: &mut B, uri: &str, size_hint: SizeHint) -> (r: Result<ImagePoll, LoadError>)
        ensures
            old(self).entries().contains_key(Self::key(uri@, size_hint)) ==> *final(self) == *old(self)
                && *final(bytes) == *old(bytes) && reports(r, old(self).entries()[Self::key(uri@, size_hint)]),
            !old(self).entries().contains_key(Self::key(uri@, size_hint)) ==> *final(self) == *old(self) || (
            is_decoded(r) && final(self).entries() == old(self).entries().insert(
                Self::key(uri@, size_hint),
                decoded_entry(r),
            )),
            !old(self).entries().contains_key(Self::key(uri@, size_hint)) && *final(self) == *old(self)
                ==> !(r matches Ok(ImagePoll::Ready { .. })),
    {
        let key = Self::table_key(uri, size_hint);
        match self.table.get(&key) {
            Some(cached) => cached,
            None => {
                let polled = bytes.load(uri);
                self.load_from_bytes(uri, size_hint, polled)
            },
        }
    }

    /// Drops every memoized outcome of `uri`, whatever its size hint.
    pub fn forget(&mut self, uri: &str)
        ensures
            final(self).spec_decoder() == old(self).spec_decoder(),
            final(self).entries() == without_uri(old(self).entries(), uri@),
    {
        self.table.retain_other_uris(uri)
    }

    /// Drops every memoized outcome.
    pub fn forget_all(&mut self)
        ensures
            final(self).spec_decoder() == old(self).spec_decoder(),
            final(self).entries() == empty_table(),
            final(self).spec_byte_size() == 0,
    {
        self.table.clear();
        proof {
            lemma_fold_empty(0nat, |acc: nat, k: ImageKey| acc + entry_size(self.entries()[k]));
            assert(self.entries().dom() =~= Set::empty());
        }
    }

    /// Bytes held by the memoized outcomes, saturated at `usize::MAX`.
    pub fn byte_size(&self) -> (r: usize)
        ensures
            r == capped(self.spec_byte_size()),
    {
        self.table.byte_size()
    }
}

impl<D: ImageDecoder> Loader for SvgLoader<D> {
    fn id(&self) -> String {
        SvgLoader::id(self)
    }

    fn forget(&mut self, uri: &str) {
        SvgLoader::forget(self, uri)
    }

    fn forget_all(&mut self) {
        SvgLoader::forget_all(self)
    }

    fn byte_size(&self) -> usize {
        SvgLoader::byte_size(self)
    }
}

impl<D: ImageDecoder> ImageLoader for SvgLoader<D> {
    fn load<B: BytesLoader>(&mut self, bytes: &mut B, uri: &str, size_hint: SizeHint) -> Result<ImagePoll, LoadError> {
        SvgLoader::load(self, bytes, uri, size_hint)
    }
}

} // verus!
