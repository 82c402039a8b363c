//! The cache in front of stored content, and what the library can tell
//! about content from its bytes.

use vstd::prelude::*;
use crate::bytes::copy_bytes;
use crate::dictionary::Dictionary;
use crate::ipfs::client::ContentType;
use crate::ipfs::storage::{count_up, one_more};
use crate::json::JsonValue;
use crate::text::{contains_text, has_prefix, starts_with, texts};

verus! {

/// Retrieval manager for caching content. `cache_ttl` is in
/// milliseconds.
pub struct RetrievalManager {
    cache: Dictionary<CachedContent>,
    cache_ttl: i64,
}

/// Cached content with metadata. `cached_at` is in milliseconds since
/// the Unix epoch.
#[derive(Debug, Clone)]
pub struct CachedContent {
    pub data: Vec<u8>,
    pub content_type: ContentType,
    pub cached_at: i64,
    pub access_count: u64,
}

/// Retrieval options. `timeout` is in milliseconds.
#[derive(Debug, Clone)]
pub struct RetrievalOptions {
    pub use_cache: bool,
    pub timeout: Option<u64>,
    pub verify_integrity: bool,
}

/// Batch retrieval operation.
#[derive(Debug, Clone)]
pub struct BatchRetrieval {
    pub hashes: Vec<String>,
    pub options: RetrievalOptions,
}

/// Result of a batch retrieval. `failed` holds the error's message for
/// each hash that failed.
#[derive(Debug, Clone)]
pub struct BatchRetrievalResult {
    pub successful: Dictionary<JsonValue>,
    pub failed: Dictionary<String>,
    pub cache_hits: usize,
    pub cache_misses: usize,
}

/// What is wrong with content.
#[derive(Debug, Clone)]
pub enum ContentFault {
    /// It has no bytes.
    Empty,
    /// It is of another kind than expected.
    TypeMismatch { expected: ContentType, detected: ContentType },
    /// It does not have the structure of its kind; the parser's message.
    InvalidStructure(String),
}

/// Content verification result.
#[derive(Debug, Clone)]
pub struct VerificationResult {
    pub hash: String,
    pub is_valid: bool,
    pub content_type: Option<ContentType>,
    pub size: u64,
    pub errors: Vec<ContentFault>,
}

/// Cache statistics.
#[derive(Debug, Clone)]
pub struct CacheStatistics {
    pub total_items: usize,
    pub total_size: usize,
    pub total_access_count: u64,
    pub average_access_count: u64,
}

/// What the library reads of a JSON object: its keys, and the text under
/// the key `id` where that is text.
#[derive(Debug, Clone)]
pub struct JsonOutline {
    pub keys: Vec<String>,
    pub id: Option<String>,
}

/// The keys of the JSON object that `content` parses to, in the parser's
/// order, with the text under `id` if there is text; nothing where
/// `content` is no JSON or no object.
pub uninterp spec fn parsed_outline(content: Seq<u8>) -> Option<(Seq<Seq<char>>, Option<Seq<char>>)>;

impl JsonOutline {
    /// The outline as plain values.
    pub open spec fn view(&self) -> (Seq<Seq<char>>, Option<Seq<char>>) {
        (
            texts(self.keys@),
            match self.id {
                Some(id) => Some(id@),
                None => None,
            },
        )
    }
}

/// `serde_json::from_slice` to a `Value`, read as far as the library
/// needs it.
#[verifier::external_body]
fn json_outline(content: &[u8]) -> (outline: Option<JsonOutline>)
    ensures
        outline.is_some() == parsed_outline(content@).is_some(),
        outline matches Some(o) ==> parsed_outline(content@) == Some(o@),
{
    let value: serde_json::Value = serde_json::from_slice(content).ok()?;
    let object = value.as_object()?;
    let id = match object.get("id") {
        Some(serde_json::Value::String(text)) => Some(text.clone()),
        _ => None,
    };
    Some(JsonOutline { keys: object.keys().cloned().collect(), id })
}

/// The kind of content that a JSON object with these keys is.
pub open spec fn kind_of(keys: Seq<Seq<char>>, id: Option<Seq<char>>) -> ContentType {
    if keys.contains("@context"@) && keys.contains("id"@) && (id matches Some(text) && has_prefix(
        text,
        "did:"@,
    )) {
        ContentType::DidDocument
    } else if keys.contains("@context"@) && keys.contains("credentialSubject"@) {
        ContentType::VerifiableCredential
    } else if keys.contains("@context"@) && keys.contains("verifiableCredential"@) {
        ContentType::VerifiablePresentation
    } else {
        ContentType::Metadata
    }
}

/// The kind of content that `content` is, if it is a JSON object.
pub open spec fn detected_kind(content: Seq<u8>) -> Option<ContentType> {
    match parsed_outline(content) {
        Some((keys, id)) => Some(kind_of(keys, id)),
        None => None,
    }
}

proof fn lemma_texts_contains(list: Seq<String>, needle: Seq<char>)
    ensures
        texts(list).contains(needle) <==> exists|i: int|
            0 <= i < list.len() && (#[trigger] list[i])@ == needle,
{
    if texts(list).contains(needle) {
        let i = choose|i: int| 0 <= i < texts(list).len() && texts(list)[i] == needle;
        assert(list[i]@ == needle);
    }
    if exists|i: int| 0 <= i < list.len() && (#[trigger] list[i])@ == needle {
        let i = choose|i: int| 0 <= i < list.len() && (#[trigger] list[i])@ == needle;
        assert(texts(list)[i] == needle);
    }
}

/// The kind of content that a JSON object of this outline is.
pub fn classify_outline(outline: &JsonOutline) -> (kind: ContentType)
    ensures
        kind == kind_of(outline@.0, outline@.1),
{
    proof {
        lemma_texts_contains(outline.keys@, "@context"@);
        lemma_texts_contains(outline.keys@, "id"@);
        lemma_texts_contains(outline.keys@, "credentialSubject"@);
        lemma_texts_contains(outline.keys@, "verifiableCredential"@);
    }
    let has_context = contains_text(&outline.keys, "@context");
    if has_context && contains_text(&outline.keys, "id") {
        if let Some(id) = &outline.id {
            if starts_with(id.as_str(), "did:") {
                return ContentType::DidDocument;
            }
        }
    }
    if has_context && contains_text(&outline.keys, "credentialSubject") {
        return ContentType::VerifiableCredential;
    }
    if has_context && contains_text(&outline.keys, "verifiableCredential") {
        return ContentType::VerifiablePresentation;
    }
    ContentType::Metadata
}

/// A list of faults is what checking content comes to: that it is empty,
/// that its kind is not the expected one, that its structure is broken, in
/// this order and each only if it holds.
pub open spec fn are_faults(
    faults: Seq<ContentFault>,
    size: usize,
    expected: Option<ContentType>,
    detected: Option<ContentType>,
    structure_error: Option<String>,
) -> bool {
    let empty = size == 0;
    let mismatch = expected is Some && detected is Some && !expected->0.same(detected->0);
    let broken = detected is Some && structure_error is Some;
    let first = if empty {
        1int
    } else {
        0int
    };
    let second = first + if mismatch {
        1int
    } else {
        0int
    };
    &&& faults.len() == second + if broken {
        1int
    } else {
        0int
    }
    &&& empty ==> faults[0] is Empty
    &&& mismatch ==> (faults[first] matches ContentFault::TypeMismatch { expected: e, detected: d }
        && e == expected->0 && d.same(detected->0))
    &&& broken ==> faults[second] == ContentFault::InvalidStructure(structure_error->0)
}

/// What checking fetched content comes to. `structure_error` is the
/// message with which parsing the content as its detected kind failed, if
/// it failed.
pub fn assess_content(
    hash: &str,
    size: usize,
    expected_type: Option<ContentType>,
    detected_type: Option<ContentType>,
    structure_error: Option<String>,
) -> (result: VerificationResult)
    ensures
        result.hash@ == hash@,
        result.size == size,
        result.content_type == detected_type,
        are_faults(result.errors@, size, expected_type, detected_type, structure_error),
        result.is_valid == (result.errors@.len() == 0),
{
    let mut errors: Vec<ContentFault> = Vec::new();
    if size == 0 {
        errors.push(ContentFault::Empty);
    }
    let mut mismatch = false;
    if let Some(expected) = &expected_type {
        if let Some(detected) = &detected_type {
            mismatch = !expected.is_same(detected);
        }
    }
    if mismatch {
        if let Some(expected) = expected_type {
            if let Some(detected) = &detected_type {
                errors.push(ContentFault::TypeMismatch { expected, detected: detected.clone_kind() });
            }
        }
    }
    let is_object = detected_type.is_some();
    if let Some(message) = structure_error {
        if is_object {
            errors.push(ContentFault::InvalidStructure(message));
        }
    }
    let is_valid = errors.len() == 0;
    VerificationResult {
        hash: hash.to_owned(),
        is_valid,
        content_type: detected_type,
        size: size as u64,
        errors,
    }
}

/// The sum of two counts, or the largest count if the sum is beyond it.
pub open spec fn capped_count(a: u64, b: u64) -> u64 {
    if a + b > u64::MAX {
        u64::MAX
    } else {
        (a + b) as u64
    }
}

/// The sum of two sizes, or the largest size if the sum is beyond it.
pub open spec fn capped_size(a: usize, b: usize) -> usize {
    if a + b > usize::MAX {
        usize::MAX
    } else {
        (a + b) as usize
    }
}

/// The sizes of the first `n` cached items, summed up to the largest
/// size.
pub open spec fn cached_size(items: Seq<CachedContent>, n: nat) -> usize
    decreases n,
{
    if n == 0 {
        0
    } else {
        capped_size(cached_size(items, (n - 1) as nat), items[n - 1].data@.len() as usize)
    }
}

/// The access counts of the first `n` cached items, summed up to the
/// largest count.
pub open spec fn cached_accesses(items: Seq<CachedContent>, n: nat) -> u64
    decreases n,
{
    if n == 0 {
        0
    } else {
        capped_count(cached_accesses(items, (n - 1) as nat), items[n - 1].access_count)
    }
}

impl RetrievalManager {
    /// The cached content by hash.
    pub closed spec fn cached(&self) -> Map<Seq<char>, CachedContent> {
        self.cache@
    }

    /// The cached content in the order of the cache.
    pub closed spec fn listing(&self) -> Seq<CachedContent> {
        self.cache.values()
    }

    /// The position of the content under `hash` in the listing.
    pub closed spec fn rank(&self, hash: Seq<char>) -> int {
        self.cache.position(hash)
    }

    /// How long cached content stays fresh, in milliseconds.
    pub closed spec fn ttl(&self) -> i64 {
        self.cache_ttl
    }

    /// Cached content is fresh at `now`: it was cached less than the time
    /// to live ago.
    pub open spec fn fresh(&self, content: CachedContent, now: i64) -> bool {
        now - content.cached_at < self.ttl()
    }

    /// Create a new retrieval manager with an empty cache and a time to
    /// live of one hour.
    pub fn new() -> (manager: Self)
        ensures
            manager.cached() == Map::<Seq<char>, CachedContent>::empty(),
            manager.listing().len() == 0,
            manager.ttl() == 3_600_000,
    {
        Self { cache: Dictionary::new(), cache_ttl: 3_600_000 }
    }

    /// Set cache TTL, in milliseconds.
    pub fn set_cache_ttl(&mut self, ttl: i64)
        ensures
            final(self).ttl() == ttl,
            final(self).cached() == old(self).cached(),
            final(self).listing() == old(self).listing(),
    {
        self.cache_ttl = ttl;
    }

    /// `r` and the manager are what looking `hash` up in the cache of the
    /// manager `before` at `now` comes to: nothing, where the cache does
    /// not hold it; nothing, and the content gone from the cache, where it
    /// is stale; a copy of the content, and the content counted as
    /// accessed once more, where it is fresh.
    pub open spec fn looked_up(
        &self,
        before: Self,
        hash: Seq<char>,
        now: i64,
        r: Option<CachedContent>,
    ) -> bool {
        let held = before.cached()[hash];
        let counted = CachedContent { access_count: capped_count(held.access_count, 1), ..held };
        &&& self.ttl() == before.ttl()
        &&& if !before.cached().contains_key(hash) {
            &&& r is None
            &&& self.cached() == before.cached()
            &&& self.listing() == before.listing()
        } else if !before.fresh(held, now) {
            &&& r is None
            &&& self.cached() == before.cached().remove(hash)
            &&& self.listing() == before.listing().remove(before.rank(hash))
        } else {
            &&& self.cached() == before.cached().insert(hash, counted)
            &&& self.listing() == before.listing().update(before.rank(hash), counted)
            &&& r matches Some(content) && content.data@ == held.data@ && content.content_type.same(
                held.content_type,
            ) && content.cached_at == held.cached_at && content.access_count == counted.access_count
        }
    }

    /// Get content from cache if available and not expired at `now`.
    /// Fresh content is handed out and counted as accessed once more;
    /// stale content leaves the cache.
    pub fn get_from_cache(&mut self, hash: &str, now: i64) -> (r: Option<CachedContent>)
        ensures
            final(self).looked_up(*old(self), hash@, now, r),
    {
        let fresh = match self.cache.get(hash) {
            Some(cached) => (now as i128) - (cached.cached_at as i128) < (self.cache_ttl as i128),
            None => {
                return None;
            },
        };
        let position = self.cache.position_of(hash).unwrap();
        let mut cached = self.cache.remove(hash).unwrap();
        if !fresh {
            return None;
        }
        if cached.access_count < u64::MAX {
            cached.access_count += 1;
        }
        let copy = CachedContent {
            data: copy_bytes(cached.data.as_slice()),
            content_type: cached.content_type.clone_kind(),
            cached_at: cached.cached_at,
            access_count: cached.access_count,
        };
        let ghost changed = cached;
        let ghost without = self.cache;
        assert(without.place(position) == position);
        self.cache.insert_at(position, hash.to_owned(), cached);
        proof {
            assert(self.cached() =~= old(self).cached().insert(hash@, changed));
            assert(self.listing() =~= old(self).listing().update(position as int, changed));
        }
        Some(copy)
    }

    /// Puts content that was fetched at `now` into the cache, under its
    /// detected kind or as `unknown`, accessed once.
    pub fn cache_content(&mut self, hash: &str, content: &[u8], detected: Option<ContentType>, now: i64)
        ensures
            final(self).ttl() == old(self).ttl(),
            final(self).cached() == old(self).cached().insert(hash@, final(self).cached()[hash@]),
            final(self).listing() == (if old(self).cached().contains_key(hash@) {
                old(self).listing().update(old(self).rank(hash@), final(self).cached()[hash@])
            } else {
                old(self).listing().push(final(self).cached()[hash@])
            }),
            final(self).cached().contains_key(hash@),
            final(self).cached()[hash@].data@ == content@,
            final(self).cached()[hash@].cached_at == now,
            final(self).cached()[hash@].access_count == 1,
            match detected {
                Some(kind) => final(self).cached()[hash@].content_type == kind,
                None => final(self).cached()[hash@].content_type matches ContentType::Custom(name)
                    && name@ == "unknown"@,
            },
    {
        let content_type = match detected {
            Some(kind) => kind,
            None => ContentType::Custom("unknown".to_owned()),
        };
        self.cache.insert(
            hash.to_owned(),
            CachedContent { data: copy_bytes(content), content_type, cached_at: now, access_count: 1 },
        );
        proof {
            assert(self.cached() =~= old(self).cached().insert(hash@, self.cached()[hash@]));
        }
    }

    /// Detect content type from content: a JSON object is a DID document,
    /// a credential, a presentation or plain metadata by its keys;
    /// anything else is of no kind.
    pub fn detect_content_type(&self, content: &[u8]) -> (kind: Option<ContentType>)
        ensures
            kind == detected_kind(content@),
    {
        match json_outline(content) {
            Some(outline) => Some(classify_outline(&outline)),
            None => None,
        }
    }

    /// Clear cache.
    pub fn clear_cache(&mut self)
        ensures
            final(self).cached() == Map::<Seq<char>, CachedContent>::empty(),
            final(self).listing().len() == 0,
            final(self).ttl() == old(self).ttl(),
    {
        self.cache = Dictionary::new();
    }

    /// Get cache statistics: the number of items, the sums of their sizes
    /// and access counts, and the access count of the average item.
    pub fn get_cache_stats(&self) -> (statistics: CacheStatistics)
        ensures
            statistics.total_items == self.listing().len(),
            statistics.total_size == cached_size(self.listing(), self.listing().len()),
            statistics.total_access_count == cached_accesses(self.listing(), self.listing().len()),
            statistics.average_access_count == (if statistics.total_items > 0 {
                statistics.total_access_count as int / statistics.total_items as int
            } else {
                0
            }),
    {
        let n = self.cache.len();
        let mut total_size: usize = 0;
        let mut total_access_count: u64 = 0;
        let mut i: usize = 0;
        while i < n
            invariant
                i <= n,
                n == self.cache.values().len(),
                total_size == cached_size(self.cache.values(), i as nat),
                total_access_count == cached_accesses(self.cache.values(), i as nat),
            decreases n - i,
        {
            let cached = self.cache.value_at(i);
            let size = cached.data.len();
            total_size = if size > usize::MAX - total_size {
                usize::MAX
            } else {
                total_size + size
            };
            total_access_count = if cached.access_count > u64::MAX - total_access_count {
                u64::MAX
            } else {
                total_access_count + cached.access_count
            };
            i += 1;
        }
        CacheStatistics {
            total_items: n,
            total_size,
            total_access_count,
            average_access_count: if n > 0 {
                total_access_count / (n as u64)
            } else {
                0
            },
        }
    }
}

impl BatchRetrievalResult {
    /// The result of a batch of which nothing has run yet: no hash has
    /// succeeded or failed, and nothing has been counted.
    pub fn new() -> (result: Self)
        ensures
            result.successful@ == Map::<Seq<char>, JsonValue>::empty(),
            result.successful.keys() == Seq::<Seq<char>>::empty(),
            result.successful.values() == Seq::<JsonValue>::empty(),
            result.failed@ == Map::<Seq<char>, String>::empty(),
            result.failed.keys() == Seq::<Seq<char>>::empty(),
            result.failed.values() == Seq::<String>::empty(),
            result.cache_hits == 0,
            result.cache_misses == 0,
    {
        BatchRetrievalResult {
            successful: Dictionary::new(),
            failed: Dictionary::new(),
            cache_hits: 0,
            cache_misses: 0,
        }
    }

    /// `self` is `before` with the outcome for `hash` on record.
    pub open spec fn recorded(&self, before: Self, hash: Seq<char>, outcome: Result<JsonValue, String>) -> bool {
        match outcome {
            Ok(value) => self.successful@ == before.successful@.insert(hash, value) && self.failed@
                == before.failed@,
            Err(message) => self.failed@ == before.failed@.insert(hash, message) && self.successful@
                == before.successful@,
        }
    }

    /// Content for `hash` came from the cache and parsed, or failed to.
    pub fn record_cache_hit(&mut self, hash: String, outcome: Result<JsonValue, String>)
        ensures
            final(self).recorded(*old(self), hash@, outcome),
            final(self).cache_hits == one_more(old(self).cache_hits),
            final(self).cache_misses == old(self).cache_misses,
    {
        self.cache_hits = count_up(self.cache_hits);
        match outcome {
            Ok(value) => {
                self.successful.insert(hash, value);
            },
            Err(message) => {
                self.failed.insert(hash, message);
            },
        }
    }

    /// Content for `hash` was not in the cache; fetching and parsing it
    /// succeeded or failed.
    pub fn record_cache_miss(&mut self, hash: String, outcome: Result<JsonValue, String>)
        ensures
            final(self).recorded(*old(self), hash@, outcome),
            final(self).cache_misses == one_more(old(self).cache_misses),
            final(self).cache_hits == old(self).cache_hits,
    {
        self.cache_misses = count_up(self.cache_misses);
        match outcome {
            Ok(value) => {
                self.successful.insert(hash, value);
            },
            Err(message) => {
                self.failed.insert(hash, message);
            },
        }
    }
}

impl Default for RetrievalOptions {
    /// Cached, with a timeout of thirty seconds, without verification.
    fn default() -> (options: Self)
        ensures
            options.use_cache,
            options.timeout == Some(30_000u64),
            !options.verify_integrity,
    {
        Self { use_cache: true, timeout: Some(30_000), verify_integrity: false }
    }
}

impl BatchRetrieval {
    /// Create a new batch retrieval with the default options.
    pub fn new(hashes: Vec<String>) -> (batch: Self)
        ensures
            batch.hashes == hashes,
            batch.options.use_cache,
            batch.options.timeout == Some(30_000u64),
            !batch.options.verify_integrity,
    {
        Self { hashes, options: RetrievalOptions::default() }
    }

    /// Set retrieval options.
    pub fn with_options(self, options: RetrievalOptions) -> (batch: Self)
        ensures
            batch == (BatchRetrieval { options, ..self }),
    {
        let mut batch = self;
        batch.options = options;
        batch
    }

    /// Disable caching for this batch.
    pub fn without_cache(self) -> (batch: Self)
        ensures
            batch == (BatchRetrieval {
                options: RetrievalOptions { use_cache: false, ..self.options },
                ..self
            }),
    {
        let mut batch = self;
        batch.options.use_cache = false;
        batch
    }

    /// Enable integrity verification.
    pub fn with_verification(self) -> (batch: Self)
        ensures
            batch == (BatchRetrieval {
                options: RetrievalOptions { verify_integrity: true, ..self.options },
                ..self
            }),
    {
        let mut batch = self;
        batch.options.verify_integrity = true;
        batch
    }
}

} // verus!
