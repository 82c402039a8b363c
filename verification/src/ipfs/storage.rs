//! The index over stored content: what is stored under which hash, and
//! which hashes carry which tag.

use vstd::prelude::*;
use crate::dictionary::Dictionary;
use crate::identity::did::DidDocument;
use crate::identity::vc::{VerifiableCredential, VerifiablePresentation};
use crate::ipfs::client::{ContentMetadata, ContentType, StorageResult};
use crate::json::JsonValue;
use crate::text::{contains_text, str_eq, texts};

verus! {

/// Storage manager for organizing and tracking stored content.
pub struct StorageManager {
    content_index: Dictionary<ContentMetadata>,
    tags_index: Dictionary<Vec<String>>,
}

/// Batch storage operation.
#[derive(Debug, Clone)]
pub struct BatchOperation {
    pub operations: Vec<StorageOperation>,
}

/// Individual storage operation.
#[derive(Debug, Clone)]
pub enum StorageOperation {
    StoreDid { did_doc: DidDocument, tags: Vec<String> },
    StoreCredential { credential: VerifiableCredential, tags: Vec<String> },
    StorePresentation { presentation: VerifiablePresentation, tags: Vec<String> },
    StoreJson { data: JsonValue, content_type: ContentType, tags: Vec<String> },
}

/// Result of a batch operation. `failed` holds the position of each
/// operation that failed and the error's message.
#[derive(Debug, Clone)]
pub struct BatchResult {
    pub successful: Vec<StorageResult>,
    pub failed: Vec<(usize, String)>,
    pub total_size: u64,
    pub total_operations: usize,
}

/// Search criteria for finding stored content. Times are in
/// milliseconds since the Unix epoch.
#[derive(Debug, Clone)]
pub struct SearchCriteria {
    pub content_type: Option<ContentType>,
    pub tags: Vec<String>,
    pub created_after: Option<i64>,
    pub created_before: Option<i64>,
    pub min_size: Option<u64>,
    pub max_size: Option<u64>,
}

/// Storage statistics. `type_counts` holds each kind of content that is
/// stored once, with the number of items of that kind.
#[derive(Debug, Clone)]
pub struct StorageStatistics {
    pub total_items: usize,
    pub total_size: u64,
    pub type_counts: Vec<(ContentType, usize)>,
    pub total_tags: usize,
}

/// The sum of two sizes, or the largest size if the sum is beyond it.
pub open spec fn capped_sum(a: u64, b: u64) -> u64 {
    if a + b > u64::MAX {
        u64::MAX
    } else {
        (a + b) as u64
    }
}

/// A count and one more, unless the count is at its end.
pub open spec fn one_more(count: usize) -> usize {
    if count < usize::MAX {
        (count + 1) as usize
    } else {
        count
    }
}

/// A count and one more, unless the count is at its end.
pub fn count_up(count: usize) -> (next: usize)
    ensures
        next == one_more(count),
{
    if count < usize::MAX {
        count + 1
    } else {
        count
    }
}

/// The metadata meets the criteria: the kind, if one is asked for; every
/// tag that is asked for; a time of creation strictly inside the range; a
/// size inside the range.
pub open spec fn meets(metadata: ContentMetadata, criteria: SearchCriteria) -> bool {
    &&& criteria.content_type matches Some(kind) ==> metadata.content_type.same(kind)
    &&& forall|i: int|
        0 <= i < criteria.tags@.len() ==> texts(metadata.tags@).contains(
            (#[trigger] criteria.tags@[i])@,
        )
    &&& criteria.created_after matches Some(after) ==> metadata.created_at > after
    &&& criteria.created_before matches Some(before) ==> metadata.created_at < before
    &&& criteria.min_size matches Some(least) ==> metadata.size >= least
    &&& criteria.max_size matches Some(most) ==> metadata.size <= most
}

/// Those among the first `n` items that meet the criteria, in order.
pub open spec fn matching(
    items: Seq<ContentMetadata>,
    criteria: SearchCriteria,
    n: nat,
) -> Seq<ContentMetadata>
    decreases n,
{
    if n == 0 {
        Seq::empty()
    } else {
        let earlier = matching(items, criteria, (n - 1) as nat);
        if meets(items[n - 1], criteria) {
            earlier.push(items[n - 1])
        } else {
            earlier
        }
    }
}

/// The items behind a list of references.
pub open spec fn referenced(held: Seq<&ContentMetadata>) -> Seq<ContentMetadata> {
    Seq::new(held.len(), |i: int| *held[i])
}

/// Whether one of the items carries the hash.
pub open spec fn lists_hash(items: Seq<ContentMetadata>, hash: Seq<char>) -> bool {
    exists|i: int| 0 <= i < items.len() && (#[trigger] items[i]).hash@ == hash
}

/// `found` and, for each of the first `n` hashes in turn, the content
/// stored under it, unless content of that hash is there already.
pub open spec fn gathered(
    content: Map<Seq<char>, ContentMetadata>,
    found: Seq<ContentMetadata>,
    hashes: Seq<Seq<char>>,
    n: nat,
) -> Seq<ContentMetadata>
    decreases n,
{
    if n == 0 {
        found
    } else {
        let earlier = gathered(content, found, hashes, (n - 1) as nat);
        let hash = hashes[n - 1];
        if content.contains_key(hash) && !lists_hash(earlier, content[hash].hash@) {
            earlier.push(content[hash])
        } else {
            earlier
        }
    }
}

/// How often `tag` stands among the first `n` tags.
pub open spec fn occurrences(tags: Seq<String>, tag: Seq<char>, n: nat) -> nat
    decreases n,
{
    if n == 0 {
        0
    } else {
        occurrences(tags, tag, (n - 1) as nat) + if tags[n - 1]@ == tag {
            1nat
        } else {
            0nat
        }
    }
}

/// `tags` and, at the end, each of the first `n` added tags that it does
/// not hold yet, in order.
pub open spec fn tags_with(tags: Seq<Seq<char>>, added: Seq<String>, n: nat) -> Seq<Seq<char>>
    decreases n,
{
    if n == 0 {
        tags
    } else {
        let earlier = tags_with(tags, added, (n - 1) as nat);
        if earlier.contains(added[n - 1]@) {
            earlier
        } else {
            earlier.push(added[n - 1]@)
        }
    }
}

/// `hash`, `count` times.
pub open spec fn repeated(hash: Seq<char>, count: nat) -> Seq<Seq<char>> {
    Seq::new(count, |i: int| hash)
}

/// The sizes of the first `n` items, summed up to the largest size.
pub open spec fn total_size(items: Seq<ContentMetadata>, n: nat) -> u64
    decreases n,
{
    if n == 0 {
        0
    } else {
        capped_sum(total_size(items, (n - 1) as nat), items[n - 1].size)
    }
}

/// How many of the first `n` items are of the kind `kind`.
pub open spec fn items_of_kind(items: Seq<ContentMetadata>, kind: ContentType, n: nat) -> nat
    decreases n,
{
    if n == 0 {
        0
    } else {
        items_of_kind(items, kind, (n - 1) as nat) + if items[n - 1].content_type.same(kind) {
            1nat
        } else {
            0nat
        }
    }
}

/// The count that a list of counts holds for `kind`: that of the first
/// entry of the kind among the first `n`, or zero.
pub open spec fn count_for(counts: Seq<(ContentType, usize)>, kind: ContentType, n: nat) -> nat
    decreases n,
{
    if n == 0 {
        0
    } else if count_for(counts, kind, (n - 1) as nat) > 0 {
        count_for(counts, kind, (n - 1) as nat)
    } else if counts[n - 1].0.same(kind) {
        counts[n - 1].1 as nat
    } else {
        0
    }
}

/// No two entries of a list of counts are of the same kind, and no count
/// is zero.
pub open spec fn distinct_kinds(counts: Seq<(ContentType, usize)>) -> bool {
    &&& forall|i: int, j: int|
        0 <= i < j < counts.len() ==> !(#[trigger] counts[i]).0.same((#[trigger] counts[j]).0)
    &&& forall|i: int| 0 <= i < counts.len() ==> (#[trigger] counts[i]).1 > 0
}

proof fn lemma_same_kind(a: ContentType, b: ContentType, c: ContentType)
    ensures
        a.same(a),
        a.same(b) == b.same(a),
        a.same(b) && b.same(c) ==> a.same(c),
{
}

proof fn lemma_count_for_unique(counts: Seq<(ContentType, usize)>, kind: ContentType, n: nat, i: int)
    requires
        distinct_kinds(counts),
        n <= counts.len(),
        0 <= i < n,
        counts[i].0.same(kind),
    ensures
        count_for(counts, kind, n) == counts[i].1,
    decreases n,
{
    if n - 1 == i {
        lemma_count_for_absent(counts, kind, (n - 1) as nat);
    } else {
        lemma_count_for_unique(counts, kind, (n - 1) as nat, i);
        lemma_same_kind(counts[i].0, kind, counts[n - 1].0);
        lemma_same_kind(counts[n - 1].0, kind, counts[i].0);
    }
}

proof fn lemma_count_for_absent(counts: Seq<(ContentType, usize)>, kind: ContentType, n: nat)
    requires
        n <= counts.len(),
        forall|j: int| 0 <= j < n ==> !(#[trigger] counts[j]).0.same(kind),
    ensures
        count_for(counts, kind, n) == 0,
    decreases n,
{
    if n > 0 {
        lemma_count_for_absent(counts, kind, (n - 1) as nat);
    }
}

proof fn lemma_count_for_same(
    before: Seq<(ContentType, usize)>,
    after: Seq<(ContentType, usize)>,
    kind: ContentType,
    n: nat,
)
    requires
        n <= before.len(),
        n <= after.len(),
        forall|j: int| 0 <= j < n ==> (#[trigger] before[j]).0 == after[j].0,
        forall|j: int| 0 <= j < n ==> !(#[trigger] before[j]).0.same(kind) || before[j] == after[j],
    ensures
        count_for(after, kind, n) == count_for(before, kind, n),
    decreases n,
{
    if n > 0 {
        lemma_count_for_same(before, after, kind, (n - 1) as nat);
        assert(before[n - 1].0 == after[n - 1].0);
    }
}

impl StorageManager {
    /// The stored content by hash.
    pub closed spec fn content(&self) -> Map<Seq<char>, ContentMetadata> {
        self.content_index@
    }

    /// The stored content in the order of the index.
    pub closed spec fn listing(&self) -> Seq<ContentMetadata> {
        self.content_index.values()
    }

    /// The tags of the index, in the order in which they came.
    pub closed spec fn tags(&self) -> Seq<Seq<char>> {
        self.tags_index.keys()
    }

    /// The position of the content under `hash` in the listing.
    pub closed spec fn rank(&self, hash: Seq<char>) -> int {
        self.content_index.position(hash)
    }

    /// The hashes that carry `tag`, in the order in which they came.
    pub closed spec fn hashes_tagged(&self, tag: Seq<char>) -> Seq<Seq<char>> {
        if self.tags_index@.contains_key(tag) {
            texts(self.tags_index@[tag]@)
        } else {
            Seq::empty()
        }
    }

    /// The content found for the first `n` of the tags: tag by tag, hash
    /// by hash, each piece of content once.
    pub open spec fn found_by(&self, tags: Seq<String>, n: nat) -> Seq<ContentMetadata>
        decreases n,
    {
        if n == 0 {
            Seq::empty()
        } else {
            let hashes = self.hashes_tagged(tags[n - 1]@);
            gathered(self.content(), self.found_by(tags, (n - 1) as nat), hashes, hashes.len())
        }
    }

    /// Create a new storage manager with empty indexes.
    pub fn new() -> (manager: Self)
        ensures
            manager.content() == Map::<Seq<char>, ContentMetadata>::empty(),
            manager.listing().len() == 0,
            manager.tags().len() == 0,
            forall|tag: Seq<char>| manager.hashes_tagged(tag).len() == 0,
    {
        Self { content_index: Dictionary::new(), tags_index: Dictionary::new() }
    }

    /// Update internal indexes with the result of an upload: the content
    /// goes under its hash, and the hash under each of the content's tags,
    /// once for each time the tag stands there.
    pub fn update_indexes(&mut self, result: StorageResult)
        ensures
            final(self).content() == old(self).content().insert(result.hash@, result.metadata),
            final(self).listing() == (if old(self).content().contains_key(result.hash@) {
                old(self).listing().update(old(self).rank(result.hash@), result.metadata)
            } else {
                old(self).listing().push(result.metadata)
            }),
            final(self).tags() == tags_with(
                old(self).tags(),
                result.metadata.tags@,
                result.metadata.tags@.len(),
            ),
            forall|tag: Seq<char>| #[trigger]
                final(self).hashes_tagged(tag) == old(self).hashes_tagged(tag) + repeated(
                    result.hash@,
                    occurrences(result.metadata.tags@, tag, result.metadata.tags@.len()),
                ),
    {
        let StorageResult { hash, metadata } = result;
        let mut i: usize = 0;
        while i < metadata.tags.len()
            invariant
                i <= metadata.tags.len(),
                self.content_index == old(self).content_index,
                self.tags() == tags_with(old(self).tags(), metadata.tags@, i as nat),
                forall|tag: Seq<char>| #[trigger]
                    self.hashes_tagged(tag) == old(self).hashes_tagged(tag) + repeated(
                        hash@,
                        occurrences(metadata.tags@, tag, i as nat),
                    ),
            decreases metadata.tags.len() - i,
        {
            let tag = &metadata.tags[i];
            let ghost before = *self;
            let position = match self.tags_index.position_of(tag.as_str()) {
                Some(position) => position,
                None => self.tags_index.len(),
            };
            let mut hashes = match self.tags_index.remove(tag.as_str()) {
                Some(hashes) => hashes,
                None => Vec::new(),
            };
            let ghost listed = texts(hashes@);
            hashes.push(hash.clone());
            assert(texts(hashes@) =~= listed.push(hash@));
            let ghost without = self.tags_index;
            assert(without.place(position) == position);
            self.tags_index.insert_at(position, tag.clone(), hashes);
            proof {
                if before.tags().contains(tag@) {
                    assert(self.tags() =~= before.tags());
                } else {
                    assert(self.tags() =~= before.tags().push(tag@));
                }
                assert forall|t: Seq<char>| #[trigger]
                    self.hashes_tagged(t) == old(self).hashes_tagged(t) + repeated(
                        hash@,
                        occurrences(metadata.tags@, t, (i + 1) as nat),
                    ) by {
                    let k = occurrences(metadata.tags@, t, i as nat);
                    assert(before.hashes_tagged(t) == old(self).hashes_tagged(t) + repeated(hash@, k));
                    if t == tag@ {
                        assert(listed == before.hashes_tagged(t));
                        assert(repeated(hash@, k + 1) =~= repeated(hash@, k).push(hash@));
                        assert(self.hashes_tagged(t) =~= old(self).hashes_tagged(t) + repeated(
                            hash@,
                            k + 1,
                        ));
                    } else {
                        assert(self.tags_index@.contains_key(t) == before.tags_index@.contains_key(t));
                    }
                }
            }
            i += 1;
        }
        let ghost indexed = *self;
        self.content_index.insert(hash, metadata);
        assert forall|tag: Seq<char>| #[trigger]
            self.hashes_tagged(tag) == indexed.hashes_tagged(tag) by {}
    }

    /// Check if metadata matches search criteria.
    pub fn matches_criteria(&self, metadata: &ContentMetadata, criteria: &SearchCriteria) -> (r: bool)
        ensures
            r == meets(*metadata, *criteria),
    {
        if let Some(content_type) = &criteria.content_type {
            if !metadata.content_type.is_same(content_type) {
                return false;
            }
        }
        let mut i: usize = 0;
        while i < criteria.tags.len()
            invariant
                i <= criteria.tags.len(),
                forall|j: int|
                    0 <= j < i ==> texts(metadata.tags@).contains((#[trigger] criteria.tags@[j])@),
            decreases criteria.tags.len() - i,
        {
            if !contains_text(&metadata.tags, criteria.tags[i].as_str()) {
                proof {
                    if texts(metadata.tags@).contains(criteria.tags@[i as int]@) {
                        let k = choose|k: int|
                            0 <= k < texts(metadata.tags@).len() && texts(metadata.tags@)[k]
                                == criteria.tags@[i as int]@;
                        assert(metadata.tags[k]@ == criteria.tags@[i as int]@);
                    }
                }
                return false;
            }
            proof {
                let k = choose|k: int|
                    0 <= k < metadata.tags.len() && (#[trigger] metadata.tags[k])@
                        == criteria.tags@[i as int]@;
                assert(texts(metadata.tags@)[k] == criteria.tags@[i as int]@);
            }
            i += 1;
        }
        if let Some(after) = criteria.created_after {
            if metadata.created_at <= after {
                return false;
            }
        }
        if let Some(before) = criteria.created_before {
            if metadata.created_at >= before {
                return false;
            }
        }
        if let Some(min_size) = criteria.min_size {
            if metadata.size < min_size {
                return false;
            }
        }
        if let Some(max_size) = criteria.max_size {
            if metadata.size > max_size {
                return false;
            }
        }
        true
    }

    /// Search for content based on criteria, in the order of the index.
    pub fn search(&self, criteria: SearchCriteria) -> (found: Vec<&ContentMetadata>)
        ensures
            referenced(found@) == matching(self.listing(), criteria, self.listing().len()),
    {
        let mut found: Vec<&ContentMetadata> = Vec::new();
        let n = self.content_index.len();
        let mut i: usize = 0;
        while i < n
            invariant
                i <= n,
                n == self.content_index.values().len(),
                referenced(found@) == matching(self.content_index.values(), criteria, i as nat),
            decreases n - i,
        {
            let metadata = self.content_index.value_at(i);
            let ghost before = referenced(found@);
            if self.matches_criteria(metadata, &criteria) {
                found.push(metadata);
                assert(referenced(found@) =~= before.push(*metadata));
            }
            i += 1;
        }
        found
    }

    /// Find content by tags: what any of the tags marks, each piece of
    /// content once, in the order in which the tags and their hashes
    /// name it.
    pub fn find_by_tags(&self, tags: &[String]) -> (results: Vec<&ContentMetadata>)
        ensures
            referenced(results@) == self.found_by(tags@, tags@.len()),
    {
        let mut results: Vec<&ContentMetadata> = Vec::new();
        assert(referenced(results@) =~= self.found_by(tags@, 0));
        let mut t: usize = 0;
        while t < tags.len()
            invariant
                t <= tags.len(),
                referenced(results@) == self.found_by(tags@, t as nat),
            decreases tags.len() - t,
        {
            let ghost tagged = self.hashes_tagged(tags@[t as int]@);
            let ghost start = referenced(results@);
            if let Some(hashes) = self.tags_index.get(tags[t].as_str()) {
                let mut h: usize = 0;
                while h < hashes.len()
                    invariant
                        h <= hashes.len(),
                        texts(hashes@) == tagged,
                        referenced(results@) == gathered(self.content(), start, tagged, h as nat),
                    decreases hashes.len() - h,
                {
                    if let Some(metadata) = self.content_index.get(hashes[h].as_str()) {
                        let mut known = false;
                        let mut k: usize = 0;
                        while k < results.len()
                            invariant
                                k <= results.len(),
                                known == exists|j: int|
                                    0 <= j < k && (#[trigger] referenced(results@)[j]).hash@
                                        == metadata.hash@,
                            decreases results.len() - k,
                        {
                            if str_eq(results[k].hash.as_str(), metadata.hash.as_str()) {
                                assert(referenced(results@)[k as int].hash@ == metadata.hash@);
                                known = true;
                            }
                            k += 1;
                        }
                        let ghost before = referenced(results@);
                        if !known {
                            results.push(metadata);
                            assert(referenced(results@) =~= before.push(*metadata));
                        }
                    }
                    assert(tagged[h as int] == hashes[h as int]@);
                    h += 1;
                }
            }
            t += 1;
        }
        results
    }

    /// Get content metadata by hash.
    pub fn get_metadata(&self, hash: &str) -> (r: Option<&ContentMetadata>)
        ensures
            r.is_some() == self.content().contains_key(hash@),
            r matches Some(metadata) ==> *metadata == self.content()[hash@],
    {
        self.content_index.get(hash)
    }

    /// List all stored content, in the order of the index.
    pub fn list_all(&self) -> (all: Vec<&ContentMetadata>)
        ensures
            referenced(all@) == self.listing(),
    {
        let mut all: Vec<&ContentMetadata> = Vec::new();
        let n = self.content_index.len();
        let mut i: usize = 0;
        while i < n
            invariant
                i <= n,
                n == self.content_index.values().len(),
                referenced(all@) == self.content_index.values().take(i as int),
            decreases n - i,
        {
            let metadata = self.content_index.value_at(i);
            let ghost before = referenced(all@);
            all.push(metadata);
            assert(referenced(all@) =~= before.push(*metadata));
            assert(before.push(*metadata) =~= self.content_index.values().take(i + 1));
            i += 1;
        }
        assert(self.content_index.values().take(n as int) =~= self.content_index.values());
        all
    }

    /// Get storage statistics: the number of items and of tags, the sum
    /// of the sizes, and the number of items of each kind.
    pub fn get_statistics(&self) -> (statistics: StorageStatistics)
        ensures
            statistics.total_items == self.listing().len(),
            statistics.total_size == total_size(self.listing(), self.listing().len()),
            statistics.total_tags == self.tags().len(),
            self.tags().no_duplicates(),
            distinct_kinds(statistics.type_counts@),
            forall|kind: ContentType| #[trigger]
                count_for(statistics.type_counts@, kind, statistics.type_counts@.len())
                    == items_of_kind(self.listing(), kind, self.listing().len()),
    {
        let n = self.content_index.len();
        let ghost items = self.content_index.values();
        let mut size_sum: u64 = 0;
        let mut type_counts: Vec<(ContentType, usize)> = Vec::new();
        let mut i: usize = 0;
        while i < n
            invariant
                i <= n,
                n == items.len(),
                items == self.content_index.values(),
                size_sum == total_size(items, i as nat),
                distinct_kinds(type_counts@),
                forall|kind: ContentType| #[trigger]
                    count_for(type_counts@, kind, type_counts@.len()) == items_of_kind(
                        items,
                        kind,
                        i as nat,
                    ),
                forall|kind: ContentType| #[trigger] items_of_kind(items, kind, i as nat) <= i,
            decreases n - i,
        {
            let metadata = self.content_index.value_at(i);
            size_sum = if metadata.size > u64::MAX - size_sum {
                u64::MAX
            } else {
                size_sum + metadata.size
            };
            let ghost kind = metadata.content_type;
            let ghost before = type_counts@;
            let mut position: Option<usize> = None;
            let mut k: usize = 0;
            while k < type_counts.len()
                invariant
                    k <= type_counts.len(),
                    type_counts@ == before,
                    kind == metadata.content_type,
                    position matches Some(p) ==> p < k && before[p as int].0.same(kind),
                    position is None ==> forall|j: int| 0 <= j < k ==> !(#[trigger] before[j]).0.same(kind),
                decreases type_counts.len() - k,
            {
                if position.is_none() && type_counts[k].0.is_same(&metadata.content_type) {
                    position = Some(k);
                }
                k += 1;
            }
            match position {
                Some(p) => {
                    proof {
                        lemma_count_for_unique(before, kind, before.len(), p as int);
                    }
                    let (entry_kind, count) = type_counts.remove(p);
                    type_counts.insert(p, (entry_kind, count + 1));
                    proof {
                        let after = type_counts@;
                        assert(after =~= before.update(p as int, (before[p as int].0, (count + 1) as usize)));
                        assert(distinct_kinds(after));
                        assert forall|other: ContentType| #[trigger]
                            count_for(after, other, after.len()) == items_of_kind(
                                items,
                                other,
                                (i + 1) as nat,
                            ) by {
                            lemma_same_kind(before[p as int].0, kind, other);
                            lemma_same_kind(kind, before[p as int].0, other);
                            lemma_same_kind(other, kind, before[p as int].0);
                            if kind.same(other) {
                                lemma_count_for_unique(before, other, before.len(), p as int);
                                lemma_count_for_unique(after, other, after.len(), p as int);
                            } else {
                                assert forall|j: int| 0 <= j < before.len() implies (
                                #[trigger] before[j]).0 == after[j].0 && (!before[j].0.same(other)
                                    || before[j] == after[j]) by {
                                    if j == p {
                                        lemma_same_kind(before[p as int].0, other, kind);
                                    }
                                }
                                lemma_count_for_same(before, after, other, before.len());
                            }
                        }
                    }
                },
                None => {
                    type_counts.push((metadata.content_type.clone_kind(), 1));
                    proof {
                        let after = type_counts@;
                        assert(after.drop_last() =~= before);
                        assert forall|a: int, b: int| 0 <= a < b < after.len() implies !(
                        #[trigger] after[a]).0.same((#[trigger] after[b]).0) by {
                            if b == after.len() - 1 {
                                lemma_same_kind(after[a].0, kind, after[b].0);
                            }
                        }
                        assert forall|other: ContentType| #[trigger]
                            count_for(after, other, after.len()) == items_of_kind(
                                items,
                                other,
                                (i + 1) as nat,
                            ) by {
                            lemma_same_kind(after.last().0, kind, other);
                            lemma_same_kind(kind, after.last().0, other);
                            assert forall|j: int| 0 <= j < before.len() implies (
                            #[trigger] before[j]) == after[j] by {
                                assert(after.drop_last()[j] == after[j]);
                            }
                            lemma_count_for_same(before, after, other, before.len());
                            if kind.same(other) {
                                assert forall|j: int| 0 <= j < before.len() implies !(
                                #[trigger] before[j]).0.same(other) by {
                                    lemma_same_kind(before[j].0, other, kind);
                                }
                                lemma_count_for_absent(before, other, before.len());
                            }
                        }
                    }
                },
            }
            assert forall|other: ContentType| #[trigger]
                items_of_kind(items, other, (i + 1) as nat) <= i + 1 by {
                assert(items_of_kind(items, other, i as nat) <= i);
            }
            i += 1;
        }
        StorageStatistics {
            total_items: n,
            total_size: size_sum,
            type_counts,
            total_tags: self.tags_index.len(),
        }
    }
}

impl ContentType {
    /// A content type that is the same one.
    pub fn clone_kind(&self) -> (kind: Self)
        ensures
            kind.same(*self),
            self.same(kind),
    {
        match self {
            ContentType::DidDocument => ContentType::DidDocument,
            ContentType::VerifiableCredential => ContentType::VerifiableCredential,
            ContentType::VerifiablePresentation => ContentType::VerifiablePresentation,
            ContentType::AttestationProof => ContentType::AttestationProof,
            ContentType::RevocationList => ContentType::RevocationList,
            ContentType::Schema => ContentType::Schema,
            ContentType::Metadata => ContentType::Metadata,
            ContentType::Custom(name) => ContentType::Custom(name.clone()),
        }
    }
}

impl BatchResult {
    /// The result of a batch of which nothing has run yet.
    pub fn new() -> (result: Self)
        ensures
            result.successful@.len() == 0,
            result.failed@.len() == 0,
            result.total_size == 0,
            result.total_operations == 0,
    {
        BatchResult { successful: Vec::new(), failed: Vec::new(), total_size: 0, total_operations: 0 }
    }

    /// One more operation has succeeded: its size counts, up to the
    /// largest size.
    pub fn record_success(&mut self, result: StorageResult)
        ensures
            final(self).successful@ == old(self).successful@.push(result),
            final(self).failed == old(self).failed,
            final(self).total_size == capped_sum(old(self).total_size, result.metadata.size),
            final(self).total_operations == one_more(old(self).total_operations),
    {
        self.total_size = if result.metadata.size > u64::MAX - self.total_size {
            u64::MAX
        } else {
            self.total_size + result.metadata.size
        };
        self.successful.push(result);
        self.total_operations = count_up(self.total_operations);
    }

    /// One more operation has failed, the one at `index`, with `message`.
    pub fn record_failure(&mut self, index: usize, message: String)
        ensures
            final(self).failed@ == old(self).failed@.push((index, message)),
            final(self).successful == old(self).successful,
            final(self).total_size == old(self).total_size,
            final(self).total_operations == one_more(old(self).total_operations),
    {
        self.failed.push((index, message));
        self.total_operations = count_up(self.total_operations);
    }
}

impl BatchOperation {
    /// Create a new empty batch.
    pub fn new() -> (batch: Self)
        ensures
            batch.operations@.len() == 0,
    {
        Self { operations: Vec::new() }
    }

    /// Add a DID document to the batch.
    pub fn add_did_document(self, did_doc: DidDocument, tags: Vec<String>) -> (batch: Self)
        ensures
            batch.operations@ == self.operations@.push(StorageOperation::StoreDid { did_doc, tags }),
    {
        let mut batch = self;
        batch.operations.push(StorageOperation::StoreDid { did_doc, tags });
        batch
    }

    /// Add a credential to the batch.
    pub fn add_credential(self, credential: VerifiableCredential, tags: Vec<String>) -> (batch: Self)
        ensures
            batch.operations@ == self.operations@.push(
                StorageOperation::StoreCredential { credential, tags },
            ),
    {
        let mut batch = self;
        batch.operations.push(StorageOperation::StoreCredential { credential, tags });
        batch
    }

    /// Add a presentation to the batch.
    pub fn add_presentation(self, presentation: VerifiablePresentation, tags: Vec<String>) -> (batch:
        Self)
        ensures
            batch.operations@ == self.operations@.push(
                StorageOperation::StorePresentation { presentation, tags },
            ),
    {
        let mut batch = self;
        batch.operations.push(StorageOperation::StorePresentation { presentation, tags });
        batch
    }

    /// Add JSON data to the batch.
    pub fn add_json(self, data: JsonValue, content_type: ContentType, tags: Vec<String>) -> (batch:
        Self)
        ensures
            batch.operations@ == self.operations@.push(
                StorageOperation::StoreJson { data, content_type, tags },
            ),
    {
        let mut batch = self;
        batch.operations.push(StorageOperation::StoreJson { data, content_type, tags });
        batch
    }

    /// Get the number of operations in the batch.
    pub fn len(&self) -> (n: usize)
        ensures
            n == self.operations@.len(),
    {
        self.operations.len()
    }

    /// Check if the batch is empty.
    pub fn is_empty(&self) -> (empty: bool)
        ensures
            empty == (self.operations@.len() == 0),
    {
        self.operations.len() == 0
    }
}

impl Default for BatchOperation {
    fn default() -> (batch: Self)
        ensures
            batch.operations@.len() == 0,
    {
        Self::new()
    }
}

impl SearchCriteria {
    /// Create new search criteria, which everything meets.
    pub fn new() -> (criteria: Self)
        ensures
            criteria.content_type is None,
            criteria.tags@.len() == 0,
            criteria.created_after is None,
            criteria.created_before is None,
            criteria.min_size is None,
            criteria.max_size is None,
    {
        Self {
            content_type: None,
            tags: Vec::new(),
            created_after: None,
            created_before: None,
            min_size: None,
            max_size: None,
        }
    }

    /// Filter by content type.
    pub fn with_content_type(self, content_type: ContentType) -> (criteria: Self)
        ensures
            criteria == (SearchCriteria { content_type: Some(content_type), ..self }),
    {
        let mut criteria = self;
        criteria.content_type = Some(content_type);
        criteria
    }

    /// Filter by tags.
    pub fn with_tags(self, tags: Vec<String>) -> (criteria: Self)
        ensures
            criteria == (SearchCriteria { tags, ..self }),
    {
        let mut criteria = self;
        criteria.tags = tags;
        criteria
    }

    /// Filter by creation date range.
    pub fn with_date_range(self, after: Option<i64>, before: Option<i64>) -> (criteria: Self)
        ensures
            criteria == (SearchCriteria { created_after: after, created_before: before, ..self }),
    {
        let mut criteria = self;
        criteria.created_after = after;
        criteria.created_before = before;
        criteria
    }

    /// Filter by size range.
    pub fn with_size_range(self, min: Option<u64>, max: Option<u64>) -> (criteria: Self)
        ensures
            criteria == (SearchCriteria { min_size: min, max_size: max, ..self }),
    {
        let mut criteria = self;
        criteria.min_size = min;
        criteria.max_size = max;
        criteria
    }
}

impl Default for SearchCriteria {
    fn default() -> (criteria: Self)
        ensures
            criteria.content_type is None,
            criteria.tags@.len() == 0,
    {
        Self::new()
    }
}

} // verus!
