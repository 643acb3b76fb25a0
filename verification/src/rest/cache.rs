//! Caches of texts that were recently asked for.
use lru::LruCache;
use std::num::NonZeroUsize;
use vstd::prelude::*;

verus! {

/// A key of a cache: the two halves of a hash, or two numbers.
pub type CacheKey = (u128, u128);

/// A cache of `lru` that holds texts.
pub type TextCache = LruCache<CacheKey, String>;

#[verifier::external_type_specification]
#[verifier::external_body]
#[verifier::reject_recursive_types(K)]
#[verifier::reject_recursive_types(V)]
#[verifier::reject_recursive_types(S)]
pub struct ExLruCache<K, V, S>(lru::LruCache<K, V, S>);

#[verifier::external_type_specification]
#[verifier::external_body]
pub struct ExDefaultHasher(lru::DefaultHasher);

/// What a cache holds, the most recently used first.
pub uninterp spec fn cached(cache: TextCache) -> Seq<(CacheKey, Seq<char>)>;

/// The number of texts that a cache holds at most.
pub uninterp spec fn capacity(cache: TextCache) -> nat;

/// Whether there is a text for a key.
pub open spec fn holds(entries: Seq<(CacheKey, Seq<char>)>, key: CacheKey) -> bool {
    exists|i: int| 0 <= i < entries.len() && (#[trigger] entries[i]).0 == key
}

/// No key has two texts.
pub open spec fn distinct_keys(entries: Seq<(CacheKey, Seq<char>)>) -> bool {
    forall|i: int, j: int|
        0 <= i < j < entries.len() ==> (#[trigger] entries[i]).0 != (#[trigger] entries[j]).0
}

/// Whether an entry is for another key.
pub open spec fn not_of(key: CacheKey) -> spec_fn((CacheKey, Seq<char>)) -> bool {
    |entry: (CacheKey, Seq<char>)| entry.0 != key
}

/// The entries for other keys.
pub open spec fn others(entries: Seq<(CacheKey, Seq<char>)>, key: CacheKey) -> Seq<
    (CacheKey, Seq<char>),
> {
    entries.filter(not_of(key))
}

/// The entries with that of a key before all others.
pub open spec fn touched(
    entries: Seq<(CacheKey, Seq<char>)>,
    key: CacheKey,
    text: Seq<char>,
) -> Seq<(CacheKey, Seq<char>)> {
    seq![(key, text)] + others(entries, key)
}

/// The first of the entries, as many as there is room for.
pub open spec fn bounded(entries: Seq<(CacheKey, Seq<char>)>, room: nat) -> Seq<
    (CacheKey, Seq<char>),
> {
    if entries.len() <= room {
        entries
    } else {
        entries.take(room as int)
    }
}

/// The entries that a filter keeps have distinct keys if all entries have.
proof fn lemma_filter_distinct(
    entries: Seq<(CacheKey, Seq<char>)>,
    keep: spec_fn((CacheKey, Seq<char>)) -> bool,
)
    requires
        distinct_keys(entries),
    ensures
        distinct_keys(entries.filter(keep)),
    decreases entries.len(),
{
    reveal(Seq::filter);
    if entries.len() > 0 {
        let front = entries.drop_last();
        lemma_filter_distinct(front, keep);
        let kept = front.filter(keep);
        if keep(entries.last()) {
            assert forall|i: int| 0 <= i < kept.len() implies (#[trigger] kept[i]).0
                != entries.last().0 by {
                lemma_filter_source(front, keep, i);
                let source = choose|j: int| 0 <= j < front.len() && front[j] == kept[i];
                assert(entries[source].0 != entries[entries.len() - 1].0);
            }
        }
    }
}

/// An entry that a filter keeps is one of the entries.
proof fn lemma_filter_source(
    entries: Seq<(CacheKey, Seq<char>)>,
    keep: spec_fn((CacheKey, Seq<char>)) -> bool,
    index: int,
)
    requires
        0 <= index < entries.filter(keep).len(),
    ensures
        entries.contains(entries.filter(keep)[index]),
        keep(entries.filter(keep)[index]),
    decreases entries.len(),
{
    reveal(Seq::filter);
    if entries.len() > 0 {
        let front = entries.drop_last();
        let kept = front.filter(keep);
        if index < kept.len() {
            lemma_filter_source(front, keep, index);
            let source = choose|j: int| 0 <= j < front.len() && front[j] == kept[index];
            assert(entries[source] == kept[index]);
        } else {
            assert(entries[entries.len() - 1] == entries.filter(keep)[index]);
        }
    }
}

/// The use of an entry keeps the keys distinct.
pub proof fn lemma_touched_distinct(
    entries: Seq<(CacheKey, Seq<char>)>,
    key: CacheKey,
    text: Seq<char>,
    room: nat,
)
    requires
        distinct_keys(entries),
    ensures
        distinct_keys(touched(entries, key, text)),
        distinct_keys(bounded(touched(entries, key, text), room)),
{
    let keep = not_of(key);
    let kept = others(entries, key);
    lemma_filter_distinct(entries, keep);
    let after = touched(entries, key, text);
    assert forall|i: int, j: int| 0 <= i < j < after.len() implies (#[trigger] after[i]).0 != (
    #[trigger] after[j]).0 by {
        lemma_filter_source(entries, keep, j - 1);
        assert(after[j] == kept[j - 1]);
        if i > 0 {
            assert(after[i] == kept[i - 1]);
        }
    }
}

/// `LruCache::new`: an empty cache of the given capacity.
#[verifier::external_body]
pub(crate) fn cache_new(size: usize) -> (cache: TextCache)
    requires
        size > 0,
    ensures
        cached(cache) == Seq::<(CacheKey, Seq<char>)>::empty(),
        capacity(cache) == size,
{
    LruCache::new(NonZeroUsize::new(size).unwrap())
}

/// `LruCache::get`: the text for a key, if there is one, which becomes the most recently used.
#[verifier::external_body]
pub(crate) fn cache_get(cache: &mut TextCache, key: &CacheKey) -> (text: Option<String>)
    ensures
        match text {
            Some(text) => {
                &&& cached(*old(cache)).contains((*key, text@))
                &&& cached(*final(cache)) == touched(cached(*old(cache)), *key, text@)
            },
            None => {
                &&& !holds(cached(*old(cache)), *key)
                &&& cached(*final(cache)) == cached(*old(cache))
            },
        },
        capacity(*final(cache)) == capacity(*old(cache)),
{
    cache.get(key).cloned()
}

/// `LruCache::put`: makes the text that of the key, which becomes the most recently used. If there is
/// no room for another key, the least recently used leaves.
#[verifier::external_body]
pub(crate) fn cache_put(cache: &mut TextCache, key: CacheKey, text: String)
    ensures
        cached(*final(cache)) == bounded(
            touched(cached(*old(cache)), key, text@),
            capacity(*old(cache)),
        ),
        capacity(*final(cache)) == capacity(*old(cache)),
{
    cache.put(key, text);
}

/// The capacity of the cache holding recently requested blocks.
pub const BLOCK_CACHE_SIZE: usize = 128;

/// A cache containing recently requested blocks, each serialized, by their hashes.
pub struct BlockCache {
    blocks: TextCache,
}

impl View for BlockCache {
    type V = Seq<(CacheKey, Seq<char>)>;

    closed spec fn view(&self) -> Seq<(CacheKey, Seq<char>)> {
        cached(self.blocks)
    }
}

impl BlockCache {
    /// The cache has the capacity of a block cache, and holds no block twice.
    pub closed spec fn wf(&self) -> bool {
        &&& capacity(self.blocks) == BLOCK_CACHE_SIZE
        &&& distinct_keys(cached(self.blocks))
    }

    /// Initializes a cache that holds no block.
    pub fn new() -> (cache: Self)
        ensures
            cache.wf(),
            cache@ == Seq::<(CacheKey, Seq<char>)>::empty(),
    {
        BlockCache { blocks: cache_new(BLOCK_CACHE_SIZE) }
    }

    /// Returns the block with the given hash, if the cache holds it.
    pub fn get(&mut self, hash: &CacheKey) -> (block: Option<String>)
        requires
            old(self).wf(),
        ensures
            final(self).wf(),
            match block {
                Some(block) => {
                    &&& old(self)@.contains((*hash, block@))
                    &&& final(self)@ == touched(old(self)@, *hash, block@)
                },
                None => !holds(old(self)@, *hash) && final(self)@ == old(self)@,
            },
    {
        let block = cache_get(&mut self.blocks, hash);
        proof {
            if block is Some {
                lemma_touched_distinct(old(self)@, *hash, block->0@, 0);
            }
        }
        block
    }

    /// Makes the cache hold a block.
    pub fn put(&mut self, hash: CacheKey, block: String)
        requires
            old(self).wf(),
        ensures
            final(self).wf(),
            final(self)@ == bounded(touched(old(self)@, hash, block@), BLOCK_CACHE_SIZE as nat),
    {
        proof {
            lemma_touched_distinct(self@, hash, block@, BLOCK_CACHE_SIZE as nat);
        }
        cache_put(&mut self.blocks, hash, block);
    }

    /// Returns the block with the given hash as the cache holds it, or makes it hold the given one
    /// and returns that.
    pub fn get_or_insert(&mut self, hash: CacheKey, block: String) -> (held: String)
        requires
            old(self).wf(),
        ensures
            final(self).wf(),
            if holds(old(self)@, hash) {
                &&& old(self)@.contains((hash, held@))
                &&& final(self)@ == touched(old(self)@, hash, held@)
            } else {
                &&& held@ == block@
                &&& final(self)@ == bounded(
                    touched(old(self)@, hash, block@),
                    BLOCK_CACHE_SIZE as nat,
                )
            },
    {
        match self.get(&hash) {
            Some(held) => {
                proof {
                    let i = choose|i: int|
                        0 <= i < old(self)@.len() && old(self)@[i] == (hash, held@);
                    assert(old(self)@[i].0 == hash);
                }
                held
            },
            None => {
                let held = block.clone();
                self.put(hash, block);
                held
            },
        }
    }
}

/// What was put into a cache is what is found for its key, and the cache holds no more than it has
/// room for.
pub proof fn what_is_put_is_found(
    entries: Seq<(CacheKey, Seq<char>)>,
    room: nat,
    key: CacheKey,
    text: Seq<char>,
)
    requires
        room > 0,
    ensures
        ({
            let after = bounded(touched(entries, key, text), room);
            &&& after.len() <= room
            &&& after[0] == (key, text)
            &&& forall|i: int| 0 < i < after.len() ==> (#[trigger] after[i]).0 != key
        }),
{
    broadcast use vstd::seq_lib::group_filter_ensures;

    let after = bounded(touched(entries, key, text), room);
    let keep = not_of(key);
    assert forall|i: int| 0 < i < after.len() implies (#[trigger] after[i]).0 != key by {
        assert(after[i] == others(entries, key)[i - 1]);
        assert(keep(others(entries, key)[i - 1]));
    }
}

/// Reading from a cache makes nothing leave it, and changes no text.
pub proof fn reading_evicts_nothing(
    entries: Seq<(CacheKey, Seq<char>)>,
    key: CacheKey,
    text: Seq<char>,
    entry: (CacheKey, Seq<char>),
)
    requires
        entries.contains((key, text)),
        entries.contains(entry),
        entry.0 == key ==> entry.1 == text,
    ensures
        touched(entries, key, text).contains(entry),
{
    broadcast use vstd::seq_lib::group_filter_ensures;

    let keep = not_of(key);
    let after = touched(entries, key, text);
    if entry.0 == key {
        assert(after[0] == entry);
    } else {
        let position = choose|i: int| 0 <= i < entries.len() && entries[i] == entry;
        assert(keep(entries[position]));
        assert(others(entries, key).contains(entry));
        let i = choose|i: int|
            0 <= i < others(entries, key).len() && others(entries, key)[i] == entry;
        assert(after[i + 1] == entry);
    }
}

/// A filter that keeps every entry keeps the entries as they are.
proof fn lemma_filter_all(
    entries: Seq<(CacheKey, Seq<char>)>,
    keep: spec_fn((CacheKey, Seq<char>)) -> bool,
)
    requires
        forall|i: int| 0 <= i < entries.len() ==> keep(#[trigger] entries[i]),
    ensures
        entries.filter(keep) == entries,
    decreases entries.len(),
{
    reveal(Seq::filter);
    if entries.len() > 0 {
        let front = entries.drop_last();
        assert forall|i: int| 0 <= i < front.len() implies keep(#[trigger] front[i]) by {
            assert(front[i] == entries[i]);
        }
        lemma_filter_all(front, keep);
        assert(keep(entries[entries.len() - 1]));
    }
    assert(entries.filter(keep) =~= entries);
}

/// A text for a new key is put before all others, which stay as they are as long as there is room; in
/// a full cache the one that was used the longest ago has to leave, and no other.
pub proof fn only_the_least_recently_used_leaves(
    entries: Seq<(CacheKey, Seq<char>)>,
    room: nat,
    key: CacheKey,
    text: Seq<char>,
)
    requires
        forall|i: int| 0 <= i < entries.len() ==> (#[trigger] entries[i]).0 != key,
    ensures
        entries.len() < room ==> bounded(touched(entries, key, text), room) == seq![(key, text)]
            + entries,
        entries.len() == room && room > 0 ==> bounded(touched(entries, key, text), room) == seq![
            (key, text),
        ] + entries.drop_last(),
{
    lemma_filter_all(entries, not_of(key));
    let after = touched(entries, key, text);
    assert(after =~= seq![(key, text)] + entries);
    if entries.len() == room && room > 0 {
        assert(bounded(after, room) =~= seq![(key, text)] + entries.drop_last());
    }
}

/// A text that is read, or put again under its key, moves before all others, which keep their order;
/// nothing leaves.
pub proof fn a_used_text_moves_to_the_front(
    entries: Seq<(CacheKey, Seq<char>)>,
    position: int,
    text: Seq<char>,
    room: nat,
)
    requires
        distinct_keys(entries),
        0 <= position < entries.len() <= room,
    ensures
        ({
            let key = entries[position].0;
            let after = seq![(key, text)] + entries.take(position) + entries.skip(position + 1);
            &&& touched(entries, key, text) == after
            &&& bounded(touched(entries, key, text), room) == after
        }),
{
    let key = entries[position].0;
    let keep = not_of(key);
    let before = entries.take(position);
    let behind = entries.skip(position + 1);
    assert forall|i: int| 0 <= i < before.len() implies keep(#[trigger] before[i]) by {
        assert(entries[i].0 != entries[position].0);
    }
    assert forall|i: int| 0 <= i < behind.len() implies keep(#[trigger] behind[i]) by {
        assert(entries[position].0 != entries[position + 1 + i].0);
    }
    lemma_filter_all(before, keep);
    lemma_filter_all(behind, keep);
    let first = entries.take(position + 1);
    assert(entries =~= first + behind);
    Seq::filter_distributes_over_add(first, behind, keep);
    assert(first.drop_last() =~= before);
    assert(first.filter(keep) == before) by {
        reveal(Seq::filter);
    }
    assert(touched(entries, key, text) =~= seq![(key, text)] + before + behind);
}

/// There is a text for a key exactly if an entry has the key.
pub proof fn a_key_is_held_by_its_entry(
    entries: Seq<(CacheKey, Seq<char>)>,
    key: CacheKey,
    text: Seq<char>,
)
    ensures
        entries.contains((key, text)) ==> holds(entries, key),
        holds(entries, key) ==> exists|found: Seq<char>| #[trigger] entries.contains((key, found)),
{
    if entries.contains((key, text)) {
        let i = choose|i: int| 0 <= i < entries.len() && entries[i] == (key, text);
        assert(entries[i].0 == key);
    }
    if holds(entries, key) {
        let i = choose|i: int| 0 <= i < entries.len() && (#[trigger] entries[i]).0 == key;
        assert(entries.contains((key, entries[i].1)));
    }
}

} // verus!
