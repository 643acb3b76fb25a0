//! The routes that serve a block, or something of each block of a range of heights.
use crate::console::{block_hash, parse_block_hash};
use crate::rest::cache::{
    bounded, holds, only_the_least_recently_used_leaves, touched, BlockCache, CacheKey,
    BLOCK_CACHE_SIZE,
};
use crate::rest::error::{
    error_in_context, error_with, in_context, RestError, RestErrorModel, BAD_REQUEST,
    INTERNAL_SERVER_ERROR, NOT_FOUND,
};
use crate::rest::requests::{
    check_block_range, is_missing_resource, map_missing_resource_error, missing_resource_error,
    range_refusal, BlockRange, MAX_BLOCK_HASH_RANGE, MAX_BLOCK_HEADER_RANGE, MAX_BLOCK_RANGE,
    MAX_BLOCK_TRANSACTIONS_RANGE, MAX_STATE_ROOT_RANGE,
};
use crate::text::{
    a_numeral_is_read_back, decimal, decimal_text, parse_u32, parsed, texts,
};
use vstd::prelude::*;

verus! {

/// How a request names a block.
#[derive(Clone, Copy, Debug, PartialEq, Eq)]
pub enum BlockId {
    Height(u32),
    Hash(CacheKey),
}

/// The block that a text names, with the hash that the text stands for, if it does.
pub open spec fn named_block(text: Seq<char>, hash: Option<CacheKey>) -> Result<
    BlockId,
    RestErrorModel,
> {
    match parsed(text, u32::MAX as nat) {
        Some(height) => Ok(BlockId::Height(height as u32)),
        None => match hash {
            Some(hash) => Ok(BlockId::Hash(hash)),
            None => Err(
                error_with(
                    BAD_REQUEST,
                    "invalid input: neither a block height nor a block hash"@,
                ),
            ),
        },
    }
}

/// The content of a named block, or of the error in its place.
pub open spec fn id_content(result: Result<BlockId, RestError>) -> Result<BlockId, RestErrorModel> {
    match result {
        Ok(id) => Ok(id),
        Err(error) => Err(error@),
    }
}

/// Returns the block that a text names, with the hash that the text stands for, if it does. A text
/// that is a height names the block at that height.
pub fn block_named(text: &str, hash: Option<CacheKey>) -> (result: Result<BlockId, RestError>)
    ensures
        id_content(result) == named_block(text@, hash),
{
    match parse_u32(text) {
        Some(height) => Ok(BlockId::Height(height)),
        None => match hash {
            Some(hash) => Ok(BlockId::Hash(hash)),
            None => Err(
                RestError::new(
                    BAD_REQUEST,
                    "invalid input: neither a block height nor a block hash".to_owned(),
                ),
            ),
        },
    }
}

/// Parses the height or the hash of a block.
pub fn parse_block_id(height_or_hash: &str) -> (result: Result<BlockId, RestError>)
    ensures
        id_content(result) == named_block(height_or_hash@, block_hash(height_or_hash@)),
{
    block_named(height_or_hash, parse_block_hash(height_or_hash))
}

/// Returns the error for a block hash that could not be looked up by its height.
pub fn block_hash_error(chain: Vec<String>) -> (error: RestError)
    ensures
        error@ == missing_resource_error(
            seq!["Failed to get a block's hash"@] + texts(chain@),
        ),
{
    map_missing_resource_error(in_context("Failed to get a block's hash".to_owned(), chain))
}

/// What came of reading a block from the ledger in a task of its own.
#[derive(Debug)]
pub enum BlockRead {
    /// The block, serialized.
    Found(String),
    /// The ledger does not have the block, or could not read it.
    Absent,
    /// The task did not finish.
    Failed(String),
}

/// What is answered when a block was read from the ledger.
pub open spec fn block_answer(height_or_hash: Seq<char>, read: BlockRead) -> Result<
    Seq<char>,
    RestErrorModel,
> {
    match read {
        BlockRead::Found(block) => Ok(block@),
        BlockRead::Absent => Err(
            error_with(NOT_FOUND, "Couldn't find block "@ + height_or_hash),
        ),
        BlockRead::Failed(message) => Err(
            error_with(INTERNAL_SERVER_ERROR, "tokio error: "@ + message@),
        ),
    }
}

/// The content of a text, or of the error in its place.
pub open spec fn text_or_error(result: Result<String, RestError>) -> Result<
    Seq<char>,
    RestErrorModel,
> {
    match result {
        Ok(text) => Ok(text@),
        Err(error) => Err(error@),
    }
}

/// Answers with a block that was read from the ledger, and makes the cache hold it.
pub fn serve_block(
    cache: &mut BlockCache,
    height_or_hash: &str,
    hash: CacheKey,
    read: BlockRead,
) -> (result: Result<String, RestError>)
    requires
        old(cache).wf(),
    ensures
        final(cache).wf(),
        text_or_error(result) == block_answer(height_or_hash@, read),
        final(cache)@ == match read {
            BlockRead::Found(block) => bounded(
                touched(old(cache)@, hash, block@),
                BLOCK_CACHE_SIZE as nat,
            ),
            _ => old(cache)@,
        },
{
    match read {
        BlockRead::Found(block) => {
            cache.put(hash, block.clone());
            Ok(block)
        },
        BlockRead::Absent => {
            let mut message = "Couldn't find block ".to_owned();
            message.append(height_or_hash);
            Err(RestError::new(NOT_FOUND, message))
        },
        BlockRead::Failed(error) => {
            let mut message = "tokio error: ".to_owned();
            message.append(error.as_str());
            Err(RestError::new(INTERNAL_SERVER_ERROR, message))
        },
    }
}

/// What a range route serves of each block.
#[derive(Clone, Copy, Debug, PartialEq, Eq, Structural)]
pub enum RangeItem {
    /// The block.
    Block,
    /// The block's hash.
    Hash,
    /// The block's header.
    Header,
    /// The block's confirmed transactions.
    Transactions,
    /// The state root after the block.
    StateRoot,
}

impl RangeItem {
    /// The maximum number of blocks in a request.
    pub open spec fn maximum(self) -> u32 {
        match self {
            RangeItem::Block => MAX_BLOCK_RANGE,
            RangeItem::Hash => MAX_BLOCK_HASH_RANGE,
            RangeItem::Header => MAX_BLOCK_HEADER_RANGE,
            RangeItem::Transactions => MAX_BLOCK_TRANSACTIONS_RANGE,
            RangeItem::StateRoot => MAX_STATE_ROOT_RANGE,
        }
    }

    /// What the items are called where a request is too wide.
    pub open spec fn called(self) -> Seq<char> {
        match self {
            RangeItem::Block => "blocks"@,
            RangeItem::Hash => "block hashes"@,
            RangeItem::Header => "block headers"@,
            RangeItem::Transactions => "blocks' transactions"@,
            RangeItem::StateRoot => "state roots"@,
        }
    }

    /// What the items are called where a task has failed.
    pub open spec fn failing(self) -> Seq<char> {
        match self {
            RangeItem::Transactions => "transactions for blocks"@,
            _ => self.called(),
        }
    }

    /// Returns the maximum number of blocks in a request.
    pub fn max(self) -> (max: u32)
        ensures
            max == self.maximum(),
    {
        match self {
            RangeItem::Block => MAX_BLOCK_RANGE,
            RangeItem::Hash => MAX_BLOCK_HASH_RANGE,
            RangeItem::Header => MAX_BLOCK_HEADER_RANGE,
            RangeItem::Transactions => MAX_BLOCK_TRANSACTIONS_RANGE,
            RangeItem::StateRoot => MAX_STATE_ROOT_RANGE,
        }
    }

    /// Returns what the items are called where a request is too wide.
    pub fn name(self) -> (name: &'static str)
        ensures
            name@ == self.called(),
    {
        match self {
            RangeItem::Block => "blocks",
            RangeItem::Hash => "block hashes",
            RangeItem::Header => "block headers",
            RangeItem::Transactions => "blocks' transactions",
            RangeItem::StateRoot => "state roots",
        }
    }
}

/// The content of what the ledger has for a height.
pub open spec fn lookup_content<T>(lookup: Result<Option<T>, Vec<String>>) -> Result<
    Option<T>,
    Seq<Seq<char>>,
> {
    match lookup {
        Ok(item) => Ok(item),
        Err(chain) => Err(texts(chain@)),
    }
}

/// Whether the ledger may have nothing for a height without an error: it reports an absent state root
/// that way, and anything else that is absent by an error.
pub open spec fn may_be_looked_up<T>(
    item: RangeItem,
    lookup: Result<Option<T>, Vec<String>>,
) -> bool {
    lookup matches Ok(None) ==> item is StateRoot
}

/// What a range route serves for a height, by what the ledger has for it.
pub open spec fn served<T>(
    item: RangeItem,
    height: u32,
    lookup: Result<Option<T>, Seq<Seq<char>>>,
) -> Result<T, RestErrorModel> {
    match lookup {
        Ok(Some(found)) => Ok(found),
        Ok(None) => Err(
            error_with(NOT_FOUND, "Missing state root for block "@ + decimal(height as nat)),
        ),
        Err(chain) => Err(
            if item is StateRoot {
                RestErrorModel { status: INTERNAL_SERVER_ERROR, chain }
            } else {
                missing_resource_error(chain)
            },
        ),
    }
}

/// Returns what a range route serves for a height, by what the ledger has for it.
pub fn serve_height<T>(item: RangeItem, height: u32, lookup: Result<Option<T>, Vec<String>>) -> (result:
    Result<T, RestError>)
    requires
        may_be_looked_up(item, lookup),
    ensures
        match result {
            Ok(found) => served(item, height, lookup_content(lookup)) == Ok::<T, RestErrorModel>(
                found,
            ),
            Err(error) => served(item, height, lookup_content(lookup)) == Err::<T, RestErrorModel>(
                error@,
            ),
        },
{
    match lookup {
        Ok(Some(found)) => Ok(found),
        Ok(None) => {
            let mut message = "Missing state root for block ".to_owned();
            message.append(decimal_text(height as u64).as_str());
            Err(RestError::new(NOT_FOUND, message))
        },
        Err(chain) => match item {
            RangeItem::StateRoot => Err(RestError { status: INTERNAL_SERVER_ERROR, chain }),
            _ => Err(map_missing_resource_error(chain)),
        },
    }
}

/// What a range route serves so far: the items of the first heights of the range, in order.
pub struct RangeAnswer<T> {
    item: RangeItem,
    range: BlockRange,
    items: Vec<T>,
}

impl<T> RangeAnswer<T> {
    /// The route's item.
    pub closed spec fn kind(&self) -> RangeItem {
        self.item
    }

    /// The range that was asked for.
    pub closed spec fn asked(&self) -> BlockRange {
        self.range
    }

    /// The items so far.
    pub closed spec fn found(&self) -> Seq<T> {
        self.items@
    }

    /// The range is one that is served, and there are no more items than heights.
    pub open spec fn wf(&self) -> bool {
        &&& range_refusal(self.asked(), self.kind().maximum(), self.kind().called()) is None
        &&& self.found().len() <= self.asked().width()
    }

    /// The next height, if there is one.
    pub open spec fn next_height(&self) -> Option<u32> {
        if self.found().len() < self.asked().width() {
            Some((self.asked().start + self.found().len()) as u32)
        } else {
            None
        }
    }

    /// Begins to serve a range, if it is one that is served.
    pub fn begin(item: RangeItem, range: BlockRange) -> (result: Result<Self, RestError>)
        ensures
            match result {
                Ok(answer) => {
                    &&& range_refusal(range, item.maximum(), item.called()) is None
                    &&& answer.wf()
                    &&& answer.kind() == item
                    &&& answer.asked() == range
                    &&& answer.found() == Seq::<T>::empty()
                },
                Err(error) => range_refusal(range, item.maximum(), item.called()) == Some(error@),
            },
    {
        match check_block_range(range, item.max(), item.name()) {
            Ok(_) => Ok(RangeAnswer { item, range, items: Vec::new() }),
            Err(error) => Err(error),
        }
    }

    /// Returns the height to look up next, or `None` if the answer is whole.
    pub fn next(&self) -> (height: Option<u32>)
        requires
            self.wf(),
        ensures
            height == self.next_height(),
    {
        let width: u32 = self.range.end - self.range.start;
        if self.items.len() < width as usize {
            Some(self.range.start + self.items.len() as u32)
        } else {
            None
        }
    }

    /// Takes what the ledger has for the next height. A height without an item fails the whole
    /// request.
    pub fn take(&mut self, lookup: Result<Option<T>, Vec<String>>) -> (result: Result<(), RestError>)
        requires
            old(self).wf(),
            old(self).next_height() is Some,
            may_be_looked_up(old(self).kind(), lookup),
        ensures
            final(self).wf(),
            final(self).kind() == old(self).kind(),
            final(self).asked() == old(self).asked(),
            ({
                let outcome = served(
                    old(self).kind(),
                    old(self).next_height()->0,
                    lookup_content(lookup),
                );
                match result {
                    Ok(()) => outcome is Ok && final(self).found() == old(self).found().push(
                        outcome->Ok_0,
                    ),
                    Err(error) => outcome == Err::<T, RestErrorModel>(error@)
                        && final(self).found() == old(self).found(),
                }
            }),
    {
        let height: u32 = self.range.start + self.items.len() as u32;
        match serve_height(self.item, height, lookup) {
            Ok(found) => {
                self.items.push(found);
                Ok(())
            },
            Err(error) => Err(error),
        }
    }

    /// Returns the items, one for each height of the range.
    pub fn finish(self) -> (items: Vec<T>)
        requires
            self.wf(),
            self.next_height() is None,
        ensures
            items@ == self.found(),
            items@.len() == self.asked().width(),
    {
        self.items
    }
}

/// The content of what the ledger has for each of several heights.
pub open spec fn lookup_contents<T>(lookups: Seq<Result<Option<T>, Vec<String>>>) -> Seq<
    Result<Option<T>, Seq<Seq<char>>>,
> {
    lookups.map_values(|lookup: Result<Option<T>, Vec<String>>| lookup_content(lookup))
}

/// What a range route serves for consecutive heights, by what the ledger has for each: all the items,
/// or the error of the first height without one.
pub open spec fn served_from<T>(
    item: RangeItem,
    start: u32,
    lookups: Seq<Result<Option<T>, Seq<Seq<char>>>>,
) -> Result<Seq<T>, RestErrorModel>
    decreases lookups.len(),
{
    if lookups.len() == 0 {
        Ok(Seq::empty())
    } else {
        match served_from(item, start, lookups.drop_last()) {
            Err(error) => Err(error),
            Ok(items) => match served(
                item,
                (start + lookups.len() - 1) as u32,
                lookups.last(),
            ) {
                Ok(found) => Ok(items.push(found)),
                Err(error) => Err(error),
            },
        }
    }
}

/// A height without an item settles what comes of a range.
proof fn lemma_served_stops<T>(
    item: RangeItem,
    start: u32,
    lookups: Seq<Result<Option<T>, Seq<Seq<char>>>>,
    len: int,
)
    requires
        0 <= len <= lookups.len(),
        served_from(item, start, lookups.take(len)) is Err,
    ensures
        served_from(item, start, lookups) == served_from(item, start, lookups.take(len)),
    decreases lookups.len() - len,
{
    if len == lookups.len() {
        assert(lookups.take(len) =~= lookups);
    } else {
        assert(lookups.take(len + 1).drop_last() =~= lookups.take(len));
        lemma_served_stops(item, start, lookups, len + 1);
    }
}

/// Serves a range from what the ledger has for each of its heights.
pub fn serve_range<T>(
    item: RangeItem,
    range: BlockRange,
    lookups: Vec<Result<Option<T>, Vec<String>>>,
) -> (result: Result<Vec<T>, RestError>)
    requires
        range_refusal(range, item.maximum(), item.called()) is None ==> lookups.len()
            == range.width(),
        forall|i: int| 0 <= i < lookups.len() ==> may_be_looked_up(item, #[trigger] lookups[i]),
    ensures
        (match range_refusal(range, item.maximum(), item.called()) {
            Some(error) => Err(error),
            None => served_from(item, range.start, lookup_contents(lookups@)),
        }) == (match result {
            Ok(items) => Ok(items@),
            Err(error) => Err(error@),
        }),
{
    let ghost all = lookups@;
    let ghost contents = lookup_contents(all);
    let mut remaining = lookups;
    let mut answer = match RangeAnswer::begin(item, range) {
        Ok(answer) => answer,
        Err(error) => {
            return Err(error);
        },
    };
    while remaining.len() > 0
        invariant
            contents == lookup_contents(all),
            answer.wf(),
            answer.kind() == item,
            answer.asked() == range,
            all.len() == range.width(),
            answer.found().len() + remaining@.len() == all.len(),
            remaining@ == all.skip(answer.found().len() as int),
            forall|i: int| 0 <= i < all.len() ==> may_be_looked_up(item, #[trigger] all[i]),
            served_from(item, range.start, contents.take(answer.found().len() as int)) == Ok::<
                Seq<T>,
                RestErrorModel,
            >(answer.found()),
            contents == lookup_contents(lookups@),
            range_refusal(range, item.maximum(), item.called()) is None,
        decreases remaining.len(),
    {
        let ghost done = answer.found().len() as int;
        let lookup = remaining.remove(0);
        proof {
            assert(lookup == all[done]);
            assert(remaining@ =~= all.skip(done + 1));
            assert(contents.take(done + 1).drop_last() =~= contents.take(done));
            assert(contents.take(done + 1).last() == lookup_content(lookup));
        }
        match answer.take(lookup) {
            Ok(()) => {},
            Err(error) => {
                proof {
                    lemma_served_stops(item, range.start, contents, done + 1);
                }
                return Err(error);
            },
        }
    }
    assert(contents.take(all.len() as int) =~= contents);
    Ok(answer.finish())
}

/// A range is served whole or not at all: if it is, there is one item for each height, in order, each
/// what is served for that height; if not, the error is that of the first height without an item.
pub proof fn a_range_is_served_whole<T>(
    item: RangeItem,
    start: u32,
    lookups: Seq<Result<Option<T>, Seq<Seq<char>>>>,
)
    ensures
        match served_from(item, start, lookups) {
            Ok(items) => items.len() == lookups.len() && forall|i: int|
                0 <= i < lookups.len() ==> served(item, (start + i) as u32, lookups[i]) == Ok::<
                    T,
                    RestErrorModel,
                >(#[trigger] items[i]),
            Err(error) => exists|i: int|
                {
                    &&& 0 <= i < lookups.len()
                    &&& served(item, (start + i) as u32, #[trigger] lookups[i]) == Err::<
                        T,
                        RestErrorModel,
                    >(error)
                    &&& served_from(item, start, lookups.take(i)) is Ok
                },
        },
    decreases lookups.len(),
{
    if lookups.len() > 0 {
        let front = lookups.drop_last();
        let last = lookups.len() - 1;
        a_range_is_served_whole(item, start, front);
        match served_from(item, start, front) {
            Err(error) => {
                let i = choose|i: int|
                    {
                        &&& 0 <= i < front.len()
                        &&& served(item, (start + i) as u32, #[trigger] front[i]) == Err::<
                            T,
                            RestErrorModel,
                        >(error)
                        &&& served_from(item, start, front.take(i)) is Ok
                    };
                assert(lookups[i] == front[i]);
                assert(lookups.take(i) =~= front.take(i));
            },
            Ok(items) => {
                assert(lookups.take(last) =~= front);
                match served(item, (start + last) as u32, lookups[last]) {
                    Ok(found) => {
                        let whole = items.push(found);
                        assert forall|i: int| 0 <= i < lookups.len() implies served(
                            item,
                            (start + i) as u32,
                            lookups[i],
                        ) == Ok::<T, RestErrorModel>(#[trigger] whole[i]) by {
                            if i < last {
                                assert(lookups[i] == front[i]);
                                assert(whole[i] == items[i]);
                            }
                        }
                    },
                    Err(error) => {
                        assert(lookups[last] == lookups.last());
                    },
                }
            },
        }
    }
}

/// Returns the error for a range whose task did not finish.
pub fn range_task_error(item: RangeItem, range: BlockRange, chain: Vec<String>) -> (error: RestError)
    ensures
        error@ == error_in_context(
            INTERNAL_SERVER_ERROR,
            "Failed to get "@ + item.failing() + " '"@ + decimal(range.start as nat) + ".."@
                + decimal(range.end as nat) + "'"@,
            texts(chain@),
        ),
{
    let mut context = "Failed to get ".to_owned();
    match item {
        RangeItem::Transactions => context.append("transactions for blocks"),
        _ => context.append(item.name()),
    }
    context.append(" '");
    context.append(decimal_text(range.start as u64).as_str());
    context.append("..");
    context.append(decimal_text(range.end as u64).as_str());
    context.append("'");
    RestError::with_context(INTERNAL_SERVER_ERROR, context, chain)
}

/// A block that was served is found in the cache under its hash afterwards.
pub proof fn a_served_block_is_cached(
    entries: Seq<(CacheKey, Seq<char>)>,
    hash: CacheKey,
    block: Seq<char>,
)
    ensures
        holds(bounded(touched(entries, hash, block), BLOCK_CACHE_SIZE as nat), hash),
        bounded(touched(entries, hash, block), BLOCK_CACHE_SIZE as nat)[0] == (hash, block),
{
    let after = bounded(touched(entries, hash, block), BLOCK_CACHE_SIZE as nat);
    assert(after[0] == (hash, block));
}

/// An empty range is served, with no items, wherever it starts.
pub proof fn an_empty_range_is_served(item: RangeItem, range: BlockRange)
    requires
        range.start == range.end,
    ensures
        range_refusal(range, item.maximum(), item.called()) is None,
        range.heights() == Seq::<u32>::empty(),
{
}

/// A range is served if and only if it is not inverted and asks for no more than the item's maximum.
pub proof fn a_range_is_served_up_to_the_maximum(item: RangeItem, range: BlockRange)
    ensures
        (range_refusal(range, item.maximum(), item.called()) is None) == (range.start <= range.end
            && range.width() <= item.maximum()),
{
}

/// A height that the ledger does not have is not found, rather than a fault: for a state root when
/// there is none, for anything else when the error leads back to an absent resource.
pub proof fn a_missing_height_is_not_found<T>(
    item: RangeItem,
    height: u32,
    chain: Seq<Seq<char>>,
)
    requires
        !(item is StateRoot),
        is_missing_resource(chain),
    ensures
        served::<T>(item, height, Err(chain)) == Err::<T, RestErrorModel>(
            (RestErrorModel { status: NOT_FOUND, chain }),
        ),
        served::<T>(RangeItem::StateRoot, height, Ok(None)) == Err::<T, RestErrorModel>(
            error_with(NOT_FOUND, "Missing state root for block "@ + decimal(height as nat)),
        ),
{
}

/// The items that are small next to a block have a greater maximum than blocks have.
pub proof fn small_items_have_greater_maximums(item: RangeItem)
    ensures
        item is Block || item.maximum() > RangeItem::Block.maximum(),
{
}

/// A text that is a height names the block at that height, whether or not it is a hash too; another
/// names the block with the hash that it stands for; and one that is neither is a bad request.
pub proof fn a_height_comes_before_a_hash(text: Seq<char>, hash: Option<CacheKey>, height: u32)
    ensures
        named_block(decimal(height as nat), hash) == Ok::<BlockId, RestErrorModel>(
            BlockId::Height(height),
        ),
        named_block(text, hash) == Ok::<BlockId, RestErrorModel>(BlockId::Height(height)) <==> parsed(
            text,
            0xffff_ffff,
        ) == Some(height as nat),
        parsed(text, 0xffff_ffff) is None ==> match hash {
            Some(found) => named_block(text, hash) == Ok::<BlockId, RestErrorModel>(
                BlockId::Hash(found),
            ),
            None => named_block(text, hash) is Err,
        },
        named_block(text, hash) matches Err(error) ==> error.status == 400,
{
    a_numeral_is_read_back(height as nat, u32::MAX as nat);
}

/// A block that was read is answered as it is; one that is absent is not found, by the name that it
/// was asked for; and a task that did not finish is a fault, by its message.
pub proof fn a_block_is_answered_as_it_was_read(
    height_or_hash: Seq<char>,
    block: String,
    message: String,
)
    ensures
        block_answer(height_or_hash, BlockRead::Found(block)) == Ok::<Seq<char>, RestErrorModel>(
            block@,
        ),
        block_answer(height_or_hash, BlockRead::Absent) matches Err(error) && error.status == 404
            && error.chain.len() == 1 && height_or_hash.is_suffix_of(error.chain[0]),
        block_answer(height_or_hash, BlockRead::Failed(message)) matches Err(error) && error.status
            == 500 && error.chain.len() == 1 && message@.is_suffix_of(error.chain[0]),
{
    let absent = "Couldn't find block "@ + height_or_hash;
    let failed = "tokio error: "@ + message@;
    assert(absent.subrange(absent.len() - height_or_hash.len(), absent.len() as int)
        =~= height_or_hash);
    assert(failed.subrange(failed.len() - message@.len(), failed.len() as int) =~= message@);
}

/// How many blocks each route serves something of in one request, and what it calls them.
pub proof fn each_item_has_its_own_maximum(item: RangeItem)
    ensures
        item is Block ==> item.maximum() == 50 && item.called() == "blocks"@,
        item is Hash ==> item.maximum() == 5000 && item.called() == "block hashes"@,
        item is Header ==> item.maximum() == 320 && item.called() == "block headers"@,
        item is Transactions ==> item.maximum() == 160 && item.called() == "blocks' transactions"@,
        item is StateRoot ==> item.maximum() == 5000 && item.called() == "state roots"@,
        item is Transactions ==> item.failing() == "transactions for blocks"@,
        !(item is Transactions) ==> item.failing() == item.called(),
{
}

/// What the ledger has for a height is served as it is, whatever the route. An error of the ledger
/// keeps its chain: for a state root it is a fault in any case, and for anything else it is what the
/// chain tells.
pub proof fn a_height_is_served_what_the_ledger_has<T>(
    item: RangeItem,
    height: u32,
    found: T,
    chain: Seq<Seq<char>>,
)
    ensures
        served(item, height, Ok(Some(found))) == Ok::<T, RestErrorModel>(found),
        served::<T>(item, height, Ok(None)) matches Err(error) && error.status == 404 && decimal(
            height as nat,
        ).is_suffix_of(error.chain[0]),
        served::<T>(item, height, Err(chain)) matches Err(error) && error.chain == chain,
        item is StateRoot ==> served::<T>(item, height, Err(chain))->Err_0.status == 500,
        !(item is StateRoot) ==> served::<T>(item, height, Err(chain))->Err_0.status == (if is_missing_resource(
            chain,
        ) {
            404u16
        } else {
            500u16
        }),
{
    let message = "Missing state root for block "@ + decimal(height as nat);
    let number = decimal(height as nat);
    assert(message.subrange(message.len() - number.len(), message.len() as int) =~= number);
}

/// A range is refused for the first of its heights without an item, whatever the later ones have.
pub proof fn a_range_is_refused_for_its_first_missing_height<T>(
    item: RangeItem,
    start: u32,
    lookups: Seq<Result<Option<T>, Seq<Seq<char>>>>,
    index: int,
)
    requires
        0 <= index < lookups.len(),
        !(lookups[index] is Ok && lookups[index]->Ok_0 is Some),
        forall|i: int|
            0 <= i < index ==> (#[trigger] lookups[i]) is Ok && lookups[i]->Ok_0 is Some,
    ensures
        served_from(item, start, lookups) is Err,
        served_from(item, start, lookups)->Err_0 == served(
            item,
            (start + index) as u32,
            lookups[index],
        )->Err_0,
{
    let front = lookups.take(index);
    a_range_is_served_whole(item, start, front);
    if served_from(item, start, front) is Err {
        let error = served_from(item, start, front)->Err_0;
        let i = choose|i: int|
            {
                &&& 0 <= i < front.len()
                &&& served(item, (start + i) as u32, #[trigger] front[i]) == Err::<
                    T,
                    RestErrorModel,
                >(error)
                &&& served_from(item, start, front.take(i)) is Ok
            };
        assert(front[i] == lookups[i]);
    }
    assert(lookups.take(index + 1).drop_last() =~= front);
    assert(lookups.take(index + 1).last() == lookups[index]);
    lemma_served_stops(item, start, lookups, index + 1);
}

/// The heights of a range are looked up one after the other: the next is as many above the start as
/// there are items, and there is none once there are as many items as heights.
pub proof fn the_next_height_is_the_first_without_an_item<T>(answer: RangeAnswer<T>)
    requires
        answer.wf(),
    ensures
        answer.next_height() matches Some(height) ==> height == answer.asked().start
            + answer.found().len() && height < answer.asked().end,
        answer.next_height() is None <==> answer.asked().start + answer.found().len()
            == answer.asked().end,
{
}

/// The contents of what is looked up and answered tell apart what differs in it.
pub proof fn contents_are_those_of_the_lookups<T>(
    lookups: Seq<Result<Option<T>, Vec<String>>>,
    item: Option<T>,
    chain: Vec<String>,
    text: String,
    id: BlockId,
    error: RestError,
)
    ensures
        lookup_content(Ok(item)) == Ok::<Option<T>, Seq<Seq<char>>>(item),
        lookup_content::<T>(Err(chain)) == Err::<Option<T>, Seq<Seq<char>>>(texts(chain@)),
        lookup_contents(lookups).len() == lookups.len(),
        forall|i: int|
            0 <= i < lookups.len() ==> #[trigger] lookup_contents(lookups)[i] == lookup_content(
                lookups[i],
            ),
        text_or_error(Ok(text)) == Ok::<Seq<char>, RestErrorModel>(text@),
        text_or_error(Err(error)) == Err::<Seq<char>, RestErrorModel>(error@),
        id_content(Ok(id)) == Ok::<BlockId, RestErrorModel>(id),
        id_content(Err(error)) == Err::<BlockId, RestErrorModel>(error@),
{
}

/// A block that is new to the cache pushes out the one that was asked for the longest ago, and only
/// once as many blocks are cached as the cache holds.
pub proof fn a_new_block_pushes_out_the_oldest(
    entries: Seq<(CacheKey, Seq<char>)>,
    hash: CacheKey,
    block: Seq<char>,
)
    requires
        !holds(entries, hash),
        entries.len() <= 128,
    ensures
        bounded(touched(entries, hash, block), BLOCK_CACHE_SIZE as nat) == seq![(hash, block)]
            + entries.take(
            if entries.len() < 128 {
                entries.len() as int
            } else {
                127
            },
        ),
{
    only_the_least_recently_used_leaves(entries, BLOCK_CACHE_SIZE as nat, hash, block);
    if entries.len() < 128 {
        assert(entries.take(entries.len() as int) =~= entries);
    } else {
        assert(entries.take(127) =~= entries.drop_last());
    }
}

} // verus!
