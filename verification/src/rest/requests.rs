//! What requests ask for, and why it is refused.
use crate::console::{field, parse_field, parse_plaintext, parse_value, plaintext, value};
use crate::rest::error::{
    error_in_context, error_with, in_context, shown, RestError, RestErrorModel, BAD_REQUEST,
    INTERNAL_SERVER_ERROR, NOT_FOUND, UNPROCESSABLE_ENTITY,
};
use crate::text::{
    a_text_is_split_at_every_separator, a_text_occurs_where_it_stands,
    a_text_without_the_separator_is_not_split, contains, decimal, decimal_text, is_space, occurs,
    split, split_text, texts, trim, trimmed, trimming_removes_the_white_space_around,
};
use vstd::prelude::*;

verus! {

/// The maximum number of keys in a request for the values of a mapping.
pub const MAX_KEYS_PER_REQUEST: usize = 128;

/// The maximum number of blocks that `get_blocks` serves in one request.
pub const MAX_BLOCK_RANGE: u32 = 50;

/// The maximum number of block hashes that `get_block_hashes` serves in one request.
pub const MAX_BLOCK_HASH_RANGE: u32 = 5_000;

/// The maximum number of block headers that `get_block_headers` serves in one request.
pub const MAX_BLOCK_HEADER_RANGE: u32 = 320;

/// The maximum number of state roots that `get_block_state_roots` serves in one request.
pub const MAX_STATE_ROOT_RANGE: u32 = 5_000;

/// The maximum number of blocks whose transactions `get_block_transactions_range` serves in one
/// request.
///
/// Unlike a hash, a state root or a header, a block's transactions have no fixed size. What bounds
/// this is the largest response the node already produces over the same data: this many blocks'
/// transactions weigh less than the `MAX_BLOCK_RANGE` whole blocks `get_blocks` serves.
pub const MAX_BLOCK_TRANSACTIONS_RANGE: u32 = 160;

/// The query object for the routes serving a range of block heights.
#[derive(Copy, Clone, Debug, PartialEq, Eq, Structural)]
pub struct BlockRange {
    /// The starting block height (inclusive).
    pub start: u32,
    /// The ending block height (exclusive).
    pub end: u32,
}

impl BlockRange {
    /// The number of heights in the range.
    pub open spec fn width(self) -> int {
        self.end - self.start
    }

    /// The heights in the range, in order.
    pub open spec fn heights(self) -> Seq<u32> {
        Seq::new(
            if self.start <= self.end {
                (self.end - self.start) as nat
            } else {
                0
            },
            |i: int| (self.start + i) as u32,
        )
    }
}

/// The message for a range that is too wide.
pub open spec fn range_too_wide(max_block_range: u32, item: Seq<char>, requested: int) -> Seq<char> {
    "Cannot request more than "@ + decimal(max_block_range as nat) + " "@ + item
        + " per call (requested "@ + decimal(requested as nat) + ")"@
}

/// Why a range is refused, if it is.
pub open spec fn range_refusal(range: BlockRange, max_block_range: u32, item: Seq<char>) -> Option<
    RestErrorModel,
> {
    if range.start > range.end {
        Some(error_with(BAD_REQUEST, "Invalid block range"@))
    } else if range.width() > max_block_range {
        Some(error_with(BAD_REQUEST, range_too_wide(max_block_range, item, range.width())))
    } else {
        None
    }
}

/// Validates a block range against the given maximum, and returns `(start, end)`.
///
/// `item` names what the route serves, so that a caller who exceeds the maximum is told the limit
/// in the unit it applies to.
pub fn check_block_range(block_range: BlockRange, max_block_range: u32, item: &str) -> (result: Result<
    (u32, u32),
    RestError,
>)
    ensures
        match result {
            Ok(bounds) => {
                &&& range_refusal(block_range, max_block_range, item@) is None
                &&& bounds == (block_range.start, block_range.end)
            },
            Err(error) => range_refusal(block_range, max_block_range, item@) == Some(error@),
        },
{
    let (start_height, end_height) = (block_range.start, block_range.end);
    // Ensure the end height is greater than the start height.
    if start_height > end_height {
        return Err(RestError::new(BAD_REQUEST, "Invalid block range".to_owned()));
    }
    // Ensure the block range is bounded.
    let requested: u32 = end_height - start_height;
    if requested > max_block_range {
        let mut message = "Cannot request more than ".to_owned();
        message.append(decimal_text(max_block_range as u64).as_str());
        message.append(" ");
        message.append(item);
        message.append(" per call (requested ");
        message.append(decimal_text(requested as u64).as_str());
        message.append(")");
        return Err(RestError::new(BAD_REQUEST, message));
    }
    Ok((start_height, end_height))
}

/// Whether a message is that of an absent resource rather than of a fault.
pub open spec fn names_missing_resource(message: Seq<char>) -> bool {
    ||| occurs(message, "Missing"@)
    ||| occurs(message, "does not exist in storage"@)
    ||| occurs(message, "Failed to find"@)
}

/// Whether a chain of messages leads back to an absent resource.
pub open spec fn is_missing_resource(chain: Seq<Seq<char>>) -> bool {
    exists|i: int| 0 <= i < chain.len() && names_missing_resource(#[trigger] chain[i])
}

/// The error for a lookup that failed with the given chain of messages.
pub open spec fn missing_resource_error(chain: Seq<Seq<char>>) -> RestErrorModel {
    RestErrorModel {
        status: if is_missing_resource(chain) {
            NOT_FOUND
        } else {
            INTERNAL_SERVER_ERROR
        },
        chain,
    }
}

/// Returns the error for a lookup that failed with the given chain of messages: an absent resource
/// is not found, anything else is a fault.
///
/// The whole chain is inspected rather than just the outermost message, because a marker added by
/// the ledger may be buried under the context that a caller has attached.
pub fn map_missing_resource_error(chain: Vec<String>) -> (error: RestError)
    ensures
        error@ == missing_resource_error(texts(chain@)),
{
    let mut missing: bool = false;
    for i in 0..chain.len()
        invariant
            missing == exists|j: int|
                0 <= j < i && names_missing_resource(#[trigger] texts(chain@)[j]),
    {
        let message = chain[i].as_str();
        assert(texts(chain@)[i as int] == message@);
        if contains(message, "Missing") || contains(message, "does not exist in storage")
            || contains(message, "Failed to find") {
            missing = true;
        }
    }
    RestError {
        status: if missing {
            NOT_FOUND
        } else {
            INTERNAL_SERVER_ERROR
        },
        chain,
    }
}

/// What context a caller attaches to an error does not hide that it leads back to an absent resource.
pub proof fn context_does_not_hide_a_missing_resource(context: Seq<char>, chain: Seq<Seq<char>>)
    requires
        is_missing_resource(chain),
    ensures
        missing_resource_error(seq![context] + chain).status == NOT_FOUND,
        missing_resource_error(chain).status == NOT_FOUND,
{
    let i = choose|i: int| 0 <= i < chain.len() && names_missing_resource(#[trigger] chain[i]);
    assert((seq![context] + chain)[i + 1] == chain[i]);
}

/// An error that names no absent resource, in a context that names none, is a fault.
pub proof fn a_fault_is_not_a_missing_resource(context: Seq<char>, chain: Seq<Seq<char>>)
    requires
        !is_missing_resource(chain),
        !names_missing_resource(context),
    ensures
        missing_resource_error(seq![context] + chain).status == INTERNAL_SERVER_ERROR,
{
    let full = seq![context] + chain;
    assert forall|i: int| 0 <= i < full.len() implies !names_missing_resource(#[trigger] full[i]) by {
        if i > 0 {
            assert(full[i] == chain[i - 1]);
        }
    }
}

/// The error for a transaction lookup that failed with the given chain of messages, of which only
/// the outermost is inspected.
pub open spec fn missing_transaction_error(chain: Seq<Seq<char>>) -> RestErrorModel {
    RestErrorModel {
        status: if occurs(shown(chain), "Missing"@) {
            NOT_FOUND
        } else {
            INTERNAL_SERVER_ERROR
        },
        chain,
    }
}

/// Returns the error for a transaction lookup that failed with the given chain of messages.
pub fn map_missing_transaction_error(chain: Vec<String>) -> (error: RestError)
    ensures
        error@ == missing_transaction_error(texts(chain@)),
{
    let mut error = RestError { status: INTERNAL_SERVER_ERROR, chain };
    let message = error.to_string();
    if contains(message.as_str(), "Missing") {
        error.status = NOT_FOUND;
    }
    error
}

/// The texts of a list with the white space around each of them removed.
pub open spec fn all_trimmed(parts: Seq<Seq<char>>) -> Seq<Seq<char>> {
    parts.map_values(|part: Seq<char>| trimmed(part))
}

/// The entries of a list with commas between them.
pub open spec fn csv(text: Seq<char>) -> Seq<Seq<char>> {
    if trimmed(text).len() == 0 {
        Seq::empty()
    } else {
        all_trimmed(split(text, ','))
    }
}

/// Deserialize a CSV string into a vector of strings.
pub fn de_csv(text: &str) -> (entries: Vec<String>)
    ensures
        texts(entries@) == csv(text@),
{
    let mut entries: Vec<String> = Vec::new();
    if trim(text).as_str().unicode_len() == 0 {
        assert(texts(entries@) =~= csv(text@));
        return entries;
    }
    let parts: Vec<String> = split_text(text, ',');
    for i in 0..parts.len()
        invariant
            entries.len() == i,
            texts(parts@) == split(text@, ','),
            forall|j: int|
                0 <= j < i ==> #[trigger] texts(entries@)[j] == trimmed(texts(parts@)[j]),
    {
        let ghost before = texts(entries@);
        let entry = trim(parts[i].as_str());
        entries.push(entry);
        assert(texts(entries@) =~= before.push(entry@));
    }
    assert(texts(entries@) =~= csv(text@));
    entries
}

/// What the entries of a list in a request are.
#[derive(Copy, Clone, Debug, PartialEq, Eq, Structural)]
pub enum EntryKind {
    /// The keys of a mapping.
    Key,
    /// The inputs of a view function.
    Input,
    /// The commitments whose state paths are asked for.
    Commitment,
}

/// The error for an entry that cannot be read, with the chain of messages that reading it gave.
pub open spec fn invalid_entry(
    kind: EntryKind,
    index: int,
    entry: Seq<char>,
    chain: Seq<Seq<char>>,
) -> RestErrorModel {
    match kind {
        EntryKind::Key => error_in_context(
            UNPROCESSABLE_ENTITY,
            "Invalid key at index "@ + decimal(index as nat) + ": "@ + entry,
            chain,
        ),
        EntryKind::Input => error_in_context(
            UNPROCESSABLE_ENTITY,
            "Invalid input at index "@ + decimal(index as nat) + ": "@ + entry,
            chain,
        ),
        EntryKind::Commitment => RestErrorModel {
            status: INTERNAL_SERVER_ERROR,
            chain: seq!["Unable to parse commitments"@] + (seq!["Invalid commitment: "@ + entry]
                + chain),
        },
    }
}

/// What was read from the entries of a list, or the error for the first that cannot be read.
pub open spec fn collected(
    kind: EntryKind,
    entries: Seq<Seq<char>>,
    reads: Seq<Result<Seq<char>, Seq<Seq<char>>>>,
) -> Result<Seq<Seq<char>>, RestErrorModel>
    decreases entries.len(),
{
    if entries.len() == 0 {
        Ok(Seq::empty())
    } else {
        match collected(kind, entries.drop_last(), reads.drop_last()) {
            Err(error) => Err(error),
            Ok(front) => match reads.last() {
                Ok(last) => Ok(front.push(last)),
                Err(chain) => Err(invalid_entry(kind, entries.len() - 1, entries.last(), chain)),
            },
        }
    }
}

/// The content of what was read from a text.
pub open spec fn read_content(read: Result<String, Vec<String>>) -> Result<
    Seq<char>,
    Seq<Seq<char>>,
> {
    match read {
        Ok(printed) => Ok(printed@),
        Err(chain) => Err(texts(chain@)),
    }
}

/// The content of what was read from each text of a list.
pub open spec fn read_contents(reads: Seq<Result<String, Vec<String>>>) -> Seq<
    Result<Seq<char>, Seq<Seq<char>>>,
> {
    reads.map_values(|read: Result<String, Vec<String>>| read_content(read))
}

/// The content of a list of texts, or of the error in its place.
pub open spec fn texts_or_error(result: Result<Vec<String>, RestError>) -> Result<
    Seq<Seq<char>>,
    RestErrorModel,
> {
    match result {
        Ok(list) => Ok(texts(list@)),
        Err(error) => Err(error@),
    }
}

/// The message for a list that is too long.
pub open spec fn too_many(what: Seq<char>, max: nat, len: nat) -> Seq<char> {
    "Too many "@ + what + " provided (max: "@ + decimal(max) + ", got: "@ + decimal(len) + ")"@
}

/// The keys of a request for the values of a mapping, or the error for them.
pub open spec fn mapping_keys(keys: Seq<Seq<char>>) -> Result<Seq<Seq<char>>, RestErrorModel> {
    if keys.len() == 0 {
        Err(error_with(UNPROCESSABLE_ENTITY, "No keys provided"@))
    } else if keys.len() > MAX_KEYS_PER_REQUEST {
        Err(
            error_with(
                UNPROCESSABLE_ENTITY,
                too_many("keys"@, MAX_KEYS_PER_REQUEST as nat, keys.len()),
            ),
        )
    } else {
        collected(EntryKind::Key, keys, keys.map_values(|key: Seq<char>| plaintext(key)))
    }
}

/// The inputs of a view function, or the error for them.
pub open spec fn view_inputs(inputs: Seq<Seq<char>>) -> Result<Seq<Seq<char>>, RestErrorModel> {
    collected(
        EntryKind::Input,
        inputs,
        inputs.map_values(|input: Seq<char>| value(input)),
    )
}

/// The commitments of a request for state paths, or the error for them.
pub open spec fn state_path_commitments(commitments: Seq<Seq<char>>, max_inputs: nat) -> Result<
    Seq<Seq<char>>,
    RestErrorModel,
> {
    if commitments.len() == 0 {
        Err(error_with(UNPROCESSABLE_ENTITY, "No commitments provided"@))
    } else if commitments.len() > max_inputs {
        Err(
            error_with(
                UNPROCESSABLE_ENTITY,
                too_many("commitments"@, max_inputs, commitments.len()),
            ),
        )
    } else {
        collected(
            EntryKind::Commitment,
            commitments,
            commitments.map_values(|commitment: Seq<char>| field(commitment)),
        )
    }
}

/// Returns the error for an entry that cannot be read.
fn refuse_entry(kind: EntryKind, index: usize, entry: &str, chain: Vec<String>) -> (error: RestError)
    ensures
        error@ == invalid_entry(kind, index as int, entry@, texts(chain@)),
{
    match kind {
        EntryKind::Key => {
            let mut context = "Invalid key at index ".to_owned();
            context.append(decimal_text(index as u64).as_str());
            context.append(": ");
            context.append(entry);
            RestError::with_context(UNPROCESSABLE_ENTITY, context, chain)
        },
        EntryKind::Input => {
            let mut context = "Invalid input at index ".to_owned();
            context.append(decimal_text(index as u64).as_str());
            context.append(": ");
            context.append(entry);
            RestError::with_context(UNPROCESSABLE_ENTITY, context, chain)
        },
        EntryKind::Commitment => {
            let mut context = "Invalid commitment: ".to_owned();
            context.append(entry);
            let inner = in_context(context, chain);
            RestError::with_context(
                INTERNAL_SERVER_ERROR,
                "Unable to parse commitments".to_owned(),
                inner,
            )
        },
    }
}

/// Returns the error for a list that is too long.
fn refuse_length(what: &str, max: usize, len: usize) -> (error: RestError)
    ensures
        error@ == error_with(UNPROCESSABLE_ENTITY, too_many(what@, max as nat, len as nat)),
{
    let mut message = "Too many ".to_owned();
    message.append(what);
    message.append(" provided (max: ");
    message.append(decimal_text(max as u64).as_str());
    message.append(", got: ");
    message.append(decimal_text(len as u64).as_str());
    message.append(")");
    RestError::new(UNPROCESSABLE_ENTITY, message)
}

/// An entry that cannot be read settles what comes of the list.
proof fn lemma_collected_stops(
    kind: EntryKind,
    entries: Seq<Seq<char>>,
    reads: Seq<Result<Seq<char>, Seq<Seq<char>>>>,
    len: int,
)
    requires
        0 <= len <= entries.len(),
        reads.len() == entries.len(),
        collected(kind, entries.take(len), reads.take(len)) is Err,
    ensures
        collected(kind, entries, reads) == collected(kind, entries.take(len), reads.take(len)),
    decreases entries.len() - len,
{
    if len == entries.len() {
        assert(entries.take(len) =~= entries);
        assert(reads.take(len) =~= reads);
    } else {
        assert(entries.take(len + 1).drop_last() =~= entries.take(len));
        assert(reads.take(len + 1).drop_last() =~= reads.take(len));
        lemma_collected_stops(kind, entries, reads, len + 1);
    }
}

/// Collects what was read from the entries of a list, and refuses the list for the first entry that
/// could not be read.
pub fn collect_entries(
    kind: EntryKind,
    entries: &Vec<String>,
    reads: Vec<Result<String, Vec<String>>>,
) -> (result: Result<Vec<String>, RestError>)
    requires
        entries.len() == reads.len(),
    ensures
        texts_or_error(result) == collected(kind, texts(entries@), read_contents(reads@)),
{
    let ghost inputs = texts(entries@);
    let ghost contents = read_contents(reads@);
    let ghost all_reads = reads@;
    let mut parsed: Vec<String> = Vec::new();
    let mut remaining = reads;
    let mut index: usize = 0;
    assert(texts(parsed@) =~= Seq::<Seq<char>>::empty());
    while index < entries.len()
        invariant
            index <= entries.len(),
            inputs == texts(entries@),
            contents == read_contents(all_reads),
            all_reads == reads@,
            all_reads.len() == entries.len(),
            remaining@ == all_reads.skip(index as int),
            collected(kind, inputs.take(index as int), contents.take(index as int)) == Ok::<
                Seq<Seq<char>>,
                RestErrorModel,
            >(texts(parsed@)),
        decreases entries.len() - index,
    {
        let entry = entries[index].as_str();
        let read = remaining.remove(0);
        assert(remaining@ =~= all_reads.skip(index + 1));
        assert(read == all_reads[index as int]);
        proof {
            assert(inputs.take(index + 1).drop_last() =~= inputs.take(index as int));
            assert(contents.take(index + 1).drop_last() =~= contents.take(index as int));
            assert(contents.take(index + 1).last() == read_content(read));
            assert(inputs.take(index + 1).last() == entry@);
        }
        match read {
            Ok(printed) => {
                let ghost before = texts(parsed@);
                parsed.push(printed);
                assert(texts(parsed@) =~= before.push(printed@));
            },
            Err(chain) => {
                let error = refuse_entry(kind, index, entry, chain);
                proof {
                    lemma_collected_stops(kind, inputs, contents, index + 1);
                }
                return Err(error);
            },
        }
        index = index + 1;
    }
    assert(inputs.take(index as int) =~= inputs);
    assert(contents.take(index as int) =~= contents);
    Ok(parsed)
}

/// Parses the keys of a request for the values of a mapping, and returns each as it is printed.
pub fn parse_historical_mapping_keys(keys: &Vec<String>) -> (result: Result<Vec<String>, RestError>)
    ensures
        texts_or_error(result) == mapping_keys(texts(keys@)),
{
    // Return an error if no keys are provided.
    if keys.len() == 0 {
        return Err(RestError::new(UNPROCESSABLE_ENTITY, "No keys provided".to_owned()));
    }
    // Return an error if the number of keys exceeds the maximum allowed.
    if keys.len() > MAX_KEYS_PER_REQUEST {
        return Err(refuse_length("keys", MAX_KEYS_PER_REQUEST, keys.len()));
    }
    let ghost contents = texts(keys@).map_values(|key: Seq<char>| plaintext(key));
    let mut reads: Vec<Result<String, Vec<String>>> = Vec::new();
    for i in 0..keys.len()
        invariant
            reads.len() == i,
            contents == texts(keys@).map_values(|key: Seq<char>| plaintext(key)),
            forall|j: int| 0 <= j < i ==> read_content(#[trigger] reads@[j]) == contents[j],
    {
        let read = parse_plaintext(keys[i].as_str());
        assert(read_content(read) == contents[i as int]);
        reads.push(read);
    }
    assert(read_contents(reads@) =~= contents);
    collect_entries(EntryKind::Key, keys, reads)
}

/// Parses the inputs of a view function, and returns each as it is printed.
pub fn parse_view_inputs(inputs: &Vec<String>) -> (result: Result<Vec<String>, RestError>)
    ensures
        texts_or_error(result) == view_inputs(texts(inputs@)),
{
    let ghost contents = texts(inputs@).map_values(|input: Seq<char>| value(input));
    let mut reads: Vec<Result<String, Vec<String>>> = Vec::new();
    for i in 0..inputs.len()
        invariant
            reads.len() == i,
            contents == texts(inputs@).map_values(|input: Seq<char>| value(input)),
            forall|j: int| 0 <= j < i ==> read_content(#[trigger] reads@[j]) == contents[j],
    {
        let read = parse_value(inputs[i].as_str());
        assert(read_content(read) == contents[i as int]);
        reads.push(read);
    }
    assert(read_contents(reads@) =~= contents);
    collect_entries(EntryKind::Input, inputs, reads)
}

/// Parses the commitments of a request for state paths, and returns each as it is printed.
pub fn parse_commitments(commitments: &Vec<String>, max_inputs: usize) -> (result: Result<
    Vec<String>,
    RestError,
>)
    ensures
        texts_or_error(result) == state_path_commitments(texts(commitments@), max_inputs as nat),
{
    // Return an error if no commitments are provided.
    if commitments.len() == 0 {
        return Err(RestError::new(UNPROCESSABLE_ENTITY, "No commitments provided".to_owned()));
    }
    // Return an error if the number of commitments exceeds the maximum allowed.
    if commitments.len() > max_inputs {
        return Err(refuse_length("commitments", max_inputs, commitments.len()));
    }
    let ghost contents = texts(commitments@).map_values(|entry: Seq<char>| field(entry));
    let mut reads: Vec<Result<String, Vec<String>>> = Vec::new();
    for i in 0..commitments.len()
        invariant
            reads.len() == i,
            contents == texts(commitments@).map_values(|entry: Seq<char>| field(entry)),
            forall|j: int| 0 <= j < i ==> read_content(#[trigger] reads@[j]) == contents[j],
    {
        let read = parse_field(commitments[i].as_str());
        assert(read_content(read) == contents[i as int]);
        reads.push(read);
    }
    assert(read_contents(reads@) =~= contents);
    collect_entries(EntryKind::Commitment, commitments, reads)
}

/// A range holds the heights from its start to its end, the end not among them, each once and in
/// order; one that ends before it starts holds none.
pub proof fn a_range_holds_the_heights_before_its_end(range: BlockRange, height: u32)
    ensures
        range.heights().contains(height) <==> range.start <= height < range.end,
        range.start <= range.end ==> range.heights().len() == range.end - range.start,
        range.start > range.end ==> range.heights().len() == 0,
        forall|i: int|
            0 <= i < range.heights().len() ==> #[trigger] range.heights()[i] == range.start + i,
{
    if range.start <= height < range.end {
        assert(range.heights()[height - range.start] == height);
    }
}

/// A range is served exactly if it does not end before it starts and is not wider than the maximum,
/// which it may reach. Both refusals are of a bad request; one names the maximum and the width.
pub proof fn a_range_is_served_up_to_the_maximum(
    range: BlockRange,
    max_block_range: u32,
    item: Seq<char>,
)
    ensures
        range_refusal(range, max_block_range, item) is None <==> range.start <= range.end
            <= range.start + max_block_range,
        range_refusal(range, max_block_range, item) matches Some(error) ==> error.status == 400
            && error.chain.len() == 1,
        range.start > range.end ==> range_refusal(range, max_block_range, item)->0.chain[0]
            == "Invalid block range"@,
        range.end > range.start + max_block_range ==> ({
            let message = range_refusal(range, max_block_range, item)->0.chain[0];
            &&& ("Cannot request more than "@ + decimal(max_block_range as nat) + " "@
                + item).is_prefix_of(message)
            &&& (decimal((range.end - range.start) as nat) + ")"@).is_suffix_of(message)
        }),
{
    if range.end > range.start + max_block_range {
        let message = range_refusal(range, max_block_range, item)->0.chain[0];
        let front = "Cannot request more than "@ + decimal(max_block_range as nat) + " "@ + item;
        let end = decimal((range.end - range.start) as nat) + ")"@;
        assert(message.subrange(0, front.len() as int) =~= front);
        assert(message.subrange(message.len() - end.len(), message.len() as int) =~= end);
    }
}

/// The maxima on what is served in one request.
pub proof fn the_maxima_of_requests()
    ensures
        MAX_KEYS_PER_REQUEST == 128,
        MAX_BLOCK_RANGE == 50,
        MAX_BLOCK_HASH_RANGE == 5000,
        MAX_BLOCK_HEADER_RANGE == 320,
        MAX_STATE_ROOT_RANGE == 5000,
        MAX_BLOCK_TRANSACTIONS_RANGE == 160,
{
}

/// A message is that of an absent resource wherever in it one of the three markers stands, and only
/// then.
pub proof fn a_marker_names_a_missing_resource(
    message: Seq<char>,
    before: Seq<char>,
    after: Seq<char>,
)
    ensures
        names_missing_resource(before + "Missing"@ + after),
        names_missing_resource(before + "does not exist in storage"@ + after),
        names_missing_resource(before + "Failed to find"@ + after),
        !occurs(message, "Missing"@) && !occurs(message, "does not exist in storage"@) && !occurs(
            message,
            "Failed to find"@,
        ) ==> !names_missing_resource(message),
{
    a_text_occurs_where_it_stands(before, "Missing"@, after);
    a_text_occurs_where_it_stands(before, "does not exist in storage"@, after);
    a_text_occurs_where_it_stands(before, "Failed to find"@, after);
}

/// A failed lookup is not found exactly if a message of its chain, at whichever depth, is that of an
/// absent resource, and a fault otherwise. Its chain is answered as it is.
pub proof fn a_missing_resource_is_found_at_any_depth(chain: Seq<Seq<char>>)
    ensures
        missing_resource_error(chain).chain == chain,
        missing_resource_error(chain).status == 404 <==> exists|i: int|
            0 <= i < chain.len() && names_missing_resource(#[trigger] chain[i]),
        missing_resource_error(chain).status == 404 || missing_resource_error(chain).status == 500,
{
}

/// A failed lookup of a transaction is not found exactly if its outermost message says so, whatever
/// stands behind it, and a fault otherwise. Its chain is answered as it is.
pub proof fn a_missing_transaction_is_told_by_the_outermost_message(
    message: Seq<char>,
    chain: Seq<Seq<char>>,
)
    ensures
        ({
            let error = missing_transaction_error(seq![message] + chain);
            &&& error.chain == seq![message] + chain
            &&& error.status == 404 <==> occurs(message, "Missing"@)
            &&& error.status == 404 || error.status == 500
        }),
{
}

/// The entries of a list are what stands between its commas, without the white space around it; a
/// list of white space alone has none.
pub proof fn a_list_is_split_at_its_commas(left: Seq<char>, right: Seq<char>)
    ensures
        trimmed(left).len() == 0 ==> csv(left).len() == 0,
        trimmed(left).len() > 0 && !left.contains(',') ==> csv(left) == seq![trimmed(left)],
        trimmed(left).len() > 0 && trimmed(right).len() > 0 ==> csv(left.push(',') + right) == csv(
            left,
        ) + csv(right),
        !left.contains(',') ==> csv(left.push(',') + right) == seq![trimmed(left)] + (if trimmed(
            right,
        ).len() == 0 {
            seq![Seq::empty()]
        } else {
            csv(right)
        }),
{
    if !left.contains(',') {
        a_text_without_the_separator_is_not_split(left, ',');
        assert(all_trimmed(seq![left]) =~= seq![trimmed(left)]);
    }
    let text = left.push(',') + right;
    a_text_is_split_at_every_separator(left, right, ',');
    let bounds = trimming_removes_the_white_space_around(text);
    assert(text[left.len() as int] == ',');
    if trimmed(text).len() == 0 {
        assert(is_space(text[left.len() as int]));
    }
    assert(csv(text) =~= all_trimmed(split(left, ',')) + all_trimmed(split(right, ',')));
    if trimmed(right).len() == 0 {
        let around = trimming_removes_the_white_space_around(right);
        assert forall|i: int| 0 <= i < right.len() implies right[i] != ',' by {
            assert(is_space(right[i]));
        }
        a_text_without_the_separator_is_not_split(right, ',');
        assert(trimmed(right) =~= Seq::<char>::empty());
        assert(all_trimmed(seq![right]) =~= seq![Seq::<char>::empty()]);
    }
}

/// A list is read exactly if each of its entries is, and then each gives what was read from it, in
/// order.
pub proof fn a_list_is_read_exactly_if_each_entry_is(
    kind: EntryKind,
    entries: Seq<Seq<char>>,
    reads: Seq<Result<Seq<char>, Seq<Seq<char>>>>,
)
    requires
        entries.len() == reads.len(),
    ensures
        collected(kind, entries, reads) is Ok <==> forall|i: int|
            0 <= i < reads.len() ==> #[trigger] reads[i] is Ok,
        collected(kind, entries, reads) matches Ok(found) ==> found.len() == reads.len()
            && forall|i: int|
            0 <= i < reads.len() ==> #[trigger] reads[i] == Ok::<Seq<char>, Seq<Seq<char>>>(
                found[i],
            ),
    decreases entries.len(),
{
    if entries.len() > 0 {
        let front = reads.drop_last();
        a_list_is_read_exactly_if_each_entry_is(kind, entries.drop_last(), front);
        if collected(kind, entries, reads) is Ok {
            let found = collected(kind, entries, reads)->Ok_0;
            assert forall|i: int| 0 <= i < reads.len() implies #[trigger] reads[i] == Ok::<
                Seq<char>,
                Seq<Seq<char>>,
            >(found[i]) by {
                if i < front.len() {
                    assert(front[i] == reads[i]);
                }
            }
        } else if forall|i: int| 0 <= i < reads.len() ==> #[trigger] reads[i] is Ok {
            assert forall|i: int| 0 <= i < front.len() implies #[trigger] front[i] is Ok by {
                assert(reads[i] == front[i]);
            }
            assert(reads[reads.len() - 1] is Ok);
        }
    }
}

/// A list is refused for the first of its entries that cannot be read, whatever the later ones are.
pub proof fn a_list_is_refused_for_its_first_unreadable_entry(
    kind: EntryKind,
    entries: Seq<Seq<char>>,
    reads: Seq<Result<Seq<char>, Seq<Seq<char>>>>,
    index: int,
)
    requires
        entries.len() == reads.len(),
        0 <= index < reads.len(),
        reads[index] is Err,
        forall|i: int| 0 <= i < index ==> #[trigger] reads[i] is Ok,
    ensures
        collected(kind, entries, reads) == Err::<Seq<Seq<char>>, RestErrorModel>(
            invalid_entry(kind, index, entries[index], reads[index]->Err_0),
        ),
{
    let front = reads.take(index);
    a_list_is_read_exactly_if_each_entry_is(kind, entries.take(index), front);
    assert forall|i: int| 0 <= i < front.len() implies #[trigger] front[i] is Ok by {
        assert(reads[i] == front[i]);
    }
    assert(entries.take(index + 1).drop_last() =~= entries.take(index));
    assert(reads.take(index + 1).drop_last() =~= front);
    lemma_collected_stops(kind, entries, reads, index + 1);
}

/// An entry that cannot be read is named, with its place in the list as far as it is a key or an
/// input, before what reading it gave. It makes the request unprocessable, but for a commitment, which
/// is a fault.
pub proof fn an_unreadable_entry_is_named(
    kind: EntryKind,
    index: nat,
    entry: Seq<char>,
    chain: Seq<Seq<char>>,
)
    ensures
        ({
            let error = invalid_entry(kind, index as int, entry, chain);
            let context = error.chain.len() - chain.len();
            &&& error.status == (if kind is Commitment {
                500u16
            } else {
                422u16
            })
            &&& context == (if kind is Commitment {
                2int
            } else {
                1int
            })
            &&& error.chain.skip(context) == chain
            &&& entry.is_suffix_of(error.chain[context - 1])
            &&& !(kind is Commitment) ==> (decimal(index) + ": "@ + entry).is_suffix_of(
                error.chain[0],
            )
        }),
{
    let error = invalid_entry(kind, index as int, entry, chain);
    let context = error.chain.len() - chain.len();
    assert(error.chain.skip(context) =~= chain);
    let message = error.chain[context - 1];
    assert(message.subrange(message.len() - entry.len(), message.len() as int) =~= entry);
    if !(kind is Commitment) {
        let end = decimal(index) + ": "@ + entry;
        assert(message.subrange(message.len() - end.len(), message.len() as int) =~= end);
    }
}

/// The keys of a request are read if there are any and not more than the maximum, which they may
/// reach; then each gives what is read from it, in order. Too few and too many are unprocessable.
pub proof fn a_request_has_a_key_and_at_most_the_maximum(keys: Seq<Seq<char>>)
    ensures
        mapping_keys(keys) is Ok <==> {
            &&& 1 <= keys.len() <= 128
            &&& forall|i: int| 0 <= i < keys.len() ==> plaintext(#[trigger] keys[i]) is Ok
        },
        mapping_keys(keys) matches Ok(found) ==> found.len() == keys.len() && forall|i: int|
            0 <= i < keys.len() ==> plaintext(#[trigger] keys[i]) == Ok::<
                Seq<char>,
                Seq<Seq<char>>,
            >(found[i]),
        mapping_keys(keys) matches Err(error) ==> error.status == 422,
{
    let reads = keys.map_values(|key: Seq<char>| plaintext(key));
    a_list_is_read_exactly_if_each_entry_is(EntryKind::Key, keys, reads);
    assert forall|i: int| 0 <= i < keys.len() implies reads[i] == plaintext(#[trigger] keys[i]) by {
    }
    if 1 <= keys.len() <= 128 {
        if forall|i: int| 0 <= i < keys.len() ==> plaintext(#[trigger] keys[i]) is Ok {
            assert forall|i: int| 0 <= i < reads.len() implies #[trigger] reads[i] is Ok by {
                assert(plaintext(keys[i]) is Ok);
            }
        }
        if collected(EntryKind::Key, keys, reads) is Err {
            lemma_collected_status(EntryKind::Key, keys, reads);
        }
    }
}

/// The error for a list that cannot be read is that of the kind of its entries.
proof fn lemma_collected_status(
    kind: EntryKind,
    entries: Seq<Seq<char>>,
    reads: Seq<Result<Seq<char>, Seq<Seq<char>>>>,
)
    requires
        entries.len() == reads.len(),
        collected(kind, entries, reads) is Err,
    ensures
        collected(kind, entries, reads)->Err_0.status == (if kind is Commitment {
            500u16
        } else {
            422u16
        }),
    decreases entries.len(),
{
    if entries.len() > 0 && collected(kind, entries.drop_last(), reads.drop_last()) is Err {
        lemma_collected_status(kind, entries.drop_last(), reads.drop_last());
    }
}

/// The inputs of a view are read however many there are, none too: each gives what is read from it, in
/// order.
pub proof fn a_view_has_any_number_of_inputs(inputs: Seq<Seq<char>>)
    ensures
        view_inputs(inputs) is Ok <==> forall|i: int|
            0 <= i < inputs.len() ==> value(#[trigger] inputs[i]) is Ok,
        view_inputs(inputs) matches Ok(found) ==> found.len() == inputs.len() && forall|i: int|
            0 <= i < inputs.len() ==> value(#[trigger] inputs[i]) == Ok::<
                Seq<char>,
                Seq<Seq<char>>,
            >(found[i]),
        view_inputs(inputs) matches Err(error) ==> error.status == 422,
{
    let reads = inputs.map_values(|input: Seq<char>| value(input));
    a_list_is_read_exactly_if_each_entry_is(EntryKind::Input, inputs, reads);
    assert forall|i: int| 0 <= i < inputs.len() implies reads[i] == value(#[trigger] inputs[i]) by {
    }
    if forall|i: int| 0 <= i < inputs.len() ==> value(#[trigger] inputs[i]) is Ok {
        assert forall|i: int| 0 <= i < reads.len() implies #[trigger] reads[i] is Ok by {
            assert(value(inputs[i]) is Ok);
        }
    }
    if view_inputs(inputs) is Err {
        lemma_collected_status(EntryKind::Input, inputs, reads);
    }
}

/// The commitments of a request are read if there are any and not more than the maximum, which they
/// may reach; then each gives what is read from it, in order. Too few and too many are unprocessable,
/// and one that cannot be read is a fault.
pub proof fn a_request_has_a_commitment_and_at_most_the_maximum(
    commitments: Seq<Seq<char>>,
    max_inputs: nat,
)
    ensures
        state_path_commitments(commitments, max_inputs) is Ok <==> {
            &&& 1 <= commitments.len() <= max_inputs
            &&& forall|i: int| 0 <= i < commitments.len() ==> field(#[trigger] commitments[i]) is Ok
        },
        state_path_commitments(commitments, max_inputs) matches Ok(found) ==> found.len()
            == commitments.len() && forall|i: int|
            0 <= i < commitments.len() ==> field(#[trigger] commitments[i]) == Ok::<
                Seq<char>,
                Seq<Seq<char>>,
            >(found[i]),
        state_path_commitments(commitments, max_inputs) matches Err(error) ==> error.status == (if 1
            <= commitments.len() <= max_inputs {
            500u16
        } else {
            422u16
        }),
{
    let reads = commitments.map_values(|commitment: Seq<char>| field(commitment));
    a_list_is_read_exactly_if_each_entry_is(EntryKind::Commitment, commitments, reads);
    assert forall|i: int| 0 <= i < commitments.len() implies reads[i] == field(
        #[trigger] commitments[i],
    ) by {
    }
    if 1 <= commitments.len() <= max_inputs {
        if forall|i: int| 0 <= i < commitments.len() ==> field(#[trigger] commitments[i]) is Ok {
            assert forall|i: int| 0 <= i < reads.len() implies #[trigger] reads[i] is Ok by {
                assert(field(commitments[i]) is Ok);
            }
        }
        if collected(EntryKind::Commitment, commitments, reads) is Err {
            lemma_collected_status(EntryKind::Commitment, commitments, reads);
        }
    }
}

/// A list that is too long is refused with what it is of, the maximum and its length.
pub proof fn a_list_that_is_too_long_is_told_its_length(what: Seq<char>, max: nat, len: nat)
    ensures
        ("Too many "@ + what).is_prefix_of(too_many(what, max, len)),
        (decimal(max) + ", got: "@ + decimal(len) + ")"@).is_suffix_of(too_many(what, max, len)),
{
    let message = too_many(what, max, len);
    let front = "Too many "@ + what;
    let end = decimal(max) + ", got: "@ + decimal(len) + ")"@;
    assert(message.subrange(0, front.len() as int) =~= front);
    assert(message.subrange(message.len() - end.len(), message.len() as int) =~= end);
}

/// The contents of what was read, and of a list or an error, tell apart what differs in it.
pub proof fn contents_are_those_of_the_reads(
    reads: Seq<Result<String, Vec<String>>>,
    printed: String,
    chain: Vec<String>,
    list: Vec<String>,
    error: RestError,
)
    ensures
        read_content(Ok(printed)) == Ok::<Seq<char>, Seq<Seq<char>>>(printed@),
        read_content(Err(chain)) == Err::<Seq<char>, Seq<Seq<char>>>(texts(chain@)),
        read_contents(reads).len() == reads.len(),
        forall|i: int|
            0 <= i < reads.len() ==> #[trigger] read_contents(reads)[i] == read_content(reads[i]),
        texts_or_error(Ok(list)) == Ok::<Seq<Seq<char>>, RestErrorModel>(texts(list@)),
        texts_or_error(Err(error)) == Err::<Seq<Seq<char>>, RestErrorModel>(error@),
{
}

} // verus!
