//! What the routes answer, by what the ledger and the other parts of the node report.
use crate::rest::error::{
    error_in_context, error_with, in_context, outermost, shown, RestError, RestErrorModel, BAD_REQUEST,
    INTERNAL_SERVER_ERROR, NOT_FOUND, SERVICE_UNAVAILABLE, UNPROCESSABLE_ENTITY,
};
use crate::rest::requests::{
    is_missing_resource, map_missing_resource_error, missing_resource_error, names_missing_resource,
};
use crate::text::{a_text_occurs_where_it_stands, decimal, decimal_text, occurs, texts};
use vstd::prelude::*;

verus! {

/// A value that is answered as it stands, or with the height at which it was read.
#[derive(Debug, PartialEq, Eq)]
pub enum Answer<T> {
    Plain(T),
    AtHeight(T, u32),
}

/// Whether a flag of a query is set.
pub open spec fn is_set(flag: Option<bool>) -> bool {
    flag == Some(true)
}

/// Returns whether a flag of a query is set. One that is not given is not.
pub fn flag_is_set(flag: Option<bool>) -> (set: bool)
    ensures
        set == is_set(flag),
{
    match flag {
        Some(set) => set,
        None => false,
    }
}

/// Returns a value with the height at which it was read, if the metadata are asked for.
pub fn answer_at<T>(metadata: Option<bool>, data: T, height: u32) -> (answer: Answer<T>)
    ensures
        answer == (if is_set(metadata) {
            Answer::AtHeight(data, height)
        } else {
            Answer::Plain(data)
        }),
{
    if flag_is_set(metadata) {
        Answer::AtHeight(data, height)
    } else {
        Answer::Plain(data)
    }
}

/// Returns the error for a route that needs the consensus module, if the node has none.
pub fn require_consensus(has_consensus: bool) -> (result: Result<(), RestError>)
    ensures
        match result {
            Ok(()) => has_consensus,
            Err(error) => !has_consensus && error@ == error_with(
                SERVICE_UNAVAILABLE,
                "Route isn't available for this node type"@,
            ),
        },
{
    if has_consensus {
        Ok(())
    } else {
        Err(
            RestError::new(
                SERVICE_UNAVAILABLE,
                "Route isn't available for this node type".to_owned(),
            ),
        )
    }
}

/// Returns an error for a fault with a message in front of the one that led to it.
fn failed_with(prefix: &str, message: &str) -> (error: RestError)
    ensures
        error@ == error_with(INTERNAL_SERVER_ERROR, prefix@ + message@),
{
    let mut text = prefix.to_owned();
    text.append(message);
    RestError::new(INTERNAL_SERVER_ERROR, text)
}

/// How far the node has synced from a CDN.
#[derive(Clone, Copy, Debug, PartialEq, Eq, Structural)]
pub enum CdnSync {
    /// The node does not sync from a CDN.
    Unused,
    /// The node has synced from a CDN.
    Done,
    /// The node syncs from a CDN of the given height.
    Syncing(u32),
}

/// How a validator syncs.
#[derive(Clone, Copy, Debug, PartialEq, Eq, Structural)]
pub enum BftSyncMode {
    /// By fetching blocks, similar to how clients do.
    Fast,
    /// By syncing certificates.
    Dag,
}

/// The return value for a `sync_status` query, but for the sync speed.
#[derive(Clone, Copy, Debug)]
pub struct SyncStatus {
    /// Is this node fully synced with the network?
    pub is_synced: bool,
    /// The block height of this node.
    pub ledger_height: u32,
    /// Which way are we sync'ing (either "cdn" or "p2p")
    pub sync_mode: &'static str,
    /// Validators can either sync in "fast" mode, by fetching blocks similar to how clients do,
    /// or the can sync certificates in "dag" mode.
    pub bft_sync_mode: Option<&'static str>,
    /// The block height of the CDN (if connected to a CDN).
    pub cdn_height: Option<u32>,
    /// The greatest known block height of a peer.
    /// None, if no peers are connected yet.
    pub p2p_height: Option<u32>,
    /// The number of outstanding p2p sync requests.
    pub outstanding_block_requests: usize,
}

/// Returns the sync status of the node. While it syncs from a CDN it is not synced, whatever its
/// peers say.
pub fn get_sync_status(
    cdn: CdnSync,
    bft_sync_mode: Option<BftSyncMode>,
    is_block_synced: bool,
    ledger_height: u32,
    p2p_height: Option<u32>,
    outstanding_block_requests: usize,
) -> (status: SyncStatus)
    ensures
        status.sync_mode@ == (if cdn is Syncing {
            "cdn"@
        } else {
            "p2p"@
        }),
        status.cdn_height == (match cdn {
            CdnSync::Syncing(height) => Some(height),
            _ => None,
        }),
        match bft_sync_mode {
            Some(BftSyncMode::Fast) => status.bft_sync_mode matches Some(mode) && mode@ == "fast"@,
            Some(BftSyncMode::Dag) => status.bft_sync_mode matches Some(mode) && mode@ == "dag"@,
            None => status.bft_sync_mode is None,
        },
        status.is_synced == (is_block_synced && !(cdn is Syncing)),
        status.cdn_height is Some ==> !status.is_synced && status.sync_mode@ == "cdn"@,
        status.cdn_height is None ==> status.is_synced == is_block_synced && status.sync_mode@
            == "p2p"@,
        status.ledger_height == ledger_height,
        status.p2p_height == p2p_height,
        status.outstanding_block_requests == outstanding_block_requests,
{
    let (cdn_sync, cdn_height) = match cdn {
        CdnSync::Syncing(height) => (true, Some(height)),
        _ => (false, None),
    };
    let bft_sync_mode = match bft_sync_mode {
        Some(BftSyncMode::Fast) => Some("fast"),
        Some(BftSyncMode::Dag) => Some("dag"),
        None => None,
    };
    SyncStatus {
        is_synced: !cdn_sync && is_block_synced,
        ledger_height,
        sync_mode: if cdn_sync {
            "cdn"
        } else {
            "p2p"
        },
        bft_sync_mode,
        cdn_height,
        p2p_height,
        outstanding_block_requests,
    }
}

/// Returns where a transaction was confirmed, as far as it is known: what cannot be found is left
/// out of the answer.
pub fn known_location<H>(
    block_hash: Result<Option<H>, Vec<String>>,
    block_height: Option<Result<u32, Vec<String>>>,
) -> (location: (Option<H>, Option<u32>))
    ensures
        location.0 == (match block_hash {
            Ok(hash) => hash,
            Err(_) => None,
        }),
        location.1 == (match (location.0, block_height) {
            (Some(_), Some(Ok(height))) => Some(height),
            _ => None,
        }),
        location.1 is Some ==> location.0 is Some,
{
    let hash = match block_hash {
        Ok(hash) => hash,
        Err(_) => None,
    };
    let height: Option<u32> = match block_height {
        Some(Ok(height)) => if hash.is_some() {
            Some(height)
        } else {
            None
        },
        _ => None,
    };
    (hash, height)
}

/// Returns the hash of the block that confirmed a transaction, which must be there.
pub fn confirmed_block_hash<H>(tx_id: &str, block_hash: Result<Option<H>, Vec<String>>) -> (result:
    Result<H, RestError>)
    ensures
        match block_hash {
            Ok(Some(hash)) => result == Ok::<H, RestError>(hash),
            Ok(None) => result matches Err(error) && error@ == error_with(
                INTERNAL_SERVER_ERROR,
                "Block hash not found for transaction "@ + tx_id@,
            ),
            Err(chain) => result matches Err(error) && error@ == (RestErrorModel {
                status: INTERNAL_SERVER_ERROR,
                chain: texts(chain@),
            }),
        },
{
    match block_hash {
        Ok(Some(hash)) => Ok(hash),
        Ok(None) => Err(failed_with("Block hash not found for transaction ", tx_id)),
        Err(chain) => Err(RestError { status: INTERNAL_SERVER_ERROR, chain }),
    }
}

/// Under which ID the reason for rejecting a transaction is looked for. It is stored under the
/// confirmed transaction's, and a caller may give that or the unconfirmed transaction's.
#[derive(Clone, Copy, Debug, PartialEq, Eq, Structural)]
pub enum ReasonStage {
    /// The ID that the caller gave.
    Given,
    /// The ID of the unconfirmed transaction for it.
    Unconfirmed,
    /// The ID of the confirmed transaction for it.
    Confirmed,
}

/// What is done next to find the reason for rejecting a transaction.
#[derive(Debug)]
pub enum ReasonStep {
    /// Answer with the reason.
    Found(String),
    /// Look for the transaction whose ID is of the next stage.
    FindTransaction(ReasonStage),
    /// Look for a reason under the ID of the transaction that was found.
    ReadReason(ReasonStage),
    /// Answer that there is none.
    Missing(RestError),
}

/// The stage after a stage, if there is one.
pub open spec fn stage_after(stage: ReasonStage) -> Option<ReasonStage> {
    match stage {
        ReasonStage::Given => Some(ReasonStage::Unconfirmed),
        ReasonStage::Unconfirmed => Some(ReasonStage::Confirmed),
        ReasonStage::Confirmed => None,
    }
}

/// The error for a transaction without a reason.
pub open spec fn reason_not_found(tx_id: Seq<char>) -> RestErrorModel {
    error_with(NOT_FOUND, "Rejection reason not found for transaction "@ + tx_id)
}

/// Whether a step goes on from a stage at which nothing was found.
pub open spec fn goes_on(stage: ReasonStage, tx_id: Seq<char>, step: ReasonStep) -> bool {
    match stage_after(stage) {
        Some(next) => step == ReasonStep::FindTransaction(next),
        None => step matches ReasonStep::Missing(error) && error@ == reason_not_found(tx_id),
    }
}

/// Goes on from a stage at which nothing was found.
fn go_on(stage: ReasonStage, tx_id: &str) -> (step: ReasonStep)
    ensures
        goes_on(stage, tx_id@, step),
{
    match stage {
        ReasonStage::Given => ReasonStep::FindTransaction(ReasonStage::Unconfirmed),
        ReasonStage::Unconfirmed => ReasonStep::FindTransaction(ReasonStage::Confirmed),
        ReasonStage::Confirmed => {
            let mut message = "Rejection reason not found for transaction ".to_owned();
            message.append(tx_id);
            ReasonStep::Missing(RestError::new(NOT_FOUND, message))
        },
    }
}

/// Decides what is done when a reason was looked for at a stage.
pub fn after_reason(stage: ReasonStage, tx_id: &str, reason: Option<String>) -> (step: ReasonStep)
    ensures
        match reason {
            Some(reason) => step == ReasonStep::Found(reason),
            None => goes_on(stage, tx_id@, step),
        },
{
    match reason {
        Some(reason) => ReasonStep::Found(reason),
        None => go_on(stage, tx_id),
    }
}

/// Decides what is done when the transaction of a stage was looked for.
pub fn after_transaction(stage: ReasonStage, tx_id: &str, found: bool) -> (step: ReasonStep)
    ensures
        if found {
            step == ReasonStep::ReadReason(stage)
        } else {
            goes_on(stage, tx_id@, step)
        },
{
    if found {
        ReasonStep::ReadReason(stage)
    } else {
        go_on(stage, tx_id)
    }
}

/// Every ID is tried before the search is given up.
pub proof fn every_id_is_tried(stage: ReasonStage, tx_id: Seq<char>, step: ReasonStep)
    requires
        goes_on(stage, tx_id, step),
    ensures
        (step is Missing) == (stage is Confirmed),
        stage is Given ==> step == ReasonStep::FindTransaction(ReasonStage::Unconfirmed),
        stage is Unconfirmed ==> step == ReasonStep::FindTransaction(ReasonStage::Confirmed),
{
}

/// Returns the error for a program that could not be read from the ledger.
pub fn program_error(id: &str, chain: Vec<String>) -> (error: RestError)
    ensures
        error@ == missing_resource_error(
            seq!["Failed to find program `"@ + id@ + "`"@] + texts(chain@),
        ),
{
    let mut context = "Failed to find program `".to_owned();
    context.append(id);
    context.append("`");
    map_missing_resource_error(in_context(context, chain))
}

/// Whatever keeps a program from being read, it is not found.
pub proof fn an_unreadable_program_is_not_found(id: Seq<char>, chain: Seq<Seq<char>>)
    ensures
        missing_resource_error(seq!["Failed to find program `"@ + id + "`"@] + chain).status
            == NOT_FOUND,
{
    let context = "Failed to find program `"@ + id + "`"@;
    let full = seq![context] + chain;
    reveal_strlit("Failed to find program `");
    reveal_strlit("Failed to find");
    assert(context.subrange(0int, 0int + "Failed to find"@.len()) =~= "Failed to find"@);
    assert(occurs(context, "Failed to find"@));
    assert(full[0] == context);
    assert(names_missing_resource(full[0]));
    assert(is_missing_resource(full));
}

/// The program of an edition, or the error in its place.
pub open spec fn edition_answer<P>(
    id: Seq<char>,
    edition: u16,
    program: Result<Option<P>, Seq<Seq<char>>>,
) -> Result<P, RestErrorModel> {
    match program {
        Ok(Some(program)) => Ok(program),
        Ok(None) => Err(
            error_with(
                NOT_FOUND,
                "No program `"@ + id + "` exists for edition "@ + decimal(edition as nat),
            ),
        ),
        Err(chain) => Err(
            error_in_context(
                INTERNAL_SERVER_ERROR,
                "Failed get program `"@ + id + "` for edition "@ + decimal(edition as nat),
                chain,
            ),
        ),
    }
}

/// Returns the program of an edition, if the ledger has it.
pub fn program_for_edition<P>(
    id: &str,
    edition: u16,
    program: Result<Option<P>, Vec<String>>,
) -> (result: Result<P, RestError>)
    ensures
        ({
            let answer = edition_answer(
                id@,
                edition,
                match program {
                    Ok(program) => Ok(program),
                    Err(chain) => Err(texts(chain@)),
                },
            );
            match result {
                Ok(program) => answer == Ok::<P, RestErrorModel>(program),
                Err(error) => answer == Err::<P, RestErrorModel>(error@),
            }
        }),
{
    match program {
        Ok(Some(program)) => Ok(program),
        Ok(None) => {
            let mut message = "No program `".to_owned();
            message.append(id);
            message.append("` exists for edition ");
            message.append(decimal_text(edition as u64).as_str());
            Err(RestError::new(NOT_FOUND, message))
        },
        Err(chain) => {
            let mut context = "Failed get program `".to_owned();
            context.append(id);
            context.append("` for edition ");
            context.append(decimal_text(edition as u64).as_str());
            Err(RestError::with_context(INTERNAL_SERVER_ERROR, context, chain))
        },
    }
}

/// Returns the number of amendments of an edition. One without a count has none.
pub fn amendment_count(count: Option<u64>) -> (amendments: u64)
    ensures
        amendments == (match count {
            Some(count) => count,
            None => 0,
        }),
{
    match count {
        Some(count) => count,
        None => 0,
    }
}

/// Returns the committee whose participation is asked for, which must be there.
pub fn participation_committee<C>(round: u64, committee: Result<Option<C>, Vec<String>>) -> (result:
    Result<C, RestError>)
    ensures
        match committee {
            Ok(Some(committee)) => result == Ok::<C, RestError>(committee),
            Ok(None) => result matches Err(error) && error@ == error_with(
                NOT_FOUND,
                "No committee found for round "@ + decimal(round as nat),
            ),
            Err(chain) => result matches Err(error) && error@ == (RestErrorModel {
                status: INTERNAL_SERVER_ERROR,
                chain: texts(chain@),
            }),
        },
{
    match committee {
        Ok(Some(committee)) => Ok(committee),
        Ok(None) => {
            let mut message = "No committee found for round ".to_owned();
            message.append(decimal_text(round).as_str());
            Err(RestError::new(NOT_FOUND, message))
        },
        Err(chain) => Err(RestError { status: INTERNAL_SERVER_ERROR, chain }),
    }
}

/// Returns the error for a staking reward that could not be read.
pub fn staking_reward_error(address: &str, height: u32, chain: Vec<String>) -> (error: RestError)
    ensures
        error@ == error_in_context(
            NOT_FOUND,
            "Could not load the staking reward for "@ + address@ + " from block '"@ + decimal(
                height as nat,
            ) + "'"@,
            texts(chain@),
        ),
{
    let mut context = "Could not load the staking reward for ".to_owned();
    context.append(address);
    context.append(" from block '");
    context.append(decimal_text(height as u64).as_str());
    context.append("'");
    RestError::with_context(NOT_FOUND, context, chain)
}

/// Ensures that a request for the values of a mapping asks for all of them.
pub fn require_all(all: Option<bool>) -> (result: Result<(), RestError>)
    ensures
        match result {
            Ok(()) => is_set(all),
            Err(error) => !is_set(all) && error@ == error_with(
                BAD_REQUEST,
                "Invalid query parameter. At this time, 'all=true' must be included"@,
            ),
        },
{
    if flag_is_set(all) {
        Ok(())
    } else {
        Err(
            RestError::new(
                BAD_REQUEST,
                "Invalid query parameter. At this time, 'all=true' must be included".to_owned(),
            ),
        )
    }
}

/// Why a task gave no result.
#[derive(Debug)]
pub enum TaskError {
    /// What it ran has failed.
    Run(Vec<String>),
    /// It did not finish.
    Join(Vec<String>),
}

/// Returns the error for the values of a mapping that could not be read.
pub fn mapping_error(error: TaskError) -> (answer: RestError)
    ensures
        answer@ == (match error {
            TaskError::Run(chain) => error_in_context(
                INTERNAL_SERVER_ERROR,
                "Unable to read mapping"@,
                texts(chain@),
            ),
            TaskError::Join(chain) => error_with(
                INTERNAL_SERVER_ERROR,
                "Tokio error: "@ + shown(texts(chain@)),
            ),
        }),
{
    match error {
        TaskError::Run(chain) => RestError::with_context(
            INTERNAL_SERVER_ERROR,
            "Unable to read mapping".to_owned(),
            chain,
        ),
        TaskError::Join(chain) => failed_with("Tokio error: ", outermost(&chain).as_str()),
    }
}

/// Ensures that the node is close enough to the tip to answer for the delegators, to avoid sending
/// outdated data.
pub fn require_sync_leniency(is_within_sync_leniency: bool) -> (result: Result<(), RestError>)
    ensures
        match result {
            Ok(()) => is_within_sync_leniency,
            Err(error) => !is_within_sync_leniency && error@ == error_with(
                SERVICE_UNAVAILABLE,
                "Unable to request delegators (node is syncing)"@,
            ),
        },
{
    if is_within_sync_leniency {
        Ok(())
    } else {
        Err(
            RestError::new(
                SERVICE_UNAVAILABLE,
                "Unable to request delegators (node is syncing)".to_owned(),
            ),
        )
    }
}

/// Returns the error for delegators that could not be read.
pub fn delegators_error(error: TaskError) -> (answer: RestError)
    ensures
        answer@ == (match error {
            TaskError::Run(chain) => error_in_context(
                INTERNAL_SERVER_ERROR,
                "Unable to request delegators"@,
                texts(chain@),
            ),
            TaskError::Join(chain) => error_in_context(
                INTERNAL_SERVER_ERROR,
                "Tokio error"@,
                texts(chain@),
            ),
        }),
{
    match error {
        TaskError::Run(chain) => RestError::with_context(
            INTERNAL_SERVER_ERROR,
            "Unable to request delegators".to_owned(),
            chain,
        ),
        TaskError::Join(chain) => RestError::with_context(
            INTERNAL_SERVER_ERROR,
            "Tokio error".to_owned(),
            chain,
        ),
    }
}

/// Returns the number of blocks until the next epoch starts.
pub fn blocks_until_next_epoch(height: u32, num_blocks_per_epoch: u32) -> (blocks: u32)
    requires
        num_blocks_per_epoch > 0,
    ensures
        blocks == num_blocks_per_epoch - height % num_blocks_per_epoch,
        0 < blocks <= num_blocks_per_epoch,
        (height + blocks) % (num_blocks_per_epoch as int) == 0,
{
    proof {
        the_next_epoch_starts_at_a_multiple(height, num_blocks_per_epoch);
    }
    num_blocks_per_epoch - height % num_blocks_per_epoch
}

/// The next epoch starts after at least one block and at most a whole epoch, at a height that is a
/// multiple of an epoch.
pub proof fn the_next_epoch_starts_at_a_multiple(height: u32, num_blocks_per_epoch: u32)
    requires
        num_blocks_per_epoch > 0,
    ensures
        0 < num_blocks_per_epoch - height % num_blocks_per_epoch <= num_blocks_per_epoch,
        (height + (num_blocks_per_epoch - height % num_blocks_per_epoch)) % (
        num_blocks_per_epoch as int) == 0,
{
    let h = height as int;
    let n = num_blocks_per_epoch as int;
    vstd::arithmetic::div_mod::lemma_fundamental_div_mod(h, n);
    vstd::arithmetic::div_mod::lemma_mod_bound(h, n);
    assert(h + (n - h % n) == n * (h / n + 1)) by (nonlinear_arith)
        requires
            h == n * (h / n) + h % n,
    ;
    vstd::arithmetic::div_mod::lemma_mod_multiples_basic(h / n + 1, n);
    assert((n * (h / n + 1)) % n == 0) by (nonlinear_arith)
        requires
            ((h / n + 1) * n) % n == 0,
    ;
}

/// Returns the error for a request of which the body is not a list of inputs.
pub fn invalid_body(message: &str) -> (error: RestError)
    ensures
        error@ == error_with(UNPROCESSABLE_ENTITY, "Invalid request body: "@ + message@),
{
    let mut text = "Invalid request body: ".to_owned();
    text.append(message);
    RestError::new(UNPROCESSABLE_ENTITY, text)
}

/// Returns the timestamp with which a view is evaluated at a height: it is known to the program from
/// the height on at which the consensus version that introduced it starts.
pub fn view_timestamp(height: u32, timestamp_height: Option<u32>, timestamp: i64) -> (known: Option<
    i64,
>)
    ensures
        known == (if height >= (match timestamp_height {
            Some(start) => start,
            None => 0,
        }) {
            Some(timestamp)
        } else {
            None
        }),
        timestamp_height is None ==> known == Some(timestamp),
        timestamp_height matches Some(start) ==> (known is None <==> height < start),
{
    let start: u32 = match timestamp_height {
        Some(start) => start,
        None => 0,
    };
    if height >= start {
        Some(timestamp)
    } else {
        None
    }
}

/// Returns the error for a view that could not be evaluated at the latest height.
pub fn view_error(program_id: &str, view_name: &str, error: TaskError) -> (answer: RestError)
    ensures
        answer@ == (match error {
            TaskError::Run(chain) => error_in_context(
                BAD_REQUEST,
                "Failed to evaluate view '"@ + view_name@ + "' for '"@ + program_id@
                    + "' at the latest height"@,
                texts(chain@),
            ),
            TaskError::Join(chain) => error_with(
                INTERNAL_SERVER_ERROR,
                "Tokio error: "@ + shown(texts(chain@)),
            ),
        }),
{
    match error {
        TaskError::Run(chain) => {
            let mut context = "Failed to evaluate view '".to_owned();
            context.append(view_name);
            context.append("' for '");
            context.append(program_id);
            context.append("' at the latest height");
            RestError::with_context(BAD_REQUEST, context, chain)
        },
        TaskError::Join(chain) => failed_with("Tokio error: ", outermost(&chain).as_str()),
    }
}

/// A flag is set only if it is given and true.
pub proof fn a_flag_is_set_only_if_it_is_given()
    ensures
        is_set(Some(true)),
        !is_set(Some(false)),
        !is_set(None),
{
}

/// The reason for rejecting a transaction is looked for under the ID that was given, then under that
/// of the unconfirmed transaction, then under that of the confirmed one. A transaction without a
/// reason is not found, by its ID.
pub proof fn the_reason_is_looked_for_in_order(tx_id: Seq<char>)
    ensures
        stage_after(ReasonStage::Given) == Some(ReasonStage::Unconfirmed),
        stage_after(ReasonStage::Unconfirmed) == Some(ReasonStage::Confirmed),
        stage_after(ReasonStage::Confirmed) is None,
        reason_not_found(tx_id).status == 404,
        reason_not_found(tx_id).chain.len() == 1,
        tx_id.is_suffix_of(reason_not_found(tx_id).chain[0]),
{
    let message = "Rejection reason not found for transaction "@ + tx_id;
    assert(message.subrange(message.len() - tx_id.len(), message.len() as int) =~= tx_id);
}

/// The program of an edition is answered as it is. An edition without one is not found; a lookup that
/// failed is a fault, and keeps its chain. Both name the program and the edition.
pub proof fn a_program_is_answered_for_its_edition<P>(
    id: Seq<char>,
    edition: u16,
    program: P,
    chain: Seq<Seq<char>>,
)
    ensures
        edition_answer(id, edition, Ok(Some(program))) == Ok::<P, RestErrorModel>(program),
        edition_answer::<P>(id, edition, Ok(None)) matches Err(error) && error.status == 404
            && error.chain.len() == 1 && (" for edition "@ + decimal(
            edition as nat,
        )).is_suffix_of(error.chain[0]) && occurs(error.chain[0], "`"@ + id + "`"@),
        edition_answer::<P>(id, edition, Err(chain)) matches Err(error) && error.status == 500
            && error.chain.len() == chain.len() + 1 && error.chain.skip(1) == chain && (
        " for edition "@ + decimal(edition as nat)).is_suffix_of(error.chain[0]) && occurs(
            error.chain[0],
            "`"@ + id + "`"@,
        ),
{
    reveal_strlit("`");
    reveal_strlit("No program ");
    reveal_strlit("No program `");
    reveal_strlit("Failed get program ");
    reveal_strlit("Failed get program `");
    reveal_strlit("` exists for edition ");
    reveal_strlit(" exists for edition ");
    reveal_strlit("` for edition ");
    reveal_strlit(" for edition ");
    let number = decimal(edition as nat);
    let quoted = "`"@ + id + "`"@;
    let end = " for edition "@ + number;
    let absent = "No program `"@ + id + "` exists for edition "@ + number;
    let failed = "Failed get program `"@ + id + "` for edition "@ + number;
    assert(absent =~= "No program "@ + quoted + (" exists for edition "@ + number));
    assert(failed =~= "Failed get program "@ + quoted + end);
    a_text_occurs_where_it_stands("No program "@, quoted, " exists for edition "@ + number);
    a_text_occurs_where_it_stands("Failed get program "@, quoted, end);
    assert(absent.subrange(absent.len() - end.len(), absent.len() as int) =~= end);
    assert(failed.subrange(failed.len() - end.len(), failed.len() as int) =~= end);
    assert(edition_answer::<P>(id, edition, Err(chain))->Err_0.chain.skip(1) =~= chain);
}

} // verus!
