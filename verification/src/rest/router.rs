//! The routes of the REST API.
use crate::network::NetworkParameters;
use crate::rest::error::{INTERNAL_SERVER_ERROR, TOO_MANY_REQUESTS};
use vstd::prelude::*;

verus! {

/// The default port used for the REST API
pub const DEFAULT_REST_PORT: u16 = 3030;

/// The prefix of the first version of the API.
pub const API_VERSION_V1: &'static str = "v1";

/// The prefix of the second version of the API.
pub const API_VERSION_V2: &'static str = "v2";

/// The method of a request.
#[derive(Copy, Clone, Debug, PartialEq, Eq, Structural)]
pub enum Method {
    Get,
    Post,
}

/// What serves the requests to a route.
#[derive(Copy, Clone, Debug, PartialEq, Eq, Structural)]
pub enum Handler {
    GetNodeAddress,
    GetMappingValues,
    DbBackup,
    GetConsensusVersion,
    GetBlockHeightLatest,
    GetBlockHashLatest,
    GetBlockLatest,
    GetBlock,
    GetBlockHeader,
    GetBlockTransactions,
    GetTransaction,
    GetConfirmedTransaction,
    GetUnconfirmedTransaction,
    GetTransactionRejectionReason,
    TransactionBroadcast,
    GetSolutionLimitsForProver,
    SolutionBroadcast,
    FindBlockHash,
    FindBlockHeightFromStateRoot,
    FindLatestTransactionIdFromProgramId,
    FindLatestTransactionIdFromProgramIdAndEdition,
    FindOriginalDeploymentTransactionId,
    FindTransactionIdFromProgramIdEditionAndAmendment,
    FindTransactionIdFromTransitionId,
    FindTransitionId,
    GetPeersCount,
    GetPeersAll,
    GetPeersAllMetrics,
    GetProgram,
    GetLatestProgramEdition,
    GetProgramForEdition,
    GetMappingNames,
    GetMappingValue,
    GetProgramAmendmentCount,
    GetProgramAmendmentCountForEdition,
    GetSyncStatus,
    GetSyncPeers,
    GetSyncRequestsSummary,
    GetSyncRequestsList,
    GetVersion,
    GetBlocks,
    GetBlockHashes,
    GetBlockHeaders,
    GetBlockStateRoots,
    GetBlockTransactionsRange,
    GetHeight,
    GetMemoryPoolTransmissions,
    GetMemoryPoolSolutions,
    GetMemoryPoolTransactions,
    GetStatePathForCommitment,
    GetStatePathsForCommitments,
    GetStateRootLatest,
    GetStateRoot,
    GetCommitteeLatest,
    GetCommittee,
    GetDelegatorsForValidator,
    GetBftConnectionsCount,
    GetBftConnectionsAll,
    GetValidatorParticipationScores,
    EvaluateViewLatest,
    GetHistoryCompat,
    GetHistoryBatchCompat,
    EvaluateViewAtHeightCompat,
    GetStakingRewardCompat,
    GetStakingReward,
}

/// A route: the requests with a method to a path, and what serves them.
#[derive(Copy, Clone, Debug)]
pub struct Route {
    pub path: &'static str,
    pub method: Method,
    pub handler: Handler,
    /// Whether the requests need authentication.
    pub authenticated: bool,
}

/// What a node has, as far as its routes depend on it.
#[derive(Copy, Clone, Debug, PartialEq, Eq, Structural)]
pub struct RouteOptions {
    /// Whether the node is a validator.
    pub consensus: bool,
    /// Whether the node measures the participation of validators.
    pub metrics: bool,
    /// Whether the node serves history from an upstream.
    pub history_compat: bool,
    /// Whether the node records staking rewards.
    pub history_staking_rewards: bool,
}

/// A route whose requests need no authentication.
pub open spec fn open_route(path: &'static str, method: Method, handler: Handler) -> Route {
    Route { path, method, handler, authenticated: false }
}

/// A route whose requests need authentication.
pub open spec fn protected_route(path: &'static str, method: Method, handler: Handler) -> Route {
    Route { path, method, handler, authenticated: true }
}

fn open(path: &'static str, method: Method, handler: Handler) -> (route: Route)
    ensures
        route == open_route(path, method, handler),
{
    Route { path, method, handler, authenticated: false }
}

fn protected(path: &'static str, method: Method, handler: Handler) -> (route: Route)
    ensures
        route == protected_route(path, method, handler),
{
    Route { path, method, handler, authenticated: true }
}

/// The routes that need authentication.
pub open spec fn auth_routes() -> Seq<Route> {
    seq![
        protected_route("/node/address", Method::Get, Handler::GetNodeAddress),
        protected_route("/program/{id}/mapping/{name}", Method::Get, Handler::GetMappingValues),
        protected_route("/db_backup", Method::Post, Handler::DbBackup),
    ]
}

fn add_auth_routes(routes: &mut Vec<Route>)
    ensures
        final(routes)@ == old(routes)@ + auth_routes(),
{
    routes.push(protected("/node/address", Method::Get, Handler::GetNodeAddress));
    routes.push(protected("/program/{id}/mapping/{name}", Method::Get, Handler::GetMappingValues));
    routes.push(protected("/db_backup", Method::Post, Handler::DbBackup));
    assert(routes@ =~= old(routes)@ + auth_routes());
}

/// The routes of blocks and of the consensus version.
pub open spec fn blocks_routes() -> Seq<Route> {
    seq![
        open_route("/consensus_version", Method::Get, Handler::GetConsensusVersion),
        open_route("/block/height/latest", Method::Get, Handler::GetBlockHeightLatest),
        open_route("/block/hash/latest", Method::Get, Handler::GetBlockHashLatest),
        open_route("/block/latest", Method::Get, Handler::GetBlockLatest),
        open_route("/block/{height_or_hash}", Method::Get, Handler::GetBlock),
        open_route("/block/{height_or_hash}/header", Method::Get, Handler::GetBlockHeader),
        open_route("/block/{height_or_hash}/transactions", Method::Get, Handler::GetBlockTransactions),
    ]
}

fn add_blocks_routes(routes: &mut Vec<Route>)
    ensures
        final(routes)@ == old(routes)@ + blocks_routes(),
{
    routes.push(open("/consensus_version", Method::Get, Handler::GetConsensusVersion));
    routes.push(open("/block/height/latest", Method::Get, Handler::GetBlockHeightLatest));
    routes.push(open("/block/hash/latest", Method::Get, Handler::GetBlockHashLatest));
    routes.push(open("/block/latest", Method::Get, Handler::GetBlockLatest));
    routes.push(open("/block/{height_or_hash}", Method::Get, Handler::GetBlock));
    routes.push(open("/block/{height_or_hash}/header", Method::Get, Handler::GetBlockHeader));
    routes.push(open("/block/{height_or_hash}/transactions", Method::Get, Handler::GetBlockTransactions));
    assert(routes@ =~= old(routes)@ + blocks_routes());
}

/// The routes of transactions and solutions.
pub open spec fn transactions_routes() -> Seq<Route> {
    seq![
        open_route("/transaction/{id}", Method::Get, Handler::GetTransaction),
        open_route("/transaction/confirmed/{id}", Method::Get, Handler::GetConfirmedTransaction),
        open_route("/transaction/unconfirmed/{id}", Method::Get, Handler::GetUnconfirmedTransaction),
        open_route("/transaction/rejected/{id}/reason", Method::Get, Handler::GetTransactionRejectionReason),
        open_route("/transaction/broadcast", Method::Post, Handler::TransactionBroadcast),
        open_route("/solution/limits/{prover_address}", Method::Get, Handler::GetSolutionLimitsForProver),
        open_route("/solution/broadcast", Method::Post, Handler::SolutionBroadcast),
    ]
}

fn add_transactions_routes(routes: &mut Vec<Route>)
    ensures
        final(routes)@ == old(routes)@ + transactions_routes(),
{
    routes.push(open("/transaction/{id}", Method::Get, Handler::GetTransaction));
    routes.push(open("/transaction/confirmed/{id}", Method::Get, Handler::GetConfirmedTransaction));
    routes.push(open("/transaction/unconfirmed/{id}", Method::Get, Handler::GetUnconfirmedTransaction));
    routes.push(open("/transaction/rejected/{id}/reason", Method::Get, Handler::GetTransactionRejectionReason));
    routes.push(open("/transaction/broadcast", Method::Post, Handler::TransactionBroadcast));
    routes.push(open("/solution/limits/{prover_address}", Method::Get, Handler::GetSolutionLimitsForProver));
    routes.push(open("/solution/broadcast", Method::Post, Handler::SolutionBroadcast));
    assert(routes@ =~= old(routes)@ + transactions_routes());
}

/// The routes of lookups.
pub open spec fn find_routes() -> Seq<Route> {
    seq![
        open_route("/find/blockHash/{tx_id}", Method::Get, Handler::FindBlockHash),
        open_route("/find/blockHeight/{state_root}", Method::Get, Handler::FindBlockHeightFromStateRoot),
        open_route("/find/transactionID/deployment/{program_id}", Method::Get, Handler::FindLatestTransactionIdFromProgramId),
        open_route("/find/transactionID/deployment/{program_id}/{edition}", Method::Get, Handler::FindLatestTransactionIdFromProgramIdAndEdition),
        open_route("/find/transactionID/deployment/{program_id}/{edition}/original", Method::Get, Handler::FindOriginalDeploymentTransactionId),
        open_route("/find/transactionID/deployment/{program_id}/{edition}/{amendment}", Method::Get, Handler::FindTransactionIdFromProgramIdEditionAndAmendment),
        open_route("/find/transactionID/{transition_id}", Method::Get, Handler::FindTransactionIdFromTransitionId),
        open_route("/find/transitionID/{input_or_output_id}", Method::Get, Handler::FindTransitionId),
    ]
}

fn add_find_routes(routes: &mut Vec<Route>)
    ensures
        final(routes)@ == old(routes)@ + find_routes(),
{
    routes.push(open("/find/blockHash/{tx_id}", Method::Get, Handler::FindBlockHash));
    routes.push(open("/find/blockHeight/{state_root}", Method::Get, Handler::FindBlockHeightFromStateRoot));
    routes.push(open("/find/transactionID/deployment/{program_id}", Method::Get, Handler::FindLatestTransactionIdFromProgramId));
    routes.push(open("/find/transactionID/deployment/{program_id}/{edition}", Method::Get, Handler::FindLatestTransactionIdFromProgramIdAndEdition));
    routes.push(open("/find/transactionID/deployment/{program_id}/{edition}/original", Method::Get, Handler::FindOriginalDeploymentTransactionId));
    routes.push(open("/find/transactionID/deployment/{program_id}/{edition}/{amendment}", Method::Get, Handler::FindTransactionIdFromProgramIdEditionAndAmendment));
    routes.push(open("/find/transactionID/{transition_id}", Method::Get, Handler::FindTransactionIdFromTransitionId));
    routes.push(open("/find/transitionID/{input_or_output_id}", Method::Get, Handler::FindTransitionId));
    assert(routes@ =~= old(routes)@ + find_routes());
}

/// The routes of peers.
pub open spec fn peers_routes() -> Seq<Route> {
    seq![
        open_route("/peers/count", Method::Get, Handler::GetPeersCount),
        open_route("/peers/all", Method::Get, Handler::GetPeersAll),
        open_route("/peers/all/metrics", Method::Get, Handler::GetPeersAllMetrics),
        open_route("/connections/p2p/count", Method::Get, Handler::GetPeersCount),
        open_route("/connections/p2p/all", Method::Get, Handler::GetPeersAll),
        open_route("/connections/p2p/all/metrics", Method::Get, Handler::GetPeersAllMetrics),
    ]
}

fn add_peers_routes(routes: &mut Vec<Route>)
    ensures
        final(routes)@ == old(routes)@ + peers_routes(),
{
    routes.push(open("/peers/count", Method::Get, Handler::GetPeersCount));
    routes.push(open("/peers/all", Method::Get, Handler::GetPeersAll));
    routes.push(open("/peers/all/metrics", Method::Get, Handler::GetPeersAllMetrics));
    routes.push(open("/connections/p2p/count", Method::Get, Handler::GetPeersCount));
    routes.push(open("/connections/p2p/all", Method::Get, Handler::GetPeersAll));
    routes.push(open("/connections/p2p/all/metrics", Method::Get, Handler::GetPeersAllMetrics));
    assert(routes@ =~= old(routes)@ + peers_routes());
}

/// The routes of programs.
pub open spec fn programs_routes() -> Seq<Route> {
    seq![
        open_route("/program/{id}", Method::Get, Handler::GetProgram),
        open_route("/program/{id}/latest_edition", Method::Get, Handler::GetLatestProgramEdition),
        open_route("/program/{id}/{edition}", Method::Get, Handler::GetProgramForEdition),
        open_route("/program/{id}/mappings", Method::Get, Handler::GetMappingNames),
        open_route("/program/{id}/mapping/{name}/{key}", Method::Get, Handler::GetMappingValue),
        open_route("/program/{id}/amendment_count", Method::Get, Handler::GetProgramAmendmentCount),
        open_route("/program/{id}/{edition}/amendment_count", Method::Get, Handler::GetProgramAmendmentCountForEdition),
    ]
}

fn add_programs_routes(routes: &mut Vec<Route>)
    ensures
        final(routes)@ == old(routes)@ + programs_routes(),
{
    routes.push(open("/program/{id}", Method::Get, Handler::GetProgram));
    routes.push(open("/program/{id}/latest_edition", Method::Get, Handler::GetLatestProgramEdition));
    routes.push(open("/program/{id}/{edition}", Method::Get, Handler::GetProgramForEdition));
    routes.push(open("/program/{id}/mappings", Method::Get, Handler::GetMappingNames));
    routes.push(open("/program/{id}/mapping/{name}/{key}", Method::Get, Handler::GetMappingValue));
    routes.push(open("/program/{id}/amendment_count", Method::Get, Handler::GetProgramAmendmentCount));
    routes.push(open("/program/{id}/{edition}/amendment_count", Method::Get, Handler::GetProgramAmendmentCountForEdition));
    assert(routes@ =~= old(routes)@ + programs_routes());
}

/// The routes of the state of the sync.
pub open spec fn sync_routes() -> Seq<Route> {
    seq![
        open_route("/sync_status", Method::Get, Handler::GetSyncStatus),
        open_route("/sync/status", Method::Get, Handler::GetSyncStatus),
        open_route("/sync/peers", Method::Get, Handler::GetSyncPeers),
        open_route("/sync/requests", Method::Get, Handler::GetSyncRequestsSummary),
        open_route("/sync/requests/list", Method::Get, Handler::GetSyncRequestsList),
    ]
}

fn add_sync_routes(routes: &mut Vec<Route>)
    ensures
        final(routes)@ == old(routes)@ + sync_routes(),
{
    routes.push(open("/sync_status", Method::Get, Handler::GetSyncStatus));
    routes.push(open("/sync/status", Method::Get, Handler::GetSyncStatus));
    routes.push(open("/sync/peers", Method::Get, Handler::GetSyncPeers));
    routes.push(open("/sync/requests", Method::Get, Handler::GetSyncRequestsSummary));
    routes.push(open("/sync/requests/list", Method::Get, Handler::GetSyncRequestsList));
    assert(routes@ =~= old(routes)@ + sync_routes());
}

/// The routes of ranges of blocks, the memory pool, state, and committees.
pub open spec fn misc_routes() -> Seq<Route> {
    seq![
        open_route("/version", Method::Get, Handler::GetVersion),
        open_route("/blocks", Method::Get, Handler::GetBlocks),
        open_route("/blocks/hashes", Method::Get, Handler::GetBlockHashes),
        open_route("/blocks/headers", Method::Get, Handler::GetBlockHeaders),
        open_route("/blocks/stateRoots", Method::Get, Handler::GetBlockStateRoots),
        open_route("/blocks/transactions", Method::Get, Handler::GetBlockTransactionsRange),
        open_route("/height/{hash}", Method::Get, Handler::GetHeight),
        open_route("/memoryPool/transmissions", Method::Get, Handler::GetMemoryPoolTransmissions),
        open_route("/memoryPool/solutions", Method::Get, Handler::GetMemoryPoolSolutions),
        open_route("/memoryPool/transactions", Method::Get, Handler::GetMemoryPoolTransactions),
        open_route("/statePath/{commitment}", Method::Get, Handler::GetStatePathForCommitment),
        open_route("/statePaths", Method::Get, Handler::GetStatePathsForCommitments),
        open_route("/stateRoot/latest", Method::Get, Handler::GetStateRootLatest),
        open_route("/stateRoot/{height}", Method::Get, Handler::GetStateRoot),
        open_route("/committee/latest", Method::Get, Handler::GetCommitteeLatest),
        open_route("/committee/{height}", Method::Get, Handler::GetCommittee),
        open_route("/delegators/{validator}", Method::Get, Handler::GetDelegatorsForValidator),
    ]
}

fn add_misc_routes(routes: &mut Vec<Route>)
    ensures
        final(routes)@ == old(routes)@ + misc_routes(),
{
    routes.push(open("/version", Method::Get, Handler::GetVersion));
    routes.push(open("/blocks", Method::Get, Handler::GetBlocks));
    routes.push(open("/blocks/hashes", Method::Get, Handler::GetBlockHashes));
    routes.push(open("/blocks/headers", Method::Get, Handler::GetBlockHeaders));
    routes.push(open("/blocks/stateRoots", Method::Get, Handler::GetBlockStateRoots));
    routes.push(open("/blocks/transactions", Method::Get, Handler::GetBlockTransactionsRange));
    routes.push(open("/height/{hash}", Method::Get, Handler::GetHeight));
    routes.push(open("/memoryPool/transmissions", Method::Get, Handler::GetMemoryPoolTransmissions));
    routes.push(open("/memoryPool/solutions", Method::Get, Handler::GetMemoryPoolSolutions));
    routes.push(open("/memoryPool/transactions", Method::Get, Handler::GetMemoryPoolTransactions));
    routes.push(open("/statePath/{commitment}", Method::Get, Handler::GetStatePathForCommitment));
    routes.push(open("/statePaths", Method::Get, Handler::GetStatePathsForCommitments));
    routes.push(open("/stateRoot/latest", Method::Get, Handler::GetStateRootLatest));
    routes.push(open("/stateRoot/{height}", Method::Get, Handler::GetStateRoot));
    routes.push(open("/committee/latest", Method::Get, Handler::GetCommitteeLatest));
    routes.push(open("/committee/{height}", Method::Get, Handler::GetCommittee));
    routes.push(open("/delegators/{validator}", Method::Get, Handler::GetDelegatorsForValidator));
    assert(routes@ =~= old(routes)@ + misc_routes());
}

/// The routes of the connections among validators.
pub open spec fn bft_routes() -> Seq<Route> {
    seq![
        open_route("/connections/bft/count", Method::Get, Handler::GetBftConnectionsCount),
        open_route("/connections/bft/all", Method::Get, Handler::GetBftConnectionsAll),
    ]
}

fn add_bft_routes(routes: &mut Vec<Route>)
    ensures
        final(routes)@ == old(routes)@ + bft_routes(),
{
    routes.push(open("/connections/bft/count", Method::Get, Handler::GetBftConnectionsCount));
    routes.push(open("/connections/bft/all", Method::Get, Handler::GetBftConnectionsAll));
    assert(routes@ =~= old(routes)@ + bft_routes());
}

/// The routes of the participation of validators.
pub open spec fn telemetry_routes() -> Seq<Route> {
    seq![
        open_route("/validators/participation", Method::Get, Handler::GetValidatorParticipationScores),
    ]
}

fn add_telemetry_routes(routes: &mut Vec<Route>)
    ensures
        final(routes)@ == old(routes)@ + telemetry_routes(),
{
    routes.push(open("/validators/participation", Method::Get, Handler::GetValidatorParticipationScores));
    assert(routes@ =~= old(routes)@ + telemetry_routes());
}

/// The routes of view functions at the latest height.
pub open spec fn view_routes() -> Seq<Route> {
    seq![
        open_route("/program/{id}/view/{function}", Method::Post, Handler::EvaluateViewLatest),
    ]
}

fn add_view_routes(routes: &mut Vec<Route>)
    ensures
        final(routes)@ == old(routes)@ + view_routes(),
{
    routes.push(open("/program/{id}/view/{function}", Method::Post, Handler::EvaluateViewLatest));
    assert(routes@ =~= old(routes)@ + view_routes());
}

/// The routes of history compatibility mode.
pub open spec fn history_routes() -> Seq<Route> {
    seq![
        open_route("/program/{id}/mapping/{name}/{key}/history/{height}", Method::Get, Handler::GetHistoryCompat),
        open_route("/program/{id}/mapping/{name}/history/{height}", Method::Get, Handler::GetHistoryBatchCompat),
        open_route("/program/{id}/view/{function}/{height}", Method::Post, Handler::EvaluateViewAtHeightCompat),
        open_route("/staking/rewards/{address}/{height}", Method::Get, Handler::GetStakingRewardCompat),
    ]
}

fn add_history_routes(routes: &mut Vec<Route>)
    ensures
        final(routes)@ == old(routes)@ + history_routes(),
{
    routes.push(open("/program/{id}/mapping/{name}/{key}/history/{height}", Method::Get, Handler::GetHistoryCompat));
    routes.push(open("/program/{id}/mapping/{name}/history/{height}", Method::Get, Handler::GetHistoryBatchCompat));
    routes.push(open("/program/{id}/view/{function}/{height}", Method::Post, Handler::EvaluateViewAtHeightCompat));
    routes.push(open("/staking/rewards/{address}/{height}", Method::Get, Handler::GetStakingRewardCompat));
    assert(routes@ =~= old(routes)@ + history_routes());
}

/// The routes of staking rewards.
pub open spec fn staking_routes() -> Seq<Route> {
    seq![
        open_route("/staking/rewards/{address}/{height}", Method::Get, Handler::GetStakingReward),
    ]
}

fn add_staking_routes(routes: &mut Vec<Route>)
    ensures
        final(routes)@ == old(routes)@ + staking_routes(),
{
    routes.push(open("/staking/rewards/{address}/{height}", Method::Get, Handler::GetStakingReward));
    assert(routes@ =~= old(routes)@ + staking_routes());
}

/// The routes that every node has.
pub open spec fn common_routes() -> Seq<Route> {
    auth_routes() + blocks_routes() + transactions_routes() + find_routes() + peers_routes()
        + programs_routes() + sync_routes() + misc_routes()
}

/// The routes that a node has for the sake of what it is.
pub open spec fn optional_routes(options: RouteOptions) -> Seq<Route> {
    (if options.consensus {
        bft_routes()
    } else {
        Seq::empty()
    }) + (if options.consensus && options.metrics {
        telemetry_routes()
    } else {
        Seq::empty()
    }) + view_routes() + (if options.history_compat {
        history_routes()
    } else if options.history_staking_rewards {
        staking_routes()
    } else {
        Seq::empty()
    })
}

/// The routes of a node.
pub open spec fn all_routes(options: RouteOptions) -> Seq<Route> {
    common_routes() + optional_routes(options)
}

/// Returns the routes of a node.
pub fn build_routes(options: RouteOptions) -> (routes: Vec<Route>)
    ensures
        routes@ == all_routes(options),
{
    let mut routes: Vec<Route> = Vec::new();
    add_auth_routes(&mut routes);
    // All routes added after here are not protected.
    add_blocks_routes(&mut routes);
    add_transactions_routes(&mut routes);
    add_find_routes(&mut routes);
    add_peers_routes(&mut routes);
    add_programs_routes(&mut routes);
    add_sync_routes(&mut routes);
    add_misc_routes(&mut routes);
    assert(routes@ =~= common_routes());
    let ghost common = routes@;
    // If the node is a validator, enable the BFT connections endpoints.
    if options.consensus {
        add_bft_routes(&mut routes);
        if options.metrics {
            add_telemetry_routes(&mut routes);
        }
    }
    // The view-at-latest-height endpoint is always available, no history required.
    add_view_routes(&mut routes);
    // In history compatibility mode, serve the routes of the history from the upstream, and the
    // staking rewards with them.
    if options.history_compat {
        add_history_routes(&mut routes);
    } else if options.history_staking_rewards {
        add_staking_routes(&mut routes);
    }
    assert(routes@ =~= common + optional_routes(options));
    routes
}

/// Where the routes of a node are served.
#[derive(Debug)]
pub struct Mount {
    /// The prefix of the paths.
    pub prefix: String,
    /// Whether errors are answered in the style of the v1 API.
    pub v1_errors: bool,
    /// The routes.
    pub routes: Vec<Route>,
}

impl Mount {
    /// Whether the routes are served under a prefix, with or without errors in the style of the v1
    /// API.
    pub open spec fn serves(self, prefix: Seq<char>, v1_errors: bool, routes: Seq<Route>) -> bool {
        &&& self.prefix@ == prefix
        &&& self.v1_errors == v1_errors
        &&& self.routes@ == routes
    }
}

/// Returns where the routes of a node are served: under the default, `/v1` and `/v2` prefixes, with
/// errors in the style of the v1 API under the first two.
pub fn build_versioned_router(options: RouteOptions, network: &NetworkParameters) -> (mounts: Vec<
    Mount,
>)
    ensures
        mounts.len() == 3,
        mounts[0].serves("/"@ + network.short_name@, true, all_routes(options)),
        mounts[1].serves(
            "/"@ + API_VERSION_V1@ + "/"@ + network.short_name@,
            true,
            all_routes(options),
        ),
        mounts[2].serves(
            "/"@ + API_VERSION_V2@ + "/"@ + network.short_name@,
            false,
            all_routes(options),
        ),
        mounts[0].prefix@ == "/"@ + network.short_name@,
        mounts[1].prefix@ == "/"@ + "v1"@ + "/"@ + network.short_name@,
        mounts[2].prefix@ == "/"@ + "v2"@ + "/"@ + network.short_name@,
        mounts[0].v1_errors && mounts[1].v1_errors && !mounts[2].v1_errors,
        forall|i: int| 0 <= i < 3 ==> (#[trigger] mounts[i]).routes@ == all_routes(options),
{
    // Add the v1 API as default and under "/v1".
    let mut default_prefix = "/".to_owned();
    default_prefix.append(network.short_name.as_str());
    let mut v1_prefix = "/".to_owned();
    v1_prefix.append(API_VERSION_V1);
    v1_prefix.append("/");
    v1_prefix.append(network.short_name.as_str());
    // Add the v2 API under "/v2".
    let mut v2_prefix = "/".to_owned();
    v2_prefix.append(API_VERSION_V2);
    v2_prefix.append("/");
    v2_prefix.append(network.short_name.as_str());
    let mut mounts: Vec<Mount> = Vec::new();
    mounts.push(
        Mount { prefix: default_prefix, v1_errors: true, routes: build_routes(options) },
    );
    mounts.push(Mount { prefix: v1_prefix, v1_errors: true, routes: build_routes(options) });
    mounts.push(Mount { prefix: v2_prefix, v1_errors: false, routes: build_routes(options) });
    mounts
}

/// The number of nanoseconds in a second.
pub const NANOS_PER_SEC: u32 = 1_000_000_000;

/// How often a client may send requests.
#[derive(Copy, Clone, Debug, PartialEq, Eq, Structural)]
pub struct RateLimit {
    /// The time after which another request is admitted, in nanoseconds.
    pub per_nanosecond: u64,
    /// The number of requests that are admitted at once.
    pub burst_size: u32,
}

/// Returns the rate limit for the given number of requests per second.
pub fn rate_limit(rest_rps: u32) -> (limit: RateLimit)
    requires
        0 < rest_rps <= NANOS_PER_SEC,
    ensures
        limit.per_nanosecond == NANOS_PER_SEC / rest_rps,
        limit.per_nanosecond > 0,
        limit.per_nanosecond * rest_rps <= 1_000_000_000 < (limit.per_nanosecond + 1) * rest_rps,
        limit.burst_size == rest_rps,
{
    let period: u32 = NANOS_PER_SEC / rest_rps;
    assert(period > 0) by {
        assert(NANOS_PER_SEC as int / rest_rps as int >= 1) by (nonlinear_arith)
            requires
                0 < rest_rps <= NANOS_PER_SEC,
        ;
    }
    assert(period * rest_rps <= 1_000_000_000 < (period + 1) * rest_rps) by (nonlinear_arith)
        requires
            period == 1_000_000_000u32 / rest_rps,
            rest_rps > 0,
    ;
    RateLimit { per_nanosecond: period as u64, burst_size: rest_rps }
}

/// Returns the status of a request that the rate limiter does not let through, because there were
/// too many or for another reason.
pub fn rate_limit_status(too_many_requests: bool) -> (status: u16)
    ensures
        status == (if too_many_requests {
            TOO_MANY_REQUESTS
        } else {
            INTERNAL_SERVER_ERROR
        }),
{
    if too_many_requests {
        TOO_MANY_REQUESTS
    } else {
        INTERNAL_SERVER_ERROR
    }
}

/// Returns the size of the largest request body. JSON encodings of transactions can exceed the
/// binary size, so this is twice the size of the largest transaction.
pub fn body_limit(network: &NetworkParameters) -> (limit: usize)
    requires
        network.max_transaction_size <= usize::MAX / 2,
    ensures
        limit == 2 * network.max_transaction_size,
{
    2 * network.max_transaction_size
}

/// Exactly the protected routes need authentication.
pub proof fn only_the_protected_routes_need_authentication(options: RouteOptions, route: Route)
    ensures
        all_routes(options).contains(route) && route.authenticated <==> auth_routes().contains(
            route,
        ),
{
    let all = all_routes(options);
    let auth = auth_routes();
    let tail = blocks_routes() + transactions_routes() + find_routes() + peers_routes()
        + programs_routes() + sync_routes() + misc_routes() + optional_routes(options);
    assert(all =~= auth + tail);
    assert(all_open(tail)) by {
        assert(all_open(blocks_routes()));
        assert(all_open(transactions_routes()));
        assert(all_open(find_routes()));
        assert(all_open(peers_routes()));
        assert(all_open(programs_routes()));
        assert(all_open(sync_routes()));
        assert(all_open(misc_routes()));
        assert(all_open(bft_routes()));
        assert(all_open(telemetry_routes()));
        assert(all_open(view_routes()));
        assert(all_open(history_routes()));
        assert(all_open(staking_routes()));
    }
    assert(forall|i: int| 0 <= i < auth.len() ==> (#[trigger] auth[i]).authenticated);
    if all.contains(route) && route.authenticated {
        let i = choose|i: int| 0 <= i < all.len() && all[i] == route;
        if i >= auth.len() {
            assert(tail[i - auth.len()] == route);
        }
        assert(auth[i] == route);
    }
    if auth.contains(route) {
        let i = choose|i: int| 0 <= i < auth.len() && auth[i] == route;
        assert(all[i] == route);
    }
}

/// Whether a route is served by a handler.
pub open spec fn is_served(routes: Seq<Route>, handler: Handler) -> bool {
    exists|i: int| 0 <= i < routes.len() && (#[trigger] routes[i]).handler == handler
}

/// Whether only some nodes have the routes of a handler, and whether a node is one of them.
pub open spec fn needed_for(handler: Handler, options: RouteOptions) -> Option<bool> {
    match handler {
        Handler::GetBftConnectionsCount | Handler::GetBftConnectionsAll => Some(options.consensus),
        Handler::GetValidatorParticipationScores => Some(options.consensus && options.metrics),
        Handler::GetHistoryCompat
        | Handler::GetHistoryBatchCompat
        | Handler::EvaluateViewAtHeightCompat
        | Handler::GetStakingRewardCompat => Some(options.history_compat),
        Handler::GetStakingReward => Some(
            !options.history_compat && options.history_staking_rewards,
        ),
        _ => None,
    }
}

spec fn all_needed(routes: Seq<Route>, options: RouteOptions) -> bool {
    forall|i: int|
        0 <= i < routes.len() ==> needed_for((#[trigger] routes[i]).handler, options) != Some(false)
}

/// The routes of validators are served on validators only, those of history compatibility mode only
/// if the node has an upstream for them, and the node's own staking rewards only if it records them
/// and the upstream does not serve them already.
pub proof fn a_route_is_served_where_it_is_needed(options: RouteOptions, handler: Handler)
    requires
        needed_for(handler, options) is Some,
    ensures
        is_served(all_routes(options), handler) == needed_for(handler, options)->0,
{
    let all = all_routes(options);
    let common = common_routes();
    let optional = optional_routes(options);
    assert(all_needed(common, options)) by {
        assert(all_needed(auth_routes(), options));
        assert(all_needed(blocks_routes(), options));
        assert(all_needed(transactions_routes(), options));
        assert(all_needed(find_routes(), options));
        assert(all_needed(peers_routes(), options));
        assert(all_needed(programs_routes(), options));
        assert(all_needed(sync_routes(), options));
        assert(all_needed(misc_routes(), options));
    }
    assert(all_needed(optional, options));
    if is_served(all, handler) {
        let i = choose|i: int| 0 <= i < all.len() && (#[trigger] all[i]).handler == handler;
        if i < common.len() {
            assert(common[i] == all[i]);
        } else {
            assert(optional[i - common.len()] == all[i]);
        }
    }
    if needed_for(handler, options) == Some(true) {
        let bft: int = if options.consensus {
            2
        } else {
            0
        };
        let telemetry: int = if options.consensus && options.metrics {
            1
        } else {
            0
        };
        let history: int = bft + telemetry + 1;
        let index: int = match handler {
            Handler::GetBftConnectionsCount => 0,
            Handler::GetBftConnectionsAll => 1,
            Handler::GetValidatorParticipationScores => bft,
            Handler::GetHistoryBatchCompat => history + 1,
            Handler::EvaluateViewAtHeightCompat => history + 2,
            Handler::GetStakingRewardCompat => history + 3,
            _ => history,
        };
        assert(optional[index].handler == handler);
        assert(all[common.len() + index] == optional[index]);
    }
}

spec fn all_open(routes: Seq<Route>) -> bool {
    forall|i: int| 0 <= i < routes.len() ==> !(#[trigger] routes[i]).authenticated
}

} // verus!
