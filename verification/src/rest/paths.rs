//! The paths of the REST API: where the requests that each handler serves are sent.
use crate::rest::router::{
    a_route_is_served_where_it_is_needed, all_routes, auth_routes, bft_routes, blocks_routes,
    common_routes, find_routes, history_routes, is_served, misc_routes, needed_for, optional_routes,
    peers_routes, programs_routes, staking_routes, sync_routes, telemetry_routes,
    transactions_routes, view_routes, Handler, Method, Route, RouteOptions, API_VERSION_V1,
    API_VERSION_V2, DEFAULT_REST_PORT, NANOS_PER_SEC,
};
use vstd::prelude::*;

verus! {

/// The path that a handler serves.
pub open spec fn path_of(handler: Handler) -> Seq<char> {
    match handler {
        Handler::GetNodeAddress => "/node/address"@,
        Handler::GetMappingValues => "/program/{id}/mapping/{name}"@,
        Handler::DbBackup => "/db_backup"@,
        Handler::GetConsensusVersion => "/consensus_version"@,
        Handler::GetBlockHeightLatest => "/block/height/latest"@,
        Handler::GetBlockHashLatest => "/block/hash/latest"@,
        Handler::GetBlockLatest => "/block/latest"@,
        Handler::GetBlock => "/block/{height_or_hash}"@,
        Handler::GetBlockHeader => "/block/{height_or_hash}/header"@,
        Handler::GetBlockTransactions => "/block/{height_or_hash}/transactions"@,
        Handler::GetTransaction => "/transaction/{id}"@,
        Handler::GetConfirmedTransaction => "/transaction/confirmed/{id}"@,
        Handler::GetUnconfirmedTransaction => "/transaction/unconfirmed/{id}"@,
        Handler::GetTransactionRejectionReason => "/transaction/rejected/{id}/reason"@,
        Handler::TransactionBroadcast => "/transaction/broadcast"@,
        Handler::GetSolutionLimitsForProver => "/solution/limits/{prover_address}"@,
        Handler::SolutionBroadcast => "/solution/broadcast"@,
        Handler::FindBlockHash => "/find/blockHash/{tx_id}"@,
        Handler::FindBlockHeightFromStateRoot => "/find/blockHeight/{state_root}"@,
        Handler::FindLatestTransactionIdFromProgramId => "/find/transactionID/deployment/{program_id}"@,
        Handler::FindLatestTransactionIdFromProgramIdAndEdition => "/find/transactionID/deployment/{program_id}/{edition}"@,
        Handler::FindOriginalDeploymentTransactionId => "/find/transactionID/deployment/{program_id}/{edition}/original"@,
        Handler::FindTransactionIdFromProgramIdEditionAndAmendment => "/find/transactionID/deployment/{program_id}/{edition}/{amendment}"@,
        Handler::FindTransactionIdFromTransitionId => "/find/transactionID/{transition_id}"@,
        Handler::FindTransitionId => "/find/transitionID/{input_or_output_id}"@,
        Handler::GetPeersCount => "/peers/count"@,
        Handler::GetPeersAll => "/peers/all"@,
        Handler::GetPeersAllMetrics => "/peers/all/metrics"@,
        Handler::GetProgram => "/program/{id}"@,
        Handler::GetLatestProgramEdition => "/program/{id}/latest_edition"@,
        Handler::GetProgramForEdition => "/program/{id}/{edition}"@,
        Handler::GetMappingNames => "/program/{id}/mappings"@,
        Handler::GetMappingValue => "/program/{id}/mapping/{name}/{key}"@,
        Handler::GetProgramAmendmentCount => "/program/{id}/amendment_count"@,
        Handler::GetProgramAmendmentCountForEdition => "/program/{id}/{edition}/amendment_count"@,
        Handler::GetSyncStatus => "/sync_status"@,
        Handler::GetSyncPeers => "/sync/peers"@,
        Handler::GetSyncRequestsSummary => "/sync/requests"@,
        Handler::GetSyncRequestsList => "/sync/requests/list"@,
        Handler::GetVersion => "/version"@,
        Handler::GetBlocks => "/blocks"@,
        Handler::GetBlockHashes => "/blocks/hashes"@,
        Handler::GetBlockHeaders => "/blocks/headers"@,
        Handler::GetBlockStateRoots => "/blocks/stateRoots"@,
        Handler::GetBlockTransactionsRange => "/blocks/transactions"@,
        Handler::GetHeight => "/height/{hash}"@,
        Handler::GetMemoryPoolTransmissions => "/memoryPool/transmissions"@,
        Handler::GetMemoryPoolSolutions => "/memoryPool/solutions"@,
        Handler::GetMemoryPoolTransactions => "/memoryPool/transactions"@,
        Handler::GetStatePathForCommitment => "/statePath/{commitment}"@,
        Handler::GetStatePathsForCommitments => "/statePaths"@,
        Handler::GetStateRootLatest => "/stateRoot/latest"@,
        Handler::GetStateRoot => "/stateRoot/{height}"@,
        Handler::GetCommitteeLatest => "/committee/latest"@,
        Handler::GetCommittee => "/committee/{height}"@,
        Handler::GetDelegatorsForValidator => "/delegators/{validator}"@,
        Handler::GetBftConnectionsCount => "/connections/bft/count"@,
        Handler::GetBftConnectionsAll => "/connections/bft/all"@,
        Handler::GetValidatorParticipationScores => "/validators/participation"@,
        Handler::EvaluateViewLatest => "/program/{id}/view/{function}"@,
        Handler::GetHistoryCompat => "/program/{id}/mapping/{name}/{key}/history/{height}"@,
        Handler::GetHistoryBatchCompat => "/program/{id}/mapping/{name}/history/{height}"@,
        Handler::EvaluateViewAtHeightCompat => "/program/{id}/view/{function}/{height}"@,
        Handler::GetStakingRewardCompat => "/staking/rewards/{address}/{height}"@,
        Handler::GetStakingReward => "/staking/rewards/{address}/{height}"@,
    }
}

/// The other path that a handler serves, if it serves two.
pub open spec fn other_path_of(handler: Handler) -> Option<Seq<char>> {
    match handler {
        Handler::GetPeersCount => Some("/connections/p2p/count"@),
        Handler::GetPeersAll => Some("/connections/p2p/all"@),
        Handler::GetPeersAllMetrics => Some("/connections/p2p/all/metrics"@),
        Handler::GetSyncStatus => Some("/sync/status"@),
        _ => None,
    }
}

/// The method of the requests that a handler serves: those that hand something over are posted.
pub open spec fn method_of(handler: Handler) -> Method {
    match handler {
        Handler::DbBackup
        | Handler::TransactionBroadcast
        | Handler::SolutionBroadcast
        | Handler::EvaluateViewLatest
        | Handler::EvaluateViewAtHeightCompat => Method::Post,
        _ => Method::Get,
    }
}

/// Whether a handler serves only requests that are authenticated.
pub open spec fn is_protected(handler: Handler) -> bool {
    match handler {
        Handler::GetNodeAddress | Handler::GetMappingValues | Handler::DbBackup => true,
        _ => false,
    }
}

/// Whether a route leads to its handler: it has a path of the handler and its method, and asks for
/// authentication if the handler is protected.
pub open spec fn leads_to_its_handler(route: Route) -> bool {
    &&& route.path@ == path_of(route.handler) || other_path_of(route.handler) == Some(route.path@)
    &&& route.method == method_of(route.handler)
    &&& route.authenticated == is_protected(route.handler)
}

/// Whether the requests for a path are served by a handler.
pub open spec fn serves(routes: Seq<Route>, path: Seq<char>, handler: Handler) -> bool {
    exists|i: int|
        0 <= i < routes.len() && (#[trigger] routes[i]).path@ == path && routes[i].handler == handler
}

spec fn all_lead(routes: Seq<Route>) -> bool {
    forall|i: int| 0 <= i < routes.len() ==> leads_to_its_handler(#[trigger] routes[i])
}

/// What some of the routes serve, all of them serve.
proof fn lemma_serves(
    some: Seq<Route>,
    routes: Seq<Route>,
    offset: int,
    path: Seq<char>,
    handler: Handler,
)
    requires
        serves(some, path, handler),
        0 <= offset,
        offset + some.len() <= routes.len(),
        forall|i: int| 0 <= i < some.len() ==> #[trigger] routes[offset + i] == some[i],
    ensures
        serves(routes, path, handler),
{
    let i = choose|i: int|
        0 <= i < some.len() && (#[trigger] some[i]).path@ == path && some[i].handler == handler;
    assert(routes[offset + i] == some[i]);
}

/// Every route leads to its handler: to each handler are sent the requests for its own path, or for
/// its own other path, with its own method, and the protected handlers get none that is not
/// authenticated.
pub proof fn every_route_leads_to_its_handler(options: RouteOptions, i: int)
    requires
        0 <= i < all_routes(options).len(),
    ensures
        leads_to_its_handler(all_routes(options)[i]),
{
    assert(all_lead(auth_routes()));
    assert(all_lead(blocks_routes()));
    assert(all_lead(transactions_routes()));
    assert(all_lead(find_routes()));
    assert(all_lead(peers_routes()));
    assert(all_lead(programs_routes()));
    assert(all_lead(sync_routes()));
    assert(all_lead(misc_routes()));
    assert(all_lead(bft_routes()));
    assert(all_lead(telemetry_routes()));
    assert(all_lead(view_routes()));
    assert(all_lead(history_routes()));
    assert(all_lead(staking_routes()));
    assert(all_lead(common_routes()));
    assert(all_lead(optional_routes(options)));
    assert(all_lead(all_routes(options)));
}

proof fn lemma_auth_routes(handler: Handler)
    ensures
        match handler {
            Handler::GetNodeAddress
            | Handler::GetMappingValues
            | Handler::DbBackup => {
                &&& serves(auth_routes(), path_of(handler), handler)
                &&& other_path_of(handler) matches Some(path) ==> serves(
                    auth_routes(),
                    path,
                    handler,
                )
            },
            _ => true,
        },
{
    let routes = auth_routes();
    match handler {
        Handler::GetNodeAddress => {
            assert(routes[0].handler == handler);
        },
        Handler::GetMappingValues => {
            assert(routes[1].handler == handler);
        },
        Handler::DbBackup => {
            assert(routes[2].handler == handler);
        },
        _ => {},
    }
}

proof fn lemma_blocks_routes(handler: Handler)
    ensures
        match handler {
            Handler::GetConsensusVersion
            | Handler::GetBlockHeightLatest
            | Handler::GetBlockHashLatest
            | Handler::GetBlockLatest
            | Handler::GetBlock
            | Handler::GetBlockHeader
            | Handler::GetBlockTransactions => {
                &&& serves(blocks_routes(), path_of(handler), handler)
                &&& other_path_of(handler) matches Some(path) ==> serves(
                    blocks_routes(),
                    path,
                    handler,
                )
            },
            _ => true,
        },
{
    let routes = blocks_routes();
    match handler {
        Handler::GetConsensusVersion => {
            assert(routes[0].handler == handler);
        },
        Handler::GetBlockHeightLatest => {
            assert(routes[1].handler == handler);
        },
        Handler::GetBlockHashLatest => {
            assert(routes[2].handler == handler);
        },
        Handler::GetBlockLatest => {
            assert(routes[3].handler == handler);
        },
        Handler::GetBlock => {
            assert(routes[4].handler == handler);
        },
        Handler::GetBlockHeader => {
            assert(routes[5].handler == handler);
        },
        Handler::GetBlockTransactions => {
            assert(routes[6].handler == handler);
        },
        _ => {},
    }
}

proof fn lemma_transactions_routes(handler: Handler)
    ensures
        match handler {
            Handler::GetTransaction
            | Handler::GetConfirmedTransaction
            | Handler::GetUnconfirmedTransaction
            | Handler::GetTransactionRejectionReason
            | Handler::TransactionBroadcast
            | Handler::GetSolutionLimitsForProver
            | Handler::SolutionBroadcast => {
                &&& serves(transactions_routes(), path_of(handler), handler)
                &&& other_path_of(handler) matches Some(path) ==> serves(
                    transactions_routes(),
                    path,
                    handler,
                )
            },
            _ => true,
        },
{
    let routes = transactions_routes();
    match handler {
        Handler::GetTransaction => {
            assert(routes[0].handler == handler);
        },
        Handler::GetConfirmedTransaction => {
            assert(routes[1].handler == handler);
        },
        Handler::GetUnconfirmedTransaction => {
            assert(routes[2].handler == handler);
        },
        Handler::GetTransactionRejectionReason => {
            assert(routes[3].handler == handler);
        },
        Handler::TransactionBroadcast => {
            assert(routes[4].handler == handler);
        },
        Handler::GetSolutionLimitsForProver => {
            assert(routes[5].handler == handler);
        },
        Handler::SolutionBroadcast => {
            assert(routes[6].handler == handler);
        },
        _ => {},
    }
}

proof fn lemma_find_routes(handler: Handler)
    ensures
        match handler {
            Handler::FindBlockHash
            | Handler::FindBlockHeightFromStateRoot
            | Handler::FindLatestTransactionIdFromProgramId
            | Handler::FindLatestTransactionIdFromProgramIdAndEdition
            | Handler::FindOriginalDeploymentTransactionId
            | Handler::FindTransactionIdFromProgramIdEditionAndAmendment
            | Handler::FindTransactionIdFromTransitionId
            | Handler::FindTransitionId => {
                &&& serves(find_routes(), path_of(handler), handler)
                &&& other_path_of(handler) matches Some(path) ==> serves(
                    find_routes(),
                    path,
                    handler,
                )
            },
            _ => true,
        },
{
    let routes = find_routes();
    match handler {
        Handler::FindBlockHash => {
            assert(routes[0].handler == handler);
        },
        Handler::FindBlockHeightFromStateRoot => {
            assert(routes[1].handler == handler);
        },
        Handler::FindLatestTransactionIdFromProgramId => {
            assert(routes[2].handler == handler);
        },
        Handler::FindLatestTransactionIdFromProgramIdAndEdition => {
            assert(routes[3].handler == handler);
        },
        Handler::FindOriginalDeploymentTransactionId => {
            assert(routes[4].handler == handler);
        },
        Handler::FindTransactionIdFromProgramIdEditionAndAmendment => {
            assert(routes[5].handler == handler);
        },
        Handler::FindTransactionIdFromTransitionId => {
            assert(routes[6].handler == handler);
        },
        Handler::FindTransitionId => {
            assert(routes[7].handler == handler);
        },
        _ => {},
    }
}

proof fn lemma_peers_routes(handler: Handler)
    ensures
        match handler {
            Handler::GetPeersCount
            | Handler::GetPeersAll
            | Handler::GetPeersAllMetrics => {
                &&& serves(peers_routes(), path_of(handler), handler)
                &&& other_path_of(handler) matches Some(path) ==> serves(
                    peers_routes(),
                    path,
                    handler,
                )
            },
            _ => true,
        },
{
    let routes = peers_routes();
    match handler {
        Handler::GetPeersCount => {
            assert(routes[0].handler == handler);
            assert(routes[3].handler == handler);
        },
        Handler::GetPeersAll => {
            assert(routes[1].handler == handler);
            assert(routes[4].handler == handler);
        },
        Handler::GetPeersAllMetrics => {
            assert(routes[2].handler == handler);
            assert(routes[5].handler == handler);
        },
        _ => {},
    }
}

proof fn lemma_programs_routes(handler: Handler)
    ensures
        match handler {
            Handler::GetProgram
            | Handler::GetLatestProgramEdition
            | Handler::GetProgramForEdition
            | Handler::GetMappingNames
            | Handler::GetMappingValue
            | Handler::GetProgramAmendmentCount
            | Handler::GetProgramAmendmentCountForEdition => {
                &&& serves(programs_routes(), path_of(handler), handler)
                &&& other_path_of(handler) matches Some(path) ==> serves(
                    programs_routes(),
                    path,
                    handler,
                )
            },
            _ => true,
        },
{
    let routes = programs_routes();
    match handler {
        Handler::GetProgram => {
            assert(routes[0].handler == handler);
        },
        Handler::GetLatestProgramEdition => {
            assert(routes[1].handler == handler);
        },
        Handler::GetProgramForEdition => {
            assert(routes[2].handler == handler);
        },
        Handler::GetMappingNames => {
            assert(routes[3].handler == handler);
        },
        Handler::GetMappingValue => {
            assert(routes[4].handler == handler);
        },
        Handler::GetProgramAmendmentCount => {
            assert(routes[5].handler == handler);
        },
        Handler::GetProgramAmendmentCountForEdition => {
            assert(routes[6].handler == handler);
        },
        _ => {},
    }
}

proof fn lemma_sync_routes(handler: Handler)
    ensures
        match handler {
            Handler::GetSyncStatus
            | Handler::GetSyncPeers
            | Handler::GetSyncRequestsSummary
            | Handler::GetSyncRequestsList => {
                &&& serves(sync_routes(), path_of(handler), handler)
                &&& other_path_of(handler) matches Some(path) ==> serves(
                    sync_routes(),
                    path,
                    handler,
                )
            },
            _ => true,
        },
{
    let routes = sync_routes();
    match handler {
        Handler::GetSyncStatus => {
            assert(routes[0].handler == handler);
            assert(routes[1].handler == handler);
        },
        Handler::GetSyncPeers => {
            assert(routes[2].handler == handler);
        },
        Handler::GetSyncRequestsSummary => {
            assert(routes[3].handler == handler);
        },
        Handler::GetSyncRequestsList => {
            assert(routes[4].handler == handler);
        },
        _ => {},
    }
}

proof fn lemma_misc_routes(handler: Handler)
    ensures
        match handler {
            Handler::GetVersion
            | Handler::GetBlocks
            | Handler::GetBlockHashes
            | Handler::GetBlockHeaders
            | Handler::GetBlockStateRoots
            | Handler::GetBlockTransactionsRange
            | Handler::GetHeight
            | Handler::GetMemoryPoolTransmissions
            | Handler::GetMemoryPoolSolutions
            | Handler::GetMemoryPoolTransactions
            | Handler::GetStatePathForCommitment
            | Handler::GetStatePathsForCommitments
            | Handler::GetStateRootLatest
            | Handler::GetStateRoot
            | Handler::GetCommitteeLatest
            | Handler::GetCommittee
            | Handler::GetDelegatorsForValidator => {
                &&& serves(misc_routes(), path_of(handler), handler)
                &&& other_path_of(handler) matches Some(path) ==> serves(
                    misc_routes(),
                    path,
                    handler,
                )
            },
            _ => true,
        },
{
    let routes = misc_routes();
    match handler {
        Handler::GetVersion => {
            assert(routes[0].handler == handler);
        },
        Handler::GetBlocks => {
            assert(routes[1].handler == handler);
        },
        Handler::GetBlockHashes => {
            assert(routes[2].handler == handler);
        },
        Handler::GetBlockHeaders => {
            assert(routes[3].handler == handler);
        },
        Handler::GetBlockStateRoots => {
            assert(routes[4].handler == handler);
        },
        Handler::GetBlockTransactionsRange => {
            assert(routes[5].handler == handler);
        },
        Handler::GetHeight => {
            assert(routes[6].handler == handler);
        },
        Handler::GetMemoryPoolTransmissions => {
            assert(routes[7].handler == handler);
        },
        Handler::GetMemoryPoolSolutions => {
            assert(routes[8].handler == handler);
        },
        Handler::GetMemoryPoolTransactions => {
            assert(routes[9].handler == handler);
        },
        Handler::GetStatePathForCommitment => {
            assert(routes[10].handler == handler);
        },
        Handler::GetStatePathsForCommitments => {
            assert(routes[11].handler == handler);
        },
        Handler::GetStateRootLatest => {
            assert(routes[12].handler == handler);
        },
        Handler::GetStateRoot => {
            assert(routes[13].handler == handler);
        },
        Handler::GetCommitteeLatest => {
            assert(routes[14].handler == handler);
        },
        Handler::GetCommittee => {
            assert(routes[15].handler == handler);
        },
        Handler::GetDelegatorsForValidator => {
            assert(routes[16].handler == handler);
        },
        _ => {},
    }
}

proof fn lemma_bft_routes(handler: Handler)
    ensures
        match handler {
            Handler::GetBftConnectionsCount
            | Handler::GetBftConnectionsAll => {
                &&& serves(bft_routes(), path_of(handler), handler)
                &&& other_path_of(handler) matches Some(path) ==> serves(
                    bft_routes(),
                    path,
                    handler,
                )
            },
            _ => true,
        },
{
    let routes = bft_routes();
    match handler {
        Handler::GetBftConnectionsCount => {
            assert(routes[0].handler == handler);
        },
        Handler::GetBftConnectionsAll => {
            assert(routes[1].handler == handler);
        },
        _ => {},
    }
}

proof fn lemma_telemetry_routes(handler: Handler)
    ensures
        match handler {
            Handler::GetValidatorParticipationScores => {
                &&& serves(telemetry_routes(), path_of(handler), handler)
                &&& other_path_of(handler) matches Some(path) ==> serves(
                    telemetry_routes(),
                    path,
                    handler,
                )
            },
            _ => true,
        },
{
    let routes = telemetry_routes();
    match handler {
        Handler::GetValidatorParticipationScores => {
            assert(routes[0].handler == handler);
        },
        _ => {},
    }
}

proof fn lemma_view_routes(handler: Handler)
    ensures
        match handler {
            Handler::EvaluateViewLatest => {
                &&& serves(view_routes(), path_of(handler), handler)
                &&& other_path_of(handler) matches Some(path) ==> serves(
                    view_routes(),
                    path,
                    handler,
                )
            },
            _ => true,
        },
{
    let routes = view_routes();
    match handler {
        Handler::EvaluateViewLatest => {
            assert(routes[0].handler == handler);
        },
        _ => {},
    }
}

proof fn lemma_history_routes(handler: Handler)
    ensures
        match handler {
            Handler::GetHistoryCompat
            | Handler::GetHistoryBatchCompat
            | Handler::EvaluateViewAtHeightCompat
            | Handler::GetStakingRewardCompat => {
                &&& serves(history_routes(), path_of(handler), handler)
                &&& other_path_of(handler) matches Some(path) ==> serves(
                    history_routes(),
                    path,
                    handler,
                )
            },
            _ => true,
        },
{
    let routes = history_routes();
    match handler {
        Handler::GetHistoryCompat => {
            assert(routes[0].handler == handler);
        },
        Handler::GetHistoryBatchCompat => {
            assert(routes[1].handler == handler);
        },
        Handler::EvaluateViewAtHeightCompat => {
            assert(routes[2].handler == handler);
        },
        Handler::GetStakingRewardCompat => {
            assert(routes[3].handler == handler);
        },
        _ => {},
    }
}

proof fn lemma_staking_routes(handler: Handler)
    ensures
        match handler {
            Handler::GetStakingReward => {
                &&& serves(staking_routes(), path_of(handler), handler)
                &&& other_path_of(handler) matches Some(path) ==> serves(
                    staking_routes(),
                    path,
                    handler,
                )
            },
            _ => true,
        },
{
    let routes = staking_routes();
    match handler {
        Handler::GetStakingReward => {
            assert(routes[0].handler == handler);
        },
        _ => {},
    }
}

/// Every handler that a node has is reached under its path, and under its other path if it has one:
/// the handlers that every node has, and those that this one has for the sake of what it is.
pub proof fn every_handler_is_reached_under_its_path(options: RouteOptions, handler: Handler)
    requires
        needed_for(handler, options) != Some(false),
    ensures
        serves(all_routes(options), path_of(handler), handler),
        other_path_of(handler) matches Some(path) ==> serves(all_routes(options), path, handler),
{
    let all = all_routes(options);
    let path = path_of(handler);
    let other = other_path_of(handler)->0;
    match handler {
        Handler::GetNodeAddress
        | Handler::GetMappingValues
        | Handler::DbBackup => {
            lemma_auth_routes(handler);
            lemma_serves(auth_routes(), all, 0, path, handler);
        },
        Handler::GetConsensusVersion
        | Handler::GetBlockHeightLatest
        | Handler::GetBlockHashLatest
        | Handler::GetBlockLatest
        | Handler::GetBlock
        | Handler::GetBlockHeader
        | Handler::GetBlockTransactions => {
            lemma_blocks_routes(handler);
            lemma_serves(blocks_routes(), all, 3, path, handler);
        },
        Handler::GetTransaction
        | Handler::GetConfirmedTransaction
        | Handler::GetUnconfirmedTransaction
        | Handler::GetTransactionRejectionReason
        | Handler::TransactionBroadcast
        | Handler::GetSolutionLimitsForProver
        | Handler::SolutionBroadcast => {
            lemma_transactions_routes(handler);
            lemma_serves(transactions_routes(), all, 10, path, handler);
        },
        Handler::FindBlockHash
        | Handler::FindBlockHeightFromStateRoot
        | Handler::FindLatestTransactionIdFromProgramId
        | Handler::FindLatestTransactionIdFromProgramIdAndEdition
        | Handler::FindOriginalDeploymentTransactionId
        | Handler::FindTransactionIdFromProgramIdEditionAndAmendment
        | Handler::FindTransactionIdFromTransitionId
        | Handler::FindTransitionId => {
            lemma_find_routes(handler);
            lemma_serves(find_routes(), all, 17, path, handler);
        },
        Handler::GetPeersCount
        | Handler::GetPeersAll
        | Handler::GetPeersAllMetrics => {
            lemma_peers_routes(handler);
            lemma_serves(peers_routes(), all, 25, path, handler);
            if other_path_of(handler) is Some {
                lemma_serves(peers_routes(), all, 25, other, handler);
            }
        },
        Handler::GetProgram
        | Handler::GetLatestProgramEdition
        | Handler::GetProgramForEdition
        | Handler::GetMappingNames
        | Handler::GetMappingValue
        | Handler::GetProgramAmendmentCount
        | Handler::GetProgramAmendmentCountForEdition => {
            lemma_programs_routes(handler);
            lemma_serves(programs_routes(), all, 31, path, handler);
        },
        Handler::GetSyncStatus
        | Handler::GetSyncPeers
        | Handler::GetSyncRequestsSummary
        | Handler::GetSyncRequestsList => {
            lemma_sync_routes(handler);
            lemma_serves(sync_routes(), all, 38, path, handler);
            if other_path_of(handler) is Some {
                lemma_serves(sync_routes(), all, 38, other, handler);
            }
        },
        Handler::GetVersion
        | Handler::GetBlocks
        | Handler::GetBlockHashes
        | Handler::GetBlockHeaders
        | Handler::GetBlockStateRoots
        | Handler::GetBlockTransactionsRange
        | Handler::GetHeight
        | Handler::GetMemoryPoolTransmissions
        | Handler::GetMemoryPoolSolutions
        | Handler::GetMemoryPoolTransactions
        | Handler::GetStatePathForCommitment
        | Handler::GetStatePathsForCommitments
        | Handler::GetStateRootLatest
        | Handler::GetStateRoot
        | Handler::GetCommitteeLatest
        | Handler::GetCommittee
        | Handler::GetDelegatorsForValidator => {
            lemma_misc_routes(handler);
            lemma_serves(misc_routes(), all, 43, path, handler);
        },
        _ => {
            let bft: int = if options.consensus {
                2
            } else {
                0
            };
            let telemetry: int = if options.consensus && options.metrics {
                1
            } else {
                0
            };
            let start: int = 60;
            match handler {
                Handler::GetBftConnectionsCount
                | Handler::GetBftConnectionsAll => {
                    lemma_bft_routes(handler);
                    lemma_serves(bft_routes(), all, start, path, handler);
                },
                Handler::GetValidatorParticipationScores => {
                    lemma_telemetry_routes(handler);
                    lemma_serves(telemetry_routes(), all, start + bft, path, handler);
                },
                Handler::EvaluateViewLatest => {
                    lemma_view_routes(handler);
                    lemma_serves(view_routes(), all, start + bft + telemetry, path, handler);
                },
                Handler::GetHistoryCompat
                | Handler::GetHistoryBatchCompat
                | Handler::EvaluateViewAtHeightCompat
                | Handler::GetStakingRewardCompat => {
                    lemma_history_routes(handler);
                    lemma_serves(history_routes(), all, start + bft + telemetry + 1, path, handler);
                },
                Handler::GetStakingReward => {
                    lemma_staking_routes(handler);
                    lemma_serves(staking_routes(), all, start + bft + telemetry + 1, path, handler);
                },
                _ => {},
            }
        },
    }
}

/// The number of routes: those that every node has, and those that a node has for the sake of what
/// it is.
pub proof fn a_node_has_no_other_routes(options: RouteOptions)
    ensures
        all_routes(options).len() == 61 + (if options.consensus {
            2int
        } else {
            0
        }) + (if options.consensus && options.metrics {
            1int
        } else {
            0
        }) + (if options.history_compat {
            4int
        } else if options.history_staking_rewards {
            1
        } else {
            0
        }),
{
}

/// The prefixes of the versions of the API, and the port that it is served at by default.
pub proof fn the_versions_of_the_api()
    ensures
        API_VERSION_V1@ == "v1"@,
        API_VERSION_V2@ == "v2"@,
        DEFAULT_REST_PORT == 3030,
        NANOS_PER_SEC == 1_000_000_000,
{
}

/// Whether the handlers that only some nodes have are served, by what the node is: those of the
/// connections among validators on validators, that of their participation where it is measured as
/// well, those of history compatibility mode with an upstream, and the node's own staking rewards
/// where they are recorded without one.
pub proof fn a_node_serves_what_it_is_for(options: RouteOptions)
    ensures
        is_served(all_routes(options), Handler::GetBftConnectionsCount) <==> options.consensus,
        is_served(all_routes(options), Handler::GetBftConnectionsAll) <==> options.consensus,
        is_served(all_routes(options), Handler::GetValidatorParticipationScores)
            <==> options.consensus && options.metrics,
        is_served(all_routes(options), Handler::EvaluateViewLatest),
        is_served(all_routes(options), Handler::GetHistoryCompat) <==> options.history_compat,
        is_served(all_routes(options), Handler::GetHistoryBatchCompat) <==> options.history_compat,
        is_served(all_routes(options), Handler::EvaluateViewAtHeightCompat)
            <==> options.history_compat,
        is_served(all_routes(options), Handler::GetStakingRewardCompat) <==> options.history_compat,
        is_served(all_routes(options), Handler::GetStakingReward)
            <==> options.history_staking_rewards && !options.history_compat,
{
    a_route_is_served_where_it_is_needed(options, Handler::GetBftConnectionsCount);
    a_route_is_served_where_it_is_needed(options, Handler::GetBftConnectionsAll);
    a_route_is_served_where_it_is_needed(options, Handler::GetValidatorParticipationScores);
    a_route_is_served_where_it_is_needed(options, Handler::GetHistoryCompat);
    a_route_is_served_where_it_is_needed(options, Handler::GetHistoryBatchCompat);
    a_route_is_served_where_it_is_needed(options, Handler::EvaluateViewAtHeightCompat);
    a_route_is_served_where_it_is_needed(options, Handler::GetStakingRewardCompat);
    a_route_is_served_where_it_is_needed(options, Handler::GetStakingReward);
    every_handler_is_reached_under_its_path(options, Handler::EvaluateViewLatest);
    let all = all_routes(options);
    let i = choose|i: int|
        0 <= i < all.len() && (#[trigger] all[i]).path@ == path_of(Handler::EvaluateViewLatest)
            && all[i].handler == Handler::EvaluateViewLatest;
    assert(all[i].handler == Handler::EvaluateViewLatest);
}

} // verus!
