//! How many verifications the REST API runs at once, and how many it lets wait.
use crate::network::NetworkParameters;
use crate::rest::error::{error_with, RestError, TOO_MANY_REQUESTS};
use crate::text::{decimal, decimal_text};
use tokio::sync::{Semaphore, SemaphorePermit, TryAcquireError};
use vstd::prelude::*;

verus! {

/// Concurrent REST verification limits for unconfirmed deployments, executions, and solutions.
#[derive(Clone, Copy, Debug, Eq, PartialEq, Structural)]
pub struct RestVerificationLimits {
    /// Maximum number of concurrent REST deploy transaction verifications.
    pub num_verifying_deploys: usize,
    /// Maximum number of concurrent REST execute transaction verifications.
    pub num_verifying_executions: usize,
    /// Maximum number of concurrent REST solution verifications.
    pub num_verifying_solutions: usize,
}

/// The message for a limit above the protocol maximum.
pub open spec fn limit_exceeded(name: Seq<char>, limit: nat, max_name: Seq<char>, max: nat) -> Seq<
    char,
> {
    "`"@ + name + "` ("@ + decimal(limit) + ") cannot exceed "@ + max_name + " ("@ + decimal(max)
        + ")"@
}

fn refuse_limit(name: &str, limit: usize, max_name: &str, max: usize) -> (message: String)
    ensures
        message@ == limit_exceeded(name@, limit as nat, max_name@, max as nat),
{
    let mut message = "`".to_owned();
    message.append(name);
    message.append("` (");
    message.append(decimal_text(limit as u64).as_str());
    message.append(") cannot exceed ");
    message.append(max_name);
    message.append(" (");
    message.append(decimal_text(max as u64).as_str());
    message.append(")");
    message
}

impl RestVerificationLimits {
    /// The protocol maximums of a network.
    pub open spec fn maximum(network: NetworkParameters) -> RestVerificationLimits {
        RestVerificationLimits {
            num_verifying_deploys: network.max_deploy_verifications,
            num_verifying_executions: network.max_execute_verifications,
            num_verifying_solutions: network.max_solutions,
        }
    }

    /// No limit is above that of the other limits.
    pub open spec fn within(self, other: RestVerificationLimits) -> bool {
        &&& self.num_verifying_deploys <= other.num_verifying_deploys
        &&& self.num_verifying_executions <= other.num_verifying_executions
        &&& self.num_verifying_solutions <= other.num_verifying_solutions
    }

    /// The message for limits of which one is above the protocol maximum, by the first such.
    pub open spec fn refusal(self, network: NetworkParameters) -> Seq<char> {
        if self.num_verifying_deploys > network.max_deploy_verifications {
            limit_exceeded(
                "num_verifying_deploys"@,
                self.num_verifying_deploys as nat,
                "MAX_PARALLEL_DEPLOY_VERIFICATIONS"@,
                network.max_deploy_verifications as nat,
            )
        } else if self.num_verifying_executions > network.max_execute_verifications {
            limit_exceeded(
                "num_verifying_executions"@,
                self.num_verifying_executions as nat,
                "MAX_PARALLEL_EXECUTE_VERIFICATIONS"@,
                network.max_execute_verifications as nat,
            )
        } else {
            limit_exceeded(
                "num_verifying_solutions"@,
                self.num_verifying_solutions as nat,
                "MAX_SOLUTIONS"@,
                network.max_solutions as nat,
            )
        }
    }

    /// Returns the protocol maximums, which are also the defaults.
    pub fn max(network: &NetworkParameters) -> (limits: Self)
        ensures
            limits == RestVerificationLimits::maximum(*network),
    {
        RestVerificationLimits {
            num_verifying_deploys: network.max_deploy_verifications,
            num_verifying_executions: network.max_execute_verifications,
            num_verifying_solutions: network.max_solutions,
        }
    }

    /// Constructs limits, rejecting values above the protocol maximums.
    pub fn new(
        network: &NetworkParameters,
        num_verifying_deploys: usize,
        num_verifying_executions: usize,
        num_verifying_solutions: usize,
    ) -> (result: Result<Self, String>)
        ensures
            ({
                let limits = RestVerificationLimits {
                    num_verifying_deploys,
                    num_verifying_executions,
                    num_verifying_solutions,
                };
                match result {
                    Ok(accepted) => accepted == limits && limits.within(
                        RestVerificationLimits::maximum(*network),
                    ),
                    Err(message) => message@ == limits.refusal(*network) && !limits.within(
                        RestVerificationLimits::maximum(*network),
                    ),
                }
            }),
            result is Ok <==> {
                &&& num_verifying_deploys <= network.max_deploy_verifications
                &&& num_verifying_executions <= network.max_execute_verifications
                &&& num_verifying_solutions <= network.max_solutions
            },
    {
        if num_verifying_deploys > network.max_deploy_verifications {
            return Err(
                refuse_limit(
                    "num_verifying_deploys",
                    num_verifying_deploys,
                    "MAX_PARALLEL_DEPLOY_VERIFICATIONS",
                    network.max_deploy_verifications,
                ),
            );
        }
        if num_verifying_executions > network.max_execute_verifications {
            return Err(
                refuse_limit(
                    "num_verifying_executions",
                    num_verifying_executions,
                    "MAX_PARALLEL_EXECUTE_VERIFICATIONS",
                    network.max_execute_verifications,
                ),
            );
        }
        if num_verifying_solutions > network.max_solutions {
            return Err(
                refuse_limit(
                    "num_verifying_solutions",
                    num_verifying_solutions,
                    "MAX_SOLUTIONS",
                    network.max_solutions,
                ),
            );
        }
        Ok(
            RestVerificationLimits {
                num_verifying_deploys,
                num_verifying_executions,
                num_verifying_solutions,
            },
        )
    }
}

#[verifier::external_type_specification]
#[verifier::external_body]
pub struct ExSemaphore(tokio::sync::Semaphore);

#[verifier::external_type_specification]
#[verifier::external_body]
pub struct ExSemaphorePermit<'a>(tokio::sync::SemaphorePermit<'a>);

#[verifier::external_type_specification]
#[verifier::external_body]
pub struct ExTryAcquireError(tokio::sync::TryAcquireError);

/// The number of permits that a semaphore was made with.
pub uninterp spec fn permits(semaphore: Semaphore) -> nat;

/// The semaphore that a permit was taken from, and to which it goes back.
pub uninterp spec fn taken_from(permit: SemaphorePermit<'_>) -> Semaphore;

/// The number of permits of its semaphore that a permit stands for.
pub uninterp spec fn held(permit: SemaphorePermit<'_>) -> nat;

/// `Semaphore::new`: a semaphore with the given number of permits, which is at most
/// `Semaphore::MAX_PERMITS`.
#[verifier::external_body]
fn semaphore_new(limit: usize) -> (semaphore: Semaphore)
    requires
        limit <= usize::MAX / 8,
    ensures
        permits(semaphore) == limit,
{
    Semaphore::new(limit)
}

/// `Semaphore::try_acquire`: one permit of the semaphore, if one is available. Whether one is
/// available depends on who holds the permits at the time, which is left unsaid.
#[verifier::external_body]
fn semaphore_try_acquire(semaphore: &Semaphore) -> (permit: Result<
    SemaphorePermit<'_>,
    TryAcquireError,
>)
    ensures
        permit matches Ok(granted) ==> taken_from(granted) == *semaphore && held(granted) == 1,
{
    semaphore.try_acquire()
}

/// The error for a verification that finds the queue full.
pub open spec fn queue_full() -> crate::rest::error::RestErrorModel {
    error_with(TOO_MANY_REQUESTS, "Too many verifications in progress"@)
}

/// Returns the permit of a verification, or the error for one that is not admitted.
pub fn admitted<P>(permit: Option<P>) -> (result: Result<P, RestError>)
    ensures
        match result {
            Ok(granted) => permit == Some(granted),
            Err(error) => permit is None && error@ == queue_full(),
        },
{
    match permit {
        Some(granted) => Ok(granted),
        None => Err(
            RestError::new(TOO_MANY_REQUESTS, "Too many verifications in progress".to_owned()),
        ),
    }
}

/// A concurrent semaphore and a queued semaphore for one kind of REST verification.
pub struct VerificationLane {
    /// Maximum number of verifications of this kind that may run at once.
    concurrent: Semaphore,
    /// Maximum number of verifications of this kind that may be waiting or in progress.
    ///
    /// Capacity is twice that of `concurrent`.
    queued: Semaphore,
}

impl VerificationLane {
    /// The semaphore of the verifications that run.
    pub closed spec fn running(&self) -> Semaphore {
        self.concurrent
    }

    /// The number of verifications that may run at once.
    pub open spec fn concurrent_limit(&self) -> nat {
        permits(self.running())
    }

    /// The semaphore of the verifications that are waiting or in progress.
    pub closed spec fn queue(&self) -> Semaphore {
        self.queued
    }

    /// The number of verifications that may be waiting or in progress.
    pub open spec fn queued_limit(&self) -> nat {
        permits(self.queue())
    }

    /// Initializes the lane of a kind of which the given number may run at once.
    pub fn new(concurrent_limit: usize) -> (lane: Self)
        requires
            concurrent_limit <= usize::MAX / 16,
        ensures
            lane.concurrent_limit() == concurrent_limit,
            lane.queued_limit() == 2 * concurrent_limit,
    {
        VerificationLane {
            concurrent: semaphore_new(concurrent_limit),
            queued: semaphore_new(2 * concurrent_limit),
        }
    }

    /// Returns the semaphore of the verifications that run.
    pub fn concurrent(&self) -> (semaphore: &Semaphore)
        ensures
            *semaphore == self.running(),
    {
        &self.concurrent
    }

    /// Returns the semaphore of the verifications that are waiting or in progress.
    pub fn queued(&self) -> (semaphore: &Semaphore)
        ensures
            *semaphore == self.queue(),
    {
        &self.queued
    }

    /// Takes a place in the queue. Rejects immediately when this lane's queue is already full.
    ///
    /// What is granted is one permit of the queue, and none of those that run. Whether it is granted
    /// depends on who holds the permits of the queue at the time.
    pub fn enqueue(&self) -> (result: Result<SemaphorePermit<'_>, RestError>)
        ensures
            match result {
                Ok(permit) => taken_from(permit) == self.queue() && held(permit) == 1,
                Err(error) => error@ == queue_full(),
            },
    {
        let permit = match semaphore_try_acquire(self.queued()) {
            Ok(permit) => Some(permit),
            Err(_) => None,
        };
        admitted(permit)
    }
}

/// Concurrent and queued REST verification permits for deployments, executions, and solutions.
pub struct VerificationSlots {
    pub deploys: VerificationLane,
    pub executions: VerificationLane,
    pub solutions: VerificationLane,
}

impl VerificationSlots {
    /// Initializes the lanes with the given limits.
    pub fn new(limits: RestVerificationLimits) -> (slots: Self)
        requires
            limits.num_verifying_deploys <= usize::MAX / 16,
            limits.num_verifying_executions <= usize::MAX / 16,
            limits.num_verifying_solutions <= usize::MAX / 16,
        ensures
            slots.deploys.concurrent_limit() == limits.num_verifying_deploys,
            slots.deploys.queued_limit() == 2 * limits.num_verifying_deploys,
            slots.executions.concurrent_limit() == limits.num_verifying_executions,
            slots.executions.queued_limit() == 2 * limits.num_verifying_executions,
            slots.solutions.concurrent_limit() == limits.num_verifying_solutions,
            slots.solutions.queued_limit() == 2 * limits.num_verifying_solutions,
    {
        VerificationSlots {
            deploys: VerificationLane::new(limits.num_verifying_deploys),
            executions: VerificationLane::new(limits.num_verifying_executions),
            solutions: VerificationLane::new(limits.num_verifying_solutions),
        }
    }

    /// Returns the lane of a transaction.
    pub fn lane_of_transaction(&self, is_execute: bool) -> (lane: &VerificationLane)
        ensures
            *lane == (if is_execute {
                self.executions
            } else {
                self.deploys
            }),
    {
        if is_execute {
            &self.executions
        } else {
            &self.deploys
        }
    }
}

/// The protocol maximums are themselves accepted as limits.
pub proof fn the_maximums_are_accepted(network: NetworkParameters)
    ensures
        RestVerificationLimits::maximum(network).within(RestVerificationLimits::maximum(network)),
{
}

/// Limits are accepted exactly if each is at most the maximum of its own kind, which it may reach.
pub proof fn each_limit_has_its_own_maximum(
    limits: RestVerificationLimits,
    network: NetworkParameters,
)
    ensures
        limits.within(RestVerificationLimits::maximum(network)) <==> {
            &&& limits.num_verifying_deploys <= network.max_deploy_verifications
            &&& limits.num_verifying_executions <= network.max_execute_verifications
            &&& limits.num_verifying_solutions <= network.max_solutions
        },
        RestVerificationLimits::maximum(network).num_verifying_deploys
            == network.max_deploy_verifications,
        RestVerificationLimits::maximum(network).num_verifying_executions
            == network.max_execute_verifications,
        RestVerificationLimits::maximum(network).num_verifying_solutions == network.max_solutions,
{
}

/// Limits are refused for the first that is above its maximum: the message starts with its name and
/// what it is, and ends with what it may be.
pub proof fn limits_are_refused_for_the_first_above_its_maximum(
    limits: RestVerificationLimits,
    network: NetworkParameters,
)
    ensures
        ({
            let deploys = limits.num_verifying_deploys > network.max_deploy_verifications;
            let executions = limits.num_verifying_executions > network.max_execute_verifications;
            let solutions = limits.num_verifying_solutions > network.max_solutions;
            let message = limits.refusal(network);
            &&& deploys ==> ("`"@ + "num_verifying_deploys"@ + "` ("@ + decimal(
                limits.num_verifying_deploys as nat,
            ) + ")"@).is_prefix_of(message) && (" ("@ + decimal(
                network.max_deploy_verifications as nat,
            ) + ")"@).is_suffix_of(message)
            &&& !deploys && executions ==> ("`"@ + "num_verifying_executions"@ + "` ("@ + decimal(
                limits.num_verifying_executions as nat,
            ) + ")"@).is_prefix_of(message) && (" ("@ + decimal(
                network.max_execute_verifications as nat,
            ) + ")"@).is_suffix_of(message)
            &&& !deploys && !executions && solutions ==> ("`"@ + "num_verifying_solutions"@ + "` ("@
                + decimal(limits.num_verifying_solutions as nat) + ")"@).is_prefix_of(message) && (
            " ("@ + decimal(network.max_solutions as nat) + ")"@).is_suffix_of(message)
        }),
{
    lemma_limit_exceeded(
        "num_verifying_deploys"@,
        limits.num_verifying_deploys as nat,
        "MAX_PARALLEL_DEPLOY_VERIFICATIONS"@,
        network.max_deploy_verifications as nat,
    );
    lemma_limit_exceeded(
        "num_verifying_executions"@,
        limits.num_verifying_executions as nat,
        "MAX_PARALLEL_EXECUTE_VERIFICATIONS"@,
        network.max_execute_verifications as nat,
    );
    lemma_limit_exceeded(
        "num_verifying_solutions"@,
        limits.num_verifying_solutions as nat,
        "MAX_SOLUTIONS"@,
        network.max_solutions as nat,
    );
}

/// The message for a limit starts with its name and what it is, and ends with what it may be.
proof fn lemma_limit_exceeded(name: Seq<char>, limit: nat, max_name: Seq<char>, max: nat)
    ensures
        ("`"@ + name + "` ("@ + decimal(limit) + ")"@).is_prefix_of(
            limit_exceeded(name, limit, max_name, max),
        ),
        (" ("@ + decimal(max) + ")"@).is_suffix_of(limit_exceeded(name, limit, max_name, max)),
{
    reveal_strlit(")");
    reveal_strlit(") cannot exceed ");
    let message = limit_exceeded(name, limit, max_name, max);
    let front = "`"@ + name + "` ("@ + decimal(limit) + ")"@;
    let end = " ("@ + decimal(max) + ")"@;
    assert(message.subrange(0, front.len() as int) =~= front);
    assert(message.subrange(message.len() - end.len(), message.len() as int) =~= end);
}

/// A verification that finds the queue full is told that there are too many.
pub proof fn a_full_queue_is_told()
    ensures
        queue_full().status == 429,
        queue_full().chain.len() == 1,
{
}

} // verus!
