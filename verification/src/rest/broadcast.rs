//! The flow of broadcasting a transaction or a solution.
//!
//! A submission that is not checked is accepted whether the node is synced or not (200). One that is
//! checked and valid is accepted, with a different status while the node is out of sync (200 or 203).
//! One that is checked and invalid is refused (422), or, while the node is out of sync and may not be
//! able to validate it, answered as unavailable (503). A transaction that the memory pool of the node
//! does not take is refused as well (500). Before any of this, a transaction that is too large (400)
//! and a solution of a prover that has reached its limit (422) are not admitted at all.
use crate::rest::answers::TaskError;
use crate::rest::error::{
    error_in_context, error_with, outermost, shown, RestError, RestErrorModel, BAD_REQUEST,
    INTERNAL_SERVER_ERROR, NON_AUTHORITATIVE_INFORMATION, OK, SERVICE_UNAVAILABLE,
    UNPROCESSABLE_ENTITY,
};
use crate::rest::v1::{fmt_id, formatted_id};
use crate::text::{a_text_occurs_where_it_stands, occurs, texts};
use vstd::prelude::*;

verus! {

/// Why the body of a request is not what is submitted.
#[derive(Debug)]
pub enum BodyRejection {
    /// It is JSON, but of something else.
    Data(String),
    /// It was not read, for a reason that has a status of its own.
    Other { status: u16, message: String },
}

/// Returns the error for a body that is not a transaction.
pub fn refuse_transaction_body(rejection: BodyRejection) -> (error: RestError)
    ensures
        error@ == (match rejection {
            BodyRejection::Data(message) => error_with(
                UNPROCESSABLE_ENTITY,
                "Invalid transaction data: "@ + message@,
            ),
            BodyRejection::Other { status, message } => error_with(status, message@),
        }),
{
    match rejection {
        BodyRejection::Data(message) => {
            let mut text = "Invalid transaction data: ".to_owned();
            text.append(message.as_str());
            RestError::new(UNPROCESSABLE_ENTITY, text)
        },
        BodyRejection::Other { status, message } => RestError::new(status, message),
    }
}

/// The error for a transaction that is too large.
pub open spec fn transaction_too_large() -> RestErrorModel {
    error_with(BAD_REQUEST, "Transaction size exceeds the byte limit"@)
}

/// Ensures that a transaction, of which the serialized size is given, is within the size limit.
pub fn check_transaction_size(size: usize, max_transaction_size: usize) -> (result: Result<
    (),
    RestError,
>)
    ensures
        match result {
            Ok(()) => size <= max_transaction_size,
            Err(error) => size > max_transaction_size && error@ == transaction_too_large(),
        },
{
    if size > max_transaction_size {
        Err(RestError::new(BAD_REQUEST, "Transaction size exceeds the byte limit".to_owned()))
    } else {
        Ok(())
    }
}

/// The error for a solution of a prover that has reached its limit.
pub open spec fn solution_limit_reached(solution_id: Seq<char>, prover: Seq<char>) -> RestErrorModel {
    error_with(
        UNPROCESSABLE_ENTITY,
        "Invalid solution '"@ + formatted_id(solution_id) + "' - Prover '"@ + prover
            + "' has reached their solution limit for the current epoch"@,
    )
}

/// Ensures that the prover of a solution has not reached its limit. This prevents solutions that
/// will be aborted from propagating through the network.
pub fn check_solution_limit(is_limit_reached: bool, solution_id: &str, prover: &str) -> (result:
    Result<(), RestError>)
    ensures
        match result {
            Ok(()) => !is_limit_reached,
            Err(error) => is_limit_reached && error@ == solution_limit_reached(
                solution_id@,
                prover@,
            ),
        },
{
    if is_limit_reached {
        let mut message = "Invalid solution '".to_owned();
        message.append(fmt_id(solution_id).as_str());
        message.append("' - Prover '");
        message.append(prover);
        message.append("' has reached their solution limit for the current epoch");
        Err(RestError::new(UNPROCESSABLE_ENTITY, message))
    } else {
        Ok(())
    }
}

/// The error for a transaction that is not valid.
pub open spec fn invalid_transaction(
    is_within_sync_leniency: bool,
    chain: Seq<Seq<char>>,
) -> RestErrorModel {
    if is_within_sync_leniency {
        error_in_context(UNPROCESSABLE_ENTITY, "Invalid transaction"@, chain)
    } else {
        error_in_context(
            SERVICE_UNAVAILABLE,
            "Unable to validate transaction (node is syncing)"@,
            chain,
        )
    }
}

/// Returns the error for a transaction that is not valid. While the node is out of sync it may not
/// be able to validate the transaction.
pub fn refuse_transaction(is_within_sync_leniency: bool, chain: Vec<String>) -> (error: RestError)
    ensures
        error@ == invalid_transaction(is_within_sync_leniency, texts(chain@)),
{
    if is_within_sync_leniency {
        RestError::with_context(UNPROCESSABLE_ENTITY, "Invalid transaction".to_owned(), chain)
    } else {
        RestError::with_context(
            SERVICE_UNAVAILABLE,
            "Unable to validate transaction (node is syncing)".to_owned(),
            chain,
        )
    }
}

/// The error for a solution that is not valid.
pub open spec fn invalid_solution(
    is_within_sync_leniency: bool,
    solution_id: Seq<char>,
    chain: Seq<Seq<char>>,
) -> RestErrorModel {
    if is_within_sync_leniency {
        error_in_context(
            UNPROCESSABLE_ENTITY,
            "Invalid solution '"@ + formatted_id(solution_id) + "'"@,
            chain,
        )
    } else {
        error_with(
            SERVICE_UNAVAILABLE,
            "Unable to validate solution '"@ + formatted_id(solution_id)
                + "' (node is syncing)"@,
        )
    }
}

/// Returns the error for a solution that was not found valid. While the node is out of sync it may
/// not be able to validate the solution.
pub fn refuse_solution(is_within_sync_leniency: bool, solution_id: &str, error: TaskError) -> (answer:
    RestError)
    ensures
        answer@ == (match error {
            TaskError::Run(chain) => invalid_solution(
                is_within_sync_leniency,
                solution_id@,
                texts(chain@),
            ),
            TaskError::Join(chain) => error_with(
                INTERNAL_SERVER_ERROR,
                "Tokio error: "@ + shown(texts(chain@)),
            ),
        }),
{
    match error {
        TaskError::Run(chain) => {
            if is_within_sync_leniency {
                let mut context = "Invalid solution '".to_owned();
                context.append(fmt_id(solution_id).as_str());
                context.append("'");
                RestError::with_context(UNPROCESSABLE_ENTITY, context, chain)
            } else {
                let mut message = "Unable to validate solution '".to_owned();
                message.append(fmt_id(solution_id).as_str());
                message.append("' (node is syncing)");
                RestError::new(SERVICE_UNAVAILABLE, message)
            }
        },
        TaskError::Join(chain) => {
            let mut message = "Tokio error: ".to_owned();
            message.append(outermost(&chain).as_str());
            RestError::new(INTERNAL_SERVER_ERROR, message)
        },
    }
}

/// Why a transaction is not admitted, if it is not.
pub open spec fn transaction_admission(size: usize, max_transaction_size: usize) -> Option<
    RestErrorModel,
> {
    if size > max_transaction_size {
        Some(transaction_too_large())
    } else {
        None
    }
}

/// Why a solution is not admitted, if it is not.
pub open spec fn solution_admission(
    is_limit_reached: bool,
    solution_id: Seq<char>,
    prover: Seq<char>,
) -> Option<RestErrorModel> {
    if is_limit_reached {
        Some(solution_limit_reached(solution_id, prover))
    } else {
        None
    }
}

/// What is submitted.
#[derive(Clone, Copy, Debug, PartialEq, Eq, Structural)]
pub enum Submission {
    Transaction,
    Solution,
}

/// A submission on its way to be broadcast.
#[derive(Clone, Copy, Debug, PartialEq, Eq, Structural)]
pub struct Broadcast {
    /// What is submitted.
    pub submission: Submission,
    /// Whether it is checked before it is broadcast.
    pub check: bool,
    /// Whether the node is close enough to the tip.
    pub is_within_sync_leniency: bool,
    /// Whether the node has a memory pool.
    pub has_consensus: bool,
}

/// What is done next with a submission.
#[derive(Debug)]
pub enum BroadcastStep {
    /// Take a verification slot, and verify the submission.
    Verify,
    /// Add the submission to the memory pool.
    Pool,
    /// Send the submission to the peers.
    Propagate,
    /// Answer with the status and the submission's ID.
    Accept(u16),
    /// Answer with the error.
    Refuse(RestError),
}

/// The content of a step.
pub enum BroadcastStepModel {
    Verify,
    Pool,
    Propagate,
    Accept(u16),
    Refuse(RestErrorModel),
}

impl View for BroadcastStep {
    type V = BroadcastStepModel;

    open spec fn view(&self) -> BroadcastStepModel {
        match *self {
            BroadcastStep::Verify => BroadcastStepModel::Verify,
            BroadcastStep::Pool => BroadcastStepModel::Pool,
            BroadcastStep::Propagate => BroadcastStepModel::Propagate,
            BroadcastStep::Accept(status) => BroadcastStepModel::Accept(status),
            BroadcastStep::Refuse(error) => BroadcastStepModel::Refuse(error@),
        }
    }
}

impl Broadcast {
    /// What is done with a submission that is to be broadcast.
    pub open spec fn cleared(self) -> BroadcastStepModel {
        if self.has_consensus {
            BroadcastStepModel::Pool
        } else {
            BroadcastStepModel::Propagate
        }
    }

    /// What is done first with a submission that is admitted.
    pub open spec fn first(self) -> BroadcastStepModel {
        if self.check {
            BroadcastStepModel::Verify
        } else {
            self.cleared()
        }
    }

    /// What is done first with a submission, which is admitted or not for an error.
    pub open spec fn opened(self, admission: Option<RestErrorModel>) -> BroadcastStepModel {
        match admission {
            Some(error) => BroadcastStepModel::Refuse(error),
            None => self.first(),
        }
    }

    /// What is done after the verification, which has given an error or none.
    pub open spec fn verified(self, refusal: Option<RestErrorModel>) -> BroadcastStepModel {
        match refusal {
            Some(error) => BroadcastStepModel::Refuse(error),
            None => self.cleared(),
        }
    }

    /// What is done after the submission was handed to the memory pool, which has refused it with a
    /// chain of messages or not. A solution is broadcast all the same.
    pub open spec fn pooled(self, refusal: Option<Seq<Seq<char>>>) -> BroadcastStepModel {
        match (self.submission, refusal) {
            (Submission::Transaction, Some(chain)) => BroadcastStepModel::Refuse(
                RestErrorModel { status: INTERNAL_SERVER_ERROR, chain },
            ),
            _ => BroadcastStepModel::Propagate,
        }
    }

    /// The status with which a submission is accepted.
    pub open spec fn accepted(self) -> u16 {
        if !self.is_within_sync_leniency && self.check {
            NON_AUTHORITATIVE_INFORMATION
        } else {
            OK
        }
    }

    /// What is done after a step, by what the verification and the memory pool have given where the
    /// step was theirs. An answer is the last step.
    pub open spec fn after(
        self,
        step: BroadcastStepModel,
        verification: Option<RestErrorModel>,
        pool: Option<Seq<Seq<char>>>,
    ) -> BroadcastStepModel {
        match step {
            BroadcastStepModel::Verify => self.verified(verification),
            BroadcastStepModel::Pool => self.pooled(pool),
            BroadcastStepModel::Propagate => BroadcastStepModel::Accept(self.accepted()),
            answer => answer,
        }
    }

    /// The step with the given number on the way of a submission, counted from zero.
    pub open spec fn step(
        self,
        number: nat,
        admission: Option<RestErrorModel>,
        verification: Option<RestErrorModel>,
        pool: Option<Seq<Seq<char>>>,
    ) -> BroadcastStepModel
        decreases number,
    {
        if number == 0 {
            self.opened(admission)
        } else {
            self.after(
                self.step((number - 1) as nat, admission, verification, pool),
                verification,
                pool,
            )
        }
    }

    /// The answer to a submission.
    pub open spec fn answer(
        self,
        admission: Option<RestErrorModel>,
        verification: Option<RestErrorModel>,
        pool: Option<Seq<Seq<char>>>,
    ) -> BroadcastStepModel {
        self.step(3, admission, verification, pool)
    }

    /// Whether the memory pool of the node refuses the submission, so that it is not broadcast.
    pub open spec fn kept_out(self, pool: Option<Seq<Seq<char>>>) -> bool {
        self.has_consensus && self.submission is Transaction && pool is Some
    }

    /// Returns what is done with a submission that is to be broadcast.
    fn clear(&self) -> (step: BroadcastStep)
        ensures
            step@ == self.cleared(),
    {
        if self.has_consensus {
            BroadcastStep::Pool
        } else {
            BroadcastStep::Propagate
        }
    }

    /// Returns what is done first with a submission that is admitted.
    pub fn begin(&self) -> (step: BroadcastStep)
        ensures
            step@ == self.first(),
    {
        if self.check {
            BroadcastStep::Verify
        } else {
            self.clear()
        }
    }

    /// Returns what is done first with a transaction, of which the serialized size is given.
    pub fn begin_transaction(&self, size: usize, max_transaction_size: usize) -> (step:
        BroadcastStep)
        ensures
            step@ == self.opened(transaction_admission(size, max_transaction_size)),
    {
        match check_transaction_size(size, max_transaction_size) {
            Ok(()) => self.begin(),
            Err(error) => BroadcastStep::Refuse(error),
        }
    }

    /// Returns what is done first with a solution of a prover, which has reached its limit or not.
    pub fn begin_solution(&self, is_limit_reached: bool, solution_id: &str, prover: &str) -> (step:
        BroadcastStep)
        ensures
            step@ == self.opened(solution_admission(is_limit_reached, solution_id@, prover@)),
    {
        match check_solution_limit(is_limit_reached, solution_id, prover) {
            Ok(()) => self.begin(),
            Err(error) => BroadcastStep::Refuse(error),
        }
    }

    /// Returns what is done after the verification, which has given an error or none.
    pub fn after_verification(&self, refusal: Option<RestError>) -> (step: BroadcastStep)
        ensures
            step@ == self.verified(
                match refusal {
                    Some(error) => Some(error@),
                    None => None,
                },
            ),
    {
        match refusal {
            Some(error) => BroadcastStep::Refuse(error),
            None => self.clear(),
        }
    }

    /// Returns what is done after the submission was handed to the memory pool, which has refused it
    /// with a chain of messages or not.
    pub fn after_pool(&self, refusal: Option<Vec<String>>) -> (step: BroadcastStep)
        ensures
            step@ == self.pooled(
                match refusal {
                    Some(chain) => Some(texts(chain@)),
                    None => None,
                },
            ),
    {
        match (self.submission, refusal) {
            (Submission::Transaction, Some(chain)) => BroadcastStep::Refuse(
                RestError { status: INTERNAL_SERVER_ERROR, chain },
            ),
            _ => BroadcastStep::Propagate,
        }
    }

    /// Returns what is done after the submission was sent to the peers.
    pub fn after_propagation(&self) -> (step: BroadcastStep)
        ensures
            step@ == BroadcastStepModel::Accept(self.accepted()),
    {
        if !self.is_within_sync_leniency && self.check {
            BroadcastStep::Accept(NON_AUTHORITATIVE_INFORMATION)
        } else {
            BroadcastStep::Accept(OK)
        }
    }
}

/// A submission that is not checked is never verified, and accepted with the plain status, whether
/// the node is synced or not, unless the memory pool keeps it out.
pub proof fn an_unchecked_submission_is_accepted(
    broadcast: Broadcast,
    verification: Option<RestErrorModel>,
    pool: Option<Seq<Seq<char>>>,
)
    requires
        !broadcast.check,
    ensures
        forall|number: nat| !((#[trigger] broadcast.step(number, None, verification, pool)) is Verify),
        !broadcast.kept_out(pool) ==> broadcast.answer(None, verification, pool)
            == BroadcastStepModel::Accept(OK),
{
    assert forall|number: nat| !((#[trigger] broadcast.step(number, None, verification, pool)) is Verify) by {
        lemma_verified_once(broadcast, number, verification, pool);
    }
    reveal_with_fuel(Broadcast::step, 4);
}

/// A submission that is checked is verified before anything else is done with it. If it is valid it
/// is accepted with a status that tells whether the node is synced, unless the memory pool keeps it
/// out.
pub proof fn a_valid_submission_is_accepted(broadcast: Broadcast, pool: Option<Seq<Seq<char>>>)
    requires
        broadcast.check,
    ensures
        broadcast.first() == BroadcastStepModel::Verify,
        !broadcast.kept_out(pool) ==> broadcast.answer(None, None, pool) == BroadcastStepModel::Accept(
            if broadcast.is_within_sync_leniency {
                OK
            } else {
                NON_AUTHORITATIVE_INFORMATION
            },
        ),
{
    reveal_with_fuel(Broadcast::step, 4);
}

/// A submission that is checked and not valid is neither added to the memory pool nor sent to the
/// peers. The status of the answer tells whether the node is synced.
pub proof fn an_invalid_submission_is_refused(
    broadcast: Broadcast,
    solution_id: Seq<char>,
    chain: Seq<Seq<char>>,
    pool: Option<Seq<Seq<char>>>,
)
    requires
        broadcast.check,
    ensures
        ({
            let error = match broadcast.submission {
                Submission::Transaction => invalid_transaction(
                    broadcast.is_within_sync_leniency,
                    chain,
                ),
                Submission::Solution => invalid_solution(
                    broadcast.is_within_sync_leniency,
                    solution_id,
                    chain,
                ),
            };
            &&& broadcast.answer(None, Some(error), pool) == BroadcastStepModel::Refuse(error)
            &&& error.status == (if broadcast.is_within_sync_leniency {
                UNPROCESSABLE_ENTITY
            } else {
                SERVICE_UNAVAILABLE
            })
            &&& forall|number: nat|
                {
                    &&& !((#[trigger] broadcast.step(number, None, Some(error), pool)) is Pool)
                    &&& !(broadcast.step(number, None, Some(error), pool) is Propagate)
                }
        }),
{
    reveal_with_fuel(Broadcast::step, 4);
    let error = match broadcast.submission {
        Submission::Transaction => invalid_transaction(broadcast.is_within_sync_leniency, chain),
        Submission::Solution => invalid_solution(
            broadcast.is_within_sync_leniency,
            solution_id,
            chain,
        ),
    };
    assert forall|number: nat|
        {
            &&& !((#[trigger] broadcast.step(number, None, Some(error), pool)) is Pool)
            &&& !(broadcast.step(number, None, Some(error), pool) is Propagate)
        } by {
        lemma_verified_once(broadcast, number, Some(error), pool);
    }
}

/// Every submission is answered after at most three steps, and nothing is done with it afterwards.
pub proof fn a_submission_is_answered_once(
    broadcast: Broadcast,
    number: nat,
    admission: Option<RestErrorModel>,
    verification: Option<RestErrorModel>,
    pool: Option<Seq<Seq<char>>>,
)
    requires
        number >= 3,
    ensures
        broadcast.step(number, admission, verification, pool) == broadcast.answer(
            admission,
            verification,
            pool,
        ),
        broadcast.answer(admission, verification, pool) is Accept || broadcast.answer(
            admission,
            verification,
            pool,
        ) is Refuse,
    decreases number,
{
    reveal_with_fuel(Broadcast::step, 4);
    if number > 3 {
        a_submission_is_answered_once(
            broadcast,
            (number - 1) as nat,
            admission,
            verification,
            pool,
        );
    }
}

/// A submission that is not admitted is refused at once, and never verified, added to the memory pool
/// or sent to the peers.
pub proof fn what_is_not_admitted_goes_nowhere(
    broadcast: Broadcast,
    number: nat,
    error: RestErrorModel,
    verification: Option<RestErrorModel>,
    pool: Option<Seq<Seq<char>>>,
)
    ensures
        broadcast.step(number, Some(error), verification, pool) == BroadcastStepModel::Refuse(
            error,
        ),
    decreases number,
{
    if number > 0 {
        what_is_not_admitted_goes_nowhere(
            broadcast,
            (number - 1) as nat,
            error,
            verification,
            pool,
        );
    }
}

/// A solution of a prover that has reached its limit is refused as unprocessable: no step on its way
/// is to verify it, to add it to the memory pool or to send it to the peers, whether it is checked or
/// not and whether the node is synced or not.
pub proof fn a_solution_over_the_limit_goes_nowhere(
    broadcast: Broadcast,
    number: nat,
    solution_id: Seq<char>,
    prover: Seq<char>,
    verification: Option<RestErrorModel>,
    pool: Option<Seq<Seq<char>>>,
)
    ensures
        ({
            let step = broadcast.step(
                number,
                solution_admission(true, solution_id, prover),
                verification,
                pool,
            );
            &&& step == BroadcastStepModel::Refuse(solution_limit_reached(solution_id, prover))
            &&& solution_limit_reached(solution_id, prover).status == UNPROCESSABLE_ENTITY
            &&& !(step is Verify) && !(step is Pool) && !(step is Propagate)
        }),
{
    what_is_not_admitted_goes_nowhere(
        broadcast,
        number,
        solution_limit_reached(solution_id, prover),
        verification,
        pool,
    );
}

/// What the verification allows on the way of a submission: it comes first or not at all, and what
/// it refuses is answered next.
proof fn lemma_verified_once(
    broadcast: Broadcast,
    number: nat,
    verification: Option<RestErrorModel>,
    pool: Option<Seq<Seq<char>>>,
)
    ensures
        broadcast.step(number, None, verification, pool) is Verify ==> broadcast.check && number == 0,
        broadcast.check && verification is Some && number > 0 ==> broadcast.step(
            number,
            None,
            verification,
            pool,
        ) == BroadcastStepModel::Refuse(verification->0),
    decreases number,
{
    if number > 0 {
        lemma_verified_once(broadcast, (number - 1) as nat, verification, pool);
    }
}

/// What the memory pool has not refused is sent to the peers, and so is a solution that it has.
pub proof fn what_is_pooled_is_propagated(broadcast: Broadcast, chain: Seq<Seq<char>>)
    ensures
        broadcast.pooled(None) == BroadcastStepModel::Propagate,
        broadcast.submission is Solution ==> broadcast.pooled(Some(chain))
            == BroadcastStepModel::Propagate,
        broadcast.submission is Transaction ==> broadcast.pooled(Some(chain))
            == BroadcastStepModel::Refuse(
            (RestErrorModel { status: INTERNAL_SERVER_ERROR, chain }),
        ),
{
}

/// A transaction is admitted exactly if it is not larger than the maximum, which it may reach, and
/// refused as a bad request otherwise; a solution is admitted exactly if its prover has not reached
/// the limit, and refused as unprocessable by the name of the prover otherwise.
pub proof fn what_is_within_the_limits_is_admitted(
    size: usize,
    max_transaction_size: usize,
    is_limit_reached: bool,
    solution_id: Seq<char>,
    prover: Seq<char>,
)
    ensures
        transaction_admission(size, max_transaction_size) is None <==> size <= max_transaction_size,
        transaction_admission(size, max_transaction_size) matches Some(error) ==> error.status
            == 400,
        solution_admission(is_limit_reached, solution_id, prover) is None <==> !is_limit_reached,
        solution_admission(is_limit_reached, solution_id, prover) matches Some(error)
            ==> error.status == 422 && occurs(error.chain[0], "'"@ + prover + "'"@) && occurs(
            error.chain[0],
            "'"@ + formatted_id(solution_id) + "'"@,
        ),
{
    reveal_strlit("'");
    reveal_strlit("Invalid solution ");
    reveal_strlit("Invalid solution '");
    reveal_strlit("' - Prover '");
    reveal_strlit(" - Prover ");
    reveal_strlit("' has reached their solution limit for the current epoch");
    reveal_strlit(" has reached their solution limit for the current epoch");
    let id = "'"@ + formatted_id(solution_id) + "'"@;
    let name = "'"@ + prover + "'"@;
    let end = " has reached their solution limit for the current epoch"@;
    let message = solution_limit_reached(solution_id, prover).chain[0];
    assert(message =~= "Invalid solution "@ + id + (" - Prover "@ + name + end));
    a_text_occurs_where_it_stands("Invalid solution "@, id, " - Prover "@ + name + end);
    assert(message =~= "Invalid solution "@ + id + " - Prover "@ + name + end);
    a_text_occurs_where_it_stands("Invalid solution "@ + id + " - Prover "@, name, end);
}

/// A transaction that is not valid keeps the errors that tell why, whether the node is synced or not;
/// a solution keeps them only if the node is synced. The status is that of an invalid submission, or
/// of a node that cannot tell.
pub proof fn an_invalid_submission_keeps_its_errors(
    is_within_sync_leniency: bool,
    solution_id: Seq<char>,
    chain: Seq<Seq<char>>,
)
    ensures
        invalid_transaction(is_within_sync_leniency, chain).chain.skip(1) == chain,
        invalid_transaction(true, chain).status == 422,
        invalid_transaction(false, chain).status == 503,
        invalid_solution(true, solution_id, chain).chain.skip(1) == chain,
        invalid_solution(true, solution_id, chain).status == 422,
        invalid_solution(false, solution_id, chain).chain.len() == 1,
        invalid_solution(false, solution_id, chain).status == 503,
        occurs(
            invalid_solution(is_within_sync_leniency, solution_id, chain).chain[0],
            "'"@ + formatted_id(solution_id) + "'"@,
        ),
{
    reveal_strlit("'");
    reveal_strlit("Invalid solution ");
    reveal_strlit("Invalid solution '");
    reveal_strlit("Unable to validate solution ");
    reveal_strlit("Unable to validate solution '");
    reveal_strlit("' (node is syncing)");
    reveal_strlit(" (node is syncing)");
    let quoted = "'"@ + formatted_id(solution_id) + "'"@;
    assert(invalid_transaction(is_within_sync_leniency, chain).chain.skip(1) =~= chain);
    assert(invalid_solution(true, solution_id, chain).chain.skip(1) =~= chain);
    assert(invalid_solution(true, solution_id, chain).chain[0] =~= "Invalid solution "@ + quoted
        + Seq::<char>::empty());
    assert(invalid_solution(false, solution_id, chain).chain[0]
        =~= "Unable to validate solution "@ + quoted + " (node is syncing)"@);
    a_text_occurs_where_it_stands("Invalid solution "@, quoted, Seq::empty());
    a_text_occurs_where_it_stands("Unable to validate solution "@, quoted, " (node is syncing)"@);
}

/// A submission is accepted with the plain status, but for one that was checked by a node that is out
/// of sync.
pub proof fn the_status_tells_what_was_checked_out_of_sync(broadcast: Broadcast)
    ensures
        broadcast.accepted() == 203 <==> broadcast.check && !broadcast.is_within_sync_leniency,
        broadcast.accepted() == 200 <==> !broadcast.check || broadcast.is_within_sync_leniency,
{
}

/// What a node with a memory pool broadcasts goes through the pool first, and what a node without one
/// broadcasts goes to the peers at once; nothing is accepted that was not sent to the peers.
pub proof fn nothing_is_accepted_before_it_is_sent(
    broadcast: Broadcast,
    number: nat,
    admission: Option<RestErrorModel>,
    verification: Option<RestErrorModel>,
    pool: Option<Seq<Seq<char>>>,
)
    ensures
        ({
            let step = broadcast.step(number, admission, verification, pool);
            let next = broadcast.step(number + 1, admission, verification, pool);
            &&& step is Pool ==> broadcast.has_consensus
            &&& next is Accept && !(step is Accept) ==> step is Propagate
            &&& next is Propagate ==> step is Pool == broadcast.has_consensus
            &&& broadcast.step(0, admission, verification, pool) is Propagate
                ==> !broadcast.has_consensus
            &&& !(broadcast.step(0, admission, verification, pool) is Accept)
        }),
    decreases number,
{
    if number > 0 {
        nothing_is_accepted_before_it_is_sent(
            broadcast,
            (number - 1) as nat,
            admission,
            verification,
            pool,
        );
    }
}

/// A transaction that the memory pool keeps out is refused as a fault with what the pool says, if it
/// is valid or not checked.
pub proof fn what_the_pool_keeps_out_is_refused(broadcast: Broadcast, chain: Seq<Seq<char>>)
    ensures
        broadcast.kept_out(Some(chain)) <==> broadcast.has_consensus
            && broadcast.submission is Transaction,
        !broadcast.kept_out(None),
        broadcast.kept_out(Some(chain)) ==> broadcast.answer(None, None, Some(chain))
            == BroadcastStepModel::Refuse((RestErrorModel { status: 500, chain })),
{
    reveal_with_fuel(Broadcast::step, 4);
}

/// The content of a step tells what is done, and with what.
pub proof fn the_content_of_a_step_is_what_is_done(step: BroadcastStep)
    ensures
        step@ is Verify <==> step is Verify,
        step@ is Pool <==> step is Pool,
        step@ is Propagate <==> step is Propagate,
        step matches BroadcastStep::Accept(status) ==> step@ == BroadcastStepModel::Accept(status),
        step matches BroadcastStep::Refuse(error) ==> step@ == BroadcastStepModel::Refuse(error@),
{
}

/// Whatever the verification of a submission that is checked gives as an error is the answer to it, as
/// it is.
pub proof fn what_the_verification_refuses_is_refused(
    broadcast: Broadcast,
    error: RestErrorModel,
    pool: Option<Seq<Seq<char>>>,
)
    requires
        broadcast.check,
    ensures
        broadcast.answer(None, Some(error), pool) == BroadcastStepModel::Refuse(error),
        broadcast.verified(Some(error)) == BroadcastStepModel::Refuse(error),
{
    reveal_with_fuel(Broadcast::step, 4);
}

} // verus!
