//! Whether a node is to stop, and who is told of it.
use vstd::prelude::*;

verus! {

/// Generic trait that can be queried for whether current process should be stopped.
pub trait Stoppable {
    /// Whether the node is (in the process of being) stopped.
    spec fn stopped(&self) -> bool;

    /// Initiates shutdown of the node.
    fn stop(&mut self)
        ensures
            final(self).stopped(),
    ;

    /// Returns `true` if the node is (in the process of being) stopped.
    fn is_stopped(&self) -> (stopped: bool)
        ensures
            stopped == self.stopped(),
    ;
}

/// A flag that implements the `Stoppable` trait.
///
/// This is useful when no signal or complex shutdown handling is necessary (e.g., in a test environment).
#[derive(Debug)]
pub struct SimpleStoppable {
    state: bool,
}

impl SimpleStoppable {
    /// Initializes the flag of a node that runs.
    pub fn new() -> (stoppable: Self)
        ensures
            !stoppable.stopped(),
    {
        SimpleStoppable { state: false }
    }
}

impl Stoppable for SimpleStoppable {
    closed spec fn stopped(&self) -> bool {
        self.state
    }

    fn stop(&mut self) {
        self.state = true;
    }

    fn is_stopped(&self) -> (stopped: bool) {
        self.state
    }
}

/// What a signal handler stands for.
pub struct SignalModel {
    /// Whether the node is (in the process of being) stopped.
    pub stopped: bool,
    /// Whether no task has waited yet for the node to be stopped.
    pub can_wait: bool,
    /// Whether the waiting task is to be told of the stop and has not been.
    pub notice: bool,
}

/// A handler of a node that runs and that no task has waited for.
pub open spec fn running() -> SignalModel {
    SignalModel { stopped: false, can_wait: true, notice: false }
}

/// What becomes of a handler whose node is stopped. The first stop leaves a notice for the waiting
/// task, and another changes nothing.
pub open spec fn after_stop(handler: SignalModel) -> SignalModel {
    SignalModel { stopped: true, notice: handler.notice || !handler.stopped, ..handler }
}

/// What becomes of a handler whose node is stopped a number of times.
pub open spec fn after_stops(handler: SignalModel, times: nat) -> SignalModel
    decreases times,
{
    if times == 0 {
        handler
    } else {
        after_stop(after_stops(handler, (times - 1) as nat))
    }
}

/// What becomes of a handler when a task starts to wait, and whether the wait is over at once. If it
/// is, the task has taken the notice.
pub open spec fn after_wait(handler: SignalModel) -> (SignalModel, bool) {
    (SignalModel { can_wait: false, notice: false, ..handler }, handler.stopped)
}

/// What becomes of a handler when the waiting task looks for the notice, and whether there was one,
/// with which the wait is over.
pub open spec fn after_notice(handler: SignalModel) -> (SignalModel, bool) {
    (SignalModel { notice: false, ..handler }, handler.notice)
}

/// How far the word of a stop has come.
#[derive(Clone, Copy, Debug, PartialEq, Eq, Structural)]
enum Word {
    /// The node runs.
    Unsent,
    /// The node was stopped, and the waiting task has not been told.
    Sent,
    /// The node was stopped, and the waiting task was told.
    Received,
}

/// Helper for signal handling: whether the node has been stopped, and whether the one task that may
/// wait for it has been told.
#[derive(Debug)]
pub struct SignalHandler {
    /// How far the word of a stop has come. If it was sent, the node is in the process of shutting
    /// down.
    word: Word,
    /// Whether no task has waited yet.
    has_receiver: bool,
}

impl View for SignalHandler {
    type V = SignalModel;

    closed spec fn view(&self) -> SignalModel {
        SignalModel {
            stopped: self.word != Word::Unsent,
            can_wait: self.has_receiver,
            notice: self.word == Word::Sent,
        }
    }
}

impl SignalHandler {
    /// Initializes the handler of a node that runs and that no task has waited for.
    pub fn new() -> (handler: Self)
        ensures
            handler@ == running(),
    {
        SignalHandler { word: Word::Unsent, has_receiver: true }
    }

    /// Stops the node. Returns `true` if a notice was left for the waiting task, which is the case
    /// exactly once: when the node was not stopped before.
    pub fn notify_stop(&mut self) -> (notify: bool)
        ensures
            final(self)@ == after_stop(old(self)@),
            notify == !old(self)@.stopped,
    {
        match self.word {
            Word::Unsent => {
                self.word = Word::Sent;
                true
            },
            _ => false,
        }
    }

    /// Returns whether no task has waited yet for the node to be stopped.
    pub fn can_wait(&self) -> (result: bool)
        ensures
            result == self@.can_wait,
    {
        self.has_receiver
    }

    /// Claims the wait for the node to be stopped, which is granted at most once. Returns `true` if
    /// the wait is over at once, because the node is stopped. If not, it is over when the waiting
    /// task takes the notice.
    pub fn wait_for_signals(&mut self) -> (done: bool)
        requires
            old(self)@.can_wait,
        ensures
            (final(self)@, done) == after_wait(old(self)@),
    {
        self.has_receiver = false;
        match self.word {
            Word::Unsent => false,
            _ => {
                self.word = Word::Received;
                true
            },
        }
    }

    /// Takes the notice that the node was stopped, if there is one. The wait of the task that takes
    /// it is over.
    pub fn take_notice(&mut self) -> (told: bool)
        requires
            !old(self)@.can_wait,
        ensures
            (final(self)@, told) == after_notice(old(self)@),
    {
        match self.word {
            Word::Sent => {
                self.word = Word::Received;
                true
            },
            _ => false,
        }
    }
}

impl Stoppable for SignalHandler {
    open spec fn stopped(&self) -> bool {
        self@.stopped
    }

    fn stop(&mut self)
        ensures
            final(self)@ == after_stop(old(self)@),
    {
        self.notify_stop();
    }

    fn is_stopped(&self) -> (stopped: bool) {
        !matches!(self.word, Word::Unsent)
    }
}

/// Stopping latches: a node that was stopped stays stopped however often it is stopped again, and
/// stopping it again leaves neither a second notice nor any other trace.
pub proof fn a_stop_latches(handler: SignalModel, times: nat)
    ensures
        after_stops(handler, times).stopped == (handler.stopped || times > 0),
        after_stops(handler, times).can_wait == handler.can_wait,
        after_stops(handler, times).notice == (handler.notice || (!handler.stopped && times > 0)),
        times > 0 ==> after_stops(handler, times) == after_stop(handler),
    decreases times,
{
    if times > 0 {
        a_stop_latches(handler, (times - 1) as nat);
    }
}

/// A wait that starts before the node is stopped is not over until it is. Then the waiting task is
/// told, once, however often the node is stopped before and after that.
pub proof fn a_wait_before_a_stop_ends(handler: SignalModel, times: nat, more: nat)
    requires
        !handler.stopped,
        !handler.notice,
        handler.can_wait,
    ensures
        ({
            let (waiting, done) = after_wait(handler);
            let (told, notice) = after_notice(after_stops(waiting, times));
            &&& !done
            &&& notice == (times > 0)
            &&& told.stopped == (times > 0)
            &&& !waiting.can_wait
            &&& times > 0 ==> !after_notice(after_stops(told, more)).1
        }),
{
    let waiting = after_wait(handler).0;
    a_stop_latches(waiting, times);
    a_stop_latches(after_notice(after_stops(waiting, times)).0, more);
}

/// A wait that starts after the node was stopped, however often, can start and is over at once. The
/// waiting task is told of the stop by that, and not a second time.
pub proof fn a_wait_after_a_stop_ends_at_once(handler: SignalModel, times: nat, more: nat)
    requires
        handler.can_wait,
        times > 0,
    ensures
        ({
            let stopped = after_stops(handler, times);
            let (waiting, done) = after_wait(stopped);
            &&& stopped.can_wait
            &&& done
            &&& waiting.stopped
            &&& !waiting.can_wait
            &&& !after_notice(after_stops(waiting, more)).1
        }),
{
    a_stop_latches(handler, times);
    a_stop_latches(after_wait(after_stops(handler, times)).0, more);
}

/// The number of tasks that are left over when every task of a node has wound down: on Unix, the one
/// that watches the file descriptors.
pub open spec fn expected_leftover(unix: bool) -> nat {
    if unix {
        1
    } else {
        0
    }
}

/// Returns the number of tasks that outlive the shutdown of a node without cause, `None` if there
/// are none.
pub fn surplus_live_tasks(live_tasks: usize, unix: bool) -> (surplus: Option<usize>)
    ensures
        match surplus {
            Some(surplus) => surplus > 0 && surplus + expected_leftover(unix) == live_tasks,
            None => live_tasks <= expected_leftover(unix),
        },
{
    let expected: usize = if unix {
        1
    } else {
        0
    };
    if live_tasks > expected {
        Some(live_tasks - expected)
    } else {
        None
    }
}

/// A handler starts for a node that runs, with the wait to be claimed and nothing to be told.
pub proof fn a_handler_starts_for_a_node_that_runs()
    ensures
        !running().stopped,
        running().can_wait,
        !running().notice,
{
}

/// Waiting and taking the notice change neither whether the node is stopped nor, but for the wait that
/// is claimed, who may wait; and neither leaves a notice behind.
pub proof fn a_wait_stops_no_node(handler: SignalModel)
    ensures
        after_wait(handler).0.stopped == handler.stopped,
        !after_wait(handler).0.can_wait,
        !after_wait(handler).0.notice,
        after_notice(handler).0.stopped == handler.stopped,
        after_notice(handler).0.can_wait == handler.can_wait,
        !after_notice(handler).0.notice,
        after_notice(handler).1 == handler.notice,
        after_wait(handler).1 == handler.stopped,
{
}

/// The one task that is left over where it is expected is no surplus.
pub proof fn one_task_is_left_over_on_unix()
    ensures
        expected_leftover(true) == 1,
        expected_leftover(false) == 0,
{
}

} // verus!
