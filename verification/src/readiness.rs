//! Readiness-driven polling of a non-blocking socket operation (read,
//! write, flush, vectored write).
//!
//! A poll tries the operation; when the socket would block it parks on a
//! readiness waiter kept in a slot that outlives the poll, registering one
//! only when the slot is empty; when the waiter fires it tries again. The
//! caller runs the operation and the waiter and reports each outcome here;
//! `next_step` says what to do next and whether the slot holds a waiter.
use vstd::prelude::*;

verus! {

/// How a non-blocking attempt of the operation ended.
#[derive(Clone, Copy, Debug, PartialEq, Eq, Structural)]
pub enum Attempt {
    /// The socket would block (`ErrorKind::WouldBlock`).
    WouldBlock,
    /// Anything else: a count, `Ok(())`, or an error other than `WouldBlock`.
    Finished,
}

/// What polling the readiness waiter gave.
#[derive(Clone, Copy, Debug, PartialEq, Eq, Structural)]
pub enum Readiness {
    /// Not ready yet; the task will be woken.
    Pending,
    /// The socket became ready.
    Ready,
    /// The waiter reported an error.
    Failed,
}

/// What the caller reports.
#[derive(Clone, Copy, Debug, PartialEq, Eq, Structural)]
pub enum PollEvent {
    /// A poll begins.
    Started,
    /// The operation was attempted.
    Attempted(Attempt),
    /// A waiter was created and stored in the slot.
    Registered,
    /// The stored waiter was polled.
    Polled(Readiness),
}

/// What the caller does next.
#[derive(Clone, Copy, Debug, PartialEq, Eq, Structural)]
pub enum PollAction {
    /// Attempt the operation without blocking.
    TryOperation,
    /// Create a readiness waiter and store it in the slot.
    RegisterWaiter,
    /// Poll the waiter that the slot holds.
    PollWaiter,
    /// Return `Ready` with the attempt's result.
    ReturnResult,
    /// Return `Pending`, keeping the waiter in the slot.
    ReturnPending,
    /// Return `Ready` with the waiter's error.
    ReturnWaiterError,
}

/// The decision: the next action, and whether the slot holds a waiter
/// afterwards (when it does not, the caller empties it).
#[derive(Clone, Copy, Debug, PartialEq, Eq, Structural)]
pub struct PollStep {
    pub waiter_registered: bool,
    pub action: PollAction,
}

/// The decision table.
pub open spec fn step_of(registered: bool, event: PollEvent) -> PollStep {
    match event {
        PollEvent::Started => PollStep { waiter_registered: registered, action: PollAction::TryOperation },
        PollEvent::Attempted(Attempt::Finished) => PollStep {
            waiter_registered: false,
            action: PollAction::ReturnResult,
        },
        PollEvent::Attempted(Attempt::WouldBlock) => if registered {
            PollStep { waiter_registered: true, action: PollAction::PollWaiter }
        } else {
            PollStep { waiter_registered: false, action: PollAction::RegisterWaiter }
        },
        PollEvent::Registered => PollStep { waiter_registered: true, action: PollAction::PollWaiter },
        PollEvent::Polled(Readiness::Pending) => PollStep {
            waiter_registered: registered,
            action: PollAction::ReturnPending,
        },
        PollEvent::Polled(Readiness::Ready) => PollStep {
            waiter_registered: false,
            action: PollAction::TryOperation,
        },
        PollEvent::Polled(Readiness::Failed) => PollStep {
            waiter_registered: false,
            action: PollAction::ReturnWaiterError,
        },
    }
}

/// Decides the next step of a poll from whether the slot holds a waiter and
/// what the caller just reported.
pub fn next_step(registered: bool, event: PollEvent) -> (s: PollStep)
    ensures
        s == step_of(registered, event),
{
    match event {
        PollEvent::Started => PollStep { waiter_registered: registered, action: PollAction::TryOperation },
        PollEvent::Attempted(Attempt::Finished) => PollStep {
            waiter_registered: false,
            action: PollAction::ReturnResult,
        },
        PollEvent::Attempted(Attempt::WouldBlock) => {
            if registered {
                PollStep { waiter_registered: true, action: PollAction::PollWaiter }
            } else {
                PollStep { waiter_registered: false, action: PollAction::RegisterWaiter }
            }
        },
        PollEvent::Registered => PollStep { waiter_registered: true, action: PollAction::PollWaiter },
        PollEvent::Polled(Readiness::Pending) => PollStep {
            waiter_registered: registered,
            action: PollAction::ReturnPending,
        },
        PollEvent::Polled(Readiness::Ready) => PollStep {
            waiter_registered: false,
            action: PollAction::TryOperation,
        },
        PollEvent::Polled(Readiness::Failed) => PollStep {
            waiter_registered: false,
            action: PollAction::ReturnWaiterError,
        },
    }
}


/// The event a caller reports after carrying out `action`.
pub open spec fn answers(action: PollAction, event: PollEvent) -> bool {
    match action {
        PollAction::TryOperation => event is Attempted,
        PollAction::RegisterWaiter => event is Registered,
        PollAction::PollWaiter => event is Polled,
        _ => false,
    }
}

/// The step reached after a poll starts with the slot in state `registered`
/// and the caller reports `events`.
pub open spec fn run_of(registered: bool, events: Seq<PollEvent>) -> PollStep
    decreases events.len(),
{
    if events.len() == 0 {
        step_of(registered, PollEvent::Started)
    } else {
        step_of(run_of(registered, events.drop_last()).waiter_registered, events.last())
    }
}

/// Each reported event answers the action asked for before it.
pub open spec fn follows_protocol(registered: bool, events: Seq<PollEvent>) -> bool {
    forall|i: int|
        0 <= i < events.len() ==> answers(
            #[trigger] run_of(registered, events.subrange(0, i)).action,
            events[i],
        )
}

/// What holds at every step of a run that follows the protocol: the slot
/// holds a waiter whenever the waiter is to be polled or the poll returns
/// `Pending`, and it is empty whenever the poll returns `Ready`.
pub open spec fn step_invariant(s: PollStep) -> bool {
    &&& s.action == PollAction::PollWaiter ==> s.waiter_registered
    &&& s.action == PollAction::ReturnPending ==> s.waiter_registered
    &&& (s.action == PollAction::ReturnResult || s.action == PollAction::ReturnWaiterError)
        ==> !s.waiter_registered
    &&& s.action == PollAction::RegisterWaiter ==> !s.waiter_registered
}

/// Over any run that follows the protocol, from either state of the slot:
/// a poll that returns `Pending` leaves a registered waiter behind (so the
/// task will be woken), a poll that returns `Ready` leaves the slot empty,
/// and a waiter is polled only while one is registered.
pub proof fn lemma_run_keeps_slot_consistent(registered: bool, events: Seq<PollEvent>)
    requires
        follows_protocol(registered, events),
    ensures
        step_invariant(run_of(registered, events)),
    decreases events.len(),
{
    if events.len() > 0 {
        let prefix = events.drop_last();
        assert forall|i: int| 0 <= i < prefix.len() implies answers(
            #[trigger] run_of(registered, prefix.subrange(0, i)).action,
            prefix[i],
        ) by {
            assert(prefix.subrange(0, i) =~= events.subrange(0, i));
            assert(answers(run_of(registered, events.subrange(0, i)).action, events[i]));
        }
        lemma_run_keeps_slot_consistent(registered, prefix);
        let k = events.len() - 1;
        assert(events.subrange(0, k) =~= prefix);
        assert(answers(run_of(registered, events.subrange(0, k)).action, events[k]));
    }
}

/// A waiter is registered only when the slot is empty: a registered waiter
/// is never replaced.
pub proof fn lemma_register_only_when_empty(registered: bool, event: PollEvent)
    ensures
        step_of(registered, event).action == PollAction::RegisterWaiter ==> !registered,
{
}

/// The attempt's result reaches the caller exactly when the attempt did
/// not block: `WouldBlock` is never returned.
pub proof fn lemma_result_only_when_not_blocked(registered: bool, event: PollEvent)
    ensures
        step_of(registered, event).action == PollAction::ReturnResult <==> event
            == PollEvent::Attempted(Attempt::Finished),
{
}

/// A poll always begins with an attempt, and a waiter that fires always
/// leads to a new attempt with the slot emptied.
pub proof fn lemma_attempt_first_and_after_ready(registered: bool)
    ensures
        step_of(registered, PollEvent::Started) == (PollStep {
            waiter_registered: registered,
            action: PollAction::TryOperation,
        }),
        step_of(registered, PollEvent::Polled(Readiness::Ready)) == (PollStep {
            waiter_registered: false,
            action: PollAction::TryOperation,
        }),
{
}

} // verus!
