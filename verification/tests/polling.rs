use tcp_backend::readiness::{next_step, Attempt, PollAction, PollEvent, PollStep, Readiness};

fn step(registered: bool, event: PollEvent) -> PollStep {
    next_step(registered, event)
}

/// Runs one poll against scripted outcomes, keeping the slot as the caller
/// would; returns the final action and the slot.
fn run_poll(mut slot: bool, attempts: &[Attempt], waits: &[Readiness]) -> (PollAction, bool, usize) {
    let mut a = attempts.iter();
    let mut w = waits.iter();
    let mut registrations = 0;
    let mut s = step(slot, PollEvent::Started);
    loop {
        slot = s.waiter_registered;
        s = match s.action {
            PollAction::TryOperation => step(slot, PollEvent::Attempted(*a.next().unwrap())),
            PollAction::RegisterWaiter => {
                assert!(!slot);
                registrations += 1;
                step(slot, PollEvent::Registered)
            }
            PollAction::PollWaiter => {
                assert!(slot);
                step(slot, PollEvent::Polled(*w.next().unwrap()))
            }
            done => return (done, s.waiter_registered, registrations),
        };
    }
}

#[test]
fn ready_operation_returns_at_once() {
    assert_eq!(
        run_poll(false, &[Attempt::Finished], &[]),
        (PollAction::ReturnResult, false, 0)
    );
    assert_eq!(
        run_poll(true, &[Attempt::Finished], &[]),
        (PollAction::ReturnResult, false, 0)
    );
}

#[test]
fn blocked_operation_parks_on_one_waiter() {
    assert_eq!(
        run_poll(false, &[Attempt::WouldBlock], &[Readiness::Pending]),
        (PollAction::ReturnPending, true, 1)
    );
    // The next poll reuses the waiter that the slot still holds.
    assert_eq!(
        run_poll(true, &[Attempt::WouldBlock], &[Readiness::Pending]),
        (PollAction::ReturnPending, true, 0)
    );
}

#[test]
fn ready_waiter_leads_to_retry() {
    assert_eq!(
        run_poll(
            false,
            &[Attempt::WouldBlock, Attempt::WouldBlock, Attempt::Finished],
            &[Readiness::Ready, Readiness::Ready]
        ),
        (PollAction::ReturnResult, false, 2)
    );
}

#[test]
fn waiter_error_is_returned() {
    assert_eq!(
        run_poll(false, &[Attempt::WouldBlock], &[Readiness::Failed]),
        (PollAction::ReturnWaiterError, false, 1)
    );
}

#[test]
fn step_table() {
    assert_eq!(
        next_step(true, PollEvent::Attempted(Attempt::WouldBlock)),
        PollStep { waiter_registered: true, action: PollAction::PollWaiter }
    );
    assert_eq!(
        next_step(false, PollEvent::Attempted(Attempt::WouldBlock)),
        PollStep { waiter_registered: false, action: PollAction::RegisterWaiter }
    );
    assert_eq!(
        next_step(false, PollEvent::Registered),
        PollStep { waiter_registered: true, action: PollAction::PollWaiter }
    );
    assert_eq!(
        next_step(true, PollEvent::Polled(Readiness::Ready)),
        PollStep { waiter_registered: false, action: PollAction::TryOperation }
    );
}
