use romoto::supervisor::{Supervisor, SupervisorAction, SupervisorEvent, RESTART_DELAY_MS};

#[test]
fn an_exit_leads_to_a_restart() {
    assert_eq!(RESTART_DELAY_MS, 500);
    let mut s = Supervisor::new();
    assert_eq!(s.action(), SupervisorAction::Watch);
    for (event, expected) in [
        (SupervisorEvent::Exited, SupervisorAction::Pause(500)),
        (SupervisorEvent::PauseOver, SupervisorAction::Start),
        (SupervisorEvent::Started, SupervisorAction::Adopt),
        (SupervisorEvent::Adopted, SupervisorAction::Watch),
    ] {
        s.handle(event);
        assert_eq!(s.action(), expected);
    }
}

#[test]
fn after_a_failed_start_the_next_exit_is_awaited() {
    let mut s = Supervisor::new();
    s.handle(SupervisorEvent::Exited);
    s.handle(SupervisorEvent::PauseOver);
    s.handle(SupervisorEvent::StartFailed);
    assert_eq!(s.action(), SupervisorAction::Watch);
}

#[test]
fn events_out_of_turn_do_nothing() {
    let mut s = Supervisor::new();
    s.handle(SupervisorEvent::PauseOver);
    s.handle(SupervisorEvent::Started);
    assert_eq!(s, Supervisor::Watching);
    s.handle(SupervisorEvent::Exited);
    s.handle(SupervisorEvent::Exited);
    s.handle(SupervisorEvent::StartFailed);
    s.handle(SupervisorEvent::Adopted);
    assert_eq!(s, Supervisor::Pausing);
}
