//! Keeping the command of a session alive: when it exits it is started again, after a short pause.

use vstd::prelude::*;

verus! {

/// How long the pause before a start is, in milliseconds.
pub const RESTART_DELAY_MS: u64 = 500;

/// What the supervisor of a command is waiting for.
#[derive(Clone, Copy, Debug, PartialEq, Eq, Structural)]
pub enum Supervisor {
    /// The command to exit.
    Watching,
    /// The pause to end.
    Pausing,
    /// The attempt to start the command to end.
    Starting,
    /// The new run to take the place of the old one.
    Adopting,
}

/// What the supervisor is told.
#[derive(Clone, Copy, Debug, PartialEq, Eq, Structural)]
pub enum SupervisorEvent {
    Exited,
    PauseOver,
    Started,
    StartFailed,
    Adopted,
}

/// What is to be done next.
#[derive(Clone, Copy, Debug, PartialEq, Eq, Structural)]
pub enum SupervisorAction {
    /// Wait until the command exits.
    Watch,
    /// Wait for this many milliseconds.
    Pause(u64),
    /// Start the command in a new terminal.
    Start,
    /// Let the new run take the place of the old one: the session restarts.
    Adopt,
}

impl Supervisor {
    /// What is to be done while in this state.
    pub open spec fn due(self) -> SupervisorAction {
        match self {
            Supervisor::Watching => SupervisorAction::Watch,
            Supervisor::Pausing => SupervisorAction::Pause(RESTART_DELAY_MS),
            Supervisor::Starting => SupervisorAction::Start,
            Supervisor::Adopting => SupervisorAction::Adopt,
        }
    }

    /// The state after `event`. An exit leads to a pause, the pause to a start, and a start that
    /// succeeds to the new run. After a start that fails the supervisor waits for the next exit.
    /// An event that nothing was waiting for changes nothing.
    pub open spec fn after(self, event: SupervisorEvent) -> Supervisor {
        match (self, event) {
            (Supervisor::Watching, SupervisorEvent::Exited) => Supervisor::Pausing,
            (Supervisor::Pausing, SupervisorEvent::PauseOver) => Supervisor::Starting,
            (Supervisor::Starting, SupervisorEvent::Started) => Supervisor::Adopting,
            (Supervisor::Starting, SupervisorEvent::StartFailed) => Supervisor::Watching,
            (Supervisor::Adopting, SupervisorEvent::Adopted) => Supervisor::Watching,
            _ => self,
        }
    }

    /// The state after each of `events` in turn.
    pub open spec fn after_all(self, events: Seq<SupervisorEvent>) -> Supervisor
        decreases events.len(),
    {
        if events.len() == 0 {
            self
        } else {
            self.after_all(events.drop_last()).after(events.last())
        }
    }

    /// The supervisor of a command that was just started.
    pub fn new() -> (r: Supervisor)
        ensures
            r == Supervisor::Watching,
    {
        Supervisor::Watching
    }

    /// What is to be done now.
    pub fn action(&self) -> (r: SupervisorAction)
        ensures
            r == self.due(),
    {
        match self {
            Supervisor::Watching => SupervisorAction::Watch,
            Supervisor::Pausing => SupervisorAction::Pause(RESTART_DELAY_MS),
            Supervisor::Starting => SupervisorAction::Start,
            Supervisor::Adopting => SupervisorAction::Adopt,
        }
    }

    /// Takes note of an event.
    pub fn handle(&mut self, event: SupervisorEvent)
        ensures
            *final(self) == old(self).after(event),
    {
        match (*self, event) {
            (Supervisor::Watching, SupervisorEvent::Exited) => {
                *self = Supervisor::Pausing;
            },
            (Supervisor::Pausing, SupervisorEvent::PauseOver) => {
                *self = Supervisor::Starting;
            },
            (Supervisor::Starting, SupervisorEvent::Started) => {
                *self = Supervisor::Adopting;
            },
            (Supervisor::Starting, SupervisorEvent::StartFailed) => {
                *self = Supervisor::Watching;
            },
            (Supervisor::Adopting, SupervisorEvent::Adopted) => {
                *self = Supervisor::Watching;
            },
            _ => {},
        }
    }
}

/// How often `event` occurs in `events`.
pub open spec fn count(events: Seq<SupervisorEvent>, event: SupervisorEvent) -> nat
    decreases events.len(),
{
    if events.len() == 0 {
        0
    } else {
        count(events.drop_last(), event) + if events.last() == event {
            1nat
        } else {
            0
        }
    }
}

/// How often the command was to be started in the course of `events`.
pub open spec fn starts(events: Seq<SupervisorEvent>) -> nat
    decreases events.len(),
{
    if events.len() == 0 {
        0
    } else {
        let before = Supervisor::Watching.after_all(events.drop_last());
        let now = before.after(events.last());
        starts(events.drop_last()) + if before != Supervisor::Starting && now
            == Supervisor::Starting {
            1nat
        } else {
            0
        }
    }
}

/// Whether `event` is not among `events`.
pub open spec fn lacks(events: Seq<SupervisorEvent>, event: SupervisorEvent) -> bool {
    forall|i: int| 0 <= i < events.len() ==> #[trigger] events[i] != event
}

proof fn lemma_pause_lasts(events: Seq<SupervisorEvent>)
    requires
        lacks(events, SupervisorEvent::PauseOver),
    ensures
        Supervisor::Pausing.after_all(events) == Supervisor::Pausing,
    decreases events.len(),
{
    if events.len() > 0 {
        assert(events[events.len() - 1] != SupervisorEvent::PauseOver);
        lemma_pause_lasts(events.drop_last());
    }
}

proof fn lemma_start_lasts(events: Seq<SupervisorEvent>)
    requires
        lacks(events, SupervisorEvent::Started),
        lacks(events, SupervisorEvent::StartFailed),
    ensures
        Supervisor::Starting.after_all(events) == Supervisor::Starting,
    decreases events.len(),
{
    if events.len() > 0 {
        assert(events[events.len() - 1] != SupervisorEvent::Started);
        assert(events[events.len() - 1] != SupervisorEvent::StartFailed);
        lemma_start_lasts(events.drop_last());
    }
}

/// If the command exits, it is started again: after an exit the supervisor pauses until the pause is
/// over, then asks for a start until that has ended, and a start that succeeds leads to the new run,
/// whatever else is reported in between.
pub proof fn law_exit_leads_to_restart(
    while_pausing: Seq<SupervisorEvent>,
    while_starting: Seq<SupervisorEvent>,
)
    requires
        lacks(while_pausing, SupervisorEvent::PauseOver),
        lacks(while_starting, SupervisorEvent::Started),
        lacks(while_starting, SupervisorEvent::StartFailed),
    ensures
        ({
            let paused = Supervisor::Watching.after(SupervisorEvent::Exited).after_all(
                while_pausing,
            );
            let starting = paused.after(SupervisorEvent::PauseOver).after_all(while_starting);
            &&& paused.due() == SupervisorAction::Pause(RESTART_DELAY_MS)
            &&& starting.due() == SupervisorAction::Start
            &&& starting.after(SupervisorEvent::Started).due() == SupervisorAction::Adopt
            &&& starting.after(SupervisorEvent::StartFailed).due() == SupervisorAction::Watch
        }),
{
    lemma_pause_lasts(while_pausing);
    lemma_start_lasts(while_starting);
}

/// In any course of events the command is started again at most once for every exit that was
/// reported, and at most once for every pause that has ended.
pub proof fn law_one_start_per_exit(events: Seq<SupervisorEvent>)
    ensures
        starts(events) <= count(events, SupervisorEvent::Exited),
        starts(events) <= count(events, SupervisorEvent::PauseOver),
{
    lemma_starts(events);
}

proof fn lemma_starts(events: Seq<SupervisorEvent>)
    ensures
        starts(events) + (if Supervisor::Watching.after_all(events) == Supervisor::Pausing {
            1nat
        } else {
            0
        }) <= count(events, SupervisorEvent::Exited),
        starts(events) <= count(events, SupervisorEvent::PauseOver),
    decreases events.len(),
{
    if events.len() > 0 {
        lemma_starts(events.drop_last());
    }
}

/// How the supervisor gets from one thing to do to the next. A pause, of half a second, begins only at
/// an exit while it was watching; a start only at the end of a pause; a new run is adopted only when
/// a start has succeeded. It watches again only when a start has failed or the new run is adopted.
/// At every other report it goes on with what it was doing.
pub proof fn law_supervisor_steps(
    s: &mut Supervisor,
    event: SupervisorEvent,
    before: &Supervisor,
    after: &Supervisor,
    due: SupervisorAction,
    next: SupervisorAction,
)
    requires
        call_ensures(Supervisor::handle, (s, event), ()),
        call_ensures(Supervisor::action, (before,), due),
        call_ensures(Supervisor::action, (after,), next),
        *before == *old(s),
        *after == *final(s),
    ensures
        due == SupervisorAction::Watch && event == SupervisorEvent::Exited ==> next
            == SupervisorAction::Pause(500),
        due == SupervisorAction::Pause(500) && event == SupervisorEvent::PauseOver ==> next
            == SupervisorAction::Start,
        due == SupervisorAction::Start && event == SupervisorEvent::Started ==> next
            == SupervisorAction::Adopt,
        due == SupervisorAction::Start && event == SupervisorEvent::StartFailed ==> next
            == SupervisorAction::Watch,
        due == SupervisorAction::Adopt && event == SupervisorEvent::Adopted ==> next
            == SupervisorAction::Watch,
        next != due ==> {
            ||| due == SupervisorAction::Watch && event == SupervisorEvent::Exited
            ||| due == SupervisorAction::Pause(500) && event == SupervisorEvent::PauseOver
            ||| due == SupervisorAction::Start && event == SupervisorEvent::Started
            ||| due == SupervisorAction::Start && event == SupervisorEvent::StartFailed
            ||| due == SupervisorAction::Adopt && event == SupervisorEvent::Adopted
        },
        due is Pause ==> due == SupervisorAction::Pause(500),
{
}

/// A new supervisor watches the command.
pub proof fn law_supervisor_starts_watching(s: Supervisor, now: &Supervisor, due: SupervisorAction)
    requires
        call_ensures(Supervisor::new, (), s),
        call_ensures(Supervisor::action, (now,), due),
        *now == s,
    ensures
        due == SupervisorAction::Watch,
{
}

} // verus!
