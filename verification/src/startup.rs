//! The startup sequence as a state machine: the process first connects and
//! pings the database, then loads its configuration, and only then starts
//! the gateway connection; any failure on the way stops the process. The
//! caller performs each action and reports the outcome as the next event.

use vstd::prelude::*;

verus! {

/// Where the startup sequence stands.
#[derive(Clone, Copy, Debug, PartialEq, Eq, Structural)]
pub enum StartupPhase {
    /// Nothing done yet; the database connection is being attempted.
    Init,
    /// The database answered the liveness ping.
    DbReady,
    /// Configuration is loaded and the gateway is running.
    Running,
    /// The process is over.
    Stopped,
}

/// What the surrounding process reports back.
#[derive(Clone, Copy, Debug, PartialEq, Eq, Structural)]
pub enum StartupEvent {
    DbOk,
    DbErr,
    ConfigOk,
    ConfigErr,
    GatewayClosed,
}

/// What the surrounding process is to do next.
#[derive(Clone, Copy, Debug, PartialEq, Eq, Structural)]
pub enum StartupAction {
    /// Read and validate the configuration file.
    LoadConfig,
    /// Open the gateway connection and serve events.
    StartGateway,
    /// Terminate the process.
    Exit,
}

/// The transition relation: next phase and next action for a phase and an
/// event. Any event out of protocol stops the process.
pub open spec fn step_spec(p: StartupPhase, e: StartupEvent) -> (StartupPhase, StartupAction) {
    match (p, e) {
        (StartupPhase::Init, StartupEvent::DbOk) => (
            StartupPhase::DbReady,
            StartupAction::LoadConfig,
        ),
        (StartupPhase::DbReady, StartupEvent::ConfigOk) => (
            StartupPhase::Running,
            StartupAction::StartGateway,
        ),
        _ => (StartupPhase::Stopped, StartupAction::Exit),
    }
}

/// One step of the startup sequence.
pub fn step(p: StartupPhase, e: StartupEvent) -> (r: (StartupPhase, StartupAction))
    ensures
        r == step_spec(p, e),
{
    match (p, e) {
        (StartupPhase::Init, StartupEvent::DbOk) => (
            StartupPhase::DbReady,
            StartupAction::LoadConfig,
        ),
        (StartupPhase::DbReady, StartupEvent::ConfigOk) => (
            StartupPhase::Running,
            StartupAction::StartGateway,
        ),
        _ => (StartupPhase::Stopped, StartupAction::Exit),
    }
}

/// The phase reached after a run over `events`, starting from `Init`.
pub open spec fn run_phase(events: Seq<StartupEvent>) -> StartupPhase
    decreases events.len(),
{
    if events.len() == 0 {
        StartupPhase::Init
    } else {
        step_spec(run_phase(events.drop_last()), events.last()).0
    }
}

/// The actions a run over `events` issues, in order.
pub open spec fn run_actions(events: Seq<StartupEvent>) -> Seq<StartupAction>
    decreases events.len(),
{
    if events.len() == 0 {
        seq![]
    } else {
        run_actions(events.drop_last()).push(
            step_spec(run_phase(events.drop_last()), events.last()).1,
        )
    }
}

/// Without a database success the sequence never leaves `Init` for
/// `DbReady` or `Running`.
pub proof fn lemma_phase_needs_db(events: Seq<StartupEvent>)
    requires
        forall|i: int| 0 <= i < events.len() ==> events[i] != StartupEvent::DbOk,
    ensures
        run_phase(events) != StartupPhase::DbReady,
        run_phase(events) != StartupPhase::Running,
    decreases events.len(),
{
    if events.len() == 0 {
    } else {
        let init = events.drop_last();
        assert(forall|i: int| 0 <= i < init.len() ==> init[i] == events[i]);
        lemma_phase_needs_db(init);
        assert(events.last() != StartupEvent::DbOk);
    }
}

/// Database unavailability at startup terminates the process before any
/// gateway connection is attempted: a run in which the database never
/// answers issues no gateway-start action.
pub proof fn lemma_no_gateway_without_db(events: Seq<StartupEvent>)
    requires
        forall|i: int| 0 <= i < events.len() ==> events[i] != StartupEvent::DbOk,
    ensures
        forall|i: int|
            0 <= i < run_actions(events).len() ==> run_actions(events)[i]
                != StartupAction::StartGateway,
    decreases events.len(),
{
    if events.len() == 0 {
    } else {
        let init = events.drop_last();
        assert(forall|i: int| 0 <= i < init.len() ==> init[i] == events[i]);
        lemma_no_gateway_without_db(init);
        lemma_phase_needs_db(init);
        assert(run_actions(events) == run_actions(init).push(
            step_spec(run_phase(init), events.last()).1,
        ));
        assert(step_spec(run_phase(init), events.last()).1 != StartupAction::StartGateway);
    }
}

} // verus!
