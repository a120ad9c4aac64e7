//! The order of a whole run: install the firewall, start the tunnel and the
//! listeners, wait, and remove the firewall on every way out.
//!
//! The coordinator is a machine. It asks for one thing at a time through an
//! [`Action`]; the caller does it and answers with the matching [`Event`]. The
//! sequence that removes the firewall is handed to the coordinator before the
//! one that installs it is run, and the coordinator keeps it until it asks for
//! it to be run.

use vstd::prelude::*;
use crate::client::{ClientError, Config, FirewallError};
use crate::command::{CommandError, Commands};
use crate::machine::{drive, lemma_drive_prefix};

verus! {

/// What the caller reports to the coordinator.
#[derive(Debug)]
pub enum Event {
    /// The attempt to install the interrupt handler has ended.
    HandlerInstalled(Result<(), ctrlc::Error>),
    /// The backend has planned, from one configuration, the sequence that
    /// installs the redirection and the sequence that removes it.
    Planned { setup: Result<Commands, FirewallError>, restore: Result<Commands, FirewallError> },
    /// The run of the installing sequence has ended.
    SetupFinished(Result<(), CommandError>),
    /// The tunnel supervisor has been started.
    TunnelStarted,
    /// The listener pool has been started.
    ListenersStarted,
    /// The tunnel supervisor has reported.
    TunnelFinished(Result<(), ClientError>),
    /// The listener pool has ended.
    PoolFinished(Result<(), ClientError>),
    /// A shutdown token was taken from the control channel.
    ShutdownRequested,
    /// The pool accepts no more, the tunnel was told to end if that was asked,
    /// and the connections that were open have run to their end. `tunnel` is
    /// what the tunnel supervisor reported after it was told to end; `None`
    /// where it was not told to, or had reported before.
    Collapsed { tunnel: Option<Result<(), ClientError>> },
    /// The run of the removing sequence has ended.
    RestoreFinished(Result<(), CommandError>),
}

/// What the coordinator asks of the caller.
#[derive(Debug)]
pub enum Action {
    /// Install the interrupt handler, which puts a shutdown token on the
    /// control channel and ignores a channel that is full or closed.
    InstallHandler,
    /// Let the backend plan both command sequences.
    Plan,
    /// Run this sequence, which installs the redirection.
    RunSetup(Commands),
    /// Start the tunnel supervisor.
    StartTunnel,
    /// Start the listener pool.
    StartListeners,
    /// Wait for the first of: the tunnel's report, the pool's end, a shutdown
    /// token.
    Wait,
    /// Stop accepting; put a shutdown token on the control channel for the
    /// tunnel if `signal_tunnel`, and take the report of its supervisor if it
    /// has not reported yet; let open connections run to their end. No
    /// connection is cut off.
    Collapse { signal_tunnel: bool },
    /// Run this sequence, which removes the redirection.
    RunRestore(Commands),
    /// Leave with `result`, the first error seen if there was one. The errors
    /// that came after it are in `later` and, after that, in `last`; they are
    /// to be logged.
    Exit { result: Result<(), ClientError>, later: Option<ClientError>, last: Option<ClientError> },
    /// The event does not answer what was asked; nothing has changed.
    Rejected,
}

/// Where a run stands, with what it has to remember.
#[derive(Debug)]
pub enum Coordinator {
    /// The interrupt handler is being installed.
    Installing { tunnel: bool },
    /// The backend is planning.
    Planning { tunnel: bool },
    /// The installing sequence runs.
    SettingUp { tunnel: bool, restore: Commands },
    /// The tunnel supervisor is being started.
    StartingTunnel { restore: Commands },
    /// The listener pool is being started.
    StartingListeners { tunnel: bool, restore: Commands },
    /// Everything runs; the first thing to end is awaited.
    Running { tunnel: bool, restore: Commands },
    /// The run is being wound down.
    Collapsing { restore: Commands, failure: Option<ClientError> },
    /// The removing sequence runs.
    Restoring { failure: Option<ClientError>, later: Option<ClientError> },
    /// The run is over.
    Finished,
}

/// Two errors that may have come one after the other, moved up: the first
/// that is there, then the second if both are.
pub open spec fn in_order(first: Option<ClientError>, second: Option<ClientError>) -> (
    Option<ClientError>,
    Option<ClientError>,
) {
    match first {
        Some(_) => (first, second),
        None => (second, None),
    }
}

/// The error, if any, in what the tunnel supervisor reported during the
/// collapse.
pub open spec fn failure_in_report(tunnel: Option<Result<(), ClientError>>) -> Option<
    ClientError,
> {
    match tunnel {
        Some(Err(e)) => Some(e),
        _ => None,
    }
}

/// The exit that follows the end of the removing sequence. Of the errors
/// that the run has seen, in the order they came, the first is the result
/// and the others stay beside it; without any, the result is `Ok`.
pub open spec fn exit_after_restore(
    failure: Option<ClientError>,
    later: Option<ClientError>,
    restored: Result<(), CommandError>,
) -> Action {
    let removal = match restored {
        Ok(_) => None,
        Err(e) => Some(ClientError::Command(e)),
    };
    match failure {
        Some(first) => match later {
            Some(second) => Action::Exit { result: Err(first), later: Some(second), last: removal },
            None => Action::Exit { result: Err(first), later: removal, last: None },
        },
        None => match later {
            Some(second) => Action::Exit { result: Err(second), later: removal, last: None },
            None => match removal {
                Some(third) => Action::Exit { result: Err(third), later: None, last: None },
                None => Action::Exit { result: Ok(()), later: None, last: None },
            },
        },
    }
}

/// The error, if any, in what ended the wait.
pub open spec fn failure_of(ended: Result<(), ClientError>) -> Option<ClientError> {
    match ended {
        Ok(_) => None,
        Err(e) => Some(e),
    }
}

/// The coordinator's rule: the state and action that follow an event.
pub open spec fn next(s: Coordinator, e: Event) -> (Coordinator, Action) {
    match (s, e) {
        (Coordinator::Installing { tunnel }, Event::HandlerInstalled(Ok(_))) => (
            Coordinator::Planning { tunnel },
            Action::Plan,
        ),
        (Coordinator::Installing { tunnel }, Event::HandlerInstalled(Err(err))) => (
            Coordinator::Finished,
            Action::Exit { result: Err(ClientError::CtrlC(err)), later: None, last: None },
        ),
        (
            Coordinator::Planning { tunnel },
            Event::Planned { setup: Ok(setup), restore: Ok(restore) },
        ) => (
            Coordinator::SettingUp { tunnel, restore },
            Action::RunSetup(setup),
        ),
        (
            Coordinator::Planning { tunnel },
            Event::Planned { setup: Err(err), restore: Ok(restore) },
        ) => (
            Coordinator::Restoring { failure: Some(ClientError::Firewall(err)), later: None },
            Action::RunRestore(restore),
        ),
        (
            Coordinator::Planning { tunnel },
            Event::Planned { setup: Ok(setup), restore: Err(err) },
        ) => (
            Coordinator::Finished,
            Action::Exit { result: Err(ClientError::Firewall(err)), later: None, last: None },
        ),
        (
            Coordinator::Planning { tunnel },
            Event::Planned { setup: Err(first), restore: Err(second) },
        ) => (
            Coordinator::Finished,
            Action::Exit {
                result: Err(ClientError::Firewall(first)),
                later: Some(ClientError::Firewall(second)),
                last: None,
            },
        ),
        (Coordinator::SettingUp { tunnel, restore }, Event::SetupFinished(Ok(_))) => if tunnel {
            (Coordinator::StartingTunnel { restore }, Action::StartTunnel)
        } else {
            (Coordinator::StartingListeners { tunnel, restore }, Action::StartListeners)
        },
        (Coordinator::SettingUp { tunnel, restore }, Event::SetupFinished(Err(err))) => (
            Coordinator::Restoring { failure: Some(ClientError::Command(err)), later: None },
            Action::RunRestore(restore),
        ),
        (Coordinator::StartingTunnel { restore }, Event::TunnelStarted) => (
            Coordinator::StartingListeners { tunnel: true, restore },
            Action::StartListeners,
        ),
        (Coordinator::StartingListeners { tunnel, restore }, Event::ListenersStarted) => (
            Coordinator::Running { tunnel, restore },
            Action::Wait,
        ),
        (Coordinator::Running { tunnel, restore }, Event::TunnelFinished(ended)) => if tunnel {
            (
                Coordinator::Collapsing { restore, failure: failure_of(ended) },
                Action::Collapse { signal_tunnel: true },
            )
        } else {
            (s, Action::Rejected)
        },
        (Coordinator::Running { tunnel, restore }, Event::PoolFinished(ended)) => (
            Coordinator::Collapsing { restore, failure: failure_of(ended) },
            Action::Collapse { signal_tunnel: tunnel },
        ),
        (Coordinator::Running { tunnel, restore }, Event::ShutdownRequested) => (
            Coordinator::Collapsing { restore, failure: None },
            Action::Collapse { signal_tunnel: tunnel },
        ),
        (Coordinator::Collapsing { restore, failure }, Event::Collapsed { tunnel }) => (
            Coordinator::Restoring {
                failure: in_order(failure, failure_in_report(tunnel)).0,
                later: in_order(failure, failure_in_report(tunnel)).1,
            },
            Action::RunRestore(restore),
        ),
        (Coordinator::Restoring { failure, later }, Event::RestoreFinished(restored)) => (
            Coordinator::Finished,
            exit_after_restore(failure, later, restored),
        ),
        _ => (s, Action::Rejected),
    }
}

/// The run that `events` drive from `s`: the state reached, and the action
/// that answered each event, in order.
pub open spec fn run(s: Coordinator, events: Seq<Event>) -> (Coordinator, Seq<Action>) {
    drive(|s: Coordinator, e: Event| next(s, e), s, events)
}

/// Whether the state still owes a run of the removing sequence.
pub open spec fn owes_restore(s: Coordinator) -> bool {
    s is SettingUp || s is StartingTunnel || s is StartingListeners || s is Running
        || s is Collapsing
}

/// The removing sequence that the state keeps, while it keeps one.
pub open spec fn kept_restore(s: Coordinator) -> Option<Commands> {
    match s {
        Coordinator::SettingUp { restore, .. } => Some(restore),
        Coordinator::StartingTunnel { restore } => Some(restore),
        Coordinator::StartingListeners { restore, .. } => Some(restore),
        Coordinator::Running { restore, .. } => Some(restore),
        Coordinator::Collapsing { restore, .. } => Some(restore),
        _ => None,
    }
}

/// Whether, at the end of `actions`, an installation was asked for and no
/// removal was asked for since.
pub open spec fn installed(actions: Seq<Action>) -> bool
    decreases actions.len(),
{
    if actions.len() == 0 {
        false
    } else if actions.last() is RunSetup {
        true
    } else if actions.last() is RunRestore {
        false
    } else {
        installed(actions.drop_last())
    }
}

/// The error that an event reports, if it reports one.
pub open spec fn error_in(e: Event) -> Option<ClientError> {
    match e {
        Event::HandlerInstalled(Err(err)) => Some(ClientError::CtrlC(err)),
        Event::Planned { setup: Err(err), .. } => Some(ClientError::Firewall(err)),
        Event::Planned { setup: Ok(_), restore: Err(err) } => Some(ClientError::Firewall(err)),
        Event::SetupFinished(Err(err)) => Some(ClientError::Command(err)),
        Event::TunnelFinished(Err(err)) => Some(err),
        Event::PoolFinished(Err(err)) => Some(err),
        Event::Collapsed { tunnel: Some(Err(err)) } => Some(err),
        Event::RestoreFinished(Err(err)) => Some(ClientError::Command(err)),
        _ => None,
    }
}

/// The first error among the events that were not rejected, if there is one.
pub open spec fn first_error(events: Seq<Event>, actions: Seq<Action>) -> Option<ClientError>
    recommends
        events.len() == actions.len(),
    decreases events.len(),
{
    if events.len() == 0 || actions.len() == 0 {
        None
    } else {
        let earlier = first_error(events.drop_last(), actions.drop_last());
        if earlier is Some {
            earlier
        } else if actions.last() is Rejected {
            None
        } else {
            error_in(events.last())
        }
    }
}

/// The one error or none as a sequence.
pub open spec fn listed(error: Option<ClientError>) -> Seq<ClientError> {
    match error {
        Some(e) => seq![e],
        None => Seq::empty(),
    }
}

/// The errors that an event reports, in their order. Only the report of two
/// failed plans holds more than one.
pub open spec fn errors_in(e: Event) -> Seq<ClientError> {
    match e {
        Event::Planned { setup: Err(first), restore: Err(second) } => seq![
            ClientError::Firewall(first),
            ClientError::Firewall(second),
        ],
        _ => listed(error_in(e)),
    }
}

/// The errors of the events that were not rejected, in the order they came.
pub open spec fn errors_seen(events: Seq<Event>, actions: Seq<Action>) -> Seq<ClientError>
    recommends
        events.len() == actions.len(),
    decreases events.len(),
{
    if events.len() == 0 || actions.len() == 0 {
        Seq::empty()
    } else {
        let earlier = errors_seen(events.drop_last(), actions.drop_last());
        if actions.last() is Rejected {
            earlier
        } else {
            earlier + errors_in(events.last())
        }
    }
}

/// The errors that an exit names: its result where that is an error, then
/// those that came later.
pub open spec fn errors_of_exit(action: Action) -> Seq<ClientError> {
    match action {
        Action::Exit { result, later, last } => listed(
            match result {
                Ok(_) => None,
                Err(e) => Some(e),
            },
        ) + listed(later) + listed(last),
        _ => Seq::empty(),
    }
}

/// The errors that the state carries towards the exit, in their order.
spec fn carried_errors(s: Coordinator) -> Seq<ClientError> {
    match s {
        Coordinator::Collapsing { failure, .. } => listed(failure),
        Coordinator::Restoring { failure, later } => listed(failure) + listed(later),
        _ => Seq::empty(),
    }
}

/// The error that the state carries towards the exit, if it carries one.
pub open spec fn carried_failure(s: Coordinator) -> Option<ClientError> {
    match s {
        Coordinator::Collapsing { failure, .. } => failure,
        Coordinator::Restoring { failure, .. } => failure,
        _ => None,
    }
}

proof fn lemma_run_prefix(s: Coordinator, events: Seq<Event>, n: int)
    requires
        0 <= n <= events.len(),
    ensures
        run(s, events).1.len() == events.len(),
        run(s, events).1.take(n) == run(s, events.take(n)).1,
        n < events.len() ==> run(s, events).1[n] == next(
            run(s, events.take(n)).0,
            events[n],
        ).1,
{
    lemma_drive_prefix(|s: Coordinator, e: Event| next(s, e), s, events, n);
}

/// What holds of every state that a run from the start reaches, and of the
/// actions that led there.
spec fn reached(s: Coordinator, events: Seq<Event>, actions: Seq<Action>) -> bool {
    &&& actions.len() == events.len()
    &&& installed(actions) == owes_restore(s)
    &&& (s is Finished <==> exists|k: int| 0 <= k < actions.len() && actions[k] is Exit)
    &&& (!(s is Finished) ==> first_error(events, actions) == carried_failure(s))
    &&& (s matches Coordinator::Restoring { failure, later } ==> (later is Some
        ==> failure is Some))
    &&& (!(s is Finished) ==> errors_seen(events, actions) =~= carried_errors(s))
}

proof fn lemma_reached(tunnel: bool, events: Seq<Event>)
    ensures
        reached(
            run(Coordinator::Installing { tunnel }, events).0,
            events,
            run(Coordinator::Installing { tunnel }, events).1,
        ),
    decreases events.len(),
{
    let start = Coordinator::Installing { tunnel };
    if events.len() > 0 {
        lemma_reached(tunnel, events.drop_last());
        let before = run(start, events.drop_last());
        let after = run(start, events);
        assert(after.1.drop_last() =~= before.1);
        assert(after.1.last() == next(before.0, events.last()).1);
        if before.0 is Finished {
            let k = choose|k: int| 0 <= k < before.1.len() && before.1[k] is Exit;
            assert(after.1[k] is Exit);
        } else if after.0 is Finished {
            assert(after.1[after.1.len() - 1] is Exit);
        } else {
            assert forall|k: int| 0 <= k < after.1.len() implies !(after.1[k] is Exit) by {
                if k < before.1.len() {
                    assert(before.1[k] == after.1[k]);
                }
            }
        }
    }
}

/// The firewall is removed on every way out: whenever a run from the start
/// comes to its exit, no installation is left without a removal that was
/// asked for after it.
pub proof fn lemma_exit_leaves_nothing_installed(tunnel: bool, events: Seq<Event>, k: int)
    requires
        0 <= k < events.len(),
        run(Coordinator::Installing { tunnel }, events).1[k] is Exit,
    ensures
        !installed(run(Coordinator::Installing { tunnel }, events).1.take(k)),
{
    let start = Coordinator::Installing { tunnel };
    lemma_run_prefix(start, events, k);
    lemma_reached(tunnel, events.take(k));
}

/// The removing sequence is the one that was planned before the installing
/// sequence ran: a state that keeps a sequence either keeps it through the
/// next event, or hands out that very sequence to be run.
pub proof fn lemma_restore_is_kept(s: Coordinator, e: Event)
    requires
        owes_restore(s),
    ensures
        kept_restore(s) is Some,
        kept_restore(next(s, e).0) == kept_restore(s) || next(s, e).1 == Action::RunRestore(
            kept_restore(s)->0,
        ),
        next(s, e).1 is RunRestore ==> !owes_restore(next(s, e).0),
        !(next(s, e).1 is RunSetup),
        !(next(s, e).1 is Exit),
{
}

/// The exit reports the first error: the result of a run from the start is
/// the first error among the events that were taken in, and `Ok` where none
/// of them reported one.
pub proof fn lemma_exit_reports_first_error(tunnel: bool, events: Seq<Event>, k: int)
    requires
        0 <= k < events.len(),
        run(Coordinator::Installing { tunnel }, events).1[k] is Exit,
    ensures
        ({
            let actions = run(Coordinator::Installing { tunnel }, events).1;
            let first = first_error(events.take(k + 1), actions.take(k + 1));
            match first {
                Some(e) => actions[k]->result == Err::<(), ClientError>(e),
                None => actions[k]->result == Ok::<(), ClientError>(()),
            }
        }),
{
    let start = Coordinator::Installing { tunnel };
    let actions = run(start, events).1;
    lemma_run_prefix(start, events, k);
    lemma_run_prefix(start, events, k + 1);
    lemma_reached(tunnel, events.take(k));
    let before = run(start, events.take(k));
    assert(events.take(k + 1).drop_last() =~= events.take(k));
    assert(actions.take(k + 1).drop_last() =~= actions.take(k));
    assert(events.take(k + 1).last() == events[k]);
    assert(actions.take(k + 1).last() == actions[k]);
}

/// No error is lost: the exit of a run from the start names every error that
/// the events taken in have reported, in the order they came, the first as
/// its result.
pub proof fn lemma_exit_names_every_error(tunnel: bool, events: Seq<Event>, k: int)
    requires
        0 <= k < events.len(),
        run(Coordinator::Installing { tunnel }, events).1[k] is Exit,
    ensures
        ({
            let actions = run(Coordinator::Installing { tunnel }, events).1;
            errors_of_exit(actions[k]) == errors_seen(events.take(k + 1), actions.take(k + 1))
        }),
{
    let start = Coordinator::Installing { tunnel };
    let actions = run(start, events).1;
    lemma_run_prefix(start, events, k);
    lemma_run_prefix(start, events, k + 1);
    lemma_reached(tunnel, events.take(k));
    assert(events.take(k + 1).drop_last() =~= events.take(k));
    assert(actions.take(k + 1).drop_last() =~= actions.take(k));
    assert(events.take(k + 1).last() == events[k]);
    assert(actions.take(k + 1).last() == actions[k]);
    assert(errors_of_exit(actions[k]) =~= errors_seen(events.take(k + 1), actions.take(k + 1)));
}

/// Once a run has come to its exit, every further event is rejected.
pub proof fn lemma_nothing_follows_exit(tunnel: bool, events: Seq<Event>, k: int, m: int)
    requires
        0 <= k < m < events.len(),
        run(Coordinator::Installing { tunnel }, events).1[k] is Exit,
    ensures
        run(Coordinator::Installing { tunnel }, events).1[m] is Rejected,
{
    let start = Coordinator::Installing { tunnel };
    lemma_run_prefix(start, events, m);
    lemma_reached(tunnel, events.take(m));
    lemma_run_prefix(start, events, k);
    assert(run(start, events).1.take(m)[k] == run(start, events).1[k]);
}

/// Without a remote host no tunnel is started: a run that starts without one
/// never asks for the tunnel supervisor, and never for a token to be sent to
/// it.
pub proof fn lemma_no_remote_no_tunnel(events: Seq<Event>, k: int)
    requires
        0 <= k < events.len(),
    ensures
        ({
            let action = run(Coordinator::Installing { tunnel: false }, events).1[k];
            !(action is StartTunnel) && !(action matches Action::Collapse { signal_tunnel: true })
        }),
{
    let start = Coordinator::Installing { tunnel: false };
    lemma_run_prefix(start, events, k);
    lemma_without_tunnel(events.take(k));
}

/// Whether the state knows of a tunnel.
spec fn has_tunnel(s: Coordinator) -> bool {
    match s {
        Coordinator::Installing { tunnel } => tunnel,
        Coordinator::Planning { tunnel } => tunnel,
        Coordinator::SettingUp { tunnel, .. } => tunnel,
        Coordinator::StartingTunnel { .. } => true,
        Coordinator::StartingListeners { tunnel, .. } => tunnel,
        Coordinator::Running { tunnel, .. } => tunnel,
        _ => false,
    }
}

proof fn lemma_without_tunnel(events: Seq<Event>)
    ensures
        !has_tunnel(run(Coordinator::Installing { tunnel: false }, events).0),
    decreases events.len(),
{
    if events.len() > 0 {
        lemma_without_tunnel(events.drop_last());
    }
}

/// Whether the event at `i` handed over `restore` as the removing sequence
/// and was answered by a request to install, or, the plan of the installing
/// sequence having failed, by the request to remove at once.
pub open spec fn planned_at(
    events: Seq<Event>,
    actions: Seq<Action>,
    i: int,
    restore: Commands,
) -> bool {
    &&& 0 <= i < events.len()
    &&& events[i] matches Event::Planned { restore: Ok(r), .. }
    &&& r == restore
    &&& (actions[i] is RunSetup || actions[i] == Action::RunRestore(restore))
}

proof fn lemma_kept_restore_was_planned(tunnel: bool, events: Seq<Event>)
    ensures
        kept_restore(run(Coordinator::Installing { tunnel }, events).0) matches Some(restore)
            ==> exists|i: int|
            planned_at(events, run(Coordinator::Installing { tunnel }, events).1, i, restore)
                && #[trigger] run(Coordinator::Installing { tunnel }, events).1[i] is RunSetup,
    decreases events.len(),
{
    let start = Coordinator::Installing { tunnel };
    if events.len() > 0 {
        lemma_kept_restore_was_planned(tunnel, events.drop_last());
        let before = run(start, events.drop_last());
        let after = run(start, events);
        assert(after.1.drop_last() =~= before.1);
        lemma_run_prefix(start, events.drop_last(), 0);
        if kept_restore(after.0) is Some {
            let restore = kept_restore(after.0)->0;
            if kept_restore(before.0) == Some(restore) {
                let i = choose|i: int|
                    planned_at(events.drop_last(), before.1, i, restore)
                        && #[trigger] before.1[i] is RunSetup;
                assert(events[i] == events.drop_last()[i]);
                assert(after.1[i] == before.1[i]);
                assert(planned_at(events, after.1, i, restore));
            } else {
                let i = events.len() - 1;
                assert(after.1[i] == next(before.0, events.last()).1);
                assert(planned_at(events, after.1, i, restore));
            }
        }
    }
}

/// What is run to remove the firewall was planned before anything was
/// installed: the sequence in a request to remove is the one that the backend
/// handed over in the event that was answered by the request to install, or,
/// where the plan of the installing sequence failed, in the event that this
/// very request answers.
pub proof fn lemma_restore_runs_what_was_planned(
    tunnel: bool,
    events: Seq<Event>,
    k: int,
    restore: Commands,
)
    requires
        0 <= k < events.len(),
        run(Coordinator::Installing { tunnel }, events).1[k] == Action::RunRestore(restore),
    ensures
        exists|i: int|
            0 <= i <= k && #[trigger] planned_at(
                events,
                run(Coordinator::Installing { tunnel }, events).1,
                i,
                restore,
            ),
{
    let start = Coordinator::Installing { tunnel };
    let actions = run(start, events).1;
    lemma_run_prefix(start, events, k);
    lemma_kept_restore_was_planned(tunnel, events.take(k));
    let before = run(start, events.take(k));
    if kept_restore(before.0) == Some(restore) {
        let i = choose|i: int|
            planned_at(events.take(k), before.1, i, restore) && #[trigger] before.1[i] is RunSetup;
        assert(events.take(k)[i] == events[i]);
        assert(before.1[i] == actions.take(k)[i]);
        assert(planned_at(events, actions, i, restore));
    } else {
        assert(planned_at(events, actions, k, restore));
    }
}

/// A shutdown request ends a run cleanly: from the wait, the request is
/// answered by the collapse, which tells the tunnel to end where there is
/// one; the collapse is followed by the removal of the firewall; and where
/// the tunnel ended without an error and the removal succeeds, the run leaves
/// without an error.
pub proof fn lemma_shutdown_ends_clean(
    tunnel: bool,
    restore: Commands,
    report: Option<Result<(), ClientError>>,
)
    requires
        failure_in_report(report) is None,
    ensures
        ({
            let asked = next(Coordinator::Running { tunnel, restore }, Event::ShutdownRequested);
            let collapsed = next(asked.0, Event::Collapsed { tunnel: report });
            let restored = next(collapsed.0, Event::RestoreFinished(Ok(())));
            &&& asked.1 == Action::Collapse { signal_tunnel: tunnel }
            &&& collapsed.1 == Action::RunRestore(restore)
            &&& restored.1 == Action::Exit { result: Ok(()), later: None, last: None }
            &&& restored.0 is Finished
        }),
{
}

/// A tunnel that could not be ended fails the run: where the supervisor
/// reports an error after a shutdown request, the run leaves with that
/// error, whatever the removal of the firewall gives.
pub proof fn lemma_failed_tunnel_end_fails_the_run(
    tunnel: bool,
    restore: Commands,
    cause: ClientError,
    restored: Result<(), CommandError>,
)
    ensures
        ({
            let asked = next(Coordinator::Running { tunnel, restore }, Event::ShutdownRequested);
            let collapsed = next(asked.0, Event::Collapsed { tunnel: Some(Err(cause)) });
            let left = next(collapsed.0, Event::RestoreFinished(restored));
            &&& collapsed.1 == Action::RunRestore(restore)
            &&& left.1 matches Action::Exit { result, .. } && result == Err::<(), ClientError>(
                cause,
            )
        }),
{
}

/// A second shutdown request asks for nothing that the first did not: it is
/// rejected and changes nothing.
pub proof fn lemma_shutdown_is_idempotent(s: Coordinator)
    ensures
        ({
            let once = next(s, Event::ShutdownRequested);
            next(once.0, Event::ShutdownRequested) == (once.0, Action::Rejected)
        }),
{
}

impl Coordinator {
    /// A new run and its first request. A tunnel will be started where the
    /// configuration names a remote host, and only there.
    pub fn start(config: &Config) -> (r: (Coordinator, Action))
        ensures
            r == (
                Coordinator::Installing { tunnel: config.remote is Some },
                Action::InstallHandler,
            ),
    {
        (Coordinator::Installing { tunnel: config.remote.is_some() }, Action::InstallHandler)
    }

    /// The status that the process leaves with: zero after a clean shutdown,
    /// one after any error.
    pub fn exit_code(result: &Result<(), ClientError>) -> (code: i32)
        ensures
            code == if result is Ok {
                0i32
            } else {
                1i32
            },
    {
        match result {
            Ok(_) => 0,
            Err(_) => 1,
        }
    }

    /// Takes in what happened and says what to do next.
    pub fn step(self, event: Event) -> (r: (Coordinator, Action))
        ensures
            r == next(self, event),
    {
        match self {
            Coordinator::Installing { tunnel } => match event {
                Event::HandlerInstalled(Ok(_)) => (Coordinator::Planning { tunnel }, Action::Plan),
                Event::HandlerInstalled(Err(err)) => (
                    Coordinator::Finished,
                    Action::Exit { result: Err(ClientError::from(err)), later: None, last: None },
                ),
                _ => (Coordinator::Installing { tunnel }, Action::Rejected),
            },
            Coordinator::Planning { tunnel } => match event {
                Event::Planned { setup: Ok(setup), restore: Ok(restore) } => (
                    Coordinator::SettingUp { tunnel, restore },
                    Action::RunSetup(setup),
                ),
                Event::Planned { setup: Err(err), restore: Ok(restore) } => (
                    Coordinator::Restoring { failure: Some(ClientError::from(err)), later: None },
                    Action::RunRestore(restore),
                ),
                Event::Planned { setup: Ok(_), restore: Err(err) } => (
                    Coordinator::Finished,
                    Action::Exit { result: Err(ClientError::from(err)), later: None, last: None },
                ),
                Event::Planned { setup: Err(first), restore: Err(second) } => (
                    Coordinator::Finished,
                    Action::Exit {
                        result: Err(ClientError::from(first)),
                        later: Some(ClientError::from(second)),
                        last: None,
                    },
                ),
                _ => (Coordinator::Planning { tunnel }, Action::Rejected),
            },
            Coordinator::SettingUp { tunnel, restore } => match event {
                Event::SetupFinished(Ok(_)) => if tunnel {
                    (Coordinator::StartingTunnel { restore }, Action::StartTunnel)
                } else {
                    (Coordinator::StartingListeners { tunnel, restore }, Action::StartListeners)
                },
                Event::SetupFinished(Err(err)) => (
                    Coordinator::Restoring { failure: Some(ClientError::from(err)), later: None },
                    Action::RunRestore(restore),
                ),
                _ => (Coordinator::SettingUp { tunnel, restore }, Action::Rejected),
            },
            Coordinator::StartingTunnel { restore } => match event {
                Event::TunnelStarted => (
                    Coordinator::StartingListeners { tunnel: true, restore },
                    Action::StartListeners,
                ),
                _ => (Coordinator::StartingTunnel { restore }, Action::Rejected),
            },
            Coordinator::StartingListeners { tunnel, restore } => match event {
                Event::ListenersStarted => (Coordinator::Running { tunnel, restore }, Action::Wait),
                _ => (Coordinator::StartingListeners { tunnel, restore }, Action::Rejected),
            },
            Coordinator::Running { tunnel, restore } => match event {
                Event::TunnelFinished(ended) => if tunnel {
                    (
                        Coordinator::Collapsing { restore, failure: first_failure(ended) },
                        Action::Collapse { signal_tunnel: true },
                    )
                } else {
                    (Coordinator::Running { tunnel, restore }, Action::Rejected)
                },
                Event::PoolFinished(ended) => (
                    Coordinator::Collapsing { restore, failure: first_failure(ended) },
                    Action::Collapse { signal_tunnel: tunnel },
                ),
                Event::ShutdownRequested => (
                    Coordinator::Collapsing { restore, failure: None },
                    Action::Collapse { signal_tunnel: tunnel },
                ),
                _ => (Coordinator::Running { tunnel, restore }, Action::Rejected),
            },
            Coordinator::Collapsing { restore, failure } => match event {
                Event::Collapsed { tunnel } => {
                    let (failure, later) = errors_in_order(failure, report_failure(tunnel));
                    (Coordinator::Restoring { failure, later }, Action::RunRestore(restore))
                },
                _ => (Coordinator::Collapsing { restore, failure }, Action::Rejected),
            },
            Coordinator::Restoring { failure, later } => match event {
                Event::RestoreFinished(restored) => (
                    Coordinator::Finished,
                    exit_action(failure, later, restored),
                ),
                _ => (Coordinator::Restoring { failure, later }, Action::Rejected),
            },
            Coordinator::Finished => (Coordinator::Finished, Action::Rejected),
        }
    }
}

/// The error, if any, in what ended the wait.
fn first_failure(ended: Result<(), ClientError>) -> (failure: Option<ClientError>)
    ensures
        failure == failure_of(ended),
{
    match ended {
        Ok(_) => None,
        Err(e) => Some(e),
    }
}

/// Two errors that may have come one after the other, moved up.
fn errors_in_order(first: Option<ClientError>, second: Option<ClientError>) -> (r: (
    Option<ClientError>,
    Option<ClientError>,
))
    ensures
        r == in_order(first, second),
{
    match first {
        Some(a) => (Some(a), second),
        None => (second, None),
    }
}

/// The error, if any, in what the tunnel supervisor reported during the
/// collapse.
fn report_failure(tunnel: Option<Result<(), ClientError>>) -> (failure: Option<ClientError>)
    ensures
        failure == failure_in_report(tunnel),
{
    match tunnel {
        Some(Err(e)) => Some(e),
        _ => None,
    }
}

/// The exit that follows the end of the removing sequence.
fn exit_action(
    failure: Option<ClientError>,
    later: Option<ClientError>,
    restored: Result<(), CommandError>,
) -> (action: Action)
    ensures
        action == exit_after_restore(failure, later, restored),
{
    let removal = match restored {
        Ok(_) => None,
        Err(e) => Some(ClientError::from(e)),
    };
    match failure {
        Some(first) => match later {
            Some(second) => Action::Exit { result: Err(first), later: Some(second), last: removal },
            None => Action::Exit { result: Err(first), later: removal, last: None },
        },
        None => match later {
            Some(second) => Action::Exit { result: Err(second), later: removal, last: None },
            None => match removal {
                Some(third) => Action::Exit { result: Err(third), later: None, last: None },
                None => Action::Exit { result: Ok(()), later: None, last: None },
            },
        },
    }
}

} // verus!
