//! Supervision of the tunnel process.
//!
//! The tunnel is a child process that offers a SOCKS5 port on this host. The
//! supervisor starts it, then waits for whichever comes first: the child's
//! end, or a request to shut down. The caller does the starting, waiting and
//! killing; [`TunnelSupervisor::step`] decides what each outcome means.
//!
//! The rule itself, [`tunnel_next`], speaks of plain values only: how the
//! supervision ended is a [`TunnelEnd`]. What the supervisor reports to the
//! rest of the forwarder is made of it by [`report`].

use vstd::prelude::*;
use crate::client::{ClientError, Config};
use crate::machine::{drive, lemma_drive_prefix};
use crate::network::SocketAddress;
use crate::text::socket_text;

verus! {

/// What the supervisor is waiting for.
#[derive(Clone, Copy, Debug, PartialEq, Eq, Structural)]
pub enum TunnelSupervisor {
    /// The child is being started.
    Spawning,
    /// The child runs; its end or a shutdown request is awaited.
    Watching,
    /// The child was told to end; its reaping is awaited.
    Killing,
    /// The supervisor has reported and does nothing more.
    Finished,
}

/// What the caller reports to the supervisor.
#[derive(Debug)]
pub enum TunnelEvent {
    /// The attempt to start the child has ended.
    Spawned(Result<(), std::io::Error>),
    /// The wait for the child has ended: with the status the child left
    /// (`None` where a signal ended it), or with the failure of the wait.
    Exited(Result<Option<i32>, std::io::Error>),
    /// A shutdown token was taken from the control channel.
    ShutdownRequested,
    /// The attempt to end and reap the child has ended.
    Killed(Result<(), std::io::Error>),
}

/// How the supervision of a tunnel ended.
#[derive(Debug)]
pub enum TunnelEnd {
    /// The child ended with success, or was ended on request.
    Clean,
    /// The child could not be started, awaited or ended.
    Failed(std::io::Error),
    /// The child ended by itself without success; the status it left, if it
    /// left one.
    ChildFailed(Option<i32>),
}

/// What the rule asks for.
#[derive(Debug)]
pub enum TunnelRequest {
    /// Start the child.
    Spawn,
    /// Wait for the child's end or a shutdown token, whichever is first.
    Watch,
    /// End the child and reap it.
    Kill,
    /// The supervision has ended in this way; the supervisor is done.
    Finish(TunnelEnd),
    /// The event does not answer what was asked; nothing has changed.
    Rejected,
}

/// What the supervisor asks of the caller.
#[derive(Debug)]
pub enum TunnelAction {
    /// Start the child.
    Spawn,
    /// Wait for the child's end or a shutdown token, whichever is first.
    Watch,
    /// End the child and reap it.
    Kill,
    /// Report this result; the supervisor is done.
    Finish(Result<(), ClientError>),
    /// The event does not answer what was asked; nothing has changed.
    Rejected,
}

/// Whether a status left by the child means success.
pub open spec fn exit_is_success(status: Option<i32>) -> bool {
    status == Some(0i32)
}

/// Whether `result` is what the supervisor reports of `end`. A clean end is
/// `Ok`. A failed operation is reported with its own error. A child that
/// failed by itself is reported as an I/O error, made for the report.
pub open spec fn reports(end: TunnelEnd, result: Result<(), ClientError>) -> bool {
    match end {
        TunnelEnd::Clean => result == Ok::<(), ClientError>(()),
        TunnelEnd::Failed(err) => result == Err::<(), ClientError>(ClientError::Io(err)),
        TunnelEnd::ChildFailed(_) => result matches Err(ClientError::Io(_)),
    }
}

/// Whether `action` is what the caller is asked to do for `request`: the
/// same thing, with the end of the supervision turned into its report.
pub open spec fn carries_out(action: TunnelAction, request: TunnelRequest) -> bool {
    match request {
        TunnelRequest::Spawn => action == TunnelAction::Spawn,
        TunnelRequest::Watch => action == TunnelAction::Watch,
        TunnelRequest::Kill => action == TunnelAction::Kill,
        TunnelRequest::Finish(end) => action matches TunnelAction::Finish(result) && reports(
            end,
            result,
        ),
        TunnelRequest::Rejected => action == TunnelAction::Rejected,
    }
}

/// The supervisor's rule: the state and request that follow an event.
///
/// A child that ends by itself is a success only with status zero. A child
/// that is ended on request is a success whatever status it leaves.
pub open spec fn tunnel_next(s: TunnelSupervisor, e: TunnelEvent) -> (
    TunnelSupervisor,
    TunnelRequest,
) {
    match (s, e) {
        (TunnelSupervisor::Spawning, TunnelEvent::Spawned(Ok(_))) => (
            TunnelSupervisor::Watching,
            TunnelRequest::Watch,
        ),
        (TunnelSupervisor::Spawning, TunnelEvent::Spawned(Err(err))) => (
            TunnelSupervisor::Finished,
            TunnelRequest::Finish(TunnelEnd::Failed(err)),
        ),
        (TunnelSupervisor::Watching, TunnelEvent::Exited(Ok(status))) => (
            TunnelSupervisor::Finished,
            if exit_is_success(status) {
                TunnelRequest::Finish(TunnelEnd::Clean)
            } else {
                TunnelRequest::Finish(TunnelEnd::ChildFailed(status))
            },
        ),
        (TunnelSupervisor::Watching, TunnelEvent::Exited(Err(err))) => (
            TunnelSupervisor::Finished,
            TunnelRequest::Finish(TunnelEnd::Failed(err)),
        ),
        (TunnelSupervisor::Watching, TunnelEvent::ShutdownRequested) => (
            TunnelSupervisor::Killing,
            TunnelRequest::Kill,
        ),
        (TunnelSupervisor::Killing, TunnelEvent::Killed(Ok(_))) => (
            TunnelSupervisor::Finished,
            TunnelRequest::Finish(TunnelEnd::Clean),
        ),
        (TunnelSupervisor::Killing, TunnelEvent::Killed(Err(err))) => (
            TunnelSupervisor::Finished,
            TunnelRequest::Finish(TunnelEnd::Failed(err)),
        ),
        _ => (s, TunnelRequest::Rejected),
    }
}

/// The run of a supervisor from its start: the state that `events` lead to,
/// and the request that answered each of them.
pub open spec fn tunnel_run(events: Seq<TunnelEvent>) -> (TunnelSupervisor, Seq<TunnelRequest>) {
    drive(
        |s: TunnelSupervisor, e: TunnelEvent| tunnel_next(s, e),
        TunnelSupervisor::Spawning,
        events,
    )
}

proof fn lemma_tunnel_reached(events: Seq<TunnelEvent>)
    ensures
        tunnel_run(events).1.len() == events.len(),
        (exists|i: int| 0 <= i < events.len() && tunnel_run(events).1[i] is Kill) ==> (
        tunnel_run(events).0 is Killing || tunnel_run(events).0 is Finished),
        (exists|i: int| 0 <= i < events.len() && tunnel_run(events).1[i] is Finish)
            ==> tunnel_run(events).0 is Finished,
    decreases events.len(),
{
    if events.len() > 0 {
        let before = tunnel_run(events.drop_last());
        let after = tunnel_run(events);
        lemma_tunnel_reached(events.drop_last());
        assert(after.1.drop_last() =~= before.1);
        assert forall|i: int| 0 <= i < before.1.len() implies before.1[i] == after.1[i] by {}
        if exists|i: int| 0 <= i < events.len() && after.1[i] is Kill {
            let i = choose|i: int| 0 <= i < events.len() && after.1[i] is Kill;
            if i < before.1.len() {
                assert(before.1[i] is Kill);
            }
        }
        if exists|i: int| 0 <= i < events.len() && after.1[i] is Finish {
            let i = choose|i: int| 0 <= i < events.len() && after.1[i] is Finish;
            if i < before.1.len() {
                assert(before.1[i] is Finish);
            }
        }
    }
}

/// A child that was ended on request is not a failed tunnel: once the
/// supervisor has asked for the child to be ended, it never takes the status
/// that the child left for a failure of the child.
pub proof fn lemma_killed_tunnel_is_no_failure(events: Seq<TunnelEvent>, i: int, k: int)
    requires
        0 <= i < k < events.len(),
        tunnel_run(events).1[i] is Kill,
    ensures
        !(tunnel_run(events).1[k] matches TunnelRequest::Finish(TunnelEnd::ChildFailed(_))),
{
    let rule = |s: TunnelSupervisor, e: TunnelEvent| tunnel_next(s, e);
    lemma_drive_prefix(rule, TunnelSupervisor::Spawning, events, k);
    lemma_tunnel_reached(events.take(k));
    assert(tunnel_run(events.take(k)).1[i] == tunnel_run(events).1.take(k)[i]);
}

/// A shutdown request ends the tunnel at once and cleanly: while the child
/// is watched, the request is answered by the request to end the child, and
/// the reaping of the child is reported as a normal end, whatever status the
/// child left.
pub proof fn lemma_shutdown_ends_tunnel_clean()
    ensures
        ({
            let asked = tunnel_next(TunnelSupervisor::Watching, TunnelEvent::ShutdownRequested);
            let reaped = tunnel_next(asked.0, TunnelEvent::Killed(Ok(())));
            &&& asked.1 == TunnelRequest::Kill
            &&& reaped.1 == TunnelRequest::Finish(TunnelEnd::Clean)
            &&& forall|status: Option<i32>|
                (#[trigger] tunnel_next(asked.0, TunnelEvent::Exited(Ok(status)))).1
                    == TunnelRequest::Rejected
        }),
{
}

/// The supervisor reports once: whatever is handed to it after its report is
/// rejected.
pub proof fn lemma_tunnel_reports_once(events: Seq<TunnelEvent>, k: int, m: int)
    requires
        0 <= k < m < events.len(),
        tunnel_run(events).1[k] is Finish,
    ensures
        tunnel_run(events).1[m] is Rejected,
{
    let rule = |s: TunnelSupervisor, e: TunnelEvent| tunnel_next(s, e);
    lemma_drive_prefix(rule, TunnelSupervisor::Spawning, events, m);
    lemma_tunnel_reached(events.take(m));
    assert(tunnel_run(events.take(m)).1[k] == tunnel_run(events).1.take(m)[k]);
}

impl TunnelSupervisor {
    /// A new supervisor and its first request: start the child.
    pub fn start() -> (r: (TunnelSupervisor, TunnelAction))
        ensures
            r == (TunnelSupervisor::Spawning, TunnelAction::Spawn),
    {
        (TunnelSupervisor::Spawning, TunnelAction::Spawn)
    }

    /// Takes in what happened and says, in plain values, what follows.
    pub fn decide(self, event: TunnelEvent) -> (r: (TunnelSupervisor, TunnelRequest))
        ensures
            r == tunnel_next(self, event),
    {
        match self {
            TunnelSupervisor::Spawning => match event {
                TunnelEvent::Spawned(Ok(_)) => (TunnelSupervisor::Watching, TunnelRequest::Watch),
                TunnelEvent::Spawned(Err(err)) => (
                    TunnelSupervisor::Finished,
                    TunnelRequest::Finish(TunnelEnd::Failed(err)),
                ),
                _ => (self, TunnelRequest::Rejected),
            },
            TunnelSupervisor::Watching => match event {
                TunnelEvent::Exited(Ok(status)) => {
                    let success = match status {
                        Some(code) => code == 0,
                        None => false,
                    };
                    if success {
                        (TunnelSupervisor::Finished, TunnelRequest::Finish(TunnelEnd::Clean))
                    } else {
                        (
                            TunnelSupervisor::Finished,
                            TunnelRequest::Finish(TunnelEnd::ChildFailed(status)),
                        )
                    }
                },
                TunnelEvent::Exited(Err(err)) => (
                    TunnelSupervisor::Finished,
                    TunnelRequest::Finish(TunnelEnd::Failed(err)),
                ),
                TunnelEvent::ShutdownRequested => (TunnelSupervisor::Killing, TunnelRequest::Kill),
                _ => (self, TunnelRequest::Rejected),
            },
            TunnelSupervisor::Killing => match event {
                TunnelEvent::Killed(Ok(_)) => (
                    TunnelSupervisor::Finished,
                    TunnelRequest::Finish(TunnelEnd::Clean),
                ),
                TunnelEvent::Killed(Err(err)) => (
                    TunnelSupervisor::Finished,
                    TunnelRequest::Finish(TunnelEnd::Failed(err)),
                ),
                _ => (self, TunnelRequest::Rejected),
            },
            TunnelSupervisor::Finished => (self, TunnelRequest::Rejected),
        }
    }

    /// Takes in what happened and says what to do next. The state and the
    /// action follow the rule; where the rule ends the supervision, the
    /// action carries the report of that end. So a child that leaves by
    /// itself without success, with no shutdown asked for, ends the
    /// supervisor with an I/O error.
    pub fn step(self, event: TunnelEvent) -> (r: (TunnelSupervisor, TunnelAction))
        ensures
            r.0 == tunnel_next(self, event).0,
            carries_out(r.1, tunnel_next(self, event).1),
            self is Watching && (event matches TunnelEvent::Exited(Ok(status))
                && !exit_is_success(status)) ==> r.0 is Finished
                && r.1 matches TunnelAction::Finish(Err(ClientError::Io(_))),
    {
        let (next, request) = self.decide(event);
        let action = match request {
            TunnelRequest::Spawn => TunnelAction::Spawn,
            TunnelRequest::Watch => TunnelAction::Watch,
            TunnelRequest::Kill => TunnelAction::Kill,
            TunnelRequest::Finish(end) => TunnelAction::Finish(report(end)),
            TunnelRequest::Rejected => TunnelAction::Rejected,
        };
        (next, action)
    }
}

/// `std::io::Error::other`: an I/O error of the kind that stands for
/// everything without a kind of its own, saying `message`. Nothing is
/// claimed of the error.
#[verifier::external_body]
fn other_error(message: &str) -> (error: std::io::Error) {
    std::io::Error::other(message.to_owned())
}

/// What the supervisor reports of the end of its supervision.
pub fn report(end: TunnelEnd) -> (result: Result<(), ClientError>)
    ensures
        reports(end, result),
{
    match end {
        TunnelEnd::Clean => Ok(()),
        TunnelEnd::Failed(err) => Err(ClientError::from(err)),
        TunnelEnd::ChildFailed(_) => Err(ClientError::from(other_error("ssh failed"))),
    }
}

/// The command that starts the tunnel process.
#[derive(Clone, Debug, PartialEq, Eq)]
pub struct TunnelCommand {
    pub program: String,
    pub args: Vec<String>,
}

/// Whether `command` is the tunnel command for the proxy address `socks` and
/// the host `remote`: the remote-shell client, told to offer a dynamic
/// SOCKS5 port at `socks` and to run nothing on `remote`.
pub open spec fn is_tunnel_command(
    command: TunnelCommand,
    socks: SocketAddress,
    remote: Seq<char>,
) -> bool {
    &&& command.program@ == "ssh"@
    &&& command.args@.len() == 4
    &&& command.args@[0]@ == "-D"@
    &&& command.args@[1]@ == socket_text(socks)
    &&& command.args@[2]@ == "-N"@
    &&& command.args@[3]@ == remote
}

/// The command that starts the tunnel process, where the configuration names
/// a remote host; `None` where it names none, and no tunnel is started.
pub fn tunnel_command(config: &Config) -> (command: Option<TunnelCommand>)
    ensures
        command is Some <==> config.remote is Some,
        command matches Some(c) ==> is_tunnel_command(
            c,
            config.socks_addr,
            config.remote->0@,
        ),
{
    match &config.remote {
        None => None,
        Some(remote) => {
            let mut args: Vec<String> = Vec::new();
            args.push(String::from_str("-D"));
            args.push(config.socks_addr.to_text());
            args.push(String::from_str("-N"));
            args.push(remote.clone());
            Some(TunnelCommand { program: String::from_str("ssh"), args })
        },
    }
}

} // verus!
