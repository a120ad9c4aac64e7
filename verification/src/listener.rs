//! The listener pool: which listeners accept, and what an accept loop does
//! with each thing that happens to it.
//!
//! Only TCP listeners accept; a UDP listener may stand in the configuration
//! but gets no socket. A listener is bound, handed to the firewall driver for
//! what its socket needs, and then accepts. Each accepted connection goes to a
//! forwarder of its own, and the listener never waits for one.

use vstd::prelude::*;
use crate::client::ClientError;
use crate::firewall::{Firewall, ListenerRegistration};
use crate::machine::{drive, lemma_drive_prefix};
use crate::network::{ListenerAddr, Protocol};

verus! {

/// The TCP listeners of `listen`, in their order.
pub open spec fn tcp_only(listen: Seq<ListenerAddr>) -> Seq<ListenerAddr> {
    listen.filter(|l: ListenerAddr| l.protocol == Protocol::Tcp)
}

/// The listeners that get a socket and an accept loop: the TCP listeners, in
/// the order of the configuration.
pub fn tcp_listeners(listen: &Vec<ListenerAddr>) -> (tcp: Vec<ListenerAddr>)
    ensures
        tcp@ == tcp_only(listen@),
        forall|i: int| 0 <= i < tcp@.len() ==> (#[trigger] tcp@[i]).protocol == Protocol::Tcp,
{
    let mut tcp: Vec<ListenerAddr> = Vec::new();
    let mut i: usize = 0;
    proof {
        reveal(Seq::filter);
        assert(listen@.take(0) =~= Seq::<ListenerAddr>::empty());
    }
    while i < listen.len()
        invariant
            i <= listen.len(),
            tcp@ == tcp_only(listen@.take(i as int)),
            forall|k: int| 0 <= k < tcp@.len() ==> (#[trigger] tcp@[k]).protocol == Protocol::Tcp,
        decreases listen.len() - i,
    {
        let listener = listen[i];
        proof {
            reveal(Seq::filter);
            assert(listen@.take(i + 1).drop_last() =~= listen@.take(i as int));
            assert(listen@.take(i + 1).last() == listener);
        }
        match listener.protocol {
            Protocol::Tcp => {
                tcp.push(listener);
            },
            Protocol::Udp => {},
        }
        i += 1;
    }
    proof {
        assert(listen@.take(i as int) =~= listen@);
    }
    tcp
}

/// Where the start of the pool stands.
#[derive(Clone, Copy, Debug, PartialEq, Eq, Structural)]
pub enum ListenerPool {
    /// Listener `index` of `len` is coming up.
    Starting { index: usize, len: usize },
    /// All listeners accept.
    Serving,
    /// The pool has ended.
    Ended,
}

/// What the caller reports to the pool.
#[derive(Debug)]
pub enum PoolEvent {
    /// The listener that was asked for accepts, or could not be brought up.
    Listening(Result<(), ClientError>),
    /// An accept loop has stopped for good.
    ListenerStopped(ClientError),
}

/// What the pool asks of the caller.
#[derive(Debug)]
pub enum PoolAction {
    /// Bring up the TCP listener at this position.
    Listen(usize),
    /// All listeners are up: wait until one stops.
    Serve,
    /// The pool has ended with this error, which goes to the coordinator.
    Finish(ClientError),
    /// Nothing was asked for; nothing has changed.
    Rejected,
}

/// The first state and request of a pool of `len` TCP listeners.
pub open spec fn pool_start(len: usize) -> (ListenerPool, PoolAction) {
    if len == 0 {
        (ListenerPool::Serving, PoolAction::Serve)
    } else {
        (ListenerPool::Starting { index: 0, len }, PoolAction::Listen(0))
    }
}

/// The pool's rule. Listeners come up one after the other; the first that
/// cannot ends the pool and those after it are not tried. An accept loop
/// that stops ends the pool as well.
pub open spec fn pool_next(s: ListenerPool, e: PoolEvent) -> (ListenerPool, PoolAction) {
    match (s, e) {
        (ListenerPool::Starting { index, len }, PoolEvent::Listening(Ok(_))) => if index + 1
            < len {
            (
                ListenerPool::Starting { index: (index + 1) as usize, len },
                PoolAction::Listen((index + 1) as usize),
            )
        } else {
            (ListenerPool::Serving, PoolAction::Serve)
        },
        (ListenerPool::Starting { .. }, PoolEvent::Listening(Err(err))) => (
            ListenerPool::Ended,
            PoolAction::Finish(err),
        ),
        (ListenerPool::Starting { .. }, PoolEvent::ListenerStopped(err)) => (
            ListenerPool::Ended,
            PoolAction::Finish(err),
        ),
        (ListenerPool::Serving, PoolEvent::ListenerStopped(err)) => (
            ListenerPool::Ended,
            PoolAction::Finish(err),
        ),
        _ => (s, PoolAction::Rejected),
    }
}

/// The actions that answer `events`, reported one by one to a pool of `len`
/// TCP listeners.
pub open spec fn pool_actions(len: usize, events: Seq<PoolEvent>) -> Seq<PoolAction> {
    drive(|s: ListenerPool, e: PoolEvent| pool_next(s, e), pool_start(len).0, events).1
}

/// Whether the first `n` of `events` all say that a listener has come up.
pub open spec fn all_listening(events: Seq<PoolEvent>, n: int) -> bool {
    forall|j: int|
        0 <= j < n && j < events.len() ==> (#[trigger] events[j]) matches PoolEvent::Listening(
            Ok(_),
        )
}

spec fn pool_state(len: usize, events: Seq<PoolEvent>) -> ListenerPool {
    drive(|s: ListenerPool, e: PoolEvent| pool_next(s, e), pool_start(len).0, events).0
}

proof fn lemma_pool_state(len: usize, events: Seq<PoolEvent>)
    ensures
        pool_state(len, events) matches ListenerPool::Starting { index, len: l } ==> l == len
            && index == events.len() && index < len && all_listening(
            events,
            events.len() as int,
        ),
    decreases events.len(),
{
    if events.len() > 0 {
        let before = events.drop_last();
        lemma_pool_state(len, before);
        if pool_state(len, events) is Starting {
            assert forall|j: int| 0 <= j < events.len() implies (
            #[trigger] events[j]) matches PoolEvent::Listening(Ok(_)) by {
                if j < before.len() {
                    assert(before[j] == events[j]);
                }
            }
        }
    }
}

/// Listeners come up in the order of the configuration, each only when all
/// before it are up: the request for listener `i + 1` answers the `i`-th
/// report, and every report up to it said that a listener had come up. So
/// the listeners after one that failed are never tried.
pub proof fn lemma_listeners_start_in_order(len: usize, events: Seq<PoolEvent>, i: int)
    requires
        0 <= i < events.len(),
    ensures
        pool_actions(len, events).len() == events.len(),
        pool_actions(len, events)[i] is Listen ==> pool_actions(len, events)[i]
            == PoolAction::Listen((i + 1) as usize) && i + 1 < len && all_listening(
            events,
            i + 1,
        ),
{
    let rule = |s: ListenerPool, e: PoolEvent| pool_next(s, e);
    lemma_drive_prefix(rule, pool_start(len).0, events, i);
    lemma_pool_state(len, events.take(i));
    if pool_actions(len, events)[i] is Listen {
        assert forall|j: int| 0 <= j < i + 1 && j < events.len() implies (
        #[trigger] events[j]) matches PoolEvent::Listening(Ok(_)) by {
            if j < i {
                assert(events.take(i)[j] == events[j]);
            }
        }
    }
}

impl ListenerPool {
    /// The pool of `len` TCP listeners and its first request.
    pub fn start(len: usize) -> (r: (ListenerPool, PoolAction))
        ensures
            r == pool_start(len),
    {
        if len == 0 {
            (ListenerPool::Serving, PoolAction::Serve)
        } else {
            (ListenerPool::Starting { index: 0, len }, PoolAction::Listen(0))
        }
    }

    /// Takes in what happened and says what to do next.
    pub fn step(self, event: PoolEvent) -> (r: (ListenerPool, PoolAction))
        ensures
            r == pool_next(self, event),
    {
        match self {
            ListenerPool::Starting { index, len } => match event {
                PoolEvent::Listening(Ok(_)) => if len > 0 && index < len - 1 {
                    (
                        ListenerPool::Starting { index: index + 1, len },
                        PoolAction::Listen(index + 1),
                    )
                } else {
                    (ListenerPool::Serving, PoolAction::Serve)
                },
                PoolEvent::Listening(Err(err)) => (ListenerPool::Ended, PoolAction::Finish(err)),
                PoolEvent::ListenerStopped(err) => (ListenerPool::Ended, PoolAction::Finish(err)),
            },
            ListenerPool::Serving => match event {
                PoolEvent::ListenerStopped(err) => (ListenerPool::Ended, PoolAction::Finish(err)),
                _ => (self, PoolAction::Rejected),
            },
            ListenerPool::Ended => (self, PoolAction::Rejected),
        }
    }
}

/// What a failed accept says about the listening socket.
#[derive(Clone, Copy, Debug, PartialEq, Eq, Structural)]
pub enum AcceptFailure {
    /// The descriptor of the listening socket is not open.
    BadDescriptor,
    /// The socket does not listen.
    NotListening,
    /// The descriptor is not a socket.
    NotSocket,
    /// The failure did not come from the operating system.
    NoSystemCode,
    /// Anything else: the connection that was to be accepted failed, or the
    /// system is short of something for the moment.
    Other,
}

/// The system code for a descriptor that is not open, as Linux numbers it.
pub const EBADF: i32 = 9;

/// The system code for a socket that does not listen, as Linux numbers it.
pub const EINVAL: i32 = 22;

/// The system code for a descriptor that is no socket, as Linux numbers it
/// on the architectures that share its general table of codes.
pub const ENOTSOCK: i32 = 88;

/// What the system code of a failed accept says about the listening socket;
/// `None` stands for a failure that carries no system code.
pub open spec fn accept_failure_of(code: Option<i32>) -> AcceptFailure {
    match code {
        None => AcceptFailure::NoSystemCode,
        Some(c) => if c == EBADF {
            AcceptFailure::BadDescriptor
        } else if c == EINVAL {
            AcceptFailure::NotListening
        } else if c == ENOTSOCK {
            AcceptFailure::NotSocket
        } else {
            AcceptFailure::Other
        },
    }
}

/// What the system code of a failed accept says about the listening socket.
pub fn accept_failure(code: Option<i32>) -> (failure: AcceptFailure)
    ensures
        failure == accept_failure_of(code),
{
    match code {
        None => AcceptFailure::NoSystemCode,
        Some(c) => if c == EBADF {
            AcceptFailure::BadDescriptor
        } else if c == EINVAL {
            AcceptFailure::NotListening
        } else if c == ENOTSOCK {
            AcceptFailure::NotSocket
        } else {
            AcceptFailure::Other
        },
    }
}

impl AcceptFailure {
    /// Whether the failure means that the listener is gone. What only
    /// concerns the connection that was to be accepted does not.
    pub open spec fn spec_is_listener_death(self) -> bool {
        !(self is Other)
    }

    /// Whether the failure means that the listener is gone. What only
    /// concerns the connection that was to be accepted does not.
    #[verifier::when_used_as_spec(spec_is_listener_death)]
    pub fn is_listener_death(self) -> (death: bool)
        ensures
            death == self.spec_is_listener_death(),
    {
        match self {
            AcceptFailure::Other => false,
            _ => true,
        }
    }
}

/// Where one listener stands.
#[derive(Clone, Copy, Debug, PartialEq, Eq, Structural)]
pub enum Listener {
    /// The socket is being bound.
    Binding { registration: ListenerRegistration },
    /// The bound socket is with the firewall driver.
    Registering,
    /// The accept loop runs.
    Accepting,
    /// The listener has stopped.
    Stopped,
}

/// What the caller reports to a listener.
#[derive(Debug)]
pub enum ListenerEvent {
    /// The attempt to bind has ended.
    Bound(Result<(), std::io::Error>),
    /// The firewall driver has done to the socket what it needs, or failed.
    Registered(Result<(), ClientError>),
    /// A connection was accepted.
    Accepted,
    /// An accept failed, with this system code if it carries one.
    AcceptFailed { code: Option<i32>, error: std::io::Error },
}

/// What a listener asks of the caller.
#[derive(Debug)]
pub enum ListenerAction {
    /// Bind the socket.
    Bind,
    /// Do this to the bound socket.
    Register(ListenerRegistration),
    /// The listener is up: accept.
    Accept,
    /// Hand the accepted connection to a forwarder of its own, without
    /// waiting for it, and accept again.
    Dispatch,
    /// Log the error and accept again.
    Retry(std::io::Error),
    /// The listener could not be brought up.
    FailStart(ClientError),
    /// The accept loop has stopped for good.
    Stop(ClientError),
    /// Nothing was asked for; nothing has changed.
    Rejected,
}

/// The listener's rule.
pub open spec fn listener_next(s: Listener, e: ListenerEvent) -> (Listener, ListenerAction) {
    match (s, e) {
        (Listener::Binding { registration }, ListenerEvent::Bound(Ok(_))) => (
            Listener::Registering,
            ListenerAction::Register(registration),
        ),
        (Listener::Binding { .. }, ListenerEvent::Bound(Err(err))) => (
            Listener::Stopped,
            ListenerAction::FailStart(ClientError::Io(err)),
        ),
        (Listener::Registering, ListenerEvent::Registered(Ok(_))) => (
            Listener::Accepting,
            ListenerAction::Accept,
        ),
        (Listener::Registering, ListenerEvent::Registered(Err(err))) => (
            Listener::Stopped,
            ListenerAction::FailStart(err),
        ),
        (Listener::Accepting, ListenerEvent::Accepted) => (
            Listener::Accepting,
            ListenerAction::Dispatch,
        ),
        (Listener::Accepting, ListenerEvent::AcceptFailed { code, error }) => if accept_failure_of(
            code,
        ).spec_is_listener_death() {
            (Listener::Stopped, ListenerAction::Stop(ClientError::Io(error)))
        } else {
            (Listener::Accepting, ListenerAction::Retry(error))
        },
        _ => (s, ListenerAction::Rejected),
    }
}

/// The run of a listener whose socket needs `registration`: the state that
/// `events` lead to, and the action that answered each of them.
pub open spec fn listener_run(registration: ListenerRegistration, events: Seq<ListenerEvent>) -> (
    Listener,
    Seq<ListenerAction>,
) {
    drive(
        |s: Listener, e: ListenerEvent| listener_next(s, e),
        Listener::Binding { registration },
        events,
    )
}

/// Whether the listener was asked to accept.
spec fn was_up(actions: Seq<ListenerAction>) -> bool {
    exists|i: int| 0 <= i < actions.len() && actions[i] is Accept
}

/// Whether the accept loop was stopped.
spec fn was_stopped(actions: Seq<ListenerAction>) -> bool {
    exists|i: int| 0 <= i < actions.len() && actions[i] is Stop
}

proof fn lemma_listener_reached(registration: ListenerRegistration, events: Seq<ListenerEvent>)
    ensures
        listener_run(registration, events).1.len() == events.len(),
        listener_run(registration, events).0 matches Listener::Binding { registration: r } ==> r
            == registration,
        was_stopped(listener_run(registration, events).1) ==> listener_run(
            registration,
            events,
        ).0 is Stopped,
        was_up(listener_run(registration, events).1) && !was_stopped(
            listener_run(registration, events).1,
        ) ==> listener_run(registration, events).0 is Accepting,
    decreases events.len(),
{
    if events.len() > 0 {
        let before = listener_run(registration, events.drop_last());
        let after = listener_run(registration, events);
        lemma_listener_reached(registration, events.drop_last());
        assert(after.1.drop_last() =~= before.1);
        assert forall|i: int| 0 <= i < before.1.len() implies before.1[i] == after.1[i] by {}
        let n = events.len() - 1;
        assert(after.1[n] == listener_next(before.0, events.last()).1);
        if was_stopped(after.1) {
            let i = choose|i: int| 0 <= i < after.1.len() && after.1[i] is Stop;
            if i < n {
                assert(before.1[i] is Stop);
            }
        }
        if was_up(after.1) && !was_stopped(after.1) {
            let i = choose|i: int| 0 <= i < after.1.len() && after.1[i] is Accept;
            if i < n {
                assert(before.1[i] is Accept);
                if was_stopped(before.1) {
                    let j = choose|j: int| 0 <= j < before.1.len() && before.1[j] is Stop;
                    assert(after.1[j] is Stop);
                }
            }
        }
    }
}

/// The socket gets what the firewall driver needs for it: the request to
/// register names the registration that was fixed at the start.
pub proof fn lemma_registration_is_fixed_at_start(
    registration: ListenerRegistration,
    events: Seq<ListenerEvent>,
    k: int,
)
    requires
        0 <= k < events.len(),
        listener_run(registration, events).1[k] is Register,
    ensures
        listener_run(registration, events).1[k] == ListenerAction::Register(registration),
{
    let rule = |s: Listener, e: ListenerEvent| listener_next(s, e);
    lemma_drive_prefix(rule, Listener::Binding { registration }, events, k);
    lemma_listener_reached(registration, events.take(k));
}

/// While a listener accepts, every accepted connection is dispatched and
/// every failure that is not the listener's death is retried: between the
/// request to accept and the stop, no report of an accept is rejected.
pub proof fn lemma_accept_loop_goes_on(
    registration: ListenerRegistration,
    events: Seq<ListenerEvent>,
    i: int,
    k: int,
)
    requires
        0 <= i < k < events.len(),
        listener_run(registration, events).1[i] is Accept,
        forall|j: int| i < j < k ==> !(#[trigger] listener_run(registration, events).1[j] is Stop),
    ensures
        events[k] is Accepted ==> listener_run(registration, events).1[k] is Dispatch,
        events[k] matches ListenerEvent::AcceptFailed { code, error } ==> listener_run(
            registration,
            events,
        ).1[k] == if accept_failure_of(code).spec_is_listener_death() {
            ListenerAction::Stop(ClientError::Io(error))
        } else {
            ListenerAction::Retry(error)
        },
{
    let rule = |s: Listener, e: ListenerEvent| listener_next(s, e);
    let start = Listener::Binding { registration };
    let all = listener_run(registration, events).1;
    lemma_drive_prefix(rule, start, events, k);
    lemma_listener_reached(registration, events.take(k));
    let part = listener_run(registration, events.take(k)).1;
    assert(part[i] == all.take(k)[i]);
    assert(part[i] is Accept);
    if was_stopped(part) {
        let j = choose|j: int| 0 <= j < part.len() && part[j] is Stop;
        assert(part[j] == all.take(k)[j]);
        // A stop before the request to accept would have left nothing to ask.
        assert(j < i);
        lemma_drive_prefix(rule, start, events, i);
        lemma_listener_reached(registration, events.take(i));
        let early = listener_run(registration, events.take(i)).1;
        assert(early[j] == all.take(i)[j]);
        assert(early[j] is Stop);
        assert(false);
    }
}

/// A listener stops only when a failed accept says that the listener is
/// gone, and the error that it stops with is that of this accept.
pub proof fn lemma_stop_means_listener_death(s: Listener, e: ListenerEvent, cause: ClientError)
    requires
        listener_next(s, e).1 == ListenerAction::Stop(cause),
    ensures
        s is Accepting,
        e matches ListenerEvent::AcceptFailed { code, error } && accept_failure_of(
            code,
        ).spec_is_listener_death()
            && cause == ClientError::Io(error),
{
}

impl Listener {
    /// A listener under the firewall driver `firewall`, and its first
    /// request.
    pub fn start(firewall: Firewall) -> (r: (Listener, ListenerAction))
        ensures
            r == (
                Listener::Binding { registration: firewall.spec_register_listener() },
                ListenerAction::Bind,
            ),
    {
        (Listener::Binding { registration: firewall.register_listener() }, ListenerAction::Bind)
    }

    /// Takes in what happened and says what to do next.
    pub fn step(self, event: ListenerEvent) -> (r: (Listener, ListenerAction))
        ensures
            r == listener_next(self, event),
    {
        match self {
            Listener::Binding { registration } => match event {
                ListenerEvent::Bound(Ok(_)) => (
                    Listener::Registering,
                    ListenerAction::Register(registration),
                ),
                ListenerEvent::Bound(Err(err)) => (
                    Listener::Stopped,
                    ListenerAction::FailStart(ClientError::from(err)),
                ),
                _ => (self, ListenerAction::Rejected),
            },
            Listener::Registering => match event {
                ListenerEvent::Registered(Ok(_)) => (Listener::Accepting, ListenerAction::Accept),
                ListenerEvent::Registered(Err(err)) => (
                    Listener::Stopped,
                    ListenerAction::FailStart(err),
                ),
                _ => (self, ListenerAction::Rejected),
            },
            Listener::Accepting => match event {
                ListenerEvent::Accepted => (Listener::Accepting, ListenerAction::Dispatch),
                ListenerEvent::AcceptFailed { code, error } => if accept_failure(code)
                    .is_listener_death() {
                    (Listener::Stopped, ListenerAction::Stop(ClientError::from(error)))
                } else {
                    (Listener::Accepting, ListenerAction::Retry(error))
                },
                _ => (self, ListenerAction::Rejected),
            },
            Listener::Stopped => (self, ListenerAction::Rejected),
        }
    }
}

} // verus!
