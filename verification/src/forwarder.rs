//! One forwarded connection, from the accepted socket to its end.
//!
//! A forwarder reads who connected, recovers where the connection was going,
//! asks the proxy for a connection to that place, and then lets bytes pass
//! both ways until both directions have ended. Whatever fails on the way ends
//! this connection and nothing else.

use vstd::prelude::*;
use fast_socks5::client::Config as SessionConfig;
use crate::client::ClientError;
use crate::firewall::{Firewall, OriginalDstQuery};
use crate::machine::{drive, lemma_drive_prefix};
use crate::network::{ListenerAddr, SocketAddress};
use crate::text::ip_text;

verus! {

/// Where a forwarder stands, with what it knows of its connection: who
/// connected, and where the connection was going.
#[derive(Clone, Copy, Debug, PartialEq, Eq, Structural)]
pub enum Forwarder {
    /// The address of the peer is being read.
    ReadingPeer { query: OriginalDstQuery },
    /// The original destination is being recovered.
    Recovering { peer: SocketAddress },
    /// The proxy is being asked for the destination.
    Connecting { peer: SocketAddress, destination: SocketAddress },
    /// Bytes pass both ways.
    Splicing { peer: SocketAddress, destination: SocketAddress },
    /// Both sockets are released.
    Closed,
}

/// What the caller reports to a forwarder.
#[derive(Debug)]
pub enum ForwardEvent {
    /// The address of the peer, or the failure to read it.
    Peer(Result<SocketAddress, std::io::Error>),
    /// The original destination, or the failure to recover it.
    Destination(Result<SocketAddress, ClientError>),
    /// The proxy has connected to the destination, or the session failed.
    Connected(Result<(), fast_socks5::SocksError>),
    /// The passing of bytes has ended: both directions came to their end, or
    /// a read or write failed.
    SpliceEnded(Result<(), std::io::Error>),
}

/// What a forwarder asks of the caller.
#[derive(Debug)]
pub enum ForwardAction {
    /// Read the address of the peer.
    QueryPeer,
    /// Recover the original destination in this way.
    Recover(OriginalDstQuery),
    /// Open a session with the proxy and ask it to connect to this
    /// destination.
    Connect(SocketAddress),
    /// Pass bytes both ways. When one direction ends, close the writing half
    /// of the other side and let the other direction drain.
    Splice,
    /// Release both sockets. An error here is logged and goes no further.
    Close(Result<(), ClientError>),
    /// Nothing was asked for; nothing has changed.
    Rejected,
}

/// The forwarder's rule. A failure before the bytes pass ends the connection
/// with that failure; once they pass, any end is a normal end.
pub open spec fn forward_next(s: Forwarder, e: ForwardEvent) -> (Forwarder, ForwardAction) {
    match (s, e) {
        (Forwarder::ReadingPeer { query }, ForwardEvent::Peer(Ok(peer))) => (
            Forwarder::Recovering { peer },
            ForwardAction::Recover(query),
        ),
        (Forwarder::ReadingPeer { .. }, ForwardEvent::Peer(Err(err))) => (
            Forwarder::Closed,
            ForwardAction::Close(Err(ClientError::Io(err))),
        ),
        (Forwarder::Recovering { peer }, ForwardEvent::Destination(Ok(destination))) => (
            Forwarder::Connecting { peer, destination },
            ForwardAction::Connect(destination),
        ),
        (Forwarder::Recovering { .. }, ForwardEvent::Destination(Err(err))) => (
            Forwarder::Closed,
            ForwardAction::Close(Err(err)),
        ),
        (Forwarder::Connecting { peer, destination }, ForwardEvent::Connected(Ok(_))) => (
            Forwarder::Splicing { peer, destination },
            ForwardAction::Splice,
        ),
        (Forwarder::Connecting { .. }, ForwardEvent::Connected(Err(err))) => (
            Forwarder::Closed,
            ForwardAction::Close(Err(ClientError::Socks5(err))),
        ),
        (Forwarder::Splicing { .. }, ForwardEvent::SpliceEnded(_)) => (
            Forwarder::Closed,
            ForwardAction::Close(Ok(())),
        ),
        _ => (s, ForwardAction::Rejected),
    }
}

/// The run of a forwarder that recovers the destination by `query`: the
/// state that `events` lead to, and the action that answered each of them.
pub open spec fn forward_run(query: OriginalDstQuery, events: Seq<ForwardEvent>) -> (
    Forwarder,
    Seq<ForwardAction>,
) {
    drive(
        |s: Forwarder, e: ForwardEvent| forward_next(s, e),
        Forwarder::ReadingPeer { query },
        events,
    )
}

proof fn lemma_forward_reached(query: OriginalDstQuery, events: Seq<ForwardEvent>)
    ensures
        forward_run(query, events).1.len() == events.len(),
        forward_run(query, events).0 matches Forwarder::ReadingPeer { query: q } ==> q == query,
        (exists|i: int| 0 <= i < events.len() && forward_run(query, events).1[i] is Splice) ==> (
        forward_run(query, events).0 is Splicing || forward_run(query, events).0 is Closed),
        (exists|i: int| 0 <= i < events.len() && forward_run(query, events).1[i] is Close)
            ==> forward_run(query, events).0 is Closed,
    decreases events.len(),
{
    if events.len() > 0 {
        let before = forward_run(query, events.drop_last());
        let after = forward_run(query, events);
        lemma_forward_reached(query, events.drop_last());
        assert(after.1.drop_last() =~= before.1);
        assert forall|i: int| 0 <= i < before.1.len() implies before.1[i] == after.1[i] by {}
        if exists|i: int| 0 <= i < events.len() && after.1[i] is Splice {
            let i = choose|i: int| 0 <= i < events.len() && after.1[i] is Splice;
            if i < before.1.len() {
                assert(before.1[i] is Splice);
            }
        }
        if exists|i: int| 0 <= i < events.len() && after.1[i] is Close {
            let i = choose|i: int| 0 <= i < events.len() && after.1[i] is Close;
            if i < before.1.len() {
                assert(before.1[i] is Close);
            }
        }
    }
}

/// The proxy is asked for the destination that was recovered, and for no
/// other: a request to connect answers the report of a recovered
/// destination and names that destination.
pub proof fn lemma_connect_names_recovered_destination(
    s: Forwarder,
    e: ForwardEvent,
    destination: SocketAddress,
)
    requires
        forward_next(s, e).1 == ForwardAction::Connect(destination),
    ensures
        s is Recovering,
        e == ForwardEvent::Destination(Ok(destination)),
{
}

/// The destination is recovered in the way that was fixed when the
/// connection was accepted.
pub proof fn lemma_recovery_is_fixed_at_start(
    query: OriginalDstQuery,
    events: Seq<ForwardEvent>,
    k: int,
)
    requires
        0 <= k < events.len(),
        forward_run(query, events).1[k] is Recover,
    ensures
        forward_run(query, events).1[k] == ForwardAction::Recover(query),
{
    let rule = |s: Forwarder, e: ForwardEvent| forward_next(s, e);
    lemma_drive_prefix(rule, Forwarder::ReadingPeer { query }, events, k);
    lemma_forward_reached(query, events.take(k));
}

/// Once bytes pass, the connection ends as a normal end, however the passing
/// ended. Only what fails before is an error of the connection.
pub proof fn lemma_splice_ends_normally(
    query: OriginalDstQuery,
    events: Seq<ForwardEvent>,
    i: int,
    k: int,
)
    requires
        0 <= i < k < events.len(),
        forward_run(query, events).1[i] is Splice,
        forward_run(query, events).1[k] is Close,
    ensures
        forward_run(query, events).1[k] == ForwardAction::Close(Ok(())),
{
    let rule = |s: Forwarder, e: ForwardEvent| forward_next(s, e);
    lemma_drive_prefix(rule, Forwarder::ReadingPeer { query }, events, k);
    lemma_forward_reached(query, events.take(k));
    assert(forward_run(query, events.take(k)).1[i] == forward_run(query, events).1.take(k)[i]);
}

/// The sockets are released once: whatever is handed to the forwarder after
/// that is rejected.
pub proof fn lemma_forwarder_closes_once(
    query: OriginalDstQuery,
    events: Seq<ForwardEvent>,
    k: int,
    m: int,
)
    requires
        0 <= k < m < events.len(),
        forward_run(query, events).1[k] is Close,
    ensures
        forward_run(query, events).1[m] is Rejected,
{
    let rule = |s: Forwarder, e: ForwardEvent| forward_next(s, e);
    lemma_drive_prefix(rule, Forwarder::ReadingPeer { query }, events, m);
    lemma_forward_reached(query, events.take(m));
    assert(forward_run(query, events.take(m)).1[k] == forward_run(query, events).1.take(m)[k]);
}

impl Forwarder {
    /// The forwarder of a connection that `listener` accepted under the
    /// firewall driver `firewall`, and its first request. The way to recover
    /// the destination is fixed here, by the family of the listener's address.
    pub fn start(firewall: Firewall, listener: &ListenerAddr) -> (r: (Forwarder, ForwardAction))
        ensures
            r == (
                Forwarder::ReadingPeer {
                    query: firewall.spec_original_dst_query(listener.addr.ip.spec_family()),
                },
                ForwardAction::QueryPeer,
            ),
    {
        let query = firewall.original_dst_query(listener.ip().family());
        (Forwarder::ReadingPeer { query }, ForwardAction::QueryPeer)
    }

    /// Takes in what happened and says what to do next.
    pub fn step(self, event: ForwardEvent) -> (r: (Forwarder, ForwardAction))
        ensures
            r == forward_next(self, event),
    {
        match self {
            Forwarder::ReadingPeer { query } => match event {
                ForwardEvent::Peer(Ok(peer)) => (
                    Forwarder::Recovering { peer },
                    ForwardAction::Recover(query),
                ),
                ForwardEvent::Peer(Err(err)) => (
                    Forwarder::Closed,
                    ForwardAction::Close(Err(ClientError::from(err))),
                ),
                _ => (self, ForwardAction::Rejected),
            },
            Forwarder::Recovering { peer } => match event {
                ForwardEvent::Destination(Ok(destination)) => (
                    Forwarder::Connecting { peer, destination },
                    ForwardAction::Connect(destination),
                ),
                ForwardEvent::Destination(Err(err)) => (
                    Forwarder::Closed,
                    ForwardAction::Close(Err(err)),
                ),
                _ => (self, ForwardAction::Rejected),
            },
            Forwarder::Connecting { peer, destination } => match event {
                ForwardEvent::Connected(Ok(_)) => (
                    Forwarder::Splicing { peer, destination },
                    ForwardAction::Splice,
                ),
                ForwardEvent::Connected(Err(err)) => (
                    Forwarder::Closed,
                    ForwardAction::Close(Err(ClientError::from(err))),
                ),
                _ => (self, ForwardAction::Rejected),
            },
            Forwarder::Splicing { .. } => match event {
                ForwardEvent::SpliceEnded(_) => (Forwarder::Closed, ForwardAction::Close(Ok(()))),
                _ => (self, ForwardAction::Rejected),
            },
            Forwarder::Closed => (self, ForwardAction::Rejected),
        }
    }
}

/// `fast_socks5::client::Config`: the settings of a SOCKS5 session. It is
/// carried as it comes; nothing is known of what it holds.
#[verifier::external_type_specification]
#[verifier::external_body]
pub struct ExSessionConfig(SessionConfig);

/// What is handed to the SOCKS5 client to open a session.
#[derive(Debug)]
pub struct ConnectRequest {
    /// The proxy to open the session with.
    pub proxy: SocketAddress,
    /// The host that the proxy is asked to connect to: the original
    /// destination's address as text.
    pub host: String,
    /// The port that the proxy is asked to connect to.
    pub port: u16,
    /// The settings of the session.
    pub session: SessionConfig,
}

/// `fast_socks5::client::Config::default`: the settings of a session as the
/// SOCKS5 client has them when nothing is chosen. Nothing is claimed of
/// them.
#[verifier::external_body]
fn default_session() -> (session: SessionConfig) {
    SessionConfig::default()
}

/// `fast_socks5::client::Config::set_skip_auth`: chooses whether the session
/// leaves out the negotiation of an authentication method. Nothing is
/// claimed of the settings afterwards.
#[verifier::external_body]
fn set_skip_auth(session: &mut SessionConfig, value: bool) {
    session.set_skip_auth(value);
}

/// The request for the connection that was going to `destination`, to be
/// made through the proxy at `socks_addr`. The proxy is asked for exactly the
/// original destination: its address as text, and its port. The session
/// negotiates authentication.
pub fn connect_request(socks_addr: SocketAddress, destination: SocketAddress) -> (request:
    ConnectRequest)
    ensures
        request.proxy == socks_addr,
        request.host@ == ip_text(destination.ip),
        request.port == destination.port,
{
    let mut session = default_session();
    set_skip_auth(&mut session, false);
    ConnectRequest {
        proxy: socks_addr,
        host: destination.ip.to_text(),
        port: destination.port,
        session,
    }
}

} // verus!
