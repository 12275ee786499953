//! One forwarder: the relay between many downstream peers and one upstream
//! endpoint, as a function from what happened on its sockets to what has to be
//! sent next.
//!
//! A forwarder owns no socket. Its caller binds the listener socket, keeps one
//! upstream-facing socket for each session, hands every datagram that arrives
//! to [`Forwarder::on_datagram`], and performs the [`Action`] that comes back.

use crate::address::SocketAddress;
use crate::config::{ListenerConfig, ListenerConfigView};
use crate::session::{evicted, idle_peers, SessionTable};
use vstd::prelude::*;

verus! {

/// Why the listener socket could not be bound.
#[derive(Clone, Copy, Debug, PartialEq, Eq, Structural)]
pub enum BindFailure {
    /// Another socket already holds the port.
    AddressInUse,
    /// The process may not bind the port.
    PermissionDenied,
    /// The port cannot be bound at all.
    InvalidPort,
    /// The port is unavailable for another reason.
    Other,
}

/// A forwarder could not start: its local port was unavailable.
#[derive(Clone, Copy, Debug, PartialEq, Eq, Structural)]
pub struct BindError {
    /// The local port of the forwarder that failed.
    pub local_port: u16,
    pub cause: BindFailure,
}

/// Why the listener socket can no longer receive.
#[derive(Clone, Copy, Debug, PartialEq, Eq, Structural)]
pub enum SocketFailure {
    /// The socket was closed.
    Closed,
    /// The socket's descriptor is no longer valid.
    BadDescriptor,
    /// Receiving failed for another reason.
    Other,
}

/// A forwarder stopped: its listener socket became unusable.
#[derive(Clone, Copy, Debug, PartialEq, Eq, Structural)]
pub struct SocketFatalError {
    /// The local port of the forwarder that stopped.
    pub local_port: u16,
    pub cause: SocketFailure,
}

/// The socket on which a datagram arrived.
#[derive(Clone, Copy, Debug, PartialEq, Eq, Structural)]
pub enum Socket {
    /// The socket bound to the local port, where downstream peers send.
    Listener,
    /// The upstream-facing socket of the session of the given peer.
    Session(SocketAddress),
}

/// A datagram as it was received.
#[derive(Clone, Debug, PartialEq, Eq)]
pub struct Datagram {
    pub socket: Socket,
    /// The address that the datagram was sent from.
    pub sender: SocketAddress,
    pub payload: Vec<u8>,
}

/// The mathematical value of a [`Datagram`].
pub struct DatagramView {
    pub socket: Socket,
    pub sender: SocketAddress,
    pub payload: Seq<u8>,
}

impl View for Datagram {
    type V = DatagramView;

    open spec fn view(&self) -> DatagramView {
        DatagramView { socket: self.socket, sender: self.sender, payload: self.payload@ }
    }
}

/// What the caller has to do with a datagram that it received.
#[derive(Clone, Debug, PartialEq, Eq)]
pub enum Action {
    /// Send `payload` to `upstream`, from the upstream-facing socket of the
    /// session of `peer`.
    ToUpstream { peer: SocketAddress, upstream: SocketAddress, payload: Vec<u8> },
    /// Send `payload` to `peer`, from the listener socket.
    ToPeer { peer: SocketAddress, payload: Vec<u8> },
    /// Send nothing.
    Drop,
}

/// The mathematical value of an [`Action`].
pub enum ActionView {
    ToUpstream { peer: SocketAddress, upstream: SocketAddress, payload: Seq<u8> },
    ToPeer { peer: SocketAddress, payload: Seq<u8> },
    Drop,
}

impl View for Action {
    type V = ActionView;

    open spec fn view(&self) -> ActionView {
        match self {
            Action::ToUpstream { peer, upstream, payload } => ActionView::ToUpstream {
                peer: *peer,
                upstream: *upstream,
                payload: payload@,
            },
            Action::ToPeer { peer, payload } => ActionView::ToPeer { peer: *peer, payload: payload@ },
            Action::Drop => ActionView::Drop,
        }
    }
}

/// The mathematical value of a [`Forwarder`].
pub struct ForwarderView {
    pub config: ListenerConfigView,
    /// The peers that have a session, each with the time it was last seen.
    pub sessions: Map<SocketAddress, u64>,
    /// How many sends have failed so far.
    pub forward_errors: u64,
}

/// What starting a forwarder gives, once the outcome of binding its local port
/// is known.
pub open spec fn started(config: ListenerConfigView, bound: Result<(), BindFailure>) -> Result<
    ForwarderView,
    BindError,
> {
    match bound {
        Ok(_) => Ok(ForwarderView { config, sessions: Map::empty(), forward_errors: 0 }),
        Err(cause) => Err(BindError { local_port: config.local_port, cause }),
    }
}

/// The peer that a datagram is a reply for: it comes from the upstream endpoint
/// and arrived on the upstream-facing socket of a session that still exists.
pub open spec fn reply_peer(state: ForwarderView, datagram: DatagramView) -> Option<SocketAddress> {
    match datagram.socket {
        Socket::Session(peer) => if datagram.sender == state.config.upstream_endpoint
            && state.sessions.contains_key(peer) {
            Some(peer)
        } else {
            None
        },
        Socket::Listener => None,
    }
}

/// Whether a datagram is a request of a downstream peer: it arrived on the
/// listener socket and does not come from the upstream endpoint.
pub open spec fn is_request(state: ForwarderView, datagram: DatagramView) -> bool {
    datagram.socket == Socket::Listener && datagram.sender != state.config.upstream_endpoint
}

/// The forwarder and the action after `datagram` was received at `now`.
///
/// A request makes or refreshes the session of its sender and goes to the
/// upstream endpoint. A reply refreshes the session that it belongs to and goes
/// to that session's peer. Anything else is dropped and changes nothing. The
/// payload is never changed.
pub open spec fn relayed(state: ForwarderView, datagram: DatagramView, now: u64) -> (
    ForwarderView,
    ActionView,
) {
    if is_request(state, datagram) {
        (
            ForwarderView { sessions: state.sessions.insert(datagram.sender, now), ..state },
            ActionView::ToUpstream {
                peer: datagram.sender,
                upstream: state.config.upstream_endpoint,
                payload: datagram.payload,
            },
        )
    } else {
        match reply_peer(state, datagram) {
            Some(peer) => (
                ForwarderView { sessions: state.sessions.insert(peer, now), ..state },
                ActionView::ToPeer { peer, payload: datagram.payload },
            ),
            None => (state, ActionView::Drop),
        }
    }
}

/// The forwarder after its idle sessions were removed at `now`.
pub open spec fn swept(state: ForwarderView, now: u64, older_than: u64) -> ForwarderView {
    ForwarderView { sessions: evicted(state.sessions, now, older_than), ..state }
}

/// The forwarder after one more send failed. The count stops at `u64::MAX`.
pub open spec fn send_failed(state: ForwarderView) -> ForwarderView {
    ForwarderView {
        forward_errors: if state.forward_errors < u64::MAX {
            (state.forward_errors + 1) as u64
        } else {
            state.forward_errors
        },
        ..state
    }
}

/// A running relay. It exists from the moment its local port is bound until its
/// listener socket fails or its owner drops it.
#[derive(Debug)]
pub struct Forwarder {
    config: ListenerConfig,
    sessions: SessionTable,
    forward_errors: u64,
}

impl View for Forwarder {
    type V = ForwarderView;

    closed spec fn view(&self) -> ForwarderView {
        ForwarderView {
            config: self.config@,
            sessions: self.sessions@,
            forward_errors: self.forward_errors,
        }
    }
}

impl Forwarder {
    /// Starts the forwarder of `config`. `bound` is the outcome of binding a UDP
    /// socket to [`ListenerConfig::bind_address`]: the forwarder runs if the
    /// socket was bound, and fails with the cause otherwise.
    pub fn start(config: ListenerConfig, bound: Result<(), BindFailure>) -> (result: Result<
        Forwarder,
        BindError,
    >)
        ensures
            match result {
                Ok(forwarder) => started(config@, bound) == Ok::<ForwarderView, BindError>(forwarder@),
                Err(error) => started(config@, bound) == Err::<ForwarderView, BindError>(error),
            },
    {
        match bound {
            Ok(_) => Ok(Forwarder { config, sessions: SessionTable::new(), forward_errors: 0 }),
            Err(cause) => Err(BindError { local_port: config.local_port, cause }),
        }
    }

    /// Decides what to do with a datagram that was received at `now`.
    pub fn on_datagram(&mut self, datagram: Datagram, now: u64) -> (action: Action)
        ensures
            (final(self)@, action@) == relayed(old(self)@, datagram@, now),
    {
        let Datagram { socket, sender, payload } = datagram;
        let from_upstream = sender == self.config.upstream_endpoint;
        match socket {
            Socket::Listener => {
                if from_upstream {
                    Action::Drop
                } else {
                    self.sessions.touch(sender, now);
                    Action::ToUpstream { peer: sender, upstream: self.config.upstream_endpoint, payload }
                }
            },
            Socket::Session(peer) => {
                if from_upstream && self.sessions.contains(peer) {
                    self.sessions.touch(peer, now);
                    Action::ToPeer { peer, payload }
                } else {
                    Action::Drop
                }
            },
        }
    }

    /// Removes the sessions that, at `now`, have not been touched for longer
    /// than `older_than`, and returns how many were removed.
    pub fn evict_idle(&mut self, now: u64, older_than: u64) -> (count: usize)
        ensures
            final(self)@ == swept(old(self)@, now, older_than),
            idle_peers(old(self)@.sessions, now, older_than).finite(),
            count == idle_peers(old(self)@.sessions, now, older_than).len(),
    {
        self.sessions.evict_idle(now, older_than)
    }

    /// Counts a send that failed. The relay goes on as before.
    pub fn on_send_failure(&mut self)
        ensures
            final(self)@ == send_failed(old(self)@),
    {
        if self.forward_errors < u64::MAX {
            self.forward_errors += 1;
        }
    }

    /// Ends the forwarder because its listener socket can no longer receive.
    pub fn on_receive_failure(self, cause: SocketFailure) -> (error: SocketFatalError)
        ensures
            error == (SocketFatalError { local_port: self@.config.local_port, cause }),
    {
        SocketFatalError { local_port: self.config.local_port, cause }
    }

    /// What the forwarder was started with.
    pub fn config(&self) -> (config: &ListenerConfig)
        ensures
            config@ == self@.config,
    {
        &self.config
    }

    /// Whether `peer_address` has a session.
    pub fn has_session(&self, peer_address: SocketAddress) -> (found: bool)
        ensures
            found == self@.sessions.contains_key(peer_address),
    {
        self.sessions.contains(peer_address)
    }

    /// When `peer_address` was last seen, if it has a session.
    pub fn last_seen(&self, peer_address: SocketAddress) -> (seen: Option<u64>)
        ensures
            seen == (if self@.sessions.contains_key(peer_address) {
                Some(self@.sessions[peer_address])
            } else {
                None
            }),
    {
        self.sessions.last_seen(peer_address)
    }

    /// The number of sessions.
    pub fn session_count(&self) -> (count: usize)
        ensures
            self@.sessions.dom().finite(),
            count == self@.sessions.len(),
    {
        self.sessions.len()
    }

    /// How many sends have failed so far.
    pub fn forward_errors(&self) -> (count: u64)
        ensures
            count == self@.forward_errors,
    {
        self.forward_errors
    }
}

} // verus!
