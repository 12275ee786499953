//! What holds of every run and of every forwarder, whatever arrives and
//! whenever.

use crate::address::{IpAddress, SocketAddress};
use crate::config::{fixed_listeners, ListenerConfigView};
use crate::forwarder::{
    relayed, started, swept, ActionView, BindError, DatagramView, ForwarderView, Socket,
};
use crate::session::is_idle;
use crate::supervisor::{
    begun, is_first_conflict, launched, lemma_conflict_has_first, planned, ports_distinct, reported,
    run_state, validation, ConfigError, Exit, RunState, SupervisorView, UpstreamArgument,
};
use vstd::prelude::*;

verus! {

/// The datagram that `peer` sends to a forwarder's local port.
pub open spec fn request(peer: SocketAddress, payload: Seq<u8>) -> DatagramView {
    DatagramView { socket: Socket::Listener, sender: peer, payload }
}

/// The datagram that the upstream endpoint sends back on the session of `peer`.
pub open spec fn reply(upstream: SocketAddress, peer: SocketAddress, payload: Seq<u8>) -> DatagramView {
    DatagramView { socket: Socket::Session(peer), sender: upstream, payload }
}

/// The forwarder after a run of datagrams, each with the time it arrived.
pub open spec fn relayed_all(state: ForwarderView, arrivals: Seq<(DatagramView, u64)>) -> ForwarderView
    decreases arrivals.len(),
{
    if arrivals.len() == 0 {
        state
    } else {
        relayed(relayed_all(state, arrivals.drop_last()), arrivals.last().0, arrivals.last().1).0
    }
}

/// Relaying never ends a session and never touches the configuration or the
/// count of failed sends: only eviction removes a session.
pub proof fn law_traffic_keeps_sessions(state: ForwarderView, arrivals: Seq<(DatagramView, u64)>)
    ensures
        relayed_all(state, arrivals).config == state.config,
        relayed_all(state, arrivals).forward_errors == state.forward_errors,
        state.sessions.dom().subset_of(relayed_all(state, arrivals).sessions.dom()),
    decreases arrivals.len(),
{
    if arrivals.len() > 0 {
        law_traffic_keeps_sessions(state, arrivals.drop_last());
    }
}

/// Configurations whose ports are pairwise distinct are accepted: the run
/// begins with every forwarder active and no failure, and each forwarder
/// starts, without a session, as soon as its local port is bound.
pub proof fn law_distinct_ports_start(configs: Seq<ListenerConfigView>)
    requires
        ports_distinct(configs),
    ensures
        validation(configs) == Ok::<(), ConfigError>(()),
        launched(configs) == Ok::<SupervisorView, ConfigError>(
            begun(configs),
        ),
        configs.len() > 0 ==> run_state(begun(configs)) == RunState::Running,
        forall|i: int|
            0 <= i < configs.len() ==> started(#[trigger] configs[i], Ok(())) == Ok::<
                ForwarderView,
                BindError,
            >(ForwarderView { config: configs[i], sessions: Map::empty(), forward_errors: 0 }),
{
    if configs.len() > 0 {
        assert(begun(configs).active[0]);
    }
}

/// Configurations of which two share their local port are refused, so that no
/// run begins. The error names the first two configurations that share a port,
/// by the kind of port they share.
pub proof fn law_shared_local_port_is_refused(configs: Seq<ListenerConfigView>, i: int, j: int)
    requires
        configs.len() <= usize::MAX,
        0 <= i < configs.len(),
        0 <= j < configs.len(),
        i != j,
        configs[i].local_port == configs[j].local_port,
    ensures
        launched(configs) is Err,
        launched(configs)->Err_0 == validation(configs)->Err_0,
        match validation(configs) {
            Err(ConfigError::LocalPortConflict { first, second }) => is_first_conflict(
                configs,
                first as int,
                second as int,
            ) && configs[first as int].local_port == configs[second as int].local_port,
            Err(ConfigError::AdminPortConflict { first, second }) => is_first_conflict(
                configs,
                first as int,
                second as int,
            ) && configs[first as int].admin_port == configs[second as int].admin_port,
            _ => false,
        },
{
    if i < j {
        lemma_conflict_has_first(configs, i, j);
    } else {
        lemma_conflict_has_first(configs, j, i);
    }
}

/// The fixed topology is accepted for every upstream address.
pub proof fn law_fixed_listeners_are_accepted(forward_ip: IpAddress)
    ensures
        planned(UpstreamArgument::Address(forward_ip)) == Ok::<
            Seq<ListenerConfigView>,
            ConfigError,
        >(fixed_listeners(forward_ip)),
        ports_distinct(fixed_listeners(forward_ip)),
        launched(fixed_listeners(forward_ip)) is Ok,
{
    let configs = fixed_listeners(forward_ip);
    assert(configs.len() == 3);
    assert(ports_distinct(configs));
}

/// Once a forwarder has failed, the run has failed with that error, whatever
/// the forwarders report afterwards.
pub proof fn law_first_failure_stays(state: SupervisorView, index: int, exit: Exit)
    requires
        state.failure is Some,
    ensures
        reported(state, index, exit).failure == state.failure,
        run_state(reported(state, index, exit)) == run_state(state),
        run_state(state) == RunState::Failed(state.failure->Some_0),
{
}

/// While no forwarder has failed, the first fatal error that an active
/// forwarder reports fails the run, and a clean exit does not.
pub proof fn law_fatal_error_fails_the_run(state: SupervisorView, index: int, exit: Exit)
    requires
        state.failure is None,
        0 <= index < state.active.len(),
        state.active[index],
    ensures
        match exit {
            Exit::Failed(error) => run_state(reported(state, index, exit)) == RunState::Failed(error),
            Exit::Cancelled => !(run_state(reported(state, index, exit)) is Failed),
        },
{
}

/// A datagram that a downstream peer sends to the local port goes to the
/// upstream endpoint with its payload unchanged. Whatever else is relayed
/// after it, a datagram that the upstream endpoint then sends back on the
/// peer's session goes to the peer's address and port with its payload
/// unchanged.
pub proof fn law_round_trip(
    state: ForwarderView,
    peer: SocketAddress,
    sent: Seq<u8>,
    sent_at: u64,
    between: Seq<(DatagramView, u64)>,
    answer: Seq<u8>,
    answered_at: u64,
)
    requires
        peer != state.config.upstream_endpoint,
    ensures
        ({
            let upstream = state.config.upstream_endpoint;
            let (waiting, forward) = relayed(state, request(peer, sent), sent_at);
            let answering = relayed_all(waiting, between);
            let (done, back) = relayed(answering, reply(upstream, peer, answer), answered_at);
            &&& forward == ActionView::ToUpstream { peer, upstream, payload: sent }
            &&& waiting.sessions == state.sessions.insert(peer, sent_at)
            &&& back == ActionView::ToPeer { peer, payload: answer }
            &&& done.sessions == answering.sessions.insert(peer, answered_at)
        }),
{
    let waiting = relayed(state, request(peer, sent), sent_at).0;
    assert(waiting.sessions.dom().contains(peer));
    law_traffic_keeps_sessions(waiting, between);
    assert(relayed_all(waiting, between).sessions.dom().contains(peer));
}

/// A datagram from the upstream endpoint that belongs to no session is
/// dropped: nothing is sent anywhere and the forwarder does not change.
pub proof fn law_unknown_reply_is_dropped(state: ForwarderView, datagram: DatagramView, now: u64)
    requires
        datagram.sender == state.config.upstream_endpoint,
        match datagram.socket {
            Socket::Listener => true,
            Socket::Session(peer) => !state.sessions.contains_key(peer),
        },
    ensures
        relayed(state, datagram, now) == (state, ActionView::Drop),
{
}

/// Eviction removes exactly the sessions that were not touched for longer than
/// the idle duration and leaves the others as they were. A reply that then
/// arrives for a peer whose session was removed is dropped.
pub proof fn law_idle_session_is_evicted(
    state: ForwarderView,
    peer: SocketAddress,
    now: u64,
    older_than: u64,
    answer: Seq<u8>,
    answered_at: u64,
)
    requires
        state.sessions.contains_key(peer),
    ensures
        ({
            let after = swept(state, now, older_than);
            let late = reply(state.config.upstream_endpoint, peer, answer);
            if is_idle(state.sessions[peer], now, older_than) {
                &&& !after.sessions.contains_key(peer)
                &&& relayed(after, late, answered_at) == (after, ActionView::Drop)
            } else {
                &&& after.sessions.contains_key(peer)
                &&& after.sessions[peer] == state.sessions[peer]
                &&& relayed(after, late, answered_at).1 == ActionView::ToPeer { peer, payload: answer }
            }
        }),
{
}

/// A reply only ever goes to the peer of the session that it arrived on, and a
/// request is only ever forwarded for its own sender; the payload is the one
/// that arrived.
pub proof fn law_actions_follow_sessions(state: ForwarderView, datagram: DatagramView, now: u64)
    ensures
        match relayed(state, datagram, now).1 {
            ActionView::ToPeer { peer, payload } => datagram.socket == Socket::Session(peer)
                && state.sessions.contains_key(peer) && payload == datagram.payload,
            ActionView::ToUpstream { peer, upstream, payload } => datagram.socket == Socket::Listener
                && peer == datagram.sender && upstream == state.config.upstream_endpoint && payload
                == datagram.payload,
            ActionView::Drop => relayed(state, datagram, now).0 == state,
        },
{
}

/// When two different peers have each sent a datagram, with whatever else is
/// relayed between and after them, each has a session of its own: the reply on
/// the session of the one goes to the one and refreshes only that session, and
/// the reply on the session of the other still goes to the other.
pub proof fn law_concurrent_peers(
    state: ForwarderView,
    one: SocketAddress,
    other: SocketAddress,
    sent_one: (Seq<u8>, u64),
    between: Seq<(DatagramView, u64)>,
    sent_other: (Seq<u8>, u64),
    after: Seq<(DatagramView, u64)>,
    answer_one: (Seq<u8>, u64),
    answer_other: (Seq<u8>, u64),
)
    requires
        one != other,
        one != state.config.upstream_endpoint,
        other != state.config.upstream_endpoint,
    ensures
        ({
            let upstream = state.config.upstream_endpoint;
            let first = relayed_all(relayed(state, request(one, sent_one.0), sent_one.1).0, between);
            let both = relayed_all(relayed(first, request(other, sent_other.0), sent_other.1).0, after);
            let (answered, back_one) = relayed(both, reply(upstream, one, answer_one.0), answer_one.1);
            let back_other = relayed(answered, reply(upstream, other, answer_other.0), answer_other.1).1;
            &&& both.sessions.contains_key(one)
            &&& both.sessions.contains_key(other)
            &&& back_one == ActionView::ToPeer { peer: one, payload: answer_one.0 }
            &&& answered.sessions[one] == answer_one.1
            &&& answered.sessions[other] == both.sessions[other]
            &&& back_other == ActionView::ToPeer { peer: other, payload: answer_other.0 }
        }),
{
    let joined = relayed(state, request(one, sent_one.0), sent_one.1).0;
    assert(joined.sessions.dom().contains(one));
    law_traffic_keeps_sessions(joined, between);
    let first = relayed_all(joined, between);
    assert(first.sessions.dom().contains(one));
    let met = relayed(first, request(other, sent_other.0), sent_other.1).0;
    assert(met.sessions.dom().contains(one));
    assert(met.sessions.dom().contains(other));
    law_traffic_keeps_sessions(met, after);
    let both = relayed_all(met, after);
    assert(both.sessions.dom().contains(one));
    assert(both.sessions.dom().contains(other));
}

} // verus!
