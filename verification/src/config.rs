//! Listener configurations, and the fixed set of listeners that the program
//! runs.

use crate::address::{IpAddress, SocketAddress};
use vstd::prelude::*;

verus! {

/// What one forwarder is started with. A configuration is made once, before any
/// forwarder starts, and only read afterwards.
#[derive(Clone, Debug, PartialEq, Eq)]
pub struct ListenerConfig {
    /// A short label for diagnostics.
    pub name: String,
    /// The UDP port that the forwarder binds on every interface.
    pub local_port: u16,
    /// The one destination of all forwarded traffic.
    pub upstream_endpoint: SocketAddress,
    /// The port kept for the administrative listener. It is only recorded here.
    pub admin_port: u16,
}

/// The mathematical value of a [`ListenerConfig`].
pub struct ListenerConfigView {
    pub name: Seq<char>,
    pub local_port: u16,
    pub upstream_endpoint: SocketAddress,
    pub admin_port: u16,
}

impl View for ListenerConfig {
    type V = ListenerConfigView;

    open spec fn view(&self) -> ListenerConfigView {
        ListenerConfigView {
            name: self.name@,
            local_port: self.local_port,
            upstream_endpoint: self.upstream_endpoint,
            admin_port: self.admin_port,
        }
    }
}

/// The views of a vector of configurations, in order.
pub open spec fn config_views(configs: Seq<ListenerConfig>) -> Seq<ListenerConfigView> {
    Seq::new(configs.len(), |i: int| configs[i]@)
}

/// The configuration of a listener that forwards `game_port` to the same port of
/// `forward_ip`.
pub open spec fn listener(
    name: Seq<char>,
    forward_ip: IpAddress,
    game_port: u16,
    admin_port: u16,
) -> ListenerConfigView {
    ListenerConfigView {
        name,
        local_port: game_port,
        upstream_endpoint: SocketAddress { ip: forward_ip, port: game_port },
        admin_port,
    }
}

impl ListenerConfig {
    /// A configuration with an upstream endpoint of any address and port.
    pub fn new(name: String, local_port: u16, upstream_endpoint: SocketAddress, admin_port: u16) -> (config:
        ListenerConfig)
        ensures
            config@ == (ListenerConfigView {
                name: name@,
                local_port,
                upstream_endpoint,
                admin_port,
            }),
    {
        ListenerConfig { name, local_port, upstream_endpoint, admin_port }
    }

    /// The address that the forwarder's socket binds: every interface, at the
    /// local port.
    pub fn bind_address(&self) -> (address: SocketAddress)
        ensures
            address == (SocketAddress { ip: IpAddress::V4(0), port: self.local_port }),
    {
        SocketAddress::new(IpAddress::unspecified(), self.local_port)
    }

    /// The address kept for the administrative listener: every interface, at the
    /// admin port.
    pub fn admin_address(&self) -> (address: SocketAddress)
        ensures
            address == (SocketAddress { ip: IpAddress::V4(0), port: self.admin_port }),
    {
        SocketAddress::new(IpAddress::unspecified(), self.admin_port)
    }

    /// A copy of this configuration with the same value.
    pub fn duplicate(&self) -> (copy: ListenerConfig)
        ensures
            copy@ == self@,
    {
        ListenerConfig {
            name: self.name.clone(),
            local_port: self.local_port,
            upstream_endpoint: self.upstream_endpoint,
            admin_port: self.admin_port,
        }
    }
}

/// The configuration of the listener `name`, which accepts datagrams on
/// `game_port` and forwards them to the same port of `forward_ip`.
pub fn create_config(name: &str, forward_ip: IpAddress, game_port: u16, admin_port: u16) -> (config:
    ListenerConfig)
    ensures
        config@ == listener(name@, forward_ip, game_port, admin_port),
{
    ListenerConfig {
        name: name.to_owned(),
        local_port: game_port,
        upstream_endpoint: SocketAddress::new(forward_ip, game_port),
        admin_port,
    }
}

pub const QUERY_PORT: u16 = 15777;

pub const QUERY_ADMIN_PORT: u16 = 9001;

pub const BEACON_PORT: u16 = 15000;

pub const BEACON_ADMIN_PORT: u16 = 9002;

pub const GAME_PORT: u16 = 7777;

pub const GAME_ADMIN_PORT: u16 = 9003;

/// The three listeners of the fixed topology, all forwarding to `forward_ip`.
pub open spec fn fixed_listeners(forward_ip: IpAddress) -> Seq<ListenerConfigView> {
    seq![
        listener("query"@, forward_ip, QUERY_PORT, QUERY_ADMIN_PORT),
        listener("beacon"@, forward_ip, BEACON_PORT, BEACON_ADMIN_PORT),
        listener("game"@, forward_ip, GAME_PORT, GAME_ADMIN_PORT),
    ]
}

/// The listeners `query`, `beacon` and `game`, each forwarding its own port to
/// the same port of `forward_ip`.
pub fn create_listeners(forward_ip: IpAddress) -> (configs: Vec<ListenerConfig>)
    ensures
        config_views(configs@) == fixed_listeners(forward_ip),
{
    let mut configs: Vec<ListenerConfig> = Vec::new();
    configs.push(create_config("query", forward_ip, QUERY_PORT, QUERY_ADMIN_PORT));
    configs.push(create_config("beacon", forward_ip, BEACON_PORT, BEACON_ADMIN_PORT));
    configs.push(create_config("game", forward_ip, GAME_PORT, GAME_ADMIN_PORT));
    assert(config_views(configs@) =~= fixed_listeners(forward_ip));
    configs
}

} // verus!
