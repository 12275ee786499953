use udp_forwarder::address::{IpAddress, SocketAddress};
use udp_forwarder::config::{create_config, create_listeners, ListenerConfig};
use udp_forwarder::forwarder::{
    BindError, BindFailure, Forwarder, SocketFailure, SocketFatalError,
};
use udp_forwarder::supervisor::{
    plan, validate, ConfigError, Exit, FatalError, RunState, Supervisor, UpstreamArgument,
};

fn target() -> IpAddress {
    IpAddress::from_octets(192, 0, 2, 1)
}

fn config_on(local_port: u16, admin_port: u16) -> ListenerConfig {
    create_config("instance", target(), local_port, admin_port)
}

fn launched(configs: Vec<ListenerConfig>) -> Supervisor {
    match Supervisor::launch(configs) {
        Ok(supervisor) => supervisor,
        Err(error) => panic!("refused: {:?}", error),
    }
}

fn socket_error(local_port: u16) -> FatalError {
    FatalError::Socket(SocketFatalError { local_port, cause: SocketFailure::Closed })
}

#[test]
fn plan_without_an_argument_is_refused() {
    assert_eq!(plan(UpstreamArgument::Missing), Err(ConfigError::MissingUpstream));
}

#[test]
fn plan_with_an_unparseable_argument_is_refused() {
    assert_eq!(plan(UpstreamArgument::Unparseable), Err(ConfigError::InvalidUpstream));
}

#[test]
fn plan_with_an_address_gives_the_fixed_topology() {
    assert_eq!(plan(UpstreamArgument::Address(target())), Ok(create_listeners(target())));
    let v6 = IpAddress::V6(1);
    match plan(UpstreamArgument::Address(v6)) {
        Ok(configs) => {
            assert_eq!(configs.len(), 3);
            assert_eq!(configs[2].upstream_endpoint, SocketAddress::new(v6, 7777));
        },
        Err(error) => panic!("refused: {:?}", error),
    }
}

#[test]
fn validate_accepts_distinct_ports() {
    assert_eq!(validate(&create_listeners(target())), Ok(()));
    assert_eq!(validate(&vec![config_on(1, 2), config_on(3, 4), config_on(5, 6), config_on(7, 8)]), Ok(()));
}

#[test]
fn validate_accepts_none_and_one() {
    assert_eq!(validate(&vec![]), Ok(()));
    assert_eq!(validate(&vec![config_on(7777, 7777)]), Ok(()));
}

#[test]
fn validate_accepts_a_local_port_that_is_another_admin_port() {
    assert_eq!(validate(&vec![config_on(9001, 9002), config_on(9002, 9001)]), Ok(()));
}

#[test]
fn validate_refuses_a_shared_local_port() {
    let configs = vec![config_on(7777, 9001), config_on(15000, 9002), config_on(7777, 9003)];
    assert_eq!(validate(&configs), Err(ConfigError::LocalPortConflict { first: 0, second: 2 }));
}

#[test]
fn validate_refuses_a_shared_admin_port() {
    let configs = vec![config_on(15777, 9001), config_on(15000, 9002), config_on(7777, 9002)];
    assert_eq!(validate(&configs), Err(ConfigError::AdminPortConflict { first: 1, second: 2 }));
}

#[test]
fn validate_names_a_pair_that_shares_both_ports_by_its_local_port() {
    let configs = vec![config_on(7777, 9003), config_on(7777, 9003)];
    assert_eq!(validate(&configs), Err(ConfigError::LocalPortConflict { first: 0, second: 1 }));
}

#[test]
fn validate_reports_the_first_conflict() {
    // (0, 3) shares an admin port; (1, 2) shares a local port. (0, 3) comes first.
    let configs = vec![config_on(1, 100), config_on(2, 200), config_on(2, 300), config_on(4, 100)];
    assert_eq!(validate(&configs), Err(ConfigError::AdminPortConflict { first: 0, second: 3 }));
    // (0, 2) and (0, 1) both conflict; (0, 1) comes first.
    let configs = vec![config_on(1, 100), config_on(9, 100), config_on(1, 300)];
    assert_eq!(validate(&configs), Err(ConfigError::AdminPortConflict { first: 0, second: 1 }));
}

#[test]
fn launch_with_distinct_ports_starts_every_forwarder() {
    let supervisor = launched(create_listeners(target()));
    assert_eq!(supervisor.state(), RunState::Running);
    assert_eq!(supervisor.configs(), &create_listeners(target()));
    for config in supervisor.configs() {
        let local_port = config.local_port;
        match Forwarder::start(config.duplicate(), Ok(())) {
            Ok(forwarder) => {
                assert_eq!(forwarder.config().local_port, local_port);
                assert_eq!(forwarder.session_count(), 0);
            },
            Err(error) => panic!("did not start: {:?}", error),
        }
    }
    assert_eq!(supervisor.state(), RunState::Running);
}

#[test]
fn launch_with_a_shared_local_port_fails_fast() {
    let configs = vec![config_on(7777, 9001), config_on(7777, 9002)];
    match Supervisor::launch(configs) {
        Ok(_) => panic!("a run began on one port twice"),
        Err(error) => assert_eq!(error, ConfigError::LocalPortConflict { first: 0, second: 1 }),
    }
}

#[test]
fn launch_with_a_shared_admin_port_fails_fast() {
    let configs = vec![config_on(7777, 9001), config_on(7778, 9001)];
    match Supervisor::launch(configs) {
        Ok(_) => panic!("a run began on one admin port twice"),
        Err(error) => assert_eq!(error, ConfigError::AdminPortConflict { first: 0, second: 1 }),
    }
}

#[test]
fn launch_of_nothing_has_nothing_left_to_run() {
    let supervisor = launched(vec![]);
    assert_eq!(supervisor.state(), RunState::Stopped);
}

#[test]
fn a_bind_failure_fails_the_run() {
    let mut supervisor = launched(create_listeners(target()));
    let config = supervisor.configs()[1].duplicate();
    let error = match Forwarder::start(config, Err(BindFailure::AddressInUse)) {
        Ok(_) => panic!("started without its port"),
        Err(error) => error,
    };
    assert_eq!(error, BindError { local_port: 15000, cause: BindFailure::AddressInUse });
    let state = supervisor.report(1, Exit::Failed(FatalError::Bind(error)));
    assert_eq!(state, RunState::Failed(FatalError::Bind(error)));
    assert_eq!(supervisor.state(), state);
}

#[test]
fn the_first_fatal_error_is_the_one_reported() {
    let mut supervisor = launched(create_listeners(target()));
    assert_eq!(supervisor.report(2, Exit::Failed(socket_error(7777))), RunState::Failed(socket_error(7777)));
    assert_eq!(supervisor.report(0, Exit::Failed(socket_error(15777))), RunState::Failed(socket_error(7777)));
    assert_eq!(supervisor.report(1, Exit::Cancelled), RunState::Failed(socket_error(7777)));
    assert_eq!(supervisor.state(), RunState::Failed(socket_error(7777)));
}

#[test]
fn the_run_goes_on_while_a_forwarder_is_left() {
    let mut supervisor = launched(create_listeners(target()));
    assert_eq!(supervisor.report(0, Exit::Cancelled), RunState::Running);
    assert_eq!(supervisor.report(2, Exit::Cancelled), RunState::Running);
    assert_eq!(supervisor.report(1, Exit::Cancelled), RunState::Stopped);
    assert_eq!(supervisor.state(), RunState::Stopped);
}

#[test]
fn an_error_after_clean_exits_still_fails_the_run() {
    let mut supervisor = launched(create_listeners(target()));
    assert_eq!(supervisor.report(0, Exit::Cancelled), RunState::Running);
    assert_eq!(supervisor.report(1, Exit::Failed(socket_error(15000))), RunState::Failed(socket_error(15000)));
}

#[test]
fn a_report_for_no_forwarder_changes_nothing() {
    let mut supervisor = launched(create_listeners(target()));
    assert_eq!(supervisor.report(3, Exit::Failed(socket_error(1))), RunState::Running);
    assert_eq!(supervisor.report(usize::MAX, Exit::Cancelled), RunState::Running);
    assert_eq!(supervisor.state(), RunState::Running);
}

#[test]
fn a_second_report_of_one_forwarder_changes_nothing() {
    let mut supervisor = launched(create_listeners(target()));
    assert_eq!(supervisor.report(0, Exit::Cancelled), RunState::Running);
    assert_eq!(supervisor.report(0, Exit::Failed(socket_error(15777))), RunState::Running);
    assert_eq!(supervisor.report(1, Exit::Cancelled), RunState::Running);
    assert_eq!(supervisor.report(1, Exit::Cancelled), RunState::Running);
    assert_eq!(supervisor.report(2, Exit::Cancelled), RunState::Stopped);
}
