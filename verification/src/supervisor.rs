//! The supervisor: it checks the listener configurations before any forwarder
//! starts, and turns what the forwarders report into the outcome of the run.

use crate::address::IpAddress;
use crate::config::{config_views, create_listeners, fixed_listeners, ListenerConfig, ListenerConfigView};
use crate::forwarder::{BindError, SocketFatalError};
use vstd::prelude::*;

verus! {

/// Why a run cannot begin.
#[derive(Clone, Copy, Debug, PartialEq, Eq, Structural)]
pub enum ConfigError {
    /// No upstream address was given.
    MissingUpstream,
    /// The upstream address that was given is no IP address.
    InvalidUpstream,
    /// The configurations at these two places share their local port.
    LocalPortConflict { first: usize, second: usize },
    /// The configurations at these two places share their admin port, and not
    /// their local port.
    AdminPortConflict { first: usize, second: usize },
}

/// What became of the one argument that names the upstream address.
#[derive(Clone, Copy, Debug, PartialEq, Eq, Structural)]
pub enum UpstreamArgument {
    /// The argument was absent.
    Missing,
    /// The argument was there, and its text is no IP address.
    Unparseable,
    /// The argument was this address.
    Address(IpAddress),
}

/// The listeners that a run with `argument` consists of.
pub open spec fn planned(argument: UpstreamArgument) -> Result<Seq<ListenerConfigView>, ConfigError> {
    match argument {
        UpstreamArgument::Missing => Err(ConfigError::MissingUpstream),
        UpstreamArgument::Unparseable => Err(ConfigError::InvalidUpstream),
        UpstreamArgument::Address(forward_ip) => Ok(fixed_listeners(forward_ip)),
    }
}

/// The configurations of the fixed topology for the upstream address that was
/// given, or the reason why there is none.
pub fn plan(argument: UpstreamArgument) -> (result: Result<Vec<ListenerConfig>, ConfigError>)
    ensures
        match result {
            Ok(configs) => planned(argument) == Ok::<Seq<ListenerConfigView>, ConfigError>(
                config_views(configs@),
            ),
            Err(error) => planned(argument) == Err::<Seq<ListenerConfigView>, ConfigError>(error),
        },
{
    match argument {
        UpstreamArgument::Missing => Err(ConfigError::MissingUpstream),
        UpstreamArgument::Unparseable => Err(ConfigError::InvalidUpstream),
        UpstreamArgument::Address(forward_ip) => Ok(create_listeners(forward_ip)),
    }
}

/// Two configurations cannot run in one process: they share a port.
pub open spec fn conflicting(a: ListenerConfigView, b: ListenerConfigView) -> bool {
    a.local_port == b.local_port || a.admin_port == b.admin_port
}

/// No two of the configurations share a local port or an admin port.
pub open spec fn ports_distinct(configs: Seq<ListenerConfigView>) -> bool {
    forall|i: int, j: int|
        0 <= i < j < configs.len() ==> !conflicting(#[trigger] configs[i], #[trigger] configs[j])
}

/// The configurations at `first` and `second` share a port, and no pair before
/// them does. Pairs are ordered by their first place, then by their second.
pub open spec fn is_first_conflict(configs: Seq<ListenerConfigView>, first: int, second: int) -> bool {
    &&& 0 <= first < second < configs.len()
    &&& conflicting(configs[first], configs[second])
    &&& forall|i: int, j: int|
        0 <= i < j < configs.len() && (i < first || (i == first && j < second)) ==> !conflicting(
            #[trigger] configs[i],
            #[trigger] configs[j],
        )
}

/// The first pair of configurations that share a port, if there is one.
pub open spec fn first_conflict(configs: Seq<ListenerConfigView>) -> (int, int) {
    choose|first: int, second: int| is_first_conflict(configs, first, second)
}

/// The verdict on a set of configurations: they are accepted if their ports are
/// distinct, and refused with their first conflict otherwise, as a conflict of
/// local ports where the two share their local port.
pub open spec fn validation(configs: Seq<ListenerConfigView>) -> Result<(), ConfigError> {
    if ports_distinct(configs) {
        Ok(())
    } else {
        let (first, second) = first_conflict(configs);
        if configs[first].local_port == configs[second].local_port {
            Err(ConfigError::LocalPortConflict { first: first as usize, second: second as usize })
        } else {
            Err(ConfigError::AdminPortConflict { first: first as usize, second: second as usize })
        }
    }
}

/// Where any two configurations share a port, there is a first pair that does.
pub proof fn lemma_conflict_has_first(configs: Seq<ListenerConfigView>, i: int, j: int)
    requires
        0 <= i < j < configs.len(),
        conflicting(configs[i], configs[j]),
    ensures
        !ports_distinct(configs),
        is_first_conflict(configs, first_conflict(configs).0, first_conflict(configs).1),
    decreases i, j,
{
    if exists|a: int, b: int|
        0 <= a < b < configs.len() && (a < i || (a == i && b < j)) && conflicting(
            #[trigger] configs[a],
            #[trigger] configs[b],
        ) {
        let (a, b) = choose|a: int, b: int|
            0 <= a < b < configs.len() && (a < i || (a == i && b < j)) && conflicting(
                #[trigger] configs[a],
                #[trigger] configs[b],
            );
        lemma_conflict_has_first(configs, a, b);
    } else {
        assert(is_first_conflict(configs, i, j));
    }
}

/// A pair that is a first conflict is the first conflict: there is one at most.
pub proof fn lemma_first_conflict_is_unique(configs: Seq<ListenerConfigView>, first: int, second: int)
    requires
        is_first_conflict(configs, first, second),
    ensures
        !ports_distinct(configs),
        first_conflict(configs) == (first, second),
{
    let (a, b) = first_conflict(configs);
    assert(is_first_conflict(configs, a, b));
    if a < first || (a == first && b < second) {
        assert(!conflicting(configs[a], configs[b]));
    }
    if first < a || (first == a && second < b) {
        assert(!conflicting(configs[first], configs[second]));
    }
}

/// Checks that no two configurations share a local port or an admin port.
pub fn validate(configs: &Vec<ListenerConfig>) -> (result: Result<(), ConfigError>)
    ensures
        result == validation(config_views(configs@)),
{
    let ghost views = config_views(configs@);
    let n = configs.len();
    let mut i: usize = 0;
    while i < n
        invariant
            0 <= i <= n,
            n == configs@.len(),
            views == config_views(configs@),
            forall|a: int, b: int|
                0 <= a < b < n && a < i ==> !conflicting(#[trigger] views[a], #[trigger] views[b]),
        decreases n - i,
    {
        let mut j: usize = i + 1;
        while j < n
            invariant
                i < j <= n,
                n == configs@.len(),
                views == config_views(configs@),
                forall|a: int, b: int|
                    0 <= a < b < n && a < i ==> !conflicting(#[trigger] views[a], #[trigger] views[b]),
                forall|b: int| i < b < j ==> !conflicting(views[i as int], #[trigger] views[b]),
            decreases n - j,
        {
            let shares_local = configs[i].local_port == configs[j].local_port;
            let shares_admin = configs[i].admin_port == configs[j].admin_port;
            if shares_local || shares_admin {
                proof {
                    assert(conflicting(views[i as int], views[j as int]));
                    lemma_first_conflict_is_unique(views, i as int, j as int);
                }
                if shares_local {
                    return Err(ConfigError::LocalPortConflict { first: i, second: j });
                } else {
                    return Err(ConfigError::AdminPortConflict { first: i, second: j });
                }
            }
            j += 1;
        }
        i += 1;
    }
    Ok(())
}

/// An error that ends a forwarder, and with it the run.
#[derive(Clone, Copy, Debug, PartialEq, Eq, Structural)]
pub enum FatalError {
    /// The forwarder could not start.
    Bind(BindError),
    /// The forwarder's listener socket became unusable.
    Socket(SocketFatalError),
}

/// How a forwarder ended.
#[derive(Clone, Copy, Debug, PartialEq, Eq, Structural)]
pub enum Exit {
    /// It was stopped from outside, and left cleanly.
    Cancelled,
    /// It ended with a fatal error.
    Failed(FatalError),
}

/// Where a run stands.
#[derive(Clone, Copy, Debug, PartialEq, Eq, Structural)]
pub enum RunState {
    /// No forwarder has failed, and at least one has not ended.
    Running,
    /// Every forwarder has ended, none of them with an error.
    Stopped,
    /// A forwarder has failed; this is the first error that was reported.
    Failed(FatalError),
}

/// The mathematical value of a [`Supervisor`].
pub struct SupervisorView {
    pub configs: Seq<ListenerConfigView>,
    /// For each configuration, whether its forwarder has not ended yet.
    pub active: Seq<bool>,
    /// The first fatal error that a forwarder reported.
    pub failure: Option<FatalError>,
}

/// The supervisor of a run that has just begun: every forwarder is taken to be
/// active, and none has failed.
pub open spec fn begun(configs: Seq<ListenerConfigView>) -> SupervisorView {
    SupervisorView { configs, active: Seq::new(configs.len(), |i: int| true), failure: None }
}

/// What launching a run with `configs` gives.
pub open spec fn launched(configs: Seq<ListenerConfigView>) -> Result<SupervisorView, ConfigError> {
    match validation(configs) {
        Ok(_) => Ok(begun(configs)),
        Err(error) => Err(error),
    }
}

/// The supervisor after the forwarder at `index` reported how it ended.
///
/// The forwarder is no longer active. Its error becomes the failure of the run
/// unless an earlier one is already recorded. A report for a place that has no
/// active forwarder changes nothing.
pub open spec fn reported(state: SupervisorView, index: int, exit: Exit) -> SupervisorView {
    if 0 <= index < state.active.len() && state.active[index] {
        SupervisorView {
            active: state.active.update(index, false),
            failure: match (state.failure, exit) {
                (None, Exit::Failed(error)) => Some(error),
                _ => state.failure,
            },
            ..state
        }
    } else {
        state
    }
}

/// Where the run of `state` stands.
pub open spec fn run_state(state: SupervisorView) -> RunState {
    match state.failure {
        Some(error) => RunState::Failed(error),
        None => if exists|i: int| 0 <= i < state.active.len() && #[trigger] state.active[i] {
            RunState::Running
        } else {
            RunState::Stopped
        },
    }
}

/// The forwarders of one process, run as a unit.
#[derive(Debug)]
pub struct Supervisor {
    configs: Vec<ListenerConfig>,
    active: Vec<bool>,
    failure: Option<FatalError>,
}

impl View for Supervisor {
    type V = SupervisorView;

    closed spec fn view(&self) -> SupervisorView {
        SupervisorView { configs: config_views(self.configs@), active: self.active@, failure: self.failure }
    }
}

impl Supervisor {
    /// Begins a run of one forwarder for each configuration. The configurations
    /// are checked first: where two of them share a port the run is refused, and
    /// no supervisor exists that could start a forwarder.
    pub fn launch(configs: Vec<ListenerConfig>) -> (result: Result<Supervisor, ConfigError>)
        ensures
            match result {
                Ok(supervisor) => launched(config_views(configs@)) == Ok::<SupervisorView, ConfigError>(
                    supervisor@,
                ),
                Err(error) => launched(config_views(configs@)) == Err::<SupervisorView, ConfigError>(
                    error,
                ),
            },
    {
        match validate(&configs) {
            Ok(_) => {
                let mut active: Vec<bool> = Vec::new();
                let mut i: usize = 0;
                while i < configs.len()
                    invariant
                        0 <= i <= configs@.len(),
                        active@.len() == i,
                        forall|k: int| 0 <= k < i ==> #[trigger] active@[k],
                    decreases configs@.len() - i,
                {
                    active.push(true);
                    i += 1;
                }
                assert(active@ =~= Seq::new(configs@.len(), |i: int| true));
                Ok(Supervisor { configs, active, failure: None })
            },
            Err(error) => Err(error),
        }
    }

    /// The configurations of the run, in the order in which they were given.
    pub fn configs(&self) -> (configs: &Vec<ListenerConfig>)
        ensures
            config_views(configs@) == self@.configs,
    {
        &self.configs
    }

    /// Where the run stands.
    pub fn state(&self) -> (state: RunState)
        ensures
            state == run_state(self@),
    {
        match self.failure {
            Some(error) => RunState::Failed(error),
            None => {
                let mut i: usize = 0;
                while i < self.active.len()
                    invariant
                        0 <= i <= self.active@.len(),
                        self.failure is None,
                        forall|k: int| 0 <= k < i ==> !#[trigger] self.active@[k],
                    decreases self.active@.len() - i,
                {
                    if self.active[i] {
                        assert(self@.active[i as int]);
                        return RunState::Running;
                    }
                    i += 1;
                }
                RunState::Stopped
            },
        }
    }

    /// Records how the forwarder at `index` ended, and says where the run
    /// stands after that.
    pub fn report(&mut self, index: usize, exit: Exit) -> (state: RunState)
        ensures
            final(self)@ == reported(old(self)@, index as int, exit),
            state == run_state(final(self)@),
    {
        if index < self.active.len() && self.active[index] {
            self.active.set(index, false);
            match (self.failure, exit) {
                (None, Exit::Failed(error)) => {
                    self.failure = Some(error);
                },
                _ => {},
            }
        }
        self.state()
    }
}

} // verus!
