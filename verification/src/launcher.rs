//! The launcher: one driver process on a port of its own, and a bounded
//! number of attempts to connect to it.
//!
//! The launcher spawns nothing and connects to nothing. It says what is to
//! be done next and takes note of how that went.

use crate::entropy::sample_range;
use crate::error::DriverError;
use crate::platform::Platform;
use crate::text::{decimal, push_decimal};
use vstd::prelude::*;
use vstd::string::*;

verus! {

/// Largest number of connection attempts in one launch.
pub const MAX_ATTEMPTS: u32 = 20;

/// Pause after a failed connection attempt, in milliseconds. It does not grow.
pub const BACKOFF_MILLIS: u64 = 250;

/// Lowest port that a launch may choose.
pub const PORT_MIN: u16 = 2000;

/// First port above those that a launch may choose.
pub const PORT_END: u16 = 5000;

/// How far a launch has come.
#[derive(Clone, Copy, Debug, PartialEq, Eq, Structural)]
pub enum LaunchState {
    /// No process has been spawned.
    NotStarted,
    /// The process runs; no connection attempt has begun.
    ProcessSpawned,
    /// Connection attempt number `attempt` has begun, counting from 1.
    Connecting { attempt: u32 },
    /// A connection attempt succeeded. Final.
    Connected,
    /// Every attempt failed. Final.
    Exhausted,
}

/// What happened outside since the last action was handed out.
#[derive(Clone, Copy, Debug, PartialEq, Eq, Structural)]
pub enum LaunchEvent {
    /// The driver process was spawned.
    Spawned,
    /// The connection attempt under way failed.
    ConnectFailed,
    /// The connection attempt under way succeeded.
    ConnectSucceeded,
}

/// What is to be done next.
#[derive(Clone, Copy, Debug, PartialEq, Eq, Structural)]
pub enum LaunchAction {
    /// Spawn the driver process, without waiting for it to be ready.
    Spawn,
    /// Make connection attempt number `attempt`.
    Connect { attempt: u32 },
    /// The session is established: hand it to the caller.
    Finish,
    /// Give the launch up with `error`.
    GiveUp { error: DriverError },
}

/// The state after asking what to do next in `state`, and the answer.
/// Only the process once spawned is connected to; it is never spawned again.
pub open spec fn advanced(state: LaunchState) -> (LaunchState, LaunchAction) {
    match state {
        LaunchState::NotStarted => (LaunchState::NotStarted, LaunchAction::Spawn),
        LaunchState::ProcessSpawned => (
            LaunchState::Connecting { attempt: 1 },
            LaunchAction::Connect { attempt: 1 },
        ),
        LaunchState::Connecting { attempt } => if attempt < MAX_ATTEMPTS {
            (
                LaunchState::Connecting { attempt: (attempt + 1) as u32 },
                LaunchAction::Connect { attempt: (attempt + 1) as u32 },
            )
        } else {
            (LaunchState::Exhausted, LaunchAction::GiveUp { error: DriverError::LaunchTimeout })
        },
        LaunchState::Connected => (LaunchState::Connected, LaunchAction::Finish),
        LaunchState::Exhausted => (
            LaunchState::Exhausted,
            LaunchAction::GiveUp { error: DriverError::LaunchTimeout },
        ),
    }
}

/// The state after `event` was noted in `state`. An event that does not
/// belong to the state changes nothing.
pub open spec fn recorded(state: LaunchState, event: LaunchEvent) -> LaunchState {
    match (state, event) {
        (LaunchState::NotStarted, LaunchEvent::Spawned) => LaunchState::ProcessSpawned,
        (LaunchState::Connecting { .. }, LaunchEvent::ConnectSucceeded) => LaunchState::Connected,
        _ => state,
    }
}

/// The pause to make after `event` was noted in `state`, in milliseconds:
/// the backoff after a failed attempt, none otherwise.
pub open spec fn pause_after(state: LaunchState, event: LaunchEvent) -> u64 {
    match (state, event) {
        (LaunchState::Connecting { .. }, LaunchEvent::ConnectFailed) => BACKOFF_MILLIS,
        _ => 0,
    }
}

/// A state that a launch can be in: attempts are counted from 1 to
/// `MAX_ATTEMPTS`.
pub open spec fn valid_state(state: LaunchState) -> bool {
    state matches LaunchState::Connecting { attempt } ==> 1 <= attempt <= MAX_ATTEMPTS
}

/// The state reached from `state` when, `rounds` times over, the next action
/// is asked for and a failed connection is reported back.
pub open spec fn after_failed_rounds(state: LaunchState, rounds: nat) -> LaunchState
    decreases rounds,
{
    if rounds == 0 {
        state
    } else {
        recorded(
            advanced(after_failed_rounds(state, (rounds - 1) as nat)).0,
            LaunchEvent::ConnectFailed,
        )
    }
}

/// Both steps keep a valid state valid, and an attempt asked for in a valid
/// state has a number from 1 to `MAX_ATTEMPTS`: whatever is reported, no
/// launch makes more attempts than that.
pub proof fn lemma_steps_keep_valid(state: LaunchState, event: LaunchEvent)
    requires
        valid_state(state),
    ensures
        valid_state(advanced(state).0),
        valid_state(recorded(state, event)),
        advanced(state).1 matches LaunchAction::Connect { attempt } ==> 1 <= attempt
            <= MAX_ATTEMPTS && advanced(state).0 == (LaunchState::Connecting { attempt }),
{
}

/// Where every connection fails, round `n` of a launch makes
/// attempt number `n`, for `n` from 1 to `MAX_ATTEMPTS`, and leaves the
/// launcher connecting with that count.
pub proof fn lemma_failed_round(n: nat)
    requires
        1 <= n <= MAX_ATTEMPTS,
    ensures
        advanced(after_failed_rounds(LaunchState::ProcessSpawned, (n - 1) as nat)).1
            == (LaunchAction::Connect { attempt: n as u32 }),
        after_failed_rounds(LaunchState::ProcessSpawned, n) == (LaunchState::Connecting {
            attempt: n as u32,
        }),
        pause_after(
            advanced(after_failed_rounds(LaunchState::ProcessSpawned, (n - 1) as nat)).0,
            LaunchEvent::ConnectFailed,
        ) == BACKOFF_MILLIS,
    decreases n,
{
    if n > 1 {
        lemma_failed_round((n - 1) as nat);
    }
}

/// After `MAX_ATTEMPTS` failed attempts no further one is made.
/// The launch is given up with `LaunchTimeout`, and stays so.
pub proof fn lemma_retry_bound()
    ensures
        advanced(after_failed_rounds(LaunchState::ProcessSpawned, MAX_ATTEMPTS as nat)) == (
            LaunchState::Exhausted,
            LaunchAction::GiveUp { error: DriverError::LaunchTimeout },
        ),
        forall|event: LaunchEvent| recorded(LaunchState::Exhausted, event) == LaunchState::Exhausted,
        advanced(LaunchState::Exhausted) == (
            LaunchState::Exhausted,
            LaunchAction::GiveUp { error: DriverError::LaunchTimeout },
        ),
{
    lemma_failed_round(MAX_ATTEMPTS as nat);
}

/// The process is spawned once, and before any connection attempt: only a
/// launch that has not started is told to spawn, it is told nothing else,
/// and no step leads back to that state.
pub proof fn lemma_spawn_comes_first_and_once(state: LaunchState, event: LaunchEvent)
    ensures
        advanced(LaunchState::NotStarted).1 == LaunchAction::Spawn,
        state != LaunchState::NotStarted ==> advanced(state).1 != LaunchAction::Spawn,
        state != LaunchState::NotStarted ==> advanced(state).0 != LaunchState::NotStarted
            && recorded(state, event) != LaunchState::NotStarted,
{
}

/// A success ends the launch at once: the next action is to finish, whatever
/// the number of the attempt, and no later event changes that.
pub proof fn lemma_success_is_final(attempt: u32)
    ensures
        advanced(recorded(LaunchState::Connecting { attempt }, LaunchEvent::ConnectSucceeded)) == (
            LaunchState::Connected,
            LaunchAction::Finish,
        ),
        forall|event: LaunchEvent| recorded(LaunchState::Connected, event) == LaunchState::Connected,
{
}

/// One launch of the driver: the platform it runs on, the port chosen for
/// it and how far it has come.
pub struct Launcher {
    platform: Platform,
    port: u16,
    state: LaunchState,
}

impl Launcher {
    #[verifier::type_invariant]
    spec fn well_formed(self) -> bool {
        valid_state(self.state)
    }

    /// The platform of this launch.
    pub closed spec fn spec_platform(self) -> Platform {
        self.platform
    }

    /// The port of this launch.
    pub closed spec fn spec_port(self) -> u16 {
        self.port
    }

    /// How far this launch has come.
    pub closed spec fn spec_state(self) -> LaunchState {
        self.state
    }

    /// A launch on a port chosen at random from `PORT_MIN` up to, not
    /// including, `PORT_END`. Whether the port is free is not looked at: a
    /// port in use shows as failed connections.
    pub fn new(platform: Platform) -> (launcher: Launcher)
        ensures
            launcher.spec_platform() == platform,
            PORT_MIN <= launcher.spec_port() < PORT_END,
            launcher.spec_state() == LaunchState::NotStarted,
    {
        let mut rng = rand::thread_rng();
        let drawn: usize = sample_range(&mut rng, PORT_MIN as usize, PORT_END as usize);
        Launcher::with_port(platform, drawn as u16)
    }

    /// A launch on the given port.
    pub fn with_port(platform: Platform, port: u16) -> (launcher: Launcher)
        ensures
            launcher.spec_platform() == platform,
            launcher.spec_port() == port,
            launcher.spec_state() == LaunchState::NotStarted,
    {
        Launcher { platform, port, state: LaunchState::NotStarted }
    }

    /// The platform of this launch.
    pub fn platform(&self) -> (platform: Platform)
        ensures
            platform == self.spec_platform(),
    {
        self.platform
    }

    /// The port of this launch.
    pub fn port(&self) -> (port: u16)
        ensures
            port == self.spec_port(),
    {
        self.port
    }

    /// How far this launch has come. An attempt under way has a number from
    /// 1 to `MAX_ATTEMPTS`.
    pub fn state(&self) -> (state: LaunchState)
        ensures
            state == self.spec_state(),
            valid_state(state),
    {
        proof {
            use_type_invariant(self);
        }
        self.state
    }

    /// Says what is to be done next, and counts a connection attempt as
    /// begun where that is the answer.
    pub fn advance(&mut self) -> (action: LaunchAction)
        ensures
            (final(self).spec_state(), action) == advanced(old(self).spec_state()),
            final(self).spec_port() == old(self).spec_port(),
            final(self).spec_platform() == old(self).spec_platform(),
    {
        match self.state {
            LaunchState::NotStarted => LaunchAction::Spawn,
            LaunchState::ProcessSpawned => {
                self.state = LaunchState::Connecting { attempt: 1 };
                LaunchAction::Connect { attempt: 1 }
            },
            LaunchState::Connecting { attempt } => {
                if attempt < MAX_ATTEMPTS {
                    self.state = LaunchState::Connecting { attempt: attempt + 1 };
                    LaunchAction::Connect { attempt: attempt + 1 }
                } else {
                    self.state = LaunchState::Exhausted;
                    LaunchAction::GiveUp { error: DriverError::LaunchTimeout }
                }
            },
            LaunchState::Connected => LaunchAction::Finish,
            LaunchState::Exhausted => LaunchAction::GiveUp { error: DriverError::LaunchTimeout },
        }
    }

    /// Takes note of `event` and returns the pause to make before asking for
    /// the next action, in milliseconds.
    pub fn record(&mut self, event: LaunchEvent) -> (pause: u64)
        ensures
            final(self).spec_state() == recorded(old(self).spec_state(), event),
            final(self).spec_port() == old(self).spec_port(),
            final(self).spec_platform() == old(self).spec_platform(),
            pause == pause_after(old(self).spec_state(), event),
    {
        match (self.state, event) {
            (LaunchState::NotStarted, LaunchEvent::Spawned) => {
                self.state = LaunchState::ProcessSpawned;
                0
            },
            (LaunchState::Connecting { .. }, LaunchEvent::ConnectSucceeded) => {
                self.state = LaunchState::Connected;
                0
            },
            (LaunchState::Connecting { .. }, LaunchEvent::ConnectFailed) => BACKOFF_MILLIS,
            _ => 0,
        }
    }

    /// The program to spawn: the patched executable, in the current directory.
    pub fn program(&self) -> (path: String)
        ensures
            path@ == "./"@ + self.spec_platform().spec_patched_name(),
    {
        let mut path = String::from_str("./");
        path.append(self.platform.patched_name());
        path
    }

    /// The one argument that the program is spawned with: it names the port.
    pub fn port_argument(&self) -> (argument: String)
        ensures
            argument@ == "--port="@ + decimal(self.spec_port() as nat),
    {
        let mut argument = String::from_str("--port=");
        push_decimal(&mut argument, self.port as u64);
        argument
    }

    /// The address at which the spawned process is connected to.
    pub fn server_url(&self) -> (url: String)
        ensures
            url@ == "http://localhost:"@ + decimal(self.spec_port() as nat),
    {
        let mut url = String::from_str("http://localhost:");
        push_decimal(&mut url, self.port as u64);
        url
    }
}

} // verus!
