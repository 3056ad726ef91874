use undetected_chromedriver::error::DriverError;
use undetected_chromedriver::launcher::{
    LaunchAction, LaunchEvent, LaunchState, Launcher, BACKOFF_MILLIS, MAX_ATTEMPTS, PORT_END,
    PORT_MIN,
};
use undetected_chromedriver::platform::Platform;

/// Runs a launch against a connection that fails until attempt `succeed_at`
/// (never, if that is 0). Returns the attempts made, the total pause and the
/// last action.
fn run(launcher: &mut Launcher, succeed_at: u32) -> (Vec<u32>, u64, LaunchAction) {
    let mut attempts = Vec::new();
    let mut spawns = 0;
    let mut paused = 0u64;
    for _ in 0..1000 {
        match launcher.advance() {
            LaunchAction::Spawn => {
                spawns += 1;
                assert_eq!(launcher.record(LaunchEvent::Spawned), 0);
            }
            LaunchAction::Connect { attempt } => {
                attempts.push(attempt);
                assert_eq!(launcher.state(), LaunchState::Connecting { attempt });
                if attempt == succeed_at {
                    assert_eq!(launcher.record(LaunchEvent::ConnectSucceeded), 0);
                } else {
                    paused += launcher.record(LaunchEvent::ConnectFailed);
                }
            }
            last => {
                assert_eq!(spawns, 1);
                return (attempts, paused, last);
            }
        }
    }
    panic!("the launch did not end");
}

#[test]
fn constants_of_the_protocol() {
    assert_eq!(MAX_ATTEMPTS, 20);
    assert_eq!(BACKOFF_MILLIS, 250);
    assert_eq!(PORT_MIN, 2000);
    assert_eq!(PORT_END, 5000);
}

#[test]
fn a_connection_that_always_fails_is_tried_twenty_times() {
    let mut launcher = Launcher::with_port(Platform::Linux, 2345);
    let (attempts, paused, last) = run(&mut launcher, 0);
    assert_eq!(attempts, (1..=20).collect::<Vec<u32>>());
    assert_eq!(attempts.len() as u32, MAX_ATTEMPTS);
    assert_eq!(paused, 20 * 250);
    assert_eq!(last, LaunchAction::GiveUp { error: DriverError::LaunchTimeout });
    assert_eq!(launcher.state(), LaunchState::Exhausted);
    assert_eq!(
        launcher.advance(),
        LaunchAction::GiveUp { error: DriverError::LaunchTimeout }
    );
    assert_eq!(launcher.record(LaunchEvent::ConnectSucceeded), 0);
    assert_eq!(launcher.state(), LaunchState::Exhausted);
}

#[test]
fn a_first_success_ends_the_launch() {
    let mut launcher = Launcher::with_port(Platform::Linux, 2000);
    let (attempts, paused, last) = run(&mut launcher, 1);
    assert_eq!(attempts, vec![1]);
    assert_eq!(paused, 0);
    assert_eq!(last, LaunchAction::Finish);
    assert_eq!(launcher.state(), LaunchState::Connected);
}

#[test]
fn a_success_at_any_attempt_ends_the_launch() {
    for succeed_at in 1..=20u32 {
        let mut launcher = Launcher::with_port(Platform::Windows, 4999);
        let (attempts, paused, last) = run(&mut launcher, succeed_at);
        assert_eq!(attempts, (1..=succeed_at).collect::<Vec<u32>>());
        assert_eq!(paused, (succeed_at as u64 - 1) * 250);
        assert_eq!(last, LaunchAction::Finish);
        assert_eq!(launcher.state(), LaunchState::Connected);
        assert_eq!(launcher.record(LaunchEvent::ConnectFailed), 0);
        assert_eq!(launcher.state(), LaunchState::Connected);
        assert_eq!(launcher.advance(), LaunchAction::Finish);
    }
}

#[test]
fn states_in_order() {
    let mut launcher = Launcher::with_port(Platform::MacOs, 3000);
    assert_eq!(launcher.state(), LaunchState::NotStarted);
    assert_eq!(launcher.advance(), LaunchAction::Spawn);
    assert_eq!(launcher.state(), LaunchState::NotStarted);
    assert_eq!(launcher.advance(), LaunchAction::Spawn);
    assert_eq!(launcher.record(LaunchEvent::Spawned), 0);
    assert_eq!(launcher.state(), LaunchState::ProcessSpawned);
    assert_eq!(launcher.advance(), LaunchAction::Connect { attempt: 1 });
    assert_eq!(launcher.state(), LaunchState::Connecting { attempt: 1 });
    assert_eq!(launcher.record(LaunchEvent::ConnectFailed), 250);
    assert_eq!(launcher.state(), LaunchState::Connecting { attempt: 1 });
    assert_eq!(launcher.advance(), LaunchAction::Connect { attempt: 2 });
    assert_eq!(launcher.record(LaunchEvent::ConnectSucceeded), 0);
    assert_eq!(launcher.state(), LaunchState::Connected);
}

#[test]
fn events_that_do_not_belong_change_nothing() {
    let mut launcher = Launcher::with_port(Platform::Linux, 3000);
    assert_eq!(launcher.record(LaunchEvent::ConnectFailed), 0);
    assert_eq!(launcher.record(LaunchEvent::ConnectSucceeded), 0);
    assert_eq!(launcher.state(), LaunchState::NotStarted);
    assert_eq!(launcher.record(LaunchEvent::Spawned), 0);
    assert_eq!(launcher.record(LaunchEvent::Spawned), 0);
    assert_eq!(launcher.record(LaunchEvent::ConnectSucceeded), 0);
    assert_eq!(launcher.record(LaunchEvent::ConnectFailed), 0);
    assert_eq!(launcher.state(), LaunchState::ProcessSpawned);
    assert_eq!(launcher.advance(), LaunchAction::Connect { attempt: 1 });
    assert_eq!(launcher.record(LaunchEvent::Spawned), 0);
    assert_eq!(launcher.state(), LaunchState::Connecting { attempt: 1 });
}

#[test]
fn spawn_request_and_address() {
    let launcher = Launcher::with_port(Platform::Linux, 2000);
    assert_eq!(launcher.platform(), Platform::Linux);
    assert_eq!(launcher.port(), 2000);
    assert_eq!(launcher.program(), "./chromedriver_PATCHED");
    assert_eq!(launcher.port_argument(), "--port=2000");
    assert_eq!(launcher.server_url(), "http://localhost:2000");
    let launcher = Launcher::with_port(Platform::Windows, 4999);
    assert_eq!(launcher.program(), "./chromedriver_PATCHED.exe");
    assert_eq!(launcher.port_argument(), "--port=4999");
    assert_eq!(launcher.server_url(), "http://localhost:4999");
    let launcher = Launcher::with_port(Platform::MacOs, 80);
    assert_eq!(launcher.program(), "./chromedriver_PATCHED");
    assert_eq!(launcher.port_argument(), "--port=80");
    assert_eq!(launcher.server_url(), "http://localhost:80");
}

#[test]
fn random_ports_lie_in_the_range_and_vary() {
    let mut seen = std::collections::BTreeSet::new();
    for _ in 0..300 {
        let launcher = Launcher::new(Platform::Linux);
        assert!(launcher.port() >= 2000);
        assert!(launcher.port() < 5000);
        assert_eq!(launcher.state(), LaunchState::NotStarted);
        assert_eq!(launcher.platform(), Platform::Linux);
        seen.insert(launcher.port());
    }
    assert!(seen.len() > 1);
}
