use svcmgr::config::{Config, Error, ParseOutcome, Registry, Service, ServiceType, Unit};
use svcmgr::server::{server_init, stop_signal_reply, Server};
use svcmgr::singleton::{Lease, LeaseTable};

fn unit(name: &str, style: ServiceType) -> Config {
    Config {
        unit: Unit {
            name: name.to_string(),
            description: None,
            other: Vec::new(),
        },
        service: Service {
            style,
            path: format!("/usr/bin/{}", name),
            args: None,
            env: None,
            stdout_path: None,
            stderr_path: None,
            other: Vec::new(),
        },
        other: Vec::new(),
    }
}

#[test]
fn boot_load_failure_keeps_the_old_snapshot() {
    let mut reg = Registry::new();
    assert!(server_init(
        &mut reg,
        vec![ParseOutcome::Parsed(unit("web", ServiceType::Startup))]
    ));
    assert!(!server_init(
        &mut reg,
        vec![ParseOutcome::Malformed(Error::Io("unreadable".to_string()))]
    ));
    // boot proceeds over the standing snapshot
    assert!(reg.get("web").is_some());
    assert!(reg.startup_at(0).is_some());
}

#[test]
fn run_twice_keeps_one_worker() {
    let mut srv = Server::new();
    assert!(srv.run(1));
    assert!(srv.is_running());
    // second run is a no-op: the worker count stays one
    assert!(!srv.run(2));
    assert!(srv.is_running());
    let joined = srv.stop();
    assert_eq!(joined, Some(1));
}

#[test]
fn stop_when_not_running_is_a_no_op() {
    let mut srv = Server::new();
    assert_eq!(srv.stop(), None);
    // a true no-op: nothing joined and nothing changed —
    // the server is still free to serve
    assert!(!srv.is_running());
    assert!(srv.should_serve());
    assert!(srv.run(1));
    assert!(srv.should_serve());
}

#[test]
fn a_stopped_server_can_serve_again() {
    let mut srv = Server::new();
    assert!(srv.run(1));
    assert_eq!(srv.stop(), Some(1));
    assert!(!srv.should_serve());
    // the next run installs a fresh worker and clears the request
    assert!(srv.run(2));
    assert!(srv.should_serve());
    assert_eq!(srv.stop(), Some(2));
}

#[test]
fn stop_quiesces_the_loop() {
    let mut srv = Server::new();
    srv.run(1);
    assert!(srv.should_serve());
    let joined = srv.stop();
    // the caller joins this worker before returning ...
    assert_eq!(joined, Some(1));
    // ... and afterwards no further exchange is served
    assert!(!srv.should_serve());
    assert!(!srv.is_running());
}

#[test]
fn stop_signal_gate() {
    let (is_stop, reply) = stop_signal_reply(b"stop");
    assert!(is_stop);
    assert_eq!(reply, b"Service stopped".to_vec());

    let (is_stop, reply) = stop_signal_reply(b"halt");
    assert!(!is_stop);
    assert_eq!(reply, b"Unknown command".to_vec());

    let (is_stop, _) = stop_signal_reply(b"stop ");
    assert!(!is_stop);
}

#[test]
fn exactly_one_acquirer_owns_the_lease() {
    let mut table = LeaseTable::new();
    let first: Lease = table.acquire("global-svcmgr");
    let second: Lease = table.acquire("global-svcmgr");
    // two racing acquisitions of one identifier: exactly one owner
    assert!(first.is_holding());
    assert!(!second.is_holding());
    // an unrelated identifier is its own race
    let other = table.acquire("another-id");
    assert!(other.is_holding());
}

#[test]
fn owning_release_frees_the_identifier() {
    let mut table = LeaseTable::new();
    let first = table.acquire("id");
    let second = table.acquire("id");
    // a non-owning release never frees the holder's lease
    table.release(second);
    let third = table.acquire("id");
    assert!(!third.is_holding());
    // the owning release does
    table.release(first);
    table.release(third);
    let fourth = table.acquire("id");
    assert!(fourth.is_holding());
}
