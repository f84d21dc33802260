use svcmgr::config::{Service, ServiceType};
use svcmgr::process::{
    stderr_target, stdout_target, Error, KillOutcome, LaunchOutcome, LogTarget, PollOutcome,
    Supervisor,
};

#[test]
fn log_redirection_targets() {
    let service = Service {
        style: ServiceType::Simple,
        path: "/usr/bin/web".to_string(),
        args: None,
        env: None,
        stdout_path: Some("/var/log/web.out".to_string()),
        stderr_path: None,
        other: Vec::new(),
    };
    match stdout_target(&service, "web") {
        LogTarget::Configured(p) => assert_eq!(p, "/var/log/web.out"),
        LogTarget::DefaultLog(f) => panic!("expected the configured path, got default {}", f),
    }
    match stderr_target(&service, "web") {
        LogTarget::DefaultLog(f) => assert_eq!(f, "web-stderr.log"),
        LogTarget::Configured(p) => panic!("expected the default file, got {}", p),
    }
}

#[test]
fn spawn_twice_rejects_the_second() {
    let mut sup = Supervisor::new();
    assert!(sup.spawn("x", LaunchOutcome::Launched(1)).is_ok());
    // no stop in between: the name is taken, launched child or not
    let second = sup.spawn("x", LaunchOutcome::Launched(2));
    assert!(matches!(second, Err(Error::ProcessAlreadyRunning)));
    // the first handle still stands
    assert_eq!(sup.get("x").unwrap(), 1);
}

#[test]
fn spawn_then_check_succeeds() {
    let mut sup = Supervisor::new();
    sup.spawn("x", LaunchOutcome::Launched(7)).unwrap();
    assert!(sup.check("x", PollOutcome::StillRunning).is_ok());
}

#[test]
fn stop_then_check_fails_not_found() {
    let mut sup = Supervisor::new();
    sup.spawn("x", LaunchOutcome::Launched(7)).unwrap();
    assert_eq!(sup.stop("x").unwrap(), 7);
    assert!(matches!(
        sup.check("x", PollOutcome::StillRunning),
        Err(Error::ProcessNotFound)
    ));
    // and the name is free to spawn again
    assert!(sup.spawn("x", LaunchOutcome::Launched(8)).is_ok());
}

#[test]
fn check_reports_exit_code_and_keeps_the_entry() {
    let mut sup = Supervisor::new();
    sup.spawn("x", LaunchOutcome::Launched(7)).unwrap();
    // the process exited on its own with code 3 before any stop
    let r = sup.check("x", PollOutcome::Exited(3));
    assert!(matches!(r, Err(Error::ProcessExited(3))));
    // discovery does not evict: the entry still blocks a respawn
    assert!(matches!(
        sup.spawn("x", LaunchOutcome::Launched(9)),
        Err(Error::ProcessAlreadyRunning)
    ));
}

#[test]
fn check_passes_poll_failures_through() {
    let mut sup = Supervisor::new();
    sup.spawn("x", LaunchOutcome::Launched(7)).unwrap();
    let r = sup.check("x", PollOutcome::PollFailed("access denied".to_string()));
    match r {
        Err(Error::IoError(m)) => assert_eq!(m, "access denied"),
        other => panic!("expected IoError, got {:?}", other),
    }
}

#[test]
fn failed_launch_is_not_recorded() {
    let mut sup = Supervisor::new();
    let r = sup.spawn("x", LaunchOutcome::LaunchFailed("no such file".to_string()));
    match r {
        Err(Error::IoError(m)) => assert_eq!(m, "no such file"),
        other => panic!("expected IoError, got {:?}", other),
    }
    assert!(matches!(sup.get("x"), Err(Error::ProcessNotFound)));
    // the name stayed free
    assert!(sup.spawn("x", LaunchOutcome::Launched(4)).is_ok());
}

#[test]
fn stop_unknown_name_fails() {
    let mut sup = Supervisor::new();
    assert!(matches!(sup.stop("ghost"), Err(Error::ProcessNotFound)));
}

#[test]
fn stop_removes_only_the_named_entry() {
    let mut sup = Supervisor::new();
    sup.spawn("a", LaunchOutcome::Launched(1)).unwrap();
    sup.spawn("b", LaunchOutcome::Launched(2)).unwrap();
    sup.spawn("c", LaunchOutcome::Launched(3)).unwrap();
    assert_eq!(sup.stop("b").unwrap(), 2);
    assert_eq!(sup.get("a").unwrap(), 1);
    assert_eq!(sup.get("c").unwrap(), 3);
    assert!(matches!(sup.get("b"), Err(Error::ProcessNotFound)));
}

#[test]
fn process_error_texts() {
    assert_eq!(Error::ProcessNotFound.text(), "ProcessNotFound");
    assert_eq!(Error::ProcessAlreadyRunning.text(), "ProcessAlreadyRunning");
    assert_eq!(Error::ProcessExited(3).text(), "ProcessExited(3)");
    assert_eq!(Error::ProcessExited(0).text(), "ProcessExited(0)");
    assert_eq!(
        Error::IoError("broken pipe".to_string()).text(),
        "IoError(broken pipe)"
    );
    // KillOutcome is consumed by the dispatcher; keep its shape honest here
    assert!(matches!(KillOutcome::Killed, KillOutcome::Killed));
}

#[test]
fn decimal_rendering_is_exact() {
    assert_eq!(svcmgr::text::u32_to_dec(0), "0");
    assert_eq!(svcmgr::text::u32_to_dec(9), "9");
    assert_eq!(svcmgr::text::u32_to_dec(10), "10");
    assert_eq!(svcmgr::text::u32_to_dec(305419896), "305419896");
    assert_eq!(svcmgr::text::u32_to_dec(u32::MAX), "4294967295");
}
