use svcmgr::client::{report, SendOutcome};
use svcmgr::config::{Config, Error, ParseOutcome, Registry, Service, ServiceType, Unit};
use svcmgr::process::{KillOutcome, LaunchOutcome, PollOutcome, Supervisor};
use svcmgr::protocol::{encode, Request};
use svcmgr::server::{
    finish_kill, finish_launch, finish_poll, finish_reload, handle_message, Step,
};

fn unit(name: &str, style: ServiceType, desc: Option<&str>) -> Config {
    Config {
        unit: Unit {
            name: name.to_string(),
            description: desc.map(|d| d.to_string()),
            other: Vec::new(),
        },
        service: Service {
            style,
            path: format!("/usr/bin/{}", name),
            args: Some(vec!["--serve".to_string()]),
            env: Some(vec![("PORT".to_string(), "80".to_string())]),
            stdout_path: None,
            stderr_path: None,
            other: Vec::new(),
        },
        other: Vec::new(),
    }
}

fn frame(req: Request) -> Vec<u8> {
    encode(&req).unwrap()
}

#[test]
fn start_of_known_unit_reports_started_successfully() {
    let mut reg = Registry::new();
    reg.load(vec![ParseOutcome::Parsed(unit(
        "web",
        ServiceType::Simple,
        None,
    ))])
    .unwrap();
    let mut sup = Supervisor::new();

    let step = handle_message(&reg, &mut sup, &frame(Request::Start("web".to_string())));
    let reply = match step {
        Step::Launch { name, service } => {
            assert_eq!(name, "web");
            assert_eq!(service.path, "/usr/bin/web");
            finish_launch(&mut sup, &name, LaunchOutcome::Launched(11))
        }
        other_step => panic!("expected a launch step, got a {}", step_kind(&other_step)),
    };
    assert_eq!(reply, "Service `web` started successfully.");
    assert!(reply.contains("started successfully"));
    assert_eq!(sup.get("web").unwrap(), 11);
}

#[test]
fn start_of_absent_unit_reports_cannot_find() {
    let reg = Registry::new();
    let mut sup = Supervisor::new();
    let step = handle_message(&reg, &mut sup, &frame(Request::Start("web".to_string())));
    match step {
        Step::Reply(t) => {
            assert_eq!(t, "Cannot Find Service `web`");
            assert!(t.contains("Cannot Find Service"));
        }
        other_step => panic!("expected a reply, got a {}", step_kind(&other_step)),
    }
}

#[test]
fn start_of_tracked_unit_reports_already_running() {
    let mut reg = Registry::new();
    reg.load(vec![ParseOutcome::Parsed(unit(
        "web",
        ServiceType::Simple,
        None,
    ))])
    .unwrap();
    let mut sup = Supervisor::new();
    sup.spawn("web", LaunchOutcome::Launched(5)).unwrap();

    let step = handle_message(&reg, &mut sup, &frame(Request::Start("web".to_string())));
    match step {
        Step::Reply(t) => {
            assert_eq!(t, "Failed to start service `web`: ProcessAlreadyRunning")
        }
        other_step => panic!("expected a reply, got a {}", step_kind(&other_step)),
    }
}

#[test]
fn failed_launch_reports_the_io_error() {
    let mut reg = Registry::new();
    reg.load(vec![ParseOutcome::Parsed(unit(
        "web",
        ServiceType::Simple,
        None,
    ))])
    .unwrap();
    let mut sup = Supervisor::new();
    let step = handle_message(&reg, &mut sup, &frame(Request::Start("web".to_string())));
    let reply = match step {
        Step::Launch { name, .. } => finish_launch(
            &mut sup,
            &name,
            LaunchOutcome::LaunchFailed("Os { code: 2 }".to_string()),
        ),
        other_step => panic!("expected a launch step, got a {}", step_kind(&other_step)),
    };
    assert_eq!(reply, "Failed to start service `web`: IoError(Os { code: 2 })");
    assert!(sup.get("web").is_err());
}

#[test]
fn stop_flow_removes_and_reports() {
    let reg = Registry::new();
    let mut sup = Supervisor::new();
    sup.spawn("web", LaunchOutcome::Launched(5)).unwrap();

    let step = handle_message(&reg, &mut sup, &frame(Request::Stop("web".to_string())));
    let reply = match step {
        Step::Kill { name, handle } => {
            assert_eq!(name, "web");
            assert_eq!(handle, 5);
            // the entry left the table before the kill
            assert!(sup.get("web").is_err());
            finish_kill(&name, KillOutcome::Killed)
        }
        other_step => panic!("expected a kill step, got a {}", step_kind(&other_step)),
    };
    assert_eq!(reply, "Service `web` stopped successfully.");
}

#[test]
fn stop_of_untracked_unit_reports_not_found() {
    let reg = Registry::new();
    let mut sup = Supervisor::new();
    let step = handle_message(&reg, &mut sup, &frame(Request::Stop("web".to_string())));
    match step {
        Step::Reply(t) => assert_eq!(t, "Failed to stop service `web`: ProcessNotFound"),
        other_step => panic!("expected a reply, got a {}", step_kind(&other_step)),
    }
}

#[test]
fn failed_kill_reports_but_entry_stays_removed() {
    let reg = Registry::new();
    let mut sup = Supervisor::new();
    sup.spawn("web", LaunchOutcome::Launched(5)).unwrap();
    let step = handle_message(&reg, &mut sup, &frame(Request::Stop("web".to_string())));
    let reply = match step {
        Step::Kill { name, .. } => {
            finish_kill(&name, KillOutcome::KillFailed("access denied".to_string()))
        }
        other_step => panic!("expected a kill step, got a {}", step_kind(&other_step)),
    };
    assert_eq!(reply, "Failed to stop service `web`: IoError(access denied)");
    assert!(sup.get("web").is_err());
}

#[test]
fn status_of_running_unit() {
    let mut reg = Registry::new();
    reg.load(vec![ParseOutcome::Parsed(unit(
        "web",
        ServiceType::Simple,
        Some("serves the site"),
    ))])
    .unwrap();
    let mut sup = Supervisor::new();
    sup.spawn("web", LaunchOutcome::Launched(5)).unwrap();

    let step = handle_message(&reg, &mut sup, &frame(Request::Status("web".to_string())));
    let reply = match step {
        Step::Poll { name, handle } => {
            assert_eq!(handle, 5);
            finish_poll(&reg, &sup, &name, PollOutcome::StillRunning)
        }
        other_step => panic!("expected a poll step, got a {}", step_kind(&other_step)),
    };
    assert_eq!(
        reply,
        "web - serves the site\n\nType   :Simple \nStatus :Running"
    );
}

#[test]
fn status_of_exited_unit_reports_the_code() {
    let mut reg = Registry::new();
    reg.load(vec![ParseOutcome::Parsed(unit(
        "web",
        ServiceType::Startup,
        None,
    ))])
    .unwrap();
    let mut sup = Supervisor::new();
    sup.spawn("web", LaunchOutcome::Launched(5)).unwrap();

    let step = handle_message(&reg, &mut sup, &frame(Request::Status("web".to_string())));
    let reply = match step {
        Step::Poll { name, .. } => finish_poll(&reg, &sup, &name, PollOutcome::Exited(3)),
        other_step => panic!("expected a poll step, got a {}", step_kind(&other_step)),
    };
    assert_eq!(
        reply,
        "web - Not provided description\n\nType   :Startup \nStatus :ProcessExited(3)"
    );
}

#[test]
fn status_of_untracked_unit_reports_not_found_inline() {
    let mut reg = Registry::new();
    reg.load(vec![ParseOutcome::Parsed(unit(
        "web",
        ServiceType::Simple,
        None,
    ))])
    .unwrap();
    let mut sup = Supervisor::new();
    let step = handle_message(&reg, &mut sup, &frame(Request::Status("web".to_string())));
    match step {
        Step::Reply(t) => assert_eq!(
            t,
            "web - Not provided description\n\nType   :Simple \nStatus :ProcessNotFound"
        ),
        other_step => panic!("expected a reply, got a {}", step_kind(&other_step)),
    }
}

#[test]
fn status_of_unknown_unit_reports_missing_config() {
    let reg = Registry::new();
    let mut sup = Supervisor::new();
    let step = handle_message(&reg, &mut sup, &frame(Request::Status("web".to_string())));
    match step {
        Step::Reply(t) => assert_eq!(t, "Failed to get config for service `web`"),
        other_step => panic!("expected a reply, got a {}", step_kind(&other_step)),
    }
}

#[test]
fn reload_flow_replaces_or_keeps() {
    let mut reg = Registry::new();
    reg.load(vec![ParseOutcome::Parsed(unit(
        "web",
        ServiceType::Simple,
        None,
    ))])
    .unwrap();
    let mut sup = Supervisor::new();

    let step = handle_message(&reg, &mut sup, &frame(Request::Reload));
    assert!(matches!(step, Step::Reload));

    let ok = finish_reload(
        &mut reg,
        vec![ParseOutcome::Parsed(unit("db", ServiceType::Simple, None))],
    );
    assert_eq!(ok, "Configuration reloaded successfully.");
    assert!(reg.get("db").is_some());
    assert!(reg.get("web").is_none());

    let bad = finish_reload(
        &mut reg,
        vec![ParseOutcome::Malformed(Error::Toml("bad value".to_string()))],
    );
    assert_eq!(bad, "Error reloading configuration: Toml(bad value)");
    // the failed reload left the previous snapshot standing
    assert!(reg.get("db").is_some());
}

#[test]
fn reload_never_touches_running_processes() {
    let mut reg = Registry::new();
    reg.load(vec![ParseOutcome::Parsed(unit(
        "web",
        ServiceType::Simple,
        None,
    ))])
    .unwrap();
    let mut sup = Supervisor::new();
    sup.spawn("web", LaunchOutcome::Launched(5)).unwrap();

    // the reload drops "web" from the registry ...
    finish_reload(
        &mut reg,
        vec![ParseOutcome::Parsed(unit("db", ServiceType::Simple, None))],
    );
    // ... but the supervisor still tracks it under its old name
    assert_eq!(sup.get("web").unwrap(), 5);
}

#[test]
fn no_command_and_malformed_payloads_reply_without_crashing() {
    let reg = Registry::new();
    let mut sup = Supervisor::new();

    let step = handle_message(&reg, &mut sup, &frame(Request::NoCommand));
    match step {
        Step::Reply(t) => assert_eq!(t, "No command provided."),
        other_step => panic!("expected a reply, got a {}", step_kind(&other_step)),
    }

    let step = handle_message(&reg, &mut sup, &[0xff, 0x00, 0x99]);
    match step {
        Step::Reply(t) => assert_eq!(t, "Failed to parse command: unrecognized request frame"),
        other_step => panic!("expected a reply, got a {}", step_kind(&other_step)),
    }
}

#[test]
fn client_reports() {
    assert_eq!(
        report(SendOutcome::Received(b"Service `web` started successfully.".to_vec())),
        "Service `web` started successfully."
    );
    assert_eq!(
        report(SendOutcome::Received(vec![0xff, 0xfe])),
        "Received a reply that is not UTF-8."
    );
    assert_eq!(report(SendOutcome::NoListener), "Service is not running.");
    assert_eq!(
        report(SendOutcome::EmptyReply),
        "Failed to send message to pipe: empty reply"
    );
    assert_eq!(
        report(SendOutcome::Failed("timed out".to_string())),
        "Failed to send message to pipe: timed out"
    );
}

fn step_kind(step: &Step) -> &'static str {
    match step {
        Step::Reply(_) => "reply",
        Step::Launch { .. } => "launch",
        Step::Poll { .. } => "poll",
        Step::Kill { .. } => "kill",
        Step::Reload => "reload",
    }
}
