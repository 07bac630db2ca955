use waypoint::log::ReadEvent;
use waypoint::supervisor::{PollEvent, ServiceStatus, StartError, Supervisor};

fn supervisor_with_config(name: &str, path: &str) -> Supervisor {
    let mut sup = Supervisor::new();
    sup.add_service_config(&String::from(path), &String::from(name));
    sup
}

#[test]
fn start_registers_a_fresh_id_that_is_then_listed() {
    let mut sup = supervisor_with_config("echoer", "/bin/echo_loop");
    assert_eq!(sup.get_running_services().len(), 0);

    let id = sup.start_instance(&String::from("echoer")).expect("fresh id");
    assert!(sup.has_instance(&id));
    let listed = sup.get_running_services();
    assert_eq!(listed.len(), 1);
    assert_eq!(listed[0].0, id);
    assert_eq!(listed[0].1, "echoer");
}

#[test]
fn two_starts_yield_distinct_ids() {
    let mut sup = supervisor_with_config("echoer", "/bin/echo_loop");
    let first = sup.start_instance(&String::from("echoer")).expect("fresh id");
    let second = sup.start_instance(&String::from("echoer")).expect("fresh id");
    assert_ne!(first, second);
    assert_eq!(first.len(), 36);
    assert_eq!(second.len(), 36);
    assert_eq!(sup.get_running_services().len(), 2);
}

#[test]
fn resolving_an_unknown_name_fails_and_changes_nothing() {
    let mut sup = supervisor_with_config("echoer", "/bin/echo_loop");
    let before = sup.get_running_services();
    let r = sup.resolve_service(&String::from("missing"));
    assert_eq!(r, Err(StartError::ConfigNotFound));
    assert_eq!(sup.get_running_services(), before);
    assert_eq!(sup.get_service_config().records().len(), 1);
}

#[test]
fn resolving_a_known_name_yields_its_path() {
    let sup = supervisor_with_config("echoer", "/bin/echo_loop");
    let r = sup.resolve_service(&String::from("echoer"));
    assert_eq!(r, Ok(String::from("/bin/echo_loop")));
}

#[test]
fn status_of_an_unknown_id_is_always_stopped() {
    let sup = supervisor_with_config("echoer", "/bin/echo_loop");
    let unknown = String::from("no-such-id");
    assert_eq!(sup.get_service_status(&unknown, None), ServiceStatus::Stopped);
    assert_eq!(
        sup.get_service_status(&unknown, Some(PollEvent::StillRunning)),
        ServiceStatus::Stopped
    );
    assert_eq!(sup.get_service_status(&unknown, Some(PollEvent::Exited)), ServiceStatus::Stopped);
    assert_eq!(
        sup.get_service_status(&unknown, Some(PollEvent::PollFailed)),
        ServiceStatus::Stopped
    );
}

#[test]
fn status_follows_the_poll_for_a_registered_instance() {
    let mut sup = supervisor_with_config("echoer", "/bin/echo_loop");
    let id = sup.start_instance(&String::from("echoer")).expect("fresh id");
    assert_eq!(sup.get_service_status(&id, Some(PollEvent::StillRunning)), ServiceStatus::Running);
    assert_eq!(sup.get_service_status(&id, Some(PollEvent::Exited)), ServiceStatus::Stopped);
    assert_eq!(sup.get_service_status(&id, Some(PollEvent::PollFailed)), ServiceStatus::Stopped);
}

#[test]
fn after_an_accepted_kill_an_observed_exit_reports_stopped() {
    let mut sup = supervisor_with_config("echoer", "/bin/echo_loop");
    let id = sup.start_instance(&String::from("echoer")).expect("fresh id");
    assert!(sup.kill_result(&id, true));
    assert_eq!(sup.get_service_status(&id, Some(PollEvent::Exited)), ServiceStatus::Stopped);
}

#[test]
fn kill_of_an_unknown_id_reports_false() {
    let mut sup = supervisor_with_config("echoer", "/bin/echo_loop");
    let id = sup.start_instance(&String::from("echoer")).expect("fresh id");
    assert!(!sup.kill_result(&String::from("no-such-id"), true));
    assert!(!sup.kill_result(&id, false));
}

#[test]
fn captured_streams_keep_per_stream_order_and_total_length() {
    let mut sup = supervisor_with_config("echoer", "/bin/echo_loop");
    let id = sup.start_instance(&String::from("echoer")).expect("fresh id");

    let stdout_lines = [String::from("out 1\n"), String::from("out 2\n"), String::from("out 3\n")];
    let stderr_lines = [String::from("err 1\n"), String::from("err 2\n")];

    assert!(sup.capture_event(&id, ReadEvent::Line(stdout_lines[0].clone())));
    assert!(sup.capture_event(&id, ReadEvent::Line(stderr_lines[0].clone())));
    assert!(sup.capture_event(&id, ReadEvent::Line(stdout_lines[1].clone())));
    assert!(sup.capture_event(&id, ReadEvent::Line(stdout_lines[2].clone())));
    assert!(sup.capture_event(&id, ReadEvent::Line(stderr_lines[1].clone())));
    assert!(!sup.capture_event(&id, ReadEvent::EndOfStream));
    assert!(!sup.capture_event(&id, ReadEvent::EndOfStream));

    let logs = sup.get_service_logs(&id).expect("logs of a registered instance");
    assert_eq!(logs.len(), stdout_lines.len() + stderr_lines.len());

    let replayed_out: Vec<&String> = logs.iter().filter(|l| l.starts_with("out")).collect();
    let replayed_err: Vec<&String> = logs.iter().filter(|l| l.starts_with("err")).collect();
    assert_eq!(replayed_out, stdout_lines.iter().collect::<Vec<&String>>());
    assert_eq!(replayed_err, stderr_lines.iter().collect::<Vec<&String>>());
    for line in logs.iter() {
        assert!(line.ends_with('\n'), "a reader saw a partial line: {:?}", line);
    }
}

#[test]
fn a_line_for_an_unknown_id_is_dropped_and_stops_the_task() {
    let mut sup = supervisor_with_config("echoer", "/bin/echo_loop");
    let id = sup.start_instance(&String::from("echoer")).expect("fresh id");
    assert!(!sup.capture_event(&String::from("no-such-id"), ReadEvent::Line(String::from("x\n"))));
    assert_eq!(sup.get_service_logs(&id).expect("logs").len(), 0);
    assert!(sup.get_service_logs(&String::from("no-such-id")).is_none());
}

#[test]
fn instance_lookup_reports_the_display_name() {
    let mut sup = supervisor_with_config("echoer", "/bin/echo_loop");
    let id = sup.start_instance(&String::from("echoer")).expect("fresh id");
    let inst = sup.get_service_instance(&id).expect("registered instance");
    assert_eq!(inst.display_name(), "echoer");
    assert_eq!(inst.id(), &id);
    assert!(sup.get_service_instance(&String::from("no-such-id")).is_none());
}

#[test]
fn register_instance_keeps_earlier_instances_in_place() {
    let mut sup = supervisor_with_config("echoer", "/bin/echo_loop");
    sup.register_instance(String::from("id-a"), String::from("echoer"));
    sup.register_instance(String::from("id-b"), String::from("echoer"));
    let listed = sup.get_running_services();
    assert_eq!(listed.len(), 2);
    assert_eq!(listed[0].0, "id-a");
    assert_eq!(listed[1].0, "id-b");
}
