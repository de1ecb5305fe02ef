use axon::daemon::ensure::{
    daemon_args, died_message, format_duration, timeout_message, Phase, Progress, Starter, Step,
};
use axon::daemon::files::{
    axon_data_dir, axon_log_file, axon_model_file, axon_pid_file, axon_port_file, log_tail,
    try_read_pid, try_read_port,
};
use axon::daemon::proto::{switch_outcome, DaemonRequest, DaemonResponse};
use axon::daemon::serve::{on_request, on_sent, BackendSlot, Forward, Serve};
use axon::llm::StreamEvent;
use axon::session::Message;

#[test]
fn files_below_the_home() {
    assert_eq!(axon_data_dir(Some("/h")), Ok("/h/.axon".to_string()));
    assert_eq!(axon_data_dir(Some("/")), Ok("/.axon".to_string()));
    assert_eq!(axon_data_dir(Some("")), Ok(".axon".to_string()));
    assert_eq!(axon_port_file(Some("/h")), Ok("/h/.axon/port".to_string()));
    assert_eq!(axon_pid_file(Some("/h")), Ok("/h/.axon/daemon.pid".to_string()));
    assert_eq!(axon_log_file(Some("/h")), Ok("/h/.axon/daemon.log".to_string()));
    assert_eq!(axon_model_file(Some("/h")), Ok("/h/.axon/model".to_string()));
    assert_eq!(axon_model_file(None), Err("HOME environment variable not set".to_string()));
}

#[test]
fn numbers_in_files() {
    assert_eq!(try_read_port(Some(" 8080\n")), Some(8080));
    assert_eq!(try_read_port(Some("65536")), None);
    assert_eq!(try_read_port(Some("")), None);
    assert_eq!(try_read_port(None), None);
    assert_eq!(try_read_pid(Some("4294967295")), Some(4294967295));
    assert_eq!(try_read_pid(Some("-1")), None);
}

#[test]
fn the_end_of_a_log() {
    let log: Vec<String> = (0..12).map(|i| format!("l{}", i)).collect();
    assert_eq!(log_tail(&log.join("\n")), "l2\nl3\nl4\nl5\nl6\nl7\nl8\nl9\nl10\nl11");
    assert_eq!(log_tail("a\nb\n"), "a\nb");
    assert_eq!(died_message("x"), "axon daemon exited unexpectedly:\nx");
    assert_eq!(
        timeout_message("/l"),
        "axon daemon failed to start within 10 minutes — check /l"
    );
}

#[test]
fn a_daemon_with_the_right_model_is_used() {
    let (mut s, first) = Starter::new("m");
    assert!(matches!(first, Step::Probe));
    assert!(matches!(s.probed(Some(7), " m\n"), Step::Ready { port: 7 }));
}

#[test]
fn another_model_is_switched_to() {
    let (mut s, _) = Starter::new("m");
    assert!(matches!(s.probed(Some(7), "other"), Step::Download));
    assert!(matches!(s.downloaded(Ok(())), Step::Switch { port: 7 }));
    assert!(matches!(s.switched(Ok(())), Step::Ready { port: 7 }));

    let (mut s, _) = Starter::new("m");
    s.probed(Some(7), "other");
    s.downloaded(Ok(()));
    match s.switched(Err("model switch failed: no".to_string())) {
        Step::Fail(e) => assert_eq!(e, "model switch failed: no"),
        _ => panic!("fails"),
    }
}

#[test]
fn an_old_daemon_is_replaced() {
    let (mut s, _) = Starter::new("m");
    s.probed(Some(7), "other");
    s.downloaded(Ok(()));
    assert!(matches!(
        s.switched(Err("model switch failed: invalid request JSON: x".to_string())),
        Step::Invalidate
    ));
    assert!(matches!(s.invalidated(Ok(())), Step::Download));
    assert!(matches!(s.downloaded(Ok(())), Step::CheckLoading));
    assert!(matches!(s.loading_checked(false), Step::Spawn));
    assert!(matches!(s.spawned(Ok(())), Step::Wait { progress: None }));
}

#[test]
fn a_loading_daemon_is_waited_for() {
    let (mut s, _) = Starter::new("m");
    assert!(matches!(s.probed(None, ""), Step::Download));
    match s.downloaded(Err("offline".to_string())) {
        Step::Fail(e) => assert_eq!(e, "offline"),
        _ => panic!("fails"),
    }
    let (mut s, _) = Starter::new("m");
    s.probed(None, "");
    s.downloaded(Ok(()));
    assert!(matches!(s.loading_checked(true), Step::Wait { .. }));
    match s.polled(None, true, 65, true) {
        Step::Wait { progress: Some(Progress::Rewrite(t)) } => {
            assert_eq!(t, "\raxon: loading 'm'… 1m 5s")
        }
        _ => panic!("shows progress"),
    }
    assert!(matches!(s.polled(None, true, 65, true), Step::Wait { progress: None }));
    match s.polled(None, true, 75, false) {
        Step::Wait { progress: Some(Progress::Line(t)) } => {
            assert_eq!(t, "axon: loading 'm'… 1m 15s")
        }
        _ => panic!("shows progress"),
    }
    assert!(matches!(s.polled(None, true, 76, false), Step::Wait { progress: None }));
    assert!(matches!(s.polled(Some(9), true, 80, false), Step::Ready { port: 9 }));
    assert_eq!(s.phase, Phase::Over);
}

#[test]
fn waiting_ends() {
    let waiting = || {
        let (mut s, _) = Starter::new("m");
        s.probed(None, "");
        s.downloaded(Ok(()));
        s.loading_checked(true);
        s
    };
    assert!(matches!(waiting().polled(None, false, 1, false), Step::Died));
    assert!(matches!(waiting().polled(None, true, 600, false), Step::TimedOut { .. }));
    assert!(matches!(waiting().polled(None, true, 599, false), Step::Wait { .. }));
}

#[test]
fn durations_and_arguments() {
    assert_eq!(format_duration(0), "0s");
    assert_eq!(format_duration(59), "59s");
    assert_eq!(format_duration(600), "10m 0s");
    assert_eq!(daemon_args("m", false, None), vec!["--daemon", "--model", "m"]);
    assert_eq!(
        daemon_args("m", true, Some(5)),
        vec!["--daemon", "--model", "m", "--no-download", "--context-window", "5"]
    );
}

#[test]
fn events_pass_through_the_protocol() {
    for (delta, done) in [("x", false), ("", true)] {
        let r = DaemonResponse::carry(StreamEvent { delta: delta.to_string(), done });
        match r.receive() {
            Ok(e) => assert_eq!((e.delta.as_str(), e.done), (delta, done)),
            Err(_) => panic!("no error"),
        }
    }
    assert!(DaemonResponse::carry(StreamEvent::end()).delta.is_none());
    match DaemonResponse::refuse("no".to_string()).receive() {
        Ok(_) => panic!("an error"),
        Err(e) => assert_eq!(e.message(), "inference error: no"),
    }
    assert_eq!(
        switch_outcome(DaemonResponse::refuse("no".to_string())),
        Err("model switch failed: no".to_string())
    );
    assert_eq!(switch_outcome(DaemonResponse::acknowledge()), Ok(()));
}

#[test]
fn requests_are_served() {
    match on_request(Err("bad".to_string())) {
        Serve::Reply(r) => {
            assert_eq!(r.error.as_deref(), Some("invalid request JSON: bad"));
            assert!(r.done);
        }
        _ => panic!("refused"),
    }
    match on_request(Ok(DaemonRequest::Infer { messages: vec![Message::user("x")] })) {
        Serve::Infer { messages } => assert_eq!(messages.len(), 1),
        _ => panic!("runs the model"),
    }
    match on_request(Ok(DaemonRequest::SwitchModel { model: "m".to_string(), no_download: true })) {
        Serve::Load { model, no_download } => assert_eq!((model.as_str(), no_download), ("m", true)),
        _ => panic!("loads"),
    }
    assert_eq!(on_sent(true, false), Forward::Cancel);
    assert_eq!(on_sent(true, true), Forward::Done);
    assert_eq!(on_sent(false, true), Forward::More);
}

#[test]
fn a_switch_is_all_or_nothing() {
    let mut slot = BackendSlot { model: "a".to_string() };
    let r = slot.on_loaded("b", Err("no file".to_string()));
    assert_eq!(slot.model, "a");
    assert_eq!(r.error.as_deref(), Some("failed to load model 'b': no file"));
    let r = slot.on_loaded("b", Ok(()));
    assert_eq!(slot.model, "b");
    assert!(r.error.is_none());
}
