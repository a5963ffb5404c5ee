use verdaccio_control::{
    apply_event, begin_start, begin_stop, check_verdaccio_installed, clear_verdaccio_logs,
    finish_stop, get_verdaccio_logs, get_verdaccio_status, on_spawned, ProcessEvent,
    VerdaccioError, VerdaccioProcess,
};

#[test]
fn buffer_never_exceeds_capacity_and_evicts_oldest_first() {
    let mut p = VerdaccioProcess::default();
    for i in 0..1005u32 {
        p.add_log("STDOUT", format!("line {}", i));
    }
    let logs = get_verdaccio_logs(&p);
    assert_eq!(logs.len(), 1000);
    // the five oldest lines were evicted, strictly in order
    assert_eq!(logs[0].message, "line 5");
    assert_eq!(logs[999].message, "line 1004");
}

#[test]
fn buffer_keeps_insertion_order_below_capacity() {
    let mut p = VerdaccioProcess::default();
    p.add_log("STDOUT", "first".to_string());
    p.add_log("STDERR", "second".to_string());
    let logs = get_verdaccio_logs(&p);
    assert_eq!(logs.len(), 2);
    assert_eq!(logs[0].message, "first");
    assert_eq!(logs[0].level, "STDOUT");
    assert_eq!(logs[1].message, "second");
    assert_eq!(logs[1].level, "STDERR");
    assert!(!logs[0].timestamp.is_empty());
}

#[test]
fn colored_line_is_stored_plain() {
    let mut p = VerdaccioProcess::default();
    p.add_log("INFO", "\x1b[31mhello\x1b[0m".to_string());
    let logs = get_verdaccio_logs(&p);
    assert_eq!(logs.len(), 1);
    assert_eq!(logs[0].message, "hello");
    assert_eq!(logs[0].level, "INFO");
}

#[test]
fn whitespace_only_line_is_dropped() {
    let mut p = VerdaccioProcess::default();
    p.add_log("INFO", "   ".to_string());
    assert_eq!(get_verdaccio_logs(&p).len(), 0);
}

#[test]
fn stop_when_never_started_is_an_idempotent_success() {
    let mut p = VerdaccioProcess::default();
    let before = get_verdaccio_status(&p, "/home/x");
    let had = begin_stop(&mut p);
    assert!(!had);
    let r = finish_stop(&mut p, None);
    assert!(r.is_ok());
    let after = get_verdaccio_status(&p, "/home/x");
    assert_eq!(before.running, after.running);
    assert_eq!(before.pid, after.pid);
    assert_eq!(before.port, after.port);
}

#[test]
fn running_flag_and_pid_change_together() {
    let mut p = VerdaccioProcess::default();
    on_spawned(&mut p, 4242, 4873);
    let s = get_verdaccio_status(&p, "/home/x");
    assert!(s.running);
    assert_eq!(s.pid, Some(4242));
    let stop = apply_event(&mut p, ProcessEvent::Terminated(Some(0)));
    assert!(stop);
    let s = get_verdaccio_status(&p, "/home/x");
    assert!(!s.running);
    assert_eq!(s.pid, None);
}

#[test]
fn second_start_without_stop_is_rejected() {
    let mut p = VerdaccioProcess::default();
    let first = begin_start(&mut p, 4873, false, "/opt/verdaccio/bin/verdaccio", "/home/x/.verdaccio/config.yaml");
    assert!(first.is_ok());
    on_spawned(&mut p, 77, 4873);
    let second = begin_start(&mut p, 4873, false, "/opt/verdaccio/bin/verdaccio", "/home/x/.verdaccio/config.yaml");
    match second {
        Err(VerdaccioError::AlreadyRunning) => {}
        _ => panic!("a second start must be rejected as already running"),
    }
    // the rejection changed nothing
    let s = get_verdaccio_status(&p, "/home/x");
    assert!(s.running);
    assert_eq!(s.pid, Some(77));
}

#[test]
fn clear_then_get_returns_empty() {
    let mut p = VerdaccioProcess::default();
    p.add_log("INFO", "one".to_string());
    p.add_log("INFO", "two".to_string());
    clear_verdaccio_logs(&mut p);
    assert!(get_verdaccio_logs(&p).is_empty());
}

#[test]
fn start_with_port_4873_listens_on_loopback() {
    let mut p = VerdaccioProcess::default();
    let plan = begin_start(&mut p, 4873, false, "/opt/e", "/opt/c").unwrap();
    assert_eq!(plan.listen_addr, "127.0.0.1:4873");
    assert_eq!(plan.port, 4873);
    on_spawned(&mut p, 9, 4873);
    let s = get_verdaccio_status(&p, "/home/x");
    assert!(s.running);
    assert_eq!(s.port, 4873);
}

#[test]
fn start_with_lan_access_listens_on_every_interface() {
    let mut p = VerdaccioProcess::default();
    let plan = begin_start(&mut p, 4873, true, "/opt/e", "/opt/c").unwrap();
    assert_eq!(plan.listen_addr, "0.0.0.0:4873");
}

#[test]
fn start_records_its_intent_in_the_log() {
    let mut p = VerdaccioProcess::default();
    begin_start(&mut p, 5000, false, "/opt/e", "/opt/c").unwrap();
    let logs = get_verdaccio_logs(&p);
    assert_eq!(logs.len(), 5);
    assert_eq!(logs[0].message, "Starting Verdaccio...");
    assert_eq!(logs[1].message, "Verdaccio entry: /opt/e");
    assert_eq!(logs[2].message, "Config file: /opt/c");
    assert_eq!(logs[3].message, "Listen port: 5000");
    assert_eq!(logs[4].message, "Listen address: 127.0.0.1");
}

#[test]
fn termination_event_is_logged_with_the_exit_code() {
    let mut p = VerdaccioProcess::default();
    on_spawned(&mut p, 31, 4873);
    apply_event(&mut p, ProcessEvent::Terminated(Some(-9)));
    let logs = get_verdaccio_logs(&p);
    let last = logs.last().unwrap();
    assert_eq!(last.message, "Verdaccio process exited, exit code: -9");
    assert_eq!(last.level, "INFO");
}

#[test]
fn termination_without_code_is_logged_as_unknown() {
    let mut p = VerdaccioProcess::default();
    on_spawned(&mut p, 31, 4873);
    apply_event(&mut p, ProcessEvent::Terminated(None));
    let logs = get_verdaccio_logs(&p);
    assert_eq!(
        logs.last().unwrap().message,
        "Verdaccio process exited, exit code: unknown"
    );
}

#[test]
fn output_events_are_tagged_with_their_stream() {
    let mut p = VerdaccioProcess::default();
    let stop = apply_event(&mut p, ProcessEvent::Stdout("out line".to_string()));
    assert!(!stop);
    let stop = apply_event(&mut p, ProcessEvent::Stderr("err line".to_string()));
    assert!(!stop);
    let stop = apply_event(&mut p, ProcessEvent::Error("boom".to_string()));
    assert!(!stop);
    let logs = get_verdaccio_logs(&p);
    assert_eq!(logs[0].level, "STDOUT");
    assert_eq!(logs[1].level, "STDERR");
    assert_eq!(logs[2].level, "ERROR");
    assert_eq!(logs[2].message, "Process error: boom");
}

#[test]
fn empty_output_lines_are_not_stored() {
    let mut p = VerdaccioProcess::default();
    apply_event(&mut p, ProcessEvent::Stdout("  \t ".to_string()));
    assert!(get_verdaccio_logs(&p).is_empty());
}

#[test]
fn failed_kill_is_surfaced_but_bookkeeping_is_cleared() {
    let mut p = VerdaccioProcess::default();
    on_spawned(&mut p, 5, 4873);
    let had = begin_stop(&mut p);
    assert!(had);
    let s = get_verdaccio_status(&p, "/home/x");
    assert!(!s.running);
    assert_eq!(s.pid, None);
    let r = finish_stop(&mut p, Some("permission denied".to_string()));
    match r {
        Err(VerdaccioError::KillFailed(d)) => {
            assert_eq!(d, "permission denied");
        }
        _ => panic!("a failed kill must be surfaced"),
    }
    let s = get_verdaccio_status(&p, "/home/x");
    assert!(!s.running);
    assert_eq!(s.pid, None);
}

#[test]
fn installed_probe_always_succeeds() {
    assert_eq!(check_verdaccio_installed(), Ok(true));
}

#[test]
fn error_messages_are_descriptive() {
    assert_eq!(
        VerdaccioError::AlreadyRunning.message(),
        "Verdaccio is already running"
    );
    assert_eq!(
        VerdaccioError::EntryNotFound.message(),
        "Could not find Verdaccio; run pnpm prepare:runtime"
    );
    assert_eq!(
        VerdaccioError::SpawnFailed("no such file".to_string()).message(),
        "Failed to start Verdaccio: no such file"
    );
    assert_eq!(
        VerdaccioError::KillFailed("gone".to_string()).message(),
        "Failed to stop process: gone"
    );
}
