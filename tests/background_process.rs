use background_process::errors::{
    capture_error, error_to_function_call, kill_result, unknown_process_error, ExecError,
    FunctionCallError, StartKillError,
};
use background_process::ids::{decimal_text, process_id};
use background_process::log::{pump_step, LogEntry, LogStream, ProcessLog, LOG_CAP_BYTES};
use background_process::registry::ProcessTable;
use background_process::state::{
    background_state_report, system_time_to_unix_millis, BackgroundProcessState, LifecycleCell,
    StateReport, Timestamp, WaitOutcome,
};

fn entry(stream: LogStream, text: &str) -> LogEntry {
    LogEntry { stream, text: text.to_string() }
}

fn respond(text: &str) -> FunctionCallError {
    FunctionCallError::RespondToModel(text.to_string())
}

#[test]
fn system_time_converts_to_millis() {
    let ts = Timestamp::since_epoch(1, 234_000_000);
    assert_eq!(system_time_to_unix_millis(ts), Some(1234));
}

#[test]
fn running_state_serializes() {
    let value = background_state_report(&BackgroundProcessState::Running);
    assert_eq!(value.status(), "running");
    assert_eq!(value, StateReport::Running);
}

#[test]
fn exited_state_serializes_with_metadata() {
    let finished_at = Timestamp::since_epoch(42, 0);
    let value = background_state_report(&BackgroundProcessState::Exited {
        exit_code: Some(0),
        signal: None,
        finished_at,
    });
    assert_eq!(value.status(), "exited");
    assert_eq!(
        value,
        StateReport::Exited { exit_code: Some(0), signal: None, finished_at_ms: Some(42_000) }
    );
}

#[test]
fn failed_state_serializes() {
    let finished_at = Timestamp::since_epoch(5, 0);
    let value = background_state_report(&BackgroundProcessState::Failed {
        message: "boom".to_string(),
        finished_at,
    });
    assert_eq!(value.status(), "failed");
    assert_eq!(
        value,
        StateReport::Failed { message: "boom".to_string(), finished_at_ms: Some(5_000) }
    );
}

#[test]
fn epoch_start_converts_to_zero() {
    assert_eq!(system_time_to_unix_millis(Timestamp::since_epoch(0, 0)), Some(0));
    let epoch_from_below = Timestamp { before_epoch: true, secs: 0, nanos: 0 };
    assert_eq!(system_time_to_unix_millis(epoch_from_below), Some(0));
}

#[test]
fn time_before_epoch_has_no_millis() {
    let t = Timestamp { before_epoch: true, secs: 0, nanos: 1 };
    assert_eq!(system_time_to_unix_millis(t), None);
    let t = Timestamp { before_epoch: true, secs: 3, nanos: 0 };
    assert_eq!(system_time_to_unix_millis(t), None);
}

#[test]
fn millis_truncate_sub_millisecond_part() {
    let t = Timestamp::since_epoch(7, 999_999);
    assert_eq!(system_time_to_unix_millis(t), Some(7_000));
}

#[test]
fn exited_state_before_epoch_reports_no_time() {
    let finished_at = Timestamp { before_epoch: true, secs: 1, nanos: 0 };
    let value = background_state_report(&BackgroundProcessState::Exited {
        exit_code: None,
        signal: Some(9),
        finished_at,
    });
    assert_eq!(value, StateReport::Exited { exit_code: None, signal: Some(9), finished_at_ms: None });
}

#[test]
fn stream_tags() {
    assert_eq!(LogStream::Stdout.as_str(), "stdout");
    assert_eq!(LogStream::Stderr.as_str(), "stderr");
}

#[test]
fn appends_are_kept_in_order() {
    let mut log = ProcessLog::new();
    log.append(LogStream::Stdout, b"hello\n");
    log.append(LogStream::Stderr, b"oops");
    log.append(LogStream::Stdout, b"bye");
    assert_eq!(
        log.snapshot(),
        vec![
            entry(LogStream::Stdout, "hello\n"),
            entry(LogStream::Stderr, "oops"),
            entry(LogStream::Stdout, "bye"),
        ]
    );
}

#[test]
fn empty_append_changes_nothing() {
    let mut log = ProcessLog::new();
    log.append(LogStream::Stdout, b"");
    assert!(log.snapshot().is_empty());
    log.append(LogStream::Stdout, b"a");
    log.append(LogStream::Stderr, b"");
    assert_eq!(log.snapshot(), vec![entry(LogStream::Stdout, "a")]);
}

#[test]
fn invalid_utf8_is_replaced() {
    let mut log = ProcessLog::new();
    log.append(LogStream::Stderr, &[b'o', b'k', 0xff]);
    assert_eq!(log.snapshot(), vec![entry(LogStream::Stderr, "ok\u{FFFD}")]);
}

#[test]
fn oldest_entries_are_evicted_first() {
    let mut log = ProcessLog::new();
    let chunk = vec![b'a'; 200 * 1024];
    log.append(LogStream::Stdout, &chunk);
    log.append(LogStream::Stderr, &vec![b'b'; 200 * 1024]);
    assert_eq!(log.snapshot().len(), 2);
    log.append(LogStream::Stdout, &vec![b'c'; 200 * 1024]);
    let snap = log.snapshot();
    assert_eq!(snap.len(), 2);
    assert_eq!(snap[0].stream, LogStream::Stderr);
    assert!(snap[0].text.starts_with('b'));
    assert!(snap[1].text.starts_with('c'));
    let total: usize = snap.iter().map(|e| e.text.len()).sum();
    assert!(total <= LOG_CAP_BYTES);
}

#[test]
fn exactly_the_cap_is_retained() {
    let mut log = ProcessLog::new();
    log.append(LogStream::Stdout, &vec![b'a'; LOG_CAP_BYTES - 1]);
    log.append(LogStream::Stdout, b"z");
    assert_eq!(log.snapshot().len(), 2);
    log.append(LogStream::Stdout, b"y");
    let snap = log.snapshot();
    assert_eq!(snap.len(), 2);
    assert_eq!(snap[0].text, "z");
    assert_eq!(snap[1].text, "y");
}

#[test]
fn oversized_entry_is_kept_whole() {
    let mut log = ProcessLog::new();
    log.append(LogStream::Stdout, b"before");
    let big = vec![b'x'; LOG_CAP_BYTES + 10];
    log.append(LogStream::Stderr, &big);
    let snap = log.snapshot();
    assert_eq!(snap.len(), 1);
    assert_eq!(snap[0].stream, LogStream::Stderr);
    assert_eq!(snap[0].text.len(), LOG_CAP_BYTES + 10);
    log.append(LogStream::Stdout, b"after");
    assert_eq!(log.snapshot(), vec![entry(LogStream::Stdout, "after")]);
}

#[test]
fn rendered_entries_carry_stream_tags() {
    let mut log = ProcessLog::new();
    log.append(LogStream::Stdout, b"hello\n");
    log.append(LogStream::Stderr, b"warn");
    let rendered = log.rendered();
    assert_eq!(rendered.len(), 2);
    assert_eq!(rendered[0].stream, "stdout");
    assert_eq!(rendered[0].text, "hello\n");
    assert_eq!(rendered[1].stream, "stderr");
    assert_eq!(rendered[1].text, "warn");
}

#[test]
fn pump_stops_at_end_of_stream_or_error() {
    let mut log = ProcessLog::new();
    assert!(pump_step(&mut log, LogStream::Stdout, Some(b"hello\n".as_slice())));
    assert!(!pump_step(&mut log, LogStream::Stdout, Some(b"".as_slice())));
    assert!(!pump_step(&mut log, LogStream::Stdout, None));
    assert_eq!(log.snapshot(), vec![entry(LogStream::Stdout, "hello\n")]);
}

#[test]
fn monitor_keeps_polling_while_running() {
    let mut cell = LifecycleCell::new();
    assert!(!cell.record(WaitOutcome::StillRunning, Timestamp::since_epoch(1, 0)));
    assert_eq!(cell.current(), BackgroundProcessState::Running);
}

#[test]
fn exit_is_committed_once() {
    let mut cell = LifecycleCell::new();
    let t = Timestamp::since_epoch(10, 0);
    assert!(cell.record(WaitOutcome::Exited { exit_code: Some(0), signal: None }, t));
    let exited = BackgroundProcessState::Exited { exit_code: Some(0), signal: None, finished_at: t };
    assert_eq!(cell.current(), exited);
    let later = Timestamp::since_epoch(11, 0);
    assert!(cell.record(WaitOutcome::WaitFailed { message: "boom".to_string() }, later));
    assert!(cell.record(WaitOutcome::Exited { exit_code: None, signal: Some(9) }, later));
    assert!(cell.record(WaitOutcome::StillRunning, later));
    assert_eq!(cell.current(), exited);
}

#[test]
fn wait_failure_is_terminal() {
    let mut cell = LifecycleCell::new();
    let t = Timestamp::since_epoch(3, 0);
    assert!(cell.record(WaitOutcome::WaitFailed { message: "no child".to_string() }, t));
    let failed = BackgroundProcessState::Failed { message: "no child".to_string(), finished_at: t };
    assert_eq!(cell.current(), failed);
    let later = Timestamp::since_epoch(4, 0);
    assert!(cell.record(WaitOutcome::Exited { exit_code: Some(1), signal: None }, later));
    assert_eq!(cell.current(), failed);
}

#[test]
fn killed_child_reports_signal() {
    let mut cell = LifecycleCell::new();
    let t = Timestamp::since_epoch(2, 0);
    cell.record(WaitOutcome::Exited { exit_code: None, signal: Some(9) }, t);
    let report = background_state_report(&cell.current());
    assert_eq!(report, StateReport::Exited { exit_code: None, signal: Some(9), finished_at_ms: Some(2_000) });
}

#[test]
fn kill_of_exited_child_succeeds() {
    let err = StartKillError { invalid_input: true, message: "can't kill an exited process".to_string() };
    assert_eq!(kill_result(Err(err)), Ok(()));
    assert_eq!(kill_result(Ok(())), Ok(()));
}

#[test]
fn other_kill_failures_surface() {
    let err = StartKillError { invalid_input: false, message: "permission denied".to_string() };
    assert_eq!(kill_result(Err(err)), Err(respond("permission denied")));
}

#[test]
fn function_errors_pass_through_verbatim() {
    let inner = respond("denied by policy");
    assert_eq!(error_to_function_call(ExecError::Function(inner)), respond("denied by policy"));
}

#[test]
fn other_exec_errors_are_wrapped() {
    let err = ExecError::Codex("Timeout".to_string());
    assert_eq!(error_to_function_call(err), respond("execution error: Timeout"));
}

#[test]
fn capture_errors_name_the_stream() {
    assert_eq!(capture_error(LogStream::Stdout), respond("failed to capture stdout"));
    assert_eq!(capture_error(LogStream::Stderr), respond("failed to capture stderr"));
}

#[test]
fn unknown_process_error_names_the_id() {
    let id = "nonexistent-id".to_string();
    assert_eq!(unknown_process_error(&id), respond("unknown background process: nonexistent-id"));
}

#[test]
fn decimal_numerals() {
    assert_eq!(decimal_text(0), "0");
    assert_eq!(decimal_text(7), "7");
    assert_eq!(decimal_text(10), "10");
    assert_eq!(decimal_text(1234567890), "1234567890");
    assert_eq!(decimal_text(u64::MAX), u64::MAX.to_string());
}

#[test]
fn process_ids_have_prefix() {
    assert_eq!(process_id(1), "bg-1");
    assert_eq!(process_id(42), "bg-42");
}

#[test]
fn identifiers_are_distinct_and_increasing() {
    let mut table: ProcessTable<u32> = ProcessTable::new();
    let first = table.allocate_id().unwrap();
    let second = table.allocate_id().unwrap();
    assert_eq!(first, "bg-1");
    assert_eq!(second, "bg-2");
    table.insert(first.clone(), 10);
    table.insert(second.clone(), 20);
    assert_eq!(table.handles(), &vec![10, 20]);
    assert_eq!(table.lookup(&first), Ok(&10));
    assert_eq!(table.lookup(&second), Ok(&20));
}

#[test]
fn identifiers_are_not_reused_after_failure() {
    let mut table: ProcessTable<u32> = ProcessTable::new();
    let abandoned = table.allocate_id().unwrap();
    let next = table.allocate_id().unwrap();
    assert_eq!(abandoned, "bg-1");
    assert_eq!(next, "bg-2");
    assert!(table.handles().is_empty());
    assert!(table.lookup(&abandoned).is_err());
}

#[test]
fn unknown_id_is_not_found() {
    let mut table: ProcessTable<u32> = ProcessTable::new();
    let missing = "nonexistent-id".to_string();
    assert_eq!(
        table.lookup(&missing),
        Err(respond("unknown background process: nonexistent-id"))
    );
    let id = table.allocate_id().unwrap();
    table.insert(id, 1);
    assert_eq!(
        table.lookup(&missing),
        Err(respond("unknown background process: nonexistent-id"))
    );
}

#[test]
fn insert_under_same_id_replaces() {
    let mut table: ProcessTable<u32> = ProcessTable::new();
    let first = table.allocate_id().unwrap();
    let second = table.allocate_id().unwrap();
    table.insert(first, 1);
    table.insert(second, 2);
    table.insert("bg-1".to_string(), 3);
    assert_eq!(table.handles(), &vec![3, 2]);
    assert_eq!(table.lookup(&"bg-1".to_string()), Ok(&3));
}

#[test]
fn hello_process_is_logged_and_exits_cleanly() {
    let mut log = ProcessLog::new();
    let mut cell = LifecycleCell::new();
    assert!(pump_step(&mut log, LogStream::Stdout, Some(b"hello\n".as_slice())));
    assert!(!pump_step(&mut log, LogStream::Stdout, Some(b"".as_slice())));
    assert!(!pump_step(&mut log, LogStream::Stderr, Some(b"".as_slice())));
    let t = Timestamp::since_epoch(100, 0);
    assert!(!cell.record(WaitOutcome::StillRunning, t));
    assert!(cell.record(WaitOutcome::Exited { exit_code: Some(0), signal: None }, t));
    match cell.current() {
        BackgroundProcessState::Exited { exit_code, signal, .. } => {
            assert_eq!(exit_code, Some(0));
            assert_eq!(signal, None);
        }
        other => panic!("unexpected state {other:?}"),
    }
    let rendered = log.rendered();
    assert_eq!(rendered.len(), 1);
    assert_eq!(rendered[0].stream, "stdout");
    assert_eq!(rendered[0].text, "hello\n");
}

#[test]
fn many_small_appends_are_all_kept() {
    let mut log = ProcessLog::new();
    for i in 0..100u32 {
        let stream = if i % 2 == 0 { LogStream::Stdout } else { LogStream::Stderr };
        log.append(stream, format!("line {i}\n").as_bytes());
    }
    let snap = log.snapshot();
    assert_eq!(snap.len(), 100);
    for (i, e) in snap.iter().enumerate() {
        assert_eq!(e.text, format!("line {i}\n"));
        let stream = if i % 2 == 0 { LogStream::Stdout } else { LogStream::Stderr };
        assert_eq!(e.stream, stream);
    }
}

#[test]
fn fresh_identifier_is_not_registered() {
    let mut table: ProcessTable<u32> = ProcessTable::new();
    let first = table.allocate_id().unwrap();
    table.insert(first.clone(), 7);
    assert_eq!(table.issued_count(), 1);
    let second = table.allocate_id().unwrap();
    assert_ne!(first, second);
    assert!(table.lookup(&second).is_err());
    assert_eq!(table.issued_count(), 2);
    assert_eq!(table.handles(), &vec![7]);
}
