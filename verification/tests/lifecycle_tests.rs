use neuraloc_core::events::{clear_event_streams, task_error, AppSnapshot, EventEnvelope, EventStreams};
use neuraloc_core::errors::AppError;
use neuraloc_core::lifecycle::{
    copy_summary, lifecycle_detail, probe_output, EngineLifecycle, LogBuffer, ProbeRun, ProcessSummary, ProcessTable, MAX_LOG_LINES,
};

#[test]
fn terminal_states_are_the_ended_ones() {
    for state in [EngineLifecycle::Stopped, EngineLifecycle::Crashed, EngineLifecycle::Error, EngineLifecycle::NotInstalled] {
        assert!(state.is_terminal());
    }
    for state in [EngineLifecycle::Starting, EngineLifecycle::Ready, EngineLifecycle::Busy, EngineLifecycle::Installed] {
        assert!(!state.is_terminal());
    }
    assert_eq!(lifecycle_detail(EngineLifecycle::Busy), "llama.cpp is processing a request.");
}

#[test]
fn log_buffer_keeps_the_newest_lines() {
    let mut buffer = LogBuffer::new();
    for i in 0..(MAX_LOG_LINES + 5) {
        buffer.push(format!("line {i}"));
    }
    assert_eq!(buffer.len(), MAX_LOG_LINES);
    let lines = buffer.lines();
    assert_eq!(lines[0], "line 5");
    assert_eq!(lines[MAX_LOG_LINES - 1], format!("line {}", MAX_LOG_LINES + 4));
}

#[test]
fn event_sequences_count_per_stream_and_restart_when_cleared() {
    let mut streams = EventStreams::new();
    assert_eq!(streams.next_sequence("chat://token", "job-1"), 1);
    assert_eq!(streams.next_sequence("chat://token", "job-1"), 2);
    assert_eq!(streams.next_sequence("chat://token", "job-2"), 1);
    assert_eq!(streams.next_sequence("chat://usage", "job-1"), 1);
    clear_event_streams(&mut streams, "job-1");
    assert_eq!(streams.next_sequence("chat://token", "job-1"), 1);
    assert_eq!(streams.next_sequence("chat://token", "job-2"), 2);
    let envelope = EventEnvelope::new(3, "payload", "2025-01-01T00:00:00Z".into());
    assert_eq!(envelope.sequence, 3);
    assert_eq!(envelope.payload, "payload");
}

#[test]
fn task_errors_and_snapshots_have_fixed_shapes() {
    let error = task_error("join failed");
    assert_eq!(error.code, "operation_error");
    assert_eq!(error.message, "The operation could not be completed: the background model task stopped unexpectedly: join failed");
    let snapshot = AppSnapshot::new("0.1.0", 1, 2);
    assert!(snapshot.database_ready);
    assert!(!snapshot.first_run_complete);
    assert_eq!(snapshot.running_engines, 1);
    assert_eq!(snapshot.active_jobs, 2);
}

#[test]
fn captured_output_is_tagged_with_its_stream() {
    let mut buffer = LogBuffer::new();
    buffer.capture("stderr", "bind failed");
    assert_eq!(buffer.lines(), vec!["[stderr] bind failed".to_string()]);
}

#[test]
fn captured_lines_are_cut_to_sixteen_kib_at_a_character() {
    let mut buffer = LogBuffer::new();
    buffer.capture("stdout", &"x".repeat(20_000));
    let stored = buffer.lines().pop().unwrap();
    assert_eq!(stored.len(), 16_384);
    assert!(stored.starts_with("[stdout] xx"));
    buffer.capture("stderr", &"é".repeat(9_000));
    let stored = buffer.lines().pop().unwrap();
    assert_eq!(stored.len(), 16_383);
    assert_eq!(stored.chars().count(), 9 + 8_187);
}

fn summary(id: &str) -> ProcessSummary {
    ProcessSummary {
        id: id.into(),
        label: "llama.cpp CPU server".into(),
        pid: Some(41),
        state: EngineLifecycle::Starting,
        started_at: "2024-01-01T00:00:00Z".into(),
        ended_at: None,
        exit_code: None,
    }
}

#[test]
fn owned_processes_are_held_by_id_until_removed() {
    let mut table: ProcessTable<&str> = ProcessTable::new();
    assert!(table.insert(summary("p1"), "child-1").is_none());
    assert!(table.insert(summary("p2"), "child-2").is_none());
    assert_eq!(table.handle("p1"), Some(&"child-1"));
    assert!(table.set_state("p1", EngineLifecycle::Ready));
    assert_eq!(table.summary("p1").map(|s| s.state), Some(EngineLifecycle::Ready));
    assert!(!table.set_state("p9", EngineLifecycle::Ready));
    assert!(table.record_exit("p2", EngineLifecycle::Crashed, Some(3), "later".into()));
    let ended = table.summary("p2").unwrap();
    assert_eq!((ended.state, ended.exit_code, ended.ended_at.as_deref()), (EngineLifecycle::Crashed, Some(3), Some("later")));
    let all = table.summaries();
    assert_eq!(all.iter().map(|s| s.id.as_str()).collect::<Vec<_>>(), vec!["p1", "p2"]);
    let (removed, handle) = table.remove("p1").unwrap();
    assert_eq!((removed.id.as_str(), handle), ("p1", "child-1"));
    assert_eq!(table.remove("p1").unwrap_err(), AppError::Process("owned process p1 was not found".into()));
    assert!(table.summary("p1").is_none());
    let (replaced, old_handle) = table.insert(summary("p2"), "child-3").unwrap();
    assert_eq!((replaced.state, old_handle), (EngineLifecycle::Crashed, "child-2"));
    assert_eq!(table.summaries().len(), 1);
    assert_eq!(copy_summary(&summary("p7")), summary("p7"));
}

#[test]
fn probe_commands_yield_trimmed_output_or_a_named_failure() {
    assert_eq!(probe_output("nvidia-smi.exe", ProbeRun::Succeeded(b"  GPU, 1\r\n".to_vec())), Ok("GPU, 1".into()));
    assert_eq!(
        probe_output("nvidia-smi.exe", ProbeRun::TimedOut),
        Err(AppError::Probe("nvidia-smi.exe timed out".into()))
    );
    assert_eq!(
        probe_output("pnputil.exe", ProbeRun::NotStarted("not found".into())),
        Err(AppError::Probe("pnputil.exe could not start: not found".into()))
    );
    assert_eq!(
        probe_output("pnputil.exe", ProbeRun::Failed("exit code: 2".into())),
        Err(AppError::Probe("pnputil.exe exited with exit code: 2".into()))
    );
    assert_eq!(probe_output("x", ProbeRun::Succeeded(vec![0x61, 0xff])), Ok("a\u{fffd}".into()));
}
