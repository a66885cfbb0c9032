use ingest_core::config::{
    default_events_per_line, default_exec_interval_secs, default_include_stderr,
    default_maximum_buffer_size, default_respawn_interval_secs, default_respawn_on_exit,
    ExecConfig, ExecConfigError, Mode, ScheduledConfig, StreamingConfig,
};
use ingest_core::event::{create_event, Value};
use ingest_core::exec::{
    build_command, handle_exit_status, reader_frames, runner_events, scheduled_tick,
    streaming_step, RunOutcome, SourcePlan, StdioSpec, StreamingDecision, StreamingEvent,
    StreamingState, StreamTag, Telemetry,
};

fn standard_scheduled_test_config() -> ExecConfig {
    Default::default()
}

fn standard_streaming_test_config() -> ExecConfig {
    ExecConfig {
        mode: Mode::Streaming,
        scheduled: None,
        streaming: Some(StreamingConfig {
            respawn_on_exit: default_respawn_on_exit(),
            respawn_interval_secs: default_respawn_interval_secs(),
        }),
        command: vec!["yes".to_owned()],
        working_directory: None,
        include_stderr: default_include_stderr(),
        event_per_line: default_events_per_line(),
        maximum_buffer_size_bytes: default_maximum_buffer_size(),
    }
}

#[test]
fn test_generate_config() {
    let config = ExecConfig::default();
    assert!(matches!(config.mode, Mode::Scheduled));
    assert_eq!(
        config.scheduled,
        Some(ScheduledConfig { exec_interval_secs: default_exec_interval_secs() })
    );
    assert_eq!(config.command, vec!["echo".to_owned(), "Hello World!".to_owned()]);
    assert_eq!(config.maximum_buffer_size_bytes, 1000000);
    assert!(config.include_stderr);
    assert!(config.event_per_line);
    assert!(config.validate().is_ok());
}

#[test]
fn test_scheduled_create_event() {
    let config = standard_scheduled_test_config();
    let hostname = Some("Some.Machine".to_string());
    let line = b"hello world".to_vec();
    let data_stream = Some("stdout".to_string());
    let pid = Some(8888_u32);

    let event = create_event(&config, &hostname, line, &data_stream, pid);
    let log = event.into_log();

    assert_eq!(log.get("host"), Some(&Value::Text("Some.Machine".to_string())));
    assert_eq!(log.get("stream"), Some(&Value::Text("stdout".to_string())));
    assert_eq!(log.get("pid"), Some(&Value::Integer(8888_i64)));
    assert_eq!(log.get("command"), Some(&Value::Strings(config.command.clone())));
    assert_eq!(log.get("message"), Some(&Value::Bytes(b"hello world".to_vec())));
    assert_eq!(log.get("source_type"), Some(&Value::Text("exec".to_string())));
    assert!(matches!(log.get("timestamp"), Some(Value::Timestamp(_))));
}

#[test]
fn test_streaming_create_event() {
    let config = standard_streaming_test_config();
    let hostname = Some("Some.Machine".to_string());
    let line = b"hello world".to_vec();
    let data_stream = Some("stdout".to_string());
    let pid = Some(8888_u32);

    let event = create_event(&config, &hostname, line, &data_stream, pid);
    let log = event.into_log();

    assert_eq!(log.get("host"), Some(&Value::Text("Some.Machine".to_string())));
    assert_eq!(log.get("stream"), Some(&Value::Text("stdout".to_string())));
    assert_eq!(log.get("pid"), Some(&Value::Integer(8888_i64)));
    assert_eq!(log.get("command"), Some(&Value::Strings(config.command.clone())));
    assert_eq!(log.get("message"), Some(&Value::Bytes(b"hello world".to_vec())));
    assert_eq!(log.get("source_type"), Some(&Value::Text("exec".to_string())));
    assert!(matches!(log.get("timestamp"), Some(Value::Timestamp(_))));
}

#[test]
fn test_build_command() {
    let config = ExecConfig {
        mode: Mode::Streaming,
        scheduled: None,
        streaming: Some(StreamingConfig {
            respawn_on_exit: default_respawn_on_exit(),
            respawn_interval_secs: default_respawn_interval_secs(),
        }),
        command: vec!["./runner".to_owned(), "arg1".to_owned(), "arg2".to_owned()],
        working_directory: Some("/tmp".to_owned()),
        include_stderr: default_include_stderr(),
        event_per_line: default_events_per_line(),
        maximum_buffer_size_bytes: default_maximum_buffer_size(),
    };

    let command = build_command(&config);

    assert_eq!(command.program, "./runner".to_owned());
    assert_eq!(command.args, vec!["arg1".to_owned(), "arg2".to_owned()]);
    assert_eq!(command.working_directory, Some("/tmp".to_owned()));
    assert!(command.kill_on_drop);
    assert_eq!(command.stdin, StdioSpec::Null);
    assert_eq!(command.stdout, StdioSpec::Piped);
    assert_eq!(command.stderr, StdioSpec::Piped);
}

#[test]
fn test_spawn_reader_thread_per_line() {
    let buf = "hello world\nhello rocket 🚀";
    let out = reader_frames(buf.as_bytes(), true, 88888, StreamTag::Stdout);

    let mut counter = 0;
    if let Some((line, stream)) = out.get(0) {
        assert_eq!(b"hello world".to_vec(), *line);
        assert_eq!(StreamTag::Stdout, *stream);
        counter += 1;
    }
    if let Some((line, stream)) = out.get(1) {
        assert_eq!("hello rocket 🚀".as_bytes().to_vec(), *line);
        assert_eq!(StreamTag::Stdout, *stream);
        counter += 1;
    }
    assert_eq!(counter, 2);
    assert_eq!(out.len(), 2);
}

#[test]
fn test_spawn_reader_thread_per_line_tiny_buffer() {
    let buf = "hello\nhello world\nok\n";
    let out = reader_frames(buf.as_bytes(), true, 6, StreamTag::Stdout);

    let mut counter = 0;
    if let Some((line, stream)) = out.get(0) {
        assert_eq!(b"hello".to_vec(), *line);
        assert_eq!(StreamTag::Stdout, *stream);
        counter += 1;
    }
    if let Some((line, stream)) = out.get(1) {
        assert_eq!(b"ok".to_vec(), *line);
        assert_eq!(StreamTag::Stdout, *stream);
        counter += 1;
    }
    // We should get two lines as the middle one is discarded for being too long
    assert_eq!(counter, 2);
    assert_eq!(out.len(), 2);
}

#[test]
fn test_spawn_reader_thread_per_blob() {
    let buf = "hello world\nhello rocket 🚀";
    let out = reader_frames(buf.as_bytes(), false, 88888, StreamTag::Stdout);

    let mut counter = 0;
    if let Some((line, stream)) = out.get(0) {
        assert_eq!("hello world\nhello rocket 🚀".as_bytes().to_vec(), *line);
        assert_eq!(StreamTag::Stdout, *stream);
        counter += 1;
    }
    assert_eq!(counter, 1);
    assert_eq!(out.len(), 1);
}

#[test]
fn test_spawn_reader_thread_per_blob_tiny_buffer() {
    let buf = "stream 🐟 888";
    let out = reader_frames(buf.as_bytes(), false, 6, StreamTag::Stdout);

    let mut counter = 0;
    if let Some((line, stream)) = out.get(0) {
        assert_eq!(b"stream".to_vec(), *line);
        assert_eq!(StreamTag::Stdout, *stream);
        counter += 1;
    }
    if let Some((line, stream)) = out.get(1) {
        assert_eq!(" 🐟 ".as_bytes().to_vec(), *line);
        assert_eq!(StreamTag::Stdout, *stream);
        counter += 1;
    }
    if let Some((line, stream)) = out.get(2) {
        assert_eq!(b"888".to_vec(), *line);
        assert_eq!(StreamTag::Stdout, *stream);
        counter += 1;
    }
    assert_eq!(counter, 3);
    assert_eq!(out.len(), 3);
}

#[test]
fn validate_rejects_empty_command() {
    let mut config = standard_scheduled_test_config();
    config.command = vec![];
    assert_eq!(config.validate(), Err(ExecConfigError::CommandEmpty));
    assert_eq!(
        ExecConfigError::CommandEmpty.message(),
        "A non-empty list for command must be provided"
    );
}

#[test]
fn validate_rejects_zero_buffer() {
    let mut config = standard_scheduled_test_config();
    config.maximum_buffer_size_bytes = 0;
    assert_eq!(config.validate(), Err(ExecConfigError::ZeroBuffer));
    assert_eq!(
        ExecConfigError::ZeroBuffer.message(),
        "The maximum buffer size must be greater than zero"
    );
}

#[test]
fn command_line_joins_with_spaces() {
    let config = standard_scheduled_test_config();
    assert_eq!(config.command_line(), "echo Hello World!".to_owned());
    let single = standard_streaming_test_config();
    assert_eq!(single.command_line(), "yes".to_owned());
}

#[test]
fn build_resolves_scheduled_plan() {
    let config = standard_scheduled_test_config();
    assert_eq!(config.build(), Ok(SourcePlan::Scheduled { exec_interval_secs: 60 }));
    let mut bare = config.clone();
    bare.scheduled = None;
    assert_eq!(bare.build(), Ok(SourcePlan::Scheduled { exec_interval_secs: 60 }));
}

#[test]
fn build_resolves_streaming_plan() {
    let config = standard_streaming_test_config();
    assert_eq!(
        config.build(),
        Ok(SourcePlan::Streaming { respawn_on_exit: true, respawn_interval_secs: 5 })
    );
    let mut invalid = config.clone();
    invalid.command = vec![];
    assert_eq!(invalid.build(), Err(ExecConfigError::CommandEmpty));
}

#[test]
fn scheduled_tick_emits_timeout_and_failure() {
    let config = standard_scheduled_test_config();
    match scheduled_tick(&config, &RunOutcome::TimedOut, 60) {
        Some(Telemetry::ExecTimeout { command_line, elapsed_seconds }) => {
            assert_eq!(command_line, "echo Hello World!".to_owned());
            assert_eq!(elapsed_seconds, 60);
        }
        other => panic!("unexpected telemetry: {:?}", other),
    }
    match scheduled_tick(&config, &RunOutcome::Failed("spawn failed".to_owned()), 60) {
        Some(Telemetry::ExecFailed { command_line, error }) => {
            assert_eq!(command_line, "echo Hello World!".to_owned());
            assert_eq!(error, "spawn failed".to_owned());
        }
        other => panic!("unexpected telemetry: {:?}", other),
    }
    assert!(scheduled_tick(&config, &RunOutcome::Completed(Some(0)), 60).is_none());
}

#[test]
fn handle_exit_status_records_run() {
    let config = standard_scheduled_test_config();
    match handle_exit_status(&config, Some(0), 123) {
        Telemetry::ExecCommandExecuted { command_line, exit_status, exec_duration_ms } => {
            assert_eq!(command_line, "echo Hello World!".to_owned());
            assert_eq!(exit_status, Some(0));
            assert_eq!(exec_duration_ms, 123);
        }
        other => panic!("unexpected telemetry: {:?}", other),
    }
}

#[test]
fn runner_events_preserve_order_and_tags() {
    let config = standard_scheduled_test_config();
    let hostname = Some("Some.Machine".to_string());
    let frames = vec![
        (b"one".to_vec(), StreamTag::Stdout),
        (b"two".to_vec(), StreamTag::Stderr),
        (b"three".to_vec(), StreamTag::Stdout),
    ];
    let events = runner_events(&config, &hostname, &frames, Some(42));
    assert_eq!(events.len(), 3);

    let log = events[0].as_log();
    assert_eq!(log.get("message"), Some(&Value::Bytes(b"one".to_vec())));
    assert_eq!(log.get("stream"), Some(&Value::Text("stdout".to_string())));
    let log = events[1].as_log();
    assert_eq!(log.get("message"), Some(&Value::Bytes(b"two".to_vec())));
    assert_eq!(log.get("stream"), Some(&Value::Text("stderr".to_string())));
    assert_eq!(log.get("pid"), Some(&Value::Integer(42)));
    let log = events[2].as_log();
    assert_eq!(log.get("message"), Some(&Value::Bytes(b"three".to_vec())));
}

#[test]
fn event_field_count_matches_populated_categories() {
    let config = standard_scheduled_test_config();

    let ev = create_event(&config, &None, b"m".to_vec(), &None, None);
    let log = ev.into_log();
    assert_eq!(log.field_count(), 4);
    assert_eq!(log.get("stream"), None);
    assert_eq!(log.get("pid"), None);
    assert_eq!(log.get("host"), None);

    let ev = create_event(
        &config,
        &Some("h".to_string()),
        b"m".to_vec(),
        &Some("stdout".to_string()),
        Some(1),
    );
    assert_eq!(ev.into_log().field_count(), 7);
}

#[test]
fn streaming_step_respawns_until_shutdown() {
    let config = standard_streaming_test_config();
    let d: StreamingDecision =
        streaming_step(&config, StreamingState::Running, &StreamingEvent::RunnerDone(None), true, true);
    assert_eq!(d.next, StreamingState::Cooldown);
    assert!(d.telemetry.is_none());
    assert!(d.log_early_end);

    let d = streaming_step(
        &config,
        StreamingState::Running,
        &StreamingEvent::RunnerDone(Some("io error".to_owned())),
        false,
        false,
    );
    assert_eq!(d.next, StreamingState::Terminated);
    assert!(matches!(d.telemetry, Some(Telemetry::ExecFailed { .. })));
    assert!(!d.log_early_end);

    let d = streaming_step(&config, StreamingState::Cooldown, &StreamingEvent::CooldownElapsed, true, false);
    assert_eq!(d.next, StreamingState::Running);

    let d = streaming_step(&config, StreamingState::Cooldown, &StreamingEvent::Shutdown, true, false);
    assert_eq!(d.next, StreamingState::Terminated);
    let d = streaming_step(&config, StreamingState::Running, &StreamingEvent::Shutdown, true, false);
    assert_eq!(d.next, StreamingState::Terminated);
}
