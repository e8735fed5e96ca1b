use neuraloc_core::engines::{
    build_chat_payload, identity_fields, insert_entry, keys_in_order, GenerationJobs, chat_http_failure, chat_payload_from, ChatRequest, check_model_is_file, check_model_link, check_model_path,
    check_response_length, ResponseTally, check_adapter_start, check_runtime_package, check_startup_process,
    bounded_number, build_server_args, cancel_error, check_generation_start, check_identity_status,
    check_ownership_challenge, ended_session_health, health_from_status, process_needs_stop, startup_exit_error,
    startup_health, StartAttempts, monitor_done, monitor_follows, LogCursor, check_log_session, check_start_allowed, check_stop_session, idle_status,
    is_done_marker, normalize_windows_path, same_windows_path, session_status, start_context_size, start_options,
    stream_text, update_usage, validate_props_identity, version_matches, CurrentModel, GenerationStream,
    LlamaCppSnapshot, SseLineDecoder, StreamEvent, Usage, LLAMA_CPP_CPU_PACKAGE_ID,
};
use neuraloc_core::errors::AppError;
use neuraloc_core::lifecycle::{EngineLifecycle, ProcessSummary};

#[test]
fn accepts_pinned_version_output_and_rejects_other_builds() {
    assert!(version_matches("llama.cpp version: 9986 (abcdef)", "b9986"));
    assert!(version_matches("build_info=b9986-deadbeef", "b9986"));
    assert!(!version_matches("llama.cpp version: 9985", "b9986"));
}

fn options(pairs: &[(&str, &str)]) -> Vec<(String, String)> {
    pairs.iter().map(|(k, v)| (k.to_string(), v.to_string())).collect()
}

#[test]
fn server_arguments_are_fixed_and_options_are_bounded() {
    let path = r"C:\models\tiny.gguf";
    let args = build_server_args(path, 32123, &options(&[("context_size", "4096"), ("threads", "8")])).unwrap();
    assert!(args.windows(2).any(|pair| pair == ["--host", "127.0.0.1"]));
    assert!(args.windows(2).any(|pair| pair == ["--gpu-layers", "0"]));
    assert!(!args.iter().any(|value| value.contains("api")));
    assert!(build_server_args(path, 32123, &options(&[("context_size", "2")])).is_err());
    assert!(build_server_args(path, 32123, &options(&[("arbitrary_flag", "value")])).is_err());
}

#[test]
fn validates_props_model_and_build_identity() {
    let model = r"C:\Users\tester\AppData\Local\Temp\fixture.gguf";
    assert!(validate_props_identity(Some(model), model, Some("b9986-abcdef"), "b9986").is_ok());
    assert!(validate_props_identity(Some(model), model, Some("b9986-abcdef"), "b9985").is_err());
}

#[test]
fn identity_compares_canonical_paths_without_case_or_verbatim_prefix() {
    assert!(same_windows_path(r"\\?\C:\Models\Tiny.gguf", r"c:\models\tiny.gguf"));
    assert_eq!(normalize_windows_path(r"\\?\UNC\server\share\m.gguf"), r"\\server\share\m.gguf");
    assert_eq!(
        validate_props_identity(Some(r"C:\other.gguf"), r"C:\model.gguf", Some("b9986"), "b9986"),
        Err(AppError::Engine("the loopback endpoint reported a different loaded model".into()))
    );
    assert_eq!(
        validate_props_identity(None, r"C:\model.gguf", Some("b9986"), "b9986"),
        Err(AppError::Engine("llama.cpp did not report its loaded model path".into()))
    );
    assert_eq!(
        validate_props_identity(Some(r"C:\model.gguf"), r"C:\model.gguf", Some("b9985"), "b9986"),
        Err(AppError::Engine("the loopback endpoint is not llama.cpp b9986".into()))
    );
}

fn event_from_json(text: &str) -> StreamEvent {
    let value: serde_json::Value = serde_json::from_str(text).unwrap();
    let choice = value.get("choices").and_then(|c| c.get(0));
    StreamEvent {
        delta_content: choice
            .and_then(|c| c.get("delta"))
            .and_then(|d| d.get("content"))
            .and_then(|c| c.as_str())
            .map(str::to_string),
        choice_text: choice.and_then(|c| c.get("text")).and_then(|t| t.as_str()).map(str::to_string),
        usage_prompt_tokens: value.pointer("/usage/prompt_tokens").and_then(|v| v.as_u64()),
        timings_prompt_n: value.pointer("/timings/prompt_n").and_then(|v| v.as_u64()),
        usage_completion_tokens: value.pointer("/usage/completion_tokens").and_then(|v| v.as_u64()),
        timings_predicted_n: value.pointer("/timings/predicted_n").and_then(|v| v.as_u64()),
        predicted_per_second_bits: value
            .pointer("/timings/predicted_per_second")
            .and_then(|v| v.as_f64())
            .map(|rate| rate.to_bits()),
    }
}

#[test]
fn decodes_split_sse_lines_and_usage() {
    let mut decoder = SseLineDecoder::new();
    assert!(decoder.push(b"data: {\"choices\":[{\"del").unwrap().is_empty());
    let lines = decoder.push(b"ta\":{\"content\":\"Hello\"}}]}\r\ndata: [DONE]\n\n").unwrap();
    assert_eq!(lines.len(), 2);
    let event = event_from_json(&lines[0]);
    assert_eq!(stream_text(&event), Some("Hello".to_string()));
    assert_eq!(lines[1], "[DONE]");
    assert!(is_done_marker(&lines[1]));

    let mut usage = Usage { prompt_tokens: 0, output_tokens: 0, tokens_per_second_bits: 0.0f64.to_bits() };
    update_usage(
        &event_from_json(
            "{\"usage\": {\"prompt_tokens\": 12, \"completion_tokens\": 4}, \"timings\": {\"predicted_per_second\": 23.5}}",
        ),
        &mut usage,
    );
    assert_eq!(usage.prompt_tokens, 12);
    assert_eq!(usage.output_tokens, 4);
    assert_eq!(f64::from_bits(usage.tokens_per_second_bits) as f32, 23.5);
}

#[test]
fn decoder_refuses_invalid_utf8_and_keeps_its_buffer() {
    let mut decoder = SseLineDecoder::new();
    assert!(decoder.push(b"data: partial").unwrap().is_empty());
    assert_eq!(
        decoder.push(b"\xff\n"),
        Err(AppError::Engine("llama.cpp returned a non-UTF-8 stream event".into()))
    );
    let lines = decoder.push(b" line\n").unwrap();
    assert_eq!(lines, vec!["partial line".to_string()]);
    assert!(decoder.finish().unwrap().is_empty());
}

#[test]
fn decoding_does_not_depend_on_chunking() {
    let stream = b"event: x\ndata: one\r\n\ndata:two\ndata: three";
    let mut whole = SseLineDecoder::new();
    let mut all = whole.push(stream).unwrap();
    all.extend(whole.finish().unwrap());
    let mut split = SseLineDecoder::new();
    let mut pieces = Vec::new();
    for byte in stream.iter() {
        pieces.extend(split.push(&[*byte]).unwrap());
    }
    pieces.extend(split.finish().unwrap());
    assert_eq!(all, pieces);
    assert_eq!(all, vec!["one".to_string(), "two".to_string(), "three".to_string()]);
}

#[test]
fn generation_stream_numbers_chunks_and_requires_the_marker() {
    let mut stream = GenerationStream::new("job-1".into());
    let chunk = stream.record(&event_from_json("{\"choices\":[{\"delta\":{\"content\":\"Hi\"}}]}")).unwrap().unwrap();
    assert_eq!(chunk.sequence, 1);
    assert_eq!(chunk.text, "Hi");
    assert!(stream.record(&event_from_json("{\"choices\":[{\"delta\":{}}]}")).unwrap().is_none());
    assert_eq!(stream.finish(), Err(AppError::Engine("llama.cpp ended the chat stream before its terminal event".into())));
    stream.mark_done();
    stream.record_trailing(&event_from_json("{\"usage\": {\"prompt_tokens\": 3, \"completion_tokens\": 1}}"));
    let usage = stream.finish().unwrap();
    assert_eq!(usage.prompt_tokens, 3);
    assert_eq!(usage.output_tokens, 1);
}

#[test]
fn numeric_options_are_parsed_and_bounded() {
    assert_eq!(bounded_number("4096", "context size", 256, 4096), Ok(4096));
    assert_eq!(
        bounded_number("2", "context size", 256, 4096),
        Err(AppError::Engine("the context size must be between 256 and 4096".into()))
    );
    assert_eq!(bounded_number("x", "thread count", 1, 64), Err(AppError::Engine("the thread count is invalid".into())));
}

#[test]
fn session_start_uses_the_requested_or_clamped_context() {
    assert_eq!(start_context_size(Some(1024), Some(32768)), 1024);
    assert_eq!(start_context_size(None, Some(32768)), 4096);
    assert_eq!(start_context_size(None, Some(128)), 256);
    assert_eq!(start_context_size(None, None), 4096);
    assert_eq!(
        start_options(2048, Some(8)),
        options(&[("context_size", "2048"), ("threads", "8")])
    );
    assert_eq!(start_options(2048, None), options(&[("context_size", "2048")]));
}

fn snapshot(state: EngineLifecycle) -> LlamaCppSnapshot {
    LlamaCppSnapshot {
        session_id: "session-1".into(),
        process_id: "process-1".into(),
        model_path: r"C:\Models\Tiny.gguf".into(),
        backend_version: "b9986".into(),
        context_size: 4096,
        process: ProcessSummary {
            id: "process-1".into(),
            label: "llama.cpp".into(),
            pid: Some(42),
            state,
            started_at: "2025-01-01T00:00:00Z".into(),
            ended_at: None,
            exit_code: None,
        },
    }
}

#[test]
fn runtime_status_reports_the_package_or_the_session() {
    let idle = idle_status(true);
    assert_eq!(idle.lifecycle, EngineLifecycle::Installed);
    assert_eq!(idle.package_id, LLAMA_CPP_CPU_PACKAGE_ID);
    assert_eq!(idle.detail, "The verified llama.cpp CPU runtime is available.");
    let missing = idle_status(false);
    assert_eq!(missing.lifecycle, EngineLifecycle::NotInstalled);
    assert_eq!(missing.detail, "Install and verify the llama.cpp CPU runtime to load a model.");

    let model = CurrentModel { id: "model-1".into(), name: "Tiny".into(), path: r"\\?\c:\models\tiny.gguf".into() };
    let status = session_status(snapshot(EngineLifecycle::Ready), Some(model));
    assert_eq!(status.session_id.as_deref(), Some("session-1"));
    assert_eq!(status.model_id.as_deref(), Some("model-1"));
    assert_eq!(status.pid, Some(42));
    assert_eq!(status.context_size, Some(4096));
    assert_eq!(idle.context_size, None);
    assert_eq!(status.detail, "The GGUF model is loaded and the loopback identity is verified.");
    let other = CurrentModel { id: "model-2".into(), name: "Other".into(), path: r"C:\Models\Other.gguf".into() };
    let status = session_status(snapshot(EngineLifecycle::Stopped), Some(other));
    assert_eq!(status.model_id, None);
    assert_eq!(status.detail, "The llama.cpp session is stopped; retained logs remain available.");
}

#[test]
fn session_requests_must_name_the_held_session() {
    assert_eq!(
        check_start_allowed(Some(EngineLifecycle::Ready), "model-1"),
        Err(AppError::Engine("stop the active llama.cpp session before loading another model".into()))
    );
    assert!(check_start_allowed(Some(EngineLifecycle::Crashed), "model-1").is_ok());
    assert_eq!(check_start_allowed(None, "  "), Err(AppError::Engine("the model ID is invalid".into())));
    assert_eq!(
        check_stop_session(None, "session-1"),
        Err(AppError::Engine("there is no llama.cpp session to stop".into()))
    );
    assert_eq!(
        check_stop_session(Some("session-2"), "session-1"),
        Err(AppError::Engine("llama.cpp session session-1 is not active".into()))
    );
    assert!(check_stop_session(Some("session-1"), "session-1").is_ok());
    assert_eq!(
        check_log_session(Some("session-2"), "session-1"),
        Err(AppError::Engine("llama.cpp session session-1 is not retained".into()))
    );
}

#[test]
fn log_cursor_sends_new_lines_in_batches_of_one_hundred() {
    let lines: Vec<String> = (0..250).map(|i| format!("line {i}")).collect();
    let mut cursor = LogCursor::new();
    let first = cursor.next_batch(&lines);
    assert_eq!(first.len(), 100);
    assert_eq!(first[0], "line 0");
    assert_eq!(cursor.next_batch(&lines)[0], "line 100");
    let last = cursor.next_batch(&lines);
    assert_eq!(last.len(), 50);
    assert_eq!(cursor.emitted, 250);
    assert!(cursor.next_batch(&lines).is_empty());
    let shorter: Vec<String> = lines[..10].to_vec();
    assert_eq!(cursor.next_batch(&shorter).len(), 10);
    assert!(monitor_follows(Some("session-1"), "session-1"));
    assert!(!monitor_follows(None, "session-1"));
    assert!(monitor_done(EngineLifecycle::Crashed, 10, 10));
    assert!(!monitor_done(EngineLifecycle::Crashed, 9, 10));
    assert!(!monitor_done(EngineLifecycle::NotInstalled, 10, 10));
}

#[test]
fn session_control_decisions() {
    assert_eq!(startup_health(Some(200), "200 OK", false), Ok(true));
    assert_eq!(startup_health(Some(503), "503 Service Unavailable", false), Ok(false));
    assert_eq!(startup_health(None, "", false), Ok(false));
    assert_eq!(
        startup_health(None, "", true),
        Err(AppError::Engine("llama.cpp did not become ready within 120 seconds".into()))
    );
    assert_eq!(
        startup_health(Some(404), "404 Not Found", false),
        Err(AppError::Engine("llama.cpp health returned HTTP 404 Not Found".into()))
    );
    assert!(check_ownership_challenge(401).is_ok());
    assert!(check_ownership_challenge(200).is_err());
    assert!(check_identity_status(false, "500 Internal Server Error").is_err());
    assert_eq!(
        startup_exit_error(Some(-1), Some("bind failed")),
        AppError::Engine("llama.cpp exited during startup with Some(-1): bind failed".into())
    );
    assert_eq!(
        startup_exit_error(None, None),
        AppError::Engine("llama.cpp exited during startup with None: no diagnostic output was captured".into())
    );
    assert_eq!(ended_session_health(EngineLifecycle::Crashed).detail, "llama.cpp is Crashed");
    assert!(health_from_status(true, "200 OK").ready);
    assert_eq!(health_from_status(false, "503 Service Unavailable").detail, "llama.cpp health returned HTTP 503 Service Unavailable");
    assert_eq!(
        check_generation_start(true, Some(EngineLifecycle::Busy), 0),
        Err(AppError::Engine("the llama.cpp model session is not ready".into()))
    );
    assert_eq!(
        check_generation_start(true, Some(EngineLifecycle::Ready), 1),
        Err(AppError::Engine("another chat generation is already active".into()))
    );
    assert!(check_generation_start(true, Some(EngineLifecycle::Ready), 0).is_ok());
    assert!(process_needs_stop(Some(EngineLifecycle::Ready)));
    assert!(!process_needs_stop(Some(EngineLifecycle::Stopped)));
    assert_eq!(cancel_error("job-1", false), AppError::Engine("chat job job-1 is not active".into()));
}

#[test]
fn port_attempts_retry_only_bind_failures() {
    let mut attempts = StartAttempts::new();
    let bind = AppError::Engine("bind".into());
    assert!(attempts.may_try());
    assert_eq!(attempts.record_failure(bind.clone(), true), Ok(()));
    assert_eq!(attempts.record_failure(bind.clone(), true), Ok(()));
    assert_eq!(attempts.record_failure(bind.clone(), true), Ok(()));
    assert!(!attempts.may_try());
    assert_eq!(attempts.exhausted(), bind);
    let mut other = StartAttempts::new();
    let failure = AppError::Engine("crashed".into());
    assert_eq!(other.record_failure(failure.clone(), false), Err(failure));
    assert_eq!(
        StartAttempts::new().exhausted(),
        AppError::Engine("llama.cpp could not claim a reserved loopback port".into())
    );
}

use neuraloc_core::engines::{
    check_model_ready, check_start_device, check_version_probe, engine_id, join_with_newlines, llama_capabilities,
    logs_show_bind_failure, validate_chat_request,
};
use neuraloc_core::models::catalog::VerificationState;

#[test]
fn adapter_identity_requests_and_probes() {
    assert_eq!(engine_id(), "llama.cpp");
    let caps = llama_capabilities();
    assert_eq!(caps.workloads, vec!["chat".to_string()]);
    assert_eq!(caps.devices, vec!["cpu".to_string()]);
    assert_eq!(caps.formats, vec!["gguf".to_string()]);
    assert!(validate_chat_request("job-1", 512).is_ok());
    assert_eq!(validate_chat_request(" ", 512), Err(AppError::Engine("the chat job ID is invalid".into())));
    assert_eq!(
        validate_chat_request("job-1", 0),
        Err(AppError::Engine("maximum output tokens must be between 1 and 4096".into()))
    );
    assert!(check_start_device("cpu").is_ok());
    assert!(check_start_device("cuda:0").is_err());
    let lines = vec!["[stderr] main: server is listening".to_string(), "[stderr] Bind failed: port".to_string()];
    assert!(logs_show_bind_failure(&lines));
    assert!(!logs_show_bind_failure(&lines[..1]));
    assert_eq!(join_with_newlines(&lines), "[stderr] main: server is listening\n[stderr] Bind failed: port");
    let probe = vec!["version: 9986 (abcdef)".to_string()];
    assert!(check_version_probe("LLAMA-SERVER.EXE", &probe, "b9986").is_ok());
    assert_eq!(
        check_version_probe("llama-cli.exe", &probe, "b9986"),
        Err(AppError::Engine("the verified package does not contain llama-server.exe at its expected path".into()))
    );
    assert_eq!(
        check_version_probe("llama-server.exe", &probe, "b9985"),
        Err(AppError::Engine("llama.cpp reported an unexpected version; expected b9985".into()))
    );
    assert!(check_model_ready(VerificationState::Ready, None).is_ok());
    assert_eq!(
        check_model_ready(VerificationState::Invalid, Some("bad header".into())),
        Err(AppError::Engine("bad header".into()))
    );
    assert_eq!(
        check_model_ready(VerificationState::MetadataPending, None),
        Err(AppError::Engine("the selected GGUF model is not ready".into()))
    );
}

fn chat_request(messages_json: &str, max_output_tokens: u32) -> ChatRequest {
    ChatRequest { job_id: "payload-test".into(), messages_json: messages_json.into(), max_output_tokens }
}

#[test]
fn disables_thinking_in_chat_payloads() {
    let payload = build_chat_payload(&chat_request("[{\"content\":\"Hello\",\"role\":\"user\"}]", 512)).unwrap();
    let payload: serde_json::Value = serde_json::from_slice(&payload).unwrap();
    assert_eq!(
        payload.pointer("/chat_template_kwargs/enable_thinking"),
        Some(&serde_json::Value::Bool(false))
    );
    assert_eq!(payload.pointer("/max_tokens").and_then(serde_json::Value::as_u64), Some(512));
}

#[test]
fn chat_payload_reencodes_messages_compactly_inside_the_fixed_body() {
    let payload = build_chat_payload(&chat_request("[ {\"role\": \"user\", \"content\": \"Hi\"} ]", 64)).unwrap();
    assert_eq!(
        String::from_utf8(payload).unwrap(),
        "{\"chat_template_kwargs\":{\"enable_thinking\":false},\"max_tokens\":64,\
         \"messages\":[{\"content\":\"Hi\",\"role\":\"user\"}],\"model\":\"local-model\",\
         \"stream\":true,\"stream_options\":{\"include_usage\":true}}"
    );
}

#[test]
fn chat_payload_rejects_invalid_json_non_arrays_and_oversized_bodies() {
    match build_chat_payload(&chat_request("[{", 8)) {
        Err(AppError::Engine(detail)) => assert!(detail.starts_with("the chat message payload is invalid: ")),
        other => panic!("unexpected {other:?}"),
    }
    assert_eq!(
        build_chat_payload(&chat_request("{\"role\":\"user\"}", 8)),
        Err(AppError::Engine("the chat message payload must be an array".into()))
    );
    assert_eq!(
        chat_payload_from(8, Ok((true, vec![b'x'; 1024 * 1024]))),
        Err(AppError::Engine("the chat request exceeds the 1 MiB transport limit".into()))
    );
    assert_eq!(
        chat_payload_from(8, Err("bad".into())),
        Err(AppError::Engine("the chat message payload is invalid: bad".into()))
    );
    let body = chat_payload_from(8, Ok((true, b"[]".to_vec()))).unwrap();
    assert!(body.len() <= 1024 * 1024);
    assert!(String::from_utf8(body).unwrap().contains("\"max_tokens\":8,\"messages\":[],"));
}

#[test]
fn model_paths_must_be_absolute_gguf_regular_files() {
    assert!(check_model_path(r"C:\models\tiny.GGUF").is_ok());
    assert!(check_model_path(r"\\server\share\tiny.gguf").is_ok());
    let refused = AppError::Engine("llama.cpp requires an absolute GGUF model path".into());
    assert_eq!(check_model_path(r"models\tiny.gguf"), Err(refused.clone()));
    assert_eq!(check_model_path(r"C:\models\tiny.bin"), Err(refused.clone()));
    assert_eq!(check_model_path("C:tiny.gguf"), Err(refused));
    assert!(check_model_link(false, false).is_ok());
    let linked = AppError::Engine("linked or reparse-point model files cannot be loaded".into());
    assert_eq!(check_model_link(true, false), Err(linked.clone()));
    assert_eq!(check_model_link(false, true), Err(linked));
    assert!(check_model_is_file(true).is_ok());
    assert_eq!(
        check_model_is_file(false),
        Err(AppError::Engine("the selected GGUF model is not a regular file".into()))
    );
}

#[test]
fn backend_responses_are_bounded_to_one_mebibyte() {
    let oversized = AppError::Engine("llama.cpp returned an oversized backend response".into());
    assert!(check_response_length(None).is_ok());
    assert!(check_response_length(Some(1024 * 1024)).is_ok());
    assert_eq!(check_response_length(Some(1024 * 1024 + 1)), Err(oversized.clone()));
    let mut tally = ResponseTally::new();
    assert!(tally.add(1024 * 1024 - 10).is_ok());
    assert!(tally.add(10).is_ok());
    assert_eq!(tally.received, 1024 * 1024);
    assert_eq!(tally.add(1), Err(oversized));
    assert_eq!(tally.received, 1024 * 1024);
}

#[test]
fn the_adapter_starts_only_when_prepared_and_idle() {
    assert_eq!(
        check_adapter_start(false, None),
        Err(AppError::Engine("llama.cpp must be prepared before it can start".into()))
    );
    assert!(check_adapter_start(true, None).is_ok());
    assert!(check_adapter_start(true, Some(EngineLifecycle::Stopped)).is_ok());
    assert_eq!(
        check_adapter_start(true, Some(EngineLifecycle::Ready)),
        Err(AppError::Engine("a llama.cpp model session is already active".into()))
    );
}

#[test]
fn startup_fails_when_the_process_vanishes_or_ends() {
    assert_eq!(
        check_startup_process(None, None, None),
        Err(AppError::Engine("the llama.cpp process disappeared".into()))
    );
    assert!(check_startup_process(Some(EngineLifecycle::LoadingModel), None, None).is_ok());
    assert_eq!(
        check_startup_process(Some(EngineLifecycle::Stopped), Some(1), Some("bind failed")),
        Err(AppError::Engine("llama.cpp exited during startup with Some(1): bind failed".into()))
    );
    assert_eq!(
        check_startup_process(Some(EngineLifecycle::Crashed), None, None),
        Err(AppError::Engine("llama.cpp exited during startup with None: no diagnostic output was captured".into()))
    );
}

#[test]
fn the_runtime_needs_a_ready_cpu_llama_package() {
    let mut record = neuraloc_core::packages::EnginePackageRecord {
        id: LLAMA_CPP_CPU_PACKAGE_ID.into(),
        engine_id: "llama.cpp".into(),
        version: "b9986".into(),
        platform: "windows".into(),
        architecture: "x86_64".into(),
        route: "cpu".into(),
        install_path: r"C:\engines\llama".into(),
        archive_sha256: "0".repeat(64),
        files: Vec::new(),
        state: neuraloc_core::packages::EnginePackageState::Ready,
        source_url: None,
        error: None,
        installed_at: None,
        verified_at: None,
    };
    assert!(check_runtime_package(&record).is_ok());
    record.route = "vulkan".into();
    let refused = AppError::Engine("the verified llama.cpp CPU package is not ready".into());
    assert_eq!(check_runtime_package(&record), Err(refused.clone()));
    record.route = "cpu".into();
    record.state = neuraloc_core::packages::EnginePackageState::Invalid;
    assert_eq!(check_runtime_package(&record), Err(refused));
}

#[test]
fn stream_event_data_is_read_then_recorded() {
    let mut stream = GenerationStream::new("job".into());
    let chunk = stream
        .record_data("{\"choices\":[{\"delta\":{\"content\":\"Hi\"}}],\"timings\":{\"predicted_per_second\":2.5}}")
        .unwrap()
        .unwrap();
    assert_eq!((chunk.sequence, chunk.text.as_str()), (1, "Hi"));
    assert_eq!(f64::from_bits(stream.usage.tokens_per_second_bits), 2.5);
    assert!(matches!(stream.record_data("{\"choices\":[{\"text\":\"\"}]}"), Ok(None)));
    match stream.record_data("{not json") {
        Err(AppError::Engine(detail)) => assert!(detail.starts_with("llama.cpp returned invalid stream JSON: ")),
        other => panic!("unexpected {other:?}"),
    }
    assert_eq!((stream.sequence, stream.generated_bytes), (1, 2));
    assert!(stream.record_trailing_data("{\"usage\":{\"prompt_tokens\":9,\"completion_tokens\":3}}").is_ok());
    assert_eq!((stream.usage.prompt_tokens, stream.usage.output_tokens, stream.sequence), (9, 3, 1));
    assert!(stream.record_trailing_data("[").is_err());
}

#[test]
fn chat_http_failures_name_the_server_message_or_the_body() {
    assert_eq!(
        chat_http_failure("400 Bad Request", b"{\"error\":{\"message\":\"context too long\"}}"),
        AppError::Engine("llama.cpp chat returned HTTP 400 Bad Request: context too long".into())
    );
    assert_eq!(
        chat_http_failure("500 Internal Server Error", b"  overloaded \n"),
        AppError::Engine("llama.cpp chat returned HTTP 500 Internal Server Error: overloaded".into())
    );
    assert_eq!(
        chat_http_failure("503 Service Unavailable", b""),
        AppError::Engine("llama.cpp chat returned HTTP 503 Service Unavailable".into())
    );
}

#[test]
fn option_lists_are_maps_in_key_order() {
    assert!(keys_in_order(&[]));
    assert!(keys_in_order(&options(&[("context_size", "4096"), ("threads", "8")])));
    assert!(!keys_in_order(&options(&[("threads", "8"), ("context_size", "4096")])));
    assert!(!keys_in_order(&options(&[("threads", "8"), ("threads", "4")])));
    assert!(keys_in_order(&start_options(4096, Some(8))));
}

fn pair(key: &str, value: &str) -> (String, String) {
    (key.to_string(), value.to_string())
}

#[test]
fn environment_entries_keep_key_order() {
    let mut environment = vec![pair("HOME", "/home/a"), pair("PATH", "/bin")];
    insert_entry(&mut environment, "LLAMA_API_KEY".into(), "key-1".into());
    assert_eq!(environment, vec![pair("HOME", "/home/a"), pair("LLAMA_API_KEY", "key-1"), pair("PATH", "/bin")]);
    insert_entry(&mut environment, "LLAMA_API_KEY".into(), "key-2".into());
    assert_eq!(environment, vec![pair("HOME", "/home/a"), pair("LLAMA_API_KEY", "key-2"), pair("PATH", "/bin")]);
    insert_entry(&mut environment, "ZONE".into(), "z".into());
    insert_entry(&mut environment, "APP".into(), "a".into());
    assert_eq!(environment.first(), Some(&pair("APP", "a")));
    assert_eq!(environment.last(), Some(&pair("ZONE", "z")));
    assert!(keys_in_order(&environment));
    let mut empty = Vec::new();
    insert_entry(&mut empty, "LLAMA_API_KEY".into(), "k".into());
    assert_eq!(empty, vec![pair("LLAMA_API_KEY", "k")]);
}

#[test]
fn a_session_runs_one_generation_at_a_time() {
    let mut jobs = GenerationJobs::new();
    assert_eq!(jobs.active_count(), 0);
    assert_eq!(
        jobs.begin(" ", 16, true, Some(EngineLifecycle::Ready)),
        Err(AppError::Engine("the chat job ID is invalid".into()))
    );
    assert_eq!(
        jobs.begin("job-1", 16, true, Some(EngineLifecycle::LoadingModel)),
        Err(AppError::Engine("the llama.cpp model session is not ready".into()))
    );
    assert_eq!(jobs.begin("job-1", 16, true, Some(EngineLifecycle::Ready)), Ok(()));
    assert!(jobs.is_active("job-1"));
    assert_eq!(
        jobs.begin("job-2", 16, true, Some(EngineLifecycle::Ready)),
        Err(AppError::Engine("another chat generation is already active".into()))
    );
    assert_eq!(jobs.active_count(), 1);
    assert!(!jobs.end("job-2"));
    assert!(jobs.is_active("job-1"));
    assert!(jobs.end("job-1"));
    assert_eq!(jobs.active_count(), 0);
    assert_eq!(jobs.begin("job-2", 16, true, Some(EngineLifecycle::Ready)), Ok(()));
}

#[test]
fn identity_body_gives_model_path_and_build() {
    assert_eq!(
        identity_fields(br#"{"model_path":"C:\\m\\a.gguf","build_info":"b6500-abc","other":1}"#),
        Ok((Some(r"C:\m\a.gguf".to_string()), Some("b6500-abc".to_string())))
    );
    assert_eq!(identity_fields(br#"{"model_path":7}"#), Ok((None, None)));
    let error = identity_fields(b"not json").unwrap_err();
    assert!(matches!(error, AppError::Engine(text) if text.starts_with("llama.cpp returned invalid identity JSON: ")));
}
