use neuraloc_core::errors::AppError;
use neuraloc_core::hardware::MemoryInfo;
use neuraloc_core::models::catalog::{
    checked_sqlite_size, display_name_for, estimate_cpu_fit, has_gguf_extension, new_scan_summary, progress_for,
    record_import_outcome, validate_input_path, FitConfidence, ImportModelOutcome, ModelRecord, PathGrantService,
    model_from_stored, ScanPhase, ScanRegistry, ScanRun, StoredModel, VerificationState, DEFAULT_CONTEXT_SIZE, GIB, MIB,
};
use neuraloc_core::models::gguf::{inspect_gguf_bytes, quantization_name, GgufError, GgufMetadata};
use neuraloc_core::scheduler::FitLabel;

fn model(metadata: Option<GgufMetadata>) -> ModelRecord {
    ModelRecord {
        id: "qwen-4b".into(),
        kind: "llm".into(),
        display_name: "Qwen3 4B".into(),
        family: Some("qwen3".into()),
        format: "gguf".into(),
        path: r"C:\models\qwen.gguf".into(),
        size_bytes: 2_300 * MIB,
        sha256: None,
        verification_state: VerificationState::Ready,
        verification_error: None,
        gguf_metadata: metadata,
        modified_at_unix_ms: 1,
        imported_at: "2026-07-15T00:00:00Z".into(),
        last_verified_at: Some("2026-07-15T00:00:00Z".into()),
        file_identity: None,
    }
}

fn memory(total_gib: u64, available_gib: u64) -> MemoryInfo {
    MemoryInfo { total_bytes: total_gib * GIB, available_bytes: available_gib * GIB }
}

fn qwen_metadata() -> GgufMetadata {
    GgufMetadata {
        version: 3,
        tensor_count: 1,
        metadata_count: 1,
        architecture: Some("qwen3".into()),
        name: Some("Qwen3 4B".into()),
        file_type: Some(15),
        quantization: Some("Q4_K_M".into()),
        parameter_count: Some(4_000_000_000),
        context_length: Some(40_960),
        embedding_length: Some(2_560),
        layer_count: Some(36),
        has_chat_template: true,
        metadata_bytes: 100,
        metadata_preview: Vec::new(),
    }
}

#[test]
fn estimates_a_conservative_cpu_fit_from_gguf_metadata() {
    let estimate = estimate_cpu_fit(&model(Some(qwen_metadata())), &memory(32, 16));

    assert_eq!(estimate.fit, FitLabel::Excellent);
    assert_eq!(estimate.confidence, FitConfidence::Medium);
    assert_eq!(estimate.context_size, DEFAULT_CONTEXT_SIZE);
    assert!(estimate.kv_cache_bytes > GIB);
    assert!(estimate.estimated_ram_bytes > estimate.weight_bytes);
    assert!(estimate.headroom_bytes > 0);
}

#[test]
fn rejects_a_model_that_exceeds_available_ram_after_reserve() {
    let estimate = estimate_cpu_fit(&model(Some(qwen_metadata())), &memory(16, 5));

    assert_eq!(estimate.fit, FitLabel::NotRecommended);
    assert_eq!(estimate.headroom_bytes, 0);
}

#[test]
fn labels_missing_shape_metadata_as_low_confidence() {
    let estimate = estimate_cpu_fit(&model(None), &memory(32, 16));

    assert_eq!(estimate.confidence, FitConfidence::Low);
    assert!(estimate.kv_cache_bytes >= 256 * MIB);
}

#[test]
fn fit_estimate_has_exact_kv_cache_and_weights() {
    let estimate = estimate_cpu_fit(&model(Some(qwen_metadata())), &memory(32, 16));
    assert_eq!(estimate.kv_cache_bytes, 36 * 4_096 * 2_560 * 4);
    assert_eq!(estimate.weight_bytes, 2_300 * MIB);
    assert_eq!(estimate.route, "cpu");
}

fn push_string(bytes: &mut Vec<u8>, value: &str) {
    bytes.extend_from_slice(&(value.len() as u64).to_le_bytes());
    bytes.extend_from_slice(value.as_bytes());
}

fn push_string_value(bytes: &mut Vec<u8>, key: &str, value: &str) {
    push_string(bytes, key);
    bytes.extend_from_slice(&8_u32.to_le_bytes());
    push_string(bytes, value);
}

fn push_u32_value(bytes: &mut Vec<u8>, key: &str, value: u32) {
    push_string(bytes, key);
    bytes.extend_from_slice(&4_u32.to_le_bytes());
    bytes.extend_from_slice(&value.to_le_bytes());
}

fn push_u64_value(bytes: &mut Vec<u8>, key: &str, value: u64) {
    push_string(bytes, key);
    bytes.extend_from_slice(&10_u32.to_le_bytes());
    bytes.extend_from_slice(&value.to_le_bytes());
}

fn test_gguf() -> Vec<u8> {
    let mut bytes = Vec::new();
    bytes.extend_from_slice(b"GGUF");
    bytes.extend_from_slice(&3_u32.to_le_bytes());
    bytes.extend_from_slice(&0_u64.to_le_bytes());
    bytes.extend_from_slice(&8_u64.to_le_bytes());
    push_string_value(&mut bytes, "general.architecture", "llama");
    push_string_value(&mut bytes, "general.name", "Test Model");
    push_u32_value(&mut bytes, "general.file_type", 15);
    push_u64_value(&mut bytes, "general.parameter_count", 7_000_000_000);
    push_u32_value(&mut bytes, "llama.context_length", 32_768);
    push_u32_value(&mut bytes, "llama.embedding_length", 4_096);
    push_u32_value(&mut bytes, "llama.block_count", 32);
    push_string_value(&mut bytes, "tokenizer.chat_template", "{{ messages }}");
    bytes
}

#[test]
fn reads_bounded_useful_metadata() {
    let metadata = inspect_gguf_bytes(&test_gguf()).unwrap();
    assert_eq!(metadata.architecture.as_deref(), Some("llama"));
    assert_eq!(metadata.quantization.as_deref(), Some("Q4_K_M"));
    assert_eq!(metadata.context_length, Some(32_768));
    assert_eq!(metadata.layer_count, Some(32));
    assert!(metadata.has_chat_template);
}

#[test]
fn rejects_wrong_magic_and_truncated_headers() {
    for bytes in [b"NOPE".as_slice(), b"GGUF\x03".as_slice()] {
        assert!(inspect_gguf_bytes(bytes).is_err());
    }
}

#[test]
fn gguf_errors_name_the_problem() {
    assert_eq!(inspect_gguf_bytes(b"NOPE").unwrap_err(), GgufError::BadMagic);
    let mut bytes = test_gguf();
    bytes[4] = 1;
    assert_eq!(inspect_gguf_bytes(&bytes).unwrap_err(), GgufError::UnsupportedVersion(1));
    let full = test_gguf();
    assert_eq!(inspect_gguf_bytes(&full[..full.len() - 3]).unwrap_err(), GgufError::Truncated);
    assert_eq!(
        GgufError::BadMagic.into_app_error(),
        AppError::InvalidModel("the file does not start with the GGUF magic bytes".into())
    );
}

#[test]
fn full_header_keeps_name_parameters_and_preview() {
    let metadata = inspect_gguf_bytes(&test_gguf()).unwrap();
    assert_eq!(metadata.name.as_deref(), Some("Test Model"));
    assert_eq!(metadata.parameter_count, Some(7_000_000_000));
    assert_eq!(metadata.embedding_length, Some(4_096));
    assert_eq!(metadata.metadata_count, 8);
    assert_eq!(metadata.metadata_preview.len(), 8);
    assert_eq!(quantization_name(15), "Q4_K_M");
}

#[test]
fn rejects_sizes_that_do_not_fit_sqlite_integers() {
    assert!(checked_sqlite_size(i64::MAX as u64).is_ok());
    assert!(checked_sqlite_size(i64::MAX as u64 + 1).is_err());
}

#[test]
fn rejects_relative_and_traversing_paths() {
    assert!(validate_input_path("model.gguf").is_err());
    assert!(validate_input_path(r"C:\models\..\model.gguf").is_err());
    assert!(validate_input_path("/models/../model.gguf").is_err());
}

#[test]
fn import_paths_name_their_first_problem() {
    assert!(validate_input_path(r"C:\models\tiny.gguf").is_ok());
    assert_eq!(
        validate_input_path(r"\\?\C:\models\tiny.gguf"),
        Err(AppError::InvalidPath("Windows device paths are not accepted".into()))
    );
    assert_eq!(
        validate_input_path("models/tiny.gguf"),
        Err(AppError::InvalidPath("the selected path must be absolute".into()))
    );
    assert_eq!(
        validate_input_path(r"C:\models\..\tiny.gguf"),
        Err(AppError::InvalidPath("parent-directory traversal is not accepted".into()))
    );
    assert!(validate_input_path(r"C:\models\..tiny.gguf").is_ok());
}

#[test]
fn granting_a_model_file_checks_kind_extension_and_size() {
    assert!(has_gguf_extension(r"C:\models\Tiny.GGUF"));
    assert!(!has_gguf_extension(r"C:\models\.gguf"));
    assert_eq!(display_name_for(r"C:\models\tiny.q4.gguf"), "tiny.q4");
    let granted = PathGrantService::grant_model_file(r"C:\models\tiny.gguf".into(), true, 1024, 7, Some("id".into())).unwrap();
    assert_eq!(granted.display_name, "tiny");
    assert_eq!(granted.size_bytes, 1024);
    assert_eq!(
        PathGrantService::grant_model_file(r"C:\models\tiny.bin".into(), true, 1024, 7, None).unwrap_err(),
        AppError::InvalidPath("only .gguf model files can be imported".into())
    );
    assert_eq!(
        PathGrantService::grant_model_file(r"C:\models".into(), false, 0, 0, None).unwrap_err(),
        AppError::InvalidPath("the selected path is not a regular file".into())
    );
    assert_eq!(
        PathGrantService::check_link(true, false),
        Err(AppError::InvalidPath("symbolic links are not accepted for model imports".into()))
    );
    assert!(PathGrantService::check_folder(true).is_ok());
}

#[test]
fn scan_summary_counts_each_outcome() {
    let mut summary = new_scan_summary("scan-1".into());
    let record = model(None);
    record_import_outcome(&mut summary, r"C:\m\a.gguf".into(), &Ok(ImportModelOutcome { model: record.clone(), already_indexed: false }));
    record_import_outcome(&mut summary, r"C:\m\b.gguf".into(), &Ok(ImportModelOutcome { model: record, already_indexed: true }));
    record_import_outcome(&mut summary, r"C:\m\c.gguf".into(), &Err(AppError::InvalidModel("bad".into())));
    let progress = progress_for(&summary, ScanPhase::Complete, None);
    assert_eq!(progress.imported, 1);
    assert_eq!(progress.duplicates, 1);
    assert_eq!(progress.invalid, 1);
    assert_eq!(summary.issues.len(), 1);
}

use neuraloc_core::models::catalog::{
    apply_inspection, check_scan_depth, check_scan_file_limit, check_scan_id, mark_model_missing, mark_model_rejected,
    new_model_record, GrantedModelFile,
};

fn granted() -> GrantedModelFile {
    GrantedModelFile {
        canonical_path: r"C:\models\tiny.gguf".into(),
        display_name: "tiny".into(),
        size_bytes: 4096,
        modified_at_unix_ms: 9,
        file_identity: Some("windows:1:2".into()),
    }
}

#[test]
fn model_records_follow_inspections() {
    let mut record = new_model_record("m-1".into(), &granted(), "t0".into());
    assert_eq!(record.verification_state, VerificationState::MetadataPending);
    assert_eq!(record.kind, "llm");
    assert_eq!(record.format, "gguf");
    apply_inspection(&mut record, &granted(), "t1".into(), inspect_gguf_bytes(&test_gguf()).map_err(|e| e.into_app_error()));
    assert_eq!(record.verification_state, VerificationState::Ready);
    assert_eq!(record.display_name, "Test Model");
    assert_eq!(record.family.as_deref(), Some("llama"));
    apply_inspection(&mut record, &granted(), "t2".into(), inspect_gguf_bytes(b"NOPE").map_err(|e| e.into_app_error()));
    assert_eq!(record.verification_state, VerificationState::Invalid);
    assert_eq!(record.display_name, "tiny");
    assert_eq!(
        record.verification_error.as_deref(),
        Some("The GGUF model is invalid: the file does not start with the GGUF magic bytes")
    );
    mark_model_missing(&mut record, "t3".into());
    assert_eq!(record.verification_state, VerificationState::Missing);
    assert_eq!(record.verification_error.as_deref(), Some("The indexed file no longer exists at this path."));
    mark_model_rejected(&mut record, &AppError::InvalidPath("the selected path is not a regular file".into()), "t4".into());
    assert_eq!(record.verification_state, VerificationState::Invalid);
    assert_eq!(record.imported_at, "t0");
    assert_eq!(record.last_verified_at.as_deref(), Some("t4"));
}

#[test]
fn scan_ids_take_the_four_uuid_shapes() {
    assert!(check_scan_id("67e5504410b1426f9247BB680E5FE0C8").is_ok());
    assert!(check_scan_id("{67e55044-10b1-426f-9247-bb680e5fe0c8}").is_ok());
    assert!(check_scan_id("URN:uuid:67e55044-10b1-426f-9247-bb680e5fe0c8").is_ok());
    assert!(check_scan_id("67e55044-10b1-426f-9247-bb680e5fe0cg").is_err());
    assert!(check_scan_id("67e55044_10b1-426f-9247-bb680e5fe0c8").is_err());
    assert!(check_scan_id("(67e55044-10b1-426f-9247-bb680e5fe0c8)").is_err());
    assert!(check_scan_id("urn:uid::67e55044-10b1-426f-9247-bb680e5fe0c8").is_err());
    assert!(check_scan_id("").is_err());
}

#[test]
fn scan_limits_are_named() {
    assert!(check_scan_id("67e55044-10b1-426f-9247-bb680e5fe0c8").is_ok());
    assert_eq!(check_scan_id("scan-1"), Err(AppError::Operation("the scan ID is invalid".into())));
    assert!(check_scan_depth(32).is_ok());
    assert_eq!(
        check_scan_depth(33),
        Err(AppError::InvalidPath("folder nesting exceeds the 32-level scan limit".into()))
    );
    assert!(check_scan_file_limit(99_999).is_ok());
    assert_eq!(
        check_scan_file_limit(100_000),
        Err(AppError::Operation("the scan exceeds the 100000-file safety limit".into()))
    );
}

#[test]
fn a_scan_id_runs_once_and_can_be_cancelled_while_running() {
    let mut scans = ScanRegistry::new();
    assert!(!scans.cancel("scan-a"));
    assert!(scans.begin("scan-a").is_ok());
    assert_eq!(
        scans.begin("scan-a"),
        Err(AppError::Operation("a scan with this ID is already running".into()))
    );
    assert!(scans.begin("scan-b").is_ok());
    assert!(!scans.is_cancelled("scan-a"));
    assert!(scans.cancel("scan-a"));
    assert!(scans.is_cancelled("scan-a"));
    assert!(!scans.is_cancelled("scan-b"));
    scans.finish("scan-a");
    assert!(!scans.is_cancelled("scan-a"));
    assert!(!scans.cancel("scan-a"));
    assert!(scans.begin("scan-a").is_ok());
    assert!(!scans.is_cancelled("scan-a"));
}

fn stored_model(state: &str, size_bytes: i64) -> StoredModel {
    StoredModel {
        id: "m1".into(),
        kind: "llm".into(),
        display_name: "Tiny".into(),
        family: None,
        format: "gguf".into(),
        path: r"C:\models\tiny.gguf".into(),
        size_bytes,
        sha256: None,
        verification_state: state.into(),
        verification_error: None,
        modified_at_unix_ms: 7,
        imported_at: "2024-01-01T00:00:00Z".into(),
        last_verified_at: None,
        file_identity: Some("volume:1".into()),
    }
}

#[test]
fn stored_model_rows_decode_or_name_their_defect() {
    let record = model_from_stored(stored_model("ready", 4096), Ok(None)).unwrap();
    assert_eq!(record.size_bytes, 4096);
    assert_eq!(record.verification_state, VerificationState::Ready);
    assert_eq!(record.file_identity.as_deref(), Some("volume:1"));
    assert_eq!(
        model_from_stored(stored_model("bogus", 1), Ok(None)).unwrap_err(),
        AppError::Operation("model m1 has unknown verification state bogus".into())
    );
    assert_eq!(
        model_from_stored(stored_model("ready", 1), Err("EOF".into())).unwrap_err(),
        AppError::Operation("model m1 has corrupt GGUF metadata: EOF".into())
    );
    assert_eq!(
        model_from_stored(stored_model("missing", -1), Ok(None)).unwrap_err(),
        AppError::Operation("model m1 has an invalid size".into())
    );
}

#[test]
fn scan_run_imports_every_found_file_and_completes_with_its_counts() {
    let mut run = ScanRun::new("scan-1".into());
    let found = run.discover(r"C:\m\a.gguf".into()).unwrap();
    assert_eq!(found.phase, ScanPhase::Discovering);
    assert_eq!(found.discovered, 1);
    run.discover(r"C:\m\b.gguf".into()).unwrap();
    let record = model(None);
    let first = run.record(r"C:\m\a.gguf".into(), &Ok(ImportModelOutcome { model: record, already_indexed: false }));
    assert_eq!(first.phase, ScanPhase::Importing);
    assert_eq!((first.processed, first.imported), (1, 1));
    let second = run.record(r"C:\m\b.gguf".into(), &Err(AppError::InvalidModel("bad".into())));
    assert_eq!((second.processed, second.invalid), (2, 1));
    let (summary, complete) = run.finish();
    assert_eq!(complete.phase, ScanPhase::Complete);
    assert_eq!(complete.current_path, None);
    assert_eq!((summary.discovered, summary.processed, summary.imported, summary.invalid), (2, 2, 1, 1));
    assert_eq!((complete.discovered, complete.processed, complete.imported, complete.invalid), (2, 2, 1, 1));
    assert!(!summary.cancelled);
    assert_eq!(summary.issues.len(), 1);
}

#[test]
fn cancelled_scan_ends_with_fewer_files_processed() {
    let mut run = ScanRun::new("scan-2".into());
    run.discover("a.gguf".into()).unwrap();
    run.discover("b.gguf".into()).unwrap();
    run.cancel();
    let (summary, complete) = run.finish();
    assert!(summary.cancelled);
    assert_eq!((complete.discovered, complete.processed), (2, 0));
}

#[test]
fn scan_run_stops_finding_files_at_the_limit() {
    let mut run = ScanRun::new("scan-3".into());
    for _ in 0..100_000 {
        run.discover(String::new()).unwrap();
    }
    assert_eq!(
        run.discover(String::new()).err(),
        Some(AppError::Operation("the scan exceeds the 100000-file safety limit".into()))
    );
    assert_eq!(run.discovered(), 100_000);
}
