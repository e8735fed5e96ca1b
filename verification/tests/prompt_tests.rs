use neuraloc_core::errors::AppError;
use neuraloc_core::prompts::{
    check_base_version, check_metadata_document, check_unique_key, compile_prompt, copy_name, duplicate_name,
    estimate_tokens, frame_prompt_document, is_known_metadata_key, metadata_from_values, metadata_key,
    next_version_number, normalized_document, normalized_entries, prompt_export, ExportMetadata, ExportValue, decide_append, AppendDecision, StoredVersionKey, prompt_source_hash, safe_file_stem, sorted_unique,
    split_front_matter, stable_name_for, validate_profile_name, validate_string, validate_yaml_events, FieldValue,
    prompt_search_query, stored_version_number, summary_from_stored, StoredPromptSummary,
};

/// The framing and YAML event checks that every document passes before its metadata is read.
fn frame_and_check(document: &str) -> Result<(String, Option<String>), AppError> {
    let framed = frame_prompt_document(document)?;
    if let Some(yaml) = &framed.front_matter {
        validate_yaml_events(yaml)?;
    }
    Ok((framed.content, framed.front_matter))
}

fn text(value: &str) -> FieldValue {
    FieldValue::Text(value.into())
}

fn whole(value: u64) -> FieldValue {
    FieldValue::Number { text: value.to_string(), whole: Some(value), real_bits: (value as f64).to_bits() }
}

fn fractional(value: f64) -> FieldValue {
    FieldValue::Number { text: value.to_string(), whole: None, real_bits: value.to_bits() }
}

fn fields(entries: Vec<(&str, FieldValue)>) -> Vec<(String, FieldValue)> {
    entries.into_iter().map(|(k, v)| (k.to_string(), v)).collect()
}

#[test]
fn preserves_bom_free_crlf_content_and_unknown_metadata() {
    let document = "\u{feff}---\r\nname: Code Review\r\ntags: [rust, review]\r\ncustom: enabled\r\n---\r\nLine one\r\nLine two\r\n";
    let framed = frame_prompt_document(document).unwrap();
    validate_yaml_events(framed.front_matter.as_deref().unwrap()).unwrap();
    assert_eq!(framed.content, "Line one\r\nLine two\r\n");
    let values = fields(vec![
        ("name", text("Code Review")),
        ("tags", FieldValue::List(vec![Some("rust".into()), Some("review".into())])),
        ("custom", text("enabled")),
    ]);
    let metadata = metadata_from_values(&values, "fallback").unwrap();
    assert_eq!(metadata.name, "Code Review");
    assert_eq!(metadata.tags, ["review", "rust"]);
    assert!(!is_known_metadata_key("custom"));
    assert!(!framed.raw_document.starts_with('\u{feff}'));
}

#[test]
fn uses_the_filename_for_plain_text_and_hashes_deterministically() {
    let first = frame_prompt_document("Keep this exact.\r\n").unwrap();
    let second = frame_prompt_document("Keep this exact.\r\n").unwrap();
    assert_eq!(first.front_matter, None);
    let metadata = metadata_from_values(&Vec::new(), "Plain Prompt").unwrap();
    assert_eq!(metadata.name, "Plain Prompt");
    assert_eq!(first.content, "Keep this exact.\r\n");
    let canonical = b"{\"name\":\"Plain Prompt\"}";
    assert_eq!(prompt_source_hash(canonical, &first.content), prompt_source_hash(canonical, &second.content));
}

#[test]
fn rejects_malformed_alias_tag_and_deep_yaml() {
    assert!(frame_and_check("---\nname: broken\nBody").is_err());
    assert!(frame_and_check("---\ndefaults: &defaults [one]\ntags: *defaults\n---\nBody").is_err());
    assert!(frame_and_check("---\nname: !custom profile\n---\nBody").is_err());
    let nested = format!("---\ncustom: {}value{}\n---\nBody", "[".repeat(17), "]".repeat(17));
    assert!(frame_and_check(&nested).is_err());
}

#[test]
fn validates_known_metadata_bounds() {
    frame_and_check("---\ntemperature: 4\n---\nBody").unwrap();
    assert!(metadata_from_values(&fields(vec![("temperature", whole(4))]), "fallback").is_err());
    frame_and_check("---\ntop_k: 4.5\n---\nBody").unwrap();
    assert!(metadata_from_values(&fields(vec![("top_k", fractional(4.5))]), "fallback").is_err());
    frame_and_check("---\ntags: rust\n---\nBody").unwrap();
    assert!(metadata_from_values(&fields(vec![("tags", text("rust"))]), "fallback").is_err());
}

#[test]
fn yaml_refusals_are_named() {
    assert_eq!(
        frame_and_check("---\nname: broken\nBody"),
        Err(AppError::InvalidPrompt("the YAML front matter is missing its closing delimiter".into()))
    );
    assert_eq!(
        frame_and_check("---\ndefaults: &defaults [one]\ntags: *defaults\n---\nBody"),
        Err(AppError::InvalidPrompt("YAML anchors are not accepted".into()))
    );
    assert_eq!(
        frame_and_check("---\nname: !custom profile\n---\nBody"),
        Err(AppError::InvalidPrompt("custom YAML tags are not accepted".into()))
    );
    let nested = format!("---\ncustom: {}value{}\n---\nBody", "[".repeat(17), "]".repeat(17));
    assert_eq!(frame_and_check(&nested), Err(AppError::InvalidPrompt("YAML nesting exceeds the 16-level limit".into())));
    assert_eq!(
        frame_and_check("---\na: 1\n---\nb: 2\n---\nBody"),
        Ok(("b: 2\n---\nBody".to_string(), Some("a: 1\n".to_string())))
    );
    assert_eq!(
        frame_and_check("---\nname: x\n---\n   \n"),
        Err(AppError::InvalidPrompt("the prompt content cannot be empty".into()))
    );
}

#[test]
fn metadata_fields_are_read_checked_and_normalized() {
    let values = fields(vec![
        ("name", text("  Planner ")),
        ("version", fractional(1.5)),
        ("description", text("Careful")),
        ("tags", FieldValue::List(vec![Some(" b ".into()), Some("a".into()), Some("b".into())])),
        ("temperature", fractional(0.7)),
        ("top_p", whole(1)),
        ("top_k", whole(40)),
        ("context_reserve", whole(0)),
        ("collection", text("Work")),
    ]);
    let metadata = metadata_from_values(&values, "fallback").unwrap();
    assert_eq!(metadata.name, "Planner");
    assert_eq!(metadata.declared_version.as_deref(), Some("1.5"));
    assert_eq!(metadata.tags, ["a", "b"]);
    assert_eq!(metadata.temperature_bits.map(f64::from_bits), Some(0.7));
    assert_eq!(metadata.top_p_bits.map(f64::from_bits), Some(1.0));
    assert_eq!(metadata.top_k, Some(40));
    assert_eq!(metadata.context_reserve, Some(0));
    assert_eq!(metadata.collection.as_deref(), Some("Work"));

    let refusal = |entries: Vec<(&str, FieldValue)>| metadata_from_values(&fields(entries), "fallback").unwrap_err();
    assert_eq!(
        refusal(vec![("temperature", fractional(2.5))]),
        AppError::InvalidPrompt("metadata field temperature must be between 0 and 2".into())
    );
    assert_eq!(refusal(vec![("top_p", fractional(-0.5))]), AppError::InvalidPrompt("metadata field top_p must be between 0 and 1".into()));
    assert_eq!(refusal(vec![("top_p", fractional(f64::NAN))]), AppError::InvalidPrompt("metadata field top_p must be between 0 and 1".into()));
    assert!(metadata_from_values(&fields(vec![("top_p", fractional(-0.0))]), "fallback").is_ok());
    assert_eq!(refusal(vec![("top_k", whole(0))]), AppError::InvalidPrompt("metadata field top_k must be between 1 and 1000".into()));
    assert_eq!(refusal(vec![("top_k", whole(1 << 40))]), AppError::InvalidPrompt("metadata field top_k is too large".into()));
    assert_eq!(refusal(vec![("top_k", text("4"))]), AppError::InvalidPrompt("metadata field top_k must be a whole number".into()));
    assert_eq!(refusal(vec![("temperature", text("hot"))]), AppError::InvalidPrompt("metadata field temperature must be a number".into()));
    assert_eq!(refusal(vec![("name", whole(1))]), AppError::InvalidPrompt("metadata field name must be a string".into()));
    assert_eq!(
        refusal(vec![("version", FieldValue::Other)]),
        AppError::InvalidPrompt("metadata field version must be a string or number".into())
    );
    assert_eq!(
        refusal(vec![("tags", FieldValue::List(vec![Some("a".into()), None]))]),
        AppError::InvalidPrompt("metadata field tags must contain only strings".into())
    );
    assert_eq!(
        refusal(vec![("tags", FieldValue::List((0..33).map(|i| Some(i.to_string())).collect()))]),
        AppError::InvalidPrompt("metadata field tags exceeds the 32-item limit".into())
    );
    assert_eq!(
        refusal(vec![("description", text(""))]),
        AppError::InvalidPrompt("metadata field description must contain 1 to 2000 characters".into())
    );
    assert_eq!(
        refusal(vec![("tags", text("rust")), ("temperature", fractional(9.0))]),
        AppError::InvalidPrompt("metadata field tags must be a list of strings".into())
    );
    assert_eq!(
        metadata_from_values(&fields(vec![("name", text("Named"))]), " ").unwrap_err(),
        AppError::InvalidPrompt("metadata field name must contain 1 to 120 characters".into())
    );
}

#[test]
fn front_matter_documents_and_keys_are_checked() {
    assert!(check_metadata_document(1, true, 64).is_ok());
    assert_eq!(
        check_metadata_document(2, true, 1),
        Err(AppError::InvalidPrompt("YAML front matter must contain exactly one document".into()))
    );
    assert_eq!(
        check_metadata_document(1, false, 1),
        Err(AppError::InvalidPrompt("YAML front matter must be a key-value mapping".into()))
    );
    assert_eq!(
        check_metadata_document(1, true, 65),
        Err(AppError::InvalidPrompt("YAML front matter exceeds the 64-key limit".into()))
    );
    assert_eq!(metadata_key(None), Err(AppError::InvalidPrompt("YAML metadata keys must be strings".into())));
    assert_eq!(metadata_key(Some("name".into())), Ok("name".to_string()));
    let seen = vec!["name".to_string()];
    assert_eq!(check_unique_key(&seen, "name"), Err(AppError::InvalidPrompt("YAML metadata key name is duplicated".into())));
    assert!(check_unique_key(&seen, "tags").is_ok());
    assert!(is_known_metadata_key("top_k"));
}

#[test]
fn source_hash_is_the_sha256_of_metadata_zero_and_content() {
    assert_eq!(
        prompt_source_hash(b"", ""),
        "6e340b9cffb37a989ca544e6bb780a2c78901d3fb33738768511a30617afa01d"
    );
    assert_ne!(prompt_source_hash(b"{}", "a"), prompt_source_hash(b"{}", "b"));
}

#[test]
fn names_versions_and_exports() {
    assert_eq!(validate_profile_name("  Architect "), Ok("Architect".to_string()));
    assert!(validate_profile_name(&"n".repeat(121)).is_err());
    assert_eq!(copy_name("Architect"), "Architect Copy");
    assert_eq!(duplicate_name(None, "Architect"), Ok("Architect Copy".to_string()));
    assert_eq!(duplicate_name(Some(" Mine ".into()), "Architect"), Ok("Mine".to_string()));
    assert_eq!(stable_name_for(None, None), "Untitled Prompt");
    assert_eq!(stable_name_for(None, Some("Meta".into())), "Meta");
    assert_eq!(
        check_base_version("p-1", "v-2", "v-1"),
        Err(AppError::Conflict("prompt p-1 now has a newer version".into()))
    );
    assert_eq!(next_version_number(3), Ok(4));
    assert!(next_version_number(u32::MAX as i64).is_err());
    assert_eq!(estimate_tokens("abcde"), 2);
    assert_eq!(safe_file_stem("../../"), "prompt");
    let export = prompt_export("Code Review", "Keep\r\nline endings.\r\n".into());
    assert_eq!(export.file_name, "Code-Review.md");
    assert_eq!(export.content, "Keep\r\nline endings.\r\n");
    let compiled = compile_prompt("v-1".into(), "Keep\r\nline endings.\r\n".into());
    assert_eq!(compiled.content, "Keep\r\nline endings.\r\n");
    assert!(compiled.approximate);
    assert_eq!(compiled.estimated_tokens, 6);
    assert!(normalized_document(&bare_metadata(), "Body").unwrap().starts_with("---\n{"));
    assert_eq!(
        validate_string("", "tags", 64),
        Err(AppError::InvalidPrompt("metadata field tags must contain 1 to 64 characters".into()))
    );
    assert_eq!(sorted_unique(vec!["b".into(), "a".into(), "b".into()]), vec!["a".to_string(), "b".to_string()]);
    assert_eq!(split_front_matter("plain"), Ok((None, "plain".to_string())));
}

fn stored_summary(latest_version: i64, profile_created_at: &str) -> StoredPromptSummary {
    StoredPromptSummary {
        profile_id: "p1".into(),
        stable_name: "writer".into(),
        collection: Some("work".into()),
        pinned: 1,
        profile_created_at: profile_created_at.into(),
        profile_updated_at: "2024-02-02".into(),
        latest_version_id: "v3".into(),
        latest_version,
        source_path: None,
        version_created_at: "2024-01-01".into(),
    }
}

#[test]
fn stored_prompt_rows_decode_or_name_their_defect() {
    let summary = summary_from_stored(stored_summary(3, ""), Ok((Some("d".into()), vec!["a".into()]))).unwrap();
    assert!(summary.pinned);
    assert_eq!(summary.latest_version, 3);
    assert_eq!(summary.created_at, "2024-01-01");
    assert_eq!(summary.updated_at, "2024-02-02");
    assert_eq!(summary.tags, vec!["a".to_string()]);
    assert_eq!(
        summary_from_stored(stored_summary(3, "x"), Err("bad".into())).unwrap_err(),
        AppError::Operation("prompt profile p1 has corrupt metadata: bad".into())
    );
    assert_eq!(
        summary_from_stored(stored_summary(-1, "x"), Ok((None, Vec::new()))).unwrap_err(),
        AppError::Operation("prompt profile p1 has an invalid version number".into())
    );
    assert_eq!(stored_version_number("v1", 7), Ok(7));
    assert_eq!(
        stored_version_number("v1", 1 << 33),
        Err(AppError::Operation("prompt version v1 has an invalid number".into()))
    );
}

#[test]
fn prompt_searches_are_trimmed_and_bounded() {
    assert_eq!(prompt_search_query(None), Ok(String::new()));
    assert_eq!(prompt_search_query(Some("  tag ")), Ok("tag".into()));
    assert!(prompt_search_query(Some(&"é".repeat(200))).is_ok());
    assert_eq!(
        prompt_search_query(Some(&"x".repeat(201))),
        Err(AppError::InvalidPrompt("prompt search is limited to 200 characters".into()))
    );
}

fn bare_metadata() -> ExportMetadata {
    ExportMetadata {
        name: None,
        declared_version: None,
        description: None,
        tags: Vec::new(),
        recommended_models: Vec::new(),
        temperature: None,
        top_p: None,
        top_k: None,
        context_reserve: None,
        collection: None,
        extra: Vec::new(),
    }
}

#[test]
fn normalized_document_writes_name_and_declared_version() {
    let mut metadata = bare_metadata();
    metadata.name = Some("Exact".into());
    metadata.declared_version = Some("2".into());
    assert_eq!(
        normalized_document(&metadata, "Body"),
        Ok("---\n{\n  \"name\": \"Exact\",\n  \"version\": \"2\"\n}\n---\nBody".to_string())
    );
    assert_eq!(normalized_document(&bare_metadata(), "Body"), Ok("---\n{}\n---\nBody".to_string()));
}

#[test]
fn normalized_entries_skip_empty_lists_and_keep_known_keys() {
    let mut metadata = bare_metadata();
    metadata.name = Some("Exact".into());
    metadata.declared_version = Some("2".into());
    metadata.recommended_models = vec!["qwen".into()];
    metadata.temperature = Some("0.7".into());
    metadata.top_k = Some(40);
    metadata.extra = vec![("name".into(), "\"Other\"".into()), ("zeta".into(), "[1,2]".into())];
    let keys: Vec<String> = normalized_entries(&metadata).into_iter().map(|(key, _)| key).collect();
    assert_eq!(keys, vec!["name", "version", "recommended_models", "temperature", "top_k", "zeta"]);
    let entries = normalized_entries(&metadata);
    assert!(matches!(&entries[0].1, ExportValue::Text(text) if text == "Exact"));
    assert!(matches!(&entries[4].1, ExportValue::Json(text) if text == "40"));
    let document = normalized_document(&metadata, "Body").unwrap();
    assert!(document.contains("\"name\": \"Exact\""));
    assert!(!document.contains("Other"));
    assert!(document.contains("\"temperature\": 0.7"));
    assert!(document.contains("\"top_k\": 40"));
    assert!(document.contains("\"recommended_models\": [\n    \"qwen\"\n  ]"));
    assert!(document.ends_with("\n}\n---\nBody"));
    metadata.extra = vec![("zeta".into(), "not json".into())];
    let error = normalized_document(&metadata, "Body").unwrap_err();
    assert!(matches!(error, AppError::Operation(text) if text.starts_with("normalized prompt metadata could not be exported: ")));
}

fn key(id: &str, version: i64, hash: &str) -> StoredVersionKey {
    StoredVersionKey { id: id.into(), version, source_hash: hash.into() }
}

#[test]
fn appends_new_versions_and_refuses_stale_bases() {
    let versions = vec![key("v1", 1, "h1")];
    assert_eq!(decide_append("p1", true, &versions, "v1", "h2"), Ok(AppendDecision::Insert(2)));
    let versions = vec![key("v1", 1, "h1"), key("v2", 2, "h2")];
    assert_eq!(
        decide_append("p1", true, &versions, "v1", "h3"),
        Err(AppError::Conflict("prompt p1 now has a newer version".into()))
    );
    assert_eq!(decide_append("p1", true, &versions, "v2", "h3"), Ok(AppendDecision::Insert(3)));
    assert_eq!(decide_append("p1", false, &versions, "v2", "h3"), Err(AppError::PromptNotFound("p1".into())));
    assert_eq!(
        decide_append("p1", true, &Vec::new(), "v2", "h3"),
        Err(AppError::Database("Query returned no rows".into()))
    );
    let last = vec![key("v9", u32::MAX as i64, "h9")];
    assert_eq!(
        decide_append("p1", true, &last, "v9", "h10"),
        Err(AppError::Operation("prompt version number overflowed".into()))
    );
}

#[test]
fn reimporting_an_unchanged_document_returns_the_stored_version() {
    let versions = vec![key("v1", 1, "h1")];
    assert_eq!(decide_append("p1", true, &versions, "v1", "h1"), Ok(AppendDecision::Existing(0)));
    let versions = vec![key("v1", 1, "h1"), key("v2", 2, "h2")];
    assert_eq!(decide_append("p1", true, &versions, "v2", "h1"), Ok(AppendDecision::Existing(0)));
    assert_eq!(decide_append("p1", true, &versions, "v2", "h2"), Ok(AppendDecision::Existing(1)));
}
