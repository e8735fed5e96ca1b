use neuraloc_core::conversations::{
    check_turn_binding, export_conversation, safe_file_stem, title_from_message, validate_begin_turn,
    validate_finalize, validate_title, BeginTurnInput, ConversationMessage, ConversationMessageRole,
    ConversationMessageState, finalize_target, stored_token_count, StoredDraftRow,
};
use neuraloc_core::engines::Usage;
use neuraloc_core::errors::AppError;

#[test]
fn rejects_multiline_conversation_titles() {
    assert!(validate_title("first\nsecond").is_err());
    assert_eq!(safe_file_stem("../../"), "conversation");
}

#[test]
fn titles_are_trimmed_and_bounded() {
    assert_eq!(validate_title("  Persistence review  ").unwrap(), "Persistence review");
    assert!(validate_title(&"t".repeat(121)).is_err());
    assert_eq!(
        validate_title("   "),
        Err(AppError::InvalidConversation("conversation titles must contain 1 to 120 characters".into()))
    );
}

#[test]
fn titles_from_messages_collapse_whitespace_and_truncate() {
    assert_eq!(title_from_message("Explain   durable\nlocal chat."), "Explain durable local chat.");
    assert_eq!(title_from_message("   "), "New conversation");
    let long = "a".repeat(90);
    assert_eq!(title_from_message(&long), format!("{}...", "a".repeat(80)));
    assert_eq!(safe_file_stem("Explain durable local chat."), "Explain-durable-local-chat");
}

#[test]
fn role_and_state_names_round_trip() {
    for role in [ConversationMessageRole::User, ConversationMessageRole::Assistant] {
        assert_eq!(ConversationMessageRole::parse(role.as_str()), Some(role));
    }
    for state in [
        ConversationMessageState::Draft,
        ConversationMessageState::Complete,
        ConversationMessageState::Cancelled,
        ConversationMessageState::Failed,
        ConversationMessageState::Interrupted,
    ] {
        assert_eq!(ConversationMessageState::parse(state.as_str()), Some(state));
    }
    assert_eq!(ConversationMessageState::parse("unknown"), None);
}

fn turn(model_id: &str) -> BeginTurnInput {
    BeginTurnInput {
        conversation_id: "conversation-1".into(),
        user_message_id: "job-1-user".into(),
        assistant_message_id: "job-1-assistant".into(),
        job_id: "job-1".into(),
        model_id: model_id.into(),
        prompt_version_id: None,
        user_content: "Explain durable local chat.".into(),
        max_output_tokens: 512,
    }
}

#[test]
fn begin_turn_checks_identifiers_content_and_limits() {
    assert!(validate_begin_turn(&turn("model-1")).is_ok());
    assert_eq!(
        validate_begin_turn(&turn("   ")),
        Err(AppError::InvalidConversation("the model ID is invalid".into()))
    );
    let mut input = turn("model-1");
    input.user_content = " ".into();
    assert_eq!(
        validate_begin_turn(&input),
        Err(AppError::InvalidConversation("the user message must be non-empty and no larger than 256 KiB".into()))
    );
    let mut input = turn("model-1");
    input.max_output_tokens = 0;
    assert_eq!(
        validate_begin_turn(&input),
        Err(AppError::InvalidConversation("maximum output tokens must be between 1 and 4096".into()))
    );
}

#[test]
fn binding_changes_are_conflicts() {
    assert!(check_turn_binding("model-1", None, "model-1", None).is_ok());
    assert_eq!(
        check_turn_binding("model-1", None, "model-2", None),
        Err(AppError::Conflict("the conversation model or prompt binding does not match".into()))
    );
    assert!(check_turn_binding("model-1", Some("p-1"), "model-1", None).is_err());
}

#[test]
fn finalizing_refuses_drafts_and_bad_reasons() {
    assert!(validate_finalize("job-1-assistant", "job-1", "text", ConversationMessageState::Complete, Some("completed")).is_ok());
    assert_eq!(
        validate_finalize("job-1-assistant", "job-1", "text", ConversationMessageState::Draft, None),
        Err(AppError::InvalidConversation("an assistant draft cannot be finalized as another draft".into()))
    );
    assert_eq!(
        validate_finalize("job-1-assistant", "job-1", "text", ConversationMessageState::Failed, Some("bad\0reason")),
        Err(AppError::InvalidConversation("the terminal reason is invalid".into()))
    );
}

fn stored(id: &str, role: ConversationMessageRole, content: &str, parent: Option<&str>, usage: Option<Usage>) -> ConversationMessage {
    ConversationMessage {
        id: id.into(),
        conversation_id: "conversation-export".into(),
        parent_id: parent.map(|p| p.into()),
        role,
        content: content.into(),
        state: ConversationMessageState::Complete,
        job_id: Some("job-export".into()),
        token_count: usage.map(|u| u.output_tokens),
        usage,
        terminal_reason: if role == ConversationMessageRole::Assistant { Some("completed".into()) } else { None },
        position: if role == ConversationMessageRole::User { 1 } else { 2 },
        created_at: "2025-01-01T00:00:00Z".into(),
        updated_at: "2025-01-01T00:00:00Z".into(),
    }
}

#[test]
fn exports_markdown_with_provenance_and_usage() {
    let usage = Usage { prompt_tokens: 21, output_tokens: 8, tokens_per_second_bits: 14.5f64.to_bits() };
    let messages = vec![
        stored("job-export-user", ConversationMessageRole::User, "Explain durable local chat.", None, None),
        stored("job-export-assistant", ConversationMessageRole::Assistant, "SQLite keeps the turn durable.", Some("job-export-user"), Some(usage)),
    ];
    let provenance = "{\n  \"schemaVersion\": 1,\n  \"modelId\": \"model-1\",\n  \"maxOutputTokens\": 512\n}";
    let rates = vec![String::new(), "14.5".to_string()];
    let exported = export_conversation("Explain durable local chat.", provenance, &messages, &rates).unwrap();
    assert_eq!(exported.media_type, "text/markdown;charset=utf-8");
    assert_eq!(exported.file_name, "Explain-durable-local-chat.md");
    assert!(exported.content.starts_with("# Explain durable local chat.\n\n## Provenance\n\n```json\n"));
    assert!(exported.content.contains("\"schemaVersion\": 1"));
    assert!(exported.content.contains("## 1. User"));
    assert!(exported.content.contains("Explain durable local chat."));
    assert!(exported.content.contains("## 2. Assistant"));
    assert!(exported.content.contains("SQLite keeps the turn durable."));
    assert!(exported.content.contains(" | Parent: `job-export-user`"));
    assert!(exported.content.contains("21 prompt, 8 output, 14.5 tok/s"));
    assert!(exported.content.contains(" | Terminal: `completed`"));
}

use neuraloc_core::conversations::{
    decode_stored_message, optional_u32, record_from_stored, summary_from_stored, validate_list_request,
    ListConversationsRequest, StoredConversation, StoredMessage,
};

#[test]
fn list_requests_are_bounded_with_defaults() {
    let query = validate_list_request(&ListConversationsRequest { query: Some("  Qwen ".into()), limit: None, offset: None }).unwrap();
    assert_eq!(query.query, "Qwen");
    assert_eq!(query.limit, 50);
    assert_eq!(query.offset, 0);
    assert_eq!(
        validate_list_request(&ListConversationsRequest { query: None, limit: Some(0), offset: None }).unwrap_err(),
        AppError::InvalidConversation("conversation pages must contain between 1 and 100 records".into())
    );
    assert_eq!(
        validate_list_request(&ListConversationsRequest { query: None, limit: Some(20), offset: Some(100_001) }).unwrap_err(),
        AppError::InvalidConversation("conversation pagination offset is too large".into())
    );
    assert_eq!(
        validate_list_request(&ListConversationsRequest { query: Some("q".repeat(201)), limit: None, offset: None }).unwrap_err(),
        AppError::InvalidConversation("conversation search is limited to 200 characters".into())
    );
}

fn stored_conversation(prompt_version: Option<i64>) -> StoredConversation {
    StoredConversation {
        id: "conversation-4".into(),
        title: "Persistence review".into(),
        model_id: "model-1".into(),
        model_name: "Qwen 4B".into(),
        prompt_version_id: None,
        prompt_name: None,
        prompt_version,
        generation_settings_json: "{\"maxOutputTokens\":512}".into(),
        context_strategy: "full_history".into(),
        pinned: 1,
        created_at: "2025-01-01T00:00:00Z".into(),
        updated_at: "2025-01-02T00:00:00Z".into(),
    }
}

#[test]
fn stored_rows_become_records_or_named_failures() {
    let summary = summary_from_stored(stored_conversation(Some(3)), 2).unwrap();
    assert!(summary.pinned);
    assert_eq!(summary.message_count, 2);
    assert_eq!(summary.prompt_version, Some(3));
    assert_eq!(
        summary_from_stored(stored_conversation(None), -1).unwrap_err(),
        AppError::Operation("conversation message count is invalid".into())
    );
    assert_eq!(
        record_from_stored(stored_conversation(Some(-2))).unwrap_err(),
        AppError::Operation("the stored prompt version is invalid".into())
    );
    assert_eq!(record_from_stored(stored_conversation(None)).unwrap().generation_settings_json, "{\"maxOutputTokens\":512}");
    assert_eq!(optional_u32(Some(7), "token count"), Ok(Some(7)));
    assert!(optional_u32(Some(1 << 40), "token count").is_err());

    let row = StoredMessage {
        id: "m-1".into(),
        conversation_id: "conversation-4".into(),
        parent_id: None,
        role: "assistant".into(),
        content_kind: "text".into(),
        content_text: "Hello".into(),
        token_count: Some(8),
        state: "complete".into(),
        job_id: Some("job-5".into()),
        usage: None,
        terminal_reason: Some("completed".into()),
        position: 2,
        created_at: "2025-01-01T00:00:00Z".into(),
        updated_at: "2025-01-01T00:00:00Z".into(),
    };
    let message = decode_stored_message(row.clone()).unwrap();
    assert_eq!(message.role, ConversationMessageRole::Assistant);
    assert_eq!(message.state, ConversationMessageState::Complete);
    assert_eq!(message.token_count, Some(8));
    let mut bad = row.clone();
    bad.state = "weird".into();
    assert_eq!(decode_stored_message(bad).unwrap_err(), AppError::Operation("message m-1 has an unknown state".into()));
    let mut bad = row;
    bad.content_kind = "image".into();
    assert_eq!(
        decode_stored_message(bad).unwrap_err(),
        AppError::Operation("message m-1 has an unsupported content type".into())
    );
}

#[test]
fn finalized_usage_is_stored_as_a_sqlite_count() {
    assert_eq!(stored_token_count(None), Ok(None));
    let usage = |output_tokens: u64| Usage { prompt_tokens: 3, output_tokens, tokens_per_second_bits: 0 };
    assert_eq!(stored_token_count(Some(usage(42))), Ok(Some(42)));
    assert_eq!(stored_token_count(Some(usage(i64::MAX as u64))), Ok(Some(i64::MAX)));
    assert_eq!(
        stored_token_count(Some(usage(i64::MAX as u64 + 1))),
        Err(AppError::Operation("chat token usage is too large to store".into()))
    );
    let conflict = Err(AppError::Conflict("the assistant draft is missing or already finalized".into()));
    assert_eq!(finalize_target(Some(draft_row("draft")), "job-1"), Ok("c1".to_string()));
    assert_eq!(finalize_target(None, "job-1"), conflict);
    assert_eq!(finalize_target(Some(draft_row("draft")), "job-2"), conflict);
    assert_eq!(finalize_target(Some(draft_row("complete")), "job-1"), conflict);
    let mut user = draft_row("draft");
    user.role = "user".into();
    assert_eq!(finalize_target(Some(user), "job-1"), conflict);
}

fn draft_row(state: &str) -> StoredDraftRow {
    StoredDraftRow {
        conversation_id: "c1".into(),
        job_id: Some("job-1".into()),
        role: "assistant".into(),
        state: state.into(),
    }
}

#[test]
fn a_finalized_draft_cannot_be_finalized_again() {
    let mut row = draft_row("draft");
    assert!(finalize_target(Some(row.clone()), "job-1").is_ok());
    row.state = ConversationMessageState::Complete.as_str().into();
    assert_eq!(
        finalize_target(Some(row), "job-1"),
        Err(AppError::Conflict("the assistant draft is missing or already finalized".into()))
    );
}
