use neuraloc_core::chat::{
    check_ready_session, delivery_failure, finalization_for, prepare_chat_turn, validate_request, ChatGenerationState,
    StartChatGenerationRequest, TokenBatcher, MAX_CHAT_MESSAGE_BYTES,
};
use neuraloc_core::context::{ChatMessage, ChatRole};
use neuraloc_core::conversations::ConversationMessageState;
use neuraloc_core::engines::{TokenChunk, Usage};
use neuraloc_core::errors::AppError;
use neuraloc_core::lifecycle::EngineLifecycle;

fn valid_request() -> StartChatGenerationRequest {
    StartChatGenerationRequest {
        job_id: "job-1".into(),
        conversation_id: "conversation-1".into(),
        user_message_id: "user-message-1".into(),
        message_id: "message-1".into(),
        session_id: "session-1".into(),
        prompt_version_id: None,
        messages: vec![ChatMessage { role: ChatRole::User, content: "Hello".into() }],
        max_output_tokens: 512,
    }
}

#[test]
fn validates_bounded_chat_requests() {
    assert!(validate_request(&valid_request()).is_ok());
    let mut request = valid_request();
    request.messages.insert(0, ChatMessage { role: ChatRole::System, content: "Review precisely.".into() });
    assert!(validate_request(&request).is_ok());
    let mut request = valid_request();
    request.messages[0].role = ChatRole::Assistant;
    assert!(validate_request(&request).is_err());
    let mut request = valid_request();
    request.messages[0].content = "x".repeat(MAX_CHAT_MESSAGE_BYTES + 1);
    assert!(validate_request(&request).is_err());
    let mut request = valid_request();
    request.max_output_tokens = 0;
    assert!(validate_request(&request).is_err());
}

#[test]
fn chat_request_errors_name_the_first_failing_check() {
    let mut request = valid_request();
    request.job_id = "bad\nid".into();
    assert_eq!(validate_request(&request), Err(AppError::Operation("the chat job ID is invalid".into())));
    let mut request = valid_request();
    request.prompt_version_id = Some(String::new());
    assert_eq!(validate_request(&request), Err(AppError::Operation("the prompt version ID is invalid".into())));
    let mut request = valid_request();
    request.messages.clear();
    assert_eq!(validate_request(&request), Err(AppError::Operation("chat requires between 1 and 128 messages".into())));
    let mut request = valid_request();
    request.messages[0].content = "   ".into();
    assert_eq!(
        validate_request(&request),
        Err(AppError::Operation("chat messages must be non-empty and no larger than 256 KiB".into()))
    );
    let mut request = valid_request();
    request.messages = (0..4)
        .map(|_| ChatMessage { role: ChatRole::User, content: "y".repeat(MAX_CHAT_MESSAGE_BYTES) })
        .collect();
    assert_eq!(validate_request(&request), Err(AppError::Operation("the combined chat history exceeds 768 KiB".into())));
    let mut request = valid_request();
    request.max_output_tokens = 4097;
    assert_eq!(
        validate_request(&request),
        Err(AppError::Operation("maximum output tokens must be between 1 and 4096".into()))
    );
}

#[test]
fn ready_session_gives_model_and_capacity() {
    assert_eq!(
        check_ready_session(EngineLifecycle::Ready, Some("s-1"), "s-1", Some("m-1"), Some(4096)),
        Ok(("m-1".to_string(), 4096))
    );
    assert_eq!(
        check_ready_session(EngineLifecycle::Busy, Some("s-1"), "s-1", Some("m-1"), Some(4096)),
        Err(AppError::Engine("the selected model session is no longer ready".into()))
    );
    assert_eq!(
        check_ready_session(EngineLifecycle::Ready, Some("s-2"), "s-1", Some("m-1"), Some(4096)),
        Err(AppError::Engine("the selected model session is no longer ready".into()))
    );
    assert_eq!(
        check_ready_session(EngineLifecycle::Ready, Some("s-1"), "s-1", None, Some(4096)),
        Err(AppError::Engine("the ready model session has no model identity".into()))
    );
    assert_eq!(
        check_ready_session(EngineLifecycle::Ready, Some("s-1"), "s-1", Some("m-1"), None),
        Err(AppError::Engine("the ready model session has no context capacity".into()))
    );
}

fn chunk(job: &str, sequence: u64, text: &str) -> TokenChunk {
    TokenChunk { job_id: job.into(), sequence, text: text.into() }
}

#[test]
fn token_batcher_delivers_every_accepted_chunk_once_in_order() {
    let mut batcher = TokenBatcher::new("job-1".into());
    assert_eq!(batcher.accept(chunk("job-1", 1, "Hel")), None);
    assert_eq!(batcher.accept(chunk("job-2", 2, "ignored")), None);
    assert_eq!(batcher.accept(chunk("job-1", 1, "stale")), None);
    assert_eq!(batcher.accept(chunk("job-1", 2, "lo")), None);
    assert_eq!(batcher.flush(), Some("Hello".to_string()));
    assert_eq!(batcher.flush(), None);
    let long = "z".repeat(300);
    assert_eq!(batcher.accept(chunk("job-1", 3, &long)), Some(long.clone()));
    assert_eq!(batcher.accept(chunk("job-1", 4, "!")), None);
    let (last, complete) = batcher.finish();
    assert_eq!(last, Some("!".to_string()));
    assert_eq!(complete, format!("Hello{long}!"));
}

#[test]
fn finalization_follows_the_generation_result() {
    let usage = Usage { prompt_tokens: 21, output_tokens: 8, tokens_per_second_bits: 14.5f64.to_bits() };
    let done = finalization_for(&Ok(usage));
    assert_eq!(done.message_state, ConversationMessageState::Complete);
    assert_eq!(done.terminal_reason, "completed");
    assert_eq!(done.generation_state, ChatGenerationState::Completed);
    assert_eq!(done.usage, Some(usage));
    let cancelled = finalization_for(&Err(AppError::Cancelled("stop".into())));
    assert_eq!(cancelled.message_state, ConversationMessageState::Cancelled);
    assert_eq!(cancelled.terminal_reason, "cancelled_by_user");
    assert_eq!(cancelled.error, None);
    let failed = finalization_for(&Err(AppError::Engine("crashed".into())));
    assert_eq!(failed.message_state, ConversationMessageState::Failed);
    assert_eq!(failed.terminal_reason, "The inference engine operation failed: crashed");
    assert_eq!(failed.error, Some("The inference engine operation failed: crashed".to_string()));
    let lost = delivery_failure(&AppError::Operation("the window closed".into()));
    assert_eq!(lost.generation_state, ChatGenerationState::Failed);
    assert_eq!(lost.terminal_reason, "The operation could not be completed: the window closed");
}

use neuraloc_core::chat::generation_answer;
use neuraloc_core::context::ContextWindowReport;

fn report() -> ContextWindowReport {
    ContextWindowReport {
        strategy: "rolling_window".into(),
        context_capacity: 4096,
        input_token_budget: 3552,
        input_tokens: 21,
        reserved_output_tokens: 512,
        safety_tokens: 32,
        retained_history_messages: 0,
        omitted_history_messages: 0,
        approximate: false,
    }
}

#[test]
fn answers_follow_the_generation_result() {
    let usage = Usage { prompt_tokens: 21, output_tokens: 8, tokens_per_second_bits: 0 };
    let done = generation_answer(Ok(usage), report()).unwrap();
    assert_eq!(done.state, ChatGenerationState::Completed);
    assert_eq!(done.usage, Some(usage));
    let cancelled = generation_answer(Err(AppError::Cancelled("stop".into())), report()).unwrap();
    assert_eq!(cancelled.state, ChatGenerationState::Cancelled);
    assert_eq!(cancelled.usage, None);
    assert_eq!(
        generation_answer(Err(AppError::Engine("crashed".into())), report()).unwrap_err(),
        AppError::Engine("crashed".into())
    );
}

#[test]
fn chat_turn_checks_run_in_order_before_any_write() {
    let mut request = valid_request();
    request.messages.insert(0, ChatMessage { role: ChatRole::User, content: "Earlier".into() });
    request.messages.insert(1, ChatMessage { role: ChatRole::Assistant, content: "Reply".into() });
    let turn = prepare_chat_turn(&request, EngineLifecycle::Ready, Some("session-1"), Some("model-1"), Some(4096))
        .unwrap();
    assert_eq!(turn.model_id, "model-1");
    assert_eq!(turn.context_capacity, 4096);
    assert_eq!(turn.input_token_budget, 4096 - 512 - 32);
    assert_eq!(turn.window.history_turn_count(), 1);
    assert_eq!(turn.window.history_message_count(), 2);

    let mut invalid = request.clone();
    invalid.job_id = String::new();
    assert_eq!(
        prepare_chat_turn(&invalid, EngineLifecycle::Stopped, None, None, None).err(),
        Some(AppError::Operation("the chat job ID is invalid".into()))
    );
    assert_eq!(
        prepare_chat_turn(&request, EngineLifecycle::Ready, Some("session-2"), Some("model-1"), Some(4096)).err(),
        Some(AppError::Engine("the selected model session is no longer ready".into()))
    );
    assert_eq!(
        prepare_chat_turn(&request, EngineLifecycle::Ready, Some("session-1"), Some("model-1"), Some(540)).err(),
        Some(AppError::Operation(
            "the 512-token response reserve leaves no room in the 540-token context window; lower the response limit"
                .into()
        ))
    );
    let mut assistant_first = valid_request();
    assistant_first.messages.insert(0, ChatMessage { role: ChatRole::Assistant, content: "Hi".into() });
    assert_eq!(
        prepare_chat_turn(&assistant_first, EngineLifecycle::Ready, Some("session-1"), Some("model-1"), Some(4096))
            .err(),
        Some(AppError::Operation("chat history cannot begin with an assistant message".into()))
    );
}
