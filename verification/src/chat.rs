//! The rules of a chat generation: which requests are accepted, when the loaded session may
//! serve them, how streamed text is batched for the interface, and what is stored when the
//! generation ends.
use vstd::prelude::*;
use crate::context::{
    input_token_budget, messages_view, order_error_text, reserve_overflow_text, window_spec, ChatMessage,
    ChatOrderError, ChatRole, ContextWindowReport, MessageSpec, RollingContextWindow, WindowSpec,
    CONTEXT_SAFETY_TOKENS,
};
use crate::conversations::ConversationMessageState;
use crate::engines::{utf8_len, TokenChunk, Usage};
use crate::errors::{is_error, message_prefix, AppError, ErrorKind};
use crate::lifecycle::EngineLifecycle;
use crate::text::{all_whitespace, cat, is_blank, is_valid_id, str_eq, valid_id};
use vstd::string::StringExecFns;

verus! {

pub const MAX_MESSAGES: usize = 128;
pub const MAX_CHAT_MESSAGE_BYTES: usize = 262144;
pub const MAX_TOTAL_MESSAGE_BYTES: usize = 786432;
pub const TOKEN_BATCH_BYTES: usize = 256;

/// A request to generate the assistant's reply to the final user message.
#[derive(Debug, Clone)]
pub struct StartChatGenerationRequest {
    pub job_id: String,
    pub conversation_id: String,
    pub user_message_id: String,
    pub message_id: String,
    pub session_id: String,
    pub prompt_version_id: Option<String>,
    pub messages: Vec<ChatMessage>,
    pub max_output_tokens: u32,
}

#[derive(Debug, Clone)]
pub struct CancelChatGenerationRequest {
    pub job_id: String,
}

/// Where a generation is, as the interface is told.
#[derive(Debug, Clone, Copy, PartialEq, Eq, Structural)]
pub enum ChatGenerationState {
    Started,
    Completed,
    Cancelled,
    Failed,
}

#[derive(Debug, Clone)]
pub struct ChatStateEvent {
    pub job_id: String,
    pub conversation_id: String,
    pub message_id: String,
    pub state: ChatGenerationState,
    pub error: Option<String>,
}

#[derive(Debug, Clone)]
pub struct ChatTokenBatch {
    pub job_id: String,
    pub conversation_id: String,
    pub message_id: String,
    pub text: String,
}

#[derive(Debug, Clone)]
pub struct ChatUsageEvent {
    pub job_id: String,
    pub conversation_id: String,
    pub message_id: String,
    pub usage: Usage,
}

#[derive(Debug, Clone)]
pub struct ChatContextEvent {
    pub job_id: String,
    pub conversation_id: String,
    pub message_id: String,
    pub context: ContextWindowReport,
}

#[derive(Debug, Clone)]
pub struct ChatGenerationResult {
    pub state: ChatGenerationState,
    pub usage: Option<Usage>,
    pub context: ContextWindowReport,
}

/// An identifier is accepted, or refused as `the {label} ID is invalid`.
pub fn validate_id(value: &str, label: &str) -> (result: Result<(), AppError>)
    ensures
        is_valid_id(value@) ==> result is Ok,
        !is_valid_id(value@) ==> (result matches Err(e) && is_error(e, ErrorKind::Operation, "the "@ + label@ + " ID is invalid"@)),
{
    if valid_id(value) {
        Ok(())
    } else {
        let mut text = cat("the ", label);
        text.append(" ID is invalid");
        Err(AppError::Operation(text))
    }
}

/// The label of the first identifier of the request that is refused, checked in the order
/// chat job, conversation, user message, message, engine session, prompt version.
pub open spec fn first_invalid_request_id(r: StartChatGenerationRequest) -> Option<Seq<char>> {
    if !is_valid_id(r.job_id@) {
        Some("chat job"@)
    } else if !is_valid_id(r.conversation_id@) {
        Some("conversation"@)
    } else if !is_valid_id(r.user_message_id@) {
        Some("user message"@)
    } else if !is_valid_id(r.message_id@) {
        Some("message"@)
    } else if !is_valid_id(r.session_id@) {
        Some("engine session"@)
    } else if (r.prompt_version_id matches Some(p) && !is_valid_id(p@)) {
        Some("prompt version"@)
    } else {
        None
    }
}

/// The message's text is not blank and holds at most 256 KiB.
pub open spec fn message_fits(m: MessageSpec) -> bool {
    !all_whitespace(m.content) && utf8_len(m.content) <= MAX_CHAT_MESSAGE_BYTES
}

/// The combined UTF-8 size of the messages' text.
pub open spec fn total_bytes(messages: Seq<MessageSpec>) -> nat
    decreases messages.len(),
{
    if messages.len() == 0 {
        0
    } else {
        total_bytes(messages.drop_last()) + utf8_len(messages.last().content) as nat
    }
}

/// The checks on a chat request, the first failure reported: identifiers, 1 to 128 messages,
/// a final user message, each message non-blank and at most 256 KiB, at most 768 KiB in all,
/// and 1 to 4096 output tokens.
pub open spec fn chat_request_check(r: StartChatGenerationRequest) -> Result<(), Seq<char>> {
    let messages = messages_view(r.messages@);
    match first_invalid_request_id(r) {
        Some(label) => Err("the "@ + label + " ID is invalid"@),
        None => if messages.len() == 0 || messages.len() > MAX_MESSAGES {
            Err("chat requires between 1 and 128 messages"@)
        } else if messages.last().role != ChatRole::User {
            Err("the final chat message must have the user role"@)
        } else if exists|i: int| 0 <= i < messages.len() && !message_fits(#[trigger] messages[i]) {
            Err("chat messages must be non-empty and no larger than 256 KiB"@)
        } else if total_bytes(messages) > MAX_TOTAL_MESSAGE_BYTES {
            Err("the combined chat history exceeds 768 KiB"@)
        } else if !(1 <= r.max_output_tokens <= 4096) {
            Err("maximum output tokens must be between 1 and 4096"@)
        } else {
            Ok(())
        },
    }
}

fn operation(text: &str) -> (e: AppError)
    ensures
        is_error(e, ErrorKind::Operation, text@),
{
    AppError::Operation(text.to_owned())
}

/// Accepts or refuses a chat request, as `chat_request_check` says.
pub fn validate_request(request: &StartChatGenerationRequest) -> (result: Result<(), AppError>)
    ensures
        match (result, chat_request_check(*request)) {
            (Ok(()), Ok(())) => true,
            (Err(e), Err(d)) => is_error(e, ErrorKind::Operation, d),
            _ => false,
        },
{
    match validate_id(request.job_id.as_str(), "chat job") {
        Err(e) => return Err(e),
        Ok(()) => {},
    }
    match validate_id(request.conversation_id.as_str(), "conversation") {
        Err(e) => return Err(e),
        Ok(()) => {},
    }
    match validate_id(request.user_message_id.as_str(), "user message") {
        Err(e) => return Err(e),
        Ok(()) => {},
    }
    match validate_id(request.message_id.as_str(), "message") {
        Err(e) => return Err(e),
        Ok(()) => {},
    }
    match validate_id(request.session_id.as_str(), "engine session") {
        Err(e) => return Err(e),
        Ok(()) => {},
    }
    match &request.prompt_version_id {
        Some(p) => match validate_id(p.as_str(), "prompt version") {
            Err(e) => return Err(e),
            Ok(()) => {},
        },
        None => {},
    }
    let ghost messages = messages_view(request.messages@);
    let n = request.messages.len();
    if n == 0 || n > MAX_MESSAGES {
        return Err(operation("chat requires between 1 and 128 messages"));
    }
    if request.messages[n - 1].role != ChatRole::User {
        return Err(operation("the final chat message must have the user role"));
    }
    let mut total: usize = 0;
    let mut i: usize = 0;
    while i < n
        invariant
            n == request.messages@.len(),
            messages == messages_view(request.messages@),
            0 < n <= MAX_MESSAGES,
            first_invalid_request_id(*request) is None,
            messages.last().role == ChatRole::User,
            i <= n,
            forall|k: int| 0 <= k < i ==> message_fits(#[trigger] messages[k]),
            total == total_bytes(messages.subrange(0, i as int)),
            total <= i * MAX_CHAT_MESSAGE_BYTES,
        decreases n - i,
    {
        let content = request.messages[i].content.as_str();
        if is_blank(content) || content.len() > MAX_CHAT_MESSAGE_BYTES {
            assert(!message_fits(messages[i as int]));
            return Err(operation("chat messages must be non-empty and no larger than 256 KiB"));
        }
        proof {
            assert(messages.subrange(0, i + 1).drop_last() =~= messages.subrange(0, i as int));
            assert((i + 1) * MAX_CHAT_MESSAGE_BYTES == i * MAX_CHAT_MESSAGE_BYTES + MAX_CHAT_MESSAGE_BYTES) by (nonlinear_arith);
            assert(i * MAX_CHAT_MESSAGE_BYTES <= 127 * MAX_CHAT_MESSAGE_BYTES) by (nonlinear_arith)
                requires i < 128;
        }
        total = total + content.len();
        i += 1;
    }
    assert(messages.subrange(0, n as int) =~= messages);
    if total > MAX_TOTAL_MESSAGE_BYTES {
        return Err(operation("the combined chat history exceeds 768 KiB"));
    }
    if !(1 <= request.max_output_tokens && request.max_output_tokens <= 4096) {
        return Err(operation("maximum output tokens must be between 1 and 4096"));
    }
    Ok(())
}

/// The session that a generation may use: the runtime must be ready with the requested
/// session, and report the loaded model and its context capacity.
pub open spec fn ready_session_check(
    lifecycle: EngineLifecycle,
    session_id: Option<Seq<char>>,
    requested: Seq<char>,
    model_id: Option<Seq<char>>,
    context_size: Option<u32>,
) -> Result<(Seq<char>, u32), Seq<char>> {
    if lifecycle != EngineLifecycle::Ready || session_id != Some(requested) {
        Err("the selected model session is no longer ready"@)
    } else {
        match model_id {
            None => Err("the ready model session has no model identity"@),
            Some(m) => match context_size {
                None => Err("the ready model session has no context capacity"@),
                Some(c) => Ok((m, c)),
            },
        }
    }
}

pub open spec fn opt_str(v: Option<&str>) -> Option<Seq<char>> {
    match v {
        Some(s) => Some(s@),
        None => None,
    }
}

/// The model identity and context capacity of the ready session, or why it cannot serve.
pub fn check_ready_session(
    lifecycle: EngineLifecycle,
    session_id: Option<&str>,
    requested: &str,
    model_id: Option<&str>,
    context_size: Option<u32>,
) -> (result: Result<(String, u32), AppError>)
    ensures
        match (result, ready_session_check(lifecycle, opt_str(session_id), requested@, opt_str(model_id), context_size)) {
            (Ok((m, c)), Ok((m2, c2))) => m@ == m2 && c == c2,
            (Err(e), Err(d)) => is_error(e, ErrorKind::Engine, d),
            _ => false,
        },
{
    let same = match session_id {
        Some(s) => str_eq(s, requested),
        None => false,
    };
    if lifecycle != EngineLifecycle::Ready || !same {
        return Err(AppError::Engine("the selected model session is no longer ready".to_owned()));
    }
    let model = match model_id {
        Some(m) => m,
        None => return Err(AppError::Engine("the ready model session has no model identity".to_owned())),
    };
    let capacity = match context_size {
        Some(c) => c,
        None => return Err(AppError::Engine("the ready model session has no context capacity".to_owned())),
    };
    Ok((model.to_owned(), capacity))
}

/// What a chat turn starts from once every check before the first write has passed: the
/// loaded model, its context capacity, the input budget left beside the response reserve,
/// and the request split into its rolling window.
pub struct PreparedTurn {
    pub model_id: String,
    pub context_capacity: u32,
    pub input_token_budget: u32,
    pub window: RollingContextWindow,
}

/// The first refusal of a chat turn, in the order the command makes its checks: the request
/// itself, then the session, then the response reserve against the context capacity, then
/// the order of the messages. `None` when all of them pass.
pub open spec fn turn_refusal(
    request: StartChatGenerationRequest,
    lifecycle: EngineLifecycle,
    session_id: Option<Seq<char>>,
    model_id: Option<Seq<char>>,
    context_size: Option<u32>,
) -> Option<(ErrorKind, Seq<char>)> {
    match chat_request_check(request) {
        Err(d) => Some((ErrorKind::Operation, d)),
        Ok(_) => match ready_session_check(lifecycle, session_id, request.session_id@, model_id, context_size) {
            Err(d) => Some((ErrorKind::Engine, d)),
            Ok((_, c)) => if c < request.max_output_tokens + CONTEXT_SAFETY_TOKENS {
                Some((ErrorKind::Operation, reserve_overflow_text(c, request.max_output_tokens)))
            } else {
                match window_spec(messages_view(request.messages@)) {
                    Err(e) => Some((ErrorKind::Operation, order_error_text(e))),
                    Ok(_) => None,
                }
            },
        },
    }
}

/// Runs the checks that precede the first write of a chat turn, in order, and returns what
/// the turn needs or the first refusal (`turn_refusal`).
pub fn prepare_chat_turn(
    request: &StartChatGenerationRequest,
    lifecycle: EngineLifecycle,
    session_id: Option<&str>,
    model_id: Option<&str>,
    context_size: Option<u32>,
) -> (result: Result<PreparedTurn, AppError>)
    ensures
        match turn_refusal(*request, lifecycle, opt_str(session_id), opt_str(model_id), context_size) {
            Some((kind, detail)) => result matches Err(e) && is_error(e, kind, detail),
            None => result matches Ok(turn) && opt_str(model_id) == Some(turn.model_id@)
                && context_size == Some(turn.context_capacity)
                && turn.input_token_budget == turn.context_capacity - request.max_output_tokens
                    - CONTEXT_SAFETY_TOKENS
                && window_spec(messages_view(request.messages@)) == Ok::<WindowSpec, ChatOrderError>(turn.window@),
        },
{
    if let Err(e) = validate_request(request) {
        return Err(e);
    }
    let (model, capacity) = match check_ready_session(
        lifecycle,
        session_id,
        request.session_id.as_str(),
        model_id,
        context_size,
    ) {
        Ok(found) => found,
        Err(e) => return Err(e),
    };
    let budget = match input_token_budget(capacity, request.max_output_tokens) {
        Ok(b) => b,
        Err(e) => return Err(e),
    };
    let window = match RollingContextWindow::from_messages(request.messages.as_slice()) {
        Ok(w) => w,
        Err(e) => return Err(e),
    };
    Ok(PreparedTurn { model_id: model, context_capacity: capacity, input_token_budget: budget, window })
}

// ---------------------------------------------------------------------------------------------
// Token batching
/// Collects a job's streamed chunks and hands them to the interface in batches of at least
/// 256 bytes, or whenever the clock ticks. Chunks of other jobs and chunks that do not advance
/// the sequence are ignored.
pub struct TokenBatcher {
    job_id: String,
    last_sequence: u64,
    pending: String,
    complete: String,
    delivered: Ghost<Seq<char>>,
}

impl TokenBatcher {
    /// Every accepted text is either delivered or pending, in order.
    #[verifier::type_invariant]
    closed spec fn wf(self) -> bool {
        self.complete@ == self.delivered@ + self.pending@
    }

    pub closed spec fn job(&self) -> Seq<char> {
        self.job_id@
    }

    pub closed spec fn last(&self) -> u64 {
        self.last_sequence
    }

    /// The text accepted so far.
    pub closed spec fn complete_text(&self) -> Seq<char> {
        self.complete@
    }

    /// The text already handed out in batches.
    pub closed spec fn delivered_text(&self) -> Seq<char> {
        self.delivered@
    }

    /// The text waiting for the next batch.
    pub closed spec fn pending_text(&self) -> Seq<char> {
        self.pending@
    }

    pub fn new(job_id: String) -> (batcher: TokenBatcher)
        ensures
            batcher.job() == job_id@,
            batcher.last() == 0,
            batcher.complete_text() == Seq::<char>::empty(),
            batcher.delivered_text() == Seq::<char>::empty(),
            batcher.pending_text() == Seq::<char>::empty(),
    {
        TokenBatcher { job_id, last_sequence: 0, pending: String::new(), complete: String::new(), delivered: Ghost(Seq::empty()) }
    }

    fn take_pending(&mut self) -> (batch: String)
        ensures
            batch@ == old(self).pending@,
            final(self).pending@ == Seq::<char>::empty(),
            final(self).delivered@ == old(self).delivered@ + old(self).pending@,
            final(self).complete@ == old(self).complete@,
            final(self).job_id@ == old(self).job_id@,
            final(self).last_sequence == old(self).last_sequence,
    {
        proof { use_type_invariant(&*self); }
        let mut taken = TokenBatcher::new(String::new());
        std::mem::swap(&mut taken, self);
        let TokenBatcher { job_id, last_sequence, pending, complete, delivered } = taken;
        let ghost now_delivered = delivered@ + pending@;
        assert(complete@ =~= now_delivered + Seq::<char>::empty());
        *self = TokenBatcher { job_id, last_sequence, pending: String::new(), complete, delivered: Ghost(now_delivered) };
        pending
    }

    /// Takes one chunk. A chunk of this job with a higher sequence number is added to the
    /// text; once 256 bytes or more are pending they are returned as a batch.
    pub fn accept(&mut self, chunk: TokenChunk) -> (batch: Option<String>)
        ensures
            final(self).job() == old(self).job(),
            !(chunk.job_id@ == old(self).job() && chunk.sequence > old(self).last()) ==> {
                &&& batch is None
                &&& final(self).last() == old(self).last()
                &&& final(self).complete_text() == old(self).complete_text()
                &&& final(self).delivered_text() == old(self).delivered_text()
                &&& final(self).pending_text() == old(self).pending_text()
            },
            chunk.job_id@ == old(self).job() && chunk.sequence > old(self).last() ==> {
                &&& final(self).last() == chunk.sequence
                &&& final(self).complete_text() == old(self).complete_text() + chunk.text@
                &&& if utf8_len(old(self).pending_text() + chunk.text@) >= TOKEN_BATCH_BYTES {
                    &&& batch matches Some(b)
                    &&& b@ == old(self).pending_text() + chunk.text@
                    &&& final(self).delivered_text() == old(self).delivered_text() + b@
                    &&& final(self).pending_text() == Seq::<char>::empty()
                } else {
                    &&& batch is None
                    &&& final(self).delivered_text() == old(self).delivered_text()
                    &&& final(self).pending_text() == old(self).pending_text() + chunk.text@
                }
            },
    {
        proof { use_type_invariant(&*self); }
        if !str_eq(chunk.job_id.as_str(), self.job_id.as_str()) || chunk.sequence <= self.last_sequence {
            return None;
        }
        let mut taken = TokenBatcher::new(String::new());
        std::mem::swap(&mut taken, self);
        let TokenBatcher { job_id, last_sequence: _, mut pending, mut complete, delivered } = taken;
        complete.append(chunk.text.as_str());
        pending.append(chunk.text.as_str());
        assert(complete@ =~= delivered@ + pending@);
        *self = TokenBatcher { job_id, last_sequence: chunk.sequence, pending, complete, delivered };
        if self.pending.as_str().len() >= TOKEN_BATCH_BYTES {
            Some(self.take_pending())
        } else {
            None
        }
    }

    /// On a clock tick: the pending text as a batch, if there is any.
    pub fn flush(&mut self) -> (batch: Option<String>)
        ensures
            final(self).job() == old(self).job(),
            final(self).last() == old(self).last(),
            final(self).complete_text() == old(self).complete_text(),
            old(self).pending_text().len() == 0 ==> batch is None && final(self).delivered_text() == old(self).delivered_text(),
            old(self).pending_text().len() > 0 ==> (batch matches Some(b) && b@ == old(self).pending_text()
                && final(self).delivered_text() == old(self).delivered_text() + b@),
            final(self).pending_text() == Seq::<char>::empty(),
    {
        if self.pending.as_str().unicode_len() == 0 {
            return None;
        }
        Some(self.take_pending())
    }

    /// When the stream closes: the last batch, if any, and the whole text accepted.
    pub fn finish(&mut self) -> (last: (Option<String>, String))
        ensures
            last.1@ == old(self).complete_text(),
            match last.0 {
                Some(b) => b@ == old(self).pending_text() && old(self).pending_text().len() > 0,
                None => old(self).pending_text().len() == 0,
            },
            final(self).delivered_text() == old(self).complete_text(),
    {
        proof { use_type_invariant(&*self); }
        let batch = self.flush();
        (batch, self.complete.clone())
    }
}

// ---------------------------------------------------------------------------------------------
// Ending a generation
/// What the assistant draft becomes and what the interface is told when a generation ends.
#[derive(Debug, Clone)]
pub struct Finalization {
    pub message_state: ConversationMessageState,
    pub usage: Option<Usage>,
    pub terminal_reason: String,
    pub generation_state: ChatGenerationState,
    pub error: Option<String>,
}

/// The user-facing text of an error, as `to_string` renders it.
pub open spec fn error_text(e: AppError) -> Seq<char> {
    message_prefix(e.kind_spec()) + e.detail_spec()
}

/// A finished generation is stored complete with its usage and reason `completed`; a
/// cancelled one is stored cancelled with reason `cancelled_by_user`; any other failure is
/// stored failed with the error text as its reason, and the interface is told that text.
pub fn finalization_for(result: &Result<Usage, AppError>) -> (f: Finalization)
    ensures
        match *result {
            Ok(u) => {
                &&& f.message_state == ConversationMessageState::Complete
                &&& f.usage == Some(u)
                &&& f.terminal_reason@ == "completed"@
                &&& f.generation_state == ChatGenerationState::Completed
                &&& f.error is None
            },
            Err(e) => if e is Cancelled {
                &&& f.message_state == ConversationMessageState::Cancelled
                &&& f.usage is None
                &&& f.terminal_reason@ == "cancelled_by_user"@
                &&& f.generation_state == ChatGenerationState::Cancelled
                &&& f.error is None
            } else {
                &&& f.message_state == ConversationMessageState::Failed
                &&& f.usage is None
                &&& f.terminal_reason@ == error_text(e)
                &&& f.generation_state == ChatGenerationState::Failed
                &&& f.error matches Some(t) && t@ == error_text(e)
            },
        },
{
    match result {
        Ok(u) => Finalization {
            message_state: ConversationMessageState::Complete,
            usage: Some(*u),
            terminal_reason: "completed".to_owned(),
            generation_state: ChatGenerationState::Completed,
            error: None,
        },
        Err(AppError::Cancelled(_)) => Finalization {
            message_state: ConversationMessageState::Cancelled,
            usage: None,
            terminal_reason: "cancelled_by_user".to_owned(),
            generation_state: ChatGenerationState::Cancelled,
            error: None,
        },
        Err(e) => {
            let detail = e.message();
            Finalization {
                message_state: ConversationMessageState::Failed,
                usage: None,
                terminal_reason: detail.clone(),
                generation_state: ChatGenerationState::Failed,
                error: Some(detail),
            }
        },
    }
}

/// When the token delivery itself fails, the draft is stored failed with no text and the
/// error text as its reason, and the interface is told that text.
pub fn delivery_failure(error: &AppError) -> (f: Finalization)
    ensures
        f.message_state == ConversationMessageState::Failed,
        f.usage is None,
        f.terminal_reason@ == error_text(*error),
        f.generation_state == ChatGenerationState::Failed,
        f.error matches Some(t) && t@ == error_text(*error),
{
    let detail = error.message();
    Finalization {
        message_state: ConversationMessageState::Failed,
        usage: None,
        terminal_reason: detail.clone(),
        generation_state: ChatGenerationState::Failed,
        error: Some(detail),
    }
}

/// What the command answers once the draft is stored: completed and cancelled generations
/// are results, any other failure is returned as the error.
pub fn generation_answer(result: Result<Usage, AppError>, context: ContextWindowReport) -> (answer: Result<ChatGenerationResult, AppError>)
    ensures
        match result {
            Ok(u) => (answer matches Ok(r) && r.state == ChatGenerationState::Completed && r.usage == Some(u) && r.context == context),
            Err(e) => if e is Cancelled {
                (answer matches Ok(r) && r.state == ChatGenerationState::Cancelled && r.usage is None && r.context == context)
            } else {
                answer == Err::<ChatGenerationResult, AppError>(e)
            },
        },
{
    match result {
        Ok(u) => Ok(ChatGenerationResult { state: ChatGenerationState::Completed, usage: Some(u), context }),
        Err(AppError::Cancelled(d)) => Ok(ChatGenerationResult { state: ChatGenerationState::Cancelled, usage: None, context }),
        Err(e) => Err(e),
    }
}

} // verus!
