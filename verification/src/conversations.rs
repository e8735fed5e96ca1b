//! Durable chat history: message roles and states, the validation of every change, titles,
//! decoding of stored rows and the bounded Markdown export.
use vstd::prelude::*;
use crate::engines::{utf8_len, Usage};
use crate::errors::{is_error, AppError, ErrorKind};
use crate::text::{
    texts, all_digits, decimal_value, lemma_decimal_chars_value,
    all_whitespace, ascii_alnum, cat, char_count, chars_of, collapse_whitespace,
    collapse_whitespace_spec, contains_char, decimal_chars, decimal_string, is_ascii_alnum,
    is_blank, is_valid_id, str_eq, string_of, take_chars, take_prefix, trim, trim_spec, valid_id,
};
use vstd::string::StringExecFns;

verus! {

pub const MAX_MESSAGE_BYTES: usize = 262144;
pub const MAX_ASSISTANT_BYTES: usize = 1048576;
pub const MAX_CONVERSATION_EXPORT_BYTES: usize = 16777216;

/// Who wrote a stored message.
#[derive(Debug, Clone, Copy, PartialEq, Eq, Structural)]
pub enum ConversationMessageRole {
    User,
    Assistant,
}

pub open spec fn role_text(role: ConversationMessageRole) -> Seq<char> {
    match role {
        ConversationMessageRole::User => "user"@,
        ConversationMessageRole::Assistant => "assistant"@,
    }
}

pub open spec fn parse_role_spec(value: Seq<char>) -> Option<ConversationMessageRole> {
    if value == "user"@ {
        Some(ConversationMessageRole::User)
    } else if value == "assistant"@ {
        Some(ConversationMessageRole::Assistant)
    } else {
        None
    }
}

impl ConversationMessageRole {
    /// The stored name of the role.
    pub fn as_str(self) -> (text: &'static str)
        ensures
            text@ == role_text(self),
    {
        match self {
            ConversationMessageRole::User => "user",
            ConversationMessageRole::Assistant => "assistant",
        }
    }

    /// The role a stored name denotes.
    pub fn parse(value: &str) -> (role: Option<ConversationMessageRole>)
        ensures
            role == parse_role_spec(value@),
    {
        if str_eq(value, "user") {
            Some(ConversationMessageRole::User)
        } else if str_eq(value, "assistant") {
            Some(ConversationMessageRole::Assistant)
        } else {
            None
        }
    }
}

/// Where a stored message is in its life.
#[derive(Debug, Clone, Copy, PartialEq, Eq, Structural)]
pub enum ConversationMessageState {
    Complete,
    Draft,
    Cancelled,
    Failed,
    Interrupted,
}

pub open spec fn state_text(state: ConversationMessageState) -> Seq<char> {
    match state {
        ConversationMessageState::Complete => "complete"@,
        ConversationMessageState::Draft => "draft"@,
        ConversationMessageState::Cancelled => "cancelled"@,
        ConversationMessageState::Failed => "failed"@,
        ConversationMessageState::Interrupted => "interrupted"@,
    }
}

pub open spec fn parse_state_spec(value: Seq<char>) -> Option<ConversationMessageState> {
    if value == "complete"@ {
        Some(ConversationMessageState::Complete)
    } else if value == "draft"@ {
        Some(ConversationMessageState::Draft)
    } else if value == "cancelled"@ {
        Some(ConversationMessageState::Cancelled)
    } else if value == "failed"@ {
        Some(ConversationMessageState::Failed)
    } else if value == "interrupted"@ {
        Some(ConversationMessageState::Interrupted)
    } else {
        None
    }
}

impl ConversationMessageState {
    /// The stored name of the state.
    pub fn as_str(self) -> (text: &'static str)
        ensures
            text@ == state_text(self),
    {
        match self {
            ConversationMessageState::Complete => "complete",
            ConversationMessageState::Draft => "draft",
            ConversationMessageState::Cancelled => "cancelled",
            ConversationMessageState::Failed => "failed",
            ConversationMessageState::Interrupted => "interrupted",
        }
    }

    /// The state a stored name denotes.
    pub fn parse(value: &str) -> (state: Option<ConversationMessageState>)
        ensures
            state == parse_state_spec(value@),
    {
        if str_eq(value, "complete") {
            Some(ConversationMessageState::Complete)
        } else if str_eq(value, "draft") {
            Some(ConversationMessageState::Draft)
        } else if str_eq(value, "cancelled") {
            Some(ConversationMessageState::Cancelled)
        } else if str_eq(value, "failed") {
            Some(ConversationMessageState::Failed)
        } else if str_eq(value, "interrupted") {
            Some(ConversationMessageState::Interrupted)
        } else {
            None
        }
    }
}

/// A stored role name reads back as the role that was stored, and a name that parses is the
/// stored name of what it parses to.
pub proof fn law_role_names_round_trip(role: ConversationMessageRole, value: Seq<char>)
    ensures
        parse_role_spec(role_text(role)) == Some(role),
        parse_role_spec(value) matches Some(r) ==> role_text(r) == value,
{
    reveal_strlit("user");
    reveal_strlit("assistant");
    assert("user"@.len() != "assistant"@.len());
}

/// A stored state name reads back as the state that was stored, and a name that parses is the
/// stored name of what it parses to.
pub proof fn law_state_names_round_trip(state: ConversationMessageState, value: Seq<char>)
    ensures
        parse_state_spec(state_text(state)) == Some(state),
        parse_state_spec(value) matches Some(s) ==> state_text(s) == value,
{
    reveal_strlit("complete");
    reveal_strlit("draft");
    reveal_strlit("cancelled");
    reveal_strlit("failed");
    reveal_strlit("interrupted");
    assert("complete"@.len() == 8 && "draft"@.len() == 5 && "cancelled"@.len() == 9);
    assert("failed"@.len() == 6 && "interrupted"@.len() == 11);
}

/// One row of the conversation list.
#[derive(Debug, Clone)]
pub struct ConversationSummary {
    pub id: String,
    pub title: String,
    pub model_id: String,
    pub model_name: String,
    pub prompt_version_id: Option<String>,
    pub prompt_name: Option<String>,
    pub prompt_version: Option<u32>,
    pub context_strategy: String,
    pub pinned: bool,
    pub message_count: u32,
    pub created_at: String,
    pub updated_at: String,
}

/// A conversation's own record; the generation settings are its stored JSON text.
#[derive(Debug, Clone)]
pub struct ConversationRecord {
    pub id: String,
    pub title: String,
    pub model_id: String,
    pub model_name: String,
    pub prompt_version_id: Option<String>,
    pub prompt_name: Option<String>,
    pub prompt_version: Option<u32>,
    pub generation_settings_json: String,
    pub context_strategy: String,
    pub pinned: bool,
    pub created_at: String,
    pub updated_at: String,
}

/// One stored message.
#[derive(Debug, Clone)]
pub struct ConversationMessage {
    pub id: String,
    pub conversation_id: String,
    pub parent_id: Option<String>,
    pub role: ConversationMessageRole,
    pub content: String,
    pub state: ConversationMessageState,
    pub job_id: Option<String>,
    pub token_count: Option<u64>,
    pub usage: Option<Usage>,
    pub terminal_reason: Option<String>,
    pub position: u64,
    pub created_at: String,
    pub updated_at: String,
}

/// A conversation with its messages in order.
#[derive(Debug, Clone)]
pub struct ConversationDetail {
    pub conversation: ConversationRecord,
    pub messages: Vec<ConversationMessage>,
}

/// A file offered for download.
#[derive(Debug, Clone)]
pub struct ConversationExport {
    pub file_name: String,
    pub media_type: String,
    pub content: String,
}

#[derive(Debug, Clone)]
pub struct ListConversationsRequest {
    pub query: Option<String>,
    pub limit: Option<u32>,
    pub offset: Option<u32>,
}

#[derive(Debug, Clone)]
pub struct ConversationIdRequest {
    pub conversation_id: String,
}

#[derive(Debug, Clone)]
pub struct RenameConversationRequest {
    pub conversation_id: String,
    pub title: String,
}

#[derive(Debug, Clone)]
pub struct SetConversationPinnedRequest {
    pub conversation_id: String,
    pub pinned: bool,
}

/// What a new chat turn stores: the user message and an assistant draft.
#[derive(Debug, Clone)]
pub struct BeginTurnInput {
    pub conversation_id: String,
    pub user_message_id: String,
    pub assistant_message_id: String,
    pub job_id: String,
    pub model_id: String,
    pub prompt_version_id: Option<String>,
    pub user_content: String,
    pub max_output_tokens: u32,
}

fn invalid(detail: String) -> (e: AppError)
    ensures
        is_error(e, ErrorKind::InvalidConversation, detail@),
{
    AppError::InvalidConversation(detail)
}

/// An identifier is accepted, or refused as `the {label} ID is invalid`.
pub fn validate_id(value: &str, label: &str) -> (result: Result<(), AppError>)
    ensures
        is_valid_id(value@) ==> result is Ok,
        !is_valid_id(value@) ==> (result matches Err(e) && is_error(e, ErrorKind::InvalidConversation, "the "@ + label@ + " ID is invalid"@)),
{
    if valid_id(value) {
        Ok(())
    } else {
        let mut text = cat("the ", label);
        text.append(" ID is invalid");
        Err(invalid(text))
    }
}

/// A title, trimmed, holds 1 to 120 characters and no line breaks or NUL characters.
pub open spec fn title_is_valid(value: Seq<char>) -> bool {
    let t = trim_spec(value);
    t.len() > 0 && t.len() <= 120 && !t.contains('\r') && !t.contains('\n') && !t.contains('\0')
}

/// The trimmed title, or the refusal.
pub fn validate_title(value: &str) -> (result: Result<String, AppError>)
    ensures
        title_is_valid(value@) ==> (result matches Ok(t) && t@ == trim_spec(value@)),
        !title_is_valid(value@) ==> (result matches Err(e) && is_error(e, ErrorKind::InvalidConversation, "conversation titles must contain 1 to 120 characters"@)),
{
    let t = trim(value);
    let n = char_count(t);
    if n == 0 || n > 120 || contains_char(t, '\r') || contains_char(t, '\n') || contains_char(t, '\0') {
        return Err(invalid("conversation titles must contain 1 to 120 characters".to_owned()));
    }
    Ok(t.to_owned())
}

/// Message content is not blank, holds at most `max_bytes` bytes and no NUL character.
pub open spec fn content_is_valid(value: Seq<char>, max_bytes: usize) -> bool {
    !all_whitespace(value) && utf8_len(value) <= max_bytes && !value.contains('\0')
}

pub fn validate_content(value: &str, max_bytes: usize, label: &str) -> (result: Result<(), AppError>)
    ensures
        content_is_valid(value@, max_bytes) ==> result is Ok,
        !content_is_valid(value@, max_bytes) ==> (result matches Err(e) && is_error(
            e,
            ErrorKind::InvalidConversation,
            "the "@ + label@ + " must be non-empty and no larger than 256 KiB"@,
        )),
{
    if is_blank(value) || value.len() > max_bytes || contains_char(value, '\0') {
        let mut text = cat("the ", label);
        text.append(" must be non-empty and no larger than 256 KiB");
        return Err(invalid(text));
    }
    Ok(())
}

/// The search text, page size and offset of a list request.
#[derive(Debug, Clone)]
pub struct ListQuery {
    pub query: String,
    pub limit: u32,
    pub offset: u32,
}

pub open spec fn opt_text(v: Option<String>) -> Seq<char> {
    match v {
        Some(s) => s@,
        None => Seq::empty(),
    }
}

pub open spec fn opt_or<T>(v: Option<T>, d: T) -> T {
    match v {
        Some(x) => x,
        None => d,
    }
}

/// A list request: the trimmed search holds at most 200 characters, the page holds 1 to 100
/// records (50 when unset) and the offset is at most 100,000 (0 when unset).
pub fn validate_list_request(request: &ListConversationsRequest) -> (result: Result<ListQuery, AppError>)
    ensures
        trim_spec(opt_text(request.query)).len() > 200 ==> (result matches Err(e) && is_error(e, ErrorKind::InvalidConversation, "conversation search is limited to 200 characters"@)),
        trim_spec(opt_text(request.query)).len() <= 200 && !(1 <= opt_or(request.limit, 50u32) <= 100)
            ==> (result matches Err(e) && is_error(e, ErrorKind::InvalidConversation, "conversation pages must contain between 1 and 100 records"@)),
        trim_spec(opt_text(request.query)).len() <= 200 && 1 <= opt_or(request.limit, 50u32) <= 100 && opt_or(request.offset, 0u32) > 100000
            ==> (result matches Err(e) && is_error(e, ErrorKind::InvalidConversation, "conversation pagination offset is too large"@)),
        trim_spec(opt_text(request.query)).len() <= 200 && 1 <= opt_or(request.limit, 50u32) <= 100 && opt_or(request.offset, 0u32) <= 100000
            ==> (result matches Ok(q) && q.query@ == trim_spec(opt_text(request.query)) && q.limit == opt_or(request.limit, 50u32) && q.offset == opt_or(request.offset, 0u32)),
{
    let query: &str = match &request.query {
        Some(q) => trim(q.as_str()),
        None => trim(""),
    };
    proof {
        if request.query is None {
            assert(""@ =~= Seq::<char>::empty()) by {
                reveal_strlit("");
            }
        }
    }
    if char_count(query) > 200 {
        return Err(invalid("conversation search is limited to 200 characters".to_owned()));
    }
    let limit = match request.limit {
        Some(l) => l,
        None => 50,
    };
    if !(1 <= limit && limit <= 100) {
        return Err(invalid("conversation pages must contain between 1 and 100 records".to_owned()));
    }
    let offset = match request.offset {
        Some(o) => o,
        None => 0,
    };
    if offset > 100000 {
        return Err(invalid("conversation pagination offset is too large".to_owned()));
    }
    Ok(ListQuery { query: query.to_owned(), limit, offset })
}

/// The label of the first identifier of a new turn that is refused, checked in the order
/// conversation, user message, assistant message, chat job, model, prompt version.
pub open spec fn first_invalid_turn_id(input: BeginTurnInput) -> Option<Seq<char>> {
    if !is_valid_id(input.conversation_id@) {
        Some("conversation"@)
    } else if !is_valid_id(input.user_message_id@) {
        Some("user message"@)
    } else if !is_valid_id(input.assistant_message_id@) {
        Some("assistant message"@)
    } else if !is_valid_id(input.job_id@) {
        Some("chat job"@)
    } else if !is_valid_id(input.model_id@) {
        Some("model"@)
    } else if (input.prompt_version_id matches Some(p) && !is_valid_id(p@)) {
        Some("prompt version"@)
    } else {
        None
    }
}

/// The checks on a new turn: each identifier, then the user content (at most 256 KiB), then
/// the output limit (1 to 4096), the first failure reported.
pub open spec fn begin_turn_check(input: BeginTurnInput) -> Result<(), Seq<char>> {
    match first_invalid_turn_id(input) {
        Some(label) => Err("the "@ + label + " ID is invalid"@),
        None => if !content_is_valid(input.user_content@, MAX_MESSAGE_BYTES) {
            Err("the "@ + "user message"@ + " must be non-empty and no larger than 256 KiB"@)
        } else if !(1 <= input.max_output_tokens <= 4096) {
            Err("maximum output tokens must be between 1 and 4096"@)
        } else {
            Ok(())
        },
    }
}

pub fn validate_begin_turn(input: &BeginTurnInput) -> (result: Result<(), AppError>)
    ensures
        match (result, begin_turn_check(*input)) {
            (Ok(()), Ok(())) => true,
            (Err(e), Err(d)) => is_error(e, ErrorKind::InvalidConversation, d),
            _ => false,
        },
{
    match validate_id(input.conversation_id.as_str(), "conversation") {
        Err(e) => return Err(e),
        Ok(()) => {},
    }
    match validate_id(input.user_message_id.as_str(), "user message") {
        Err(e) => return Err(e),
        Ok(()) => {},
    }
    match validate_id(input.assistant_message_id.as_str(), "assistant message") {
        Err(e) => return Err(e),
        Ok(()) => {},
    }
    match validate_id(input.job_id.as_str(), "chat job") {
        Err(e) => return Err(e),
        Ok(()) => {},
    }
    match validate_id(input.model_id.as_str(), "model") {
        Err(e) => return Err(e),
        Ok(()) => {},
    }
    match &input.prompt_version_id {
        Some(p) => match validate_id(p.as_str(), "prompt version") {
            Err(e) => return Err(e),
            Ok(()) => {},
        },
        None => {},
    }
    match validate_content(input.user_content.as_str(), MAX_MESSAGE_BYTES, "user message") {
        Err(e) => return Err(e),
        Ok(()) => {},
    }
    if !(1 <= input.max_output_tokens && input.max_output_tokens <= 4096) {
        return Err(invalid("maximum output tokens must be between 1 and 4096".to_owned()));
    }
    Ok(())
}

/// An existing conversation keeps the model and prompt version it was started with.
pub fn check_turn_binding(
    stored_model_id: &str,
    stored_prompt_version_id: Option<&str>,
    model_id: &str,
    prompt_version_id: Option<&str>,
) -> (result: Result<(), AppError>)
    ensures
        (stored_model_id@ == model_id@ && match (stored_prompt_version_id, prompt_version_id) {
            (Some(a), Some(b)) => a@ == b@,
            (None, None) => true,
            _ => false,
        }) <==> result is Ok,
        result matches Err(e) ==> is_error(e, ErrorKind::Conflict, "the conversation model or prompt binding does not match"@),
{
    let same_prompt = match (stored_prompt_version_id, prompt_version_id) {
        (Some(a), Some(b)) => str_eq(a, b),
        (None, None) => true,
        _ => false,
    };
    if !str_eq(stored_model_id, model_id) || !same_prompt {
        return Err(AppError::Conflict("the conversation model or prompt binding does not match".to_owned()));
    }
    Ok(())
}

/// The checks on finalizing an assistant draft, the first failure reported.
pub open spec fn finalize_check(
    message_id: Seq<char>,
    job_id: Seq<char>,
    content: Seq<char>,
    state: ConversationMessageState,
    terminal_reason: Option<Seq<char>>,
) -> Result<(), Seq<char>> {
    if !is_valid_id(message_id) {
        Err("the "@ + "assistant message"@ + " ID is invalid"@)
    } else if !is_valid_id(job_id) {
        Err("the "@ + "chat job"@ + " ID is invalid"@)
    } else if utf8_len(content) > MAX_ASSISTANT_BYTES || content.contains('\0') {
        Err("assistant content exceeds the 1 MiB persistence limit"@)
    } else if state == ConversationMessageState::Draft {
        Err("an assistant draft cannot be finalized as another draft"@)
    } else if (terminal_reason matches Some(r) && (utf8_len(r) > 4096 || r.contains('\0'))) {
        Err("the terminal reason is invalid"@)
    } else {
        Ok(())
    }
}

pub fn validate_finalize(
    message_id: &str,
    job_id: &str,
    content: &str,
    state: ConversationMessageState,
    terminal_reason: Option<&str>,
) -> (result: Result<(), AppError>)
    ensures
        match (
            result,
            finalize_check(message_id@, job_id@, content@, state, match terminal_reason { Some(r) => Some(r@), None => None }),
        ) {
            (Ok(()), Ok(())) => true,
            (Err(e), Err(d)) => is_error(e, ErrorKind::InvalidConversation, d),
            _ => false,
        },
{
    match validate_id(message_id, "assistant message") {
        Err(e) => return Err(e),
        Ok(()) => {},
    }
    match validate_id(job_id, "chat job") {
        Err(e) => return Err(e),
        Ok(()) => {},
    }
    if content.len() > MAX_ASSISTANT_BYTES || contains_char(content, '\0') {
        return Err(invalid("assistant content exceeds the 1 MiB persistence limit".to_owned()));
    }
    if state == ConversationMessageState::Draft {
        return Err(invalid("an assistant draft cannot be finalized as another draft".to_owned()));
    }
    match terminal_reason {
        Some(r) => {
            if r.len() > 4096 || contains_char(r, '\0') {
                return Err(invalid("the terminal reason is invalid".to_owned()));
            }
        },
        None => {},
    }
    Ok(())
}

// ---------------------------------------------------------------------------------------------
// Titles and file names
/// A new conversation's title: the first message's words joined by single spaces, cut to 80
/// characters with `...` when longer, or `New conversation` when it has no words.
pub open spec fn title_from_message_spec(content: Seq<char>) -> Seq<char> {
    let collapsed = collapse_whitespace_spec(content);
    let title = if collapsed.len() > 80 { take_chars(collapsed, 80) + "..."@ } else { collapsed };
    if title.len() == 0 {
        "New conversation"@
    } else {
        title
    }
}

pub fn title_from_message(content: &str) -> (title: String)
    ensures
        title@ == title_from_message_spec(content@),
{
    let collapsed = collapse_whitespace(content);
    let mut title = take_prefix(collapsed.as_str(), 80);
    if char_count(collapsed.as_str()) > 80 {
        title.append("...");
    }
    if title.as_str().unicode_len() == 0 {
        "New conversation".to_owned()
    } else {
        title
    }
}

/// A character kept in a file stem: ASCII letters and digits, `-` and `_`; others become `-`.
pub open spec fn stem_char(c: char) -> char {
    if is_ascii_alnum(c) || c == '-' || c == '_' {
        c
    } else {
        '-'
    }
}

/// Index of the first character that is not `-`.
pub open spec fn dash_start(s: Seq<char>) -> int
    decreases s.len(),
{
    if s.len() == 0 {
        0
    } else if s[0] == '-' {
        1 + dash_start(s.drop_first())
    } else {
        0
    }
}

/// Index just past the last character that is not `-`.
pub open spec fn dash_end(s: Seq<char>) -> int
    decreases s.len(),
{
    if s.len() == 0 {
        0
    } else if s.last() == '-' {
        dash_end(s.drop_last())
    } else {
        s.len() as int
    }
}

/// The text without leading and trailing `-`, as `trim_matches('-')` gives it.
pub open spec fn trim_dashes(s: Seq<char>) -> Seq<char> {
    if dash_start(s) >= dash_end(s) {
        Seq::empty()
    } else {
        s.subrange(dash_start(s), dash_end(s))
    }
}

/// A file name stem for the title: unsafe characters replaced by `-`, outer dashes removed,
/// at most 80 characters, or `fallback` when nothing is left.
pub open spec fn safe_file_stem_spec(value: Seq<char>, fallback: Seq<char>) -> Seq<char> {
    let t = trim_dashes(value.map_values(|c: char| stem_char(c)));
    if t.len() == 0 {
        fallback
    } else {
        take_chars(t, 80)
    }
}

proof fn lemma_dash_start(s: Seq<char>)
    ensures
        0 <= dash_start(s) <= s.len(),
        forall|i: int| 0 <= i < dash_start(s) ==> s[i] == '-',
        dash_start(s) < s.len() ==> s[dash_start(s)] != '-',
    decreases s.len(),
{
    if s.len() > 0 {
        lemma_dash_start(s.drop_first());
        if s[0] == '-' {
            assert forall|i: int| 0 <= i < dash_start(s) implies s[i] == '-' by {
                if i > 0 {
                    assert(s[i] == s.drop_first()[i - 1]);
                }
            }
        }
    }
}

proof fn lemma_dash_end(s: Seq<char>)
    ensures
        0 <= dash_end(s) <= s.len(),
        forall|i: int| dash_end(s) <= i < s.len() ==> s[i] == '-',
        dash_end(s) > 0 ==> s[dash_end(s) - 1] != '-',
    decreases s.len(),
{
    if s.len() > 0 {
        lemma_dash_end(s.drop_last());
        if s.last() == '-' {
            assert forall|i: int| dash_end(s) <= i < s.len() implies s[i] == '-' by {
                if i < s.len() - 1 {
                    assert(s[i] == s.drop_last()[i]);
                }
            }
        }
    }
}

proof fn lemma_dash_bounds(s: Seq<char>)
    ensures
        0 <= dash_start(s) <= s.len(),
        0 <= dash_end(s) <= s.len(),
        forall|i: int| 0 <= i < dash_start(s) ==> s[i] == '-',
        forall|i: int| dash_end(s) <= i < s.len() ==> s[i] == '-',
        dash_start(s) < s.len() ==> s[dash_start(s)] != '-',
        dash_end(s) > 0 ==> s[dash_end(s) - 1] != '-',
{
    lemma_dash_start(s);
    lemma_dash_end(s);
}

fn stem_of(c: char) -> (d: char)
    ensures
        d == stem_char(c),
{
    if ascii_alnum(c) || c == '-' || c == '_' {
        c
    } else {
        '-'
    }
}

/// The stem with the given fallback; conversations fall back to `conversation`.
pub fn safe_stem_or(value: &str, fallback: &str) -> (stem: String)
    ensures
        stem@ == safe_file_stem_spec(value@, fallback@),
{
    let chars = chars_of(value);
    let mut mapped: Vec<char> = Vec::new();
    let mut i: usize = 0;
    while i < chars.len()
        invariant
            chars@ == value@,
            i <= chars@.len(),
            mapped@ == value@.subrange(0, i as int).map_values(|c: char| stem_char(c)),
        decreases chars@.len() - i,
    {
        mapped.push(stem_of(chars[i]));
        assert(value@.subrange(0, i + 1).map_values(|c: char| stem_char(c)) =~= value@.subrange(0, i as int).map_values(|c: char| stem_char(c)).push(stem_char(value@[i as int])));
        i += 1;
    }
    assert(value@.subrange(0, chars@.len() as int) =~= value@);
    let ghost m = mapped@;
    proof {
        lemma_dash_bounds(m);
    }
    let n = mapped.len();
    let mut start: usize = 0;
    while start < n && mapped[start] == '-'
        invariant
            n == m.len(),
            mapped@ == m,
            start <= n,
            forall|k: int| 0 <= k < start ==> m[k] == '-',
        decreases n - start,
    {
        start += 1;
    }
    assert(start == dash_start(m)) by {
        lemma_dash_bounds(m);
        if start < dash_start(m) {
            assert(m[start as int] == '-');
        }
        if start > dash_start(m) {
            assert(m[dash_start(m)] == '-');
        }
    }
    if start == n {
        return fallback.to_owned();
    }
    let mut end: usize = n;
    while end > start && mapped[end - 1] == '-'
        invariant
            n == m.len(),
            mapped@ == m,
            start < n,
            start == dash_start(m),
            start <= end <= n,
            forall|k: int| end <= k < n ==> m[k] == '-',
        decreases end,
    {
        end -= 1;
    }
    assert(end == dash_end(m)) by {
        lemma_dash_bounds(m);
        if end > dash_end(m) {
            assert(m[end - 1] == '-');
        }
        if end < dash_end(m) {
            assert(m[dash_end(m) - 1] == '-');
        }
    }
    let trimmed = string_of(&mapped, start, end);
    take_prefix(trimmed.as_str(), 80)
}

/// The file name stem of a conversation export.
pub fn safe_file_stem(value: &str) -> (stem: String)
    ensures
        stem@ == safe_file_stem_spec(value@, "conversation"@),
{
    safe_stem_or(value, "conversation")
}

// ---------------------------------------------------------------------------------------------
// Stored rows
/// A conversation row as the store returns it.
#[derive(Debug, Clone)]
pub struct StoredConversation {
    pub id: String,
    pub title: String,
    pub model_id: String,
    pub model_name: String,
    pub prompt_version_id: Option<String>,
    pub prompt_name: Option<String>,
    pub prompt_version: Option<i64>,
    pub generation_settings_json: String,
    pub context_strategy: String,
    pub pinned: i64,
    pub created_at: String,
    pub updated_at: String,
}

/// A message row as the store returns it, with its content document already read into its
/// `type` and `text` fields and its usage document into a `Usage`.
#[derive(Debug, Clone)]
pub struct StoredMessage {
    pub id: String,
    pub conversation_id: String,
    pub parent_id: Option<String>,
    pub role: String,
    pub content_kind: String,
    pub content_text: String,
    pub token_count: Option<i64>,
    pub state: String,
    pub job_id: Option<String>,
    pub usage: Option<Usage>,
    pub terminal_reason: Option<String>,
    pub position: i64,
    pub created_at: String,
    pub updated_at: String,
}

/// The token count stored with a finalized reply: the output tokens of its usage, which must
/// fit a SQLite integer.
pub fn stored_token_count(usage: Option<Usage>) -> (result: Result<Option<i64>, AppError>)
    ensures
        match usage {
            None => result == Ok::<Option<i64>, AppError>(None),
            Some(u) => if u.output_tokens <= i64::MAX {
                result == Ok::<Option<i64>, AppError>(Some(u.output_tokens as i64))
            } else {
                result matches Err(e) && is_error(e, ErrorKind::Operation, "chat token usage is too large to store"@)
            },
        },
{
    match usage {
        None => Ok(None),
        Some(u) => if u.output_tokens > 0x7fff_ffff_ffff_ffff {
            Err(AppError::Operation("chat token usage is too large to store".to_owned()))
        } else {
            Ok(Some(u.output_tokens as i64))
        },
    }
}

/// What finalization reads of a stored message: its conversation, job, role and state, as
/// stored.
#[derive(Debug, Clone)]
pub struct StoredDraftRow {
    pub conversation_id: String,
    pub job_id: Option<String>,
    pub role: String,
    pub state: String,
}

/// A message that finalization accepts for a job: the job's assistant message, still a draft.
pub open spec fn open_draft(job: Option<Seq<char>>, role: Seq<char>, state: Seq<char>, job_id: Seq<char>) -> bool {
    job == Some(job_id) && role == "assistant"@ && state == "draft"@
}

pub open spec fn opt_seq(v: Option<String>) -> Option<Seq<char>> {
    match v {
        Some(s) => Some(s@),
        None => None,
    }
}

/// The conversation of the message to finalize, or a conflict when the stored message is
/// missing or is not the job's assistant draft.
pub fn finalize_target(row: Option<StoredDraftRow>, job_id: &str) -> (result: Result<String, AppError>)
    ensures
        match row {
            Some(r) => if open_draft(opt_seq(r.job_id), r.role@, r.state@, job_id@) {
                result == Ok::<String, AppError>(r.conversation_id)
            } else {
                result matches Err(e) && is_error(e, ErrorKind::Conflict, "the assistant draft is missing or already finalized"@)
            },
            None => result matches Err(e) && is_error(e, ErrorKind::Conflict, "the assistant draft is missing or already finalized"@),
        },
{
    let found = match &row {
        Some(r) => {
            let same_job = match &r.job_id {
                Some(j) => str_eq(j.as_str(), job_id),
                None => false,
            };
            same_job && str_eq(r.role.as_str(), "assistant") && str_eq(r.state.as_str(), "draft")
        },
        None => false,
    };
    if found {
        match row {
            Some(r) => Ok(r.conversation_id),
            None => Err(AppError::Conflict("the assistant draft is missing or already finalized".to_owned())),
        }
    } else {
        Err(AppError::Conflict("the assistant draft is missing or already finalized".to_owned()))
    }
}

/// A draft is finalized once: the message written with any final state is no longer an open
/// draft, so finalizing it again is refused.
pub proof fn law_draft_finalized_once(job: Option<Seq<char>>, role: Seq<char>, job_id: Seq<char>, state: ConversationMessageState)
    requires
        state != ConversationMessageState::Draft,
    ensures
        !open_draft(job, role, state_text(state), job_id),
{
    reveal_strlit("draft");
    reveal_strlit("complete");
    reveal_strlit("cancelled");
    reveal_strlit("failed");
    reveal_strlit("interrupted");
    assert(state_text(state).len() != 5 || state_text(state)[0] != 'd');
}

/// A stored optional count that must fit in 32 bits.
pub fn optional_u32(value: Option<i64>, label: &str) -> (result: Result<Option<u32>, AppError>)
    ensures
        match value {
            None => result == Ok::<Option<u32>, AppError>(None),
            Some(v) => if 0 <= v <= u32::MAX {
                result == Ok::<Option<u32>, AppError>(Some(v as u32))
            } else {
                result matches Err(e) && is_error(e, ErrorKind::Operation, "the stored "@ + label@ + " is invalid"@)
            },
        },
{
    match value {
        None => Ok(None),
        Some(v) => {
            if 0 <= v && v <= 0xffff_ffff {
                Ok(Some(v as u32))
            } else {
                let mut text = cat("the stored ", label);
                text.append(" is invalid");
                Err(AppError::Operation(text))
            }
        },
    }
}

/// A list row: the prompt version and the message count must fit in 32 bits.
pub fn summary_from_stored(stored: StoredConversation, message_count: i64) -> (result: Result<ConversationSummary, AppError>)
    ensures
        (stored.prompt_version matches Some(v) && !(0 <= v <= u32::MAX)) ==> (result matches Err(e) && is_error(e, ErrorKind::Operation, "the stored "@ + "prompt version"@ + " is invalid"@)),
        !(stored.prompt_version matches Some(v) && !(0 <= v <= u32::MAX)) && !(0 <= message_count <= u32::MAX)
            ==> (result matches Err(e) && is_error(e, ErrorKind::Operation, "conversation message count is invalid"@)),
        !(stored.prompt_version matches Some(v) && !(0 <= v <= u32::MAX)) && 0 <= message_count <= u32::MAX ==> (result matches Ok(summary) && {
            &&& summary.id == stored.id
            &&& summary.title == stored.title
            &&& summary.model_id == stored.model_id
            &&& summary.model_name == stored.model_name
            &&& summary.prompt_version_id == stored.prompt_version_id
            &&& summary.prompt_name == stored.prompt_name
            &&& summary.prompt_version == match stored.prompt_version { Some(v) => Some(v as u32), None => None }
            &&& summary.context_strategy == stored.context_strategy
            &&& summary.pinned == (stored.pinned != 0)
            &&& summary.message_count == message_count as u32
            &&& summary.created_at == stored.created_at
            &&& summary.updated_at == stored.updated_at
        }),
{
    let prompt_version = match optional_u32(stored.prompt_version, "prompt version") {
        Ok(v) => v,
        Err(e) => return Err(e),
    };
    if !(0 <= message_count && message_count <= 0xffff_ffff) {
        return Err(AppError::Operation("conversation message count is invalid".to_owned()));
    }
    Ok(ConversationSummary {
        id: stored.id,
        title: stored.title,
        model_id: stored.model_id,
        model_name: stored.model_name,
        prompt_version_id: stored.prompt_version_id,
        prompt_name: stored.prompt_name,
        prompt_version,
        context_strategy: stored.context_strategy,
        pinned: stored.pinned != 0,
        message_count: message_count as u32,
        created_at: stored.created_at,
        updated_at: stored.updated_at,
    })
}

/// A conversation's record: the prompt version must fit in 32 bits.
pub fn record_from_stored(stored: StoredConversation) -> (result: Result<ConversationRecord, AppError>)
    ensures
        (stored.prompt_version matches Some(v) && !(0 <= v <= u32::MAX)) ==> (result matches Err(e) && is_error(e, ErrorKind::Operation, "the stored "@ + "prompt version"@ + " is invalid"@)),
        !(stored.prompt_version matches Some(v) && !(0 <= v <= u32::MAX)) ==> (result matches Ok(record) && {
            &&& record.id == stored.id
            &&& record.title == stored.title
            &&& record.model_id == stored.model_id
            &&& record.model_name == stored.model_name
            &&& record.prompt_version_id == stored.prompt_version_id
            &&& record.prompt_name == stored.prompt_name
            &&& record.prompt_version == match stored.prompt_version { Some(v) => Some(v as u32), None => None }
            &&& record.generation_settings_json == stored.generation_settings_json
            &&& record.context_strategy == stored.context_strategy
            &&& record.pinned == (stored.pinned != 0)
            &&& record.created_at == stored.created_at
            &&& record.updated_at == stored.updated_at
        }),
{
    let prompt_version = match optional_u32(stored.prompt_version, "prompt version") {
        Ok(v) => v,
        Err(e) => return Err(e),
    };
    Ok(ConversationRecord {
        id: stored.id,
        title: stored.title,
        model_id: stored.model_id,
        model_name: stored.model_name,
        prompt_version_id: stored.prompt_version_id,
        prompt_name: stored.prompt_name,
        prompt_version,
        generation_settings_json: stored.generation_settings_json,
        context_strategy: stored.context_strategy,
        pinned: stored.pinned != 0,
        created_at: stored.created_at,
        updated_at: stored.updated_at,
    })
}

/// Why a stored message cannot be read, as the detail after `message {id} has `; checked in
/// the order content type, role, state, token count, position.
pub open spec fn stored_message_problem(m: StoredMessage) -> Option<Seq<char>> {
    if m.content_kind@ != "text"@ {
        Some("an unsupported content type"@)
    } else if parse_role_spec(m.role@) is None {
        Some("an unknown role"@)
    } else if parse_state_spec(m.state@) is None {
        Some("an unknown state"@)
    } else if (m.token_count matches Some(t) && t < 0) {
        Some("invalid tokens"@)
    } else if m.position < 0 {
        Some("an invalid position"@)
    } else {
        None
    }
}

fn message_error(id: &str, problem: &str) -> (e: AppError)
    ensures
        is_error(e, ErrorKind::Operation, "message "@ + id@ + " has "@ + problem@),
{
    let mut text = cat("message ", id);
    text.append(" has ");
    text.append(problem);
    AppError::Operation(text)
}

/// Reads a stored message: its content must be text, its role and state known names, and its
/// token count and position not negative.
pub fn decode_stored_message(m: StoredMessage) -> (result: Result<ConversationMessage, AppError>)
    ensures
        stored_message_problem(m) matches Some(p) ==> (result matches Err(e) && is_error(e, ErrorKind::Operation, "message "@ + m.id@ + " has "@ + p)),
        stored_message_problem(m) is None ==> (result matches Ok(msg) && {
            &&& msg.id@ == m.id@
            &&& msg.conversation_id == m.conversation_id
            &&& msg.parent_id == m.parent_id
            &&& Some(msg.role) == parse_role_spec(m.role@)
            &&& msg.content == m.content_text
            &&& Some(msg.state) == parse_state_spec(m.state@)
            &&& msg.job_id == m.job_id
            &&& msg.token_count == match m.token_count { Some(t) => Some(t as u64), None => None }
            &&& msg.usage == m.usage
            &&& msg.terminal_reason == m.terminal_reason
            &&& msg.position == m.position as u64
            &&& msg.created_at == m.created_at
            &&& msg.updated_at == m.updated_at
        }),
{
    if !str_eq(m.content_kind.as_str(), "text") {
        return Err(message_error(m.id.as_str(), "an unsupported content type"));
    }
    let role = match ConversationMessageRole::parse(m.role.as_str()) {
        Some(r) => r,
        None => return Err(message_error(m.id.as_str(), "an unknown role")),
    };
    let state = match ConversationMessageState::parse(m.state.as_str()) {
        Some(s) => s,
        None => return Err(message_error(m.id.as_str(), "an unknown state")),
    };
    let token_count: Option<u64> = match m.token_count {
        Some(t) => if t < 0 {
            return Err(message_error(m.id.as_str(), "invalid tokens"));
        } else {
            Some(t as u64)
        },
        None => None,
    };
    if m.position < 0 {
        return Err(message_error(m.id.as_str(), "an invalid position"));
    }
    let id = m.id.clone();
    Ok(ConversationMessage {
        id,
        conversation_id: m.conversation_id,
        parent_id: m.parent_id,
        role,
        content: m.content_text,
        state,
        job_id: m.job_id,
        token_count,
        usage: m.usage,
        terminal_reason: m.terminal_reason,
        position: m.position as u64,
        created_at: m.created_at,
        updated_at: m.updated_at,
    })
}

// ---------------------------------------------------------------------------------------------
// Markdown export
/// Appending the pieces in order to `out`, each refused once the export would pass 16 MiB.
pub open spec fn append_all(out: Seq<char>, pieces: Seq<Seq<char>>) -> Result<Seq<char>, Seq<char>>
    decreases pieces.len(),
{
    if pieces.len() == 0 {
        Ok(out)
    } else {
        match append_all(out, pieces.drop_last()) {
            Err(d) => Err(d),
            Ok(done) => append_step(done, pieces.last()),
        }
    }
}

/// One append: the byte total must be representable and at most 16 MiB.
pub open spec fn append_step(out: Seq<char>, value: Seq<char>) -> Result<Seq<char>, Seq<char>> {
    if utf8_len(out) + utf8_len(value) > usize::MAX {
        Err("the conversation export is too large"@)
    } else if utf8_len(out) + utf8_len(value) > MAX_CONVERSATION_EXPORT_BYTES {
        Err("conversation exports are limited to 16 MiB"@)
    } else {
        Ok(out + value)
    }
}

/// Appends the pieces in order, refusing the first one that would take the export past
/// 16 MiB.
pub fn append_pieces(pieces: &Vec<String>) -> (result: Result<String, AppError>)
    ensures
        match append_all(Seq::empty(), texts(pieces@)) {
            Ok(out) => (result matches Ok(text) && text@ == out),
            Err(d) => (result matches Err(e) && is_error(e, ErrorKind::InvalidConversation, d)),
        },
{
    let mut output = String::new();
    let mut i: usize = 0;
    assert(texts(pieces@).subrange(0, 0) =~= Seq::<Seq<char>>::empty());
    while i < pieces.len()
        invariant
            i <= pieces@.len(),
            append_all(Seq::empty(), texts(pieces@).subrange(0, i as int)) == Ok::<Seq<char>, Seq<char>>(output@),
        decreases pieces@.len() - i,
    {
        let value = pieces[i].as_str();
        proof {
            assert(texts(pieces@).subrange(0, i + 1).drop_last() =~= texts(pieces@).subrange(0, i as int));
            assert(texts(pieces@).subrange(0, i + 1).last() == value@);
        }
        let a = output.as_str().len();
        let b = value.len();
        if a > usize::MAX - b {
            proof {
                lemma_append_all_error_sticks(texts(pieces@).subrange(0, i + 1), texts(pieces@).subrange(i + 1, pieces@.len() as int));
                assert(texts(pieces@).subrange(0, i + 1) + texts(pieces@).subrange(i + 1, pieces@.len() as int) =~= texts(pieces@));
            }
            return Err(invalid("the conversation export is too large".to_owned()));
        }
        if a + b > MAX_CONVERSATION_EXPORT_BYTES {
            proof {
                lemma_append_all_error_sticks(texts(pieces@).subrange(0, i + 1), texts(pieces@).subrange(i + 1, pieces@.len() as int));
                assert(texts(pieces@).subrange(0, i + 1) + texts(pieces@).subrange(i + 1, pieces@.len() as int) =~= texts(pieces@));
            }
            return Err(invalid("conversation exports are limited to 16 MiB".to_owned()));
        }
        output.append(value);
        i += 1;
    }
    assert(texts(pieces@).subrange(0, pieces@.len() as int) =~= texts(pieces@));
    Ok(output)
}

/// Once an append is refused, every later piece leaves the refusal as it is.
pub proof fn lemma_append_all_error_sticks(pieces: Seq<Seq<char>>, more: Seq<Seq<char>>)
    requires
        append_all(Seq::empty(), pieces) is Err,
    ensures
        append_all(Seq::empty(), pieces + more) == append_all(Seq::empty(), pieces),
    decreases more.len(),
{
    if more.len() == 0 {
        assert(pieces + more =~= pieces);
    } else {
        lemma_append_all_error_sticks(pieces, more.drop_last());
        assert((pieces + more).drop_last() =~= pieces + more.drop_last());
    }
}

/// The heading of a message in the export, with its 1-based number.
pub open spec fn role_heading(role: ConversationMessageRole) -> Seq<char> {
    match role {
        ConversationMessageRole::User => "User"@,
        ConversationMessageRole::Assistant => "Assistant"@,
    }
}

/// The pieces that one message adds to the export, in order; `rate` is the throughput
/// rendered with one decimal.
pub open spec fn message_pieces(m: ConversationMessage, number: nat, rate: Seq<char>) -> Seq<Seq<char>> {
    let head = seq![
        "\n## "@ + decimal_chars(number) + ". "@ + role_heading(m.role) + "\n\n"@,
        if m.content@.len() == 0 { "_No response text was stored._"@ } else { m.content@ },
        "\n\n> State: `"@ + state_text(m.state) + "` | Message: `"@ + m.id@ + "` | Created: `"@ + m.created_at@ + "`"@,
    ];
    let with_parent = match m.parent_id {
        Some(p) => head.push(" | Parent: `"@ + p@ + "`"@),
        None => head,
    };
    let with_usage = match m.usage {
        Some(u) => with_parent.push(
            " | Usage: "@ + decimal_chars(u.prompt_tokens as nat) + " prompt, "@ + decimal_chars(u.output_tokens as nat) + " output, "@ + rate + " tok/s"@,
        ),
        None => with_parent,
    };
    let with_reason = match m.terminal_reason {
        Some(r) => with_usage.push(" | Terminal: `"@ + collapse_whitespace_spec(r@) + "`"@),
        None => with_usage,
    };
    with_reason.push("\n"@)
}

/// A stored state name holds no backquote.
proof fn lemma_state_text_has_no_backquote(state: ConversationMessageState)
    ensures
        !state_text(state).contains('`'),
        state_text(state).len() > 0,
{
    reveal_strlit("complete");
    reveal_strlit("draft");
    reveal_strlit("cancelled");
    reveal_strlit("failed");
    reveal_strlit("interrupted");
}

/// The status line of an exported message opens with `> State:` and, in backquotes, the
/// message's own stored state name: the text between the opening backquote and the next one
/// reads back as the message's state.
pub proof fn law_export_line_names_the_message_state(m: ConversationMessage, number: nat, rate: Seq<char>)
    ensures
        ({
            let line = message_pieces(m, number, rate)[2];
            &&& line.subrange(0, 12) == "\n\n> State: `"@
            &&& exists|k: int| #![trigger line[k]]
                12 < k < line.len() && line[k] == '`' && !line.subrange(12, k).contains('`')
                    && parse_state_spec(line.subrange(12, k)) == Some(m.state)
        }),
{
    reveal_strlit("\n\n> State: `");
    reveal_strlit("` | Message: `");
    let name = state_text(m.state);
    let line = message_pieces(m, number, rate)[2];
    let tail = "` | Message: `"@ + m.id@ + "` | Created: `"@ + m.created_at@ + "`"@;
    assert(line =~= "\n\n> State: `"@ + name + tail);
    lemma_state_text_has_no_backquote(m.state);
    law_state_names_round_trip(m.state, name);
    let k: int = 12 + name.len() as int;
    assert(line.subrange(12, k) =~= name);
    assert(tail[0] == '`');
    assert(line[k] == tail[0]);
}

/// Where an exported message's usage piece is: after its heading, content and status line,
/// and after its parent piece when it has a parent.
pub open spec fn usage_piece_index(m: ConversationMessage) -> int {
    if m.parent_id is Some { 4 } else { 3 }
}

/// The usage of an exported message reads back in order: after ` | Usage: ` come the digits
/// of its prompt token count, then ` prompt, `, then the digits of its output token count,
/// then ` output, `.
pub proof fn law_export_usage_reads_back(m: ConversationMessage, number: nat, rate: Seq<char>)
    requires
        m.usage is Some,
    ensures
        ({
            let u = m.usage->0;
            let t = message_pieces(m, number, rate)[usage_piece_index(m)];
            exists|a: int, b: int|
                #![trigger t.subrange(10, a), t.subrange(a + 9, b)]
                10 < a && a + 9 < b && b + 9 <= t.len()
                && t.subrange(0, 10) == " | Usage: "@
                && all_digits(t.subrange(10, a)) && decimal_value(t.subrange(10, a)) == u.prompt_tokens
                && t.subrange(a, a + 9) == " prompt, "@
                && all_digits(t.subrange(a + 9, b)) && decimal_value(t.subrange(a + 9, b)) == u.output_tokens
                && t.subrange(b, b + 9) == " output, "@
        }),
{
    reveal_strlit(" | Usage: ");
    reveal_strlit(" prompt, ");
    reveal_strlit(" output, ");
    let u = m.usage->0;
    let p = decimal_chars(u.prompt_tokens as nat);
    let o = decimal_chars(u.output_tokens as nat);
    lemma_decimal_chars_value(u.prompt_tokens as nat);
    lemma_decimal_chars_value(u.output_tokens as nat);
    let t = message_pieces(m, number, rate)[usage_piece_index(m)];
    assert(t == " | Usage: "@ + p + " prompt, "@ + o + " output, "@ + rate + " tok/s"@);
    let a: int = 10 + p.len() as int;
    let b: int = a + 9 + o.len() as int;
    assert(t.subrange(0, 10) =~= " | Usage: "@);
    assert(t.subrange(10, a) =~= p);
    assert(t.subrange(a, a + 9) =~= " prompt, "@);
    assert(t.subrange(a + 9, b) =~= o);
    assert(t.subrange(b, b + 9) =~= " output, "@);
}

/// Messages in different states export different status lines.
pub proof fn law_different_states_export_differently(
    m1: ConversationMessage,
    m2: ConversationMessage,
    n1: nat,
    n2: nat,
    r1: Seq<char>,
    r2: Seq<char>,
)
    requires
        m1.state != m2.state,
    ensures
        message_pieces(m1, n1, r1)[2] != message_pieces(m2, n2, r2)[2],
{
    law_export_line_names_the_message_state(m1, n1, r1);
    law_export_line_names_the_message_state(m2, n2, r2);
    let line = message_pieces(m1, n1, r1)[2];
    if line == message_pieces(m2, n2, r2)[2] {
        let k1 = choose|k: int| #![trigger line[k]]
            12 < k < line.len() && line[k] == '`' && !line.subrange(12, k).contains('`')
                && parse_state_spec(line.subrange(12, k)) == Some(m1.state);
        let k2 = choose|k: int| #![trigger line[k]]
            12 < k < line.len() && line[k] == '`' && !line.subrange(12, k).contains('`')
                && parse_state_spec(line.subrange(12, k)) == Some(m2.state);
        if k1 < k2 {
            assert(line.subrange(12, k2)[k1 - 12] == '`');
        } else if k2 < k1 {
            assert(line.subrange(12, k1)[k2 - 12] == '`');
        }
    }
}

/// The pieces of all messages, numbered from 1.
pub open spec fn messages_pieces(messages: Seq<ConversationMessage>, rates: Seq<String>) -> Seq<Seq<char>>
    decreases messages.len(),
{
    if messages.len() == 0 {
        Seq::empty()
    } else {
        messages_pieces(messages.drop_last(), rates) + message_pieces(
            messages.last(),
            messages.len(),
            rates[messages.len() - 1]@,
        )
    }
}

/// The pieces of the whole export: the title with its words joined by single spaces, the
/// provenance document in a JSON block, then every message.
pub open spec fn export_pieces(title: Seq<char>, provenance: Seq<char>, messages: Seq<ConversationMessage>, rates: Seq<String>) -> Seq<Seq<char>> {
    seq!["# "@, collapse_whitespace_spec(title), "\n\n## Provenance\n\n```json\n"@, provenance, "\n```\n"@]
        + messages_pieces(messages, rates)
}

fn message_heading(number: usize, role: ConversationMessageRole) -> (text: String)
    ensures
        text@ == "\n## "@ + decimal_chars(number as nat) + ". "@ + role_heading(role) + "\n\n"@,
{
    let mut text = "\n## ".to_owned();
    text.append(decimal_string(number as u64).as_str());
    text.append(". ");
    match role {
        ConversationMessageRole::User => text.append("User"),
        ConversationMessageRole::Assistant => text.append("Assistant"),
    }
    text.append("\n\n");
    text
}

fn push_piece(pieces: &mut Vec<String>, piece: String)
    ensures
        texts(final(pieces)@) == texts(old(pieces)@).push(piece@),
{
    pieces.push(piece);
    assert(texts(pieces@) =~= texts(old(pieces)@).push(piece@));
}

/// Adds one message's pieces.
fn push_message_pieces(pieces: &mut Vec<String>, m: &ConversationMessage, number: usize, rate: &str)
    ensures
        texts(final(pieces)@) == texts(old(pieces)@) + message_pieces(*m, number as nat, rate@),
{
    let ghost start = texts(pieces@);
    push_piece(pieces, message_heading(number, m.role));
    if m.content.as_str().unicode_len() == 0 {
        push_piece(pieces, "_No response text was stored._".to_owned());
    } else {
        push_piece(pieces, m.content.clone());
    }
    let mut line = "\n\n> State: `".to_owned();
    line.append(m.state.as_str());
    line.append("` | Message: `");
    line.append(m.id.as_str());
    line.append("` | Created: `");
    line.append(m.created_at.as_str());
    line.append("`");
    push_piece(pieces, line);
    let ghost head = texts(pieces@);
    match &m.parent_id {
        Some(p) => {
            let mut t = " | Parent: `".to_owned();
            t.append(p.as_str());
            t.append("`");
            push_piece(pieces, t);
        },
        None => {},
    }
    match &m.usage {
        Some(u) => {
            let mut t = " | Usage: ".to_owned();
            t.append(decimal_string(u.prompt_tokens).as_str());
            t.append(" prompt, ");
            t.append(decimal_string(u.output_tokens).as_str());
            t.append(" output, ");
            t.append(rate);
            t.append(" tok/s");
            push_piece(pieces, t);
        },
        None => {},
    }
    match &m.terminal_reason {
        Some(reason) => {
            let mut t = " | Terminal: `".to_owned();
            t.append(collapse_whitespace(reason.as_str()).as_str());
            t.append("`");
            push_piece(pieces, t);
        },
        None => {},
    }
    push_piece(pieces, "\n".to_owned());
    assert(texts(pieces@) =~= start + message_pieces(*m, number as nat, rate@));
}

/// The export of a conversation as Markdown: the title, its provenance document (already
/// rendered as pretty JSON) and every message with its state, identity, creation time,
/// parent, usage (`rates[i]` is message `i`'s throughput rendered with one decimal) and
/// terminal reason. Fails once the export would pass 16 MiB.
pub fn conversation_markdown(title: &str, provenance: &str, messages: &[ConversationMessage], rates: &[String]) -> (result: Result<String, AppError>)
    requires
        rates@.len() == messages@.len(),
    ensures
        match append_all(Seq::empty(), export_pieces(title@, provenance@, messages@, rates@)) {
            Ok(out) => (result matches Ok(text) && text@ == out),
            Err(d) => (result matches Err(e) && is_error(e, ErrorKind::InvalidConversation, d)),
        },
{
    let mut pieces: Vec<String> = Vec::new();
    push_piece(&mut pieces, "# ".to_owned());
    push_piece(&mut pieces, collapse_whitespace(title));
    push_piece(&mut pieces, "\n\n## Provenance\n\n```json\n".to_owned());
    push_piece(&mut pieces, provenance.to_owned());
    push_piece(&mut pieces, "\n```\n".to_owned());
    let ghost header = texts(pieces@);
    assert(header =~= seq!["# "@, collapse_whitespace_spec(title@), "\n\n## Provenance\n\n```json\n"@, provenance@, "\n```\n"@]);
    let mut i: usize = 0;
    assert(messages@.subrange(0, 0) =~= Seq::<ConversationMessage>::empty());
    while i < messages.len()
        invariant
            i <= messages@.len(),
            rates@.len() == messages@.len(),
            texts(pieces@) == header + messages_pieces(messages@.subrange(0, i as int), rates@),
        decreases messages@.len() - i,
    {
        proof {
            let next = messages@.subrange(0, i + 1);
            assert(next.drop_last() =~= messages@.subrange(0, i as int));
            assert(next.last() == messages@[i as int]);
        }
        push_message_pieces(&mut pieces, &messages[i], i + 1, rates[i].as_str());
        proof {
            let next = messages@.subrange(0, i + 1);
            assert(header + messages_pieces(next, rates@) =~= header + messages_pieces(messages@.subrange(0, i as int), rates@) + message_pieces(messages@[i as int], (i + 1) as nat, rates@[i as int]@));
        }
        i += 1;
    }
    assert(messages@.subrange(0, messages@.len() as int) =~= messages@);
    append_pieces(&pieces)
}

/// The export file: `{stem}.md` named after the title, as UTF-8 Markdown.
pub fn export_conversation(title: &str, provenance: &str, messages: &[ConversationMessage], rates: &[String]) -> (result: Result<ConversationExport, AppError>)
    requires
        rates@.len() == messages@.len(),
    ensures
        match append_all(Seq::empty(), export_pieces(title@, provenance@, messages@, rates@)) {
            Ok(out) => (result matches Ok(x) && x.content@ == out && x.file_name@ == safe_file_stem_spec(title@, "conversation"@) + ".md"@
                && x.media_type@ == "text/markdown;charset=utf-8"@),
            Err(d) => (result matches Err(e) && is_error(e, ErrorKind::InvalidConversation, d)),
        },
{
    let content = match conversation_markdown(title, provenance, messages, rates) {
        Ok(c) => c,
        Err(e) => return Err(e),
    };
    let mut file_name = safe_file_stem(title);
    file_name.append(".md");
    Ok(ConversationExport { file_name, media_type: "text/markdown;charset=utf-8".to_owned(), content })
}

} // verus!
