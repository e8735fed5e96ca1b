//! Application errors and the stable, machine-readable form sent to the interface.
use vstd::prelude::*;
use vstd::string::StringExecFns;

verus! {

/// An operation failure with its user-facing detail.
///
/// `Database` and `Io` carry the text of the storage or file-system failure that caused them.
#[derive(Debug, Clone, PartialEq, Eq)]
pub enum AppError {
    Database(String),
    Io(String),
    InvalidSetting(String),
    Probe(String),
    Process(String),
    InvalidPath(String),
    InvalidModel(String),
    ModelNotFound(String),
    EnginePackage(String),
    Engine(String),
    Cancelled(String),
    Operation(String),
    InvalidPrompt(String),
    PromptNotFound(String),
    InvalidConversation(String),
    ConversationNotFound(String),
    Conflict(String),
}

pub type AppResult<T> = Result<T, AppError>;

/// `e` is a failure of the given kind carrying the given detail.
pub open spec fn is_error(e: AppError, kind: ErrorKind, detail: Seq<char>) -> bool {
    e.kind_spec() == kind && e.detail_spec() == detail
}

/// Which kind of failure an error is, without its detail.
#[derive(Debug, Clone, Copy, PartialEq, Eq, Structural)]
pub enum ErrorKind {
    Database,
    Io,
    InvalidSetting,
    Probe,
    Process,
    InvalidPath,
    InvalidModel,
    ModelNotFound,
    EnginePackage,
    Engine,
    Cancelled,
    Operation,
    InvalidPrompt,
    PromptNotFound,
    InvalidConversation,
    ConversationNotFound,
    Conflict,
}

impl AppError {
    pub open spec fn kind_spec(&self) -> ErrorKind {
        match self {
            AppError::Database(_) => ErrorKind::Database,
            AppError::Io(_) => ErrorKind::Io,
            AppError::InvalidSetting(_) => ErrorKind::InvalidSetting,
            AppError::Probe(_) => ErrorKind::Probe,
            AppError::Process(_) => ErrorKind::Process,
            AppError::InvalidPath(_) => ErrorKind::InvalidPath,
            AppError::InvalidModel(_) => ErrorKind::InvalidModel,
            AppError::ModelNotFound(_) => ErrorKind::ModelNotFound,
            AppError::EnginePackage(_) => ErrorKind::EnginePackage,
            AppError::Engine(_) => ErrorKind::Engine,
            AppError::Cancelled(_) => ErrorKind::Cancelled,
            AppError::Operation(_) => ErrorKind::Operation,
            AppError::InvalidPrompt(_) => ErrorKind::InvalidPrompt,
            AppError::PromptNotFound(_) => ErrorKind::PromptNotFound,
            AppError::InvalidConversation(_) => ErrorKind::InvalidConversation,
            AppError::ConversationNotFound(_) => ErrorKind::ConversationNotFound,
            AppError::Conflict(_) => ErrorKind::Conflict,
        }
    }

    /// The detail text that the error carries.
    pub open spec fn detail_spec(&self) -> Seq<char> {
        match self {
            AppError::Database(d) => d@,
            AppError::Io(d) => d@,
            AppError::InvalidSetting(d) => d@,
            AppError::Probe(d) => d@,
            AppError::Process(d) => d@,
            AppError::InvalidPath(d) => d@,
            AppError::InvalidModel(d) => d@,
            AppError::ModelNotFound(d) => d@,
            AppError::EnginePackage(d) => d@,
            AppError::Engine(d) => d@,
            AppError::Cancelled(d) => d@,
            AppError::Operation(d) => d@,
            AppError::InvalidPrompt(d) => d@,
            AppError::PromptNotFound(d) => d@,
            AppError::InvalidConversation(d) => d@,
            AppError::ConversationNotFound(d) => d@,
            AppError::Conflict(d) => d@,
        }
    }

    pub fn kind(&self) -> (kind: ErrorKind)
        ensures
            kind == self.kind_spec(),
    {
        match self {
            AppError::Database(_) => ErrorKind::Database,
            AppError::Io(_) => ErrorKind::Io,
            AppError::InvalidSetting(_) => ErrorKind::InvalidSetting,
            AppError::Probe(_) => ErrorKind::Probe,
            AppError::Process(_) => ErrorKind::Process,
            AppError::InvalidPath(_) => ErrorKind::InvalidPath,
            AppError::InvalidModel(_) => ErrorKind::InvalidModel,
            AppError::ModelNotFound(_) => ErrorKind::ModelNotFound,
            AppError::EnginePackage(_) => ErrorKind::EnginePackage,
            AppError::Engine(_) => ErrorKind::Engine,
            AppError::Cancelled(_) => ErrorKind::Cancelled,
            AppError::Operation(_) => ErrorKind::Operation,
            AppError::InvalidPrompt(_) => ErrorKind::InvalidPrompt,
            AppError::PromptNotFound(_) => ErrorKind::PromptNotFound,
            AppError::InvalidConversation(_) => ErrorKind::InvalidConversation,
            AppError::ConversationNotFound(_) => ErrorKind::ConversationNotFound,
            AppError::Conflict(_) => ErrorKind::Conflict,
        }
    }

    fn detail(&self) -> (detail: &str)
        ensures
            detail@ == self.detail_spec(),
    {
        match self {
            AppError::Database(d) => d.as_str(),
            AppError::Io(d) => d.as_str(),
            AppError::InvalidSetting(d) => d.as_str(),
            AppError::Probe(d) => d.as_str(),
            AppError::Process(d) => d.as_str(),
            AppError::InvalidPath(d) => d.as_str(),
            AppError::InvalidModel(d) => d.as_str(),
            AppError::ModelNotFound(d) => d.as_str(),
            AppError::EnginePackage(d) => d.as_str(),
            AppError::Engine(d) => d.as_str(),
            AppError::Cancelled(d) => d.as_str(),
            AppError::Operation(d) => d.as_str(),
            AppError::InvalidPrompt(d) => d.as_str(),
            AppError::PromptNotFound(d) => d.as_str(),
            AppError::InvalidConversation(d) => d.as_str(),
            AppError::ConversationNotFound(d) => d.as_str(),
            AppError::Conflict(d) => d.as_str(),
        }
    }

    /// The user-facing sentence that explains the error, followed by its detail.
    pub fn message(&self) -> (text: String)
        ensures
            text@ == message_prefix(self.kind_spec()) + self.detail_spec(),
    {
        let mut text = prefix_text(self.kind()).to_owned();
        text.append(self.detail());
        text
    }
}

pub open spec fn message_prefix(kind: ErrorKind) -> Seq<char> {
    match kind {
        ErrorKind::Database => "The metadata database could not be opened: "@,
        ErrorKind::Io => "The application data directory is unavailable: "@,
        ErrorKind::InvalidSetting => "The requested setting is invalid: "@,
        ErrorKind::Probe => "The native probe failed: "@,
        ErrorKind::Process => "The process operation failed: "@,
        ErrorKind::InvalidPath => "The selected path is not allowed: "@,
        ErrorKind::InvalidModel => "The GGUF model is invalid: "@,
        ErrorKind::ModelNotFound => "The model record was not found: "@,
        ErrorKind::EnginePackage => "The engine package operation failed: "@,
        ErrorKind::Engine => "The inference engine operation failed: "@,
        ErrorKind::Cancelled => "The operation was cancelled: "@,
        ErrorKind::Operation => "The operation could not be completed: "@,
        ErrorKind::InvalidPrompt => "The prompt is invalid: "@,
        ErrorKind::PromptNotFound => "The prompt was not found: "@,
        ErrorKind::InvalidConversation => "The conversation request is invalid: "@,
        ErrorKind::ConversationNotFound => "The conversation was not found: "@,
        ErrorKind::Conflict => "The record changed before the operation completed: "@,
    }
}

fn prefix_text(kind: ErrorKind) -> (text: &'static str)
    ensures
        text@ == message_prefix(kind),
{
    match kind {
        ErrorKind::Database => "The metadata database could not be opened: ",
        ErrorKind::Io => "The application data directory is unavailable: ",
        ErrorKind::InvalidSetting => "The requested setting is invalid: ",
        ErrorKind::Probe => "The native probe failed: ",
        ErrorKind::Process => "The process operation failed: ",
        ErrorKind::InvalidPath => "The selected path is not allowed: ",
        ErrorKind::InvalidModel => "The GGUF model is invalid: ",
        ErrorKind::ModelNotFound => "The model record was not found: ",
        ErrorKind::EnginePackage => "The engine package operation failed: ",
        ErrorKind::Engine => "The inference engine operation failed: ",
        ErrorKind::Cancelled => "The operation was cancelled: ",
        ErrorKind::Operation => "The operation could not be completed: ",
        ErrorKind::InvalidPrompt => "The prompt is invalid: ",
        ErrorKind::PromptNotFound => "The prompt was not found: ",
        ErrorKind::InvalidConversation => "The conversation request is invalid: ",
        ErrorKind::ConversationNotFound => "The conversation was not found: ",
        ErrorKind::Conflict => "The record changed before the operation completed: ",
    }
}

/// The error form that crosses the interface boundary.
#[derive(Debug, Clone, PartialEq, Eq)]
pub struct IpcError {
    pub code: &'static str,
    pub message: String,
    pub suggestion: Option<String>,
}

pub open spec fn error_code(kind: ErrorKind) -> Seq<char> {
    match kind {
        ErrorKind::Database => "database_error"@,
        ErrorKind::Io => "io_error"@,
        ErrorKind::InvalidSetting => "invalid_setting"@,
        ErrorKind::Probe => "probe_error"@,
        ErrorKind::Process => "process_error"@,
        ErrorKind::InvalidPath => "invalid_path"@,
        ErrorKind::InvalidModel => "invalid_model"@,
        ErrorKind::ModelNotFound => "model_not_found"@,
        ErrorKind::EnginePackage => "engine_package_error"@,
        ErrorKind::Engine => "engine_error"@,
        ErrorKind::Cancelled => "cancelled"@,
        ErrorKind::Operation => "operation_error"@,
        ErrorKind::InvalidPrompt => "invalid_prompt"@,
        ErrorKind::PromptNotFound => "prompt_not_found"@,
        ErrorKind::InvalidConversation => "invalid_conversation"@,
        ErrorKind::ConversationNotFound => "conversation_not_found"@,
        ErrorKind::Conflict => "conflict"@,
    }
}

pub open spec fn error_suggestion(kind: ErrorKind) -> Seq<char> {
    match kind {
        ErrorKind::Database => "Open Logs for details and retry the operation."@,
        ErrorKind::Io => "Check that the file still exists and is readable."@,
        ErrorKind::InvalidSetting => "Review the setting value and try again."@,
        ErrorKind::Probe => "Open Logs for details and retry the hardware probe."@,
        ErrorKind::Process => "Open Logs for details and retry the operation."@,
        ErrorKind::InvalidPath => "Choose a regular local file or folder through the import dialog."@,
        ErrorKind::InvalidModel => "Choose a readable GGUF model file and verify the download completed."@,
        ErrorKind::ModelNotFound => "Refresh the model library and try again."@,
        ErrorKind::EnginePackage => "Check the package status and Logs, then retry or use a verified offline archive."@,
        ErrorKind::Engine => "Check the model, runtime status, and retained engine logs, then retry."@,
        ErrorKind::Cancelled => "Start another operation when you are ready."@,
        ErrorKind::Operation => "Retry the operation. Open Logs if the problem continues."@,
        ErrorKind::InvalidPrompt => "Review the prompt document and try again."@,
        ErrorKind::PromptNotFound => "Refresh the prompt library and try again."@,
        ErrorKind::InvalidConversation => "Review the conversation request and try again."@,
        ErrorKind::ConversationNotFound => "Refresh the conversation list and try again."@,
        ErrorKind::Conflict => "Reload the latest version and apply the change again."@,
    }
}

fn code_and_suggestion(kind: ErrorKind) -> (pair: (&'static str, &'static str))
    ensures
        pair.0@ == error_code(kind),
        pair.1@ == error_suggestion(kind),
{
    match kind {
        ErrorKind::Database => ("database_error", "Open Logs for details and retry the operation."),
        ErrorKind::Io => ("io_error", "Check that the file still exists and is readable."),
        ErrorKind::InvalidSetting => ("invalid_setting", "Review the setting value and try again."),
        ErrorKind::Probe => ("probe_error", "Open Logs for details and retry the hardware probe."),
        ErrorKind::Process => ("process_error", "Open Logs for details and retry the operation."),
        ErrorKind::InvalidPath => ("invalid_path", "Choose a regular local file or folder through the import dialog."),
        ErrorKind::InvalidModel => ("invalid_model", "Choose a readable GGUF model file and verify the download completed."),
        ErrorKind::ModelNotFound => ("model_not_found", "Refresh the model library and try again."),
        ErrorKind::EnginePackage => ("engine_package_error", "Check the package status and Logs, then retry or use a verified offline archive."),
        ErrorKind::Engine => ("engine_error", "Check the model, runtime status, and retained engine logs, then retry."),
        ErrorKind::Cancelled => ("cancelled", "Start another operation when you are ready."),
        ErrorKind::Operation => ("operation_error", "Retry the operation. Open Logs if the problem continues."),
        ErrorKind::InvalidPrompt => ("invalid_prompt", "Review the prompt document and try again."),
        ErrorKind::PromptNotFound => ("prompt_not_found", "Refresh the prompt library and try again."),
        ErrorKind::InvalidConversation => ("invalid_conversation", "Review the conversation request and try again."),
        ErrorKind::ConversationNotFound => ("conversation_not_found", "Refresh the conversation list and try again."),
        ErrorKind::Conflict => ("conflict", "Reload the latest version and apply the change again."),
    }
}

impl IpcError {
    /// The interface form of an application error: a stable code per kind, the full
    /// message, and a suggestion for the user.
    pub fn from_app_error(value: AppError) -> (error: IpcError)
        ensures
            error.code@ == error_code(value.kind_spec()),
            error.message@ == message_prefix(value.kind_spec()) + value.detail_spec(),
            error.suggestion matches Some(s) && s@ == error_suggestion(value.kind_spec()),
    {
        let (code, suggestion) = code_and_suggestion(value.kind());
        IpcError { code, message: value.message(), suggestion: Some(suggestion.to_owned()) }
    }
}

} // verus!
