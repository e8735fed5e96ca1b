//! Indexed model records: verification states, the CPU fit estimate, the Windows path rules
//! for imports, what an inspection does to a record, and the accounting of a folder scan.
use vstd::prelude::*;
use crate::errors::{is_error, AppError, ErrorKind, message_prefix};
use crate::hardware::MemoryInfo;
use crate::models::gguf::GgufMetadata;
use crate::scheduler::{classify_spec, FitLabel, ResourceEstimate, ResourcePolicy};
use crate::text::{
    all_whitespace, ascii_lower_chars, ascii_lower_spec, cat, chars_eq, lemma_index_of_unique, chars_of, chars_start_with,
    contains_char, is_blank, starts_with, str_eq, string_of,
};

verus! {

pub const DEFAULT_CONTEXT_SIZE: u32 = 4096;
pub const MIN_CONTEXT_SIZE: u64 = 256;
pub const MIB: u64 = 1048576;
pub const GIB: u64 = 1073741824;
pub const MIN_RAM_RESERVE_BYTES: u64 = 2147483648;
pub const KV_BYTES_PER_EMBEDDING_PER_LAYER: u64 = 4;
pub const MAX_SCAN_DEPTH: usize = 32;
pub const MAX_SCAN_FILES: usize = 100000;
pub const MAX_REPORTED_ISSUES: usize = 100;

/// Whether an indexed file was read successfully.
#[derive(Debug, Clone, Copy, PartialEq, Eq, Structural)]
pub enum VerificationState {
    MetadataPending,
    Ready,
    Invalid,
    Missing,
}

pub open spec fn verification_text(state: VerificationState) -> Seq<char> {
    match state {
        VerificationState::MetadataPending => "metadata_pending"@,
        VerificationState::Ready => "ready"@,
        VerificationState::Invalid => "invalid"@,
        VerificationState::Missing => "missing"@,
    }
}

pub open spec fn parse_verification_spec(value: Seq<char>) -> Option<VerificationState> {
    if value == "metadata_pending"@ {
        Some(VerificationState::MetadataPending)
    } else if value == "ready"@ {
        Some(VerificationState::Ready)
    } else if value == "invalid"@ {
        Some(VerificationState::Invalid)
    } else if value == "missing"@ {
        Some(VerificationState::Missing)
    } else {
        None
    }
}

impl VerificationState {
    /// The stored name of the state.
    pub fn as_str(self) -> (text: &'static str)
        ensures
            text@ == verification_text(self),
    {
        match self {
            VerificationState::MetadataPending => "metadata_pending",
            VerificationState::Ready => "ready",
            VerificationState::Invalid => "invalid",
            VerificationState::Missing => "missing",
        }
    }

    /// The state a stored name denotes.
    pub fn parse(value: &str) -> (state: Option<VerificationState>)
        ensures
            state == parse_verification_spec(value@),
    {
        if str_eq(value, "metadata_pending") {
            Some(VerificationState::MetadataPending)
        } else if str_eq(value, "ready") {
            Some(VerificationState::Ready)
        } else if str_eq(value, "invalid") {
            Some(VerificationState::Invalid)
        } else if str_eq(value, "missing") {
            Some(VerificationState::Missing)
        } else {
            None
        }
    }
}

/// A stored verification state name reads back as the state that was stored, and a name that
/// parses is the stored name of what it parses to.
pub proof fn law_verification_names_round_trip(state: VerificationState, value: Seq<char>)
    ensures
        parse_verification_spec(verification_text(state)) == Some(state),
        parse_verification_spec(value) matches Some(s) ==> verification_text(s) == value,
{
    reveal_strlit("metadata_pending");
    reveal_strlit("ready");
    reveal_strlit("invalid");
    reveal_strlit("missing");
    assert("metadata_pending"@.len() == 16 && "ready"@.len() == 5 && "invalid"@.len() == 7 && "missing"@.len() == 7);
    assert("invalid"@[0] != "missing"@[0]);
}

/// An indexed model file.
#[derive(Debug, Clone)]
pub struct ModelRecord {
    pub id: String,
    pub kind: String,
    pub display_name: String,
    pub family: Option<String>,
    pub format: String,
    pub path: String,
    pub size_bytes: u64,
    pub sha256: Option<String>,
    pub verification_state: VerificationState,
    pub verification_error: Option<String>,
    pub gguf_metadata: Option<GgufMetadata>,
    pub modified_at_unix_ms: i64,
    pub imported_at: String,
    pub last_verified_at: Option<String>,
    pub file_identity: Option<String>,
}

/// A model row as the store returns it; its GGUF metadata document is read separately.
#[derive(Debug, Clone)]
pub struct StoredModel {
    pub id: String,
    pub kind: String,
    pub display_name: String,
    pub family: Option<String>,
    pub format: String,
    pub path: String,
    pub size_bytes: i64,
    pub sha256: Option<String>,
    pub verification_state: String,
    pub verification_error: Option<String>,
    pub modified_at_unix_ms: i64,
    pub imported_at: String,
    pub last_verified_at: Option<String>,
    pub file_identity: Option<String>,
}

/// What is wrong with a stored model row, checked in order: its verification state, its
/// metadata document (as read, `Err` with the reader's message), and its size.
pub open spec fn stored_model_problem(stored: StoredModel, metadata: Result<Option<GgufMetadata>, Seq<char>>) -> Option<Seq<char>> {
    if parse_verification_spec(stored.verification_state@) is None {
        Some("model "@ + stored.id@ + " has unknown verification state "@ + stored.verification_state@)
    } else if metadata is Err {
        Some("model "@ + stored.id@ + " has corrupt GGUF metadata: "@ + metadata->Err_0)
    } else if stored.size_bytes < 0 {
        Some("model "@ + stored.id@ + " has an invalid size"@)
    } else {
        None
    }
}

/// A stored model row as a record, given what reading its GGUF metadata document gave.
pub fn model_from_stored(stored: StoredModel, metadata: Result<Option<GgufMetadata>, String>) -> (result: Result<ModelRecord, AppError>)
    ensures
        ({
            let read = match metadata {
                Ok(m) => Ok(m),
                Err(t) => Err(t@),
            };
            &&& stored_model_problem(stored, read) matches Some(p) ==> (result matches Err(e) && is_error(e, ErrorKind::Operation, p))
            &&& stored_model_problem(stored, read) is None ==> (result matches Ok(record) && {
                &&& record.id == stored.id
                &&& record.kind == stored.kind
                &&& record.display_name == stored.display_name
                &&& record.family == stored.family
                &&& record.format == stored.format
                &&& record.path == stored.path
                &&& record.size_bytes == stored.size_bytes as u64
                &&& record.sha256 == stored.sha256
                &&& Some(record.verification_state) == parse_verification_spec(stored.verification_state@)
                &&& record.verification_error == stored.verification_error
                &&& metadata == Ok::<Option<GgufMetadata>, String>(record.gguf_metadata)
                &&& record.modified_at_unix_ms == stored.modified_at_unix_ms
                &&& record.imported_at == stored.imported_at
                &&& record.last_verified_at == stored.last_verified_at
                &&& record.file_identity == stored.file_identity
            })
        }),
{
    let verification_state = match VerificationState::parse(stored.verification_state.as_str()) {
        Some(state) => state,
        None => {
            let mut text = cat("model ", stored.id.as_str());
            text.append(" has unknown verification state ");
            text.append(stored.verification_state.as_str());
            return Err(AppError::Operation(text));
        },
    };
    let gguf_metadata = match metadata {
        Ok(m) => m,
        Err(t) => {
            let mut text = cat("model ", stored.id.as_str());
            text.append(" has corrupt GGUF metadata: ");
            text.append(t.as_str());
            return Err(AppError::Operation(text));
        },
    };
    if stored.size_bytes < 0 {
        let mut text = cat("model ", stored.id.as_str());
        text.append(" has an invalid size");
        return Err(AppError::Operation(text));
    }
    Ok(ModelRecord {
        id: stored.id,
        kind: stored.kind,
        display_name: stored.display_name,
        family: stored.family,
        format: stored.format,
        path: stored.path,
        size_bytes: stored.size_bytes as u64,
        sha256: stored.sha256,
        verification_state,
        verification_error: stored.verification_error,
        gguf_metadata,
        modified_at_unix_ms: stored.modified_at_unix_ms,
        imported_at: stored.imported_at,
        last_verified_at: stored.last_verified_at,
        file_identity: stored.file_identity,
    })
}

/// How much of a fit estimate rests on the model's own shape metadata.
#[derive(Debug, Clone, Copy, PartialEq, Eq, Structural)]
pub enum FitConfidence {
    Medium,
    Low,
}

/// Whether a model is expected to fit in memory on the CPU route, and why.
#[derive(Debug, Clone)]
pub struct ModelFitEstimate {
    pub model_id: String,
    pub route: String,
    pub fit: FitLabel,
    pub confidence: FitConfidence,
    pub context_size: u32,
    pub estimated_ram_bytes: u64,
    pub available_ram_bytes: u64,
    pub reserved_ram_bytes: u64,
    pub weight_bytes: u64,
    pub kv_cache_bytes: u64,
    pub runtime_overhead_bytes: u64,
    pub headroom_bytes: u64,
    pub reason: String,
}

#[derive(Debug, Clone)]
pub struct ImportModelRequest {
    pub path: String,
}

#[derive(Debug, Clone)]
pub struct ImportModelOutcome {
    pub model: ModelRecord,
    pub already_indexed: bool,
}

#[derive(Debug, Clone)]
pub struct ModelIdRequest {
    pub model_id: String,
}

#[derive(Debug, Clone)]
pub struct ScanModelFolderRequest {
    pub scan_id: String,
    pub path: String,
}

/// Where a folder scan is.
#[derive(Debug, Clone, Copy, PartialEq, Eq, Structural)]
pub enum ScanPhase {
    Discovering,
    Importing,
    Complete,
}

#[derive(Debug, Clone)]
pub struct ModelScanProgress {
    pub scan_id: String,
    pub phase: ScanPhase,
    pub current_path: Option<String>,
    pub discovered: usize,
    pub processed: usize,
    pub imported: usize,
    pub duplicates: usize,
    pub invalid: usize,
}

#[derive(Debug, Clone)]
pub struct ModelScanIssue {
    pub path: String,
    pub message: String,
}

#[derive(Debug, Clone)]
pub struct ModelScanSummary {
    pub scan_id: String,
    pub discovered: usize,
    pub processed: usize,
    pub imported: usize,
    pub duplicates: usize,
    pub invalid: usize,
    pub cancelled: bool,
    pub issues: Vec<ModelScanIssue>,
}

/// A model file that passed the import checks, at its canonical storage path.
#[derive(Debug, Clone)]
pub struct GrantedModelFile {
    pub canonical_path: String,
    pub display_name: String,
    pub size_bytes: u64,
    pub modified_at_unix_ms: i64,
    pub file_identity: Option<String>,
}

// ---------------------------------------------------------------------------------------------
// Fit
pub open spec fn sat_mul(a: u64, b: u64) -> u64 {
    if a * b > u64::MAX { u64::MAX } else { (a * b) as u64 }
}

pub open spec fn sat_add(a: u64, b: u64) -> u64 {
    if a + b > u64::MAX { u64::MAX } else { (a + b) as u64 }
}

pub open spec fn sat_sub(a: u64, b: u64) -> u64 {
    if a >= b { (a - b) as u64 } else { 0 }
}

pub open spec fn max_u64(a: u64, b: u64) -> u64 {
    if a >= b { a } else { b }
}

fn saturating_mul(a: u64, b: u64) -> (r: u64)
    ensures
        r == sat_mul(a, b),
{
    match a.checked_mul(b) {
        Some(v) => v,
        None => u64::MAX,
    }
}

/// The context an estimate assumes: the model's trained length (4096 when unknown), held
/// between 256 and 4096.
pub open spec fn fit_context(metadata: Option<GgufMetadata>) -> u32 {
    let c: u64 = match metadata {
        Some(m) => match m.context_length {
            Some(c) => c,
            None => 4096,
        },
        None => 4096,
    };
    if c < MIN_CONTEXT_SIZE { 256 } else if c > 4096 { 4096 } else { c as u32 }
}

/// The key/value cache estimate and its confidence: four bytes per layer, context position and
/// embedding value when the shape is known, else a quarter of the file (at least 256 MiB).
pub open spec fn kv_cache_spec(metadata: Option<GgufMetadata>, size: u64, context: u32) -> (u64, FitConfidence) {
    match metadata {
        Some(m) => match (m.layer_count, m.embedding_length) {
            (Some(layers), Some(embedding)) => (
                sat_mul(sat_mul(sat_mul(layers, context as u64), embedding), KV_BYTES_PER_EMBEDDING_PER_LAYER),
                FitConfidence::Medium,
            ),
            _ => (max_u64(size / 4, 268435456u64), FitConfidence::Low),
        },
        None => (max_u64(size / 4, 268435456u64), FitConfidence::Low),
    }
}

/// The explanation of a fit label.
pub open spec fn fit_reason(fit: FitLabel) -> Seq<char> {
    match fit {
        FitLabel::Excellent => "At least 30% estimated RAM headroom on the verified CPU route."@,
        FitLabel::Good => "At least 15% estimated RAM headroom on the verified CPU route."@,
        FitLabel::Tight => "Estimated to fit the CPU route with less than 15% RAM headroom."@,
        FitLabel::NotRecommended => "Estimated RAM exceeds current memory after the system safety reserve."@,
    }
}

/// A conservative estimate of whether a model fits in RAM on the CPU route: weights, the
/// key/value cache and a runtime overhead (a tenth of the file, at least 512 MiB) against the
/// available memory after a reserve of a tenth of total memory (at least 2 GiB).
pub fn estimate_cpu_fit(model: &ModelRecord, memory: &MemoryInfo) -> (estimate: ModelFitEstimate)
    ensures
        ({
            let context = fit_context(model.gguf_metadata);
            let (kv, confidence) = kv_cache_spec(model.gguf_metadata, model.size_bytes, context);
            let overhead = max_u64(model.size_bytes / 10, 536870912u64);
            let required = sat_add(sat_add(model.size_bytes, kv), overhead);
            let reserve = max_u64(memory.total_bytes / 10, MIN_RAM_RESERVE_BYTES);
            let fit = classify_spec(reserve, 0, required, 0, memory.available_bytes, 0);
            &&& estimate.model_id@ == model.id@
            &&& estimate.route@ == "cpu"@
            &&& estimate.fit == fit
            &&& estimate.confidence == confidence
            &&& estimate.context_size == context
            &&& estimate.estimated_ram_bytes == required
            &&& estimate.available_ram_bytes == memory.available_bytes
            &&& estimate.reserved_ram_bytes == reserve
            &&& estimate.weight_bytes == model.size_bytes
            &&& estimate.kv_cache_bytes == kv
            &&& estimate.runtime_overhead_bytes == overhead
            &&& estimate.headroom_bytes == sat_sub(sat_sub(memory.available_bytes, reserve), required)
            &&& estimate.reason@ == fit_reason(fit)
        }),
{
    let context_length: u64 = match &model.gguf_metadata {
        Some(m) => match m.context_length {
            Some(c) => c,
            None => 4096,
        },
        None => 4096,
    };
    let context: u32 = if context_length < MIN_CONTEXT_SIZE {
        256
    } else if context_length > 4096 {
        4096
    } else {
        context_length as u32
    };
    let shape: Option<(u64, u64)> = match &model.gguf_metadata {
        Some(m) => match (m.layer_count, m.embedding_length) {
            (Some(l), Some(e)) => Some((l, e)),
            _ => None,
        },
        None => None,
    };
    let size = model.size_bytes;
    let quarter = size / 4;
    let (kv, confidence) = match shape {
        Some((layers, embedding)) => (
            saturating_mul(saturating_mul(saturating_mul(layers, context as u64), embedding), KV_BYTES_PER_EMBEDDING_PER_LAYER),
            FitConfidence::Medium,
        ),
        None => (if quarter >= 256 * MIB { quarter } else { 256 * MIB }, FitConfidence::Low),
    };
    let tenth = size / 10;
    let overhead = if tenth >= 512 * MIB { tenth } else { 512 * MIB };
    let required = size.saturating_add(kv).saturating_add(overhead);
    let total_tenth = memory.total_bytes / 10;
    let reserve = if total_tenth >= MIN_RAM_RESERVE_BYTES { total_tenth } else { MIN_RAM_RESERVE_BYTES };
    let policy = ResourcePolicy { ram_reserve_bytes: reserve, vram_reserve_bytes: 0 };
    let fit = policy.classify(ResourceEstimate { required_ram_bytes: required, required_vram_bytes: 0 }, memory.available_bytes, 0);
    let usable = memory.available_bytes.saturating_sub(reserve);
    let headroom = usable.saturating_sub(required);
    let reason = match fit {
        FitLabel::Excellent => "At least 30% estimated RAM headroom on the verified CPU route.".to_owned(),
        FitLabel::Good => "At least 15% estimated RAM headroom on the verified CPU route.".to_owned(),
        FitLabel::Tight => "Estimated to fit the CPU route with less than 15% RAM headroom.".to_owned(),
        FitLabel::NotRecommended => "Estimated RAM exceeds current memory after the system safety reserve.".to_owned(),
    };
    ModelFitEstimate {
        model_id: model.id.clone(),
        route: "cpu".to_owned(),
        fit,
        confidence,
        context_size: context,
        estimated_ram_bytes: required,
        available_ram_bytes: memory.available_bytes,
        reserved_ram_bytes: reserve,
        weight_bytes: size,
        kv_cache_bytes: kv,
        runtime_overhead_bytes: overhead,
        headroom_bytes: headroom,
        reason,
    }
}

// ---------------------------------------------------------------------------------------------
// Windows paths
pub open spec fn is_separator(c: char) -> bool {
    c == '/' || c == '\\'
}

pub open spec fn is_ascii_letter(c: char) -> bool {
    ('a' <= c <= 'z') || ('A' <= c <= 'Z')
}

/// The path without a leading drive prefix such as `C:`.
pub open spec fn without_drive(path: Seq<char>) -> Seq<char> {
    if path.len() >= 2 && is_ascii_letter(path[0]) && path[1] == ':' { path.skip(2) } else { path }
}

/// A segment that names something: not empty and not `.`.
pub open spec fn is_named(seg: Seq<char>) -> bool {
    seg.len() > 0 && seg != seq!['.']
}

/// Reading a path left to right: the last named segment finished so far, and the unfinished
/// segment.
pub open spec fn last_named_run(path: Seq<char>) -> (Seq<char>, Seq<char>)
    decreases path.len(),
{
    if path.len() == 0 {
        (Seq::empty(), Seq::empty())
    } else {
        let (last, current) = last_named_run(path.drop_last());
        if is_separator(path.last()) {
            (if is_named(current) { current } else { last }, Seq::empty())
        } else {
            (last, current.push(path.last()))
        }
    }
}

/// The final component of a Windows path, as `Path::file_name` gives it: the last named
/// segment, unless that is `..` or there is none.
pub open spec fn file_name_spec(path: Seq<char>) -> Option<Seq<char>> {
    let (last, current) = last_named_run(without_drive(path));
    let name = if is_named(current) { current } else { last };
    if name.len() == 0 || name == seq!['.', '.'] { None } else { Some(name) }
}

/// Index of the last `.` of a name, or -1.
pub open spec fn last_dot(name: Seq<char>) -> int
    decreases name.len(),
{
    if name.len() == 0 {
        -1
    } else if name.last() == '.' {
        name.len() - 1
    } else {
        last_dot(name.drop_last())
    }
}

/// The text after the last `.` of a name that has something before that dot.
pub open spec fn extension_spec(name: Seq<char>) -> Option<Seq<char>> {
    if last_dot(name) > 0 { Some(name.skip(last_dot(name) + 1)) } else { None }
}

/// A name without its extension.
pub open spec fn stem_spec(name: Seq<char>) -> Seq<char> {
    if last_dot(name) > 0 { name.subrange(0, last_dot(name)) } else { name }
}

proof fn lemma_last_dot(name: Seq<char>)
    ensures
        -1 <= last_dot(name) < name.len(),
        last_dot(name) >= 0 ==> name[last_dot(name)] == '.',
        forall|i: int| last_dot(name) < i < name.len() ==> name[i] != '.',
    decreases name.len(),
{
    if name.len() > 0 && name.last() != '.' {
        lemma_last_dot(name.drop_last());
        assert forall|i: int| last_dot(name) < i < name.len() implies name[i] != '.' by {
            if i < name.len() - 1 {
                assert(name[i] == name.drop_last()[i]);
            }
        }
    }
}

fn find_last_dot(name: &Vec<char>) -> (index: Option<usize>)
    ensures
        match index {
            Some(i) => i as int == last_dot(name@) && i < name@.len(),
            None => last_dot(name@) == -1,
        },
{
    proof {
        lemma_last_dot(name@);
    }
    let mut i = name.len();
    while i > 0 && name[i - 1] != '.'
        invariant
            i <= name@.len(),
            forall|k: int| i <= k < name@.len() ==> name@[k] != '.',
        decreases i,
    {
        i -= 1;
    }
    proof {
        if i > 0 && last_dot(name@) != i - 1 {
            assert(name@[i - 1] == '.');
        }
        if i == 0 && last_dot(name@) >= 0 {
            assert(name@[last_dot(name@)] == '.');
        }
    }
    if i == 0 { None } else { Some(i - 1) }
}

fn file_name_chars(path: &str) -> (name: Option<Vec<char>>)
    ensures
        match name {
            Some(n) => file_name_spec(path@) == Some(n@),
            None => file_name_spec(path@) is None,
        },
{
    let chars = chars_of(path);
    let n = chars.len();
    let start: usize = if n >= 2 && (('a' <= chars[0] && chars[0] <= 'z') || ('A' <= chars[0] && chars[0] <= 'Z')) && chars[1] == ':' { 2 } else { 0 };
    let ghost p = without_drive(path@);
    assert(p =~= path@.subrange(start as int, n as int));
    let mut last: Vec<char> = Vec::new();
    let mut current: Vec<char> = Vec::new();
    let mut i = start;
    assert(p.subrange(0, 0) =~= Seq::<char>::empty());
    while i < n
        invariant
            chars@ == path@,
            n == chars@.len(),
            start <= i <= n,
            p == path@.subrange(start as int, n as int),
            last_named_run(p.subrange(0, i - start)) == (last@, current@),
        decreases n - i,
    {
        proof {
            assert(p.subrange(0, i - start + 1).drop_last() =~= p.subrange(0, i - start));
            assert(p.subrange(0, i - start + 1).last() == chars@[i as int]);
        }
        let c = chars[i];
        if c == '/' || c == '\\' {
            let named = current.len() > 0 && !(current.len() == 1 && current[0] == '.');
            proof {
                if current@.len() == 1 && current@[0] == '.' {
                    assert(current@ =~= seq!['.']);
                }
                if current@ == seq!['.'] {
                    assert(current@.len() == 1);
                }
            }
            if named {
                last = current;
            }
            current = Vec::new();
        } else {
            current.push(c);
        }
        i += 1;
    }
    assert(p.subrange(0, n - start) =~= p);
    let named = current.len() > 0 && !(current.len() == 1 && current[0] == '.');
    proof {
        if current@.len() == 1 && current@[0] == '.' {
            assert(current@ =~= seq!['.']);
        }
        if current@ == seq!['.'] {
            assert(current@.len() == 1);
        }
    }
    let name = if named { current } else { last };
    let dotdot = name.len() == 2 && name[0] == '.' && name[1] == '.';
    proof {
        if name@.len() == 2 && name@[0] == '.' && name@[1] == '.' {
            assert(name@ =~= seq!['.', '.']);
        }
        if name@ == seq!['.', '.'] {
            assert(name@.len() == 2);
        }
    }
    if name.len() == 0 || dotdot { None } else { Some(name) }
}

/// The path names a file with the extension `gguf`, ignoring ASCII case.
pub open spec fn has_gguf_extension_spec(path: Seq<char>) -> bool {
    file_name_spec(path) matches Some(name) && (extension_spec(name) matches Some(e) && ascii_lower_spec(e) == "gguf"@)
}

pub fn has_gguf_extension(path: &str) -> (result: bool)
    ensures
        result == has_gguf_extension_spec(path@),
{
    let name = match file_name_chars(path) {
        Some(n) => n,
        None => return false,
    };
    let dot = match find_last_dot(&name) {
        Some(d) => d,
        None => return false,
    };
    if dot == 0 || dot >= name.len() {
        return false;
    }
    let ext = string_of(&name, dot + 1, name.len());
    assert(name@.skip(dot + 1) =~= name@.subrange(dot + 1, name@.len() as int));
    let lowered = ascii_lower_chars(ext.as_str());
    let gguf = chars_of("gguf");
    chars_eq(&lowered, &gguf)
}

/// The extension of the path's file name in ASCII lower case; empty when there is none.
pub open spec fn lowered_extension_spec(path: Seq<char>) -> Seq<char> {
    match file_name_spec(path) {
        Some(name) => match extension_spec(name) {
            Some(x) => ascii_lower_spec(x),
            None => Seq::empty(),
        },
        None => Seq::empty(),
    }
}

pub fn lowered_extension(path: &str) -> (ext: Vec<char>)
    ensures
        ext@ == lowered_extension_spec(path@),
{
    let name = match file_name_chars(path) {
        Some(n) => n,
        None => return Vec::new(),
    };
    let dot = match find_last_dot(&name) {
        Some(d) => d,
        None => return Vec::new(),
    };
    if dot == 0 || dot >= name.len() {
        return Vec::new();
    }
    let ext = string_of(&name, dot + 1, name.len());
    assert(name@.skip(dot + 1) =~= name@.subrange(dot + 1, name@.len() as int));
    ascii_lower_chars(ext.as_str())
}

/// The stem of the path's file name, if it has a file name.
pub fn file_stem_text(path: &str) -> (stem: Option<String>)
    ensures
        match (stem, file_name_spec(path@)) {
            (Some(s), Some(name)) => s@ == stem_spec(name),
            (None, None) => true,
            _ => false,
        },
{
    let file = match file_name_chars(path) {
        Some(n) => n,
        None => return None,
    };
    let end = match find_last_dot(&file) {
        Some(d) => if d > 0 { d } else { file.len() },
        None => file.len(),
    };
    assert(file@.subrange(0, file@.len() as int) =~= file@);
    Some(string_of(&file, 0, end))
}

/// The name shown for an imported file: its stem when that is not blank, else
/// `Unnamed GGUF model`.
pub open spec fn display_name_spec(path: Seq<char>) -> Seq<char> {
    match file_name_spec(path) {
        Some(name) => if all_whitespace(stem_spec(name)) { "Unnamed GGUF model"@ } else { stem_spec(name) },
        None => "Unnamed GGUF model"@,
    }
}

pub fn display_name_for(path: &str) -> (name: String)
    ensures
        name@ == display_name_spec(path@),
{
    let file = match file_name_chars(path) {
        Some(n) => n,
        None => return "Unnamed GGUF model".to_owned(),
    };
    let end = match find_last_dot(&file) {
        Some(d) => if d > 0 { d } else { file.len() },
        None => file.len(),
    };
    let stem = string_of(&file, 0, end);
    assert(file@.subrange(0, file@.len() as int) =~= file@);
    if is_blank(stem.as_str()) {
        "Unnamed GGUF model".to_owned()
    } else {
        stem
    }
}

/// An absolute Windows path: a drive prefix followed by a separator, or a UNC path starting
/// with two separators. The application runs on Windows only (its README names Windows 11 and
/// the `x86_64-pc-windows-msvc` target), so this is the rule that `Path::is_absolute` applies
/// there; every path check of the library uses it, whatever host runs the tests.
pub open spec fn is_absolute_windows(path: Seq<char>) -> bool {
    (path.len() >= 3 && is_ascii_letter(path[0]) && path[1] == ':' && is_separator(path[2]))
        || (path.len() >= 2 && is_separator(path[0]) && is_separator(path[1]))
}

/// Whether a path is absolute on Windows: a drive letter with a separator, or two leading
/// separators.
pub fn is_absolute_path(path: &str) -> (absolute: bool)
    ensures
        absolute == is_absolute_windows(path@),
{
    let chars = chars_of(path);
    let n = chars.len();
    if n >= 3 && (('a' <= chars[0] && chars[0] <= 'z') || ('A' <= chars[0] && chars[0] <= 'Z')) && chars[1] == ':' {
        chars[2] == '/' || chars[2] == '\\'
    } else {
        n >= 2 && (chars[0] == '/' || chars[0] == '\\') && (chars[1] == '/' || chars[1] == '\\')
    }
}

/// The segment of `p` starting at `i` is `..`.
pub open spec fn parent_at(p: Seq<char>, i: int) -> bool {
    0 <= i && i + 2 <= p.len() && p[i] == '.' && p[i + 1] == '.' && (i == 0 || is_separator(p[i - 1]))
        && (i + 2 == p.len() || is_separator(p[i + 2]))
}

/// Some segment of the path (after its drive prefix) is `..`.
pub open spec fn has_parent_segment(path: Seq<char>) -> bool {
    exists|i: int| #[trigger] parent_at(without_drive(path), i)
}

/// The text checks on an import path, the first failure reported: not blank and free of NUL,
/// not a Windows device or verbatim path (reading `/` as `\\`), absolute, and without `..`.
pub open spec fn input_path_check(raw: Seq<char>) -> Result<(), Seq<char>> {
    let normalized = raw.map_values(|c: char| if c == '/' { '\\' } else { c });
    if all_whitespace(raw) || raw.contains('\0') {
        Err("the selected path is empty or malformed"@)
    } else if starts_with(normalized, seq!['\\', '\\', '.', '\\']) || starts_with(normalized, seq!['\\', '\\', '?', '\\']) {
        Err("Windows device paths are not accepted"@)
    } else if !is_absolute_windows(raw) {
        Err("the selected path must be absolute"@)
    } else if has_parent_segment(raw) {
        Err("parent-directory traversal is not accepted"@)
    } else {
        Ok(())
    }
}

fn invalid_path(text: &str) -> (e: AppError)
    ensures
        is_error(e, ErrorKind::InvalidPath, text@),
{
    AppError::InvalidPath(text.to_owned())
}

#[verifier::loop_isolation(false)]
pub fn validate_input_path(raw: &str) -> (result: Result<(), AppError>)
    ensures
        match (result, input_path_check(raw@)) {
            (Ok(()), Ok(())) => true,
            (Err(e), Err(d)) => is_error(e, ErrorKind::InvalidPath, d),
            _ => false,
        },
{
    if is_blank(raw) || contains_char(raw, '\0') {
        return Err(invalid_path("the selected path is empty or malformed"));
    }
    let chars = chars_of(raw);
    let n = chars.len();
    let mut normalized: Vec<char> = Vec::new();
    let mut i: usize = 0;
    while i < n
        invariant
            chars@ == raw@,
            n == chars@.len(),
            i <= n,
            normalized@ == raw@.subrange(0, i as int).map_values(|c: char| if c == '/' { '\\' } else { c }),
        decreases n - i,
    {
        let c = chars[i];
        normalized.push(if c == '/' { '\\' } else { c });
        assert(raw@.subrange(0, i + 1).map_values(|c: char| if c == '/' { '\\' } else { c }) =~= raw@.subrange(0, i as int).map_values(|c: char| if c == '/' { '\\' } else { c }).push(if c == '/' { '\\' } else { c }));
        i += 1;
    }
    assert(raw@.subrange(0, n as int) =~= raw@);
    let device = vec!['\\', '\\', '.', '\\'];
    let verbatim = vec!['\\', '\\', '?', '\\'];
    assert(device@ =~= seq!['\\', '\\', '.', '\\'] && verbatim@ =~= seq!['\\', '\\', '?', '\\']);
    if chars_start_with(&normalized, &device) || chars_start_with(&normalized, &verbatim) {
        return Err(invalid_path("Windows device paths are not accepted"));
    }
    if !is_absolute_path(raw) {
        return Err(invalid_path("the selected path must be absolute"));
    }
    let start: usize = if n >= 2 && (('a' <= chars[0] && chars[0] <= 'z') || ('A' <= chars[0] && chars[0] <= 'Z')) && chars[1] == ':' { 2 } else { 0 };
    let ghost p = without_drive(raw@);
    assert(p =~= raw@.subrange(start as int, n as int));
    let mut k: usize = start;
    while k < n && n - k > 1
        invariant
            chars@ == raw@,
            n == chars@.len(),
            start <= k <= n,
            p == raw@.subrange(start as int, n as int),
            forall|j: int| 0 <= j < k - start ==> !#[trigger] parent_at(p, j),
        decreases n - k,
    {
        let before_ok = k == start || chars[k - 1] == '/' || chars[k - 1] == '\\';
        let after_ok = k + 2 == n || chars[k + 2] == '/' || chars[k + 2] == '\\';
        if chars[k] == '.' && chars[k + 1] == '.' && before_ok && after_ok {
            assert(parent_at(p, k - start));
            return Err(invalid_path("parent-directory traversal is not accepted"));
        }
        k += 1;
    }
    proof {
        assert forall|j: int| !#[trigger] parent_at(p, j) by {
            if 0 <= j && j < k - start {
            }
        }
    }
    Ok(())
}

/// A file size that fits a SQLite integer.
pub fn checked_sqlite_size(size: u64) -> (result: Result<i64, AppError>)
    ensures
        size <= i64::MAX ==> result == Ok::<i64, AppError>(size as i64),
        size > i64::MAX ==> (result matches Err(e) && is_error(e, ErrorKind::InvalidModel, "the file is too large to index safely"@)),
{
    if size > 0x7fff_ffff_ffff_ffff {
        return Err(AppError::InvalidModel("the file is too large to index safely".to_owned()));
    }
    Ok(size as i64)
}

/// The decisions of granting access to a model file or folder, on what the file system
/// reported about it.
pub struct PathGrantService;

impl PathGrantService {
    /// Symbolic links and Windows reparse points are refused.
    pub fn check_link(is_symlink: bool, is_reparse_point: bool) -> (result: Result<(), AppError>)
        ensures
            is_symlink ==> (result matches Err(e) && is_error(e, ErrorKind::InvalidPath, "symbolic links are not accepted for model imports"@)),
            !is_symlink && is_reparse_point ==> (result matches Err(e) && is_error(e, ErrorKind::InvalidPath, "Windows reparse points are not accepted for model imports"@)),
            !is_symlink && !is_reparse_point ==> result is Ok,
    {
        if is_symlink {
            return Err(invalid_path("symbolic links are not accepted for model imports"));
        }
        if is_reparse_point {
            return Err(invalid_path("Windows reparse points are not accepted for model imports"));
        }
        Ok(())
    }

    /// A canonical path with what its metadata says becomes a granted model file: it must be
    /// a regular file, have the `gguf` extension (ignoring ASCII case) and a size that fits a
    /// SQLite integer; it is shown under its display name.
    pub fn grant_model_file(
        canonical_path: String,
        is_file: bool,
        size_bytes: u64,
        modified_at_unix_ms: i64,
        file_identity: Option<String>,
    ) -> (result: Result<GrantedModelFile, AppError>)
        ensures
            !is_file ==> (result matches Err(e) && is_error(e, ErrorKind::InvalidPath, "the selected path is not a regular file"@)),
            is_file && !has_gguf_extension_spec(canonical_path@) ==> (result matches Err(e) && is_error(e, ErrorKind::InvalidPath, "only .gguf model files can be imported"@)),
            is_file && has_gguf_extension_spec(canonical_path@) && size_bytes > i64::MAX ==> (result matches Err(e) && is_error(e, ErrorKind::InvalidModel, "the file is too large to index safely"@)),
            is_file && has_gguf_extension_spec(canonical_path@) && size_bytes <= i64::MAX ==> (result matches Ok(g) && {
                &&& g.canonical_path@ == canonical_path@
                &&& g.display_name@ == display_name_spec(canonical_path@)
                &&& g.size_bytes == size_bytes
                &&& g.modified_at_unix_ms == modified_at_unix_ms
                &&& g.file_identity == file_identity
            }),
    {
        if !is_file {
            return Err(invalid_path("the selected path is not a regular file"));
        }
        if !has_gguf_extension(canonical_path.as_str()) {
            return Err(invalid_path("only .gguf model files can be imported"));
        }
        let display_name = display_name_for(canonical_path.as_str());
        match checked_sqlite_size(size_bytes) {
            Err(e) => Err(e),
            Ok(_) => Ok(GrantedModelFile { canonical_path, display_name, size_bytes, modified_at_unix_ms, file_identity }),
        }
    }

    /// A granted folder must be a directory.
    pub fn check_folder(is_dir: bool) -> (result: Result<(), AppError>)
        ensures
            is_dir ==> result is Ok,
            !is_dir ==> (result matches Err(e) && is_error(e, ErrorKind::InvalidPath, "the selected path is not a folder"@)),
    {
        if is_dir {
            Ok(())
        } else {
            Err(invalid_path("the selected path is not a folder"))
        }
    }
}

// ---------------------------------------------------------------------------------------------
// Inspection
/// What inspecting a granted file does to its record: the file's path, size, time and identity
/// are taken; a readable header makes the record ready with its metadata, its architecture as
/// family and its `general.name` (when not blank) as display name; an unreadable one makes it
/// invalid with the error text and the file's own display name.
pub fn apply_inspection(model: &mut ModelRecord, granted: &GrantedModelFile, verified_at: String, inspection: Result<GgufMetadata, AppError>)
    ensures
        final(model).id == old(model).id,
        final(model).kind == old(model).kind,
        final(model).format == old(model).format,
        final(model).sha256 == old(model).sha256,
        final(model).imported_at == old(model).imported_at,
        final(model).path@ == granted.canonical_path@,
        final(model).size_bytes == granted.size_bytes,
        final(model).modified_at_unix_ms == granted.modified_at_unix_ms,
        final(model).file_identity == granted.file_identity,
        final(model).last_verified_at == Some(verified_at),
        match inspection {
            Ok(meta) => {
                &&& final(model).verification_state == VerificationState::Ready
                &&& final(model).verification_error is None
                &&& final(model).gguf_metadata == Some(meta)
                &&& final(model).family == meta.architecture
                &&& final(model).display_name@ == match meta.name {
                    Some(n) => if all_whitespace(n@) { granted.display_name@ } else { n@ },
                    None => granted.display_name@,
                }
            },
            Err(e) => {
                &&& final(model).verification_state == VerificationState::Invalid
                &&& (final(model).verification_error matches Some(t) && t@ == message_prefix(e.kind_spec()) + e.detail_spec())
                &&& final(model).gguf_metadata is None
                &&& final(model).family is None
                &&& final(model).display_name@ == granted.display_name@
            },
        },
{
    model.path = granted.canonical_path.clone();
    model.size_bytes = granted.size_bytes;
    model.modified_at_unix_ms = granted.modified_at_unix_ms;
    model.file_identity = match &granted.file_identity {
        Some(f) => Some(f.clone()),
        None => None,
    };
    model.last_verified_at = Some(verified_at);
    match inspection {
        Ok(meta) => {
            model.display_name = match &meta.name {
                Some(n) => if is_blank(n.as_str()) { granted.display_name.clone() } else { n.clone() },
                None => granted.display_name.clone(),
            };
            model.family = match &meta.architecture {
                Some(a) => Some(a.clone()),
                None => None,
            };
            model.gguf_metadata = Some(meta);
            model.verification_state = VerificationState::Ready;
            model.verification_error = None;
        },
        Err(e) => {
            model.display_name = granted.display_name.clone();
            model.family = None;
            model.gguf_metadata = None;
            model.verification_state = VerificationState::Invalid;
            model.verification_error = Some(e.message());
        },
    }
}

/// A new record for a granted file, before its header is inspected.
pub fn new_model_record(id: String, granted: &GrantedModelFile, imported_at: String) -> (model: ModelRecord)
    ensures
        model.id == id,
        model.kind@ == "llm"@,
        model.display_name@ == granted.display_name@,
        model.family is None,
        model.format@ == "gguf"@,
        model.path@ == granted.canonical_path@,
        model.size_bytes == granted.size_bytes,
        model.sha256 is None,
        model.verification_state == VerificationState::MetadataPending,
        model.verification_error is None,
        model.gguf_metadata is None,
        model.modified_at_unix_ms == granted.modified_at_unix_ms,
        model.imported_at == imported_at,
        model.last_verified_at is None,
        model.file_identity == granted.file_identity,
{
    ModelRecord {
        id,
        kind: "llm".to_owned(),
        display_name: granted.display_name.clone(),
        family: None,
        format: "gguf".to_owned(),
        path: granted.canonical_path.clone(),
        size_bytes: granted.size_bytes,
        sha256: None,
        verification_state: VerificationState::MetadataPending,
        verification_error: None,
        gguf_metadata: None,
        modified_at_unix_ms: granted.modified_at_unix_ms,
        imported_at,
        last_verified_at: None,
        file_identity: match &granted.file_identity {
            Some(f) => Some(f.clone()),
            None => None,
        },
    }
}

/// Reverifying a record whose file is gone marks it missing.
pub fn mark_model_missing(model: &mut ModelRecord, now: String)
    ensures
        final(model).verification_state == VerificationState::Missing,
        final(model).verification_error matches Some(t) && t@ == "The indexed file no longer exists at this path."@,
        *final(model) == (ModelRecord {
            verification_state: VerificationState::Missing,
            verification_error: final(model).verification_error,
            last_verified_at: Some(now),
            ..*old(model)
        }),
{
    model.verification_state = VerificationState::Missing;
    model.verification_error = Some("The indexed file no longer exists at this path.".to_owned());
    model.last_verified_at = Some(now);
}

/// Reverifying a record whose file no longer passes the import checks marks it invalid with
/// the error text and drops its metadata.
pub fn mark_model_rejected(model: &mut ModelRecord, error: &AppError, now: String)
    ensures
        final(model).verification_state == VerificationState::Invalid,
        final(model).verification_error matches Some(t) && t@ == message_prefix(error.kind_spec()) + error.detail_spec(),
        *final(model) == (ModelRecord {
            verification_state: VerificationState::Invalid,
            verification_error: final(model).verification_error,
            gguf_metadata: None,
            last_verified_at: Some(now),
            ..*old(model)
        }),
{
    model.verification_state = VerificationState::Invalid;
    model.verification_error = Some(error.message());
    model.gguf_metadata = None;
    model.last_verified_at = Some(now);
}

// ---------------------------------------------------------------------------------------------
// Folder scans
/// An ASCII hexadecimal digit, in either case.
pub open spec fn is_hex_digit(c: char) -> bool {
    ('0' <= c && c <= '9') || ('a' <= c && c <= 'f') || ('A' <= c && c <= 'F')
}

/// The hyphenated form: 36 characters, hyphens at 8, 13, 18 and 23, hex digits elsewhere.
pub open spec fn hyphenated_uuid(s: Seq<char>) -> bool {
    &&& s.len() == 36
    &&& forall|i: int|
        0 <= i < 36 ==> if i == 8 || i == 13 || i == 18 || i == 23 {
            #[trigger] s[i] == '-'
        } else {
            is_hex_digit(s[i])
        }
}

/// A character equal to `lower` once ASCII capitals are lowered.
pub open spec fn ascii_caseless_eq(c: char, lower: char) -> bool {
    c == lower || ('A' <= c && c <= 'Z' && (c as u32) + 32 == (lower as u32))
}

/// The texts that `uuid::Uuid::parse_str` accepts: 32 hex digits, the hyphenated form, the
/// hyphenated form in braces, or the hyphenated form behind `urn:uuid:` in any ASCII case.
pub open spec fn uuid_text(s: Seq<char>) -> bool {
    ||| s.len() == 32 && forall|i: int| 0 <= i < 32 ==> is_hex_digit(#[trigger] s[i])
    ||| hyphenated_uuid(s)
    ||| s.len() == 38 && s[0] == '{' && s[37] == '}' && hyphenated_uuid(s.subrange(1, 37))
    ||| s.len() == 45 && (forall|i: int| 0 <= i < 9 ==> ascii_caseless_eq(#[trigger] s[i], "urn:uuid:"@[i]))
        && hyphenated_uuid(s.subrange(9, 45))
}

/// Calls `uuid::Uuid::parse_str` and reports whether it accepted the text. Its parser
/// (`try_parse` over the bytes of the text) accepts exactly the four shapes of `uuid_text`;
/// every character they admit is ASCII, so its byte lengths are character lengths.
#[verifier::external_body]
fn uuid_parses(text: &str) -> (parses: bool)
    ensures
        parses == uuid_text(text@),
{
    uuid::Uuid::parse_str(text).is_ok()
}

/// A scan is identified by a UUID.
pub fn check_scan_id(scan_id: &str) -> (result: Result<(), AppError>)
    ensures
        uuid_text(scan_id@) <==> result is Ok,
        result matches Err(e) ==> is_error(e, ErrorKind::Operation, "the scan ID is invalid"@),
{
    if uuid_parses(scan_id) {
        Ok(())
    } else {
        Err(AppError::Operation("the scan ID is invalid".to_owned()))
    }
}

/// Folders deeper than 32 levels below the root are refused.
pub fn check_scan_depth(depth: usize) -> (result: Result<(), AppError>)
    ensures
        depth <= MAX_SCAN_DEPTH <==> result is Ok,
        result matches Err(e) ==> is_error(e, ErrorKind::InvalidPath, "folder nesting exceeds the 32-level scan limit"@),
{
    if depth > MAX_SCAN_DEPTH {
        return Err(AppError::InvalidPath("folder nesting exceeds the 32-level scan limit".to_owned()));
    }
    Ok(())
}

/// No more than 100,000 model files are collected by one scan.
pub fn check_scan_file_limit(found: usize) -> (result: Result<(), AppError>)
    ensures
        found < MAX_SCAN_FILES <==> result is Ok,
        result matches Err(e) ==> is_error(e, ErrorKind::Operation, "the scan exceeds the 100000-file safety limit"@),
{
    if found >= MAX_SCAN_FILES {
        return Err(AppError::Operation("the scan exceeds the 100000-file safety limit".to_owned()));
    }
    Ok(())
}

pub fn new_scan_summary(scan_id: String) -> (summary: ModelScanSummary)
    ensures
        summary.scan_id == scan_id,
        summary.discovered == 0 && summary.processed == 0 && summary.imported == 0,
        summary.duplicates == 0 && summary.invalid == 0,
        !summary.cancelled,
        summary.issues@.len() == 0,
{
    ModelScanSummary { scan_id, discovered: 0, processed: 0, imported: 0, duplicates: 0, invalid: 0, cancelled: false, issues: Vec::new() }
}

/// The progress event for the current counts.
pub fn progress_for(summary: &ModelScanSummary, phase: ScanPhase, current_path: Option<String>) -> (progress: ModelScanProgress)
    ensures
        progress.scan_id@ == summary.scan_id@,
        progress.phase == phase,
        progress.current_path == current_path,
        progress.discovered == summary.discovered,
        progress.processed == summary.processed,
        progress.imported == summary.imported,
        progress.duplicates == summary.duplicates,
        progress.invalid == summary.invalid,
{
    ModelScanProgress {
        scan_id: summary.scan_id.clone(),
        phase,
        current_path,
        discovered: summary.discovered,
        processed: summary.processed,
        imported: summary.imported,
        duplicates: summary.duplicates,
        invalid: summary.invalid,
    }
}

/// The counts of a scan are consistent: new and already indexed files are both processed
/// files, invalid ones too, and at most 100 issues are listed.
pub open spec fn scan_counts_ok(s: ModelScanSummary) -> bool {
    s.imported + s.duplicates <= s.processed && s.invalid <= s.processed && s.issues@.len() <= MAX_REPORTED_ISSUES
}

/// How one processed file changes the counts (see `record_import_outcome`).
pub open spec fn import_recorded(before: ModelScanSummary, after: ModelScanSummary, path: String, outcome: Result<ImportModelOutcome, AppError>) -> bool {
    &&& scan_counts_ok(after)
    &&& after.processed == before.processed + 1
    &&& after.scan_id == before.scan_id
    &&& after.discovered == before.discovered
    &&& after.cancelled == before.cancelled
    &&& match outcome {
        Ok(o) => {
            &&& after.duplicates == before.duplicates + if o.already_indexed { 1int } else { 0int }
            &&& after.imported == before.imported + if !o.already_indexed && o.model.verification_state == VerificationState::Ready { 1int } else { 0int }
            &&& after.invalid == before.invalid + if o.model.verification_state == VerificationState::Invalid { 1int } else { 0int }
            &&& if o.model.verification_state == VerificationState::Invalid && before.issues@.len() < MAX_REPORTED_ISSUES {
                &&& after.issues@.len() == before.issues@.len() + 1
                &&& after.issues@.last().path == path
                &&& after.issues@.last().message@ == match o.model.verification_error {
                    Some(t) => t@,
                    None => "GGUF verification failed"@,
                }
            } else {
                after.issues@ == before.issues@
            }
        },
        Err(e) => {
            &&& after.duplicates == before.duplicates
            &&& after.imported == before.imported
            &&& after.invalid == before.invalid + 1
            &&& if before.issues@.len() < MAX_REPORTED_ISSUES {
                &&& after.issues@.len() == before.issues@.len() + 1
                &&& after.issues@.last().path == path
                &&& after.issues@.last().message@ == message_prefix(e.kind_spec()) + e.detail_spec()
            } else {
                after.issues@ == before.issues@
            }
        },
    }
}

/// Counts one processed file: an already indexed file is a duplicate, a new ready one is
/// imported, an invalid one (or one that failed to import) is invalid and listed as an issue
/// while fewer than 100 are listed.
pub fn record_import_outcome(summary: &mut ModelScanSummary, path: String, outcome: &Result<ImportModelOutcome, AppError>)
    requires
        scan_counts_ok(*old(summary)),
        old(summary).processed < usize::MAX,
    ensures
        import_recorded(*old(summary), *final(summary), path, *outcome),
{
    match outcome {
        Ok(o) => {
            if o.already_indexed {
                summary.duplicates = summary.duplicates + 1;
            } else if o.model.verification_state == VerificationState::Ready {
                summary.imported = summary.imported + 1;
            }
            if o.model.verification_state == VerificationState::Invalid {
                summary.invalid = summary.invalid + 1;
                if summary.issues.len() < MAX_REPORTED_ISSUES {
                    let message = match &o.model.verification_error {
                        Some(t) => t.clone(),
                        None => "GGUF verification failed".to_owned(),
                    };
                    summary.issues.push(ModelScanIssue { path, message });
                }
            }
        },
        Err(e) => {
            summary.invalid = summary.invalid + 1;
            if summary.issues.len() < MAX_REPORTED_ISSUES {
                summary.issues.push(ModelScanIssue { path, message: e.message() });
            }
        },
    }
    summary.processed = summary.processed + 1;
}


/// A progress event reports the phase, the path and the counts of a summary.
pub open spec fn reports(progress: ModelScanProgress, summary: ModelScanSummary, phase: ScanPhase, path: Option<String>) -> bool {
    &&& progress.scan_id@ == summary.scan_id@
    &&& progress.phase == phase
    &&& progress.current_path == path
    &&& progress.discovered == summary.discovered
    &&& progress.processed == summary.processed
    &&& progress.imported == summary.imported
    &&& progress.duplicates == summary.duplicates
    &&& progress.invalid == summary.invalid
}

/// A folder scan under way: GGUF files are found, then each found file is imported, and the
/// scan ends with a summary. At every step the counts are consistent, no more files are
/// processed than were found, and at most 100000 files are found.
pub struct ScanRun {
    summary: ModelScanSummary,
}

impl View for ScanRun {
    type V = ModelScanSummary;

    closed spec fn view(&self) -> ModelScanSummary {
        self.summary
    }
}

impl ScanRun {
    #[verifier::type_invariant]
    closed spec fn counts_ok(self) -> bool {
        &&& scan_counts_ok(self.summary)
        &&& self.summary.processed <= self.summary.discovered
        &&& self.summary.discovered <= MAX_SCAN_FILES
    }

    /// A scan that has found nothing yet.
    pub fn new(scan_id: String) -> (run: ScanRun)
        ensures
            run@.scan_id == scan_id,
            run@.discovered == 0 && run@.processed == 0 && run@.imported == 0,
            run@.duplicates == 0 && run@.invalid == 0,
            !run@.cancelled,
            run@.issues@.len() == 0,
    {
        ScanRun { summary: new_scan_summary(scan_id) }
    }

    pub fn discovered(&self) -> (count: usize)
        ensures
            count == self@.discovered,
    {
        self.summary.discovered
    }

    pub fn processed(&self) -> (count: usize)
        ensures
            count == self@.processed,
    {
        self.summary.processed
    }

    pub fn is_cancelled(&self) -> (cancelled: bool)
        ensures
            cancelled == self@.cancelled,
    {
        self.summary.cancelled
    }

    /// Counts one more GGUF file found at `path` and reports it; refused, with nothing
    /// counted, once 100000 files were found.
    pub fn discover(&mut self, path: String) -> (result: Result<ModelScanProgress, AppError>)
        ensures
            old(self)@.discovered < MAX_SCAN_FILES ==> (result matches Ok(progress)
                && final(self)@ == (ModelScanSummary { discovered: (old(self)@.discovered + 1) as usize, ..old(self)@ })
                && reports(progress, final(self)@, ScanPhase::Discovering, Some(path))),
            old(self)@.discovered >= MAX_SCAN_FILES ==> (result matches Err(e)
                && is_error(e, ErrorKind::Operation, "the scan exceeds the 100000-file safety limit"@)
                && final(self)@ == old(self)@),
    {
        proof { use_type_invariant(&*self); }
        match check_scan_file_limit(self.summary.discovered) {
            Err(e) => Err(e),
            Ok(()) => {
                self.summary.discovered = self.summary.discovered + 1;
                Ok(progress_for(&self.summary, ScanPhase::Discovering, Some(path)))
            },
        }
    }

    /// Marks the scan as stopped at the user's request.
    pub fn cancel(&mut self)
        ensures
            final(self)@ == (ModelScanSummary { cancelled: true, ..old(self)@ }),
    {
        proof { use_type_invariant(&*self); }
        self.summary.cancelled = true;
    }

    /// Counts the import of the next found file, at `path`, and reports it.
    pub fn record(&mut self, path: String, outcome: &Result<ImportModelOutcome, AppError>) -> (progress: ModelScanProgress)
        requires
            old(self)@.processed < old(self)@.discovered,
        ensures
            import_recorded(old(self)@, final(self)@, path, *outcome),
            reports(progress, final(self)@, ScanPhase::Importing, Some(path)),
    {
        proof { use_type_invariant(&*self); }
        let mut summary = new_scan_summary(String::new());
        std::mem::swap(&mut summary, &mut self.summary);
        record_import_outcome(&mut summary, path.clone(), outcome);
        let progress = progress_for(&summary, ScanPhase::Importing, Some(path));
        self.summary = summary;
        progress
    }

    /// Ends a scan that was cancelled or imported every file it found: its summary, and the
    /// Complete event that carries the summary's counts.
    pub fn finish(self) -> (ended: (ModelScanSummary, ModelScanProgress))
        requires
            self@.cancelled || self@.processed == self@.discovered,
        ensures
            ended.0 == self@,
            reports(ended.1, ended.0, ScanPhase::Complete, None),
            scan_counts_ok(ended.0),
            ended.0.processed <= ended.0.discovered,
            !ended.0.cancelled ==> ended.0.processed == ended.0.discovered,
    {
        proof { use_type_invariant(&self); }
        let progress = progress_for(&self.summary, ScanPhase::Complete, None);
        (self.summary, progress)
    }
}

// ---------------------------------------------------------------------------------------------
// Scans in progress
/// The scans in progress, each by its ID with whether it was asked to stop. An ID is held at
/// most once.
pub struct ScanRegistry {
    scans: Vec<(String, bool)>,
}

/// The IDs of a list of scans, in order.
pub open spec fn scan_ids(scans: Seq<(String, bool)>) -> Seq<Seq<char>> {
    scans.map_values(|e: (String, bool)| e.0@)
}

/// The scans as a map from ID to whether it was asked to stop.
pub open spec fn scan_map(scans: Seq<(String, bool)>) -> Map<Seq<char>, bool> {
    Map::new(
        |k: Seq<char>| scan_ids(scans).contains(k),
        |k: Seq<char>| scans[scan_ids(scans).index_of(k)].1,
    )
}


impl ScanRegistry {
    #[verifier::type_invariant]
    closed spec fn ids_unique(self) -> bool {
        scan_ids(self.scans@).no_duplicates()
    }

    /// The scans by ID, each with its stop flag.
    pub closed spec fn scans(self) -> Map<Seq<char>, bool> {
        scan_map(self.scans@)
    }

    pub fn new() -> (registry: Self)
        ensures
            registry.scans() == Map::<Seq<char>, bool>::empty(),
    {
        let registry = ScanRegistry { scans: Vec::new() };
        assert(registry.scans() =~= Map::<Seq<char>, bool>::empty());
        registry
    }

    /// Where the scan with this ID is held, if it is.
    fn find(&self, scan_id: &str) -> (found: Option<usize>)
        ensures
            found matches Some(i) ==> i < self.scans@.len() && scan_ids(self.scans@)[i as int] == scan_id@,
            found is None ==> !scan_ids(self.scans@).contains(scan_id@),
    {
        let mut i: usize = 0;
        while i < self.scans.len()
            invariant
                i <= self.scans@.len(),
                forall|j: int| 0 <= j < i ==> scan_ids(self.scans@)[j] != scan_id@,
            decreases self.scans@.len() - i,
        {
            if str_eq(self.scans[i].0.as_str(), scan_id) {
                return Some(i);
            }
            i += 1;
        }
        None
    }

    /// Registers a scan, unless one with the same ID is in progress.
    pub fn begin(&mut self, scan_id: &str) -> (result: Result<(), AppError>)
        ensures
            old(self).scans().dom().contains(scan_id@) ==> (result matches Err(e)
                && is_error(e, ErrorKind::Operation, "a scan with this ID is already running"@))
                && final(self).scans() == old(self).scans(),
            !old(self).scans().dom().contains(scan_id@) ==> result is Ok
                && final(self).scans() == old(self).scans().insert(scan_id@, false),
    {
        proof { use_type_invariant(&*self); }
        if self.find(scan_id).is_some() {
            return Err(AppError::Operation("a scan with this ID is already running".to_owned()));
        }
        let ghost before = self.scans@;
        let ghost ids = scan_ids(before);
        let entry = (scan_id.to_owned(), false);
        proof {
            let after = before.push(entry);
            assert(scan_ids(after) =~= ids.push(scan_id@));
            assert forall|i: int, j: int| 0 <= i < scan_ids(after).len() && 0 <= j < scan_ids(after).len() && i != j
                implies scan_ids(after)[i] != scan_ids(after)[j] by {
                if i < ids.len() && j < ids.len() {
                } else if i == ids.len() {
                    assert(ids[j] == scan_ids(after)[j]);
                } else {
                    assert(ids[i] == scan_ids(after)[i]);
                }
            }
        }
        let mut scans: Vec<(String, bool)> = Vec::new();
        std::mem::swap(&mut scans, &mut self.scans);
        scans.push(entry);
        proof {
            let after = scans@;
            assert(after == before.push(entry));
            assert(scan_ids(after) =~= ids.push(scan_id@));
            lemma_index_of_unique(scan_ids(after), ids.len() as int);
            assert forall|k: Seq<char>| #[trigger] scan_ids(before).contains(k) implies
                scan_map(after)[k] == scan_map(before)[k] && scan_ids(after).contains(k) by {
                let j = ids.index_of(k);
                lemma_index_of_unique(ids, j);
                assert(scan_ids(after)[j] == k);
                lemma_index_of_unique(scan_ids(after), j);
            }
            assert forall|k: Seq<char>| #[trigger] scan_ids(after).contains(k) implies
                k == scan_id@ || scan_ids(before).contains(k) by {
                let j = choose|j: int| 0 <= j < scan_ids(after).len() && scan_ids(after)[j] == k;
                if j < ids.len() {
                    assert(ids[j] == k);
                }
            }
            assert(scan_map(after) =~= scan_map(before).insert(scan_id@, false));
        }
        self.scans = scans;
        Ok(())
    }

    /// Asks the scan with this ID to stop; `false` when no such scan is in progress.
    pub fn cancel(&mut self, scan_id: &str) -> (found: bool)
        ensures
            found == old(self).scans().dom().contains(scan_id@),
            found ==> final(self).scans() == old(self).scans().insert(scan_id@, true),
            !found ==> final(self).scans() == old(self).scans(),
    {
        proof { use_type_invariant(&*self); }
        let i = match self.find(scan_id) {
            None => return false,
            Some(i) => i,
        };
        let ghost before = self.scans@;
        let ghost ids = scan_ids(before);
        let mut scans: Vec<(String, bool)> = Vec::new();
        std::mem::swap(&mut scans, &mut self.scans);
        let (id, _) = scans.remove(i);
        scans.insert(i, (id, true));
        proof {
            let after = scans@;
            assert(after =~= before.update(i as int, (before[i as int].0, true)));
            assert(scan_ids(after) =~= ids);
            lemma_index_of_unique(ids, i as int);
            assert forall|k: Seq<char>| #[trigger] scan_ids(before).contains(k) && k != scan_id@ implies
                scan_map(after)[k] == scan_map(before)[k] by {
                let j = ids.index_of(k);
                lemma_index_of_unique(ids, j);
            }
            assert(scan_map(after) =~= scan_map(before).insert(scan_id@, true));
        }
        self.scans = scans;
        true
    }

    /// Whether the scan with this ID was asked to stop.
    pub fn is_cancelled(&self, scan_id: &str) -> (cancelled: bool)
        ensures
            cancelled == (self.scans().dom().contains(scan_id@) && self.scans()[scan_id@]),
    {
        proof { use_type_invariant(self); }
        match self.find(scan_id) {
            None => false,
            Some(i) => {
                proof { lemma_index_of_unique(scan_ids(self.scans@), i as int); }
                self.scans[i].1
            },
        }
    }

    /// Forgets the scan with this ID once it has ended.
    pub fn finish(&mut self, scan_id: &str)
        ensures
            final(self).scans() == old(self).scans().remove(scan_id@),
    {
        proof { use_type_invariant(&*self); }
        let i = match self.find(scan_id) {
            None => {
                assert(scan_map(self.scans@) =~= scan_map(self.scans@).remove(scan_id@));
                return;
            },
            Some(i) => i,
        };
        let ghost before = self.scans@;
        let ghost ids = scan_ids(before);
        proof {
            assert(scan_ids(before.remove(i as int)) =~= ids.remove(i as int));
        }
        let mut scans: Vec<(String, bool)> = Vec::new();
        std::mem::swap(&mut scans, &mut self.scans);
        scans.remove(i);
        proof {
            let after = scans@;
            let rest = scan_ids(after);
            assert(rest =~= ids.remove(i as int));
            assert forall|j: int| 0 <= j < rest.len() implies #[trigger] rest[j] == ids[if j < i { j } else { j + 1 }] by {}
            lemma_index_of_unique(ids, i as int);
            assert forall|k: Seq<char>| #[trigger] rest.contains(k) implies
                k != scan_id@ && ids.contains(k) && scan_map(after)[k] == scan_map(before)[k] by {
                let j = rest.index_of(k);
                lemma_index_of_unique(rest, j);
                let o = if j < i { j } else { j + 1 };
                assert(ids[o] == k);
                lemma_index_of_unique(ids, o);
            }
            assert forall|k: Seq<char>| #[trigger] ids.contains(k) && k != scan_id@ implies rest.contains(k) by {
                let o = ids.index_of(k);
                lemma_index_of_unique(ids, o);
                let j = if o < i { o } else { o - 1 };
                assert(rest[j] == k);
            }
            assert(scan_map(after) =~= scan_map(before).remove(scan_id@));
        }
        self.scans = scans;
    }
}

} // verus!
