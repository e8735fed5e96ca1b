//! The llama.cpp adapter's rules: version identity, server arguments, request bounds, the
//! server-sent-event decoder and the token stream that a generation emits.
use vstd::prelude::*;
use crate::errors::{is_error, AppError, ErrorKind};
use crate::lifecycle::{lifecycle_detail, lifecycle_detail_spec, EngineLifecycle, ProcessSummary};
use crate::models::catalog::{
    has_gguf_extension, has_gguf_extension_spec, is_absolute_path, is_absolute_windows, VerificationState,
};
use crate::text::{
    all_whitespace, is_blank, lossy_decode, lossy_text, push_bytes, push_char, chars_eq,
    chars_start_with, starts_with, utf8_string,
    ascii_alnum, ascii_lower_chars, ascii_lower_spec, cat, chars_of, contains_chars, contains_seq,
    decimal_chars, decimal_string, is_ascii_alnum, matches_at, parse_u32, parse_u32_spec, str_eq,
    string_of, texts, trim, trim_spec,
};
use vstd::string::StringExecFns;
use vstd::utf8::{decode_utf8, encode_utf8, valid_utf8};
use vstd::string::StrSliceExecFns;

verus! {

pub const MAX_CHAT_REQUEST_BYTES: usize = 1048576;
pub const MAX_HTTP_BODY_BYTES: usize = 1048576;
pub const MAX_STREAM_LINE_BYTES: usize = 1048576;
pub const MAX_GENERATED_TEXT_BYTES: usize = 4194304;
pub const MAX_PORT_ATTEMPTS: usize = 3;

/// What an inference engine can run.
#[derive(Debug, Clone)]
pub struct EngineCapabilities {
    pub workloads: Vec<String>,
    pub devices: Vec<String>,
    pub formats: Vec<String>,
}

/// Where a verified engine executable is and what it must report itself as; its environment
/// is a map, its keys strictly ascending (`keys_ascending`).
#[derive(Debug, Clone)]
pub struct EngineConfig {
    pub executable: String,
    pub expected_version: String,
    pub environment: Vec<(String, String)>,
}

/// A request to load a model in an engine, with its named options as a map: keys strictly
/// ascending (`keys_ascending`).
#[derive(Debug, Clone)]
pub struct EngineStartRequest {
    pub model_path: String,
    pub device_id: String,
    pub options: Vec<(String, String)>,
}

/// The pairs of a map in its order: each key strictly before the next.
pub open spec fn keys_ascending(pairs: Seq<(String, String)>) -> bool {
    forall|i: int, j: int| 0 <= i < j < pairs.len() ==> crate::packages::text_lt(#[trigger] pairs[i].0@, #[trigger] pairs[j].0@)
}

/// Whether a list of pairs is in map order.
pub fn keys_in_order(pairs: &[(String, String)]) -> (ordered: bool)
    ensures
        ordered == keys_ascending(pairs@),
{
    let mut k: usize = 1;
    if pairs.len() == 0 {
        return true;
    }
    while k < pairs.len()
        invariant
            1 <= k <= pairs@.len(),
            forall|i: int, j: int| 0 <= i < j < k ==> crate::packages::text_lt(#[trigger] pairs@[i].0@, #[trigger] pairs@[j].0@),
        decreases pairs@.len() - k,
    {
        let before = chars_of(pairs[k - 1].0.as_str());
        let after = chars_of(pairs[k].0.as_str());
        if !crate::packages::text_less(&before, &after) {
            assert(!crate::packages::text_lt(pairs@[k - 1].0@, pairs@[k as int].0@));
            return false;
        }
        proof {
            assert forall|i: int, j: int| 0 <= i < j < k + 1 implies crate::packages::text_lt(#[trigger] pairs@[i].0@, #[trigger] pairs@[j].0@) by {
                if j == k && i < k - 1 {
                    crate::packages::lemma_text_lt_transitive(pairs@[i].0@, pairs@[k - 1].0@, pairs@[k as int].0@);
                }
            }
        }
        k += 1;
    }
    true
}

/// A map in key order with `entry` set: the entry takes the place its key orders it at,
/// and replaces the pair with the same key if there is one.
pub open spec fn with_entry(pairs: Seq<(String, String)>, entry: (String, String)) -> Seq<(String, String)>
    decreases pairs.len(),
{
    if pairs.len() == 0 {
        seq![entry]
    } else if crate::packages::text_lt(pairs[0].0@, entry.0@) {
        seq![pairs[0]] + with_entry(pairs.drop_first(), entry)
    } else if pairs[0].0@ == entry.0@ {
        seq![entry] + pairs.drop_first()
    } else {
        seq![entry] + pairs
    }
}

/// Past a prefix of keys that order before the entry's, `with_entry` keeps that prefix.
proof fn lemma_with_entry_skip(pairs: Seq<(String, String)>, entry: (String, String), i: int)
    requires
        0 <= i <= pairs.len(),
        forall|k: int| 0 <= k < i ==> crate::packages::text_lt(#[trigger] pairs[k].0@, entry.0@),
    ensures
        with_entry(pairs, entry) == pairs.subrange(0, i) + with_entry(pairs.subrange(i, pairs.len() as int), entry),
    decreases i,
{
    if i == 0 {
        assert(pairs.subrange(0, 0) + with_entry(pairs.subrange(0, pairs.len() as int), entry) =~= with_entry(pairs, entry)) by {
            assert(pairs.subrange(0, pairs.len() as int) =~= pairs);
        }
    } else {
        let rest = pairs.drop_first();
        assert forall|k: int| 0 <= k < i - 1 implies crate::packages::text_lt(#[trigger] rest[k].0@, entry.0@) by {
            assert(rest[k] == pairs[k + 1]);
        }
        lemma_with_entry_skip(rest, entry, i - 1);
        assert(rest.subrange(i - 1, rest.len() as int) =~= pairs.subrange(i, pairs.len() as int));
        assert(seq![pairs[0]] + rest.subrange(0, i - 1) =~= pairs.subrange(0, i));
    }
}

/// Sets `key` to `value` in a map kept as pairs in key order, as `with_entry` says; the
/// pairs stay in key order.
pub fn insert_entry(pairs: &mut Vec<(String, String)>, key: String, value: String)
    requires
        keys_ascending(old(pairs)@),
    ensures
        final(pairs)@ == with_entry(old(pairs)@, (key, value)),
        keys_ascending(final(pairs)@),
{
    let ghost before = pairs@;
    let key_chars = chars_of(key.as_str());
    let mut i: usize = 0;
    loop
        invariant
            pairs@ == before,
            keys_ascending(before),
            key_chars@ == key@,
            i <= before.len(),
            forall|k: int| 0 <= k < i ==> crate::packages::text_lt(#[trigger] before[k].0@, key@),
        ensures
            pairs@ == before,
            i <= before.len(),
            forall|k: int| 0 <= k < i ==> crate::packages::text_lt(#[trigger] before[k].0@, key@),
            i < before.len() ==> !crate::packages::text_lt(before[i as int].0@, key@),
        decreases before.len() - i,
    {
        if i >= pairs.len() {
            break;
        }
        let here = chars_of(pairs[i].0.as_str());
        if !crate::packages::text_less(&here, &key_chars) {
            break;
        }
        i += 1;
    }
    let ghost entry = (key, value);
    proof {
        lemma_with_entry_skip(before, entry, i as int);
    }
    let same = i < pairs.len() && str_eq(pairs[i].0.as_str(), key.as_str());
    let ghost tail = before.subrange(i as int, before.len() as int);
    if same {
        pairs.set(i, (key, value));
        proof {
            assert(tail[0] == before[i as int]);
            assert(tail.drop_first() =~= before.subrange(i + 1, before.len() as int));
            assert(pairs@ =~= before.subrange(0, i as int) + with_entry(tail, entry));
            assert forall|a: int, b: int| 0 <= a < b < pairs@.len() implies crate::packages::text_lt(
                #[trigger] pairs@[a].0@,
                #[trigger] pairs@[b].0@,
            ) by {
                assert(before[a].0@ == pairs@[a].0@ && before[b].0@ == pairs@[b].0@);
            }
        }
    } else {
        pairs.insert(i, (key, value));
        proof {
            if i < before.len() {
                assert(tail[0] == before[i as int]);
                crate::packages::lemma_text_lt_total(before[i as int].0@, entry.0@);
            }
            assert(pairs@ =~= before.subrange(0, i as int) + with_entry(tail, entry));
            lemma_insert_keeps_order(before, entry, i as int);
        }
    }
}

/// Putting an entry between the keys that order before it and those that order after it
/// keeps a map in key order.
proof fn lemma_insert_keeps_order(before: Seq<(String, String)>, entry: (String, String), i: int)
    requires
        keys_ascending(before),
        0 <= i <= before.len(),
        forall|k: int| 0 <= k < i ==> crate::packages::text_lt(#[trigger] before[k].0@, entry.0@),
        i < before.len() ==> crate::packages::text_lt(entry.0@, before[i].0@),
    ensures
        keys_ascending(before.insert(i, entry)),
{
    let after = before.insert(i, entry);
    assert forall|a: int, b: int| 0 <= a < b < after.len() implies crate::packages::text_lt(
        #[trigger] after[a].0@,
        #[trigger] after[b].0@,
    ) by {
        if b < i {
        } else if b == i {
        } else if a < i {
            assert(after[b] == before[b - 1]);
            if b - 1 > i {
                crate::packages::lemma_text_lt_transitive(entry.0@, before[i].0@, before[b - 1].0@);
            }
            crate::packages::lemma_text_lt_transitive(before[a].0@, entry.0@, before[b - 1].0@);
        } else if a == i {
            assert(after[b] == before[b - 1]);
            if b - 1 > i {
                crate::packages::lemma_text_lt_transitive(entry.0@, before[i].0@, before[b - 1].0@);
            }
        } else {
            assert(after[a] == before[a - 1]);
            assert(after[b] == before[b - 1]);
        }
    }
}

/// A started engine session.
#[derive(Debug, Clone)]
pub struct EngineHandle {
    pub session_id: String,
    pub process_id: String,
    pub endpoint: Option<String>,
    pub backend_version: String,
}

/// Whether a loaded engine answers and is who it claims to be.
#[derive(Debug, Clone)]
pub struct EngineHealth {
    pub ready: bool,
    pub detail: String,
}

/// One chat generation request as the engine receives it.
#[derive(Debug, Clone)]
pub struct ChatRequest {
    pub job_id: String,
    pub messages_json: String,
    pub max_output_tokens: u32,
}

/// One piece of generated text, numbered from 1 within its job.
#[derive(Debug, Clone)]
pub struct TokenChunk {
    pub job_id: String,
    pub sequence: u64,
    pub text: String,
}

/// Token counts and throughput that the engine reported; the throughput is kept as the bits
/// of the 64-bit floating-point number the server sent.
#[derive(Debug, Clone, Copy, PartialEq, Eq, Structural)]
pub struct Usage {
    pub prompt_tokens: u64,
    pub output_tokens: u64,
    pub tokens_per_second_bits: u64,
}

/// The identifier of the llama.cpp adapter.
pub fn engine_id() -> (id: &'static str)
    ensures
        id@ == "llama.cpp"@,
{
    "llama.cpp"
}

/// The llama.cpp adapter runs chat on the CPU from GGUF files.
pub fn llama_capabilities() -> (caps: EngineCapabilities)
    ensures
        texts(caps.workloads@) == seq!["chat"@],
        texts(caps.devices@) == seq!["cpu"@],
        texts(caps.formats@) == seq!["gguf"@],
{
    let caps = EngineCapabilities {
        workloads: vec!["chat".to_owned()],
        devices: vec!["cpu".to_owned()],
        formats: vec!["gguf".to_owned()],
    };
    assert(texts(caps.workloads@) =~= seq!["chat"@]);
    assert(texts(caps.devices@) =~= seq!["cpu"@]);
    assert(texts(caps.formats@) =~= seq!["gguf"@]);
    caps
}

// ---------------------------------------------------------------------------------------------
// Version identity
/// `part` is one of the pieces that splitting `s` at every character other than an ASCII
/// letter or digit yields, and it starts at position `i`.
pub open spec fn part_at(s: Seq<char>, part: Seq<char>, i: int) -> bool {
    &&& 0 <= i
    &&& i + part.len() <= s.len()
    &&& (i == 0 || !is_ascii_alnum(s[i - 1]))
    &&& s.subrange(i, i + part.len()) == part
    &&& (forall|k: int| 0 <= k < part.len() ==> is_ascii_alnum(#[trigger] part[k]))
    &&& (i + part.len() == s.len() || !is_ascii_alnum(s[i + part.len()]))
}

/// `part` is one of the pieces of `s` split at non-alphanumeric characters.
pub open spec fn is_split_part(s: Seq<char>, part: Seq<char>) -> bool {
    exists|i: int| #[trigger] part_at(s, part, i)
}

/// The expected version, trimmed and lowered.
pub open spec fn expected_version_key(expected: Seq<char>) -> Seq<char> {
    ascii_lower_spec(trim_spec(expected))
}

/// The expected version without a leading `b`.
pub open spec fn build_number(expected: Seq<char>) -> Seq<char> {
    let e = expected_version_key(expected);
    if e.len() > 0 && e[0] == 'b' {
        e.drop_first()
    } else {
        e
    }
}

/// The output names the expected llama.cpp build: it contains the expected version (ignoring
/// ASCII case and surrounding space), or one of its alphanumeric pieces is the build number.
pub open spec fn version_matches_spec(output: Seq<char>, expected: Seq<char>) -> bool {
    contains_seq(ascii_lower_spec(output), expected_version_key(expected)) || is_split_part(
        output,
        build_number(expected),
    )
}

fn all_alnum(v: &Vec<char>) -> (result: bool)
    ensures
        result == (forall|k: int| 0 <= k < v@.len() ==> is_ascii_alnum(#[trigger] v@[k])),
{
    let mut i: usize = 0;
    while i < v.len()
        invariant
            i <= v@.len(),
            forall|k: int| 0 <= k < i ==> is_ascii_alnum(#[trigger] v@[k]),
        decreases v@.len() - i,
    {
        if !ascii_alnum(v[i]) {
            return false;
        }
        i += 1;
    }
    true
}

fn has_split_part(s: &Vec<char>, part: &Vec<char>) -> (result: bool)
    ensures
        result == is_split_part(s@, part@),
{
    if part.len() > s.len() || !all_alnum(part) {
        return false;
    }
    let n = s.len();
    let m = part.len();
    let last = n - m;
    let mut i: usize = 0;
    loop
        invariant
            n == s@.len(),
            m == part@.len(),
            last + m == n,
            i <= last,
            forall|k: int| 0 <= k < part@.len() ==> is_ascii_alnum(#[trigger] part@[k]),
            forall|k: int| 0 <= k < i ==> !#[trigger] part_at(s@, part@, k),
        ensures
            forall|k: int| 0 <= k <= last ==> !#[trigger] part_at(s@, part@, k),
        decreases last - i,
    {
        let start_ok = i == 0 || !ascii_alnum(s[i - 1]);
        let end_ok = i + m == n || !ascii_alnum(s[i + m]);
        if start_ok && end_ok && matches_at(s, part, i) {
            assert(part_at(s@, part@, i as int));
            return true;
        }
        if i == last {
            break;
        }
        i += 1;
    }
    assert forall|k: int| !#[trigger] part_at(s@, part@, k) by {
        if 0 <= k <= last {
        }
    }
    false
}

/// Whether version output names the pinned build, as `llama-server --version` or the
/// `build_info` property reports it.
pub fn version_matches(output: &str, expected_version: &str) -> (matches: bool)
    ensures
        matches == version_matches_spec(output@, expected_version@),
{
    let expected = ascii_lower_chars(trim(expected_version));
    let lowered = ascii_lower_chars(output);
    if contains_chars(&lowered, &expected) {
        return true;
    }
    let build = if expected.len() > 0 && expected[0] == 'b' {
        let rest = string_of(&expected, 1, expected.len());
        chars_of(rest.as_str())
    } else {
        expected
    };
    proof {
        let e = expected_version_key(expected_version@);
        if e.len() > 0 && e[0] == 'b' {
            assert(e.drop_first() =~= e.subrange(1, e.len() as int));
        }
    }
    let out = chars_of(output);
    has_split_part(&out, &build)
}

// ---------------------------------------------------------------------------------------------
// Server arguments
/// A numeric option parsed and checked against its inclusive bounds; the error is the detail
/// of an engine failure.
pub open spec fn bounded_number_spec(value: Seq<char>, label: Seq<char>, minimum: u32, maximum: u32) -> Result<u32, Seq<char>> {
    match parse_u32_spec(value) {
        None => Err("the "@ + label + " is invalid"@),
        Some(v) => if minimum <= v <= maximum {
            Ok(v)
        } else {
            Err(
                "the "@ + label + " must be between "@ + decimal_chars(minimum as nat) + " and "@
                    + decimal_chars(maximum as nat),
            )
        },
    }
}

/// Parses a numeric option and checks it against inclusive bounds.
pub fn bounded_number(value: &str, label: &str, minimum: u32, maximum: u32) -> (result: Result<u32, AppError>)
    ensures
        match (result, bounded_number_spec(value@, label@, minimum, maximum)) {
            (Ok(v), Ok(w)) => v == w,
            (Err(e), Err(d)) => is_error(e, ErrorKind::Engine, d),
            _ => false,
        },
{
    match parse_u32(value) {
        None => {
            let mut text = cat("the ", label);
            text.append(" is invalid");
            Err(AppError::Engine(text))
        },
        Some(v) => {
            if minimum <= v && v <= maximum {
                Ok(v)
            } else {
                let mut text = cat("the ", label);
                text.append(" must be between ");
                text.append(decimal_string(minimum as u64).as_str());
                text.append(" and ");
                text.append(decimal_string(maximum as u64).as_str());
                Err(AppError::Engine(text))
            }
        },
    }
}

/// The fixed arguments: loopback host, the reserved port, the model, no GPU layers, one slot
/// and no web interface.
pub open spec fn base_server_args(model_path: Seq<char>, port: u16) -> Seq<Seq<char>> {
    seq![
        "--host"@,
        "127.0.0.1"@,
        "--port"@,
        decimal_chars(port as nat),
        "--model"@,
        model_path,
        "--gpu-layers"@,
        "0"@,
        "--parallel"@,
        "1"@,
        "--no-webui"@,
    ]
}

/// The arguments one named option adds, or why it is refused.
pub open spec fn option_args_spec(name: Seq<char>, value: Seq<char>) -> Result<Seq<Seq<char>>, Seq<char>> {
    if name == "context_size"@ {
        match bounded_number_spec(value, "context size"@, 256, 1048576) {
            Ok(v) => Ok(seq!["--ctx-size"@, decimal_chars(v as nat)]),
            Err(d) => Err(d),
        }
    } else if name == "threads"@ {
        match bounded_number_spec(value, "thread count"@, 1, 512) {
            Ok(v) => Ok(seq!["--threads"@, decimal_chars(v as nat)]),
            Err(d) => Err(d),
        }
    } else {
        Err("unsupported llama.cpp option: "@ + name)
    }
}

/// The full argument list for the given options in order, or the first refusal.
pub open spec fn server_args_spec(model_path: Seq<char>, port: u16, options: Seq<(String, String)>) -> Result<Seq<Seq<char>>, Seq<char>>
    decreases options.len(),
{
    if options.len() == 0 {
        Ok(base_server_args(model_path, port))
    } else {
        match server_args_spec(model_path, port, options.drop_last()) {
            Err(d) => Err(d),
            Ok(args) => match option_args_spec(options.last().0@, options.last().1@) {
                Ok(extra) => Ok(args + extra),
                Err(d) => Err(d),
            },
        }
    }
}

fn push_str(args: &mut Vec<String>, s: &str)
    ensures
        texts(final(args)@) == texts(old(args)@).push(s@),
{
    args.push(s.to_owned());
    assert(texts(args@) =~= texts(old(args)@).push(s@));
}

/// The llama-server command line for a model on a reserved loopback port. Only the
/// `context_size` and `threads` options are accepted, each within its bounds.
pub fn build_server_args(model_path: &str, port: u16, options: &[(String, String)]) -> (result: Result<Vec<String>, AppError>)
    requires
        keys_ascending(options@),
    ensures
        match (result, server_args_spec(model_path@, port, options@)) {
            (Ok(args), Ok(expected)) => texts(args@) == expected,
            (Err(e), Err(d)) => is_error(e, ErrorKind::Engine, d),
            _ => false,
        },
{
    let mut args: Vec<String> = Vec::new();
    push_str(&mut args, "--host");
    push_str(&mut args, "127.0.0.1");
    push_str(&mut args, "--port");
    let port_text = decimal_string(port as u64);
    push_str(&mut args, port_text.as_str());
    push_str(&mut args, "--model");
    push_str(&mut args, model_path);
    push_str(&mut args, "--gpu-layers");
    push_str(&mut args, "0");
    push_str(&mut args, "--parallel");
    push_str(&mut args, "1");
    push_str(&mut args, "--no-webui");
    assert(texts(args@) =~= base_server_args(model_path@, port));
    let mut i: usize = 0;
    while i < options.len()
        invariant
            i <= options@.len(),
            server_args_spec(model_path@, port, options@.subrange(0, i as int)) == Ok::<Seq<Seq<char>>, Seq<char>>(texts(args@)),
        decreases options@.len() - i,
    {
        let ghost before = texts(args@);
        let (name, value) = (&options[i].0, &options[i].1);
        proof {
            assert(options@.subrange(0, i + 1).drop_last() =~= options@.subrange(0, i as int));
            assert(options@.subrange(0, i + 1).last() == options@[i as int]);
        }
        if str_eq(name.as_str(), "context_size") {
            match bounded_number(value.as_str(), "context size", 256, 1048576) {
                Ok(v) => {
                    push_str(&mut args, "--ctx-size");
                    let t = decimal_string(v as u64);
                    push_str(&mut args, t.as_str());
                    assert(texts(args@) =~= before + seq!["--ctx-size"@, decimal_chars(v as nat)]);
                },
                Err(e) => {
                    proof {
                        lemma_server_args_error_sticks(model_path@, port, options@, i as int + 1);
                    }
                    return Err(e);
                },
            }
        } else if str_eq(name.as_str(), "threads") {
            match bounded_number(value.as_str(), "thread count", 1, 512) {
                Ok(v) => {
                    push_str(&mut args, "--threads");
                    let t = decimal_string(v as u64);
                    push_str(&mut args, t.as_str());
                    assert(texts(args@) =~= before + seq!["--threads"@, decimal_chars(v as nat)]);
                },
                Err(e) => {
                    proof {
                        lemma_server_args_error_sticks(model_path@, port, options@, i as int + 1);
                    }
                    return Err(e);
                },
            }
        } else {
            proof {
                lemma_server_args_error_sticks(model_path@, port, options@, i as int + 1);
            }
            return Err(AppError::Engine(cat("unsupported llama.cpp option: ", name.as_str())));
        }
        i += 1;
    }
    assert(options@.subrange(0, options@.len() as int) =~= options@);
    Ok(args)
}

/// Once an option is refused, every longer list of options is refused with the same detail.
proof fn lemma_server_args_error_sticks(model_path: Seq<char>, port: u16, options: Seq<(String, String)>, k: int)
    requires
        0 <= k <= options.len(),
        server_args_spec(model_path, port, options.subrange(0, k)) is Err,
    ensures
        server_args_spec(model_path, port, options) == server_args_spec(model_path, port, options.subrange(0, k)),
    decreases options.len() - k,
{
    if k == options.len() {
        assert(options.subrange(0, k) =~= options);
    } else {
        assert(options.subrange(0, k + 1).drop_last() =~= options.subrange(0, k));
        lemma_server_args_error_sticks(model_path, port, options, k + 1);
    }
}

// ---------------------------------------------------------------------------------------------
// Server-sent events
/// The characters `data:`.
pub open spec fn data_field() -> Seq<char> {
    seq!['d', 'a', 't', 'a', ':']
}

/// A line without one trailing carriage return.
pub open spec fn strip_cr(line: Seq<u8>) -> Seq<u8> {
    if line.len() > 0 && line.last() == 13 {
        line.drop_last()
    } else {
        line
    }
}

/// The payload of a `data:` field line, without one leading space; `None` for other lines.
pub open spec fn sse_field_data(text: Seq<char>) -> Option<Seq<char>> {
    if starts_with(text, data_field()) {
        let d = text.skip(5);
        Some(if d.len() > 0 && d[0] == ' ' { d.skip(1) } else { d })
    } else {
        None
    }
}

/// What one line yields: `None` when it is not UTF-8, else its data payload if it has one.
pub open spec fn line_data(line: Seq<u8>) -> Option<Option<Seq<char>>> {
    if valid_utf8(line) {
        Some(sse_field_data(decode_utf8(line)))
    } else {
        None
    }
}

/// The decoder's state after one more byte: payloads found so far and the unfinished line,
/// or `None` once a finished line was not UTF-8.
pub open spec fn sse_step(state: Option<(Seq<Seq<char>>, Seq<u8>)>, b: u8) -> Option<(Seq<Seq<char>>, Seq<u8>)> {
    match state {
        None => None,
        Some((data, current)) => if b == 10 {
            match line_data(strip_cr(current)) {
                None => None,
                Some(None) => Some((data, Seq::empty())),
                Some(Some(d)) => Some((data.push(d), Seq::empty())),
            }
        } else {
            Some((data, current.push(b)))
        },
    }
}

/// The decoder's state after the bytes, one at a time.
pub open spec fn sse_run(state: Option<(Seq<Seq<char>>, Seq<u8>)>, bytes: Seq<u8>) -> Option<(Seq<Seq<char>>, Seq<u8>)>
    decreases bytes.len(),
{
    if bytes.len() == 0 {
        state
    } else {
        sse_step(sse_run(state, bytes.drop_last()), bytes.last())
    }
}

/// Splits a byte stream into lines and keeps the payloads of its `data:` lines; the bytes of
/// an unfinished line wait for the next chunk.
pub struct SseLineDecoder {
    buffer: Vec<u8>,
}

impl View for SseLineDecoder {
    type V = Seq<u8>;

    closed spec fn view(&self) -> Seq<u8> {
        self.buffer@
    }
}

fn non_utf8_event() -> (e: AppError)
    ensures
        is_error(e, ErrorKind::Engine, "llama.cpp returned a non-UTF-8 stream event"@),
{
    AppError::Engine("llama.cpp returned a non-UTF-8 stream event".to_owned())
}

/// The payload of one line, or `Err` when the line is not UTF-8.
fn parse_sse_data_line(line: Vec<u8>) -> (result: Result<Option<String>, ()>)
    ensures
        match (result, line_data(line@)) {
            (Ok(None), Some(None)) => true,
            (Ok(Some(t)), Some(Some(d))) => t@ == d,
            (Err(_), None) => true,
            _ => false,
        },
{
    let text = match utf8_string(line) {
        Some(t) => t,
        None => return Err(()),
    };
    let chars = chars_of(text.as_str());
    let field = vec!['d', 'a', 't', 'a', ':'];
    assert(field@ =~= data_field());
    if !chars_start_with(&chars, &field) {
        return Ok(None);
    }
    let n = chars.len();
    let start: usize = if n > 5 && chars[5] == ' ' { 6 } else { 5 };
    proof {
        let d = chars@.skip(5);
        if d.len() > 0 && d[0] == ' ' {
            assert(d.skip(1) =~= chars@.subrange(6, n as int));
        } else {
            assert(d =~= chars@.subrange(5, n as int));
        }
    }
    Ok(Some(string_of(&chars, start, n)))
}

proof fn lemma_sse_run_append(state: Option<(Seq<Seq<char>>, Seq<u8>)>, bytes: Seq<u8>, i: int)
    requires
        0 <= i < bytes.len(),
    ensures
        sse_run(state, bytes.subrange(0, i + 1)) == sse_step(sse_run(state, bytes.subrange(0, i)), bytes[i]),
{
    assert(bytes.subrange(0, i + 1).drop_last() =~= bytes.subrange(0, i));
}

impl SseLineDecoder {
    pub fn new() -> (decoder: SseLineDecoder)
        ensures
            decoder@ == Seq::<u8>::empty(),
    {
        SseLineDecoder { buffer: Vec::new() }
    }

    /// Feeds a chunk of the response. The unfinished line together with the chunk may hold at
    /// most 1 MiB; every line it finishes must be UTF-8. Returns the payloads of the finished
    /// `data:` lines in order and keeps the new unfinished line. On failure nothing changes.
    pub fn push(&mut self, bytes: &[u8]) -> (result: Result<Vec<String>, AppError>)
        ensures
            old(self)@.len() + bytes@.len() > MAX_STREAM_LINE_BYTES ==> {
                &&& result matches Err(e)
                &&& is_error(e, ErrorKind::Engine, "llama.cpp returned an oversized stream event"@)
                &&& final(self)@ == old(self)@
            },
            old(self)@.len() + bytes@.len() <= MAX_STREAM_LINE_BYTES ==> match sse_run(Some((Seq::empty(), old(self)@)), bytes@) {
                Some((data, rest)) => (result matches Ok(v) && texts(v@) == data && final(self)@ == rest),
                None => (result matches Err(e) && is_error(e, ErrorKind::Engine, "llama.cpp returned a non-UTF-8 stream event"@) && final(self)@ == old(self)@),
            },
    {
        if self.buffer.len() > MAX_STREAM_LINE_BYTES || bytes.len() > MAX_STREAM_LINE_BYTES - self.buffer.len() {
            return Err(AppError::Engine("llama.cpp returned an oversized stream event".to_owned()));
        }
        let ghost start = Some((Seq::<Seq<char>>::empty(), self.buffer@));
        let mut current: Vec<u8> = self.buffer.clone();
        let mut data: Vec<String> = Vec::new();
        let mut i: usize = 0;
        assert(bytes@.subrange(0, 0) =~= Seq::<u8>::empty());
        assert(texts(data@) =~= Seq::<Seq<char>>::empty());
        while i < bytes.len()
            invariant
                i <= bytes@.len(),
                old(self)@.len() + bytes@.len() <= MAX_STREAM_LINE_BYTES,
                self@ == old(self)@,
                start == Some((Seq::<Seq<char>>::empty(), old(self)@)),
                sse_run(start, bytes@.subrange(0, i as int)) == Some((texts(data@), current@)),
            decreases bytes@.len() - i,
        {
            proof {
                lemma_sse_run_append(start, bytes@, i as int);
            }
            let b = bytes[i];
            if b == 10 {
                let mut line = current;
                current = Vec::new();
                let ghost full = line@;
                if line.len() > 0 && line[line.len() - 1] == 13 {
                    line.pop();
                }
                assert(line@ =~= strip_cr(full));
                match parse_sse_data_line(line) {
                    Err(()) => {
                        proof {
                            lemma_sse_run_failed(start, bytes@, i as int + 1);
                        }
                        return Err(non_utf8_event());
                    },
                    Ok(None) => {},
                    Ok(Some(t)) => {
                        let ghost before = texts(data@);
                        data.push(t);
                        assert(texts(data@) =~= before.push(t@));
                    },
                }
            } else {
                current.push(b);
            }
            i += 1;
        }
        assert(bytes@.subrange(0, bytes@.len() as int) =~= bytes@);
        self.buffer = current;
        Ok(data)
    }

    /// Ends the stream: an unfinished line, if any, is decoded as a last line without removing
    /// a carriage return. The decoder is left empty.
    pub fn finish(&mut self) -> (result: Result<Vec<String>, AppError>)
        ensures
            final(self)@ == Seq::<u8>::empty(),
            old(self)@.len() == 0 ==> (result matches Ok(v) && v@.len() == 0),
            old(self)@.len() > 0 ==> match line_data(old(self)@) {
                None => (result matches Err(e) && is_error(e, ErrorKind::Engine, "llama.cpp returned a non-UTF-8 stream event"@)),
                Some(None) => (result matches Ok(v) && v@.len() == 0),
                Some(Some(d)) => (result matches Ok(v) && texts(v@) == seq![d]),
            },
    {
        if self.buffer.len() == 0 {
            return Ok(Vec::new());
        }
        let mut line: Vec<u8> = Vec::new();
        std::mem::swap(&mut line, &mut self.buffer);
        match parse_sse_data_line(line) {
            Err(()) => Err(non_utf8_event()),
            Ok(None) => Ok(Vec::new()),
            Ok(Some(t)) => {
                let v = vec![t];
                assert(texts(v@) =~= seq![v@[0]@]);
                Ok(v)
            },
        }
    }
}

proof fn lemma_sse_run_failed(state: Option<(Seq<Seq<char>>, Seq<u8>)>, bytes: Seq<u8>, k: int)
    requires
        0 <= k <= bytes.len(),
        sse_run(state, bytes.subrange(0, k)) is None,
    ensures
        sse_run(state, bytes) is None,
    decreases bytes.len() - k,
{
    if k == bytes.len() {
        assert(bytes.subrange(0, k) =~= bytes);
    } else {
        lemma_sse_run_append(state, bytes, k);
        lemma_sse_run_failed(state, bytes, k + 1);
    }
}

/// The decoder's work on bytes that follow earlier data is that earlier data followed by its
/// work from an empty list.
pub proof fn lemma_sse_run_data(data: Seq<Seq<char>>, current: Seq<u8>, bytes: Seq<u8>)
    ensures
        sse_run(Some((data, current)), bytes) == match sse_run(Some((Seq::empty(), current)), bytes) {
            Some((d, rest)) => Some((data + d, rest)),
            None => None,
        },
    decreases bytes.len(),
{
    if bytes.len() > 0 {
        lemma_sse_run_data(data, current, bytes.drop_last());
        match sse_run(Some((Seq::empty(), current)), bytes.drop_last()) {
            Some((d, rest)) => {
                if bytes.last() == 10 {
                    match line_data(strip_cr(rest)) {
                        Some(Some(x)) => {
                            assert((data + d).push(x) =~= data + d.push(x));
                        },
                        _ => {},
                    }
                }
            },
            None => {},
        }
    }
}

/// Running the decoder over `a` and then `b` is running it over `a + b`.
pub proof fn lemma_sse_run_concat(state: Option<(Seq<Seq<char>>, Seq<u8>)>, a: Seq<u8>, b: Seq<u8>)
    ensures
        sse_run(sse_run(state, a), b) == sse_run(state, a + b),
    decreases b.len(),
{
    if b.len() == 0 {
        assert(a + b =~= a);
    } else {
        lemma_sse_run_concat(state, a, b.drop_last());
        assert((a + b).drop_last() =~= a + b.drop_last());
        assert((a + b).last() == b.last());
    }
}

/// How a response is cut into chunks does not change what the decoder yields: feeding `a` and
/// then `b` yields the payloads of feeding `a + b`, split between the two calls, and leaves the
/// same unfinished line.
pub proof fn law_sse_chunking(buffer: Seq<u8>, a: Seq<u8>, b: Seq<u8>)
    ensures
        match sse_run(Some((Seq::empty(), buffer)), a) {
            Some((d1, r1)) => sse_run(Some((Seq::empty(), buffer)), a + b) == match sse_run(Some((Seq::empty(), r1)), b) {
                Some((d2, r2)) => Some((d1 + d2, r2)),
                None => None,
            },
            None => sse_run(Some((Seq::empty(), buffer)), a + b) is None,
        },
{
    let st = Some((Seq::<Seq<char>>::empty(), buffer));
    lemma_sse_run_concat(st, a, b);
    match sse_run(st, a) {
        Some((d1, r1)) => {
            lemma_sse_run_data(d1, r1, b);
        },
        None => {
            lemma_sse_run_none(b);
        },
    }
}

proof fn lemma_sse_run_none(bytes: Seq<u8>)
    ensures
        sse_run(None, bytes) is None,
    decreases bytes.len(),
{
    if bytes.len() > 0 {
        lemma_sse_run_none(bytes.drop_last());
    }
}

// ---------------------------------------------------------------------------------------------
// Generation stream
/// The fields of one streamed completion event that the adapter reads, each present only when
/// the event holds it with the right type. `predicted_per_second_bits` holds the bits of the
/// reported rate as a 64-bit floating-point number.
#[derive(Debug, Clone)]
pub struct StreamEvent {
    pub delta_content: Option<String>,
    pub choice_text: Option<String>,
    pub usage_prompt_tokens: Option<u64>,
    pub timings_prompt_n: Option<u64>,
    pub usage_completion_tokens: Option<u64>,
    pub timings_predicted_n: Option<u64>,
    pub predicted_per_second_bits: Option<u64>,
}

/// What an event holds, as text and numbers.
pub struct StreamEventView {
    pub delta_content: Option<Seq<char>>,
    pub choice_text: Option<Seq<char>>,
    pub usage_prompt_tokens: Option<u64>,
    pub timings_prompt_n: Option<u64>,
    pub usage_completion_tokens: Option<u64>,
    pub timings_predicted_n: Option<u64>,
    pub predicted_per_second_bits: Option<u64>,
}

impl View for StreamEvent {
    type V = StreamEventView;

    open spec fn view(&self) -> StreamEventView {
        StreamEventView {
            delta_content: match self.delta_content {
                Some(t) => Some(t@),
                None => None,
            },
            choice_text: match self.choice_text {
                Some(t) => Some(t@),
                None => None,
            },
            usage_prompt_tokens: self.usage_prompt_tokens,
            timings_prompt_n: self.timings_prompt_n,
            usage_completion_tokens: self.usage_completion_tokens,
            timings_predicted_n: self.timings_predicted_n,
            predicted_per_second_bits: self.predicted_per_second_bits,
        }
    }
}

/// The visible text of an event: the delta content, else the choice text, when not empty.
pub open spec fn stream_text_spec(event: StreamEventView) -> Option<Seq<char>> {
    let t = match event.delta_content {
        Some(c) => Some(c),
        None => event.choice_text,
    };
    match t {
        Some(x) => if x.len() > 0 { Some(x) } else { None },
        None => None,
    }
}

/// The visible text of an event is its delta content when the event has one, else its choice
/// text; an empty text is no text, and an event with neither gives none.
pub proof fn law_visible_text_prefers_the_delta(event: StreamEventView)
    ensures
        match (event.delta_content, event.choice_text) {
            (Some(c), _) => stream_text_spec(event) == (if c.len() == 0 { None::<Seq<char>> } else { Some(c) }),
            (None, Some(c)) => stream_text_spec(event) == (if c.len() == 0 { None::<Seq<char>> } else { Some(c) }),
            (None, None) => stream_text_spec(event) is None,
        },
        stream_text_spec(event) matches Some(x) ==> x.len() > 0,
{
}

pub fn stream_text(event: &StreamEvent) -> (text: Option<String>)
    ensures
        match (text, stream_text_spec(event@)) {
            (Some(t), Some(x)) => t@ == x,
            (None, None) => true,
            _ => false,
        },
{
    let t = match &event.delta_content {
        Some(c) => Some(c),
        None => match &event.choice_text {
            Some(c) => Some(c),
            None => None,
        },
    };
    match t {
        Some(x) => if x.as_str().unicode_len() > 0 {
            Some(x.clone())
        } else {
            None
        },
        None => None,
    }
}

pub open spec fn first_some<T>(a: Option<T>, b: Option<T>, fallback: T) -> T {
    match a {
        Some(x) => x,
        None => match b {
            Some(y) => y,
            None => fallback,
        },
    }
}

/// Usage after an event: each count comes from the `usage` block, else the `timings` block,
/// else stays; the rate comes from `timings` or stays.
pub open spec fn update_usage_spec(event: StreamEventView, usage: Usage) -> Usage {
    Usage {
        prompt_tokens: first_some(event.usage_prompt_tokens, event.timings_prompt_n, usage.prompt_tokens),
        output_tokens: first_some(event.usage_completion_tokens, event.timings_predicted_n, usage.output_tokens),
        tokens_per_second_bits: match event.predicted_per_second_bits {
            Some(b) => b,
            None => usage.tokens_per_second_bits,
        },
    }
}

pub fn update_usage(event: &StreamEvent, usage: &mut Usage)
    ensures
        *final(usage) == update_usage_spec(event@, *old(usage)),
{
    usage.prompt_tokens = match event.usage_prompt_tokens {
        Some(x) => x,
        None => match event.timings_prompt_n {
            Some(y) => y,
            None => usage.prompt_tokens,
        },
    };
    usage.output_tokens = match event.usage_completion_tokens {
        Some(x) => x,
        None => match event.timings_predicted_n {
            Some(y) => y,
            None => usage.output_tokens,
        },
    };
    usage.tokens_per_second_bits = match event.predicted_per_second_bits {
        Some(b) => b,
        None => usage.tokens_per_second_bits,
    };
}

/// After an event, each count is taken from its own fields only: the prompt count from
/// `usage.prompt_tokens`, else `timings.prompt_n`, else it stays; the output count from
/// `usage.completion_tokens`, else `timings.predicted_n`, else it stays; the rate from
/// `timings.predicted_per_second`, else it stays. So the prompt count never depends on the
/// output fields, nor the output count on the prompt fields.
pub proof fn law_usage_counts_come_from_their_own_fields(event: StreamEventView, other: StreamEventView, usage: Usage)
    ensures
        event.usage_prompt_tokens matches Some(p) ==> update_usage_spec(event, usage).prompt_tokens == p,
        match (event.usage_prompt_tokens, event.timings_prompt_n) {
            (None, Some(p)) => update_usage_spec(event, usage).prompt_tokens == p,
            _ => true,
        },
        (event.usage_prompt_tokens is None && event.timings_prompt_n is None)
            ==> update_usage_spec(event, usage).prompt_tokens == usage.prompt_tokens,
        event.usage_completion_tokens matches Some(o) ==> update_usage_spec(event, usage).output_tokens == o,
        match (event.usage_completion_tokens, event.timings_predicted_n) {
            (None, Some(o)) => update_usage_spec(event, usage).output_tokens == o,
            _ => true,
        },
        (event.usage_completion_tokens is None && event.timings_predicted_n is None)
            ==> update_usage_spec(event, usage).output_tokens == usage.output_tokens,
        event.predicted_per_second_bits matches Some(r) ==> update_usage_spec(event, usage).tokens_per_second_bits == r,
        event.predicted_per_second_bits is None
            ==> update_usage_spec(event, usage).tokens_per_second_bits == usage.tokens_per_second_bits,
        (other.usage_prompt_tokens == event.usage_prompt_tokens && other.timings_prompt_n == event.timings_prompt_n)
            ==> update_usage_spec(other, usage).prompt_tokens == update_usage_spec(event, usage).prompt_tokens,
        (other.usage_completion_tokens == event.usage_completion_tokens
            && other.timings_predicted_n == event.timings_predicted_n)
            ==> update_usage_spec(other, usage).output_tokens == update_usage_spec(event, usage).output_tokens,
{
}

/// The payload that ends a completion stream.
pub fn is_done_marker(data: &str) -> (done: bool)
    ensures
        done == (data@ == "[DONE]"@),
{
    str_eq(data, "[DONE]")
}

/// The progress of one streamed generation: chunks handed out so far, visible bytes so far,
/// the latest usage and whether the terminal marker arrived.
pub struct GenerationStream {
    pub job_id: String,
    pub sequence: u64,
    pub generated_bytes: usize,
    pub usage: Usage,
    pub done: bool,
}

/// The length in bytes of the text's UTF-8 encoding, as `str::len` reports it.
pub open spec fn utf8_len(text: Seq<char>) -> usize {
    encode_utf8(text).len() as usize
}

pub open spec fn saturating_add_usize(a: usize, b: usize) -> usize {
    if a + b > usize::MAX { usize::MAX } else { (a + b) as usize }
}

pub open spec fn saturating_inc(a: u64) -> u64 {
    if a == u64::MAX { a } else { (a + 1) as u64 }
}

/// What taking one live event does: its usage is recorded, and its visible text, if any, is
/// counted and handed out as the next numbered chunk; more than 4 MiB of visible text in all
/// is refused.
pub open spec fn record_spec(
    before: GenerationStream,
    event: StreamEventView,
    after: GenerationStream,
    result: Result<Option<TokenChunk>, AppError>,
) -> bool {
    &&& after.usage == update_usage_spec(event, before.usage)
    &&& after.job_id == before.job_id
    &&& after.done == before.done
    &&& match stream_text_spec(event) {
        None => {
            &&& result matches Ok(None)
            &&& after.sequence == before.sequence
            &&& after.generated_bytes == before.generated_bytes
        },
        Some(text) => {
            &&& after.generated_bytes == saturating_add_usize(before.generated_bytes, utf8_len(text))
            &&& if after.generated_bytes > MAX_GENERATED_TEXT_BYTES {
                &&& result matches Err(e)
                &&& is_error(e, ErrorKind::Engine, "llama.cpp generated more than the 4 MiB response limit"@)
                &&& after.sequence == before.sequence
            } else {
                &&& after.sequence == saturating_inc(before.sequence)
                &&& result matches Ok(Some(chunk))
                &&& chunk.job_id@ == before.job_id@
                &&& chunk.sequence == after.sequence
                &&& chunk.text@ == text
            }
        },
    }
}

/// What `serde_json` reads from the data of one stream event: the error message when it is
/// not JSON, else the fields the adapter reads.
pub uninterp spec fn stream_event_of(data: Seq<char>) -> Result<StreamEventView, Seq<char>>;

/// Reads one event with `serde_json::from_str` as a `serde_json::Value`, then takes the
/// strings at `/choices/0/delta/content` and `/choices/0/text`, the unsigned integers at
/// `/usage/prompt_tokens`, `/timings/prompt_n`, `/usage/completion_tokens` and
/// `/timings/predicted_n`, and the bits of the number at `/timings/predicted_per_second`.
/// Claims only that the outcome is a function of the text, named `stream_event_of`.
#[verifier::external_body]
fn parse_stream_event(data: &str) -> (result: Result<StreamEvent, String>)
    ensures
        match (result, stream_event_of(data@)) {
            (Ok(event), Ok(view)) => event@ == view,
            (Err(e), Err(m)) => e@ == m,
            _ => false,
        },
{
    let value: serde_json::Value = match serde_json::from_str(data) { Ok(v) => v, Err(e) => return Err(e.to_string()) };
    let text = |p: &str| value.pointer(p).and_then(serde_json::Value::as_str).map(str::to_owned);
    let count = |p: &str| value.pointer(p).and_then(serde_json::Value::as_u64);
    Ok(StreamEvent {
        delta_content: text("/choices/0/delta/content"),
        choice_text: text("/choices/0/text"),
        usage_prompt_tokens: count("/usage/prompt_tokens"),
        timings_prompt_n: count("/timings/prompt_n"),
        usage_completion_tokens: count("/usage/completion_tokens"),
        timings_predicted_n: count("/timings/predicted_n"),
        predicted_per_second_bits: value.pointer("/timings/predicted_per_second").and_then(serde_json::Value::as_f64).map(|x| x.to_bits()),
    })
}

/// The Engine error's detail for an event that is not JSON.
pub open spec fn invalid_event_detail(message: Seq<char>) -> Seq<char> {
    "llama.cpp returned invalid stream JSON: "@ + message
}

impl GenerationStream {
    pub fn new(job_id: String) -> (stream: GenerationStream)
        ensures
            stream.job_id == job_id,
            stream.sequence == 0,
            stream.generated_bytes == 0,
            stream.usage == (Usage { prompt_tokens: 0, output_tokens: 0, tokens_per_second_bits: 0 }),
            !stream.done,
    {
        GenerationStream {
            job_id,
            sequence: 0,
            generated_bytes: 0,
            usage: Usage { prompt_tokens: 0, output_tokens: 0, tokens_per_second_bits: 0 },
            done: false,
        }
    }

    /// The terminal marker arrived.
    pub fn mark_done(&mut self)
        ensures
            final(self).done,
            final(self).job_id == old(self).job_id,
            final(self).sequence == old(self).sequence,
            final(self).generated_bytes == old(self).generated_bytes,
            final(self).usage == old(self).usage,
    {
        self.done = true;
    }

    /// Takes one event of the live stream: its usage is recorded, and its visible text, if any,
    /// is counted and handed out as the next numbered chunk. More than 4 MiB of visible text in
    /// all is refused.
    pub fn record(&mut self, event: &StreamEvent) -> (result: Result<Option<TokenChunk>, AppError>)
        ensures
            record_spec(*old(self), event@, *final(self), result),
    {
        update_usage(event, &mut self.usage);
        match stream_text(event) {
            None => Ok(None),
            Some(text) => {
                let n = text.as_str().len();
                assert(n == utf8_len(text@));
                self.generated_bytes = if self.generated_bytes > usize::MAX - n {
                    usize::MAX
                } else {
                    self.generated_bytes + n
                };
                if self.generated_bytes > MAX_GENERATED_TEXT_BYTES {
                    return Err(AppError::Engine("llama.cpp generated more than the 4 MiB response limit".to_owned()));
                }
                self.sequence = if self.sequence == u64::MAX { u64::MAX } else { self.sequence + 1 };
                assert(self.sequence == saturating_inc(old(self).sequence));
                assert(self.generated_bytes == saturating_add_usize(old(self).generated_bytes, utf8_len(text@)));
                Ok(Some(TokenChunk { job_id: self.job_id.clone(), sequence: self.sequence, text }))
            },
        }
    }

    /// Takes one event that arrived after the response body ended: only its usage counts.
    pub fn record_trailing(&mut self, event: &StreamEvent)
        ensures
            final(self).usage == update_usage_spec(event@, old(self).usage),
            final(self).job_id == old(self).job_id,
            final(self).done == old(self).done,
            final(self).sequence == old(self).sequence,
            final(self).generated_bytes == old(self).generated_bytes,
    {
        update_usage(event, &mut self.usage);
    }

    /// Reads the data of one live event and takes it as `record` does; data that is not JSON is
    /// an Engine error and changes nothing.
    pub fn record_data(&mut self, data: &str) -> (result: Result<Option<TokenChunk>, AppError>)
        ensures
            match stream_event_of(data@) {
                Ok(event) => record_spec(*old(self), event, *final(self), result),
                Err(m) => (result matches Err(e) && is_error(e, ErrorKind::Engine, invalid_event_detail(m)))
                    && *final(self) == *old(self),
            },
    {
        match parse_stream_event(data) {
            Ok(event) => self.record(&event),
            Err(m) => Err(AppError::Engine(cat("llama.cpp returned invalid stream JSON: ", m.as_str()))),
        }
    }

    /// Reads the data of one event that arrived after the body ended and takes its usage; data
    /// that is not JSON is an Engine error and changes nothing.
    pub fn record_trailing_data(&mut self, data: &str) -> (result: Result<(), AppError>)
        ensures
            match stream_event_of(data@) {
                Ok(event) => result is Ok && *final(self) == (GenerationStream {
                    usage: update_usage_spec(event, old(self).usage),
                    ..*old(self)
                }),
                Err(m) => (result matches Err(e) && is_error(e, ErrorKind::Engine, invalid_event_detail(m)))
                    && *final(self) == *old(self),
            },
    {
        match parse_stream_event(data) {
            Ok(event) => {
                self.record_trailing(&event);
                Ok(())
            },
            Err(m) => Err(AppError::Engine(cat("llama.cpp returned invalid stream JSON: ", m.as_str()))),
        }
    }

    /// The outcome once the response body has ended: the terminal marker and some visible text
    /// are both required.
    pub fn finish(&self) -> (result: Result<Usage, AppError>)
        ensures
            !self.done ==> (result matches Err(e) && is_error(e, ErrorKind::Engine, "llama.cpp ended the chat stream before its terminal event"@)),
            self.done && self.generated_bytes == 0 ==> (result matches Err(e) && is_error(e, ErrorKind::Engine, "the model completed without visible response text"@)),
            self.done && self.generated_bytes > 0 ==> result == Ok::<Usage, AppError>(self.usage),
    {
        if !self.done {
            return Err(AppError::Engine("llama.cpp ended the chat stream before its terminal event".to_owned()));
        }
        if self.generated_bytes == 0 {
            return Err(AppError::Engine("the model completed without visible response text".to_owned()));
        }
        Ok(self.usage)
    }
}

// ---------------------------------------------------------------------------------------------
// Requests, probes and identity
/// The failure for a chat request that the server answered with a non-success status: the
/// server's error message when it is not blank, else the trimmed body, after the status.
pub open spec fn chat_http_error_detail(status: Seq<char>, message: Option<Seq<char>>, body: Seq<char>) -> Seq<char> {
    let detail = match message {
        Some(m) => if all_whitespace(m) { trim_spec(body) } else { m },
        None => trim_spec(body),
    };
    if detail.len() == 0 {
        "llama.cpp chat returned HTTP "@ + status
    } else {
        "llama.cpp chat returned HTTP "@ + status + ": "@ + detail
    }
}

/// `status` is the status as HTTP prints it, `message` the `/error/message` string of a JSON
/// body and `body` the body decoded with replacement characters.
pub fn chat_http_error(status: &str, message: Option<String>, body: &str) -> (error: AppError)
    ensures
        is_error(
            error,
            ErrorKind::Engine,
            chat_http_error_detail(status@, match message { Some(m) => Some(m@), None => None }, body@),
        ),
{
    let detail: String = match message {
        Some(m) => if is_blank(m.as_str()) { trim(body).to_owned() } else { m },
        None => trim(body).to_owned(),
    };
    let mut text = cat("llama.cpp chat returned HTTP ", status);
    if detail.as_str().unicode_len() > 0 {
        text.append(": ");
        text.append(detail.as_str());
    }
    AppError::Engine(text)
}

/// What `serde_json` reads as the `/error/message` string of a response body, if the body is
/// JSON and holds one.
pub uninterp spec fn error_message_of(body: Seq<u8>) -> Option<Seq<char>>;

/// Reads a body with `serde_json::from_slice` as a `serde_json::Value` and takes the string at
/// `/error/message`. Claims only that the outcome is a function of the bytes, named
/// `error_message_of`.
#[verifier::external_body]
fn json_error_message(body: &[u8]) -> (message: Option<String>)
    ensures
        match (message, error_message_of(body@)) {
            (Some(m), Some(t)) => m@ == t,
            (None, None) => true,
            _ => false,
        },
{
    serde_json::from_slice::<serde_json::Value>(body)
        .ok()
        .and_then(|value| value.pointer("/error/message").and_then(serde_json::Value::as_str).map(str::to_owned))
}

/// What `serde_json` reads of an identity body: the strings at `model_path` and `build_info`
/// (each `None` when absent or not a string), or the parser's message when the body is not
/// JSON.
pub uninterp spec fn identity_fields_of(body: Seq<u8>) -> Result<(Option<Seq<char>>, Option<Seq<char>>), Seq<char>>;

/// Reads a body with `serde_json::from_slice` as a `serde_json::Value` and takes the strings
/// at `model_path` and `build_info`. Claims only that the outcome is a function of the bytes,
/// named `identity_fields_of`.
#[verifier::external_body]
fn read_identity_fields(body: &[u8]) -> (fields: Result<(Option<String>, Option<String>), String>)
    ensures
        match (fields, identity_fields_of(body@)) {
            (Ok((p, b)), Ok((p2, b2))) => opt_string_view(p) == p2 && opt_string_view(b) == b2,
            (Err(m), Err(m2)) => m@ == m2,
            _ => false,
        },
{
    let value: serde_json::Value = serde_json::from_slice(body).map_err(|error| error.to_string())?;
    Ok((
        value.get("model_path").and_then(serde_json::Value::as_str).map(str::to_owned),
        value.get("build_info").and_then(serde_json::Value::as_str).map(str::to_owned),
    ))
}

pub open spec fn opt_string_view(v: Option<String>) -> Option<Seq<char>> {
    match v {
        Some(s) => Some(s@),
        None => None,
    }
}

/// The model path and build that an identity body reports, or the failure for a body that
/// is not JSON.
pub fn identity_fields(body: &[u8]) -> (result: Result<(Option<String>, Option<String>), AppError>)
    ensures
        match identity_fields_of(body@) {
            Ok((p, b)) => result matches Ok((p1, b1)) && opt_string_view(p1) == p && opt_string_view(b1) == b,
            Err(m) => result matches Err(e) && is_error(e, ErrorKind::Engine, "llama.cpp returned invalid identity JSON: "@ + m),
        },
{
    match read_identity_fields(body) {
        Ok(fields) => Ok(fields),
        Err(message) => Err(AppError::Engine(cat("llama.cpp returned invalid identity JSON: ", message.as_str()))),
    }
}

/// The failure for a chat request answered with a non-success status, from the status as HTTP
/// prints it and the body's bytes: the body's JSON error message, else the body decoded with
/// replacement characters.
pub fn chat_http_failure(status: &str, body: &[u8]) -> (error: AppError)
    ensures
        is_error(error, ErrorKind::Engine, chat_http_error_detail(status@, error_message_of(body@), lossy_decode(body@))),
{
    let message = json_error_message(body);
    let text = lossy_text(body);
    chat_http_error(status, message, text.as_str())
}

/// The response is a server-sent event stream: its content type, ignoring ASCII case, starts
/// with `text/event-stream`.
pub fn is_event_stream(content_type: &str) -> (result: bool)
    ensures
        result == starts_with(ascii_lower_spec(content_type@), "text/event-stream"@),
{
    let lowered = ascii_lower_chars(content_type);
    let expected = chars_of("text/event-stream");
    chars_start_with(&lowered, &expected)
}

/// A chat job needs a non-blank ID of at most 128 bytes and between 1 and 4096 output tokens.
pub fn validate_chat_request(job_id: &str, max_output_tokens: u32) -> (result: Result<(), AppError>)
    ensures
        (all_whitespace(job_id@) || utf8_len(job_id@) > 128)
            ==> (result matches Err(e) && is_error(e, ErrorKind::Engine, "the chat job ID is invalid"@)),
        !(all_whitespace(job_id@) || utf8_len(job_id@) > 128) && !(1 <= max_output_tokens <= 4096)
            ==> (result matches Err(e) && is_error(e, ErrorKind::Engine, "maximum output tokens must be between 1 and 4096"@)),
        !(all_whitespace(job_id@) || utf8_len(job_id@) > 128) && 1 <= max_output_tokens <= 4096 ==> result is Ok,
{
    if is_blank(job_id) || job_id.len() > 128 {
        return Err(AppError::Engine("the chat job ID is invalid".to_owned()));
    }
    if !(1 <= max_output_tokens && max_output_tokens <= 4096) {
        return Err(AppError::Engine("maximum output tokens must be between 1 and 4096".to_owned()));
    }
    Ok(())
}

// ---------------------------------------------------------------------------------------------
// Chat request body
/// What `serde_json` makes of a chat message list: its error message when the text is not
/// JSON, else whether the value is an array and the compact encoding it writes for it.
pub uninterp spec fn json_reencoding(text: Seq<char>) -> Result<(bool, Seq<u8>), Seq<char>>;

/// Reads `text` with `serde_json::from_str` as a `serde_json::Value`, and reports
/// `Value::is_array` of it and the bytes that `serde_json::to_vec` writes for it.
/// Claims only that this outcome is a function of the text, named `json_reencoding`: the JSON
/// grammar and its encoding are `serde_json`'s and are not stated here.
#[verifier::external_body]
fn reencode_json(text: &str) -> (result: Result<(bool, Vec<u8>), String>)
    ensures
        match (result, json_reencoding(text@)) {
            (Ok((array, bytes)), Ok((a, b))) => array == a && bytes@ == b,
            (Err(e), Err(m)) => e@ == m,
            _ => false,
        },
{
    match serde_json::from_str::<serde_json::Value>(text) {
        Err(error) => Err(error.to_string()),
        Ok(value) => match serde_json::to_vec(&value) {
            Err(error) => Err(error.to_string()),
            Ok(bytes) => Ok((value.is_array(), bytes)),
        },
    }
}

/// The text before the message list in a chat body: thinking disabled and the output limit.
pub open spec fn chat_body_head(max_output_tokens: u32) -> Seq<char> {
    "{\"chat_template_kwargs\":{\"enable_thinking\":false},\"max_tokens\":"@
        + decimal_chars(max_output_tokens as nat) + ",\"messages\":"@
}

/// The text after the message list in a chat body: the model alias and streaming with usage.
pub open spec fn chat_body_tail() -> Seq<char> {
    ",\"model\":\"local-model\",\"stream\":true,\"stream_options\":{\"include_usage\":true}}"@
}

/// The JSON object sent to llama-server for one chat, around an encoded message list.
pub open spec fn chat_body(max_output_tokens: u32, messages: Seq<u8>) -> Seq<u8> {
    encode_utf8(chat_body_head(max_output_tokens)) + messages + encode_utf8(chat_body_tail())
}

/// The chat body for a parsed message list, or the Engine error's detail: the list must be
/// JSON, must be an array, and the body must fit the 1 MiB transport limit.
pub open spec fn chat_payload_outcome(
    max_output_tokens: u32,
    parsed: Result<(bool, Seq<u8>), Seq<char>>,
) -> Result<Seq<u8>, Seq<char>> {
    match parsed {
        Err(m) => Err("the chat message payload is invalid: "@ + m),
        Ok((array, messages)) => if !array {
            Err("the chat message payload must be an array"@)
        } else if chat_body(max_output_tokens, messages).len() > MAX_CHAT_REQUEST_BYTES {
            Err("the chat request exceeds the 1 MiB transport limit"@)
        } else {
            Ok(chat_body(max_output_tokens, messages))
        },
    }
}

/// The request body for a message list that `serde_json` has read.
pub fn chat_payload_from(max_output_tokens: u32, parsed: Result<(bool, Vec<u8>), String>) -> (result: Result<Vec<u8>, AppError>)
    ensures
        match (result, chat_payload_outcome(max_output_tokens, match parsed {
            Ok((a, b)) => Ok((a, b@)),
            Err(m) => Err(m@),
        })) {
            (Ok(p), Ok(q)) => p@ == q,
            (Err(e), Err(d)) => is_error(e, ErrorKind::Engine, d),
            _ => false,
        },
{
    let (array, messages) = match parsed {
        Err(m) => return Err(AppError::Engine(cat("the chat message payload is invalid: ", m.as_str()))),
        Ok(p) => p,
    };
    if !array {
        return Err(AppError::Engine("the chat message payload must be an array".to_owned()));
    }
    let mut head = String::from_str(
        "{\"chat_template_kwargs\":{\"enable_thinking\":false},\"max_tokens\":",
    );
    let number = decimal_string(max_output_tokens as u64);
    head.append(number.as_str());
    head.append(",\"messages\":");
    let tail = ",\"model\":\"local-model\",\"stream\":true,\"stream_options\":{\"include_usage\":true}}";
    proof {
        reveal_strlit("{\"chat_template_kwargs\":{\"enable_thinking\":false},\"max_tokens\":");
        reveal_strlit(",\"messages\":");
        reveal_strlit(",\"model\":\"local-model\",\"stream\":true,\"stream_options\":{\"include_usage\":true}}");
    }
    assert(head@ == chat_body_head(max_output_tokens));
    let mut payload: Vec<u8> = Vec::new();
    push_bytes(&mut payload, head.as_str().as_bytes());
    push_bytes(&mut payload, messages.as_slice());
    push_bytes(&mut payload, tail.as_bytes());
    assert(payload@ =~= chat_body(max_output_tokens, messages@));
    if payload.len() > MAX_CHAT_REQUEST_BYTES {
        return Err(AppError::Engine("the chat request exceeds the 1 MiB transport limit".to_owned()));
    }
    Ok(payload)
}

/// The request body for a chat: the message list read and re-encoded by `serde_json`, framed
/// with the output limit, the model alias, streaming with usage and thinking disabled.
pub fn build_chat_payload(request: &ChatRequest) -> (result: Result<Vec<u8>, AppError>)
    ensures
        match (result, chat_payload_outcome(request.max_output_tokens, json_reencoding(request.messages_json@))) {
            (Ok(p), Ok(q)) => p@ == q,
            (Err(e), Err(d)) => is_error(e, ErrorKind::Engine, d),
            _ => false,
        },
{
    let parsed = reencode_json(request.messages_json.as_str());
    chat_payload_from(request.max_output_tokens, parsed)
}

// ---------------------------------------------------------------------------------------------
// Loading a model and reading bounded responses
/// The model path handed to llama.cpp must be absolute (by the Windows rule,
/// `is_absolute_windows`) and name a `.gguf` file.
pub fn check_model_path(path: &str) -> (result: Result<(), AppError>)
    ensures
        is_absolute_windows(path@) && has_gguf_extension_spec(path@) ==> result is Ok,
        !(is_absolute_windows(path@) && has_gguf_extension_spec(path@)) ==> (result matches Err(e)
            && is_error(e, ErrorKind::Engine, "llama.cpp requires an absolute GGUF model path"@)),
{
    if !is_absolute_path(path) || !has_gguf_extension(path) {
        return Err(AppError::Engine("llama.cpp requires an absolute GGUF model path".to_owned()));
    }
    Ok(())
}

/// A model file reached through a symbolic link or a reparse point is not loaded.
pub fn check_model_link(is_symlink: bool, is_reparse_point: bool) -> (result: Result<(), AppError>)
    ensures
        !is_symlink && !is_reparse_point ==> result is Ok,
        is_symlink || is_reparse_point ==> (result matches Err(e)
            && is_error(e, ErrorKind::Engine, "linked or reparse-point model files cannot be loaded"@)),
{
    if is_symlink || is_reparse_point {
        return Err(AppError::Engine("linked or reparse-point model files cannot be loaded".to_owned()));
    }
    Ok(())
}

/// The canonical model path must be a regular file.
pub fn check_model_is_file(is_file: bool) -> (result: Result<(), AppError>)
    ensures
        is_file ==> result is Ok,
        !is_file ==> (result matches Err(e) && is_error(e, ErrorKind::Engine, "the selected GGUF model is not a regular file"@)),
{
    if !is_file {
        return Err(AppError::Engine("the selected GGUF model is not a regular file".to_owned()));
    }
    Ok(())
}

/// The error of a backend response over the 1 MiB limit.
pub open spec fn is_oversized_response(e: AppError) -> bool {
    is_error(e, ErrorKind::Engine, "llama.cpp returned an oversized backend response"@)
}

/// A backend response that announces more than 1 MiB is refused before it is read.
pub fn check_response_length(length: Option<u64>) -> (result: Result<(), AppError>)
    ensures
        length matches Some(l) && l > MAX_HTTP_BODY_BYTES ==> (result matches Err(e) && is_oversized_response(e)),
        !(length matches Some(l) && l > MAX_HTTP_BODY_BYTES) ==> result is Ok,
{
    match length {
        Some(l) => if l > 1048576u64 {
            return Err(AppError::Engine("llama.cpp returned an oversized backend response".to_owned()));
        },
        None => {},
    }
    Ok(())
}

/// The bytes of a backend response read so far, never more than 1 MiB.
pub struct ResponseTally {
    pub received: usize,
}

impl ResponseTally {
    pub fn new() -> (tally: Self)
        ensures
            tally.received == 0,
    {
        ResponseTally { received: 0 }
    }

    /// Counts one more chunk, or refuses it when the body would pass 1 MiB.
    pub fn add(&mut self, chunk_len: usize) -> (result: Result<(), AppError>)
        requires
            old(self).received <= MAX_HTTP_BODY_BYTES,
        ensures
            old(self).received + chunk_len <= MAX_HTTP_BODY_BYTES ==> result is Ok
                && final(self).received == old(self).received + chunk_len,
            old(self).received + chunk_len > MAX_HTTP_BODY_BYTES ==> (result matches Err(e) && is_oversized_response(e))
                && final(self).received == old(self).received,
            final(self).received <= MAX_HTTP_BODY_BYTES,
    {
        if chunk_len > MAX_HTTP_BODY_BYTES - self.received {
            return Err(AppError::Engine("llama.cpp returned an oversized backend response".to_owned()));
        }
        self.received = self.received + chunk_len;
        Ok(())
    }
}

/// The loaded model's session runs only on the CPU route.
pub fn check_start_device(device_id: &str) -> (result: Result<(), AppError>)
    ensures
        device_id@ == "cpu"@ ==> result is Ok,
        device_id@ != "cpu"@ ==> (result matches Err(e) && is_error(e, ErrorKind::Engine, "the installed llama.cpp package supports only the CPU route"@)),
{
    if str_eq(device_id, "cpu") {
        Ok(())
    } else {
        Err(AppError::Engine("the installed llama.cpp package supports only the CPU route".to_owned()))
    }
}

/// A captured line says the server could not bind its port.
pub open spec fn is_bind_failure_line(line: Seq<char>) -> bool {
    contains_seq(ascii_lower_spec(line), "address already in use"@) || contains_seq(ascii_lower_spec(line), "bind failed"@)
}

/// Some captured line shows a port bind failure, so another port is worth trying.
pub fn logs_show_bind_failure(lines: &[String]) -> (result: bool)
    ensures
        result == exists|i: int| 0 <= i < lines@.len() && is_bind_failure_line(#[trigger] lines@[i]@),
{
    let in_use = chars_of("address already in use");
    let bind_failed = chars_of("bind failed");
    let mut i: usize = 0;
    while i < lines.len()
        invariant
            i <= lines@.len(),
            in_use@ == "address already in use"@,
            bind_failed@ == "bind failed"@,
            forall|k: int| 0 <= k < i ==> !is_bind_failure_line(#[trigger] lines@[k]@),
        decreases lines@.len() - i,
    {
        let lowered = ascii_lower_chars(lines[i].as_str());
        if contains_chars(&lowered, &in_use) || contains_chars(&lowered, &bind_failed) {
            return true;
        }
        i += 1;
    }
    false
}

/// Lines joined with line feeds, as `join("\n")` does.
pub open spec fn join_lines(lines: Seq<Seq<char>>) -> Seq<char>
    decreases lines.len(),
{
    if lines.len() == 0 {
        Seq::empty()
    } else if lines.len() == 1 {
        lines[0]
    } else {
        join_lines(lines.drop_last()) + seq!['\n'] + lines.last()
    }
}

pub fn join_with_newlines(lines: &[String]) -> (text: String)
    ensures
        text@ == join_lines(texts(lines@)),
{
    let mut text = String::new();
    let mut i: usize = 0;
    while i < lines.len()
        invariant
            i <= lines@.len(),
            text@ == join_lines(texts(lines@.subrange(0, i as int))),
        decreases lines@.len() - i,
    {
        if i > 0 {
            push_char(&mut text, '\n');
        }
        text.append(lines[i].as_str());
        proof {
            let prefix = texts(lines@.subrange(0, i + 1));
            assert(prefix.drop_last() =~= texts(lines@.subrange(0, i as int)));
            assert(prefix.last() == lines@[i as int]@);
            if i == 0 {
                assert(prefix.len() == 1);
            }
        }
        i += 1;
    }
    assert(lines@.subrange(0, lines@.len() as int) =~= lines@);
    text
}

/// The outcome of preparing the adapter: the resolved executable must be named
/// `llama-server.exe` (ignoring ASCII case) and its `--version` output, its captured lines
/// joined with line feeds, must name the pinned build.
pub fn check_version_probe(file_name: &str, probe_lines: &[String], expected_version: &str) -> (result: Result<(), AppError>)
    ensures
        ascii_lower_spec(file_name@) != "llama-server.exe"@ ==> (result matches Err(e) && is_error(e, ErrorKind::Engine, "the verified package does not contain llama-server.exe at its expected path"@)),
        ascii_lower_spec(file_name@) == "llama-server.exe"@ && !version_matches_spec(join_lines(texts(probe_lines@)), expected_version@)
            ==> (result matches Err(e) && is_error(e, ErrorKind::Engine, "llama.cpp reported an unexpected version; expected "@ + expected_version@)),
        ascii_lower_spec(file_name@) == "llama-server.exe"@ && version_matches_spec(join_lines(texts(probe_lines@)), expected_version@) ==> result is Ok,
{
    let lowered = ascii_lower_chars(file_name);
    let expected_name = chars_of("llama-server.exe");
    if !chars_eq(&lowered, &expected_name) {
        return Err(AppError::Engine("the verified package does not contain llama-server.exe at its expected path".to_owned()));
    }
    let output = join_with_newlines(probe_lines);
    if !version_matches(output.as_str(), expected_version) {
        return Err(AppError::Engine(cat("llama.cpp reported an unexpected version; expected ", expected_version)));
    }
    Ok(())
}

/// The verbatim prefix `\\?\`.
pub open spec fn verbatim_prefix() -> Seq<char> {
    seq!['\\', '\\', '?', '\\']
}

/// The verbatim UNC prefix `\\?\UNC\`.
pub open spec fn verbatim_unc_prefix() -> Seq<char> {
    seq!['\\', '\\', '?', '\\', 'U', 'N', 'C', '\\']
}

/// A Windows path without its verbatim prefix: `\\?\UNC\server\share` becomes
/// `\\server\share` and `\\?\C:\x` becomes `C:\x`.
pub open spec fn normalize_windows_path_spec(path: Seq<char>) -> Seq<char> {
    if starts_with(path, verbatim_unc_prefix()) {
        seq!['\\', '\\'] + path.skip(8)
    } else if starts_with(path, verbatim_prefix()) {
        path.skip(4)
    } else {
        path
    }
}

pub fn normalize_windows_path(path: &str) -> (normalized: String)
    ensures
        normalized@ == normalize_windows_path_spec(path@),
{
    let chars = chars_of(path);
    let unc = vec!['\\', '\\', '?', '\\', 'U', 'N', 'C', '\\'];
    let verbatim = vec!['\\', '\\', '?', '\\'];
    assert(unc@ =~= verbatim_unc_prefix());
    assert(verbatim@ =~= verbatim_prefix());
    let n = chars.len();
    if chars_start_with(&chars, &unc) {
        let mut out = String::new();
        push_char(&mut out, '\\');
        push_char(&mut out, '\\');
        out.append(string_of(&chars, 8, n).as_str());
        assert(out@ =~= seq!['\\', '\\'] + path@.skip(8));
        out
    } else if chars_start_with(&chars, &verbatim) {
        let out = string_of(&chars, 4, n);
        assert(out@ =~= path@.skip(4));
        out
    } else {
        path.to_owned()
    }
}

/// Two canonical paths name the same file on Windows: equal once verbatim prefixes are
/// removed, ignoring ASCII case.
pub open spec fn same_windows_path_spec(left: Seq<char>, right: Seq<char>) -> bool {
    ascii_lower_spec(normalize_windows_path_spec(left)) == ascii_lower_spec(normalize_windows_path_spec(right))
}

pub fn same_windows_path(left: &str, right: &str) -> (same: bool)
    ensures
        same == same_windows_path_spec(left@, right@),
{
    let l = normalize_windows_path(left);
    let r = normalize_windows_path(right);
    let a = ascii_lower_chars(l.as_str());
    let b = ascii_lower_chars(r.as_str());
    chars_eq(&a, &b)
}

/// The identity check: `Ok` or the detail of the engine failure.
pub open spec fn props_identity_spec(
    reported_path: Option<Seq<char>>,
    model_path: Seq<char>,
    build_info: Option<Seq<char>>,
    expected_version: Seq<char>,
) -> Result<(), Seq<char>> {
    match reported_path {
        None => Err("llama.cpp did not report its loaded model path"@),
        Some(p) => if !same_windows_path_spec(p, model_path) {
            Err("the loopback endpoint reported a different loaded model"@)
        } else {
            match build_info {
                None => Err("llama.cpp did not report its build version"@),
                Some(b) => if version_matches_spec(b, expected_version) {
                    Ok(())
                } else {
                    Err("the loopback endpoint is not llama.cpp "@ + expected_version)
                },
            }
        },
    }
}

pub open spec fn opt_view(s: Option<&str>) -> Option<Seq<char>> {
    match s {
        Some(x) => Some(x@),
        None => None,
    }
}

/// The loopback endpoint's reported identity must match the session: it reports a model path
/// (canonical) that is the loaded model and a build that names the pinned version.
pub fn validate_props_identity(
    reported_path: Option<&str>,
    model_path: &str,
    build_info: Option<&str>,
    expected_version: &str,
) -> (result: Result<(), AppError>)
    ensures
        match (result, props_identity_spec(opt_view(reported_path), model_path@, opt_view(build_info), expected_version@)) {
            (Ok(()), Ok(())) => true,
            (Err(e), Err(d)) => is_error(e, ErrorKind::Engine, d),
            _ => false,
        },
{
    let reported = match reported_path {
        Some(p) => p,
        None => return Err(AppError::Engine("llama.cpp did not report its loaded model path".to_owned())),
    };
    if !same_windows_path(reported, model_path) {
        return Err(AppError::Engine("the loopback endpoint reported a different loaded model".to_owned()));
    }
    let build = match build_info {
        Some(b) => b,
        None => return Err(AppError::Engine("llama.cpp did not report its build version".to_owned())),
    };
    if !version_matches(build, expected_version) {
        return Err(AppError::Engine(cat("the loopback endpoint is not llama.cpp ", expected_version)));
    }
    Ok(())
}

// ---------------------------------------------------------------------------------------------
// Starting a session
/// A model ID for a runtime request is not blank and has at most 128 bytes.
pub fn validate_model_id(model_id: &str) -> (result: Result<(), AppError>)
    ensures
        (all_whitespace(model_id@) || utf8_len(model_id@) > 128) ==> (result matches Err(e) && is_error(e, ErrorKind::Engine, "the model ID is invalid"@)),
        !(all_whitespace(model_id@) || utf8_len(model_id@) > 128) ==> result is Ok,
{
    if is_blank(model_id) || model_id.len() > 128 {
        Err(AppError::Engine("the model ID is invalid".to_owned()))
    } else {
        Ok(())
    }
}

/// With a requested size, that size is used. Without one, the size lies between 256 and
/// 4096: it is the model's trained context length when that lies in this range, 256 below it,
/// 4096 above it, and 4096 when the length is unknown; a longer model context never gives a
/// smaller size.
pub proof fn law_context_size_is_the_clamped_model_length(requested: Option<u32>, model_context: Option<u64>, longer: Option<u64>)
    ensures
        requested matches Some(c) ==> start_context_size_spec(requested, model_context) == c,
        requested is None ==> 256 <= start_context_size_spec(requested, model_context) <= 4096,
        match (requested, model_context) {
            (None, Some(m)) => {
                &&& 256 <= m <= 4096 ==> start_context_size_spec(requested, model_context) == m
                &&& m < 256 ==> start_context_size_spec(requested, model_context) == 256
                &&& m > 4096 ==> start_context_size_spec(requested, model_context) == 4096
            },
            (None, None) => start_context_size_spec(requested, model_context) == 4096,
            _ => true,
        },
        match (model_context, longer) {
            (Some(m), Some(l)) => m <= l ==> start_context_size_spec(None, model_context) <= start_context_size_spec(None, longer),
            _ => true,
        },
{
}

/// The context size a session starts with: the requested one, else the model's trained
/// context length (4096 when unknown) held between 256 and 4096.
pub open spec fn start_context_size_spec(requested: Option<u32>, model_context: Option<u64>) -> u32 {
    match requested {
        Some(c) => c,
        None => {
            let c = match model_context { Some(c) => c, None => 4096 };
            if c < 256 { 256 } else if c > 4096 { 4096 } else { c as u32 }
        },
    }
}

pub fn start_context_size(requested: Option<u32>, model_context: Option<u64>) -> (size: u32)
    ensures
        size == start_context_size_spec(requested, model_context),
{
    match requested {
        Some(c) => c,
        None => {
            let c = match model_context {
                Some(c) => c,
                None => 4096,
            };
            if c < 256 {
                256
            } else if c > 4096 {
                4096
            } else {
                c as u32
            }
        },
    }
}

/// The adapter options for a session, in key order: the context size, then the thread count
/// when one was requested.
pub fn start_options(context_size: u32, threads: Option<u16>) -> (options: Vec<(String, String)>)
    ensures
        options@.len() == if threads is Some { 2int } else { 1int },
        options@[0].0@ == "context_size"@,
        options@[0].1@ == decimal_chars(context_size as nat),
        threads matches Some(t) ==> options@[1].0@ == "threads"@ && options@[1].1@ == decimal_chars(t as nat),
        keys_ascending(options@),
{
    proof {
        reveal_strlit("context_size");
        reveal_strlit("threads");
        assert(crate::packages::text_lt("context_size"@, "threads"@));
    }
    let mut options: Vec<(String, String)> = Vec::new();
    options.push(("context_size".to_owned(), decimal_string(context_size as u64)));
    match threads {
        Some(t) => {
            options.push(("threads".to_owned(), decimal_string(t as u64)));
        },
        None => {},
    }
    options
}

// ---------------------------------------------------------------------------------------------
// The runtime's status
/// The runtime package that llama.cpp sessions are started from.
pub const LLAMA_CPP_CPU_PACKAGE_ID: &'static str = "llama.cpp-b9986-windows-x86_64-cpu";

/// A request to load a model into the llama.cpp runtime.
#[derive(Debug, Clone)]
pub struct StartEngineRequest {
    pub model_id: String,
    pub context_size: Option<u32>,
    pub threads: Option<u16>,
}

/// A request naming a runtime session.
#[derive(Debug, Clone)]
pub struct EngineSessionRequest {
    pub session_id: String,
}

/// What the interface is told about the llama.cpp runtime.
#[derive(Debug, Clone, PartialEq, Eq)]
pub struct EngineRuntimeStatus {
    pub engine_id: String,
    pub package_id: String,
    pub lifecycle: EngineLifecycle,
    pub session_id: Option<String>,
    pub process_id: Option<String>,
    pub pid: Option<u32>,
    pub model_id: Option<String>,
    pub model_name: Option<String>,
    pub backend_version: Option<String>,
    pub started_at: Option<String>,
    pub ended_at: Option<String>,
    pub exit_code: Option<i32>,
    pub detail: String,
    pub context_size: Option<u32>,
}

/// The retained log lines of a session.
#[derive(Debug, Clone)]
pub struct EngineLogSnapshot {
    pub session_id: String,
    pub process_id: String,
    pub lines: Vec<String>,
}

/// New log lines of a session, as an event carries them.
#[derive(Debug, Clone)]
pub struct EngineLogBatch {
    pub session_id: String,
    pub process_id: String,
    pub lines: Vec<String>,
}

/// The session the adapter holds, with the summary of its process.
#[derive(Debug, Clone)]
pub struct LlamaCppSnapshot {
    pub session_id: String,
    pub process_id: String,
    pub model_path: String,
    pub backend_version: String,
    pub context_size: u32,
    pub process: ProcessSummary,
}

/// The model that the runtime was last asked to load.
#[derive(Debug, Clone)]
pub struct CurrentModel {
    pub id: String,
    pub name: String,
    pub path: String,
}

/// The status without a session: the runtime is installed when its package is ready.
pub fn idle_status(package_ready: bool) -> (status: EngineRuntimeStatus)
    ensures
        status.engine_id@ == "llama.cpp"@,
        status.package_id@ == LLAMA_CPP_CPU_PACKAGE_ID@,
        status.lifecycle == (if package_ready { EngineLifecycle::Installed } else { EngineLifecycle::NotInstalled }),
        status.session_id is None && status.process_id is None && status.pid is None,
        status.model_id is None && status.model_name is None && status.backend_version is None,
        status.started_at is None && status.ended_at is None && status.exit_code is None,
        status.context_size is None,
        status.detail@ == (if package_ready {
            "The verified llama.cpp CPU runtime is available."@
        } else {
            "Install and verify the llama.cpp CPU runtime to load a model."@
        }),
{
    EngineRuntimeStatus {
        engine_id: "llama.cpp".to_owned(),
        package_id: LLAMA_CPP_CPU_PACKAGE_ID.to_owned(),
        lifecycle: if package_ready { EngineLifecycle::Installed } else { EngineLifecycle::NotInstalled },
        session_id: None,
        process_id: None,
        pid: None,
        model_id: None,
        model_name: None,
        backend_version: None,
        started_at: None,
        ended_at: None,
        exit_code: None,
        context_size: None,
        detail: if package_ready {
            "The verified llama.cpp CPU runtime is available.".to_owned()
        } else {
            "Install and verify the llama.cpp CPU runtime to load a model.".to_owned()
        },
    }
}

/// The current model is named in a session's status only when it is the model the session
/// loaded (paths compared as canonical Windows paths).
pub open spec fn session_model(snapshot: LlamaCppSnapshot, current: Option<CurrentModel>) -> Option<CurrentModel> {
    match current {
        Some(m) => if same_windows_path_spec(m.path@, snapshot.model_path@) { Some(m) } else { None },
        None => None,
    }
}

/// The status of a held session: its identifiers, its process's state and times, the loaded
/// model when known, and the detail of its lifecycle state.
pub fn session_status(snapshot: LlamaCppSnapshot, current_model: Option<CurrentModel>) -> (status: EngineRuntimeStatus)
    ensures
        status.engine_id@ == "llama.cpp"@,
        status.package_id@ == LLAMA_CPP_CPU_PACKAGE_ID@,
        status.lifecycle == snapshot.process.state,
        status.session_id == Some(snapshot.session_id),
        status.process_id == Some(snapshot.process_id),
        status.pid == snapshot.process.pid,
        match session_model(snapshot, current_model) {
            Some(m) => status.model_id == Some(m.id) && status.model_name == Some(m.name),
            None => status.model_id is None && status.model_name is None,
        },
        status.backend_version == Some(snapshot.backend_version),
        status.started_at == Some(snapshot.process.started_at),
        status.ended_at == snapshot.process.ended_at,
        status.exit_code == snapshot.process.exit_code,
        status.context_size == Some(snapshot.context_size),
        status.detail@ == lifecycle_detail_spec(snapshot.process.state),
{
    let (model_id, model_name) = match current_model {
        Some(m) => {
            if same_windows_path(m.path.as_str(), snapshot.model_path.as_str()) {
                (Some(m.id), Some(m.name))
            } else {
                (None, None)
            }
        },
        None => (None, None),
    };
    let state = snapshot.process.state;
    EngineRuntimeStatus {
        engine_id: "llama.cpp".to_owned(),
        package_id: LLAMA_CPP_CPU_PACKAGE_ID.to_owned(),
        lifecycle: state,
        session_id: Some(snapshot.session_id),
        process_id: Some(snapshot.process_id),
        pid: snapshot.process.pid,
        model_id,
        model_name,
        backend_version: Some(snapshot.backend_version),
        started_at: Some(snapshot.process.started_at),
        ended_at: snapshot.process.ended_at,
        exit_code: snapshot.process.exit_code,
        context_size: Some(snapshot.context_size),
        detail: lifecycle_detail(state),
    }
}

/// A session is active while its process has not reached a terminal state.
pub fn has_active_session(session_state: Option<EngineLifecycle>) -> (active: bool)
    ensures
        active == (session_state matches Some(s) && !s.is_terminal_spec()),
{
    match session_state {
        Some(s) => !s.is_terminal(),
        None => false,
    }
}

/// Loading a model needs no active session and a plausible model ID.
pub fn check_start_allowed(session_state: Option<EngineLifecycle>, model_id: &str) -> (result: Result<(), AppError>)
    ensures
        (session_state matches Some(s) && !s.is_terminal_spec()) ==> (result matches Err(e)
            && is_error(e, ErrorKind::Engine, "stop the active llama.cpp session before loading another model"@)),
        !(session_state matches Some(s) && !s.is_terminal_spec()) && (all_whitespace(model_id@) || utf8_len(model_id@) > 128)
            ==> (result matches Err(e) && is_error(e, ErrorKind::Engine, "the model ID is invalid"@)),
        !(session_state matches Some(s) && !s.is_terminal_spec()) && !(all_whitespace(model_id@) || utf8_len(model_id@) > 128)
            ==> result is Ok,
{
    if has_active_session(session_state) {
        return Err(AppError::Engine("stop the active llama.cpp session before loading another model".to_owned()));
    }
    validate_model_id(model_id)
}

/// A model is loaded only when its re-verification left it ready; otherwise its verification
/// error, or a generic refusal, is the engine failure.
pub fn check_model_ready(state: VerificationState, verification_error: Option<String>) -> (result: Result<(), AppError>)
    ensures
        state == VerificationState::Ready ==> result is Ok,
        state != VerificationState::Ready ==> (result matches Err(e) && is_error(e, ErrorKind::Engine, match verification_error {
            Some(d) => d@,
            None => "the selected GGUF model is not ready"@,
        })),
{
    if state == VerificationState::Ready {
        return Ok(());
    }
    match verification_error {
        Some(d) => Err(AppError::Engine(d)),
        None => Err(AppError::Engine("the selected GGUF model is not ready".to_owned())),
    }
}

/// Stopping names the held session: without one there is nothing to stop, and another ID is
/// refused.
pub fn check_stop_session(held_session: Option<&str>, session_id: &str) -> (result: Result<(), AppError>)
    ensures
        held_session is None ==> (result matches Err(e) && is_error(e, ErrorKind::Engine, "there is no llama.cpp session to stop"@)),
        held_session matches Some(h) && h@ != session_id@ ==> (result matches Err(e)
            && is_error(e, ErrorKind::Engine, "llama.cpp session "@ + session_id@ + " is not active"@)),
        held_session matches Some(h) && h@ == session_id@ ==> result is Ok,
{
    match held_session {
        None => Err(AppError::Engine("there is no llama.cpp session to stop".to_owned())),
        Some(h) => {
            if str_eq(h, session_id) {
                Ok(())
            } else {
                let mut detail = cat("llama.cpp session ", session_id);
                detail.append(" is not active");
                Err(AppError::Engine(detail))
            }
        },
    }
}

/// Reading logs names the retained session: without one there are none, and another ID is
/// refused.
pub fn check_log_session(retained_session: Option<&str>, session_id: &str) -> (result: Result<(), AppError>)
    ensures
        retained_session is None ==> (result matches Err(e) && is_error(e, ErrorKind::Engine, "there is no retained llama.cpp session"@)),
        retained_session matches Some(h) && h@ != session_id@ ==> (result matches Err(e)
            && is_error(e, ErrorKind::Engine, "llama.cpp session "@ + session_id@ + " is not retained"@)),
        retained_session matches Some(h) && h@ == session_id@ ==> result is Ok,
{
    match retained_session {
        None => Err(AppError::Engine("there is no retained llama.cpp session".to_owned())),
        Some(h) => {
            if str_eq(h, session_id) {
                Ok(())
            } else {
                let mut detail = cat("llama.cpp session ", session_id);
                detail.append(" is not retained");
                Err(AppError::Engine(detail))
            }
        },
    }
}

// ---------------------------------------------------------------------------------------------
// Following a session
pub const LOG_BATCH_LINES: usize = 100;

/// How many of a session's retained log lines the interface was sent.
pub struct LogCursor {
    pub emitted: usize,
}

/// Where the next batch starts: after the lines already sent, or from the start again when
/// the retained lines shrank.
pub open spec fn batch_start(emitted: usize, count: nat) -> int {
    if count < emitted { 0 } else { emitted as int }
}

/// Where the next batch ends: at most 100 lines after its start.
pub open spec fn batch_end(emitted: usize, count: nat) -> int {
    let start = batch_start(emitted, count);
    if count <= start { start } else if start + LOG_BATCH_LINES < count { start + LOG_BATCH_LINES } else { count as int }
}

impl LogCursor {
    pub fn new() -> (cursor: LogCursor)
        ensures
            cursor.emitted == 0,
    {
        LogCursor { emitted: 0 }
    }

    /// The next lines to send of the retained ones, at most 100; empty when there is nothing new.
    pub fn next_batch(&mut self, lines: &[String]) -> (batch: Vec<String>)
        ensures
            final(self).emitted == batch_end(old(self).emitted, lines@.len()),
            texts(batch@) == texts(lines@).subrange(
                batch_start(old(self).emitted, lines@.len()),
                batch_end(old(self).emitted, lines@.len()),
            ),
    {
        let n = lines.len();
        let start = if n < self.emitted { 0 } else { self.emitted };
        let end = if n <= start { start } else if n - start > LOG_BATCH_LINES { start + LOG_BATCH_LINES } else { n };
        let mut batch: Vec<String> = Vec::new();
        let mut i = start;
        while i < end
            invariant
                start <= i <= end <= n,
                n == lines@.len(),
                texts(batch@) == texts(lines@).subrange(start as int, i as int),
            decreases end - i,
        {
            let ghost before = texts(batch@);
            let line = lines[i].clone();
            assert(line@ == lines@[i as int]@);
            batch.push(line);
            assert(texts(batch@) =~= before.push(lines@[i as int]@));
            assert(texts(lines@).subrange(start as int, i + 1) =~= texts(lines@).subrange(start as int, i as int).push(lines@[i as int]@));
            i += 1;
        }
        self.emitted = end;
        batch
    }
}

/// A session's monitor keeps following it while the runtime still holds that session.
pub fn monitor_follows(status_session: Option<&str>, session_id: &str) -> (follows: bool)
    ensures
        follows == (status_session matches Some(s) && s@ == session_id@),
{
    match status_session {
        Some(s) => str_eq(s, session_id),
        None => false,
    }
}

/// A session's monitor is done once its process stopped, crashed or failed and every
/// retained log line was sent.
pub fn monitor_done(lifecycle: EngineLifecycle, emitted: usize, line_count: usize) -> (done: bool)
    ensures
        done == ((lifecycle == EngineLifecycle::Stopped || lifecycle == EngineLifecycle::Crashed
            || lifecycle == EngineLifecycle::Error) && emitted >= line_count),
{
    (lifecycle == EngineLifecycle::Stopped || lifecycle == EngineLifecycle::Crashed || lifecycle == EngineLifecycle::Error)
        && emitted >= line_count
}

// ---------------------------------------------------------------------------------------------
// Session control
/// The name of a lifecycle state as the runtime reports it in health details.
pub open spec fn lifecycle_name_spec(l: EngineLifecycle) -> Seq<char> {
    match l {
        EngineLifecycle::NotInstalled => "NotInstalled"@,
        EngineLifecycle::Installed => "Installed"@,
        EngineLifecycle::Starting => "Starting"@,
        EngineLifecycle::LoadingModel => "LoadingModel"@,
        EngineLifecycle::Ready => "Ready"@,
        EngineLifecycle::Busy => "Busy"@,
        EngineLifecycle::Stopping => "Stopping"@,
        EngineLifecycle::Stopped => "Stopped"@,
        EngineLifecycle::Crashed => "Crashed"@,
        EngineLifecycle::Recovering => "Recovering"@,
        EngineLifecycle::Error => "Error"@,
    }
}

pub fn lifecycle_name(l: EngineLifecycle) -> (name: &'static str)
    ensures
        name@ == lifecycle_name_spec(l),
{
    match l {
        EngineLifecycle::NotInstalled => "NotInstalled",
        EngineLifecycle::Installed => "Installed",
        EngineLifecycle::Starting => "Starting",
        EngineLifecycle::LoadingModel => "LoadingModel",
        EngineLifecycle::Ready => "Ready",
        EngineLifecycle::Busy => "Busy",
        EngineLifecycle::Stopping => "Stopping",
        EngineLifecycle::Stopped => "Stopped",
        EngineLifecycle::Crashed => "Crashed",
        EngineLifecycle::Recovering => "Recovering",
        EngineLifecycle::Error => "Error",
    }
}

/// The health of a session whose process has ended: not ready, naming the state.
pub fn ended_session_health(state: EngineLifecycle) -> (health: EngineHealth)
    ensures
        !health.ready,
        health.detail@ == "llama.cpp is "@ + lifecycle_name_spec(state),
{
    EngineHealth { ready: false, detail: cat("llama.cpp is ", lifecycle_name(state)) }
}

/// The health of a running session from its health endpoint's answer (its status text when
/// not a success); a success still needs the identity check before it counts.
pub fn health_from_status(success: bool, status_text: &str) -> (health: EngineHealth)
    ensures
        health.ready == success,
        success ==> health.detail@ == "llama.cpp is ready and its loopback identity matches"@,
        !success ==> health.detail@ == "llama.cpp health returned HTTP "@ + status_text@,
{
    if success {
        EngineHealth { ready: true, detail: "llama.cpp is ready and its loopback identity matches".to_owned() }
    } else {
        EngineHealth { ready: false, detail: cat("llama.cpp health returned HTTP ", status_text) }
    }
}

/// One health probe while a session starts: `Ok(true)` when the server answers with success
/// (its identity is checked next), `Ok(false)` while it is loading (HTTP 503) or not yet
/// reachable (`None`), until the deadline passes; any other status ends the start.
pub fn startup_health(status: Option<u16>, status_text: &str, deadline_passed: bool) -> (result: Result<bool, AppError>)
    ensures
        (status matches Some(c) && 200 <= c < 300) ==> result == Ok::<bool, AppError>(true),
        (status matches Some(c) && !(200 <= c < 300) && c != 503) ==> (result matches Err(e)
            && is_error(e, ErrorKind::Engine, "llama.cpp health returned HTTP "@ + status_text@)),
        (status is None || status == Some(503u16)) && deadline_passed ==> (result matches Err(e)
            && is_error(e, ErrorKind::Engine, "llama.cpp did not become ready within 120 seconds"@)),
        (status is None || status == Some(503u16)) && !deadline_passed ==> result == Ok::<bool, AppError>(false),
{
    match status {
        Some(c) => {
            if 200 <= c && c < 300 {
                return Ok(true);
            }
            if c != 503 {
                return Err(AppError::Engine(cat("llama.cpp health returned HTTP ", status_text)));
            }
        },
        None => {},
    }
    if deadline_passed {
        return Err(AppError::Engine("llama.cpp did not become ready within 120 seconds".to_owned()));
    }
    Ok(false)
}

/// The ownership challenge: a request with a wrong token must be refused (HTTP 401 or 403).
pub fn check_ownership_challenge(status: u16) -> (result: Result<(), AppError>)
    ensures
        (status == 401 || status == 403) ==> result is Ok,
        !(status == 401 || status == 403) ==> (result matches Err(e)
            && is_error(e, ErrorKind::Engine, "the loopback endpoint did not enforce the session ownership token"@)),
{
    if status == 401 || status == 403 {
        Ok(())
    } else {
        Err(AppError::Engine("the loopback endpoint did not enforce the session ownership token".to_owned()))
    }
}

/// The identity probe must succeed.
pub fn check_identity_status(success: bool, status_text: &str) -> (result: Result<(), AppError>)
    ensures
        success ==> result is Ok,
        !success ==> (result matches Err(e) && is_error(e, ErrorKind::Engine, "llama.cpp identity probe returned HTTP "@ + status_text@)),
{
    if success {
        Ok(())
    } else {
        Err(AppError::Engine(cat("llama.cpp identity probe returned HTTP ", status_text)))
    }
}

/// An exit code as `{:?}` shows an `Option<i32>`.
pub open spec fn exit_code_text(code: Option<i32>) -> Seq<char> {
    match code {
        None => "None"@,
        Some(c) => if c < 0 {
            "Some(-"@ + decimal_chars((-c) as nat) + ")"@
        } else {
            "Some("@ + decimal_chars(c as nat) + ")"@
        },
    }
}

fn exit_code_string(exit_code: Option<i32>) -> (text: String)
    ensures
        text@ == exit_code_text(exit_code),
{
    match exit_code {
        None => "None".to_owned(),
        Some(c) => {
            let negative = c < 0;
            let magnitude: u64 = if c == i32::MIN { 2147483648 } else if negative { (-c) as u64 } else { c as u64 };
            let mut text = if negative { "Some(-".to_owned() } else { "Some(".to_owned() };
            text.append(decimal_string(magnitude).as_str());
            text.append(")");
            text
        },
    }
}

/// The detail of a process that ended during startup: its exit code and its last captured
/// line.
pub open spec fn startup_exit_detail(exit_code: Option<i32>, last_log: Option<Seq<char>>) -> Seq<char> {
    "llama.cpp exited during startup with "@ + exit_code_text(exit_code) + ": "@ + match last_log {
        Some(l) => l,
        None => "no diagnostic output was captured"@,
    }
}

/// The failure when the process ended during startup: its exit code and its last captured
/// line.
pub fn startup_exit_error(exit_code: Option<i32>, last_log: Option<&str>) -> (error: AppError)
    ensures
        is_error(error, ErrorKind::Engine, startup_exit_detail(exit_code, match last_log {
            Some(l) => Some(l@),
            None => None,
        })),
{
    let mut text = cat("llama.cpp exited during startup with ", exit_code_string(exit_code).as_str());
    text.append(": ");
    match last_log {
        Some(l) => text.append(l),
        None => text.append("no diagnostic output was captured"),
    }
    AppError::Engine(text)
}

/// One look at the server process while its session starts: it must still be known and must
/// not have ended.
pub fn check_startup_process(state: Option<EngineLifecycle>, exit_code: Option<i32>, last_log: Option<&str>) -> (result: Result<(), AppError>)
    ensures
        state is None ==> (result matches Err(e) && is_error(e, ErrorKind::Engine, "the llama.cpp process disappeared"@)),
        state matches Some(s) && s.is_terminal_spec() ==> (result matches Err(e) && is_error(e, ErrorKind::Engine,
            startup_exit_detail(exit_code, match last_log {
                Some(l) => Some(l@),
                None => None,
            }))),
        state matches Some(s) && !s.is_terminal_spec() ==> result is Ok,
{
    match state {
        None => Err(AppError::Engine("the llama.cpp process disappeared".to_owned())),
        Some(s) => if s.is_terminal() {
            Err(startup_exit_error(exit_code, last_log))
        } else {
            Ok(())
        },
    }
}

/// The adapter starts a session only once its executable was prepared, and never over a
/// session whose process is still running.
pub fn check_adapter_start(prepared: bool, session_state: Option<EngineLifecycle>) -> (result: Result<(), AppError>)
    ensures
        !prepared ==> (result matches Err(e) && is_error(e, ErrorKind::Engine, "llama.cpp must be prepared before it can start"@)),
        prepared && (session_state matches Some(s) && !s.is_terminal_spec()) ==> (result matches Err(e)
            && is_error(e, ErrorKind::Engine, "a llama.cpp model session is already active"@)),
        prepared && !(session_state matches Some(s) && !s.is_terminal_spec()) ==> result is Ok,
{
    if !prepared {
        return Err(AppError::Engine("llama.cpp must be prepared before it can start".to_owned()));
    }
    if has_active_session(session_state) {
        return Err(AppError::Engine("a llama.cpp model session is already active".to_owned()));
    }
    Ok(())
}

/// The runtime loads models only with a verified llama.cpp package on the CPU route.
pub fn check_runtime_package(record: &crate::packages::EnginePackageRecord) -> (result: Result<(), AppError>)
    ensures
        (record.state == crate::packages::EnginePackageState::Ready && record.engine_id@ == "llama.cpp"@ && record.route@ == "cpu"@)
            ==> result is Ok,
        !(record.state == crate::packages::EnginePackageState::Ready && record.engine_id@ == "llama.cpp"@ && record.route@ == "cpu"@)
            ==> (result matches Err(e) && is_error(e, ErrorKind::Engine, "the verified llama.cpp CPU package is not ready"@)),
{
    if !crate::packages::package_ready_for_runtime(record) {
        return Err(AppError::Engine("the verified llama.cpp CPU package is not ready".to_owned()));
    }
    Ok(())
}

/// A generation needs a held session whose process is ready and no other generation running.
pub fn check_generation_start(has_session: bool, process_state: Option<EngineLifecycle>, active_jobs: usize) -> (result: Result<(), AppError>)
    ensures
        !has_session ==> (result matches Err(e) && is_error(e, ErrorKind::Engine, "there is no loaded llama.cpp model"@)),
        has_session && process_state is None ==> (result matches Err(e) && is_error(e, ErrorKind::Engine, "the llama.cpp process is unavailable"@)),
        has_session && (process_state matches Some(s) && s != EngineLifecycle::Ready) ==> (result matches Err(e)
            && is_error(e, ErrorKind::Engine, "the llama.cpp model session is not ready"@)),
        has_session && process_state == Some(EngineLifecycle::Ready) && active_jobs > 0 ==> (result matches Err(e)
            && is_error(e, ErrorKind::Engine, "another chat generation is already active"@)),
        has_session && process_state == Some(EngineLifecycle::Ready) && active_jobs == 0 ==> result is Ok,
{
    if !has_session {
        return Err(AppError::Engine("there is no loaded llama.cpp model".to_owned()));
    }
    match process_state {
        None => Err(AppError::Engine("the llama.cpp process is unavailable".to_owned())),
        Some(s) => {
            if s != EngineLifecycle::Ready {
                return Err(AppError::Engine("the llama.cpp model session is not ready".to_owned()));
            }
            if active_jobs > 0 {
                return Err(AppError::Engine("another chat generation is already active".to_owned()));
            }
            Ok(())
        },
    }
}

/// Stopping acts only on a process that is known and still running.
pub fn process_needs_stop(process_state: Option<EngineLifecycle>) -> (needed: bool)
    ensures
        needed == (process_state matches Some(s) && !s.is_terminal_spec()),
{
    match process_state {
        Some(s) => !s.is_terminal(),
        None => false,
    }
}

/// Why a generation may not start, checked in order: the request (job ID, output tokens),
/// then the session, its process and its readiness, then the generation already running.
pub open spec fn generation_refusal(
    job_id: Seq<char>,
    max_output_tokens: u32,
    has_session: bool,
    process_state: Option<EngineLifecycle>,
    running: Option<Seq<char>>,
) -> Option<Seq<char>> {
    if all_whitespace(job_id) || utf8_len(job_id) > 128 {
        Some("the chat job ID is invalid"@)
    } else if !(1 <= max_output_tokens <= 4096) {
        Some("maximum output tokens must be between 1 and 4096"@)
    } else if !has_session {
        Some("there is no loaded llama.cpp model"@)
    } else {
        match process_state {
            None => Some("the llama.cpp process is unavailable"@),
            Some(s) => if s != EngineLifecycle::Ready {
                Some("the llama.cpp model session is not ready"@)
            } else if running is Some {
                Some("another chat generation is already active"@)
            } else {
                None
            },
        }
    }
}

/// The generation a session is running, if any; a session runs at most one at a time.
pub struct GenerationJobs {
    running: Option<String>,
}

impl View for GenerationJobs {
    type V = Option<Seq<char>>;

    closed spec fn view(&self) -> Option<Seq<char>> {
        match self.running {
            Some(j) => Some(j@),
            None => None,
        }
    }
}

impl GenerationJobs {
    pub fn new() -> (jobs: GenerationJobs)
        ensures
            jobs@ is None,
    {
        GenerationJobs { running: None }
    }

    /// How many generations are running: never more than one.
    pub fn active_count(&self) -> (count: usize)
        ensures
            count == if self@ is Some { 1usize } else { 0usize },
            count <= 1,
    {
        if self.running.is_some() { 1 } else { 0 }
    }

    /// Whether `job_id` is the running generation.
    pub fn is_active(&self, job_id: &str) -> (active: bool)
        ensures
            active == (self@ == Some(job_id@)),
    {
        match &self.running {
            Some(j) => str_eq(j.as_str(), job_id),
            None => false,
        }
    }

    /// Registers `job_id` as the running generation, or refuses it as `generation_refusal`
    /// says and leaves the registry as it was.
    pub fn begin(
        &mut self,
        job_id: &str,
        max_output_tokens: u32,
        has_session: bool,
        process_state: Option<EngineLifecycle>,
    ) -> (result: Result<(), AppError>)
        ensures
            match generation_refusal(job_id@, max_output_tokens, has_session, process_state, old(self)@) {
                Some(detail) => (result matches Err(e) && is_error(e, ErrorKind::Engine, detail)) && final(self)@ == old(self)@,
                None => result is Ok && final(self)@ == Some(job_id@),
            },
    {
        if let Err(e) = validate_chat_request(job_id, max_output_tokens) {
            return Err(e);
        }
        if let Err(e) = check_generation_start(has_session, process_state, self.active_count()) {
            return Err(e);
        }
        self.running = Some(job_id.to_owned());
        Ok(())
    }

    /// Ends `job_id` if it is the running generation; reports whether it was.
    pub fn end(&mut self, job_id: &str) -> (ended: bool)
        ensures
            ended == (old(self)@ == Some(job_id@)),
            ended ==> final(self)@ is None,
            !ended ==> final(self)@ == old(self)@,
    {
        if self.is_active(job_id) {
            self.running = None;
            true
        } else {
            false
        }
    }
}

/// While a generation runs, no other may start: whatever the request and the session,
/// `begin` refuses it.
pub proof fn law_one_generation_at_a_time(
    job_id: Seq<char>,
    max_output_tokens: u32,
    has_session: bool,
    process_state: Option<EngineLifecycle>,
    running: Seq<char>,
)
    ensures
        generation_refusal(job_id, max_output_tokens, has_session, process_state, Some(running)) is Some,
{
}

/// The failure of cancelling a generation: unknown, or already finished.
pub fn cancel_error(job_id: &str, known: bool) -> (error: AppError)
    ensures
        known ==> is_error(error, ErrorKind::Engine, "chat job "@ + job_id@ + " already finished"@),
        !known ==> is_error(error, ErrorKind::Engine, "chat job "@ + job_id@ + " is not active"@),
{
    let mut text = cat("chat job ", job_id);
    if known {
        text.append(" already finished");
    } else {
        text.append(" is not active");
    }
    AppError::Engine(text)
}

/// The loopback ports tried for one session start.
pub struct StartAttempts {
    pub attempts: usize,
    pub last_bind_error: Option<AppError>,
}

impl StartAttempts {
    pub fn new() -> (attempts: StartAttempts)
        ensures
            attempts.attempts == 0,
            attempts.last_bind_error is None,
    {
        StartAttempts { attempts: 0, last_bind_error: None }
    }

    /// Another port may be tried while fewer than three were.
    pub fn may_try(&self) -> (more: bool)
        ensures
            more == (self.attempts < MAX_PORT_ATTEMPTS),
    {
        self.attempts < MAX_PORT_ATTEMPTS
    }

    /// After a failed attempt: a failure to bind the port is kept and the next port may be
    /// tried; any other failure ends the start with that failure.
    pub fn record_failure(&mut self, error: AppError, bind_failed: bool) -> (result: Result<(), AppError>)
        requires
            old(self).attempts < MAX_PORT_ATTEMPTS,
        ensures
            final(self).attempts == old(self).attempts + 1,
            bind_failed ==> result is Ok && final(self).last_bind_error == Some(error),
            !bind_failed ==> result == Err::<(), AppError>(error) && final(self).last_bind_error == old(self).last_bind_error,
    {
        self.attempts = self.attempts + 1;
        if bind_failed {
            self.last_bind_error = Some(error);
            Ok(())
        } else {
            Err(error)
        }
    }

    /// When no port is left: the last bind failure, or that no port could be claimed.
    pub fn exhausted(self) -> (error: AppError)
        ensures
            match self.last_bind_error {
                Some(e) => error == e,
                None => is_error(error, ErrorKind::Engine, "llama.cpp could not claim a reserved loopback port"@),
            },
    {
        match self.last_bind_error {
            Some(e) => e,
            None => AppError::Engine("llama.cpp could not claim a reserved loopback port".to_owned()),
        }
    }
}

} // verus!
