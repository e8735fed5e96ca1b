//! Prompt documents: the size limits, the YAML front matter split and its event checks,
//! metadata strings and lists, names, file stems, versions and token estimates.
use vstd::prelude::*;
use crate::engines::utf8_len;
use crate::errors::{is_error, AppError, ErrorKind};
use crate::text::{
    all_whitespace, cat, char_count, chars_of, decimal_chars, decimal_string, is_blank,
    str_eq, string_of, trim, trim_spec,
};
use vstd::string::StringExecFns;
use vstd::string::StringSliceAdditionalSpecFns;
use saphyr_parser::{Event, Parser};
use vstd::utf8::encode_utf8;

verus! {

pub const MAX_PROMPT_BYTES: usize = 1048576;
pub const MAX_FRONT_MATTER_BYTES: usize = 65536;
pub const MAX_YAML_DEPTH: usize = 16;
pub const MAX_YAML_EVENTS: usize = 2048;
pub const MAX_METADATA_KEYS: usize = 64;
pub const MAX_LIST_ITEMS: usize = 32;

fn invalid_prompt(text: &str) -> (e: AppError)
    ensures
        is_error(e, ErrorKind::InvalidPrompt, text@),
{
    AppError::InvalidPrompt(text.to_owned())
}

// ---------------------------------------------------------------------------------------------
// Front matter
/// A line without its line feed and then without a carriage return.
pub open spec fn document_line_spec(line: Seq<char>) -> Seq<char> {
    let a = if line.len() > 0 && line.last() == '\n' { line.drop_last() } else { line };
    if a.len() > 0 && a.last() == '\r' { a.drop_last() } else { a }
}

/// The characters `---`.
pub open spec fn delimiter() -> Seq<char> {
    seq!['-', '-', '-']
}

/// A line's text without its line ending.
pub fn document_line(line: &str) -> (text: String)
    ensures
        text@ == document_line_spec(line@),
{
    let chars = chars_of(line);
    let mut end = chars.len();
    if end > 0 && chars[end - 1] == '\n' {
        end -= 1;
    }
    if end > 0 && chars[end - 1] == '\r' {
        end -= 1;
    }
    proof {
        let a = if line@.len() > 0 && line@.last() == '\n' { line@.drop_last() } else { line@ };
        assert(a =~= line@.subrange(0, a.len() as int));
    }
    string_of(&chars, 0, end)
}

/// Index of the first line feed, or -1.
pub open spec fn first_newline(s: Seq<char>) -> int
    decreases s.len(),
{
    if s.len() == 0 {
        -1
    } else if s[0] == '\n' {
        0
    } else if first_newline(s.drop_first()) < 0 {
        -1
    } else {
        first_newline(s.drop_first()) + 1
    }
}

/// The first line of a text with its line feed, or the whole text when it has none.
pub open spec fn first_line(s: Seq<char>) -> Seq<char> {
    if first_newline(s) < 0 { s } else { s.subrange(0, first_newline(s) + 1) }
}

pub proof fn lemma_first_newline(s: Seq<char>)
    ensures
        -1 <= first_newline(s) < s.len(),
        first_newline(s) >= 0 ==> s[first_newline(s)] == '\n',
        forall|i: int| 0 <= i < s.len() && (first_newline(s) < 0 || i < first_newline(s)) ==> s[i] != '\n',
    decreases s.len(),
{
    if s.len() > 0 && s[0] != '\n' {
        lemma_first_newline(s.drop_first());
        assert forall|i: int| 0 <= i < s.len() && (first_newline(s) < 0 || i < first_newline(s)) implies s[i] != '\n' by {
            if i > 0 {
                assert(s[i] == s.drop_first()[i - 1]);
            }
        }
    }
}

/// Why a front matter split failed.
#[derive(Debug, Clone, Copy, PartialEq, Eq, Structural)]
pub enum SplitError {
    MissingClosing,
    TooLarge,
}

/// Looks for the closing `---` line in `rest`, with `consumed` the front matter read so far:
/// the front matter and the content after the closing line, or why there is none.
pub open spec fn scan_closing(rest: Seq<char>, consumed: Seq<char>) -> Result<(Seq<char>, Seq<char>), SplitError>
    decreases rest.len(),
{
    if rest.len() == 0 {
        Err(SplitError::MissingClosing)
    } else {
        proof {
            lemma_first_newline(rest);
        }
        let line = first_line(rest);
        if utf8_len(consumed) > MAX_FRONT_MATTER_BYTES {
            Err(SplitError::TooLarge)
        } else if document_line_spec(line) == delimiter() {
            Ok((consumed, rest.skip(line.len() as int)))
        } else if line.len() == 0 {
            Err(SplitError::MissingClosing)
        } else {
            scan_closing(rest.skip(line.len() as int), consumed + line)
        }
    }
}

/// A document's YAML front matter, if it opens with a `---` line, and its content: the text
/// between that line and the next `---` line is the front matter (at most 64 KiB), and what
/// follows is the content. A document of one `---` line, or an opened front matter that is
/// never closed, is refused.
pub open spec fn split_front_matter_spec(document: Seq<char>) -> Result<(Option<Seq<char>>, Seq<char>), SplitError> {
    if first_newline(document) < 0 {
        if document_line_spec(document) == delimiter() { Err(SplitError::MissingClosing) } else { Ok((None, document)) }
    } else {
        let head = first_line(document);
        if document_line_spec(head) != delimiter() {
            Ok((None, document))
        } else {
            match scan_closing(document.skip(head.len() as int), Seq::empty()) {
                Ok((front, content)) => Ok((Some(front), content)),
                Err(e) => Err(e),
            }
        }
    }
}

pub open spec fn split_error_text(e: SplitError) -> Seq<char> {
    match e {
        SplitError::MissingClosing => "the YAML front matter is missing its closing delimiter"@,
        SplitError::TooLarge => "YAML front matter exceeds the 65536-byte limit"@,
    }
}

fn is_delimiter(line: &Vec<char>, from: usize, to: usize) -> (result: bool)
    requires
        from <= to <= line@.len(),
    ensures
        result == (document_line_spec(line@.subrange(from as int, to as int)) == delimiter()),
{
    let text = string_of(line, from, to);
    let t = document_line(text.as_str());
    let c = chars_of(t.as_str());
    let d = vec!['-', '-', '-'];
    assert(d@ =~= delimiter());
    crate::text::chars_eq(&c, &d)
}

fn find_newline(chars: &Vec<char>, from: usize) -> (index: Option<usize>)
    requires
        from <= chars@.len(),
    ensures
        ({
            let rest = chars@.skip(from as int);
            match index {
                Some(i) => from <= i < chars@.len() && first_newline(rest) == i - from,
                None => first_newline(rest) == -1,
            }
        }),
{
    proof {
        lemma_first_newline(chars@.skip(from as int));
    }
    let mut i = from;
    while i < chars.len() && chars[i] != '\n'
        invariant
            from <= i <= chars@.len(),
            forall|k: int| from <= k < i ==> chars@[k] != '\n',
        decreases chars@.len() - i,
    {
        i += 1;
    }
    let ghost rest = chars@.skip(from as int);
    proof {
        lemma_first_newline(rest);
        let f = first_newline(rest);
        if i < chars@.len() {
            assert(rest[i - from] == '\n');
            if f >= 0 && f < i - from {
                assert(rest[f] == chars@[from + f]);
            }
            if f < 0 || f > i - from {
                assert(rest[i - from] != '\n');
            }
        } else {
            if f >= 0 {
                assert(rest[f] == chars@[from + f]);
            }
        }
    }
    if i < chars.len() { Some(i) } else { None }
}

/// Splits a document into its front matter, if any, and its content (see
/// `split_front_matter_spec`).
pub fn split_front_matter(document: &str) -> (result: Result<(Option<String>, String), AppError>)
    ensures
        match (result, split_front_matter_spec(document@)) {
            (Ok((Some(f), c)), Ok((Some(g), d))) => f@ == g && c@ == d,
            (Ok((None, c)), Ok((None, d))) => c@ == d,
            (Err(e), Err(s)) => is_error(e, ErrorKind::InvalidPrompt, split_error_text(s)),
            _ => false,
        },
{
    let chars = chars_of(document);
    let n = chars.len();
    assert(chars@.skip(0) =~= chars@);
    let first_end = match find_newline(&chars, 0) {
        None => {
            if is_delimiter(&chars, 0, n) {
                assert(chars@.subrange(0, n as int) =~= chars@);
                return Err(invalid_prompt("the YAML front matter is missing its closing delimiter"));
            }
            assert(chars@.subrange(0, n as int) =~= chars@);
            return Ok((None, document.to_owned()));
        },
        Some(i) => i + 1,
    };
    if !is_delimiter(&chars, 0, first_end) {
        return Ok((None, document.to_owned()));
    }
    let mut consumed = String::new();
    let mut offset = first_end;
    proof {
        lemma_first_newline(document@);
        assert(first_line(document@) =~= chars@.subrange(0, first_end as int));
        assert(document@.skip(first_line(document@).len() as int) =~= chars@.skip(first_end as int));
        assert(consumed@ =~= chars@.subrange(first_end as int, first_end as int));
    }
    while offset < n
        invariant
            chars@ == document@,
            n == chars@.len(),
            first_end <= offset <= n,
            consumed@ == chars@.subrange(first_end as int, offset as int),
            split_front_matter_spec(document@) == match scan_closing(chars@.skip(offset as int), consumed@) {
                Ok((f, c)) => Ok((Some(f), c)),
                Err(e) => Err(e),
            },
        decreases n - offset,
    {
        let ghost rest = chars@.skip(offset as int);
        let line_end = match find_newline(&chars, offset) {
            Some(i) => i + 1,
            None => n,
        };
        proof {
            lemma_first_newline(rest);
            assert(first_line(rest) =~= chars@.subrange(offset as int, line_end as int));
        }
        if consumed.as_str().len() > MAX_FRONT_MATTER_BYTES {
            return Err(invalid_prompt("YAML front matter exceeds the 65536-byte limit"));
        }
        if is_delimiter(&chars, offset, line_end) {
            assert(rest.skip(line_end - offset) =~= chars@.skip(line_end as int));
            let front = consumed;
            let content = string_of(&chars, line_end, n);
            assert(chars@.skip(line_end as int) =~= chars@.subrange(line_end as int, n as int));
            return Ok((Some(front), content));
        }
        let piece = string_of(&chars, offset, line_end);
        consumed.append(piece.as_str());
        proof {
            assert(rest.skip(line_end - offset) =~= chars@.skip(line_end as int));
            assert(consumed@ =~= chars@.subrange(first_end as int, line_end as int));
        }
        offset = line_end;
    }
    assert(chars@.skip(n as int) =~= Seq::<char>::empty());
    Err(invalid_prompt("the YAML front matter is missing its closing delimiter"))
}

/// A document after its byte-order mark is removed.
pub open spec fn without_bom(document: Seq<char>) -> Seq<char> {
    if document.len() > 0 && document[0] == '\u{feff}' { document.drop_first() } else { document }
}

/// A prompt document split for parsing: the document without its byte-order mark, its front
/// matter, if any, and its content.
#[derive(Debug, Clone)]
pub struct FramedDocument {
    pub raw_document: String,
    pub front_matter: Option<String>,
    pub content: String,
}

/// The framing checks of a prompt document, the first failure reported: at most 1 MiB once
/// its byte-order mark is removed, a well-formed front matter, and content that is not blank.
pub open spec fn frame_check(document: Seq<char>) -> Result<(Seq<char>, Option<Seq<char>>, Seq<char>), Seq<char>> {
    let raw = without_bom(document);
    if utf8_len(raw) > MAX_PROMPT_BYTES {
        Err("the document exceeds the 1048576-byte limit"@)
    } else {
        match split_front_matter_spec(raw) {
            Err(e) => Err(split_error_text(e)),
            Ok((front, content)) => if all_whitespace(content) {
                Err("the prompt content cannot be empty"@)
            } else {
                Ok((raw, front, content))
            },
        }
    }
}

pub fn frame_prompt_document(document: &str) -> (result: Result<FramedDocument, AppError>)
    ensures
        match (result, frame_check(document@)) {
            (Ok(f), Ok((raw, front, content))) => f.raw_document@ == raw && f.content@ == content && match (f.front_matter, front) {
                (Some(x), Some(y)) => x@ == y,
                (None, None) => true,
                _ => false,
            },
            (Err(e), Err(d)) => is_error(e, ErrorKind::InvalidPrompt, d),
            _ => false,
        },
{
    let chars = chars_of(document);
    let start: usize = if chars.len() > 0 && chars[0] == '\u{feff}' { 1 } else { 0 };
    let raw = string_of(&chars, start, chars.len());
    proof {
        assert(without_bom(document@) =~= document@.subrange(start as int, chars@.len() as int));
    }
    if raw.as_str().len() > MAX_PROMPT_BYTES {
        return Err(invalid_prompt("the document exceeds the 1048576-byte limit"));
    }
    let (front_matter, content) = match split_front_matter(raw.as_str()) {
        Ok(parts) => parts,
        Err(e) => return Err(e),
    };
    if is_blank(content.as_str()) {
        return Err(invalid_prompt("the prompt content cannot be empty"));
    }
    Ok(FramedDocument { raw_document: raw, front_matter, content })
}

// ---------------------------------------------------------------------------------------------
// YAML events
/// One event of the YAML parser, with what the checks read: the anchor number (0 for none)
/// and whether a tag is attached. Scalar values are not kept.
#[derive(Debug, Clone, Copy, PartialEq, Eq, Structural)]
pub enum YamlEvent {
    DocumentStart,
    Alias,
    Scalar(usize, bool),
    SequenceStart(usize, bool),
    SequenceEnd,
    MappingStart(usize, bool),
    MappingEnd,
    /// Document end, stream start and end (and the parser's internal `Nothing`): events the
    /// checks pass over.
    Other,
}

/// What `Parser::new_from_str` yields for a text, at most `limit` items: the
/// events before the first failure, and the failure's text if one came.
pub uninterp spec fn yaml_event_stream(text: Seq<char>, limit: usize) -> (Seq<YamlEvent>, Option<Seq<char>>);

/// Runs `Parser::new_from_str` over a text for at most `limit` items, keeping
/// each event's kind, anchor and tag presence, and stopping at the first scan error.
/// Claims that the outcome is a function of the text and the limit, named
/// `yaml_event_stream`, and that at most `limit` events come back.
#[verifier::external_body]
fn yaml_events(text: &str, limit: usize) -> (result: (Vec<YamlEvent>, Option<String>))
    ensures
        result.0@ == yaml_event_stream(text@, limit).0,
        match (result.1, yaml_event_stream(text@, limit).1) {
            (Some(e), Some(d)) => e@ == d,
            (None, None) => true,
            _ => false,
        },
        result.0@.len() <= limit,
{
    let mut events = Vec::new();
    for item in Parser::new_from_str(text).take(limit) {
        let event = match item { Ok((event, _)) => event, Err(error) => return (events, Some(error.to_string())) };
        events.push(match event {
            Event::DocumentStart(_) => YamlEvent::DocumentStart,
            Event::Alias(_) => YamlEvent::Alias,
            Event::Scalar(_, _, anchor, tag) => YamlEvent::Scalar(anchor, tag.is_some()),
            Event::SequenceStart(anchor, tag) => YamlEvent::SequenceStart(anchor, tag.is_some()),
            Event::MappingStart(anchor, tag) => YamlEvent::MappingStart(anchor, tag.is_some()),
            Event::SequenceEnd => YamlEvent::SequenceEnd,
            Event::MappingEnd => YamlEvent::MappingEnd,
            _ => YamlEvent::Other,
        });
    }
    (events, None)
}

/// The checks on one event with the nesting depth and document count so far: the new depth
/// and count, or the refusal.
pub open spec fn yaml_event_step(depth: nat, documents: nat, event: YamlEvent) -> Result<(nat, nat), Seq<char>> {
    match event {
        YamlEvent::DocumentStart => if documents + 1 > 1 {
            Err("multiple YAML documents are not accepted"@)
        } else {
            Ok((depth, documents + 1))
        },
        YamlEvent::Alias => Err("YAML aliases are not accepted"@),
        YamlEvent::Scalar(anchor, tagged) => if anchor != 0 {
            Err("YAML anchors are not accepted"@)
        } else if tagged {
            Err("custom YAML tags are not accepted"@)
        } else {
            Ok((depth, documents))
        },
        YamlEvent::SequenceStart(anchor, tagged) | YamlEvent::MappingStart(anchor, tagged) => if anchor != 0 {
            Err("YAML anchors are not accepted"@)
        } else if tagged {
            Err("custom YAML tags are not accepted"@)
        } else if depth + 1 > MAX_YAML_DEPTH {
            Err("YAML nesting exceeds the 16-level limit"@)
        } else {
            Ok((depth + 1, documents))
        },
        YamlEvent::SequenceEnd | YamlEvent::MappingEnd => Ok((if depth > 0 { (depth - 1) as nat } else { 0 }, documents)),
        YamlEvent::Other => Ok((depth, documents)),
    }
}

/// The checks on the events in order, each event first counted against the 2048-event limit.
pub open spec fn yaml_events_check(events: Seq<YamlEvent>) -> Result<(nat, nat), Seq<char>>
    decreases events.len(),
{
    if events.len() == 0 {
        Ok((0, 0))
    } else {
        match yaml_events_check(events.drop_last()) {
            Err(d) => Err(d),
            Ok((depth, documents)) => if events.len() > MAX_YAML_EVENTS {
                Err("YAML front matter exceeds the 2048-event limit"@)
            } else {
                yaml_event_step(depth, documents, events.last())
            },
        }
    }
}

/// The front matter's events pass the checks: no more than 2048 events, one document, no
/// aliases, anchors or tags, at most 16 levels of nesting, and no scan error.
pub open spec fn yaml_front_matter_check(yaml: Seq<char>) -> Result<(), Seq<char>> {
    let (events, failure) = yaml_event_stream(yaml, (MAX_YAML_EVENTS + 1) as usize);
    match yaml_events_check(events) {
        Err(d) => Err(d),
        Ok(_) => match failure {
            Some(f) => Err("YAML front matter is invalid: "@ + f),
            None => Ok(()),
        },
    }
}

proof fn lemma_yaml_check_error_sticks(events: Seq<YamlEvent>, k: int)
    requires
        0 <= k <= events.len(),
        yaml_events_check(events.subrange(0, k)) is Err,
    ensures
        yaml_events_check(events) == yaml_events_check(events.subrange(0, k)),
    decreases events.len() - k,
{
    if k == events.len() {
        assert(events.subrange(0, k) =~= events);
    } else {
        assert(events.subrange(0, k + 1).drop_last() =~= events.subrange(0, k));
        lemma_yaml_check_error_sticks(events, k + 1);
    }
}

/// Checks the YAML front matter's event stream (see `yaml_front_matter_check`).
pub fn validate_yaml_events(yaml: &str) -> (result: Result<(), AppError>)
    ensures
        match (result, yaml_front_matter_check(yaml@)) {
            (Ok(()), Ok(())) => true,
            (Err(e), Err(d)) => is_error(e, ErrorKind::InvalidPrompt, d),
            _ => false,
        },
{
    let (events, failure) = yaml_events(yaml, MAX_YAML_EVENTS + 1);
    let mut depth: usize = 0;
    let mut documents: usize = 0;
    let mut i: usize = 0;
    assert(events@.subrange(0, 0) =~= Seq::<YamlEvent>::empty());
    while i < events.len()
        invariant
            i <= events@.len(),
            events@.len() <= MAX_YAML_EVENTS + 1,
            events@ == yaml_event_stream(yaml@, (MAX_YAML_EVENTS + 1) as usize).0,
            depth <= MAX_YAML_DEPTH,
            documents <= 1,
            yaml_events_check(events@.subrange(0, i as int)) == Ok::<(nat, nat), Seq<char>>((depth as nat, documents as nat)),
        decreases events@.len() - i,
    {
        proof {
            assert(events@.subrange(0, i + 1).drop_last() =~= events@.subrange(0, i as int));
            assert(events@.subrange(0, i + 1).last() == events@[i as int]);
        }
        let ghost fail_at_next = events@.subrange(0, i + 1);
        if i + 1 > MAX_YAML_EVENTS {
            proof {
                lemma_yaml_check_error_sticks(events@, i + 1);
            }
            return Err(invalid_prompt("YAML front matter exceeds the 2048-event limit"));
        }
        let step: Result<(usize, usize), &str> = match events[i] {
            YamlEvent::DocumentStart => if documents + 1 > 1 {
                Err("multiple YAML documents are not accepted")
            } else {
                Ok((depth, documents + 1))
            },
            YamlEvent::Alias => Err("YAML aliases are not accepted"),
            YamlEvent::Scalar(anchor, tagged) => if anchor != 0 {
                Err("YAML anchors are not accepted")
            } else if tagged {
                Err("custom YAML tags are not accepted")
            } else {
                Ok((depth, documents))
            },
            YamlEvent::SequenceStart(anchor, tagged) | YamlEvent::MappingStart(anchor, tagged) => if anchor != 0 {
                Err("YAML anchors are not accepted")
            } else if tagged {
                Err("custom YAML tags are not accepted")
            } else if depth + 1 > MAX_YAML_DEPTH {
                Err("YAML nesting exceeds the 16-level limit")
            } else {
                Ok((depth + 1, documents))
            },
            YamlEvent::SequenceEnd | YamlEvent::MappingEnd => Ok((if depth > 0 { depth - 1 } else { 0 }, documents)),
            YamlEvent::Other => Ok((depth, documents)),
        };
        match step {
            Err(text) => {
                proof {
                    lemma_yaml_check_error_sticks(events@, i + 1);
                }
                return Err(invalid_prompt(text));
            },
            Ok((d, c)) => {
                depth = d;
                documents = c;
            },
        }
        i += 1;
    }
    assert(events@.subrange(0, events@.len() as int) =~= events@);
    match failure {
        Some(f) => Err(AppError::InvalidPrompt(cat("YAML front matter is invalid: ", f.as_str()))),
        None => Ok(()),
    }
}

// ---------------------------------------------------------------------------------------------
// Metadata values, names and versions
/// A metadata string, trimmed, holds 1 to `maximum` characters and no NUL.
pub open spec fn metadata_string_ok(value: Seq<char>, maximum: usize) -> bool {
    let t = trim_spec(value);
    t.len() > 0 && t.len() <= maximum && !t.contains('\0')
}

/// The trimmed metadata string, or `metadata field {field} must contain 1 to {maximum}
/// characters`.
pub fn validate_string(value: &str, field: &str, maximum: usize) -> (result: Result<String, AppError>)
    ensures
        metadata_string_ok(value@, maximum) ==> (result matches Ok(t) && t@ == trim_spec(value@)),
        !metadata_string_ok(value@, maximum) ==> (result matches Err(e) && is_error(e, ErrorKind::InvalidPrompt,
            "metadata field "@ + field@ + " must contain 1 to "@ + decimal_chars(maximum as nat) + " characters"@)),
{
    let t = trim(value);
    let n = char_count(t);
    if n == 0 || n > maximum || crate::text::contains_char(t, '\0') {
        let mut text = cat("metadata field ", field);
        text.append(" must contain 1 to ");
        text.append(decimal_string(maximum as u64).as_str());
        text.append(" characters");
        return Err(AppError::InvalidPrompt(text));
    }
    Ok(t.to_owned())
}

/// A prompt name, trimmed, holds 1 to 120 characters and no NUL.
pub fn validate_profile_name(value: &str) -> (result: Result<String, AppError>)
    ensures
        metadata_string_ok(value@, 120) ==> (result matches Ok(t) && t@ == trim_spec(value@)),
        !metadata_string_ok(value@, 120) ==> (result matches Err(e) && is_error(e, ErrorKind::InvalidPrompt, "the prompt name must contain 1 to 120 characters"@)),
{
    let t = trim(value);
    let n = char_count(t);
    if n == 0 || n > 120 || crate::text::contains_char(t, '\0') {
        return Err(invalid_prompt("the prompt name must contain 1 to 120 characters"));
    }
    Ok(t.to_owned())
}

/// The name of a copy: the source's stable name followed by ` Copy`.
pub fn copy_name(stable_name: &str) -> (name: String)
    ensures
        name@ == stable_name@ + " Copy"@,
{
    cat(stable_name, " Copy")
}

/// The file name stem of a prompt export.
pub fn safe_file_stem(value: &str) -> (stem: String)
    ensures
        stem@ == crate::conversations::safe_file_stem_spec(value@, "prompt"@),
{
    crate::conversations::safe_stem_or(value, "prompt")
}

/// The approximate token count of a prompt: a quarter of its characters, rounded up, held to
/// 32 bits.
pub open spec fn estimated_tokens_spec(content: Seq<char>) -> u32 {
    let q = (content.len() + 3) / 4;
    if q > u32::MAX { u32::MAX } else { q as u32 }
}

pub fn estimate_tokens(content: &str) -> (tokens: u32)
    ensures
        tokens == estimated_tokens_spec(content@),
{
    let n = char_count(content);
    let q = n / 4 + if n % 4 == 0 { 0 } else { 1 };
    assert(q == (n + 3) / 4);
    if q > 0xffff_ffff { 0xffff_ffff } else { q as u32 }
}

/// A prompt file read in full holds at most 1 MiB.
pub fn check_prompt_file_size(len: u64) -> (result: Result<(), AppError>)
    ensures
        len <= MAX_PROMPT_BYTES <==> result is Ok,
        result matches Err(e) ==> is_error(e, ErrorKind::InvalidPrompt, "the prompt file exceeds the 1048576-byte limit"@),
{
    if len > MAX_PROMPT_BYTES as u64 {
        return Err(invalid_prompt("the prompt file exceeds the 1048576-byte limit"));
    }
    Ok(())
}

/// The refusal of a prompt file that is not UTF-8, with the length of its valid prefix.
pub fn not_utf8_error(valid_up_to: usize) -> (e: AppError)
    ensures
        is_error(e, ErrorKind::InvalidPrompt, "the selected file is not valid UTF-8 near byte "@ + decimal_chars(valid_up_to as nat)),
{
    let mut text = "the selected file is not valid UTF-8 near byte ".to_owned();
    text.append(decimal_string(valid_up_to as u64).as_str());
    AppError::InvalidPrompt(text)
}

/// A new version may only be added on top of the latest one.
pub fn check_base_version(profile_id: &str, latest_id: &str, expected_base_id: &str) -> (result: Result<(), AppError>)
    ensures
        latest_id@ == expected_base_id@ <==> result is Ok,
        result matches Err(e) ==> is_error(e, ErrorKind::Conflict, "prompt "@ + profile_id@ + " now has a newer version"@),
{
    if !str_eq(latest_id, expected_base_id) {
        let mut text = cat("prompt ", profile_id);
        text.append(" now has a newer version");
        return Err(AppError::Conflict(text));
    }
    Ok(())
}

/// The number of the next version: one more than the latest, which must fit in 32 bits.
pub fn next_version_number(latest: i64) -> (result: Result<u32, AppError>)
    ensures
        0 <= latest + 1 <= u32::MAX ==> result == Ok::<u32, AppError>((latest + 1) as u32),
        !(0 <= latest + 1 <= u32::MAX) ==> (result matches Err(e) && is_error(e, ErrorKind::Operation, "prompt version number overflowed"@)),
{
    if latest < -1 || latest >= 0xffff_ffff {
        return Err(AppError::Operation("prompt version number overflowed".to_owned()));
    }
    Ok((latest + 1) as u32)
}

/// A stored version of a profile as the append decision reads it.
#[derive(Debug, Clone)]
pub struct StoredVersionKey {
    pub id: String,
    pub version: i64,
    pub source_hash: String,
}

/// What appending a document to a profile does: return a stored version with the same source
/// hash (by its position), or insert a new version with this number.
#[derive(Debug, Clone, Copy, PartialEq, Eq, Structural)]
pub enum AppendDecision {
    Existing(usize),
    Insert(u32),
}

/// The first stored version with this source hash.
pub open spec fn first_hash_match(versions: Seq<StoredVersionKey>, hash: Seq<char>) -> Option<int>
    decreases versions.len(),
{
    if versions.len() == 0 {
        None
    } else {
        match first_hash_match(versions.drop_last(), hash) {
            Some(i) => Some(i),
            None => if versions.last().source_hash@ == hash { Some(versions.len() - 1) } else { None },
        }
    }
}

/// Appending to a profile whose stored versions are `versions`, in version order: refused
/// when the profile is missing or deleted, when it has no version, or when its latest version
/// is not the expected base; otherwise the stored version with the same source hash, or a new
/// version numbered one past the latest.
pub open spec fn append_spec(
    profile_id: Seq<char>,
    profile_exists: bool,
    versions: Seq<StoredVersionKey>,
    expected_base_id: Seq<char>,
    source_hash: Seq<char>,
) -> Result<AppendDecision, (ErrorKind, Seq<char>)> {
    if !profile_exists {
        Err((ErrorKind::PromptNotFound, profile_id))
    } else if versions.len() == 0 {
        Err((ErrorKind::Database, "Query returned no rows"@))
    } else if versions.last().id@ != expected_base_id {
        Err((ErrorKind::Conflict, "prompt "@ + profile_id + " now has a newer version"@))
    } else {
        match first_hash_match(versions, source_hash) {
            Some(i) => Ok(AppendDecision::Existing(i as usize)),
            None => if 0 <= versions.last().version + 1 <= u32::MAX {
                Ok(AppendDecision::Insert((versions.last().version + 1) as u32))
            } else {
                Err((ErrorKind::Operation, "prompt version number overflowed"@))
            },
        }
    }
}

/// Decides an append as `append_spec` says.
pub fn decide_append(
    profile_id: &str,
    profile_exists: bool,
    versions: &Vec<StoredVersionKey>,
    expected_base_id: &str,
    source_hash: &str,
) -> (result: Result<AppendDecision, AppError>)
    ensures
        match append_spec(profile_id@, profile_exists, versions@, expected_base_id@, source_hash@) {
            Ok(d) => result == Ok::<AppendDecision, AppError>(d),
            Err((kind, detail)) => result matches Err(e) && is_error(e, kind, detail),
        },
{
    if !profile_exists {
        return Err(AppError::PromptNotFound(profile_id.to_owned()));
    }
    let n = versions.len();
    if n == 0 {
        return Err(AppError::Database("Query returned no rows".to_owned()));
    }
    if let Err(e) = check_base_version(profile_id, versions[n - 1].id.as_str(), expected_base_id) {
        return Err(e);
    }
    let mut i: usize = 0;
    while i < n
        invariant
            n == versions@.len(),
            n > 0,
            profile_exists,
            versions@.last().id@ == expected_base_id@,
            i <= n,
            first_hash_match(versions@.subrange(0, i as int), source_hash@) is None,
        decreases n - i,
    {
        proof {
            assert(versions@.subrange(0, i + 1).drop_last() =~= versions@.subrange(0, i as int));
        }
        if str_eq(versions[i].source_hash.as_str(), source_hash) {
            proof {
                assert(versions@.subrange(0, i + 1).last() == versions@[i as int]);
                assert(first_hash_match(versions@.subrange(0, i + 1), source_hash@) == Some(i as int));
                lemma_first_hash_match_prefix(versions@, source_hash@, i + 1);
            }
            return Ok(AppendDecision::Existing(i));
        }
        i += 1;
    }
    assert(versions@.subrange(0, n as int) =~= versions@);
    match next_version_number(versions[n - 1].version) {
        Ok(next) => Ok(AppendDecision::Insert(next)),
        Err(e) => Err(e),
    }
}

/// A match found in a prefix is the first match of the whole list.
proof fn lemma_first_hash_match_prefix(versions: Seq<StoredVersionKey>, hash: Seq<char>, k: int)
    requires
        0 <= k <= versions.len(),
        first_hash_match(versions.subrange(0, k), hash) is Some,
    ensures
        first_hash_match(versions, hash) == first_hash_match(versions.subrange(0, k), hash),
    decreases versions.len() - k,
{
    if k < versions.len() {
        assert(versions.subrange(0, k + 1).drop_last() =~= versions.subrange(0, k));
        assert(first_hash_match(versions.subrange(0, k + 1), hash) == first_hash_match(versions.subrange(0, k), hash));
        lemma_first_hash_match_prefix(versions, hash, k + 1);
    } else {
        assert(versions.subrange(0, k) =~= versions);
    }
}

proof fn lemma_first_hash_match_found(versions: Seq<StoredVersionKey>, hash: Seq<char>)
    ensures
        first_hash_match(versions, hash) matches Some(i) ==> 0 <= i < versions.len() && versions[i].source_hash@ == hash,
        (exists|j: int| 0 <= j < versions.len() && #[trigger] versions[j].source_hash@ == hash) ==> first_hash_match(versions, hash) is Some,
    decreases versions.len(),
{
    if versions.len() > 0 {
        let rest = versions.drop_last();
        lemma_first_hash_match_found(rest, hash);
        if exists|j: int| 0 <= j < versions.len() && #[trigger] versions[j].source_hash@ == hash {
            let j = choose|j: int| 0 <= j < versions.len() && #[trigger] versions[j].source_hash@ == hash;
            if j < versions.len() - 1 {
                assert(rest[j] == versions[j]);
            }
        }
    }
}

/// A save on a base that is no longer the latest version is refused, and nothing is decided.
pub proof fn law_stale_base_is_refused(
    profile_id: Seq<char>,
    versions: Seq<StoredVersionKey>,
    expected_base_id: Seq<char>,
    source_hash: Seq<char>,
)
    requires
        versions.len() > 0,
        versions.last().id@ != expected_base_id,
    ensures
        append_spec(profile_id, true, versions, expected_base_id, source_hash)
            == Err::<AppendDecision, (ErrorKind, Seq<char>)>((ErrorKind::Conflict, "prompt "@ + profile_id + " now has a newer version"@)),
{
}

/// When the stored versions are numbered in increasing order, a new version is numbered above
/// every one of them, so no stored version is replaced; and a returned version is one whose
/// source hash is the document's.
pub proof fn law_append_never_rewrites_a_version(
    profile_id: Seq<char>,
    versions: Seq<StoredVersionKey>,
    expected_base_id: Seq<char>,
    source_hash: Seq<char>,
)
    requires
        versions.len() <= usize::MAX,
        forall|a: int, b: int| 0 <= a < b < versions.len() ==> #[trigger] versions[a].version < #[trigger] versions[b].version,
    ensures
        match append_spec(profile_id, true, versions, expected_base_id, source_hash) {
            Ok(AppendDecision::Insert(n)) => forall|i: int| 0 <= i < versions.len() ==> #[trigger] versions[i].version < n,
            Ok(AppendDecision::Existing(i)) => i < versions.len() && versions[i as int].source_hash@ == source_hash,
            Err(_) => true,
        },
{
    lemma_first_hash_match_found(versions, source_hash);
    if versions.len() > 0 {
        assert forall|i: int| 0 <= i < versions.len() implies #[trigger] versions[i].version <= versions.last().version by {
            if i < versions.len() - 1 {
                assert(versions[i].version < versions[versions.len() - 1].version);
            }
        }
    }
}

/// Appending the same document again, on the version that the first append stored, returns
/// that stored version instead of adding one.
pub proof fn law_reappend_is_idempotent(
    profile_id: Seq<char>,
    versions: Seq<StoredVersionKey>,
    added: StoredVersionKey,
)
    requires
        versions.len() < usize::MAX,
    ensures
        append_spec(profile_id, true, versions.push(added), added.id@, added.source_hash@) matches Ok(AppendDecision::Existing(i))
            && versions.push(added)[i as int].source_hash@ == added.source_hash@,
{
    let all = versions.push(added);
    assert(all[all.len() - 1].source_hash@ == added.source_hash@);
    lemma_first_hash_match_found(all, added.source_hash@);
}

/// The stable name a profile takes: the given one, else the metadata name, else
/// `Untitled Prompt`.
pub fn stable_name_for(given: Option<String>, metadata_name: Option<String>) -> (name: String)
    ensures
        name@ == match given {
            Some(g) => g@,
            None => match metadata_name {
                Some(m) => m@,
                None => "Untitled Prompt"@,
            },
        },
{
    match given {
        Some(g) => g,
        None => match metadata_name {
            Some(m) => m,
            None => "Untitled Prompt".to_owned(),
        },
    }
}

// ---------------------------------------------------------------------------------------------
// Known metadata fields
/// A top-level front matter value as the metadata rules read it.
#[derive(Debug, Clone)]
pub enum FieldValue {
    Text(String),
    /// A number: its JSON rendering, its value when it is a whole number that fits `u64`, and
    /// the bits of its value as an `f64`.
    Number { text: String, whole: Option<u64>, real_bits: u64 },
    /// A list, with the text of each item that is a string and `None` for any other item.
    List(Vec<Option<String>>),
    /// A null, a boolean or a mapping.
    Other,
}

/// The value of the first entry named `key`.
pub open spec fn field_of(fields: Seq<(String, FieldValue)>, key: Seq<char>) -> Option<FieldValue>
    decreases fields.len(),
{
    if fields.len() == 0 {
        None
    } else if fields[0].0@ == key {
        Some(fields[0].1)
    } else {
        field_of(fields.drop_first(), key)
    }
}

pub open spec fn field_message(key: Seq<char>, tail: Seq<char>) -> Seq<char> {
    "metadata field "@ + key + tail
}

pub open spec fn length_message(key: Seq<char>, maximum: usize) -> Seq<char> {
    "metadata field "@ + key + " must contain 1 to "@ + decimal_chars(maximum as nat) + " characters"@
}

/// A metadata string, trimmed, or the length refusal.
pub open spec fn text_value(s: Seq<char>, key: Seq<char>, maximum: usize) -> Result<Option<Seq<char>>, Seq<char>> {
    if metadata_string_ok(s, maximum) { Ok(Some(trim_spec(s))) } else { Err(length_message(key, maximum)) }
}

pub open spec fn string_field_spec(v: Option<FieldValue>, key: Seq<char>, maximum: usize) -> Result<Option<Seq<char>>, Seq<char>> {
    match v {
        None => Ok(None),
        Some(FieldValue::Text(s)) => text_value(s@, key, maximum),
        Some(_) => Err(field_message(key, " must be a string"@)),
    }
}

pub open spec fn string_or_number_field_spec(v: Option<FieldValue>, key: Seq<char>, maximum: usize) -> Result<Option<Seq<char>>, Seq<char>> {
    match v {
        None => Ok(None),
        Some(FieldValue::Text(s)) => text_value(s@, key, maximum),
        Some(FieldValue::Number { text, .. }) => text_value(text@, key, maximum),
        Some(_) => Err(field_message(key, " must be a string or number"@)),
    }
}

/// The trimmed items of a list in order, or the refusal of its first bad item.
pub open spec fn list_items_spec(items: Seq<Option<String>>, key: Seq<char>, maximum: usize) -> Result<Seq<Seq<char>>, Seq<char>>
    decreases items.len(),
{
    if items.len() == 0 {
        Ok(Seq::empty())
    } else {
        match list_items_spec(items.drop_last(), key, maximum) {
            Err(e) => Err(e),
            Ok(previous) => match items.last() {
                None => Err(field_message(key, " must contain only strings"@)),
                Some(s) => if metadata_string_ok(s@, maximum) {
                    Ok(previous.push(trim_spec(s@)))
                } else {
                    Err(length_message(key, maximum))
                },
            },
        }
    }
}

pub open spec fn list_field_spec(v: Option<FieldValue>, key: Seq<char>, maximum: usize) -> Result<Seq<Seq<char>>, Seq<char>> {
    match v {
        None => Ok(Seq::empty()),
        Some(FieldValue::List(items)) => if items@.len() > MAX_LIST_ITEMS {
            Err(field_message(key, " exceeds the 32-item limit"@))
        } else {
            list_items_spec(items@, key, maximum)
        },
        Some(_) => Err(field_message(key, " must be a list of strings"@)),
    }
}

/// The bits of `-0.0`.
pub open spec fn negative_zero_bits() -> u64 {
    0x8000_0000_0000_0000
}

/// A real number in `[0, maximum]` for a positive finite `maximum`, read on the `f64` bits:
/// non-negative finite values order as their bits do, `-0.0` equals `0`, and every negative
/// value, infinity and NaN has bits above those of `maximum`.
pub open spec fn real_field_spec(v: Option<FieldValue>, key: Seq<char>, maximum_bits: u64, bounds: Seq<char>) -> Result<Option<u64>, Seq<char>> {
    match v {
        None => Ok(None),
        Some(FieldValue::Number { real_bits, .. }) => if real_bits <= maximum_bits || real_bits == negative_zero_bits() {
            Ok(Some(real_bits))
        } else {
            Err(field_message(key, " must be between "@ + bounds))
        },
        Some(_) => Err(field_message(key, " must be a number"@)),
    }
}

pub open spec fn u32_field_spec(v: Option<FieldValue>, key: Seq<char>, minimum: u32, maximum: u32) -> Result<Option<u32>, Seq<char>> {
    match v {
        None => Ok(None),
        Some(FieldValue::Number { whole: Some(n), .. }) => if n > u32::MAX {
            Err(field_message(key, " is too large"@))
        } else if n < minimum || n > maximum {
            Err(field_message(key, " must be between "@ + decimal_chars(minimum as nat) + " and "@ + decimal_chars(maximum as nat)))
        } else {
            Ok(Some(n as u32))
        },
        Some(_) => Err(field_message(key, " must be a whole number"@)),
    }
}

/// The bits of `2.0` and `1.0`, the upper bounds of `temperature` and `top_p`.
pub open spec fn two_bits() -> u64 {
    0x4000_0000_0000_0000
}

pub open spec fn one_bits() -> u64 {
    0x3ff0_0000_0000_0000
}

/// The keys whose values the metadata rules read; any other key is kept as extra metadata.
pub open spec fn known_keys() -> Seq<Seq<char>> {
    seq!["name"@, "version"@, "description"@, "tags"@, "recommended_models"@, "temperature"@, "top_p"@, "top_k"@,
        "context_reserve"@, "collection"@]
}

pub open spec fn err_of<T>(r: Result<T, Seq<char>>) -> Seq<char> {
    match r {
        Err(e) => e,
        Ok(_) => Seq::empty(),
    }
}

/// The checks on the known fields, the first failure reported, in the order name (and the
/// fallback name), version, description, tags, recommended models, temperature, top_p, top_k,
/// context reserve and collection.
pub open spec fn metadata_check(f: Seq<(String, FieldValue)>, fallback: Seq<char>) -> Result<(), Seq<char>> {
    let name = string_field_spec(field_of(f, "name"@), "name"@, 120);
    let fallback_name = text_value(fallback, "name"@, 120);
    let version = string_or_number_field_spec(field_of(f, "version"@), "version"@, 64);
    let description = string_field_spec(field_of(f, "description"@), "description"@, 2000);
    let tags = list_field_spec(field_of(f, "tags"@), "tags"@, 64);
    let models = list_field_spec(field_of(f, "recommended_models"@), "recommended_models"@, 120);
    let temperature = real_field_spec(field_of(f, "temperature"@), "temperature"@, two_bits(), "0 and 2"@);
    let top_p = real_field_spec(field_of(f, "top_p"@), "top_p"@, one_bits(), "0 and 1"@);
    let top_k = u32_field_spec(field_of(f, "top_k"@), "top_k"@, 1, 1000);
    let reserve = u32_field_spec(field_of(f, "context_reserve"@), "context_reserve"@, 0, 1048576);
    let collection = string_field_spec(field_of(f, "collection"@), "collection"@, 80);
    if name is Err {
        Err(err_of(name))
    } else if fallback_name is Err {
        Err(err_of(fallback_name))
    } else if version is Err {
        Err(err_of(version))
    } else if description is Err {
        Err(err_of(description))
    } else if tags is Err {
        Err(err_of(tags))
    } else if models is Err {
        Err(err_of(models))
    } else if temperature is Err {
        Err(err_of(temperature))
    } else if top_p is Err {
        Err(err_of(top_p))
    } else if top_k is Err {
        Err(err_of(top_k))
    } else if reserve is Err {
        Err(err_of(reserve))
    } else if collection is Err {
        Err(err_of(collection))
    } else {
        Ok(())
    }
}

pub open spec fn opt_text(o: Option<String>) -> Option<Seq<char>> {
    match o {
        Some(s) => Some(s@),
        None => None,
    }
}

pub open spec fn ok_or<T>(r: Result<T, Seq<char>>, default: T) -> T {
    match r {
        Ok(v) => v,
        Err(_) => default,
    }
}

/// The known metadata fields of a prompt; real numbers are kept as the bits of their `f64`.
#[derive(Debug, Clone)]
pub struct MetadataFields {
    pub name: String,
    pub declared_version: Option<String>,
    pub description: Option<String>,
    pub tags: Vec<String>,
    pub recommended_models: Vec<String>,
    pub temperature_bits: Option<u64>,
    pub top_p_bits: Option<u64>,
    pub top_k: Option<u32>,
    pub context_reserve: Option<u32>,
    pub collection: Option<String>,
}

fn field_error(key: &str, tail: &str) -> (e: AppError)
    ensures
        is_error(e, ErrorKind::InvalidPrompt, field_message(key@, tail@)),
{
    let mut text = cat("metadata field ", key);
    text.append(tail);
    AppError::InvalidPrompt(text)
}

/// Where the first entry named `key` is.
fn find_field(fields: &Vec<(String, FieldValue)>, key: &str) -> (found: Option<usize>)
    ensures
        match found {
            Some(i) => i < fields@.len() && field_of(fields@, key@) == Some(fields@[i as int].1),
            None => field_of(fields@, key@) is None,
        },
{
    let mut i: usize = 0;
    assert(fields@.skip(0) =~= fields@);
    while i < fields.len()
        invariant
            i <= fields@.len(),
            field_of(fields@, key@) == field_of(fields@.skip(i as int), key@),
        decreases fields@.len() - i,
    {
        assert(fields@.skip(i as int)[0] == fields@[i as int]);
        if str_eq(fields[i].0.as_str(), key) {
            return Some(i);
        }
        assert(fields@.skip(i as int).drop_first() =~= fields@.skip(i + 1));
        i += 1;
    }
    assert(fields@.skip(i as int).len() == 0);
    None
}

pub open spec fn text_result(r: Result<Option<String>, AppError>, s: Result<Option<Seq<char>>, Seq<char>>) -> bool {
    match (r, s) {
        (Ok(a), Ok(b)) => opt_text(a) == b,
        (Err(e), Err(d)) => is_error(e, ErrorKind::InvalidPrompt, d),
        _ => false,
    }
}

fn text_field(s: &String, key: &str, maximum: usize) -> (result: Result<Option<String>, AppError>)
    ensures
        text_result(result, text_value(s@, key@, maximum)),
{
    match validate_string(s.as_str(), key, maximum) {
        Ok(t) => Ok(Some(t)),
        Err(e) => Err(e),
    }
}

/// A field that must be a string, trimmed and bounded.
pub fn take_string(fields: &Vec<(String, FieldValue)>, key: &str, maximum: usize) -> (result: Result<Option<String>, AppError>)
    ensures
        text_result(result, string_field_spec(field_of(fields@, key@), key@, maximum)),
{
    match find_field(fields, key) {
        None => Ok(None),
        Some(i) => match &fields[i].1 {
            FieldValue::Text(s) => text_field(s, key, maximum),
            _ => Err(field_error(key, " must be a string")),
        },
    }
}

/// A field that may be a string or a number, as text.
pub fn take_string_or_number(fields: &Vec<(String, FieldValue)>, key: &str, maximum: usize) -> (result: Result<Option<String>, AppError>)
    ensures
        text_result(result, string_or_number_field_spec(field_of(fields@, key@), key@, maximum)),
{
    match find_field(fields, key) {
        None => Ok(None),
        Some(i) => match &fields[i].1 {
            FieldValue::Text(s) => text_field(s, key, maximum),
            FieldValue::Number { text, .. } => text_field(text, key, maximum),
            _ => Err(field_error(key, " must be a string or number")),
        },
    }
}

proof fn lemma_list_items_error_sticks(items: Seq<Option<String>>, k: int, key: Seq<char>, maximum: usize)
    requires
        0 <= k <= items.len(),
        list_items_spec(items.subrange(0, k), key, maximum) is Err,
    ensures
        list_items_spec(items, key, maximum) == list_items_spec(items.subrange(0, k), key, maximum),
    decreases items.len() - k,
{
    if k < items.len() {
        assert(items.subrange(0, k + 1).drop_last() =~= items.subrange(0, k));
        lemma_list_items_error_sticks(items, k + 1, key, maximum);
    } else {
        assert(items.subrange(0, k) =~= items);
    }
}

/// A field that must be a list of at most 32 strings; its items are trimmed, bounded, and kept
/// once each in order.
pub fn take_string_list(fields: &Vec<(String, FieldValue)>, key: &str, maximum: usize) -> (result: Result<Vec<String>, AppError>)
    ensures
        match (result, list_field_spec(field_of(fields@, key@), key@, maximum)) {
            (Ok(v), Ok(items)) => strictly_sorted(crate::text::texts(v@)) && same_texts(crate::text::texts(v@), items),
            (Err(e), Err(d)) => is_error(e, ErrorKind::InvalidPrompt, d),
            _ => false,
        },
{
    let i = match find_field(fields, key) {
        None => return Ok(Vec::new()),
        Some(i) => i,
    };
    let items = match &fields[i].1 {
        FieldValue::List(items) => items,
        _ => return Err(field_error(key, " must be a list of strings")),
    };
    if items.len() > MAX_LIST_ITEMS {
        return Err(field_error(key, " exceeds the 32-item limit"));
    }
    let mut trimmed: Vec<String> = Vec::new();
    let mut k: usize = 0;
    assert(crate::text::texts(trimmed@) =~= Seq::<Seq<char>>::empty());
    assert(items@.subrange(0, 0) =~= Seq::<Option<String>>::empty());
    while k < items.len()
        invariant
            k <= items@.len(),
            field_of(fields@, key@) == Some(FieldValue::List(*items)),
            items@.len() <= MAX_LIST_ITEMS,
            list_items_spec(items@.subrange(0, k as int), key@, maximum) == Ok::<Seq<Seq<char>>, Seq<char>>(crate::text::texts(trimmed@)),
        decreases items@.len() - k,
    {
        assert(items@.subrange(0, k + 1).drop_last() =~= items@.subrange(0, k as int));
        match &items[k] {
            None => {
                proof {
                    lemma_list_items_error_sticks(items@, k + 1, key@, maximum);
                }
                return Err(field_error(key, " must contain only strings"));
            },
            Some(s) => match validate_string(s.as_str(), key, maximum) {
                Err(e) => {
                    proof {
                        lemma_list_items_error_sticks(items@, k + 1, key@, maximum);
                    }
                    return Err(e);
                },
                Ok(t) => {
                    let ghost before = crate::text::texts(trimmed@);
                    assert(items@.subrange(0, k + 1).last() == items@[k as int]);
                    assert(t@ == trim_spec(s@));
                    trimmed.push(t);
                    assert(crate::text::texts(trimmed@) =~= before.push(trim_spec(s@)));
                },
            },
        }
        k += 1;
    }
    assert(items@.subrange(0, k as int) =~= items@);
    Ok(sorted_unique(trimmed))
}

/// A real number between 0 and the bound whose `f64` bits are given, as its bits.
pub fn take_number(fields: &Vec<(String, FieldValue)>, key: &str, maximum_bits: u64, bounds: &str) -> (result: Result<Option<u64>, AppError>)
    ensures
        match (result, real_field_spec(field_of(fields@, key@), key@, maximum_bits, bounds@)) {
            (Ok(a), Ok(b)) => a == b,
            (Err(e), Err(d)) => is_error(e, ErrorKind::InvalidPrompt, d),
            _ => false,
        },
{
    match find_field(fields, key) {
        None => Ok(None),
        Some(i) => match &fields[i].1 {
            FieldValue::Number { real_bits, .. } => {
                let bits = *real_bits;
                if bits <= maximum_bits || bits == 0x8000_0000_0000_0000 {
                    Ok(Some(bits))
                } else {
                    let mut tail = " must be between ".to_owned();
                    tail.append(bounds);
                    Err(field_error(key, tail.as_str()))
                }
            },
            _ => Err(field_error(key, " must be a number")),
        },
    }
}

/// A whole number between the bounds.
pub fn take_u32(fields: &Vec<(String, FieldValue)>, key: &str, minimum: u32, maximum: u32) -> (result: Result<Option<u32>, AppError>)
    ensures
        match (result, u32_field_spec(field_of(fields@, key@), key@, minimum, maximum)) {
            (Ok(a), Ok(b)) => a == b,
            (Err(e), Err(d)) => is_error(e, ErrorKind::InvalidPrompt, d),
            _ => false,
        },
{
    match find_field(fields, key) {
        None => Ok(None),
        Some(i) => match &fields[i].1 {
            FieldValue::Number { whole: Some(n), .. } => {
                let n = *n;
                if n > 0xffff_ffff {
                    Err(field_error(key, " is too large"))
                } else if n < minimum as u64 || n > maximum as u64 {
                    let mut tail = " must be between ".to_owned();
                    tail.append(decimal_string(minimum as u64).as_str());
                    tail.append(" and ");
                    tail.append(decimal_string(maximum as u64).as_str());
                    Err(field_error(key, tail.as_str()))
                } else {
                    Ok(Some(n as u32))
                }
            },
            _ => Err(field_error(key, " must be a whole number")),
        },
    }
}

/// Whether a key is one that the metadata rules read.
pub fn is_known_metadata_key(key: &str) -> (known: bool)
    ensures
        known == known_keys().contains(key@),
{
    let names = ["name", "version", "description", "tags", "recommended_models", "temperature", "top_p", "top_k",
        "context_reserve", "collection"];
    let ghost views = known_keys();
    let mut i: usize = 0;
    while i < 10
        invariant
            i <= 10,
            views == known_keys(),
            forall|j: int| 0 <= j < 10 ==> #[trigger] views[j] == names@[j]@,
            forall|j: int| 0 <= j < i ==> views[j] != key@,
        decreases 10 - i,
    {
        if str_eq(names[i], key) {
            assert(views[i as int] == key@);
            return true;
        }
        i += 1;
    }
    assert(!views.contains(key@)) by {
        if views.contains(key@) {
            let j = choose|j: int| 0 <= j < views.len() && views[j] == key@;
        }
    }
    false
}

/// The known metadata fields of a front matter mapping, checked in order; a missing name is
/// the fallback name.
pub fn metadata_from_values(fields: &Vec<(String, FieldValue)>, fallback_name: &str) -> (result: Result<MetadataFields, AppError>)
    ensures
        match (result, metadata_check(fields@, fallback_name@)) {
            (Err(e), Err(d)) => is_error(e, ErrorKind::InvalidPrompt, d),
            (Ok(m), Ok(())) => {
                let f = fields@;
                &&& m.name@ == match string_field_spec(field_of(f, "name"@), "name"@, 120) {
                    Ok(Some(n)) => n,
                    _ => trim_spec(fallback_name@),
                }
                &&& opt_text(m.declared_version) == ok_or(string_or_number_field_spec(field_of(f, "version"@), "version"@, 64), None)
                &&& opt_text(m.description) == ok_or(string_field_spec(field_of(f, "description"@), "description"@, 2000), None)
                &&& strictly_sorted(crate::text::texts(m.tags@))
                &&& same_texts(crate::text::texts(m.tags@), ok_or(list_field_spec(field_of(f, "tags"@), "tags"@, 64), Seq::empty()))
                &&& strictly_sorted(crate::text::texts(m.recommended_models@))
                &&& same_texts(crate::text::texts(m.recommended_models@),
                    ok_or(list_field_spec(field_of(f, "recommended_models"@), "recommended_models"@, 120), Seq::empty()))
                &&& m.temperature_bits == ok_or(real_field_spec(field_of(f, "temperature"@), "temperature"@, two_bits(), "0 and 2"@), None)
                &&& m.top_p_bits == ok_or(real_field_spec(field_of(f, "top_p"@), "top_p"@, one_bits(), "0 and 1"@), None)
                &&& m.top_k == ok_or(u32_field_spec(field_of(f, "top_k"@), "top_k"@, 1, 1000), None)
                &&& m.context_reserve == ok_or(u32_field_spec(field_of(f, "context_reserve"@), "context_reserve"@, 0, 1048576), None)
                &&& opt_text(m.collection) == ok_or(string_field_spec(field_of(f, "collection"@), "collection"@, 80), None)
            },
            _ => false,
        },
{
    let name = match take_string(fields, "name", 120) {
        Err(e) => return Err(e),
        Ok(n) => n,
    };
    let fallback = match validate_string(fallback_name, "name", 120) {
        Err(e) => return Err(e),
        Ok(f) => f,
    };
    let declared_version = match take_string_or_number(fields, "version", 64) {
        Err(e) => return Err(e),
        Ok(v) => v,
    };
    let description = match take_string(fields, "description", 2000) {
        Err(e) => return Err(e),
        Ok(v) => v,
    };
    let tags = match take_string_list(fields, "tags", 64) {
        Err(e) => return Err(e),
        Ok(v) => v,
    };
    let recommended_models = match take_string_list(fields, "recommended_models", 120) {
        Err(e) => return Err(e),
        Ok(v) => v,
    };
    let temperature_bits = match take_number(fields, "temperature", 0x4000_0000_0000_0000, "0 and 2") {
        Err(e) => return Err(e),
        Ok(v) => v,
    };
    let top_p_bits = match take_number(fields, "top_p", 0x3ff0_0000_0000_0000, "0 and 1") {
        Err(e) => return Err(e),
        Ok(v) => v,
    };
    let top_k = match take_u32(fields, "top_k", 1, 1000) {
        Err(e) => return Err(e),
        Ok(v) => v,
    };
    let context_reserve = match take_u32(fields, "context_reserve", 0, 1048576) {
        Err(e) => return Err(e),
        Ok(v) => v,
    };
    let collection = match take_string(fields, "collection", 80) {
        Err(e) => return Err(e),
        Ok(v) => v,
    };
    let name = match name {
        Some(n) => n,
        None => fallback,
    };
    Ok(MetadataFields {
        name,
        declared_version,
        description,
        tags,
        recommended_models,
        temperature_bits,
        top_p_bits,
        top_k,
        context_reserve,
        collection,
    })
}

/// The loaded front matter must be one document holding a mapping of at most 64 keys.
pub fn check_metadata_document(document_count: usize, is_mapping: bool, key_count: usize) -> (result: Result<(), AppError>)
    ensures
        document_count != 1 ==> (result matches Err(e) && is_error(e, ErrorKind::InvalidPrompt, "YAML front matter must contain exactly one document"@)),
        document_count == 1 && !is_mapping ==> (result matches Err(e) && is_error(e, ErrorKind::InvalidPrompt, "YAML front matter must be a key-value mapping"@)),
        document_count == 1 && is_mapping && key_count > MAX_METADATA_KEYS ==> (result matches Err(e)
            && is_error(e, ErrorKind::InvalidPrompt, "YAML front matter exceeds the 64-key limit"@)),
        document_count == 1 && is_mapping && key_count <= MAX_METADATA_KEYS ==> result is Ok,
{
    if document_count != 1 {
        return Err(invalid_prompt("YAML front matter must contain exactly one document"));
    }
    if !is_mapping {
        return Err(invalid_prompt("YAML front matter must be a key-value mapping"));
    }
    if key_count > MAX_METADATA_KEYS {
        return Err(invalid_prompt("YAML front matter exceeds the 64-key limit"));
    }
    Ok(())
}

/// A top-level metadata key must be a string.
pub fn metadata_key(key: Option<String>) -> (result: Result<String, AppError>)
    ensures
        match key {
            Some(k) => result == Ok::<String, AppError>(k),
            None => result matches Err(e) && is_error(e, ErrorKind::InvalidPrompt, "YAML metadata keys must be strings"@),
        },
{
    match key {
        Some(k) => Ok(k),
        None => Err(invalid_prompt("YAML metadata keys must be strings")),
    }
}

/// A top-level metadata key may occur once.
pub fn check_unique_key(seen: &Vec<String>, key: &str) -> (result: Result<(), AppError>)
    ensures
        (exists|i: int| 0 <= i < seen@.len() && #[trigger] seen@[i]@ == key@) ==> (result matches Err(e)
            && is_error(e, ErrorKind::InvalidPrompt, "YAML metadata key "@ + key@ + " is duplicated"@)),
        !(exists|i: int| 0 <= i < seen@.len() && #[trigger] seen@[i]@ == key@) ==> result is Ok,
{
    let mut i: usize = 0;
    while i < seen.len()
        invariant
            i <= seen@.len(),
            forall|j: int| 0 <= j < i ==> #[trigger] seen@[j]@ != key@,
        decreases seen@.len() - i,
    {
        if str_eq(seen[i].as_str(), key) {
            let mut text = cat("YAML metadata key ", key);
            text.append(" is duplicated");
            return Err(AppError::InvalidPrompt(text));
        }
        i += 1;
    }
    Ok(())
}

/// The hash that identifies a prompt version: the SHA-256 of its canonical metadata document,
/// a zero byte and its content, in lowercase hexadecimal.
pub fn prompt_source_hash(canonical_metadata: &[u8], content: &str) -> (hash: String)
    ensures
        hash@ == crate::packages::hex_lower_spec(
            crate::packages::sha256_digest(canonical_metadata@ + seq![0u8] + content.spec_bytes()),
        ),
{
    let mut data: Vec<u8> = Vec::new();
    let mut i: usize = 0;
    while i < canonical_metadata.len()
        invariant
            i <= canonical_metadata@.len(),
            data@ == canonical_metadata@.subrange(0, i as int),
        decreases canonical_metadata@.len() - i,
    {
        data.push(canonical_metadata[i]);
        i += 1;
    }
    data.push(0u8);
    let bytes = content.as_bytes();
    let ghost head = data@;
    let mut k: usize = 0;
    while k < bytes.len()
        invariant
            k <= bytes@.len(),
            data@ == head + bytes@.subrange(0, k as int),
        decreases bytes@.len() - k,
    {
        data.push(bytes[k]);
        k += 1;
    }
    assert(canonical_metadata@.subrange(0, canonical_metadata@.len() as int) =~= canonical_metadata@);
    assert(bytes@.subrange(0, bytes@.len() as int) =~= bytes@);
    assert(data@ =~= canonical_metadata@ + seq![0u8] + content.spec_bytes());
    let digest = crate::packages::sha256(data.as_slice());
    crate::packages::hex_lower(digest.as_slice())
}

// ---------------------------------------------------------------------------------------------
// Profiles, requests and exports
/// A prompt profile as listed: its latest version and descriptive metadata.
#[derive(Debug, Clone)]
pub struct PromptSummary {
    pub profile_id: String,
    pub stable_name: String,
    pub collection: Option<String>,
    pub pinned: bool,
    pub latest_version_id: String,
    pub latest_version: u32,
    pub description: Option<String>,
    pub tags: Vec<String>,
    pub source_path: Option<String>,
    pub created_at: String,
    pub updated_at: String,
}

/// A profile row with its latest version as the store returns it; its metadata document is
/// read separately.
#[derive(Debug, Clone)]
pub struct StoredPromptSummary {
    pub profile_id: String,
    pub stable_name: String,
    pub collection: Option<String>,
    pub pinned: i64,
    pub profile_created_at: String,
    pub profile_updated_at: String,
    pub latest_version_id: String,
    pub latest_version: i64,
    pub source_path: Option<String>,
    pub version_created_at: String,
}

/// A profile timestamp, or the version's when the profile has none.
pub open spec fn stamp_or(profile: String, version: String) -> String {
    if profile@.len() == 0 { version } else { profile }
}

/// What is wrong with a stored profile row, checked in order: its metadata document (as read,
/// `Err` with the reader's message), then its version number.
pub open spec fn stored_summary_problem(stored: StoredPromptSummary, metadata: Result<(Option<String>, Seq<String>), Seq<char>>) -> Option<Seq<char>> {
    if metadata is Err {
        Some("prompt profile "@ + stored.profile_id@ + " has corrupt metadata: "@ + metadata->Err_0)
    } else if !(0 <= stored.latest_version <= u32::MAX) {
        Some("prompt profile "@ + stored.profile_id@ + " has an invalid version number"@)
    } else {
        None
    }
}

/// A stored profile row as a summary, given the description and tags that reading its
/// metadata document gave.
pub fn summary_from_stored(stored: StoredPromptSummary, metadata: Result<(Option<String>, Vec<String>), String>) -> (result: Result<PromptSummary, AppError>)
    ensures
        ({
            let read = match metadata {
                Ok((d, t)) => Ok((d, t@)),
                Err(m) => Err(m@),
            };
            &&& stored_summary_problem(stored, read) matches Some(p) ==> (result matches Err(e) && is_error(e, ErrorKind::Operation, p))
            &&& stored_summary_problem(stored, read) is None ==> (result matches Ok(summary) && {
                &&& summary.profile_id == stored.profile_id
                &&& summary.stable_name == stored.stable_name
                &&& summary.collection == stored.collection
                &&& summary.pinned == (stored.pinned != 0)
                &&& summary.latest_version_id == stored.latest_version_id
                &&& summary.latest_version == stored.latest_version as u32
                &&& read == Ok::<(Option<String>, Seq<String>), Seq<char>>((summary.description, summary.tags@))
                &&& summary.source_path == stored.source_path
                &&& summary.created_at == stamp_or(stored.profile_created_at, stored.version_created_at)
                &&& summary.updated_at == stamp_or(stored.profile_updated_at, stored.version_created_at)
            })
        }),
{
    let (description, tags) = match metadata {
        Ok(m) => m,
        Err(m) => {
            let mut text = cat("prompt profile ", stored.profile_id.as_str());
            text.append(" has corrupt metadata: ");
            text.append(m.as_str());
            return Err(AppError::Operation(text));
        },
    };
    if !(0 <= stored.latest_version && stored.latest_version <= 0xffff_ffff) {
        let mut text = cat("prompt profile ", stored.profile_id.as_str());
        text.append(" has an invalid version number");
        return Err(AppError::Operation(text));
    }
    let created_at = if stored.profile_created_at.unicode_len() == 0 {
        stored.version_created_at.clone()
    } else {
        stored.profile_created_at
    };
    let updated_at = if stored.profile_updated_at.unicode_len() == 0 {
        stored.version_created_at
    } else {
        stored.profile_updated_at
    };
    Ok(PromptSummary {
        profile_id: stored.profile_id,
        stable_name: stored.stable_name,
        collection: stored.collection,
        pinned: stored.pinned != 0,
        latest_version_id: stored.latest_version_id,
        latest_version: stored.latest_version as u32,
        description,
        tags,
        source_path: stored.source_path,
        created_at,
        updated_at,
    })
}

/// A stored version's number, which must fit 32 bits.
pub fn stored_version_number(version_id: &str, version: i64) -> (result: Result<u32, AppError>)
    ensures
        0 <= version <= u32::MAX ==> result == Ok::<u32, AppError>(version as u32),
        !(0 <= version <= u32::MAX) ==> (result matches Err(e)
            && is_error(e, ErrorKind::Operation, "prompt version "@ + version_id@ + " has an invalid number"@)),
{
    if !(0 <= version && version <= 0xffff_ffff) {
        let mut text = cat("prompt version ", version_id);
        text.append(" has an invalid number");
        return Err(AppError::Operation(text));
    }
    Ok(version as u32)
}

/// A prompt search: its query trimmed, and at most 200 characters.
pub fn prompt_search_query(query: Option<&str>) -> (result: Result<String, AppError>)
    ensures
        ({
            let q = trim_spec(match query { Some(t) => t@, None => Seq::<char>::empty() });
            &&& q.len() > 200 ==> (result matches Err(e) && is_error(e, ErrorKind::InvalidPrompt, "prompt search is limited to 200 characters"@))
            &&& q.len() <= 200 ==> (result matches Ok(t) && t@ == q)
        }),
{
    let text: &str = match query {
        Some(t) => t,
        None => "",
    };
    proof {
        if query is None {
            reveal_strlit("");
            assert(text@ =~= Seq::<char>::empty());
        }
    }
    let trimmed = trim(text);
    if char_count(trimmed) > 200 {
        return Err(invalid_prompt("prompt search is limited to 200 characters"));
    }
    Ok(trimmed.to_owned())
}

#[derive(Debug, Clone)]
pub struct ListPromptsRequest {
    pub query: Option<String>,
}

#[derive(Debug, Clone)]
pub struct ImportPromptRequest {
    pub path: String,
}

#[derive(Debug, Clone)]
pub struct CreatePromptRequest {
    pub name: String,
    pub content: String,
}

#[derive(Debug, Clone)]
pub struct SavePromptVersionRequest {
    pub profile_id: String,
    pub base_version_id: String,
    pub document: String,
}

#[derive(Debug, Clone)]
pub struct PromptVersionIdRequest {
    pub version_id: String,
}

#[derive(Debug, Clone)]
pub struct DuplicatePromptRequest {
    pub version_id: String,
    pub name: Option<String>,
}

#[derive(Debug, Clone)]
pub struct PromptProfileIdRequest {
    pub profile_id: String,
}

#[derive(Debug, Clone)]
pub struct SetPromptPinnedRequest {
    pub profile_id: String,
    pub pinned: bool,
}

/// Whether an export gives the stored document as imported or its normalized form.
#[derive(Debug, Clone, Copy, PartialEq, Eq, Structural)]
pub enum PromptExportMode {
    Original,
    Normalized,
}

#[derive(Debug, Clone)]
pub struct ExportPromptRequest {
    pub version_id: String,
    pub mode: PromptExportMode,
}

/// An exported prompt document and the file name it is offered under.
#[derive(Debug, Clone)]
pub struct PromptExport {
    pub file_name: String,
    pub content: String,
}

#[derive(Debug, Clone)]
pub struct CompilePromptRequest {
    pub version_id: String,
}

/// The content a prompt version compiles to, with its approximate token count.
#[derive(Debug, Clone)]
pub struct CompiledPrompt {
    pub version_id: String,
    pub content: String,
    pub estimated_tokens: u32,
    pub approximate: bool,
}

/// The name of a duplicate: the requested one, else the source's name followed by ` Copy`;
/// either must be a valid prompt name.
pub fn duplicate_name(requested: Option<String>, source_stable_name: &str) -> (result: Result<String, AppError>)
    ensures
        ({
            let candidate = match requested {
                Some(n) => n@,
                None => source_stable_name@ + " Copy"@,
            };
            &&& metadata_string_ok(candidate, 120) ==> (result matches Ok(t) && t@ == trim_spec(candidate))
            &&& !metadata_string_ok(candidate, 120) ==> (result matches Err(e)
                && is_error(e, ErrorKind::InvalidPrompt, "the prompt name must contain 1 to 120 characters"@))
        }),
{
    let candidate = match requested {
        Some(n) => n,
        None => copy_name(source_stable_name),
    };
    validate_profile_name(candidate.as_str())
}

/// An export of the document chosen for its mode, offered as `{stem}.md` after the profile's
/// stable name.
pub fn prompt_export(stable_name: &str, content: String) -> (export: PromptExport)
    ensures
        export.file_name@ == crate::conversations::safe_file_stem_spec(stable_name@, "prompt"@) + ".md"@,
        export.content == content,
{
    let mut file_name = safe_file_stem(stable_name);
    file_name.append(".md");
    PromptExport { file_name, content }
}

/// A compiled prompt is its version's exact content with an approximate token count.
pub fn compile_prompt(version_id: String, content: String) -> (compiled: CompiledPrompt)
    ensures
        compiled.version_id == version_id,
        compiled.content == content,
        compiled.estimated_tokens == estimated_tokens_spec(content@),
        compiled.approximate,
{
    let estimated_tokens = estimate_tokens(content.as_str());
    CompiledPrompt { version_id, content, estimated_tokens, approximate: true }
}

/// A run of whole lines, each ending with a line feed, none of which reads `---`.
pub open spec fn plain_lines(s: Seq<char>) -> bool
    decreases s.len(),
{
    if s.len() == 0 {
        true
    } else if first_newline(s) < 0 {
        false
    } else {
        proof {
            lemma_first_newline(s);
        }
        document_line_spec(first_line(s)) != delimiter() && plain_lines(s.skip(first_newline(s) + 1))
    }
}

/// The line `---` with its line feed.
pub open spec fn delimiter_line() -> Seq<char> {
    seq!['-', '-', '-', '\n']
}

/// The first line feed of `s` is at `k`.
proof fn lemma_newline_at(s: Seq<char>, k: int)
    requires
        0 <= k < s.len(),
        s[k] == '\n',
        forall|i: int| 0 <= i < k ==> s[i] != '\n',
    ensures
        first_newline(s) == k,
{
    lemma_first_newline(s);
    let g = first_newline(s);
    if g < 0 || g > k {
        assert(s[k] != '\n');
    } else if g < k {
        assert(s[g] != '\n');
    }
}

/// Scanning whole plain lines followed by a `---` line closes the front matter right there.
proof fn lemma_scan_plain(x: Seq<char>, content: Seq<char>, consumed: Seq<char>)
    requires
        plain_lines(x),
        encode_utf8(consumed + x).len() <= MAX_FRONT_MATTER_BYTES,
    ensures
        scan_closing(x + delimiter_line() + content, consumed) == Ok::<(Seq<char>, Seq<char>), SplitError>((consumed + x, content)),
    decreases x.len(),
{
    let rest = x + delimiter_line() + content;
    crate::text::lemma_encode_utf8_concat(consumed, x);
    assert(utf8_len(consumed) <= MAX_FRONT_MATTER_BYTES);
    lemma_first_newline(rest);
    if x.len() == 0 {
        assert(rest =~= delimiter_line() + content);
        lemma_newline_at(rest, 3);
        assert(first_line(rest) =~= delimiter_line());
        assert(document_line_spec(delimiter_line()) =~= delimiter());
        assert(rest.skip(4) =~= content);
        assert(consumed + x =~= consumed);
    } else {
        lemma_first_newline(x);
        let f = first_newline(x);
        assert(rest[f] == x[f]);
        assert forall|i: int| 0 <= i < f implies rest[i] != '\n' by {
            assert(rest[i] == x[i]);
        }
        lemma_newline_at(rest, f);
        let line = first_line(rest);
        assert(line =~= first_line(x));
        let tail = x.skip(f + 1);
        assert(rest.skip(line.len() as int) =~= tail + delimiter_line() + content);
        assert(consumed + x =~= (consumed + line) + tail);
        lemma_scan_plain(tail, content, consumed + line);
    }
}

/// A front matter of whole lines that never reads `---` and holds at most 64 KiB, written
/// between `---` lines ahead of some content, is split back into that front matter and that
/// content.
pub proof fn law_front_matter_round_trip(front: Seq<char>, content: Seq<char>)
    requires
        plain_lines(front),
        encode_utf8(front).len() <= MAX_FRONT_MATTER_BYTES,
    ensures
        split_front_matter_spec(delimiter_line() + front + delimiter_line() + content)
            == Ok::<(Option<Seq<char>>, Seq<char>), SplitError>((Some(front), content)),
{
    let doc = delimiter_line() + front + delimiter_line() + content;
    lemma_newline_at(doc, 3);
    assert(first_line(doc) =~= delimiter_line());
    assert(document_line_spec(delimiter_line()) =~= delimiter());
    assert(doc.skip(4) =~= front + delimiter_line() + content);
    assert(Seq::<char>::empty() + front =~= front);
    lemma_scan_plain(front, content, Seq::empty());
}

/// The framing of a normalized export reads back: framing the document gives back the
/// metadata document (with its final line feed) and the content exactly, when the metadata
/// document has no `---` line, fits the 64 KiB front matter limit, the whole document fits
/// 1 MiB and the content is not blank.
pub proof fn law_normalized_framing_reads_back(front_matter: Seq<char>, content: Seq<char>)
    requires
        plain_lines(front_matter.push('\n')),
        encode_utf8(front_matter.push('\n')).len() <= MAX_FRONT_MATTER_BYTES,
        encode_utf8("---\n"@ + front_matter + "\n---\n"@ + content).len() <= MAX_PROMPT_BYTES,
        !all_whitespace(content),
    ensures
        frame_check("---\n"@ + front_matter + "\n---\n"@ + content) == Ok::<(Seq<char>, Option<Seq<char>>, Seq<char>), Seq<char>>(
            ("---\n"@ + front_matter + "\n---\n"@ + content, Some(front_matter.push('\n')), content),
        ),
{
    reveal_strlit("---\n");
    reveal_strlit("\n---\n");
    let doc = "---\n"@ + front_matter + "\n---\n"@ + content;
    assert(doc =~= delimiter_line() + front_matter.push('\n') + delimiter_line() + content);
    law_front_matter_round_trip(front_matter.push('\n'), content);
    assert(without_bom(doc) =~= doc);
}

/// A prompt's metadata as its normalized export writes it. Real numbers are held as the JSON
/// number text they render as, and each extra key's value as its JSON text.
#[derive(Debug, Clone)]
pub struct ExportMetadata {
    pub name: Option<String>,
    pub declared_version: Option<String>,
    pub description: Option<String>,
    pub tags: Vec<String>,
    pub recommended_models: Vec<String>,
    pub temperature: Option<String>,
    pub top_p: Option<String>,
    pub top_k: Option<u32>,
    pub context_reserve: Option<u32>,
    pub collection: Option<String>,
    pub extra: Vec<(String, String)>,
}

/// One value of the exported metadata object: a string, a list of strings, or a value given
/// as its JSON text.
#[derive(Debug, Clone)]
pub enum ExportValue {
    Text(String),
    Texts(Vec<String>),
    Json(String),
}

/// What an `ExportValue` holds, as plain texts.
pub enum ExportJson {
    Text(Seq<char>),
    Texts(Seq<Seq<char>>),
    Json(Seq<char>),
}

impl View for ExportValue {
    type V = ExportJson;

    open spec fn view(&self) -> ExportJson {
        match self {
            ExportValue::Text(t) => ExportJson::Text(t@),
            ExportValue::Texts(ts) => ExportJson::Texts(ts@.map_values(|t: String| t@)),
            ExportValue::Json(j) => ExportJson::Json(j@),
        }
    }
}

pub open spec fn entries_view(entries: Seq<(String, ExportValue)>) -> Seq<(Seq<char>, ExportJson)> {
    entries.map_values(|e: (String, ExportValue)| (e.0@, e.1@))
}

pub open spec fn entry_keys(entries: Seq<(Seq<char>, ExportJson)>) -> Seq<Seq<char>> {
    entries.map_values(|e: (Seq<char>, ExportJson)| e.0)
}

/// The entry for an optional string: none when it is absent.
pub open spec fn text_entry(key: Seq<char>, value: Option<String>) -> Seq<(Seq<char>, ExportJson)> {
    match value {
        Some(v) => seq![(key, ExportJson::Text(v@))],
        None => seq![],
    }
}

/// The entry for a list of strings: none when the list is empty.
pub open spec fn list_entry(key: Seq<char>, value: Seq<String>) -> Seq<(Seq<char>, ExportJson)> {
    if value.len() > 0 {
        seq![(key, ExportJson::Texts(value.map_values(|t: String| t@)))]
    } else {
        seq![]
    }
}

/// The entry for an optional value given as JSON text.
pub open spec fn json_entry(key: Seq<char>, value: Option<String>) -> Seq<(Seq<char>, ExportJson)> {
    match value {
        Some(v) => seq![(key, ExportJson::Json(v@))],
        None => seq![],
    }
}

/// The entry for an optional whole number, written in decimal.
pub open spec fn count_entry(key: Seq<char>, value: Option<u32>) -> Seq<(Seq<char>, ExportJson)> {
    match value {
        Some(n) => seq![(key, ExportJson::Json(decimal_chars(n as nat)))],
        None => seq![],
    }
}

/// The known keys that the export writes, in this order: `version` holds the declared
/// version, and empty lists and absent values are left out.
pub open spec fn known_entries(m: ExportMetadata) -> Seq<(Seq<char>, ExportJson)> {
    text_entry("name"@, m.name) + text_entry("version"@, m.declared_version)
        + text_entry("description"@, m.description) + list_entry("tags"@, m.tags@)
        + list_entry("recommended_models"@, m.recommended_models@) + json_entry("temperature"@, m.temperature)
        + json_entry("top_p"@, m.top_p) + count_entry("top_k"@, m.top_k)
        + count_entry("context_reserve"@, m.context_reserve) + text_entry("collection"@, m.collection)
}

/// The extra keys added after `entries`, in their order; a key already written keeps its
/// first value.
pub open spec fn with_extra(entries: Seq<(Seq<char>, ExportJson)>, extra: Seq<(String, String)>) -> Seq<(Seq<char>, ExportJson)>
    decreases extra.len(),
{
    if extra.len() == 0 {
        entries
    } else {
        let before = with_extra(entries, extra.drop_last());
        if entry_keys(before).contains(extra.last().0@) {
            before
        } else {
            before.push((extra.last().0@, ExportJson::Json(extra.last().1@)))
        }
    }
}

/// The entries of the normalized metadata object.
pub open spec fn normalized_entries_spec(m: ExportMetadata) -> Seq<(Seq<char>, ExportJson)> {
    with_extra(known_entries(m), m.extra@)
}

fn push_entry(entries: &mut Vec<(String, ExportValue)>, key: &str, value: ExportValue)
    ensures
        entries_view(final(entries)@) == entries_view(old(entries)@).push((key@, value@)),
{
    entries.push((key.to_owned(), value));
    assert(entries_view(entries@) =~= entries_view(old(entries)@).push((key@, value@)));
}

fn push_text(entries: &mut Vec<(String, ExportValue)>, key: &str, value: &Option<String>)
    ensures
        entries_view(final(entries)@) == entries_view(old(entries)@) + text_entry(key@, *value),
{
    match value {
        Some(v) => push_entry(entries, key, ExportValue::Text(v.clone())),
        None => {},
    }
    assert(entries_view(entries@) =~= entries_view(old(entries)@) + text_entry(key@, *value));
}

fn push_list(entries: &mut Vec<(String, ExportValue)>, key: &str, value: &Vec<String>)
    ensures
        entries_view(final(entries)@) == entries_view(old(entries)@) + list_entry(key@, value@),
{
    if value.len() > 0 {
        let copy = value.clone();
        assert(copy@ =~= value@);
        push_entry(entries, key, ExportValue::Texts(copy));
    }
    assert(entries_view(entries@) =~= entries_view(old(entries)@) + list_entry(key@, value@));
}

fn push_json(entries: &mut Vec<(String, ExportValue)>, key: &str, value: &Option<String>)
    ensures
        entries_view(final(entries)@) == entries_view(old(entries)@) + json_entry(key@, *value),
{
    match value {
        Some(v) => push_entry(entries, key, ExportValue::Json(v.clone())),
        None => {},
    }
    assert(entries_view(entries@) =~= entries_view(old(entries)@) + json_entry(key@, *value));
}

fn push_count(entries: &mut Vec<(String, ExportValue)>, key: &str, value: Option<u32>)
    ensures
        entries_view(final(entries)@) == entries_view(old(entries)@) + count_entry(key@, value),
{
    match value {
        Some(n) => push_entry(entries, key, ExportValue::Json(decimal_string(n as u64))),
        None => {},
    }
    assert(entries_view(entries@) =~= entries_view(old(entries)@) + count_entry(key@, value));
}

/// Whether an entry with this key is already written.
fn has_entry(entries: &Vec<(String, ExportValue)>, key: &str) -> (found: bool)
    ensures
        found == entry_keys(entries_view(entries@)).contains(key@),
{
    let mut i: usize = 0;
    while i < entries.len()
        invariant
            i <= entries@.len(),
            forall|j: int| 0 <= j < i ==> entries@[j].0@ != key@,
        decreases entries@.len() - i,
    {
        if str_eq(entries[i].0.as_str(), key) {
            assert(entry_keys(entries_view(entries@))[i as int] == key@);
            return true;
        }
        i += 1;
    }
    proof {
        if entry_keys(entries_view(entries@)).contains(key@) {
            let j = choose|j: int| 0 <= j < entry_keys(entries_view(entries@)).len()
                && entry_keys(entries_view(entries@))[j] == key@;
            assert(entries@[j].0@ == key@);
        }
    }
    false
}

/// The entries of the normalized metadata object, as `normalized_entries_spec` says.
pub fn normalized_entries(metadata: &ExportMetadata) -> (entries: Vec<(String, ExportValue)>)
    ensures
        entries_view(entries@) == normalized_entries_spec(*metadata),
{
    let mut entries: Vec<(String, ExportValue)> = Vec::new();
    assert(entries_view(entries@) =~= Seq::<(Seq<char>, ExportJson)>::empty());
    push_text(&mut entries, "name", &metadata.name);
    push_text(&mut entries, "version", &metadata.declared_version);
    push_text(&mut entries, "description", &metadata.description);
    push_list(&mut entries, "tags", &metadata.tags);
    push_list(&mut entries, "recommended_models", &metadata.recommended_models);
    push_json(&mut entries, "temperature", &metadata.temperature);
    push_json(&mut entries, "top_p", &metadata.top_p);
    push_count(&mut entries, "top_k", metadata.top_k);
    push_count(&mut entries, "context_reserve", metadata.context_reserve);
    push_text(&mut entries, "collection", &metadata.collection);
    assert(entries_view(entries@) =~= known_entries(*metadata));
    let extra = &metadata.extra;
    let mut i: usize = 0;
    while i < extra.len()
        invariant
            i <= extra@.len(),
            extra@ == metadata.extra@,
            entries_view(entries@) == with_extra(known_entries(*metadata), extra@.subrange(0, i as int)),
        decreases extra@.len() - i,
    {
        proof {
            assert(extra@.subrange(0, i + 1).drop_last() =~= extra@.subrange(0, i as int));
        }
        if !has_entry(&entries, extra[i].0.as_str()) {
            push_entry(&mut entries, extra[i].0.as_str(), ExportValue::Json(extra[i].1.clone()));
        }
        i += 1;
    }
    assert(extra@.subrange(0, extra@.len() as int) =~= extra@);
    entries
}

/// A normalized export frames back into its parts: when the rendered metadata object has no
/// `---` line and fits the front matter limit, the document fits 1 MiB and the content is not
/// blank, framing the exported document gives the rendered metadata (with a final line feed)
/// and the content.
pub proof fn law_normalized_document_frames_back(metadata: ExportMetadata, content: Seq<char>)
    requires
        pretty_json_object(normalized_entries_spec(metadata)) is Ok,
        plain_lines(pretty_json_object(normalized_entries_spec(metadata))->Ok_0.push('\n')),
        encode_utf8(pretty_json_object(normalized_entries_spec(metadata))->Ok_0.push('\n')).len() <= MAX_FRONT_MATTER_BYTES,
        encode_utf8("---\n"@ + pretty_json_object(normalized_entries_spec(metadata))->Ok_0 + "\n---\n"@ + content).len()
            <= MAX_PROMPT_BYTES,
        !all_whitespace(content),
    ensures
        ({
            let front = pretty_json_object(normalized_entries_spec(metadata))->Ok_0;
            let document = "---\n"@ + front + "\n---\n"@ + content;
            frame_check(document) == Ok::<(Seq<char>, Option<Seq<char>>, Seq<char>), Seq<char>>(
                (document, Some(front.push('\n')), content),
            )
        }),
{
    law_normalized_framing_reads_back(pretty_json_object(normalized_entries_spec(metadata))->Ok_0, content);
}

/// What `serde_json::to_string_pretty` writes for the object with these entries, each
/// inserted in turn into a `serde_json::Map`; `Err` with serde_json's message when a JSON
/// text of a value does not parse.
pub uninterp spec fn pretty_json_object(entries: Seq<(Seq<char>, ExportJson)>) -> Result<Seq<char>, Seq<char>>;

/// Builds a `serde_json::Map` from the entries (strings, lists of strings, and values parsed
/// with `serde_json::from_str` from their JSON text) and renders it with
/// `serde_json::to_string_pretty`. The result is named `pretty_json_object`.
#[verifier::external_body]
fn render_pretty_json(entries: &Vec<(String, ExportValue)>) -> (result: Result<String, String>)
    ensures
        match (result, pretty_json_object(entries_view(entries@))) {
            (Ok(text), Ok(expected)) => text@ == expected,
            (Err(message), Err(expected)) => message@ == expected,
            _ => false,
        },
{
    let mut object = serde_json::Map::new();
    for (key, value) in entries.iter() {
        let json = match value {
            ExportValue::Text(text) => serde_json::Value::String(text.clone()),
            ExportValue::Texts(texts) => serde_json::Value::from(texts.clone()),
            ExportValue::Json(text) => serde_json::from_str(text).map_err(|error| error.to_string())?,
        };
        object.insert(key.clone(), json);
    }
    serde_json::to_string_pretty(&serde_json::Value::Object(object)).map_err(|error| error.to_string())
}

/// The normalized export of a prompt: its metadata object (`normalized_entries_spec`,
/// rendered as pretty JSON) between `---` lines, followed by its content.
pub fn normalized_document(metadata: &ExportMetadata, content: &str) -> (result: Result<String, AppError>)
    ensures
        match pretty_json_object(normalized_entries_spec(*metadata)) {
            Ok(front_matter) => result matches Ok(document)
                && document@ == "---\n"@ + front_matter + "\n---\n"@ + content@,
            Err(message) => result matches Err(e) && is_error(
                e,
                ErrorKind::Operation,
                "normalized prompt metadata could not be exported: "@ + message,
            ),
        },
{
    let entries = normalized_entries(metadata);
    match render_pretty_json(&entries) {
        Ok(front_matter) => {
            let mut document = cat("---\n", front_matter.as_str());
            document.append("\n---\n");
            document.append(content);
            Ok(document)
        },
        Err(message) => {
            let mut text = "normalized prompt metadata could not be exported: ".to_owned();
            text.append(message.as_str());
            Err(AppError::Operation(text))
        },
    }
}

/// The texts are in strictly increasing order.
pub open spec fn strictly_sorted(s: Seq<Seq<char>>) -> bool {
    forall|a: int, b: int| 0 <= a < b < s.len() ==> crate::packages::text_lt(#[trigger] s[a], #[trigger] s[b])
}

/// The two lists hold the same texts, ignoring order and repeats.
pub open spec fn same_texts(s: Seq<Seq<char>>, t: Seq<Seq<char>>) -> bool {
    (forall|i: int| 0 <= i < t.len() ==> s.contains(#[trigger] t[i])) && (forall|j: int| 0 <= j < s.len() ==> t.contains(#[trigger] s[j]))
}

proof fn lemma_sorted_insert(before: Seq<Seq<char>>, p: int, key: Seq<char>)
    requires
        strictly_sorted(before),
        0 <= p <= before.len(),
        forall|k: int| 0 <= k < p ==> crate::packages::text_lt(#[trigger] before[k], key),
        p < before.len() ==> crate::packages::text_lt(key, before[p]),
    ensures
        strictly_sorted(before.insert(p, key)),
        before.insert(p, key).contains(key),
        forall|x: Seq<char>| before.contains(x) ==> #[trigger] before.insert(p, key).contains(x),
        forall|x: Seq<char>| #[trigger] before.insert(p, key).contains(x) ==> before.contains(x) || x == key,
{
    let s = before.insert(p, key);
    assert(s[p] == key);
    assert forall|a: int, b: int| 0 <= a < b < s.len() implies crate::packages::text_lt(#[trigger] s[a], #[trigger] s[b]) by {
        if a < p && b == p {
        } else if a == p && b > p {
            if b - 1 > p {
                crate::packages::lemma_text_lt_transitive(key, before[p], before[b - 1]);
            }
        } else if a < p && b > p {
            if b - 1 > p {
                crate::packages::lemma_text_lt_transitive(key, before[p], before[b - 1]);
            }
            crate::packages::lemma_text_lt_transitive(before[a], key, before[b - 1]);
        } else if b < p {
            assert(s[a] == before[a] && s[b] == before[b]);
        } else {
            assert(s[a] == before[a - 1] && s[b] == before[b - 1]);
        }
    }
    assert forall|x: Seq<char>| before.contains(x) implies #[trigger] s.contains(x) by {
        let j = choose|j: int| 0 <= j < before.len() && before[j] == x;
        if j < p {
            assert(s[j] == x);
        } else {
            assert(s[j + 1] == x);
        }
    }
    assert forall|x: Seq<char>| #[trigger] s.contains(x) implies before.contains(x) || x == key by {
        let j = choose|j: int| 0 <= j < s.len() && s[j] == x;
        if j < p {
            assert(before[j] == x);
        } else if j > p {
            assert(before[j - 1] == x);
        }
    }
}

/// A list of metadata strings without repeats and in order, as a set of strings keeps them.
pub fn sorted_unique(items: Vec<String>) -> (sorted: Vec<String>)
    ensures
        strictly_sorted(crate::text::texts(sorted@)),
        same_texts(crate::text::texts(sorted@), crate::text::texts(items@)),
{
    let ghost all = crate::text::texts(items@);
    let mut sorted: Vec<String> = Vec::new();
    let mut i: usize = 0;
    while i < items.len()
        invariant
            i <= items@.len(),
            all == crate::text::texts(items@),
            strictly_sorted(crate::text::texts(sorted@)),
            same_texts(crate::text::texts(sorted@), all.subrange(0, i as int)),
        decreases items@.len() - i,
    {
        let ghost before = crate::text::texts(sorted@);
        let key = chars_of(items[i].as_str());
        let mut p: usize = 0;
        let mut dup = false;
        let mut stop = false;
        while p < sorted.len() && !stop
            invariant
                p <= sorted@.len(),
                before == crate::text::texts(sorted@),
                key@ == all[i as int],
                forall|k: int| 0 <= k < p ==> crate::packages::text_lt(#[trigger] before[k], key@),
                stop ==> p < sorted@.len() && (dup ==> before[p as int] == key@) && (!dup ==> before[p as int] != key@
                    && !crate::packages::text_lt(before[p as int], key@)),
                !stop ==> !dup,
            decreases sorted@.len() - p + (if stop { 0int } else { 1int }),
        {
            let current = chars_of(sorted[p].as_str());
            if crate::text::chars_eq(&current, &key) {
                dup = true;
                stop = true;
            } else if !crate::packages::text_less(&current, &key) {
                stop = true;
            } else {
                p += 1;
            }
        }
        let ghost prefix = all.subrange(0, i as int);
        let ghost next = all.subrange(0, i + 1);
        assert(next =~= prefix.push(key@));
        if !dup {
            proof {
                if p < before.len() {
                    crate::packages::lemma_text_lt_total(before[p as int], key@);
                }
                lemma_sorted_insert(before, p as int, key@);
            }
            let item = items[i].clone();
            sorted.insert(p, item);
            proof {
                assert(crate::text::texts(sorted@) =~= before.insert(p as int, key@));
                let s = crate::text::texts(sorted@);
                assert forall|k: int| 0 <= k < next.len() implies s.contains(#[trigger] next[k]) by {
                    if k < i {
                        assert(before.contains(prefix[k]));
                    }
                }
                assert forall|j: int| 0 <= j < s.len() implies next.contains(#[trigger] s[j]) by {
                    if s[j] != key@ {
                        assert(before.contains(s[j]));
                        assert(prefix.contains(s[j]));
                        let k = choose|k: int| 0 <= k < prefix.len() && prefix[k] == s[j];
                        assert(next[k] == s[j]);
                    } else {
                        assert(next[i as int] == key@);
                    }
                }
            }
        } else {
            proof {
                assert(before[p as int] == key@);
                assert forall|k: int| 0 <= k < next.len() implies before.contains(#[trigger] next[k]) by {
                    if k == i {
                        assert(before[p as int] == next[k]);
                    }
                }
                assert forall|j: int| 0 <= j < before.len() implies next.contains(#[trigger] before[j]) by {
                    assert(prefix.contains(before[j]));
                    let k = choose|k: int| 0 <= k < prefix.len() && prefix[k] == before[j];
                    assert(next[k] == before[j]);
                }
            }
        }
        i += 1;
    }
    assert(all.subrange(0, items@.len() as int) =~= all);
    sorted
}

// ---------------------------------------------------------------------------------------------
// Prompt files
/// The text checks on a prompt file path, the first failure reported: not blank and free of
/// NUL, not a Windows device or verbatim path, absolute and without `..`.
pub open spec fn prompt_path_check(raw: Seq<char>) -> Result<(), (ErrorKind, Seq<char>)> {
    match crate::models::catalog::input_path_check(raw) {
        Ok(()) => Ok(()),
        Err(d) => if d == "the selected path is empty or malformed"@ {
            Err((ErrorKind::InvalidPath, "the selected prompt path is empty or malformed"@))
        } else if d == "Windows device paths are not accepted"@ {
            Err((ErrorKind::InvalidPath, "Windows device paths are not accepted"@))
        } else {
            Err((ErrorKind::InvalidPath, "the selected prompt path must be absolute and cannot traverse parent directories"@))
        },
    }
}

pub fn validate_prompt_path(raw: &str) -> (result: Result<(), AppError>)
    ensures
        match (result, prompt_path_check(raw@)) {
            (Ok(()), Ok(())) => true,
            (Err(e), Err((k, d))) => is_error(e, k, d),
            _ => false,
        },
{
    match crate::models::catalog::validate_input_path(raw) {
        Ok(()) => Ok(()),
        Err(e) => {
            let detail = match &e {
                AppError::InvalidPath(d) => d.as_str(),
                _ => "",
            };
            if str_eq(detail, "the selected path is empty or malformed") {
                Err(AppError::InvalidPath("the selected prompt path is empty or malformed".to_owned()))
            } else if str_eq(detail, "Windows device paths are not accepted") {
                Err(AppError::InvalidPath("Windows device paths are not accepted".to_owned()))
            } else {
                Err(AppError::InvalidPath("the selected prompt path must be absolute and cannot traverse parent directories".to_owned()))
            }
        },
    }
}

/// Prompt files end in `.md` or `.txt`, ignoring ASCII case.
pub open spec fn prompt_extension_ok(path: Seq<char>) -> bool {
    let e = match crate::models::catalog::file_name_spec(path) {
        Some(name) => match crate::models::catalog::extension_spec(name) {
            Some(x) => crate::text::ascii_lower_spec(x),
            None => Seq::empty(),
        },
        None => Seq::empty(),
    };
    e == "md"@ || e == "txt"@
}

/// Symbolic links and Windows reparse points are refused as prompt files.
pub fn check_prompt_link(is_symlink: bool, is_reparse_point: bool) -> (result: Result<(), AppError>)
    ensures
        is_symlink ==> (result matches Err(e) && is_error(e, ErrorKind::InvalidPath, "symbolic links are not accepted for prompt imports"@)),
        !is_symlink && is_reparse_point ==> (result matches Err(e) && is_error(e, ErrorKind::InvalidPath, "Windows reparse points are not accepted for prompt imports"@)),
        !is_symlink && !is_reparse_point ==> result is Ok,
{
    if is_symlink {
        return Err(AppError::InvalidPath("symbolic links are not accepted for prompt imports".to_owned()));
    }
    if is_reparse_point {
        return Err(AppError::InvalidPath("Windows reparse points are not accepted for prompt imports".to_owned()));
    }
    Ok(())
}

/// A prompt path must name a regular file.
pub fn check_prompt_is_file(is_file: bool) -> (result: Result<(), AppError>)
    ensures
        is_file ==> result is Ok,
        !is_file ==> (result matches Err(e) && is_error(e, ErrorKind::InvalidPath, "the selected prompt path is not a regular file"@)),
{
    if is_file {
        Ok(())
    } else {
        Err(AppError::InvalidPath("the selected prompt path is not a regular file".to_owned()))
    }
}

pub fn check_prompt_extension(path: &str) -> (result: Result<(), AppError>)
    ensures
        prompt_extension_ok(path@) <==> result is Ok,
        result matches Err(e) ==> is_error(e, ErrorKind::InvalidPath, "only UTF-8 .md and .txt prompt files can be imported"@),
{
    let ext = crate::models::catalog::lowered_extension(path);
    let md = chars_of("md");
    let txt = chars_of("txt");
    if crate::text::chars_eq(&ext, &md) || crate::text::chars_eq(&ext, &txt) {
        Ok(())
    } else {
        Err(AppError::InvalidPath("only UTF-8 .md and .txt prompt files can be imported".to_owned()))
    }
}

/// The name a prompt file gives a prompt without one: its stem when not blank, else
/// `Untitled Prompt`.
pub open spec fn fallback_prompt_name_spec(path: Seq<char>) -> Seq<char> {
    match crate::models::catalog::file_name_spec(path) {
        Some(name) => if all_whitespace(crate::models::catalog::stem_spec(name)) { "Untitled Prompt"@ } else { crate::models::catalog::stem_spec(name) },
        None => "Untitled Prompt"@,
    }
}

pub fn fallback_prompt_name(path: &str) -> (name: String)
    ensures
        name@ == fallback_prompt_name_spec(path@),
{
    match crate::models::catalog::file_stem_text(path) {
        Some(stem) => if is_blank(stem.as_str()) { "Untitled Prompt".to_owned() } else { stem },
        None => "Untitled Prompt".to_owned(),
    }
}

} // verus!
