//! Bounded GGUF header inspection over the leading bytes of a model file.
//!
//! The reader never looks past 64 MiB and rejects every length, count or type
//! that it cannot account for before it uses it.
use vstd::prelude::*;
use vstd::utf8::*;

use crate::errors::{is_error, AppError, ErrorKind};
use crate::text::{bytes_eq, decimal_chars, decimal_string, ends_with_bytes, ends_with_spec, utf8_string};
use vstd::string::{StringExecFns, StringSliceAdditionalSpecFns};

verus! {

pub const MAX_METADATA_BYTES: u64 = 67108864;
pub const MAX_METADATA_ENTRIES: u64 = 100000;
pub const MAX_TENSORS: u64 = 10000000;
pub const MAX_KEY_BYTES: u64 = 4096;
pub const MAX_STRING_BYTES: u64 = 2097152;
pub const MAX_ARRAY_ITEMS: u64 = 2000000;
pub const MAX_PREVIEW_ENTRIES: usize = 64;
pub const MAX_PREVIEW_CHARS: usize = 256;
/// Offset of the first metadata entry (magic, version, tensor count, entry count).
pub const HEADER_BYTES: u64 = 24;

/// Why a GGUF header was rejected.
#[derive(Debug, Clone, Copy, PartialEq, Eq, Structural)]
pub enum GgufError {
    BadMagic,
    UnsupportedVersion(u32),
    TooManyTensors,
    TooManyEntries,
    LengthOverflow,
    Truncated,
    StringTooLarge(u64),
    InvalidUtf8,
    InvalidBool,
    UnknownValueType(u32),
    ArrayTooLarge,
    UnsupportedArrayType(u32),
    ArrayStringTooLarge,
}

/// One decoded metadata value; floats are carried by their IEEE-754 bits.
#[derive(Debug, Clone)]
pub enum GgufValue {
    Unsigned(u64),
    Signed(i64),
    Float32Bits(u32),
    Float64Bits(u64),
    Bool(bool),
    Text(String),
    Array { element_type: u32, count: u64 },
}

/// The mathematical form of a metadata value.
pub enum ValueSpec {
    Unsigned(u64),
    Signed(i64),
    Float32Bits(u32),
    Float64Bits(u64),
    Bool(bool),
    Text(Seq<char>),
    Array(u32, u64),
}

impl View for GgufValue {
    type V = ValueSpec;

    open spec fn view(&self) -> ValueSpec {
        match self {
            GgufValue::Unsigned(v) => ValueSpec::Unsigned(*v),
            GgufValue::Signed(v) => ValueSpec::Signed(*v),
            GgufValue::Float32Bits(v) => ValueSpec::Float32Bits(*v),
            GgufValue::Float64Bits(v) => ValueSpec::Float64Bits(*v),
            GgufValue::Bool(v) => ValueSpec::Bool(*v),
            GgufValue::Text(s) => ValueSpec::Text(s@),
            GgufValue::Array { element_type, count } => ValueSpec::Array(*element_type, *count),
        }
    }
}

/// What the metadata preview shows for one key.
#[derive(Debug, Clone)]
pub enum PreviewValue {
    Unsigned(u64),
    Signed(i64),
    Float32Bits(u32),
    Float64Bits(u64),
    Bool(bool),
    Text(String),
    /// The first 256 characters of a longer string and its byte length.
    TruncatedText { preview: String, byte_len: u64 },
    Array { element_type: u32, count: u64 },
    /// The chat template itself is never copied, only whether it is a string.
    TemplatePresent(bool),
}

pub enum PreviewSpec {
    Unsigned(u64),
    Signed(i64),
    Float32Bits(u32),
    Float64Bits(u64),
    Bool(bool),
    Text(Seq<char>),
    TruncatedText(Seq<char>, u64),
    Array(u32, u64),
    TemplatePresent(bool),
}

impl View for PreviewValue {
    type V = PreviewSpec;

    open spec fn view(&self) -> PreviewSpec {
        match self {
            PreviewValue::Unsigned(v) => PreviewSpec::Unsigned(*v),
            PreviewValue::Signed(v) => PreviewSpec::Signed(*v),
            PreviewValue::Float32Bits(v) => PreviewSpec::Float32Bits(*v),
            PreviewValue::Float64Bits(v) => PreviewSpec::Float64Bits(*v),
            PreviewValue::Bool(v) => PreviewSpec::Bool(*v),
            PreviewValue::Text(s) => PreviewSpec::Text(s@),
            PreviewValue::TruncatedText { preview, byte_len } => PreviewSpec::TruncatedText(
                preview@,
                *byte_len,
            ),
            PreviewValue::Array { element_type, count } => PreviewSpec::Array(
                *element_type,
                *count,
            ),
            PreviewValue::TemplatePresent(v) => PreviewSpec::TemplatePresent(*v),
        }
    }
}

/// One preview line: a metadata key and what is shown for it.
#[derive(Debug, Clone)]
pub struct PreviewEntry {
    pub key: String,
    pub value: PreviewValue,
}

/// Useful facts read from a GGUF header.
#[derive(Debug, Clone)]
pub struct GgufMetadata {
    pub version: u32,
    pub tensor_count: u64,
    pub metadata_count: u64,
    pub architecture: Option<String>,
    pub name: Option<String>,
    pub file_type: Option<u32>,
    pub quantization: Option<String>,
    pub parameter_count: Option<u64>,
    pub context_length: Option<u64>,
    pub embedding_length: Option<u64>,
    pub layer_count: Option<u64>,
    pub has_chat_template: bool,
    pub metadata_bytes: u64,
    /// At most 64 distinct keys, in first-seen order; a repeated key keeps its latest value.
    pub metadata_preview: Vec<PreviewEntry>,
}

pub struct MetaSpec {
    pub version: u32,
    pub tensor_count: u64,
    pub metadata_count: u64,
    pub architecture: Option<Seq<char>>,
    pub name: Option<Seq<char>>,
    pub file_type: Option<u32>,
    pub quantization: Option<Seq<char>>,
    pub parameter_count: Option<u64>,
    pub context_length: Option<u64>,
    pub embedding_length: Option<u64>,
    pub layer_count: Option<u64>,
    pub has_chat_template: bool,
    pub metadata_bytes: u64,
    pub preview: Seq<(Seq<char>, PreviewSpec)>,
}

pub open spec fn opt_string_view(value: Option<String>) -> Option<Seq<char>> {
    match value {
        Some(s) => Some(s@),
        None => None,
    }
}

impl View for GgufMetadata {
    type V = MetaSpec;

    open spec fn view(&self) -> MetaSpec {
        MetaSpec {
            version: self.version,
            tensor_count: self.tensor_count,
            metadata_count: self.metadata_count,
            architecture: opt_string_view(self.architecture),
            name: opt_string_view(self.name),
            file_type: self.file_type,
            quantization: opt_string_view(self.quantization),
            parameter_count: self.parameter_count,
            context_length: self.context_length,
            embedding_length: self.embedding_length,
            layer_count: self.layer_count,
            has_chat_template: self.has_chat_template,
            metadata_bytes: self.metadata_bytes,
            preview: self.metadata_preview@.map_values(|e: PreviewEntry| (e.key@, e.value@)),
        }
    }
}

// ---------------------------------------------------------------------------
// The byte-level grammar.
// ---------------------------------------------------------------------------
/// Little-endian value of `n` bytes starting at `pos`.
pub open spec fn le_value(b: Seq<u8>, pos: int, n: nat) -> nat
    decreases n,
{
    if n == 0 {
        0
    } else {
        b[pos] as nat + 256 * le_value(b, pos + 1, (n - 1) as nat)
    }
}

pub open spec fn pow256(n: nat) -> nat
    decreases n,
{
    if n == 0 {
        1
    } else {
        256 * pow256((n - 1) as nat)
    }
}

/// Two's-complement reading of an `n`-byte little-endian value.
pub open spec fn signed_value(b: Seq<u8>, pos: int, n: nat) -> int {
    let v = le_value(b, pos, n);
    if v >= pow256(n) / 2 {
        v - pow256(n)
    } else {
        v as int
    }
}

/// The reading window: the whole input, but never more than 64 MiB.
pub open spec fn limit_of(b: Seq<u8>) -> int {
    if b.len() < MAX_METADATA_BYTES {
        b.len() as int
    } else {
        MAX_METADATA_BYTES as int
    }
}

/// Claims `len` more bytes at `pos`; the end must not overflow and must stay in the window.
pub open spec fn ensure_spec(pos: int, len: int, limit: int) -> Result<int, GgufError> {
    if pos + len > u64::MAX {
        Err(GgufError::LengthOverflow)
    } else if pos + len > limit {
        Err(GgufError::Truncated)
    } else {
        Ok(pos + len)
    }
}

pub open spec fn read_uint_spec(b: Seq<u8>, limit: int, pos: int, n: nat) -> Result<(nat, int), GgufError> {
    match ensure_spec(pos, n as int, limit) {
        Err(e) => Err(e),
        Ok(end) => Ok((le_value(b, pos, n), end)),
    }
}

/// A length-prefixed UTF-8 string of at most `maximum` bytes, as raw bytes.
pub open spec fn read_string_spec(b: Seq<u8>, limit: int, pos: int, maximum: u64) -> Result<
    (Seq<u8>, int),
    GgufError,
> {
    match read_uint_spec(b, limit, pos, 8) {
        Err(e) => Err(e),
        Ok((len, p)) => if len > maximum {
            Err(GgufError::StringTooLarge(maximum))
        } else {
            match ensure_spec(p, len as int, limit) {
                Err(e) => Err(e),
                Ok(end) => {
                    let bytes = b.subrange(p, end);
                    if valid_utf8(bytes) {
                        Ok((bytes, end))
                    } else {
                        Err(GgufError::InvalidUtf8)
                    }
                },
            }
        },
    }
}

/// Width in bytes of a fixed-size element type, `None` for strings and unknown types.
pub open spec fn fixed_width_spec(value_type: u32) -> Option<u64> {
    if value_type == 0 || value_type == 1 || value_type == 7 {
        Some(1)
    } else if value_type == 2 || value_type == 3 {
        Some(2)
    } else if 4 <= value_type <= 6 {
        Some(4)
    } else if 10 <= value_type <= 12 {
        Some(8)
    } else {
        None
    }
}

/// Skips `n` length-prefixed strings inside an array.
pub open spec fn skip_strings_spec(b: Seq<u8>, limit: int, pos: int, n: nat) -> Result<int, GgufError>
    decreases n,
{
    if n == 0 {
        Ok(pos)
    } else {
        match read_uint_spec(b, limit, pos, 8) {
            Err(e) => Err(e),
            Ok((len, p)) => if len > MAX_STRING_BYTES {
                Err(GgufError::ArrayStringTooLarge)
            } else {
                match ensure_spec(p, len as int, limit) {
                    Err(e) => Err(e),
                    Ok(end) => skip_strings_spec(b, limit, end, (n - 1) as nat),
                }
            },
        }
    }
}

/// An array value: element type, count, then the skipped elements.
pub open spec fn read_array_spec(b: Seq<u8>, limit: int, pos: int) -> Result<(ValueSpec, int), GgufError> {
    match read_uint_spec(b, limit, pos, 4) {
        Err(e) => Err(e),
        Ok((element_type, p1)) => match read_uint_spec(b, limit, p1, 8) {
            Err(e) => Err(e),
            Ok((count, p2)) => if count > MAX_ARRAY_ITEMS {
                Err(GgufError::ArrayTooLarge)
            } else if element_type == 9 || element_type > 12 {
                Err(GgufError::UnsupportedArrayType(element_type as u32))
            } else {
                let done = match fixed_width_spec(element_type as u32) {
                    Some(width) => ensure_spec(p2, count * width, limit),
                    None => skip_strings_spec(b, limit, p2, count),
                };
                match done {
                    Err(e) => Err(e),
                    Ok(end) => Ok((ValueSpec::Array(element_type as u32, count as u64), end)),
                }
            },
        },
    }
}

/// A metadata value of the given type code.
pub open spec fn read_value_spec(b: Seq<u8>, limit: int, pos: int, value_type: u32) -> Result<
    (ValueSpec, int),
    GgufError,
> {
    if value_type == 9 {
        read_array_spec(b, limit, pos)
    } else if value_type == 8 {
        match read_string_spec(b, limit, pos, MAX_STRING_BYTES) {
            Err(e) => Err(e),
            Ok((bytes, end)) => Ok((ValueSpec::Text(decode_utf8(bytes)), end)),
        }
    } else if value_type > 12 {
        Err(GgufError::UnknownValueType(value_type))
    } else {
        let width: nat = fixed_width_spec(value_type)->0 as nat;
        match ensure_spec(pos, width as int, limit) {
            Err(e) => Err(e),
            Ok(end) => {
                let v = le_value(b, pos, width);
                if value_type == 0 || value_type == 2 || value_type == 4 || value_type == 10 {
                    Ok((ValueSpec::Unsigned(v as u64), end))
                } else if value_type == 1 || value_type == 3 || value_type == 5 || value_type == 11 {
                    Ok((ValueSpec::Signed(signed_value(b, pos, width) as i64), end))
                } else if value_type == 6 {
                    Ok((ValueSpec::Float32Bits(v as u32), end))
                } else if value_type == 12 {
                    Ok((ValueSpec::Float64Bits(v as u64), end))
                } else if v == 0 {
                    Ok((ValueSpec::Bool(false), end))
                } else if v == 1 {
                    Ok((ValueSpec::Bool(true), end))
                } else {
                    Err(GgufError::InvalidBool)
                }
            },
        }
    }
}

/// One metadata entry: its raw key bytes and its value.
pub struct EntrySpec {
    pub key: Seq<u8>,
    pub value: ValueSpec,
}

pub open spec fn read_entry_spec(b: Seq<u8>, limit: int, pos: int) -> Result<(EntrySpec, int), GgufError> {
    match read_string_spec(b, limit, pos, MAX_KEY_BYTES) {
        Err(e) => Err(e),
        Ok((key, p1)) => match read_uint_spec(b, limit, p1, 4) {
            Err(e) => Err(e),
            Ok((value_type, p2)) => match read_value_spec(b, limit, p2, value_type as u32) {
                Err(e) => Err(e),
                Ok((value, p3)) => Ok((EntrySpec { key, value }, p3)),
            },
        },
    }
}

/// `n` consecutive metadata entries.
pub open spec fn read_entries_spec(b: Seq<u8>, limit: int, pos: int, n: nat) -> Result<
    (Seq<EntrySpec>, int),
    GgufError,
>
    decreases n,
{
    if n == 0 {
        Ok((seq![], pos))
    } else {
        match read_entry_spec(b, limit, pos) {
            Err(e) => Err(e),
            Ok((entry, p)) => match read_entries_spec(b, limit, p, (n - 1) as nat) {
                Err(e) => Err(e),
                Ok((rest, end)) => Ok((seq![entry] + rest, end)),
            },
        }
    }
}

// ---------------------------------------------------------------------------
// What the entries mean.
// ---------------------------------------------------------------------------
pub open spec fn scalar_text(v: ValueSpec) -> Option<Seq<char>> {
    match v {
        ValueSpec::Text(s) => Some(s),
        _ => None,
    }
}

/// Unsigned values, and signed values that are not negative.
pub open spec fn scalar_u64(v: ValueSpec) -> Option<u64> {
    match v {
        ValueSpec::Unsigned(x) => Some(x),
        ValueSpec::Signed(x) => if x >= 0 {
            Some(x as u64)
        } else {
            None
        },
        _ => None,
    }
}

/// What the preview shows for a value that is not the chat template.
pub open spec fn preview_of(v: ValueSpec, byte_len: int) -> PreviewSpec {
    match v {
        ValueSpec::Unsigned(x) => PreviewSpec::Unsigned(x),
        ValueSpec::Signed(x) => PreviewSpec::Signed(x),
        ValueSpec::Float32Bits(x) => PreviewSpec::Float32Bits(x),
        ValueSpec::Float64Bits(x) => PreviewSpec::Float64Bits(x),
        ValueSpec::Bool(x) => PreviewSpec::Bool(x),
        ValueSpec::Text(s) => if s.len() > MAX_PREVIEW_CHARS {
            PreviewSpec::TruncatedText(s.subrange(0, MAX_PREVIEW_CHARS as int), byte_len as u64)
        } else {
            PreviewSpec::Text(s)
        },
        ValueSpec::Array(t, c) => PreviewSpec::Array(t, c),
    }
}

pub open spec fn key_is(key: Seq<u8>, literal: &str) -> bool {
    key == literal.spec_bytes()
}

/// Inserts into the preview: a known key is updated in place; a new key is added only
/// while fewer than 64 keys are shown.
pub open spec fn preview_insert(
    preview: Seq<(Seq<char>, PreviewSpec)>,
    key: Seq<char>,
    value: PreviewSpec,
) -> Seq<(Seq<char>, PreviewSpec)> {
    if preview.len() >= MAX_PREVIEW_ENTRIES {
        preview
    } else if exists|i: int| 0 <= i < preview.len() && preview[i].0 == key {
        let i = choose|i: int| 0 <= i < preview.len() && preview[i].0 == key;
        preview.update(i, (key, value))
    } else {
        preview.push((key, value))
    }
}

/// The effect of one entry on the accumulated facts.
pub open spec fn apply_entry(m: MetaSpec, e: EntrySpec) -> MetaSpec {
    let m2 = if key_is(e.key, "general.architecture") {
        MetaSpec { architecture: scalar_text(e.value), ..m }
    } else if key_is(e.key, "general.name") {
        MetaSpec { name: scalar_text(e.value), ..m }
    } else if key_is(e.key, "general.file_type") {
        MetaSpec {
            file_type: match scalar_u64(e.value) {
                Some(x) => if x <= u32::MAX {
                    Some(x as u32)
                } else {
                    None
                },
                None => None,
            },
            ..m
        }
    } else if key_is(e.key, "general.parameter_count") {
        MetaSpec { parameter_count: scalar_u64(e.value), ..m }
    } else if key_is(e.key, "tokenizer.chat_template") {
        MetaSpec { has_chat_template: scalar_text(e.value) is Some, ..m }
    } else if ends_with_spec(e.key, ".context_length".spec_bytes()) {
        MetaSpec { context_length: scalar_u64(e.value), ..m }
    } else if ends_with_spec(e.key, ".embedding_length".spec_bytes()) {
        MetaSpec { embedding_length: scalar_u64(e.value), ..m }
    } else if ends_with_spec(e.key, ".block_count".spec_bytes()) {
        MetaSpec { layer_count: scalar_u64(e.value), ..m }
    } else {
        m
    };
    let shown = if key_is(e.key, "tokenizer.chat_template") {
        PreviewSpec::TemplatePresent(scalar_text(e.value) is Some)
    } else {
        preview_of(
            e.value,
            match e.value {
                ValueSpec::Text(s) => encode_utf8(s).len() as int,
                _ => 0,
            },
        )
    };
    MetaSpec { preview: preview_insert(m2.preview, decode_utf8(e.key), shown), ..m2 }
}

pub open spec fn apply_entries(m: MetaSpec, entries: Seq<EntrySpec>) -> MetaSpec
    decreases entries.len(),
{
    if entries.len() == 0 {
        m
    } else {
        apply_entry(apply_entries(m, entries.drop_last()), entries.last())
    }
}

pub open spec fn initial_meta(version: u32, tensor_count: u64, metadata_count: u64) -> MetaSpec {
    MetaSpec {
        version,
        tensor_count,
        metadata_count,
        architecture: None,
        name: None,
        file_type: None,
        quantization: None,
        parameter_count: None,
        context_length: None,
        embedding_length: None,
        layer_count: None,
        has_chat_template: false,
        metadata_bytes: 0,
        preview: seq![],
    }
}

/// The facts gathered from the entries, with the byte size and the quantization name.
pub open spec fn finish_spec(
    version: u32,
    tensors: u64,
    count: u64,
    entries: Result<(Seq<EntrySpec>, int), GgufError>,
) -> Result<MetaSpec, GgufError> {
    match entries {
        Err(e) => Err(e),
        Ok((entries, end)) => {
            let m = apply_entries(initial_meta(version, tensors, count), entries);
            Ok(
                MetaSpec {
                    metadata_bytes: (end - HEADER_BYTES) as u64,
                    quantization: match m.file_type {
                        Some(t) => Some(quantization_spec(t)),
                        None => None,
                    },
                    ..m
                },
            )
        },
    }
}

/// The facts of a whole header, or the first reason it is rejected.
pub open spec fn inspect_spec(b: Seq<u8>) -> Result<MetaSpec, GgufError> {
    let limit = limit_of(b);
    match ensure_spec(0, 4, limit) {
        Err(e) => Err(e),
        Ok(_) => if b.subrange(0, 4) != "GGUF".spec_bytes() {
            Err(GgufError::BadMagic)
        } else {
            match read_uint_spec(b, limit, 4, 4) {
                Err(e) => Err(e),
                Ok((version, _)) => if !(2 <= version <= 3) {
                    Err(GgufError::UnsupportedVersion(version as u32))
                } else {
                    match read_uint_spec(b, limit, 8, 8) {
                        Err(e) => Err(e),
                        Ok((tensors, _)) => match read_uint_spec(b, limit, 16, 8) {
                            Err(e) => Err(e),
                            Ok((count, _)) => if tensors > MAX_TENSORS {
                                Err(GgufError::TooManyTensors)
                            } else if count > MAX_METADATA_ENTRIES {
                                Err(GgufError::TooManyEntries)
                            } else {
                                finish_spec(
                                    version as u32,
                                    tensors as u64,
                                    count as u64,
                                    read_entries_spec(b, limit, HEADER_BYTES as int, count),
                                )
                            },
                        },
                    }
                },
            }
        },
    }
}

/// The ggml quantization name of a `general.file_type` code.
pub open spec fn quantization_spec(file_type: u32) -> Seq<char> {
    if file_type == 0 {
        "F32"@
    } else if file_type == 1 {
        "F16"@
    } else if file_type == 2 {
        "Q4_0"@
    } else if file_type == 3 {
        "Q4_1"@
    } else if file_type == 6 {
        "Q5_0"@
    } else if file_type == 7 {
        "Q5_1"@
    } else if file_type == 8 {
        "Q8_0"@
    } else if file_type == 10 {
        "Q2_K"@
    } else if file_type == 11 {
        "Q3_K_S"@
    } else if file_type == 12 {
        "Q3_K_M"@
    } else if file_type == 13 {
        "Q3_K_L"@
    } else if file_type == 14 {
        "Q4_K_S"@
    } else if file_type == 15 {
        "Q4_K_M"@
    } else if file_type == 16 {
        "Q5_K_S"@
    } else if file_type == 17 {
        "Q5_K_M"@
    } else if file_type == 18 {
        "Q6_K"@
    } else if file_type == 19 {
        "IQ2_XXS"@
    } else if file_type == 20 {
        "IQ2_XS"@
    } else if file_type == 21 {
        "IQ3_XXS"@
    } else if file_type == 22 {
        "IQ1_S"@
    } else if file_type == 23 {
        "IQ4_NL"@
    } else if file_type == 24 {
        "IQ3_S"@
    } else if file_type == 25 {
        "IQ2_S"@
    } else if file_type == 26 {
        "IQ4_XS"@
    } else if file_type == 27 {
        "I8"@
    } else if file_type == 28 {
        "I16"@
    } else if file_type == 29 {
        "I32"@
    } else if file_type == 30 {
        "I64"@
    } else if file_type == 31 {
        "F64"@
    } else if file_type == 32 {
        "IQ1_M"@
    } else if file_type == 33 {
        "BF16"@
    } else if file_type == 34 {
        "TQ1_0"@
    } else if file_type == 35 {
        "TQ2_0"@
    } else if file_type == 36 {
        "MXFP4"@
    } else {
        "GGML type "@ + decimal_chars(file_type as nat)
    }
}

/// The ggml quantization name of a `general.file_type` code.
pub fn quantization_name(file_type: u32) -> (name: String)
    ensures
        name@ == quantization_spec(file_type),
{
    if file_type == 0 {
        "F32".to_owned()
    } else if file_type == 1 {
        "F16".to_owned()
    } else if file_type == 2 {
        "Q4_0".to_owned()
    } else if file_type == 3 {
        "Q4_1".to_owned()
    } else if file_type == 6 {
        "Q5_0".to_owned()
    } else if file_type == 7 {
        "Q5_1".to_owned()
    } else if file_type == 8 {
        "Q8_0".to_owned()
    } else if file_type == 10 {
        "Q2_K".to_owned()
    } else if file_type == 11 {
        "Q3_K_S".to_owned()
    } else if file_type == 12 {
        "Q3_K_M".to_owned()
    } else if file_type == 13 {
        "Q3_K_L".to_owned()
    } else if file_type == 14 {
        "Q4_K_S".to_owned()
    } else if file_type == 15 {
        "Q4_K_M".to_owned()
    } else if file_type == 16 {
        "Q5_K_S".to_owned()
    } else if file_type == 17 {
        "Q5_K_M".to_owned()
    } else if file_type == 18 {
        "Q6_K".to_owned()
    } else if file_type == 19 {
        "IQ2_XXS".to_owned()
    } else if file_type == 20 {
        "IQ2_XS".to_owned()
    } else if file_type == 21 {
        "IQ3_XXS".to_owned()
    } else if file_type == 22 {
        "IQ1_S".to_owned()
    } else if file_type == 23 {
        "IQ4_NL".to_owned()
    } else if file_type == 24 {
        "IQ3_S".to_owned()
    } else if file_type == 25 {
        "IQ2_S".to_owned()
    } else if file_type == 26 {
        "IQ4_XS".to_owned()
    } else if file_type == 27 {
        "I8".to_owned()
    } else if file_type == 28 {
        "I16".to_owned()
    } else if file_type == 29 {
        "I32".to_owned()
    } else if file_type == 30 {
        "I64".to_owned()
    } else if file_type == 31 {
        "F64".to_owned()
    } else if file_type == 32 {
        "IQ1_M".to_owned()
    } else if file_type == 33 {
        "BF16".to_owned()
    } else if file_type == 34 {
        "TQ1_0".to_owned()
    } else if file_type == 35 {
        "TQ2_0".to_owned()
    } else if file_type == 36 {
        "MXFP4".to_owned()
    } else {
        let mut text = "GGML type ".to_owned();
        let digits = decimal_string(file_type as u64);
        text.append(digits.as_str());
        text
    }
}


// ---------------------------------------------------------------------------
// Executable reader.
// ---------------------------------------------------------------------------
proof fn lemma_pow256_monotone(a: nat, b: nat)
    requires
        a <= b,
    ensures
        pow256(a) <= pow256(b),
    decreases b,
{
    if a < b {
        lemma_pow256_monotone(a, (b - 1) as nat);
    }
}

proof fn lemma_le_bound(b: Seq<u8>, pos: int, n: nat)
    ensures
        le_value(b, pos, n) < pow256(n),
    decreases n,
{
    if n > 0 {
        lemma_le_bound(b, pos + 1, (n - 1) as nat);
    }
}

proof fn lemma_pow256_values()
    ensures
        pow256(1) == 256,
        pow256(2) == 65536,
        pow256(4) == 4294967296,
        pow256(7) == 72057594037927936,
        pow256(8) == 18446744073709551616,
{
    reveal_with_fuel(pow256, 9);
}

/// Little-endian value of `n` bytes at `pos`.
fn read_le(b: &[u8], pos: usize, n: usize) -> (value: u64)
    requires
        1 <= n <= 8,
        pos + n <= b@.len(),
    ensures
        value as nat == le_value(b@, pos as int, n as nat),
{
    proof {
        lemma_pow256_values();
    }
    let total = b.len();
    let mut acc: u64 = 0;
    let mut i = n;
    while i > 0
        invariant
            i <= n <= 8,
            pos + n <= b@.len(),
            total == b@.len(),
            acc as nat == le_value(b@, pos + i, (n - i) as nat),
            acc < pow256((n - i) as nat),
            pow256(7) == 72057594037927936,
        decreases i,
    {
        proof {
            lemma_pow256_monotone((n - i) as nat, 7);
        }
        assert(acc < 72057594037927936);
        let byte = b[pos + i - 1];
        acc = acc * 256 + byte as u64;
        i -= 1;
        proof {
            lemma_le_bound(b@, (pos + i) as int, (n - i) as nat);
        }
    }
    acc
}

fn ensure(pos: u64, len: u64, limit: u64) -> (result: Result<u64, GgufError>)
    ensures
        match ensure_spec(pos as int, len as int, limit as int) {
            Ok(end) => result == Ok::<u64, GgufError>(end as u64),
            Err(e) => result == Err::<u64, GgufError>(e),
        },
{
    match pos.checked_add(len) {
        None => Err(GgufError::LengthOverflow),
        Some(end) => if end > limit {
            Err(GgufError::Truncated)
        } else {
            Ok(end)
        },
    }
}

fn read_uint(b: &[u8], limit: u64, pos: u64, n: u64) -> (result: Result<(u64, u64), GgufError>)
    requires
        limit <= b@.len(),
        1 <= n <= 8,
    ensures
        match read_uint_spec(b@, limit as int, pos as int, n as nat) {
            Ok((v, end)) => result == Ok::<(u64, u64), GgufError>((v as u64, end as u64)),
            Err(e) => result == Err::<(u64, u64), GgufError>(e),
        },
        read_uint_spec(b@, limit as int, pos as int, n as nat) matches Ok((v, end)) ==> {
            &&& v <= u64::MAX
            &&& (n == 4 ==> v <= u32::MAX)
            &&& end == pos + n
            &&& end <= limit
        },
{
    let total: usize = b.len();
    proof {
        assert(limit <= total);
    }
    let end = match ensure(pos, n, limit) {
        Ok(v) => v,
        Err(e) => return Err(e),
    };
    let v = read_le(b, pos as usize, n as usize);
    proof {
        lemma_pow256_values();
        lemma_le_bound(b@, pos as int, n as nat);
        lemma_pow256_monotone(n as nat, 8);
    }
    Ok((v, end))
}

/// Reads a length-prefixed string and returns its bytes.
fn read_string_bytes<'a>(b: &'a [u8], limit: u64, pos: u64, maximum: u64) -> (result: Result<(&'a [u8], u64), GgufError>)
    requires
        limit <= b@.len(),
    ensures
        match read_string_spec(b@, limit as int, pos as int, maximum) {
            Ok((bytes, end)) => result matches Ok((s, e)) && s@ == bytes && e == end,
            Err(err) => result == Err::<(&[u8], u64), GgufError>(err),
        },
{
    let total: usize = b.len();
    proof {
        assert(limit <= total);
    }
    let (len, p) = match read_uint(b, limit, pos, 8) {
        Ok(v) => v,
        Err(e) => return Err(e),
    };
    if len > maximum {
        return Err(GgufError::StringTooLarge(maximum));
    }
    let end = match ensure(p, len, limit) {
        Ok(v) => v,
        Err(e) => return Err(e),
    };
    let bytes = &b[p as usize..end as usize];
    let copy = vstd::slice::slice_to_vec(bytes);
    if utf8_string(copy).is_none() {
        return Err(GgufError::InvalidUtf8);
    }
    Ok((bytes, end))
}

fn decode_text(bytes: &[u8]) -> (text: String)
    requires
        valid_utf8(bytes@),
    ensures
        text@ == decode_utf8(bytes@),
{
    let copy = vstd::slice::slice_to_vec(bytes);
    match utf8_string(copy) {
        Some(text) => text,
        None => String::new(),
    }
}

/// Fixed element width of a GGUF value type.
pub fn fixed_width(value_type: u32) -> (width: Option<u64>)
    ensures
        width == fixed_width_spec(value_type),
{
    if value_type == 0 || value_type == 1 || value_type == 7 {
        Some(1)
    } else if value_type == 2 || value_type == 3 {
        Some(2)
    } else if 4 <= value_type && value_type <= 6 {
        Some(4)
    } else if 10 <= value_type && value_type <= 12 {
        Some(8)
    } else {
        None
    }
}

proof fn lemma_skip_strings_bound(b: Seq<u8>, limit: int, pos: int, n: nat)
    requires
        pos <= limit,
    ensures
        skip_strings_spec(b, limit, pos, n) matches Ok(end) ==> pos <= end <= limit,
    decreases n,
{
    if n > 0 {
        if let Ok((len, p)) = read_uint_spec(b, limit, pos, 8) {
            if let Ok(end) = ensure_spec(p, len as int, limit) {
                lemma_skip_strings_bound(b, limit, end, (n - 1) as nat);
            }
        }
    }
}

fn skip_strings(b: &[u8], limit: u64, pos: u64, count: u64) -> (result: Result<u64, GgufError>)
    requires
        limit <= b@.len(),
        pos <= limit,
    ensures
        match skip_strings_spec(b@, limit as int, pos as int, count as nat) {
            Ok(end) => result == Ok::<u64, GgufError>(end as u64) && pos <= end <= limit,
            Err(e) => result == Err::<u64, GgufError>(e),
        },
{
    let mut p = pos;
    let mut i: u64 = 0;
    while i < count
        invariant
            limit <= b@.len(),
            i <= count,
            p <= limit,
            skip_strings_spec(b@, limit as int, pos as int, count as nat)
                == skip_strings_spec(b@, limit as int, p as int, (count - i) as nat),
        decreases count - i,
    {
        let (len, q) = match read_uint(b, limit, p, 8) {
            Ok(v) => v,
            Err(e) => return Err(e),
        };
        if len > MAX_STRING_BYTES {
            return Err(GgufError::ArrayStringTooLarge);
        }
        p = match ensure(q, len, limit) {
            Ok(v) => v,
            Err(e) => return Err(e),
        };
        i += 1;
    }
    proof {
        lemma_skip_strings_bound(b@, limit as int, pos as int, count as nat);
    }
    Ok(p)
}

fn read_array(b: &[u8], limit: u64, pos: u64) -> (result: Result<(GgufValue, u64), GgufError>)
    requires
        limit <= b@.len(),
    ensures
        match read_array_spec(b@, limit as int, pos as int) {
            Ok((v, end)) => result matches Ok((value, e)) && value@ == v && e == end,
            Err(err) => result matches Err(x) && x == err,
        },
{
    let (element_type, p1) = match read_uint(b, limit, pos, 4) {
        Ok(v) => v,
        Err(e) => return Err(e),
    };
    let (count, p2) = match read_uint(b, limit, p1, 8) {
        Ok(v) => v,
        Err(e) => return Err(e),
    };
    if count > MAX_ARRAY_ITEMS {
        return Err(GgufError::ArrayTooLarge);
    }
    let element_type = element_type as u32;
    if element_type == 9 || element_type > 12 {
        return Err(GgufError::UnsupportedArrayType(element_type));
    }
    let end = match fixed_width(element_type) {
        Some(width) => match ensure(p2, count * width, limit) {
            Ok(v) => {
                assert(fixed_width_spec(element_type) == Some(width));
                assert((count * width) as int == count as int * width as int) by (nonlinear_arith)
                    requires count <= 2000000, width <= 8;
                v
            },
            Err(e) => return Err(e),
        },
        None => match skip_strings(b, limit, p2, count) {
            Ok(v) => v,
            Err(e) => return Err(e),
        },
    };
    Ok((GgufValue::Array { element_type, count }, end))
}

fn read_value(b: &[u8], limit: u64, pos: u64, value_type: u32) -> (result: Result<(GgufValue, u64), GgufError>)
    requires
        limit <= b@.len(),
    ensures
        match read_value_spec(b@, limit as int, pos as int, value_type) {
            Ok((v, end)) => result matches Ok((value, e)) && value@ == v && e == end,
            Err(err) => result matches Err(x) && x == err,
        },
{
    let total: usize = b.len();
    proof {
        assert(limit <= total);
    }
    if value_type == 9 {
        return read_array(b, limit, pos);
    }
    if value_type == 8 {
        let (bytes, end) = match read_string_bytes(b, limit, pos, MAX_STRING_BYTES) {
            Ok(v) => v,
            Err(e) => return Err(e),
        };
        return Ok((GgufValue::Text(decode_text(bytes)), end));
    }
    if value_type > 12 {
        return Err(GgufError::UnknownValueType(value_type));
    }
    let width = match fixed_width(value_type) {
        Some(w) => w,
        None => 1,
    };
    let end = match ensure(pos, width, limit) {
        Ok(v) => v,
        Err(e) => return Err(e),
    };
    let v = read_le(b, pos as usize, width as usize);
    proof {
        lemma_pow256_values();
        lemma_le_bound(b@, pos as int, width as nat);
    }
    if value_type == 0 || value_type == 2 || value_type == 4 || value_type == 10 {
        Ok((GgufValue::Unsigned(v), end))
    } else if value_type == 1 || value_type == 3 || value_type == 5 || value_type == 11 {
        let signed: i64 = if width == 8 {
            if v >= 0x8000_0000_0000_0000 {
                ((v - 0x8000_0000_0000_0000) as i64) - 0x7fff_ffff_ffff_ffff - 1
            } else {
                v as i64
            }
        } else {
            let full: u64 = if width == 1 { 256 } else if width == 2 { 65536 } else { 4294967296 };
            if v >= full / 2 {
                (v as i64) - (full as i64)
            } else {
                v as i64
            }
        };
        Ok((GgufValue::Signed(signed), end))
    } else if value_type == 6 {
        Ok((GgufValue::Float32Bits(v as u32), end))
    } else if value_type == 12 {
        Ok((GgufValue::Float64Bits(v), end))
    } else if v == 0 {
        Ok((GgufValue::Bool(false), end))
    } else if v == 1 {
        Ok((GgufValue::Bool(true), end))
    } else {
        Err(GgufError::InvalidBool)
    }
}


fn read_entry<'a>(b: &'a [u8], limit: u64, pos: u64) -> (result: Result<(&'a [u8], GgufValue, u64), GgufError>)
    requires
        limit <= b@.len(),
        pos <= limit,
    ensures
        match read_entry_spec(b@, limit as int, pos as int) {
            Ok((e, end)) => result matches Ok((k, v, p)) && k@ == e.key && v@ == e.value && p == end
                && valid_utf8(k@) && text_bounded(v@),
            Err(err) => result matches Err(x) && x == err,
        },
        read_entry_spec(b@, limit as int, pos as int) matches Ok((e, end)) ==> pos <= end <= limit,
{
    let (key, p1) = match read_string_bytes(b, limit, pos, MAX_KEY_BYTES) {
        Ok(v) => v,
        Err(e) => return Err(e),
    };
    let (value_type, p2) = match read_uint(b, limit, p1, 4) {
        Ok(v) => v,
        Err(e) => return Err(e),
    };
    let (value, p3) = match read_value(b, limit, p2, value_type as u32) {
        Ok(v) => v,
        Err(e) => return Err(e),
    };
    proof {
        lemma_read_string_bound(b@, limit as int, pos as int, MAX_KEY_BYTES);
        lemma_read_value_bound(b@, limit as int, p2 as int, value_type as u32);
    }
    Ok((key, value, p3))
}

proof fn lemma_read_string_bound(b: Seq<u8>, limit: int, pos: int, maximum: u64)
    requires
        0 <= pos,
        limit <= b.len(),
    ensures
        read_string_spec(b, limit, pos, maximum) matches Ok((bytes, end)) ==> {
            &&& pos <= end <= limit
            &&& bytes.len() <= maximum
            &&& encode_utf8(decode_utf8(bytes)) == bytes
        },
{
    if let Ok((bytes, end)) = read_string_spec(b, limit, pos, maximum) {
        vstd::utf8::decode_utf8_encode_utf8(bytes);
    }
}

proof fn lemma_read_value_bound(b: Seq<u8>, limit: int, pos: int, value_type: u32)
    requires
        0 <= pos <= limit,
        limit <= b.len(),
    ensures
        read_value_spec(b, limit, pos, value_type) matches Ok((v, end)) ==> pos <= end <= limit
            && text_bounded(v),
{
    if value_type == 9 {
        if let Ok((element_type, p1)) = read_uint_spec(b, limit, pos, 4) {
            if let Ok((count, p2)) = read_uint_spec(b, limit, p1, 8) {
                lemma_skip_strings_bound(b, limit, p2, count);
            }
        }
    } else if value_type == 8 && limit <= b.len() {
        lemma_read_string_bound(b, limit, pos, MAX_STRING_BYTES);
    }
}

/// Inserting a key that is already shown replaces its line.
proof fn lemma_preview_update(p: Seq<(Seq<char>, PreviewSpec)>, i: int, key: Seq<char>, value: PreviewSpec)
    requires
        preview_keys_distinct(p),
        0 <= i < p.len(),
        p.len() < MAX_PREVIEW_ENTRIES,
        p[i].0 == key,
    ensures
        preview_insert(p, key, value) == p.update(i, (key, value)),
        preview_keys_distinct(p.update(i, (key, value))),
{
    assert(exists|j: int| 0 <= j < p.len() && p[j].0 == key);
    let c = choose|j: int| 0 <= j < p.len() && p[j].0 == key;
    assert(c == i);
}

/// Text of a string value.
pub fn scalar_text_exec(value: &GgufValue) -> (text: Option<String>)
    ensures
        opt_string_view(text) == scalar_text(value@),
{
    match value {
        GgufValue::Text(s) => Some(s.clone()),
        _ => None,
    }
}

/// Unsigned reading of a value, when it has one.
pub fn scalar_u64_exec(value: &GgufValue) -> (number: Option<u64>)
    ensures
        number == scalar_u64(value@),
{
    match value {
        GgufValue::Unsigned(x) => Some(*x),
        GgufValue::Signed(x) => if *x >= 0 {
            Some(*x as u64)
        } else {
            None
        },
        _ => None,
    }
}

/// What the preview shows for a value that is not the chat template.
pub fn preview_value(value: &GgufValue) -> (shown: PreviewValue)
    requires
        text_bounded(value@),
    ensures
        shown@ == preview_of(
            value@,
            match value@ {
                ValueSpec::Text(s) => encode_utf8(s).len() as int,
                _ => 0,
            },
        ),
{
    match value {
        GgufValue::Unsigned(x) => PreviewValue::Unsigned(*x),
        GgufValue::Signed(x) => PreviewValue::Signed(*x),
        GgufValue::Float32Bits(x) => PreviewValue::Float32Bits(*x),
        GgufValue::Float64Bits(x) => PreviewValue::Float64Bits(*x),
        GgufValue::Bool(x) => PreviewValue::Bool(*x),
        GgufValue::Text(s) => {
            let text = s.as_str();
            if text.unicode_len() > MAX_PREVIEW_CHARS {
                let preview = text.substring_char(0, MAX_PREVIEW_CHARS).to_owned();
                PreviewValue::TruncatedText { preview, byte_len: text.len() as u64 }
            } else {
                PreviewValue::Text(s.clone())
            }
        },
        GgufValue::Array { element_type, count } => PreviewValue::Array {
            element_type: *element_type,
            count: *count,
        },
    }
}

/// A text value whose encoding fits the string limit.
pub open spec fn text_bounded(v: ValueSpec) -> bool {
    v matches ValueSpec::Text(s) ==> encode_utf8(s).len() <= MAX_STRING_BYTES
}

pub open spec fn preview_keys_distinct(p: Seq<(Seq<char>, PreviewSpec)>) -> bool {
    forall|i: int, j: int| 0 <= i < p.len() && 0 <= j < p.len() && i != j ==> p[i].0 != p[j].0
}

pub open spec fn preview_view(p: Seq<PreviewEntry>) -> Seq<(Seq<char>, PreviewSpec)> {
    p.map_values(|e: PreviewEntry| (e.key@, e.value@))
}

/// Adds or updates one preview line, as `preview_insert` describes.
fn insert_preview(preview: &mut Vec<PreviewEntry>, key: String, value: PreviewValue)
    requires
        preview_keys_distinct(preview_view(old(preview)@)),
    ensures
        preview_view(final(preview)@) == preview_insert(preview_view(old(preview)@), key@, value@),
        preview_keys_distinct(preview_view(final(preview)@)),
{
    let ghost old_view = preview_view(preview@);
    if preview.len() >= MAX_PREVIEW_ENTRIES {
        return;
    }
    let mut i: usize = 0;
    while i < preview.len()
        invariant
            preview_view(preview@) == old_view,
            old_view == preview_view(old(preview)@),
            preview_keys_distinct(old_view),
            preview@.len() < MAX_PREVIEW_ENTRIES,
            i <= preview@.len(),
            forall|j: int| 0 <= j < i ==> old_view[j].0 != key@,
        decreases preview@.len() - i,
    {
        if preview[i].key == key {
            let ghost k = key@;
            let ghost v = value@;
            proof {
                assert(old_view[i as int].0 == k);
                lemma_preview_update(old_view, i as int, k, v);
            }
            preview.set(i, PreviewEntry { key, value });
            proof {
                assert(preview_view(preview@) =~= old_view.update(i as int, (k, v)));
            }
            return;
        }
        i += 1;
    }
    let ghost k = key@;
    let ghost v = value@;
    preview.push(PreviewEntry { key, value });
    proof {
        assert(forall|j: int| 0 <= j < old_view.len() ==> old_view[j].0 != k);
        assert(preview_view(preview@) =~= old_view.push((k, v)));
    }
}

/// The effect of one metadata entry on the facts being gathered.
fn apply_entry_exec(meta: &mut GgufMetadata, key: &[u8], value: GgufValue)
    requires
        valid_utf8(key@),
        text_bounded(value@),
        preview_keys_distinct(old(meta)@.preview),
    ensures
        final(meta)@ == apply_entry(old(meta)@, EntrySpec { key: key@, value: value@ }),
        preview_keys_distinct(final(meta)@.preview),
{
    let is_template = bytes_eq(key, "tokenizer.chat_template".as_bytes());
    if bytes_eq(key, "general.architecture".as_bytes()) {
        meta.architecture = scalar_text_exec(&value);
    } else if bytes_eq(key, "general.name".as_bytes()) {
        meta.name = scalar_text_exec(&value);
    } else if bytes_eq(key, "general.file_type".as_bytes()) {
        meta.file_type = match scalar_u64_exec(&value) {
            Some(x) => if x <= 0xffff_ffff {
                Some(x as u32)
            } else {
                None
            },
            None => None,
        };
    } else if bytes_eq(key, "general.parameter_count".as_bytes()) {
        meta.parameter_count = scalar_u64_exec(&value);
    } else if is_template {
        meta.has_chat_template = scalar_text_exec(&value).is_some();
    } else if ends_with_bytes(key, ".context_length".as_bytes()) {
        meta.context_length = scalar_u64_exec(&value);
    } else if ends_with_bytes(key, ".embedding_length".as_bytes()) {
        meta.embedding_length = scalar_u64_exec(&value);
    } else if ends_with_bytes(key, ".block_count".as_bytes()) {
        meta.layer_count = scalar_u64_exec(&value);
    }
    let shown = if is_template {
        PreviewValue::TemplatePresent(scalar_text_exec(&value).is_some())
    } else {
        preview_value(&value)
    };
    let key_text = decode_text(key);
    insert_preview(&mut meta.metadata_preview, key_text, shown);
}

pub open spec fn prepend_entries(
    done: Seq<EntrySpec>,
    r: Result<(Seq<EntrySpec>, int), GgufError>,
) -> Result<(Seq<EntrySpec>, int), GgufError> {
    match r {
        Ok((rest, end)) => Ok((done + rest, end)),
        Err(e) => Err(e),
    }
}

proof fn lemma_entries_step(b: Seq<u8>, limit: int, pos: int, k: nat, done: Seq<EntrySpec>)
    requires
        k > 0,
        read_entry_spec(b, limit, pos) is Ok,
    ensures
        ({
            let (e, p) = read_entry_spec(b, limit, pos)->Ok_0;
            prepend_entries(done, read_entries_spec(b, limit, pos, k)) == prepend_entries(
                done.push(e),
                read_entries_spec(b, limit, p, (k - 1) as nat),
            )
        }),
{
    let (e, p) = read_entry_spec(b, limit, pos)->Ok_0;
    match read_entries_spec(b, limit, p, (k - 1) as nat) {
        Ok((rest, end)) => {
            assert(done + (seq![e] + rest) =~= done.push(e) + rest);
        },
        Err(_) => {},
    }
}

/// Reads the GGUF header facts from the leading bytes of a model file.
///
/// At most the first 64 MiB are read; the input may be the whole file or any longer
/// prefix of it.
pub fn inspect_gguf_bytes(b: &[u8]) -> (result: Result<GgufMetadata, GgufError>)
    ensures
        match inspect_spec(b@) {
            Ok(m) => result matches Ok(r) && r@ == m,
            Err(e) => result matches Err(x) && x == e,
        },
{
    let total = b.len();
    let limit: u64 = if (total as u64) < MAX_METADATA_BYTES {
        total as u64
    } else {
        MAX_METADATA_BYTES
    };
    let _ = match ensure(0, 4, limit) {
        Ok(v) => v,
        Err(e) => return Err(e),
    };
    let magic = &b[0..4];
    if !bytes_eq(magic, "GGUF".as_bytes()) {
        return Err(GgufError::BadMagic);
    }
    let (version, _) = match read_uint(b, limit, 4, 4) {
        Ok(v) => v,
        Err(e) => return Err(e),
    };
    if !(2 <= version && version <= 3) {
        return Err(GgufError::UnsupportedVersion(version as u32));
    }
    let version = version as u32;
    let (tensor_count, _) = match read_uint(b, limit, 8, 8) {
        Ok(v) => v,
        Err(e) => return Err(e),
    };
    let (metadata_count, _) = match read_uint(b, limit, 16, 8) {
        Ok(v) => v,
        Err(e) => return Err(e),
    };
    if tensor_count > MAX_TENSORS {
        return Err(GgufError::TooManyTensors);
    }
    if metadata_count > MAX_METADATA_ENTRIES {
        return Err(GgufError::TooManyEntries);
    }
    let mut meta = GgufMetadata {
        version,
        tensor_count,
        metadata_count,
        architecture: None,
        name: None,
        file_type: None,
        quantization: None,
        parameter_count: None,
        context_length: None,
        embedding_length: None,
        layer_count: None,
        has_chat_template: false,
        metadata_bytes: 0,
        metadata_preview: Vec::new(),
    };
    let ghost initial = initial_meta(version, tensor_count, metadata_count);
    proof {
        assert(meta@.preview =~= Seq::<(Seq<char>, PreviewSpec)>::empty());
        assert(meta@ == initial);
    }
    let ghost mut done: Seq<EntrySpec> = seq![];
    proof {
        assert(prepend_entries(done, read_entries_spec(b@, limit as int, HEADER_BYTES as int, metadata_count as nat))
            == read_entries_spec(b@, limit as int, HEADER_BYTES as int, metadata_count as nat)) by {
            match read_entries_spec(b@, limit as int, HEADER_BYTES as int, metadata_count as nat) {
                Ok((rest, end)) => {
                    assert(done + rest =~= rest);
                },
                Err(_) => {},
            }
        }
    }
    let mut pos: u64 = HEADER_BYTES;
    let mut i: u64 = 0;
    while i < metadata_count
        invariant
            limit as int == limit_of(b@),
            limit <= b@.len(),
            HEADER_BYTES <= pos <= limit,
            i <= metadata_count,
            inspect_spec(b@) == finish_spec(version, tensor_count, metadata_count,
                prepend_entries(done, read_entries_spec(b@, limit as int, pos as int, (metadata_count - i) as nat))),
            meta@ == apply_entries(initial, done),
            preview_keys_distinct(meta@.preview),
        decreases metadata_count - i,
    {
        let (key, value, next) = match read_entry(b, limit, pos) {
            Ok(v) => v,
            Err(e) => {
                proof {
                    assert(read_entries_spec(b@, limit as int, pos as int, (metadata_count - i) as nat)
                        == Err::<(Seq<EntrySpec>, int), GgufError>(e));
                }
                return Err(e);
            },
        };
        proof {
            let e = EntrySpec { key: key@, value: value@ };
            lemma_entries_step(b@, limit as int, pos as int, (metadata_count - i) as nat, done);
            assert(done.push(e).drop_last() =~= done);
            done = done.push(e);
        }
        apply_entry_exec(&mut meta, key, value);
        pos = next;
        i += 1;
    }
    proof {
        assert(done + Seq::<EntrySpec>::empty() =~= done);
    }
    meta.metadata_bytes = pos - HEADER_BYTES;
    meta.quantization = match meta.file_type {
        Some(t) => Some(quantization_name(t)),
        None => None,
    };
    Ok(meta)
}

/// The explanation given for a rejected header.
pub open spec fn gguf_error_text(e: GgufError) -> Seq<char> {
    match e {
        GgufError::BadMagic => "the file does not start with the GGUF magic bytes"@,
        GgufError::UnsupportedVersion(v) => "GGUF version "@ + decimal_chars(v as nat) + " is not supported; expected version 2 or 3"@,
        GgufError::TooManyTensors => "the tensor count exceeds the safety limit"@,
        GgufError::TooManyEntries => "the metadata entry count exceeds the safety limit"@,
        GgufError::LengthOverflow => "a metadata length overflowed"@,
        GgufError::Truncated => "the GGUF header is truncated or exceeds the 64 MiB metadata limit"@,
        GgufError::StringTooLarge(m) => "a GGUF string exceeds the "@ + decimal_chars(m as nat) + "-byte safety limit"@,
        GgufError::InvalidUtf8 => "GGUF metadata contains invalid UTF-8"@,
        GgufError::InvalidBool => "a GGUF boolean has an invalid value"@,
        GgufError::UnknownValueType(t) => "GGUF metadata uses unknown value type "@ + decimal_chars(t as nat),
        GgufError::ArrayTooLarge => "a GGUF metadata array exceeds the item safety limit"@,
        GgufError::UnsupportedArrayType(t) => "GGUF metadata array uses unsupported type "@ + decimal_chars(t as nat),
        GgufError::ArrayStringTooLarge => "a string in a GGUF metadata array is too large"@,
    }
}

impl GgufError {
    /// The rejection as an invalid-model error.
    pub fn into_app_error(self) -> (error: AppError)
        ensures
            is_error(error, ErrorKind::InvalidModel, gguf_error_text(self)),
    {
        let text: String = match self {
            GgufError::BadMagic => "the file does not start with the GGUF magic bytes".to_owned(),
            GgufError::UnsupportedVersion(v) => {
                let mut t = "GGUF version ".to_owned();
                t.append(decimal_string(v as u64).as_str());
                t.append(" is not supported; expected version 2 or 3");
                t
            },
            GgufError::TooManyTensors => "the tensor count exceeds the safety limit".to_owned(),
            GgufError::TooManyEntries => "the metadata entry count exceeds the safety limit".to_owned(),
            GgufError::LengthOverflow => "a metadata length overflowed".to_owned(),
            GgufError::Truncated => "the GGUF header is truncated or exceeds the 64 MiB metadata limit".to_owned(),
            GgufError::StringTooLarge(m) => {
                let mut t = "a GGUF string exceeds the ".to_owned();
                t.append(decimal_string(m).as_str());
                t.append("-byte safety limit");
                t
            },
            GgufError::InvalidUtf8 => "GGUF metadata contains invalid UTF-8".to_owned(),
            GgufError::InvalidBool => "a GGUF boolean has an invalid value".to_owned(),
            GgufError::UnknownValueType(t) => {
                let mut x = "GGUF metadata uses unknown value type ".to_owned();
                x.append(decimal_string(t as u64).as_str());
                x
            },
            GgufError::ArrayTooLarge => "a GGUF metadata array exceeds the item safety limit".to_owned(),
            GgufError::UnsupportedArrayType(t) => {
                let mut x = "GGUF metadata array uses unsupported type ".to_owned();
                x.append(decimal_string(t as u64).as_str());
                x
            },
            GgufError::ArrayStringTooLarge => "a string in a GGUF metadata array is too large".to_owned(),
        };
        AppError::InvalidModel(text)
    }
}

} // verus!
