//! Pinned engine packages: their manifest, the Windows-safe paths they may contain, the
//! approved download hosts, the extraction budget and the installed-file inventory.
use vstd::prelude::*;
use crate::engines::utf8_len;
use crate::errors::{is_error, AppError, ErrorKind};
use crate::text::{
    string_of,
    ascii_lower_chars, ascii_lower_spec, chars_eq, chars_of, chars_start_with, decimal_chars,
    decimal_string, push_char, starts_with, str_eq, texts,
};
use vstd::string::StringExecFns;

verus! {

pub const MAX_ARCHIVE_ENTRIES: usize = 512;
pub const MAX_ARCHIVE_SIZE: u64 = 2147483648;
pub const MAX_SINGLE_FILE_SIZE: u64 = 1073741824;
pub const MAX_UNCOMPRESSED_SIZE: u64 = 2147483648;

/// The pinned description of an engine package.
#[derive(Debug, Clone)]
pub struct EnginePackageManifest {
    pub manifest_version: u16,
    pub id: String,
    pub engine_id: String,
    pub version: String,
    pub platform: String,
    pub architecture: String,
    pub route: String,
    pub source_url: String,
    pub archive_file_name: String,
    pub archive_size_bytes: u64,
    pub archive_sha256: String,
    pub expected_files: Vec<String>,
}

/// Where an installed package is in its life.
#[derive(Debug, Clone, Copy, PartialEq, Eq, Structural)]
pub enum EnginePackageState {
    Installing,
    Ready,
    Invalid,
    Missing,
}

pub open spec fn package_state_text(state: EnginePackageState) -> Seq<char> {
    match state {
        EnginePackageState::Installing => "installing"@,
        EnginePackageState::Ready => "ready"@,
        EnginePackageState::Invalid => "invalid"@,
        EnginePackageState::Missing => "missing"@,
    }
}

pub open spec fn parse_package_state_spec(value: Seq<char>) -> Option<EnginePackageState> {
    if value == "installing"@ {
        Some(EnginePackageState::Installing)
    } else if value == "ready"@ {
        Some(EnginePackageState::Ready)
    } else if value == "invalid"@ {
        Some(EnginePackageState::Invalid)
    } else if value == "missing"@ {
        Some(EnginePackageState::Missing)
    } else {
        None
    }
}

impl EnginePackageState {
    /// The stored name of the state.
    pub fn as_str(self) -> (text: &'static str)
        ensures
            text@ == package_state_text(self),
    {
        match self {
            EnginePackageState::Installing => "installing",
            EnginePackageState::Ready => "ready",
            EnginePackageState::Invalid => "invalid",
            EnginePackageState::Missing => "missing",
        }
    }

    /// The state a stored name denotes.
    pub fn parse(value: &str) -> (state: Option<EnginePackageState>)
        ensures
            state == parse_package_state_spec(value@),
    {
        if str_eq(value, "installing") {
            Some(EnginePackageState::Installing)
        } else if str_eq(value, "ready") {
            Some(EnginePackageState::Ready)
        } else if str_eq(value, "invalid") {
            Some(EnginePackageState::Invalid)
        } else if str_eq(value, "missing") {
            Some(EnginePackageState::Missing)
        } else {
            None
        }
    }
}

/// A stored package state name reads back as the state that was stored, and a name that
/// parses is the stored name of what it parses to.
pub proof fn law_package_state_names_round_trip(state: EnginePackageState, value: Seq<char>)
    ensures
        parse_package_state_spec(package_state_text(state)) == Some(state),
        parse_package_state_spec(value) matches Some(s) ==> package_state_text(s) == value,
{
    reveal_strlit("installing");
    reveal_strlit("ready");
    reveal_strlit("invalid");
    reveal_strlit("missing");
    assert("installing"@.len() == 10 && "ready"@.len() == 5 && "invalid"@.len() == 7 && "missing"@.len() == 7);
    assert("invalid"@[0] != "missing"@[0]);
}

/// One extracted file with its size and lowercase hexadecimal SHA-256.
#[derive(Debug, Clone)]
pub struct InstalledPackageFile {
    pub path: String,
    pub size_bytes: u64,
    pub sha256: String,
}

/// What is known of an installed package.
#[derive(Debug, Clone)]
pub struct EnginePackageRecord {
    pub id: String,
    pub engine_id: String,
    pub version: String,
    pub platform: String,
    pub architecture: String,
    pub route: String,
    pub install_path: String,
    pub archive_sha256: String,
    pub files: Vec<InstalledPackageFile>,
    pub state: EnginePackageState,
    pub source_url: Option<String>,
    pub error: Option<String>,
    pub installed_at: Option<String>,
    pub verified_at: Option<String>,
}

/// A catalog entry and its installation, if any.
#[derive(Debug, Clone)]
pub struct EnginePackageStatus {
    pub manifest: EnginePackageManifest,
    pub installation: Option<EnginePackageRecord>,
}

#[derive(Debug, Clone)]
pub struct EnginePackageIdRequest {
    pub package_id: String,
}

#[derive(Debug, Clone)]
pub struct ImportEnginePackageRequest {
    pub package_id: String,
    pub path: String,
}

fn package_error(text: &str) -> (e: AppError)
    ensures
        is_error(e, ErrorKind::EnginePackage, text@),
{
    AppError::EnginePackage(text.to_owned())
}

// ---------------------------------------------------------------------------------------------
// Windows-safe names and relative paths
/// Characters that Windows forbids in names.
pub open spec fn is_forbidden_char(c: char) -> bool {
    (c as u32) <= 0x1f || c == '<' || c == '>' || c == ':' || c == '"' || c == '/' || c == '\\'
        || c == '|' || c == '?' || c == '*'
}

pub open spec fn ascii_upper_char(c: char) -> char {
    if 'a' <= c <= 'z' {
        ((c as u32) - 32) as char
    } else {
        c
    }
}

/// The part of a name before its first `.`.
pub open spec fn before_first_dot(s: Seq<char>) -> Seq<char>
    decreases s.len(),
{
    if s.len() == 0 {
        s
    } else if s[0] == '.' {
        Seq::empty()
    } else {
        seq![s[0]] + before_first_dot(s.drop_first())
    }
}

/// The text without trailing spaces and dots.
pub open spec fn trim_end_dots_spaces(s: Seq<char>) -> Seq<char>
    decreases s.len(),
{
    if s.len() > 0 && (s.last() == '.' || s.last() == ' ') {
        trim_end_dots_spaces(s.drop_last())
    } else {
        s
    }
}

/// The reserved device stem of a name: what precedes its first dot, without trailing dots
/// and spaces, in ASCII capitals.
pub open spec fn device_stem(value: Seq<char>) -> Seq<char> {
    trim_end_dots_spaces(before_first_dot(value)).map_values(|c: char| ascii_upper_char(c))
}

/// `CON`, `PRN`, `AUX`, `NUL`, or `COM1`-`COM9` and `LPT1`-`LPT9`.
pub open spec fn is_device_stem(stem: Seq<char>) -> bool {
    ||| stem == seq!['C', 'O', 'N']
    ||| stem == seq!['P', 'R', 'N']
    ||| stem == seq!['A', 'U', 'X']
    ||| stem == seq!['N', 'U', 'L']
    ||| (stem.len() == 4 && (stem.subrange(0, 3) == seq!['C', 'O', 'M'] || stem.subrange(0, 3) == seq!['L', 'P', 'T'])
        && '1' <= stem[3] <= '9')
}

/// A file or directory name that Windows stores as written: not empty, ASCII only, not
/// ending in a dot or space, free of control and reserved characters, and not a device name.
pub open spec fn safe_windows_name_spec(value: Seq<char>) -> bool {
    &&& value.len() > 0
    &&& (forall|i: int| 0 <= i < value.len() ==> (#[trigger] value[i] as u32) < 128)
    &&& value.last() != '.' && value.last() != ' '
    &&& (forall|i: int| 0 <= i < value.len() ==> !is_forbidden_char(#[trigger] value[i]))
    &&& !is_device_stem(device_stem(value))
}

fn forbidden(c: char) -> (result: bool)
    ensures
        result == is_forbidden_char(c),
{
    (c as u32) <= 0x1f || c == '<' || c == '>' || c == ':' || c == '"' || c == '/' || c == '\\'
        || c == '|' || c == '?' || c == '*'
}

fn upper(c: char) -> (d: char)
    ensures
        d == ascii_upper_char(c),
{
    if 'a' <= c && c <= 'z' {
        let b = c as u8;
        (b - 32) as char
    } else {
        c
    }
}

proof fn lemma_before_first_dot(s: Seq<char>, k: int)
    requires
        0 <= k <= s.len(),
        forall|i: int| 0 <= i < k ==> s[i] != '.',
        k == s.len() || s[k] == '.',
    ensures
        before_first_dot(s) == s.subrange(0, k),
    decreases s.len(),
{
    if s.len() > 0 && s[0] != '.' {
        lemma_before_first_dot(s.drop_first(), k - 1);
        assert(seq![s[0]] + s.drop_first().subrange(0, k - 1) =~= s.subrange(0, k));
    } else if s.len() > 0 {
        assert(s.subrange(0, k) =~= Seq::<char>::empty());
    } else {
        assert(s.subrange(0, k) =~= s);
    }
}

proof fn lemma_trim_end_dots_spaces(s: Seq<char>, k: int)
    requires
        0 <= k <= s.len(),
        forall|i: int| k <= i < s.len() ==> s[i] == '.' || s[i] == ' ',
        k == 0 || (s[k - 1] != '.' && s[k - 1] != ' '),
    ensures
        trim_end_dots_spaces(s) == s.subrange(0, k),
    decreases s.len(),
{
    if k < s.len() {
        lemma_trim_end_dots_spaces(s.drop_last(), k);
        assert(s.drop_last().subrange(0, k) =~= s.subrange(0, k));
    } else {
        assert(s.subrange(0, k) =~= s);
    }
}

/// Whether a single path component is a name Windows stores as written.
pub fn safe_windows_name(value: &str) -> (safe: bool)
    ensures
        safe == safe_windows_name_spec(value@),
{
    let chars = chars_of(value);
    let n = chars.len();
    if n == 0 {
        return false;
    }
    if chars[n - 1] == '.' || chars[n - 1] == ' ' {
        return false;
    }
    let mut i: usize = 0;
    while i < n
        invariant
            chars@ == value@,
            n == chars@.len(),
            i <= n,
            forall|k: int| 0 <= k < i ==> (#[trigger] value@[k] as u32) < 128 && !is_forbidden_char(value@[k]),
        decreases n - i,
    {
        if (chars[i] as u32) >= 128 || forbidden(chars[i]) {
            return false;
        }
        i += 1;
    }
    let mut dot: usize = 0;
    while dot < n && chars[dot] != '.'
        invariant
            chars@ == value@,
            n == chars@.len(),
            dot <= n,
            forall|k: int| 0 <= k < dot ==> value@[k] != '.',
        decreases n - dot,
    {
        dot += 1;
    }
    proof {
        lemma_before_first_dot(value@, dot as int);
    }
    let mut end = dot;
    while end > 0 && (chars[end - 1] == '.' || chars[end - 1] == ' ')
        invariant
            chars@ == value@,
            n == chars@.len(),
            end <= dot <= n,
            forall|k: int| end <= k < dot ==> value@[k] == '.' || value@[k] == ' ',
        decreases end,
    {
        end -= 1;
    }
    proof {
        let b = value@.subrange(0, dot as int);
        lemma_trim_end_dots_spaces(b, end as int);
        assert(b.subrange(0, end as int) =~= value@.subrange(0, end as int));
    }
    let mut stem: Vec<char> = Vec::new();
    let mut j: usize = 0;
    while j < end
        invariant
            chars@ == value@,
            n == chars@.len(),
            end <= n,
            j <= end,
            stem@ == value@.subrange(0, j as int).map_values(|c: char| ascii_upper_char(c)),
        decreases end - j,
    {
        stem.push(upper(chars[j]));
        assert(value@.subrange(0, j + 1).map_values(|c: char| ascii_upper_char(c)) =~= value@.subrange(0, j as int).map_values(|c: char| ascii_upper_char(c)).push(ascii_upper_char(value@[j as int])));
        j += 1;
    }
    assert(stem@ == device_stem(value@));
    let con = vec!['C', 'O', 'N'];
    let prn = vec!['P', 'R', 'N'];
    let aux = vec!['A', 'U', 'X'];
    let nul = vec!['N', 'U', 'L'];
    let com = vec!['C', 'O', 'M'];
    let lpt = vec!['L', 'P', 'T'];
    assert(con@ =~= seq!['C', 'O', 'N'] && prn@ =~= seq!['P', 'R', 'N'] && aux@ =~= seq!['A', 'U', 'X'] && nul@ =~= seq!['N', 'U', 'L']);
    assert(com@ =~= seq!['C', 'O', 'M'] && lpt@ =~= seq!['L', 'P', 'T']);
    if chars_eq(&stem, &con) || chars_eq(&stem, &prn) || chars_eq(&stem, &aux) || chars_eq(&stem, &nul) {
        return false;
    }
    if stem.len() == 4 && (chars_start_with(&stem, &com) || chars_start_with(&stem, &lpt)) && '1' <= stem[3] && stem[3] <= '9' {
        return false;
    }
    true
}

/// A path separator on Windows.
pub open spec fn is_separator(c: char) -> bool {
    c == '/' || c == '\\'
}

/// A segment that contributes nothing: empty, or `.` after the first segment.
pub open spec fn is_skipped_segment(seg: Seq<char>, index: nat) -> bool {
    seg.len() == 0 || (seg == seq!['.'] && index > 0)
}

/// A segment that is skipped or a Windows-safe name.
pub open spec fn segment_ok(seg: Seq<char>, index: nat) -> bool {
    is_skipped_segment(seg, index) || safe_windows_name_spec(seg)
}

/// Reading a path left to right: whether every finished segment was acceptable, how many
/// segments are finished, and the unfinished segment.
pub open spec fn scan_path(path: Seq<char>) -> (bool, nat, Seq<char>)
    decreases path.len(),
{
    if path.len() == 0 {
        (true, 0, Seq::empty())
    } else {
        let (ok, index, current) = scan_path(path.drop_last());
        let c = path.last();
        if is_separator(c) {
            (ok && segment_ok(current, index), index + 1, Seq::empty())
        } else {
            (ok, index, current.push(c))
        }
    }
}

/// A relative path that stays inside its root on Windows: not empty, not starting at a root
/// separator, and every segment between `/` or `\\` separators is a Windows-safe name,
/// except that empty segments and `.` segments after the first are ignored, as
/// `Path::components` does. `..` and a leading `.` are not safe names.
pub open spec fn safe_relative_path_spec(path: Seq<char>) -> bool {
    let (ok, index, current) = scan_path(path);
    path.len() > 0 && !is_separator(path[0]) && ok && segment_ok(current, index)
}

/// Scanning keeps as unfinished segment exactly the characters after the last separator.
proof fn lemma_scan_current(s: Seq<char>, a: int)
    requires
        0 <= a <= s.len(),
        a == 0 || is_separator(s[a - 1]),
        forall|k: int| a <= k < s.len() ==> !is_separator(#[trigger] s[k]),
    ensures
        scan_path(s).2 == s.subrange(a, s.len() as int),
    decreases s.len(),
{
    if s.len() == 0 {
    } else if a == s.len() {
        assert(s.subrange(a, s.len() as int) =~= Seq::<char>::empty());
    } else {
        let t = s.drop_last();
        assert forall|k: int| a <= k < t.len() implies !is_separator(#[trigger] t[k]) by {
            assert(t[k] == s[k]);
        }
        if a > 0 {
            assert(t[a - 1] == s[a - 1]);
        }
        lemma_scan_current(t, a);
        assert(s.subrange(a, s.len() as int) =~= t.subrange(a, t.len() as int).push(s.last()));
    }
}

/// A scan that accepted the whole path accepted every prefix of it.
proof fn lemma_scan_ok_prefix(s: Seq<char>, j: int)
    requires
        0 <= j <= s.len(),
        scan_path(s).0,
    ensures
        scan_path(s.subrange(0, j)).0,
    decreases s.len() - j,
{
    if j == s.len() {
        assert(s.subrange(0, j) =~= s);
    } else {
        lemma_scan_ok_prefix(s, j + 1);
        assert(s.subrange(0, j + 1).drop_last() =~= s.subrange(0, j));
    }
}

/// Every whole segment of a safe relative path is acceptable.
proof fn lemma_safe_segment(p: Seq<char>, a: int, b: int) -> (index: nat)
    requires
        safe_relative_path_spec(p),
        0 <= a <= b <= p.len(),
        a == 0 || is_separator(p[a - 1]),
        b == p.len() || is_separator(p[b]),
        forall|k: int| a <= k < b ==> !is_separator(#[trigger] p[k]),
    ensures
        segment_ok(p.subrange(a, b), index),
{
    if b == p.len() {
        lemma_scan_current(p, a);
        scan_path(p).1
    } else {
        let q = p.subrange(0, b);
        let r = p.subrange(0, b + 1);
        lemma_scan_ok_prefix(p, b + 1);
        assert forall|k: int| a <= k < q.len() implies !is_separator(#[trigger] q[k]) by {
            assert(q[k] == p[k]);
        }
        if a > 0 {
            assert(q[a - 1] == p[a - 1]);
        }
        lemma_scan_current(q, a);
        assert(r.drop_last() =~= q);
        assert(q.subrange(a, b) =~= p.subrange(a, b));
        scan_path(q).1
    }
}

/// The first separator at or after `k`, or the end of the path.
pub open spec fn next_separator(p: Seq<char>, k: int) -> int
    decreases p.len() - k,
{
    if k >= p.len() {
        p.len() as int
    } else if is_separator(p[k]) {
        k
    } else {
        next_separator(p, k + 1)
    }
}

proof fn lemma_next_separator(p: Seq<char>, k: int)
    requires
        0 <= k <= p.len(),
    ensures
        k <= next_separator(p, k) <= p.len(),
        next_separator(p, k) == p.len() || is_separator(p[next_separator(p, k)]),
        forall|j: int| k <= j < next_separator(p, k) ==> !is_separator(#[trigger] p[j]),
    decreases p.len() - k,
{
    if k < p.len() && !is_separator(p[k]) {
        lemma_next_separator(p, k + 1);
    }
}

/// A safe relative path stays inside the directory it is joined to: it is not absolute, has
/// no drive prefix, and none of its segments is `..`.
pub proof fn law_safe_paths_stay_inside(p: Seq<char>)
    requires
        safe_relative_path_spec(p),
    ensures
        !crate::models::catalog::is_absolute_windows(p),
        !(p.len() >= 2 && crate::models::catalog::is_ascii_letter(p[0]) && p[1] == ':'),
        !crate::models::catalog::has_parent_segment(p),
{
    if p.len() >= 2 && p[1] == ':' {
        lemma_next_separator(p, 1);
        let b = next_separator(p, 1);
        assert(!is_separator(p[0]));
        assert forall|k: int| 0 <= k < b implies !is_separator(#[trigger] p[k]) by {
            if k >= 1 {
            }
        }
        let idx = lemma_safe_segment(p, 0, b);
        let seg = p.subrange(0, b);
        assert(seg[1] == ':');
        assert(is_forbidden_char(seg[1]));
        assert(seg.len() >= 2 && seg != seq!['.']);
    }
    assert(crate::models::catalog::without_drive(p) == p);
    if crate::models::catalog::has_parent_segment(p) {
        let i = choose|i: int| #[trigger] crate::models::catalog::parent_at(crate::models::catalog::without_drive(p), i);
        assert(crate::models::catalog::parent_at(p, i));
        assert forall|k: int| i <= k < i + 2 implies !is_separator(#[trigger] p[k]) by {
        }
        let idx = lemma_safe_segment(p, i, i + 2);
        let seg = p.subrange(i, i + 2);
        assert(seg =~= seq!['.', '.']);
        assert(seg.last() == '.');
    }
}

fn segment_acceptable(seg: &Vec<char>, index: usize) -> (ok: bool)
    ensures
        ok == segment_ok(seg@, index as nat),
{
    if seg.len() == 0 || (seg.len() == 1 && seg[0] == '.' && index > 0) {
        proof {
            if seg@.len() == 1 {
                assert(seg@ =~= seq!['.']);
            }
        }
        return true;
    }
    proof {
        if seg@ == seq!['.'] {
            assert(seg@.len() == 1);
        }
    }
    let text = crate::text::string_of(seg, 0, seg.len());
    assert(seg@.subrange(0, seg@.len() as int) =~= seg@);
    safe_windows_name(text.as_str())
}

/// Whether an archive or inventory path is a safe relative path (see
/// `safe_relative_path_spec`).
pub fn safe_relative_path(path: &str) -> (safe: bool)
    ensures
        safe == safe_relative_path_spec(path@),
{
    let chars = chars_of(path);
    let n = chars.len();
    if n == 0 || chars[0] == '/' || chars[0] == '\\' {
        return false;
    }
    let mut ok = true;
    let mut current: Vec<char> = Vec::new();
    let mut index: usize = 0;
    let mut i: usize = 0;
    assert(path@.subrange(0, 0) =~= Seq::<char>::empty());
    while i < n
        invariant
            chars@ == path@,
            n == chars@.len(),
            i <= n,
            index <= i,
            scan_path(path@.subrange(0, i as int)) == (ok, index as nat, current@),
        decreases n - i,
    {
        let c = chars[i];
        proof {
            assert(path@.subrange(0, i + 1).drop_last() =~= path@.subrange(0, i as int));
        }
        if c == '/' || c == '\\' {
            let good = segment_acceptable(&current, index);
            ok = ok && good;
            current = Vec::new();
            index += 1;
        } else {
            current.push(c);
        }
        i += 1;
    }
    assert(path@.subrange(0, n as int) =~= path@);
    ok && segment_acceptable(&current, index)
}

// ---------------------------------------------------------------------------------------------
// Download URLs
/// The parts of a parsed URL that the download rules read.
#[derive(Debug, Clone)]
pub struct UrlParts {
    pub scheme: String,
    pub port: Option<u16>,
    pub username: String,
    pub host: Option<String>,
}

pub struct UrlPartsView {
    pub scheme: Seq<char>,
    pub port: Option<u16>,
    pub username: Seq<char>,
    pub host: Option<Seq<char>>,
}

impl View for UrlParts {
    type V = UrlPartsView;

    open spec fn view(&self) -> UrlPartsView {
        UrlPartsView {
            scheme: self.scheme@,
            port: self.port,
            username: self.username@,
            host: match self.host {
                Some(h) => Some(h@),
                None => None,
            },
        }
    }
}

/// What `url::Url::parse` makes of a text: the URL's parts, or the text its parse error
/// displays.
pub uninterp spec fn parsed_url(text: Seq<char>) -> Result<UrlPartsView, Seq<char>>;

/// Parses a URL with `reqwest::Url::parse` (the `url` crate) and reads its scheme, explicit
/// port (`Url::port`, which is `None` for the scheme's default port), user name and host.
/// Claims only that the outcome is a function of the text, named `parsed_url`.
#[verifier::external_body]
fn parse_url(text: &str) -> (result: Result<UrlParts, String>)
    ensures
        match (result, parsed_url(text@)) {
            (Ok(p), Ok(v)) => p@ == v,
            (Err(e), Err(d)) => e@ == d,
            _ => false,
        },
{
    match reqwest::Url::parse(text) {
        Ok(url) => Ok(UrlParts {
            scheme: url.scheme().to_owned(),
            port: url.port(),
            username: url.username().to_owned(),
            host: url.host_str().map(str::to_owned),
        }),
        Err(error) => Err(error.to_string()),
    }
}

/// A download may come only over HTTPS on the default port, without user information, from
/// `github.com` or a host under `.githubusercontent.com` (ignoring ASCII case).
pub open spec fn approved_download_url_spec(url: UrlPartsView) -> bool {
    &&& url.scheme == "https"@
    &&& url.port is None
    &&& url.username.len() == 0
    &&& url.host matches Some(h) && {
        let host = ascii_lower_spec(h);
        host == "github.com"@ || (host.len() >= ".githubusercontent.com"@.len()
            && host.subrange(host.len() - ".githubusercontent.com"@.len(), host.len() as int) == ".githubusercontent.com"@)
    }
}

fn ends_with_chars(s: &Vec<char>, suffix: &Vec<char>) -> (result: bool)
    ensures
        result == (s@.len() >= suffix@.len() && s@.subrange(s@.len() - suffix@.len(), s@.len() as int) == suffix@),
{
    if suffix.len() > s.len() {
        return false;
    }
    crate::text::matches_at(s, suffix, s.len() - suffix.len())
}

pub fn approved_download_url(url: &UrlParts) -> (approved: bool)
    ensures
        approved == approved_download_url_spec(url@),
{
    if !str_eq(url.scheme.as_str(), "https") || url.port.is_some() || url.username.as_str().unicode_len() > 0 {
        return false;
    }
    match &url.host {
        None => false,
        Some(h) => {
            let host = ascii_lower_chars(h.as_str());
            let github = chars_of("github.com");
            let suffix = chars_of(".githubusercontent.com");
            chars_eq(&host, &github) || ends_with_chars(&host, &suffix)
        },
    }
}

// ---------------------------------------------------------------------------------------------
// Manifest
/// A manifest identifier: 1 to 128 bytes of ASCII letters, digits, `.`, `-` and `_`.
pub open spec fn is_manifest_identifier(v: Seq<char>) -> bool {
    &&& v.len() > 0
    &&& utf8_len(v) <= 128
    &&& forall|i: int| 0 <= i < v.len() ==> crate::text::is_ascii_alnum(#[trigger] v[i]) || v[i] == '.' || v[i] == '-' || v[i] == '_'
}

/// Lowercase hexadecimal digits.
pub open spec fn is_lower_hex(v: Seq<char>) -> bool {
    forall|i: int| 0 <= i < v.len() ==> ('0' <= #[trigger] v[i] <= '9' || 'a' <= v[i] <= 'f')
}

/// The archive name is a single Windows path component (no separator and no drive prefix)
/// ending in `.zip`.
pub open spec fn archive_name_ok(name: Seq<char>) -> bool {
    &&& !name.contains('/')
    &&& !name.contains('\\')
    &&& !(name.len() >= 2 && (('a' <= name[0] <= 'z') || ('A' <= name[0] <= 'Z')) && name[1] == ':')
    &&& name.len() >= 4 && name.subrange(name.len() - 4, name.len() as int) == ".zip"@
}

/// Two expected paths that differ only in ASCII case.
pub open spec fn has_case_duplicate(paths: Seq<String>) -> bool {
    exists|i: int, j: int| 0 <= j < i < paths.len() && ascii_lower_spec(#[trigger] paths[j]@) == ascii_lower_spec(#[trigger] paths[i]@)
}

/// The checks on a package manifest, the first failure reported.
pub open spec fn manifest_check(m: EnginePackageManifest) -> Result<(), Seq<char>> {
    if m.manifest_version != 1 {
        Err("the package manifest version is unsupported"@)
    } else if !(is_manifest_identifier(m.id@) && is_manifest_identifier(m.engine_id@) && is_manifest_identifier(m.version@)
        && is_manifest_identifier(m.platform@) && is_manifest_identifier(m.architecture@) && is_manifest_identifier(m.route@)) {
        Err("the package manifest contains an invalid identifier"@)
    } else if m.platform@ != "windows"@ || m.architecture@ != "x86_64"@ {
        Err("the bundled package does not target Windows x64"@)
    } else if m.archive_size_bytes == 0 || m.archive_size_bytes > MAX_ARCHIVE_SIZE {
        Err("the package archive size exceeds its safety limit"@)
    } else if utf8_len(m.archive_sha256@) != 64 || !is_lower_hex(m.archive_sha256@) {
        Err("the package SHA-256 is malformed"@)
    } else if !archive_name_ok(m.archive_file_name@) {
        Err("the package archive filename is invalid"@)
    } else {
        match parsed_url(m.source_url@) {
            Err(d) => Err("the package URL is invalid: "@ + d),
            Ok(url) => if !approved_download_url_spec(url) {
                Err("the package URL is not on an approved HTTPS host"@)
            } else if m.expected_files@.len() == 0 {
                Err("the package manifest has no expected files"@)
            } else if (exists|i: int| 0 <= i < m.expected_files@.len() && !safe_relative_path_spec(#[trigger] m.expected_files@[i]@))
                || has_case_duplicate(m.expected_files@) {
                Err("the package manifest contains an unsafe or duplicate expected path"@)
            } else {
                Ok(())
            },
        }
    }
}

fn manifest_identifier(v: &str) -> (ok: bool)
    ensures
        ok == is_manifest_identifier(v@),
{
    if v.len() > 128 {
        return false;
    }
    let chars = chars_of(v);
    if chars.len() == 0 {
        return false;
    }
    let mut i: usize = 0;
    while i < chars.len()
        invariant
            chars@ == v@,
            i <= chars@.len(),
            forall|k: int| 0 <= k < i ==> crate::text::is_ascii_alnum(#[trigger] v@[k]) || v@[k] == '.' || v@[k] == '-' || v@[k] == '_',
        decreases chars@.len() - i,
    {
        let c = chars[i];
        if !(crate::text::ascii_alnum(c) || c == '.' || c == '-' || c == '_') {
            return false;
        }
        i += 1;
    }
    true
}

fn lower_hex(v: &str) -> (ok: bool)
    ensures
        ok == is_lower_hex(v@),
{
    let chars = chars_of(v);
    let mut i: usize = 0;
    while i < chars.len()
        invariant
            chars@ == v@,
            i <= chars@.len(),
            forall|k: int| 0 <= k < i ==> ('0' <= #[trigger] v@[k] <= '9' || 'a' <= v@[k] <= 'f'),
        decreases chars@.len() - i,
    {
        let c = chars[i];
        if !(('0' <= c && c <= '9') || ('a' <= c && c <= 'f')) {
            return false;
        }
        i += 1;
    }
    true
}

fn archive_name_valid(name: &str) -> (ok: bool)
    ensures
        ok == archive_name_ok(name@),
{
    let chars = chars_of(name);
    if crate::text::contains_char(name, '/') || crate::text::contains_char(name, '\\') {
        return false;
    }
    let n = chars.len();
    if n >= 2 && (('a' <= chars[0] && chars[0] <= 'z') || ('A' <= chars[0] && chars[0] <= 'Z')) && chars[1] == ':' {
        return false;
    }
    let zip = chars_of(".zip");
    if n < 4 {
        proof {
            reveal_strlit(".zip");
        }
        return false;
    }
    proof {
        reveal_strlit(".zip");
    }
    ends_with_chars(&chars, &zip)
}

/// No path is unsafe and no two differ only in ASCII case.
fn expected_paths_ok(paths: &Vec<String>) -> (ok: bool)
    ensures
        ok == !((exists|i: int| 0 <= i < paths@.len() && !safe_relative_path_spec(#[trigger] paths@[i]@)) || has_case_duplicate(paths@)),
{
    let mut lowered: Vec<Vec<char>> = Vec::new();
    let mut i: usize = 0;
    while i < paths.len()
        invariant
            i <= paths@.len(),
            lowered@.len() == i,
            forall|k: int| 0 <= k < i ==> (#[trigger] lowered@[k])@ == ascii_lower_spec(paths@[k]@),
            forall|k: int| 0 <= k < i ==> safe_relative_path_spec(#[trigger] paths@[k]@),
            !(exists|a: int, b: int| 0 <= b < a < i && ascii_lower_spec(#[trigger] paths@[b]@) == ascii_lower_spec(#[trigger] paths@[a]@)),
        decreases paths@.len() - i,
    {
        let p = paths[i].as_str();
        if !safe_relative_path(p) {
            return false;
        }
        let low = ascii_lower_chars(p);
        let mut j: usize = 0;
        while j < i
            invariant
                i < paths@.len(),
                j <= i,
                lowered@.len() == i,
                low@ == ascii_lower_spec(paths@[i as int]@),
                forall|k: int| 0 <= k < i ==> (#[trigger] lowered@[k])@ == ascii_lower_spec(paths@[k]@),
                forall|b: int| 0 <= b < j ==> ascii_lower_spec(#[trigger] paths@[b]@) != ascii_lower_spec(paths@[i as int]@),
            decreases i - j,
        {
            if chars_eq(&lowered[j], &low) {
                assert(ascii_lower_spec(paths@[j as int]@) == ascii_lower_spec(paths@[i as int]@));
                return false;
            }
            j += 1;
        }
        lowered.push(low);
        i += 1;
    }
    true
}

/// Accepts a manifest or refuses it, as `manifest_check` says.
pub fn validate_manifest(manifest: &EnginePackageManifest) -> (result: Result<(), AppError>)
    ensures
        match (result, manifest_check(*manifest)) {
            (Ok(()), Ok(())) => true,
            (Err(e), Err(d)) => is_error(e, ErrorKind::EnginePackage, d),
            _ => false,
        },
{
    if manifest.manifest_version != 1 {
        return Err(package_error("the package manifest version is unsupported"));
    }
    if !(manifest_identifier(manifest.id.as_str()) && manifest_identifier(manifest.engine_id.as_str())
        && manifest_identifier(manifest.version.as_str()) && manifest_identifier(manifest.platform.as_str())
        && manifest_identifier(manifest.architecture.as_str()) && manifest_identifier(manifest.route.as_str())) {
        return Err(package_error("the package manifest contains an invalid identifier"));
    }
    if !str_eq(manifest.platform.as_str(), "windows") || !str_eq(manifest.architecture.as_str(), "x86_64") {
        return Err(package_error("the bundled package does not target Windows x64"));
    }
    if manifest.archive_size_bytes == 0 || manifest.archive_size_bytes > MAX_ARCHIVE_SIZE {
        return Err(package_error("the package archive size exceeds its safety limit"));
    }
    if manifest.archive_sha256.as_str().len() != 64 || !lower_hex(manifest.archive_sha256.as_str()) {
        return Err(package_error("the package SHA-256 is malformed"));
    }
    if !archive_name_valid(manifest.archive_file_name.as_str()) {
        return Err(package_error("the package archive filename is invalid"));
    }
    let url = match parse_url(manifest.source_url.as_str()) {
        Ok(u) => u,
        Err(d) => return Err(AppError::EnginePackage(crate::text::cat("the package URL is invalid: ", d.as_str()))),
    };
    if !approved_download_url(&url) {
        return Err(package_error("the package URL is not on an approved HTTPS host"));
    }
    if manifest.expected_files.len() == 0 {
        return Err(package_error("the package manifest has no expected files"));
    }
    if !expected_paths_ok(&manifest.expected_files) {
        return Err(package_error("the package manifest contains an unsafe or duplicate expected path"));
    }
    Ok(())
}

// ---------------------------------------------------------------------------------------------
// Downloads and extraction
/// The download rules on a source URL: it must parse and be approved.
pub open spec fn download_url_check(text: Seq<char>) -> Result<UrlPartsView, Seq<char>> {
    match parsed_url(text) {
        Err(d) => Err("the package URL is invalid: "@ + d),
        Ok(u) => if approved_download_url_spec(u) {
            Ok(u)
        } else {
            Err("the package URL is not on an approved HTTPS host"@)
        },
    }
}

/// Parses a source URL and accepts it only when it is approved for downloads.
pub fn check_download_url(text: &str) -> (result: Result<UrlParts, AppError>)
    ensures
        match (result, download_url_check(text@)) {
            (Ok(u), Ok(v)) => u@ == v,
            (Err(e), Err(d)) => is_error(e, ErrorKind::EnginePackage, d),
            _ => false,
        },
{
    let url = match parse_url(text) {
        Ok(u) => u,
        Err(d) => return Err(AppError::EnginePackage(crate::text::cat("the package URL is invalid: ", d.as_str()))),
    };
    if !approved_download_url(&url) {
        return Err(package_error("the package URL is not on an approved HTTPS host"));
    }
    Ok(url)
}

/// Downloads need internet access to be enabled in Settings.
pub fn check_internet_access(enabled: bool) -> (result: Result<(), AppError>)
    ensures
        enabled ==> result is Ok,
        !enabled ==> (result matches Err(e) && is_error(e, ErrorKind::EnginePackage, "internet access is disabled in Settings"@)),
{
    if enabled {
        Ok(())
    } else {
        Err(package_error("internet access is disabled in Settings"))
    }
}

/// The refusal of a package that the catalog does not hold.
pub fn not_in_catalog_error(package_id: &str) -> (error: AppError)
    ensures
        is_error(error, ErrorKind::EnginePackage, "engine package "@ + package_id@ + " is not in the catalog"@),
{
    let mut text = crate::text::cat("engine package ", package_id);
    text.append(" is not in the catalog");
    AppError::EnginePackage(text)
}

/// The refusal of a package that has no installation record.
pub fn not_installed_error(package_id: &str) -> (error: AppError)
    ensures
        is_error(error, ErrorKind::EnginePackage, "engine package "@ + package_id@ + " is not installed"@),
{
    let mut text = crate::text::cat("engine package ", package_id);
    text.append(" is not installed");
    AppError::EnginePackage(text)
}

/// A stored installation must sit where the catalog's manifest puts it.
pub fn check_install_path(paths_match: bool) -> (result: Result<(), AppError>)
    ensures
        paths_match ==> result is Ok,
        !paths_match ==> (result matches Err(e) && is_error(e, ErrorKind::EnginePackage, "the stored package path does not match the bundled manifest"@)),
{
    if paths_match {
        Ok(())
    } else {
        Err(package_error("the stored package path does not match the bundled manifest"))
    }
}

/// A download may follow at most five redirects, each to an approved URL; the refusal is the
/// text of the redirect error.
pub fn check_redirect(previous_redirects: usize, target: &str) -> (result: Result<(), String>)
    ensures
        previous_redirects >= 5 ==> (result matches Err(t) && t@ == "engine package redirect limit exceeded"@),
        previous_redirects < 5 && download_url_check(target@) is Ok ==> result is Ok,
        previous_redirects < 5 && download_url_check(target@) is Err ==> (result matches Err(t)
            && t@ == "engine package redirect host is not approved"@),
{
    if previous_redirects >= 5 {
        return Err("engine package redirect limit exceeded".to_owned());
    }
    match check_download_url(target) {
        Ok(_) => Ok(()),
        Err(_) => Err("engine package redirect host is not approved".to_owned()),
    }
}


/// A download's announced length must be the pinned archive size.
pub fn check_content_length(length: Option<u64>, expected: u64) -> (result: Result<(), AppError>)
    ensures
        match length {
            Some(l) => if l != expected {
                result matches Err(e) && is_error(e, ErrorKind::EnginePackage, "download size is "@ + decimal_chars(l as nat) + " bytes; expected "@ + decimal_chars(expected as nat))
            } else {
                result is Ok
            },
            None => result is Ok,
        },
{
    match length {
        Some(l) => if l != expected {
            let mut text = "download size is ".to_owned();
            text.append(decimal_string(l).as_str());
            text.append(" bytes; expected ");
            text.append(decimal_string(expected).as_str());
            Err(AppError::EnginePackage(text))
        } else {
            Ok(())
        },
        None => Ok(()),
    }
}

/// The bytes received so far by a download of a pinned size.
pub struct DownloadTally {
    pub expected: u64,
    pub received: u64,
}

impl DownloadTally {
    pub fn new(expected: u64) -> (tally: DownloadTally)
        ensures
            tally.expected == expected,
            tally.received == 0,
    {
        DownloadTally { expected, received: 0 }
    }

    /// Counts one chunk; more than the pinned size is refused.
    pub fn add(&mut self, chunk_len: u64) -> (result: Result<(), AppError>)
        ensures
            final(self).expected == old(self).expected,
            old(self).received + chunk_len > u64::MAX ==> (result matches Err(e) && is_error(e, ErrorKind::EnginePackage, "the package download size overflowed"@)),
            old(self).received + chunk_len <= u64::MAX ==> final(self).received == old(self).received + chunk_len,
            old(self).received + chunk_len <= u64::MAX && final(self).received > old(self).expected
                ==> (result matches Err(e) && is_error(e, ErrorKind::EnginePackage, "the package download exceeded its expected size"@)),
            old(self).received + chunk_len <= old(self).expected ==> result is Ok,
    {
        if self.received > u64::MAX - chunk_len {
            return Err(package_error("the package download size overflowed"));
        }
        self.received = self.received + chunk_len;
        if self.received > self.expected {
            return Err(package_error("the package download exceeded its expected size"));
        }
        Ok(())
    }

    /// The download is complete when exactly the pinned size arrived and its digest (lowercase
    /// hexadecimal) is the pinned SHA-256.
    pub fn finish(&self, digest: &str, expected_sha256: &str) -> (result: Result<(), AppError>)
        ensures
            self.received != self.expected ==> (result matches Err(e) && is_error(e, ErrorKind::EnginePackage,
                "download ended at "@ + decimal_chars(self.received as nat) + " bytes; expected "@ + decimal_chars(self.expected as nat))),
            self.received == self.expected && digest@ != expected_sha256@ ==> (result matches Err(e)
                && is_error(e, ErrorKind::EnginePackage, "the downloaded package checksum did not match the manifest"@)),
            self.received == self.expected && digest@ == expected_sha256@ ==> result is Ok,
    {
        if self.received != self.expected {
            let mut text = "download ended at ".to_owned();
            text.append(decimal_string(self.received).as_str());
            text.append(" bytes; expected ");
            text.append(decimal_string(self.expected).as_str());
            return Err(AppError::EnginePackage(text));
        }
        if !str_eq(digest, expected_sha256) {
            return Err(package_error("the downloaded package checksum did not match the manifest"));
        }
        Ok(())
    }
}

/// An archive must have exactly the pinned size and SHA-256 before anything is extracted.
pub fn check_archive_identity(size: u64, sha256: &str, manifest: &EnginePackageManifest) -> (result: Result<(), AppError>)
    ensures
        (size == manifest.archive_size_bytes && sha256@ == manifest.archive_sha256@) <==> result is Ok,
        result matches Err(e) ==> is_error(e, ErrorKind::EnginePackage, "the package archive does not match the pinned size and SHA-256"@),
{
    if size != manifest.archive_size_bytes || !str_eq(sha256, manifest.archive_sha256.as_str()) {
        return Err(package_error("the package archive does not match the pinned size and SHA-256"));
    }
    Ok(())
}

/// An archive holds 1 to 512 entries.
pub fn check_archive_entry_count(count: usize) -> (result: Result<(), AppError>)
    ensures
        (1 <= count <= MAX_ARCHIVE_ENTRIES) <==> result is Ok,
        result matches Err(e) ==> is_error(e, ErrorKind::EnginePackage, "the package ZIP exceeds the 512-entry safety limit"@),
{
    if count == 0 || count > MAX_ARCHIVE_ENTRIES {
        return Err(package_error("the package ZIP exceeds the 512-entry safety limit"));
    }
    Ok(())
}

/// The most an archive may expand to: twelve times its size, and never more than 2 GiB.
pub open spec fn extraction_limit_spec(archive_size: u64) -> u64 {
    let grown = if archive_size * 12 > u64::MAX { u64::MAX as int } else { archive_size * 12 };
    if grown > MAX_UNCOMPRESSED_SIZE { MAX_UNCOMPRESSED_SIZE } else { grown as u64 }
}

pub fn extraction_limit(archive_size: u64) -> (limit: u64)
    ensures
        limit == extraction_limit_spec(archive_size),
{
    let grown = if archive_size > u64::MAX / 12 { u64::MAX } else { archive_size * 12 };
    if grown > MAX_UNCOMPRESSED_SIZE { MAX_UNCOMPRESSED_SIZE } else { grown }
}

/// The declared sizes of the entries accepted so far, against the archive's limit.
pub struct ExtractionBudget {
    pub limit: u64,
    pub total: u64,
}

/// The checks on one archive entry, the first failure reported: a path the archive encloses,
/// safe and not a link, at most 1 GiB, and a running total within the limit.
pub open spec fn entry_check(budget: ExtractionBudget, enclosed: Option<Seq<char>>, is_symlink: bool, size: u64) -> Result<u64, Seq<char>> {
    match enclosed {
        None => Err("the package ZIP contains an unsafe path"@),
        Some(path) => if !safe_relative_path_spec(path) || is_symlink {
            Err("the package ZIP contains a traversal path or symbolic link"@)
        } else if size > MAX_SINGLE_FILE_SIZE {
            Err("a package file exceeds the per-file extraction limit"@)
        } else if budget.total + size > u64::MAX {
            Err("package size overflow"@)
        } else if budget.total + size > budget.limit {
            Err("the package exceeds the total extraction limit"@)
        } else {
            Ok((budget.total + size) as u64)
        },
    }
}

impl ExtractionBudget {
    pub fn new(archive_size: u64) -> (budget: ExtractionBudget)
        ensures
            budget.limit == extraction_limit_spec(archive_size),
            budget.total == 0,
    {
        ExtractionBudget { limit: extraction_limit(archive_size), total: 0 }
    }

    /// Accepts one entry or refuses it, as `entry_check` says; an accepted entry adds its size.
    pub fn accept_entry(&mut self, enclosed: Option<&str>, is_symlink: bool, size: u64) -> (result: Result<(), AppError>)
        ensures
            final(self).limit == old(self).limit,
            match entry_check(*old(self), match enclosed { Some(p) => Some(p@), None => None }, is_symlink, size) {
                Ok(total) => result is Ok && final(self).total == total,
                Err(d) => (result matches Err(e) && is_error(e, ErrorKind::EnginePackage, d)),
            },
    {
        let path = match enclosed {
            None => return Err(package_error("the package ZIP contains an unsafe path")),
            Some(p) => p,
        };
        if !safe_relative_path(path) || is_symlink {
            return Err(package_error("the package ZIP contains a traversal path or symbolic link"));
        }
        if size > MAX_SINGLE_FILE_SIZE {
            return Err(package_error("a package file exceeds the per-file extraction limit"));
        }
        if self.total > u64::MAX - size {
            return Err(package_error("package size overflow"));
        }
        let total = self.total + size;
        if total > self.limit {
            return Err(package_error("the package exceeds the total extraction limit"));
        }
        self.total = total;
        Ok(())
    }
}

/// The bytes written for one extracted file against its declared size.
pub struct FileWriteTally {
    pub declared: u64,
    pub written: u64,
}

impl FileWriteTally {
    pub fn new(declared: u64) -> (tally: FileWriteTally)
        ensures
            tally.declared == declared,
            tally.written == 0,
    {
        FileWriteTally { declared, written: 0 }
    }

    /// Counts one read; more than the declared size, or more than 1 GiB, is refused.
    pub fn add(&mut self, read: u64) -> (result: Result<(), AppError>)
        ensures
            final(self).declared == old(self).declared,
            old(self).written + read > u64::MAX ==> (result matches Err(e) && is_error(e, ErrorKind::EnginePackage, "extracted package size overflow"@)),
            old(self).written + read <= u64::MAX ==> final(self).written == old(self).written + read,
            old(self).written + read <= u64::MAX && (final(self).written > old(self).declared || final(self).written > MAX_SINGLE_FILE_SIZE)
                ==> (result matches Err(e) && is_error(e, ErrorKind::EnginePackage, "an extracted package file exceeded its declared size"@)),
            old(self).written + read <= old(self).declared && old(self).written + read <= MAX_SINGLE_FILE_SIZE ==> result is Ok,
    {
        if self.written > u64::MAX - read {
            return Err(package_error("extracted package size overflow"));
        }
        self.written = self.written + read;
        if self.written > self.declared || self.written > MAX_SINGLE_FILE_SIZE {
            return Err(package_error("an extracted package file exceeded its declared size"));
        }
        Ok(())
    }

    /// The file is complete only when its declared size was written.
    pub fn finish(&self) -> (result: Result<u64, AppError>)
        ensures
            self.written == self.declared ==> result == Ok::<u64, AppError>(self.written),
            self.written != self.declared ==> (result matches Err(e) && is_error(e, ErrorKind::EnginePackage, "an extracted package file ended before its declared size"@)),
    {
        if self.written != self.declared {
            return Err(package_error("an extracted package file ended before its declared size"));
        }
        Ok(self.written)
    }
}

/// The inventory form of a path: backslashes become forward slashes.
pub open spec fn inventory_path_spec(path: Seq<char>) -> Seq<char> {
    path.map_values(|c: char| if c == '\\' { '/' } else { c })
}

pub fn inventory_path(path: &str) -> (text: String)
    ensures
        text@ == inventory_path_spec(path@),
{
    let chars = chars_of(path);
    let mut text = String::new();
    let mut i: usize = 0;
    while i < chars.len()
        invariant
            chars@ == path@,
            i <= chars@.len(),
            text@ == inventory_path_spec(path@.subrange(0, i as int)),
        decreases chars@.len() - i,
    {
        let c = chars[i];
        push_char(&mut text, if c == '\\' { '/' } else { c });
        assert(inventory_path_spec(path@.subrange(0, i + 1)) =~= inventory_path_spec(path@.subrange(0, i as int)).push(if c == '\\' { '/' } else { c }));
        i += 1;
    }
    assert(path@.subrange(0, chars@.len() as int) =~= path@);
    text
}

/// Some extracted file has the path, ignoring ASCII case.
pub open spec fn has_file(files: Seq<InstalledPackageFile>, path: Seq<char>) -> bool {
    exists|i: int| 0 <= i < files.len() && ascii_lower_spec(#[trigger] files[i].path@) == ascii_lower_spec(path)
}

fn find_file(files: &[InstalledPackageFile], path: &str) -> (found: bool)
    ensures
        found == has_file(files@, path@),
{
    let wanted = ascii_lower_chars(path);
    let mut i: usize = 0;
    while i < files.len()
        invariant
            i <= files@.len(),
            wanted@ == ascii_lower_spec(path@),
            forall|k: int| 0 <= k < i ==> ascii_lower_spec(#[trigger] files@[k].path@) != ascii_lower_spec(path@),
        decreases files@.len() - i,
    {
        let have = ascii_lower_chars(files[i].path.as_str());
        if chars_eq(&have, &wanted) {
            return true;
        }
        i += 1;
    }
    false
}

/// Every expected file was extracted (ignoring ASCII case); the first one missing is named.
pub fn check_expected_files(files: &[InstalledPackageFile], expected: &[String]) -> (result: Result<(), AppError>)
    ensures
        (forall|i: int| 0 <= i < expected@.len() ==> has_file(files@, #[trigger] expected@[i]@)) <==> result is Ok,
        result matches Err(e) ==> exists|i: int| {
            &&& 0 <= i < expected@.len()
            &&& !has_file(files@, #[trigger] expected@[i]@)
            &&& (forall|k: int| 0 <= k < i ==> has_file(files@, #[trigger] expected@[k]@))
            &&& is_error(e, ErrorKind::EnginePackage, "the package is missing expected file "@ + expected@[i]@)
        },
{
    let mut i: usize = 0;
    while i < expected.len()
        invariant
            i <= expected@.len(),
            forall|k: int| 0 <= k < i ==> has_file(files@, #[trigger] expected@[k]@),
        decreases expected@.len() - i,
    {
        if !find_file(files, expected[i].as_str()) {
            return Err(AppError::EnginePackage(crate::text::cat("the package is missing expected file ", expected[i].as_str())));
        }
        i += 1;
    }
    Ok(())
}

/// The hexadecimal digit of a nibble, in lowercase.
pub open spec fn hex_digit(n: u8) -> char {
    if n < 10 { (('0' as u8) + n) as char } else { (('a' as u8) + n - 10) as char }
}

/// Bytes as lowercase hexadecimal, two digits each.
pub open spec fn hex_lower_spec(bytes: Seq<u8>) -> Seq<char>
    decreases bytes.len(),
{
    if bytes.len() == 0 {
        Seq::empty()
    } else {
        hex_lower_spec(bytes.drop_last()) + seq![hex_digit(bytes.last() / 16), hex_digit(bytes.last() % 16)]
    }
}

fn nibble_char(n: u8) -> (c: char)
    requires
        n < 16,
    ensures
        c == hex_digit(n),
{
    if n < 10 { (48u8 + n) as char } else { (87u8 + n) as char }
}

/// The SHA-256 digest of a byte string.
pub uninterp spec fn sha256_digest(data: Seq<u8>) -> Seq<u8>;

/// Hashes bytes with `sha2::Sha256::digest`. Claims that the 32-byte digest is a function of
/// the bytes alone, named `sha256_digest`.
#[verifier::external_body]
pub(crate) fn sha256(data: &[u8]) -> (digest: Vec<u8>)
    ensures
        digest@ == sha256_digest(data@),
        digest@.len() == 32,
{
    <sha2::Sha256 as sha2::Digest>::digest(data).to_vec()
}

/// A digest as the inventory stores it.
pub fn hex_lower(bytes: &[u8]) -> (text: String)
    ensures
        text@ == hex_lower_spec(bytes@),
{
    let mut text = String::new();
    let mut i: usize = 0;
    while i < bytes.len()
        invariant
            i <= bytes@.len(),
            text@ == hex_lower_spec(bytes@.subrange(0, i as int)),
        decreases bytes@.len() - i,
    {
        let b = bytes[i];
        push_char(&mut text, nibble_char(b / 16));
        push_char(&mut text, nibble_char(b % 16));
        proof {
            let next = bytes@.subrange(0, i + 1);
            assert(next.drop_last() =~= bytes@.subrange(0, i as int));
            assert(text@ =~= hex_lower_spec(next));
        }
        i += 1;
    }
    assert(bytes@.subrange(0, bytes@.len() as int) =~= bytes@);
    text
}

// ---------------------------------------------------------------------------------------------
// Records
/// The record of an install in progress.
pub fn pending_record(manifest: &EnginePackageManifest, install_path: String, source_url: Option<String>) -> (record: EnginePackageRecord)
    ensures
        record.id == manifest.id,
        record.engine_id == manifest.engine_id,
        record.version == manifest.version,
        record.platform == manifest.platform,
        record.architecture == manifest.architecture,
        record.route == manifest.route,
        record.install_path == install_path,
        record.archive_sha256 == manifest.archive_sha256,
        record.files@.len() == 0,
        record.state == EnginePackageState::Installing,
        record.source_url == source_url,
        record.error is None,
        record.installed_at is None,
        record.verified_at is None,
{
    EnginePackageRecord {
        id: manifest.id.clone(),
        engine_id: manifest.engine_id.clone(),
        version: manifest.version.clone(),
        platform: manifest.platform.clone(),
        architecture: manifest.architecture.clone(),
        route: manifest.route.clone(),
        install_path,
        archive_sha256: manifest.archive_sha256.clone(),
        files: Vec::new(),
        state: EnginePackageState::Installing,
        source_url,
        error: None,
        installed_at: None,
        verified_at: None,
    }
}

/// The record of a finished install, installed and verified at `now`.
pub fn ready_record(
    manifest: &EnginePackageManifest,
    install_path: String,
    files: Vec<InstalledPackageFile>,
    source_url: Option<String>,
    now: String,
) -> (record: EnginePackageRecord)
    ensures
        record.id == manifest.id,
        record.engine_id == manifest.engine_id,
        record.version == manifest.version,
        record.platform == manifest.platform,
        record.architecture == manifest.architecture,
        record.route == manifest.route,
        record.install_path == install_path,
        record.archive_sha256 == manifest.archive_sha256,
        record.files == files,
        record.state == EnginePackageState::Ready,
        record.source_url == source_url,
        record.error is None,
        record.installed_at == Some(now),
        record.verified_at == Some(now),
{
    EnginePackageRecord {
        id: manifest.id.clone(),
        engine_id: manifest.engine_id.clone(),
        version: manifest.version.clone(),
        platform: manifest.platform.clone(),
        architecture: manifest.architecture.clone(),
        route: manifest.route.clone(),
        install_path,
        archive_sha256: manifest.archive_sha256.clone(),
        files,
        state: EnginePackageState::Ready,
        source_url,
        error: None,
        installed_at: Some(now.clone()),
        verified_at: Some(now),
    }
}

/// The record of a failed install: the pending record marked invalid with the error text.
pub fn failed_install_record(manifest: &EnginePackageManifest, install_path: String, source_url: Option<String>, error: String, now: String) -> (record: EnginePackageRecord)
    ensures
        record.id == manifest.id,
        record.engine_id == manifest.engine_id,
        record.version == manifest.version,
        record.platform == manifest.platform,
        record.architecture == manifest.architecture,
        record.route == manifest.route,
        record.archive_sha256 == manifest.archive_sha256,
        record.install_path == install_path,
        record.files@.len() == 0,
        record.state == EnginePackageState::Invalid,
        record.source_url == source_url,
        record.error == Some(error),
        record.installed_at is None,
        record.verified_at == Some(now),
{
    let mut record = pending_record(manifest, install_path, source_url);
    record.state = EnginePackageState::Invalid;
    record.error = Some(error);
    record.verified_at = Some(now);
    record
}

/// A failed verification marks the record invalid when its directory still exists and
/// missing when it does not.
pub fn mark_verification_failed(record: &mut EnginePackageRecord, directory_exists: bool, error: String, now: String)
    ensures
        *final(record) == (EnginePackageRecord {
            state: if directory_exists { EnginePackageState::Invalid } else { EnginePackageState::Missing },
            error: Some(error),
            verified_at: Some(now),
            ..*old(record)
        }),
{
    record.state = if directory_exists { EnginePackageState::Invalid } else { EnginePackageState::Missing };
    record.error = Some(error);
    record.verified_at = Some(now);
}

/// A successful verification marks the record ready.
pub fn mark_verified(record: &mut EnginePackageRecord, now: String)
    ensures
        *final(record) == (EnginePackageRecord {
            state: EnginePackageState::Ready,
            error: None,
            verified_at: Some(now),
            ..*old(record)
        }),
{
    record.state = EnginePackageState::Ready;
    record.error = None;
    record.verified_at = Some(now);
}

/// What a stored record becomes when the application starts: a record at the wrong path or
/// from an interrupted install becomes invalid, a ready record without its directory becomes
/// missing, and anything else stays as it is (`None`).
pub open spec fn reconcile_spec(state: EnginePackageState, path_matches: bool, directory_present: bool) -> Option<(EnginePackageState, Seq<char>)> {
    if !path_matches {
        Some((EnginePackageState::Invalid, "the stored package path does not match the bundled manifest"@))
    } else if state == EnginePackageState::Installing {
        Some((EnginePackageState::Invalid, "the previous package install was interrupted"@))
    } else if state == EnginePackageState::Ready && !directory_present {
        Some((EnginePackageState::Missing, "the installed package directory is missing"@))
    } else {
        None
    }
}

pub fn reconcile_record(record: &mut EnginePackageRecord, path_matches: bool, directory_present: bool, now: String) -> (changed: bool)
    ensures
        changed == reconcile_spec(old(record).state, path_matches, directory_present) is Some,
        match reconcile_spec(old(record).state, path_matches, directory_present) {
            Some((state, detail)) => (final(record).error matches Some(e) && e@ == detail) && *final(record) == (EnginePackageRecord {
                state: state,
                error: final(record).error,
                verified_at: Some(now),
                ..*old(record)
            }),
            None => *final(record) == *old(record),
        },
{
    let update: Option<(EnginePackageState, &str)> = if !path_matches {
        Some((EnginePackageState::Invalid, "the stored package path does not match the bundled manifest"))
    } else if record.state == EnginePackageState::Installing {
        Some((EnginePackageState::Invalid, "the previous package install was interrupted"))
    } else if record.state == EnginePackageState::Ready && !directory_present {
        Some((EnginePackageState::Missing, "the installed package directory is missing"))
    } else {
        None
    };
    match update {
        Some((state, detail)) => {
            record.state = state;
            record.error = Some(detail.to_owned());
            record.verified_at = Some(now);
            true
        },
        None => false,
    }
}

/// The installed package can serve the runtime: ready, for llama.cpp, on the CPU route.
pub fn package_ready_for_runtime(record: &EnginePackageRecord) -> (ready: bool)
    ensures
        ready == (record.state == EnginePackageState::Ready && record.engine_id@ == "llama.cpp"@ && record.route@ == "cpu"@),
{
    record.state == EnginePackageState::Ready && str_eq(record.engine_id.as_str(), "llama.cpp") && str_eq(record.route.as_str(), "cpu")
}

/// The set of inventory paths in ASCII lower case.
pub open spec fn lowered_paths(files: Seq<InstalledPackageFile>) -> Set<Seq<char>> {
    Set::new(|p: Seq<char>| exists|i: int| 0 <= i < files.len() && p == ascii_lower_spec(#[trigger] files[i].path@))
}

pub open spec fn text_set(v: Seq<String>) -> Set<Seq<char>> {
    Set::new(|p: Seq<char>| exists|i: int| 0 <= i < v.len() && p == #[trigger] v[i]@)
}

fn contains_text(v: &[String], t: &Vec<char>) -> (found: bool)
    ensures
        found == exists|i: int| 0 <= i < v@.len() && t@ == #[trigger] v@[i]@,
{
    let mut i: usize = 0;
    while i < v.len()
        invariant
            i <= v@.len(),
            forall|k: int| 0 <= k < i ==> t@ != #[trigger] v@[k]@,
        decreases v@.len() - i,
    {
        let c = chars_of(v[i].as_str());
        if chars_eq(&c, t) {
            return true;
        }
        i += 1;
    }
    false
}

/// The files found on disk (their inventory paths, lowered) are exactly the recorded files.
pub fn inventory_matches(actual_lowered: &[String], files: &[InstalledPackageFile]) -> (same: bool)
    ensures
        same == (text_set(actual_lowered@) == lowered_paths(files@)),
{
    let mut i: usize = 0;
    while i < files.len()
        invariant
            i <= files@.len(),
            forall|k: int| 0 <= k < i ==> text_set(actual_lowered@).contains(ascii_lower_spec(#[trigger] files@[k].path@)),
        decreases files@.len() - i,
    {
        let low = ascii_lower_chars(files[i].path.as_str());
        if !contains_text(actual_lowered, &low) {
            proof {
                assert(lowered_paths(files@).contains(low@));
                assert(!text_set(actual_lowered@).contains(low@));
            }
            return false;
        }
        i += 1;
    }
    let mut j: usize = 0;
    while j < actual_lowered.len()
        invariant
            j <= actual_lowered@.len(),
            forall|k: int| 0 <= k < files@.len() ==> text_set(actual_lowered@).contains(ascii_lower_spec(#[trigger] files@[k].path@)),
            forall|k: int| 0 <= k < j ==> lowered_paths(files@).contains(#[trigger] actual_lowered@[k]@),
        decreases actual_lowered@.len() - j,
    {
        let t = chars_of(actual_lowered[j].as_str());
        let mut found = false;
        let mut k: usize = 0;
        while k < files.len()
            invariant
                k <= files@.len(),
                j < actual_lowered@.len(),
                t@ == actual_lowered@[j as int]@,
                found ==> lowered_paths(files@).contains(t@),
                !found ==> forall|m: int| 0 <= m < k ==> ascii_lower_spec(#[trigger] files@[m].path@) != t@,
            decreases files@.len() - k,
        {
            let low = ascii_lower_chars(files[k].path.as_str());
            if chars_eq(&low, &t) {
                found = true;
            }
            k += 1;
        }
        if !found {
            proof {
                assert(text_set(actual_lowered@).contains(t@));
                assert(!lowered_paths(files@).contains(t@));
            }
            return false;
        }
        j += 1;
    }
    proof {
        assert(text_set(actual_lowered@) =~= lowered_paths(files@));
    }
    true
}

// ---------------------------------------------------------------------------------------------
// Inventory order
/// Lexicographic order of texts by character; for UTF-8 strings this is the byte order that
/// `str::cmp` uses.
pub open spec fn text_lt(a: Seq<char>, b: Seq<char>) -> bool
    decreases a.len(),
{
    if a.len() == 0 {
        b.len() > 0
    } else if b.len() == 0 {
        false
    } else if a[0] < b[0] {
        true
    } else if a[0] > b[0] {
        false
    } else {
        text_lt(a.drop_first(), b.drop_first())
    }
}

pub proof fn lemma_text_lt_irreflexive(a: Seq<char>)
    ensures
        !text_lt(a, a),
    decreases a.len(),
{
    if a.len() > 0 {
        lemma_text_lt_irreflexive(a.drop_first());
    }
}

/// Of two different texts, one is smaller.
pub proof fn lemma_text_lt_total(a: Seq<char>, b: Seq<char>)
    ensures
        a == b || text_lt(a, b) || text_lt(b, a),
    decreases a.len(),
{
    if a.len() > 0 && b.len() > 0 && a[0] == b[0] {
        lemma_text_lt_total(a.drop_first(), b.drop_first());
        if a.drop_first() =~= b.drop_first() {
            assert(b.drop_first().len() == a.drop_first().len());
            assert forall|i: int| 0 <= i < a.len() implies a[i] == b[i] by {
                if i > 0 {
                    assert(a[i] == a.drop_first()[i - 1]);
                    assert(b[i] == b.drop_first()[i - 1]);
                }
            }
            assert(a =~= b);
        }
    }
    if a.len() == 0 && b.len() == 0 {
        assert(a =~= b);
    }
}

pub proof fn lemma_text_lt_transitive(a: Seq<char>, b: Seq<char>, c: Seq<char>)
    requires
        text_lt(a, b),
        text_lt(b, c),
    ensures
        text_lt(a, c),
    decreases a.len(),
{
    if a.len() > 0 && b.len() > 0 && c.len() > 0 && a[0] == b[0] && b[0] == c[0] {
        lemma_text_lt_transitive(a.drop_first(), b.drop_first(), c.drop_first());
    }
}

pub fn text_less(a: &Vec<char>, b: &Vec<char>) -> (less: bool)
    ensures
        less == text_lt(a@, b@),
{
    let mut i: usize = 0;
    assert(a@.skip(0) =~= a@ && b@.skip(0) =~= b@);
    while i < a.len() && i < b.len() && a[i] == b[i]
        invariant
            i <= a@.len(),
            i <= b@.len(),
            forall|k: int| 0 <= k < i ==> a@[k] == b@[k],
            text_lt(a@, b@) == text_lt(a@.skip(i as int), b@.skip(i as int)),
        decreases a@.len() - i,
    {
        proof {
            assert(a@.skip(i as int).drop_first() =~= a@.skip(i + 1));
            assert(b@.skip(i as int).drop_first() =~= b@.skip(i + 1));
        }
        i += 1;
    }
    if i == a.len() {
        i < b.len()
    } else if i == b.len() {
        false
    } else {
        a[i] < b[i]
    }
}

/// The files ordered by path.
pub open spec fn sorted_by_path(files: Seq<InstalledPackageFile>) -> bool {
    forall|i: int, j: int| 0 <= i < j < files.len() ==> !text_lt(#[trigger] files[j].path@, #[trigger] files[i].path@)
}

/// The inventory in path order, as `sort_by` on the paths leaves it: the same files, each path
/// no smaller than the one before it.
pub fn sort_files_by_path(files: Vec<InstalledPackageFile>) -> (sorted: Vec<InstalledPackageFile>)
    ensures
        sorted@.to_multiset() == files@.to_multiset(),
        sorted_by_path(sorted@),
{
    broadcast use vstd::seq_lib::group_to_multiset_ensures;
    let ghost all = files@;
    let mut rest = files;
    let mut sorted: Vec<InstalledPackageFile> = Vec::new();
    let mut keys: Vec<Vec<char>> = Vec::new();
    assert(sorted@.to_multiset().add(rest@.to_multiset()) =~= all.to_multiset());
    while rest.len() > 0
        invariant
            keys@.len() == sorted@.len(),
            forall|k: int| 0 <= k < keys@.len() ==> (#[trigger] keys@[k])@ == sorted@[k].path@,
            sorted@.to_multiset().add(rest@.to_multiset()) == all.to_multiset(),
            sorted_by_path(sorted@),
        decreases rest@.len(),
    {
        let ghost rest_before = rest@;
        let item = rest.remove(0);
        proof {
            vstd::seq_lib::to_multiset_remove(rest_before, 0);
            assert(rest_before.contains(item));
            vstd::seq_lib::to_multiset_contains(rest_before, item);
        }
        let key = chars_of(item.path.as_str());
        let ghost x = item;
        let mut p: usize = 0;
        while p < keys.len() && !text_less(&key, &keys[p])
            invariant
                p <= keys@.len(),
                keys@.len() == sorted@.len(),
                key@ == x.path@,
                forall|k: int| 0 <= k < keys@.len() ==> (#[trigger] keys@[k])@ == sorted@[k].path@,
                forall|k: int| 0 <= k < p ==> !text_lt(x.path@, #[trigger] sorted@[k].path@),
            decreases keys@.len() - p,
        {
            p += 1;
        }
        let ghost before = sorted@;
        proof {
            if p < before.len() {
                assert(text_lt(x.path@, before[p as int].path@));
            }
        }
        sorted.insert(p, item);
        keys.insert(p, key);
        proof {
            let s = sorted@;
            assert(s == before.insert(p as int, x));
            assert forall|a: int, b: int| 0 <= a < b < s.len() implies !text_lt(#[trigger] s[b].path@, #[trigger] s[a].path@) by {
                if a < p && b == p {
                } else if a == p && b > p {
                    let y = before[b - 1];
                    if text_lt(y.path@, x.path@) {
                        assert(p < before.len());
                        if b - 1 == p {
                            lemma_text_lt_irreflexive(y.path@);
                        } else {
                            assert(!text_lt(before[b - 1].path@, before[p as int].path@));
                        }
                        lemma_text_lt_transitive(y.path@, x.path@, before[p as int].path@);
                    }
                } else if a < p && b > p {
                    assert(s[a] == before[a] && s[b] == before[b - 1]);
                } else if b < p {
                    assert(s[a] == before[a] && s[b] == before[b]);
                } else {
                    assert(s[a] == before[a - 1] && s[b] == before[b - 1]);
                }
            }
            vstd::seq_lib::to_multiset_insert(before, p as int, x);
            assert forall|k: int| 0 <= k < keys@.len() implies (#[trigger] keys@[k])@ == sorted@[k].path@ by {
                if k < p {
                } else if k > p {
                }
            }
            assert(sorted@.to_multiset().add(rest@.to_multiset()) =~= all.to_multiset());
        }
    }
    assert(rest@ =~= Seq::<InstalledPackageFile>::empty());
    assert(sorted@.to_multiset() =~= all.to_multiset());
    sorted
}

/// The path text with `/` replaced by `\\`.
pub open spec fn backslashed(path: Seq<char>) -> Seq<char> {
    path.map_values(|c: char| if c == '/' { '\\' } else { c })
}

/// The text checks on an offline archive path, before the file system is asked: not blank,
/// no NUL, not a Windows device (`\\.\`) or verbatim (`\\?\`) path, with `/` read as
/// `\\`, and absolute without `..` segments. The error is that of an invalid path.
pub open spec fn offline_archive_text_check(raw: Seq<char>) -> Result<(), Seq<char>> {
    if crate::text::all_whitespace(raw) || raw.contains('\0') {
        Err("the selected package archive path is malformed"@)
    } else if starts_with(backslashed(raw), seq!['\\', '\\', '.', '\\']) || starts_with(backslashed(raw), seq!['\\', '\\', '?', '\\']) {
        Err("Windows device paths are not accepted for package imports"@)
    } else if !crate::models::catalog::is_absolute_windows(raw) || crate::models::catalog::has_parent_segment(raw) {
        Err("the selected package archive path must be absolute and traversal-free"@)
    } else {
        Ok(())
    }
}

pub fn check_offline_archive_text(raw: &str) -> (result: Result<(), AppError>)
    ensures
        match (result, offline_archive_text_check(raw@)) {
            (Ok(()), Ok(())) => true,
            (Err(e), Err(d)) => is_error(e, ErrorKind::InvalidPath, d),
            _ => false,
        },
{
    if crate::text::is_blank(raw) || crate::text::contains_char(raw, '\0') {
        return Err(AppError::InvalidPath("the selected package archive path is malformed".to_owned()));
    }
    let chars = chars_of(raw);
    let mut normalized: Vec<char> = Vec::new();
    let mut i: usize = 0;
    while i < chars.len()
        invariant
            chars@ == raw@,
            i <= chars@.len(),
            normalized@ == backslashed(raw@.subrange(0, i as int)),
        decreases chars@.len() - i,
    {
        let c = chars[i];
        normalized.push(if c == '/' { '\\' } else { c });
        assert(backslashed(raw@.subrange(0, i + 1)) =~= backslashed(raw@.subrange(0, i as int)).push(if c == '/' { '\\' } else { c }));
        i += 1;
    }
    assert(raw@.subrange(0, chars@.len() as int) =~= raw@);
    let device = vec!['\\', '\\', '.', '\\'];
    let verbatim = vec!['\\', '\\', '?', '\\'];
    assert(device@ =~= seq!['\\', '\\', '.', '\\'] && verbatim@ =~= seq!['\\', '\\', '?', '\\']);
    if chars_start_with(&normalized, &device) || chars_start_with(&normalized, &verbatim) {
        return Err(AppError::InvalidPath("Windows device paths are not accepted for package imports".to_owned()));
    }
    assert(backslashed(raw@) =~= raw@.map_values(|c: char| if c == '/' { '\\' } else { c }));
    match crate::models::catalog::validate_input_path(raw) {
        Ok(()) => Ok(()),
        Err(_) => Err(AppError::InvalidPath("the selected package archive path must be absolute and traversal-free".to_owned())),
    }
}

// ---------------------------------------------------------------------------------------------
// Verifying and removing an installation
/// The installation directory must exist as a real directory (not a link or reparse point)
/// and the inventory must not be empty.
pub fn check_installed_root(present: bool, is_link: bool, is_dir: bool, inventory_len: usize) -> (result: Result<(), AppError>)
    ensures
        !present ==> (result matches Err(e) && is_error(e, ErrorKind::EnginePackage, "the installed package directory is missing"@)),
        present && (is_link || !is_dir || inventory_len == 0) ==> (result matches Err(e)
            && is_error(e, ErrorKind::EnginePackage, "the installed package directory or file inventory is missing"@)),
        present && !is_link && is_dir && inventory_len > 0 ==> result is Ok,
{
    if !present {
        return Err(package_error("the installed package directory is missing"));
    }
    if is_link || !is_dir || inventory_len == 0 {
        return Err(package_error("the installed package directory or file inventory is missing"));
    }
    Ok(())
}

/// One entry met while walking an installation.
#[derive(Debug, Clone, PartialEq, Eq)]
pub enum WalkedEntry {
    Directory,
    /// A file, by its inventory path in ASCII lower case.
    File(String),
}

/// The checks on one walked entry, the first failure reported: at most 512 entries, no link,
/// and a directory or a file whose path relative to the root is safe.
pub open spec fn walked_entry_check(entries_seen: usize, is_link: bool, is_dir: bool, is_file: bool, relative: Option<Seq<char>>) -> Result<Option<Seq<char>>, Seq<char>> {
    if entries_seen > MAX_ARCHIVE_ENTRIES {
        Err("the installed package exceeds its entry limit"@)
    } else if is_link {
        Err("the installed package contains a link or reparse point"@)
    } else if is_dir {
        Ok(None)
    } else if is_file {
        match relative {
            None => Err("an installed package path escaped the package root"@),
            Some(r) => if !safe_relative_path_spec(r) {
                Err("the installed package contains an unsafe path"@)
            } else {
                Ok(Some(ascii_lower_spec(inventory_path_spec(r))))
            },
        }
    } else {
        Err("the installed package contains a non-file entry"@)
    }
}

pub fn check_walked_entry(entries_seen: usize, is_link: bool, is_dir: bool, is_file: bool, relative: Option<&str>) -> (result: Result<WalkedEntry, AppError>)
    ensures
        match (result, walked_entry_check(entries_seen, is_link, is_dir, is_file, match relative { Some(r) => Some(r@), None => None })) {
            (Ok(WalkedEntry::Directory), Ok(None)) => true,
            (Ok(WalkedEntry::File(p)), Ok(Some(q))) => p@ == q,
            (Err(e), Err(d)) => is_error(e, ErrorKind::EnginePackage, d),
            _ => false,
        },
{
    if entries_seen > MAX_ARCHIVE_ENTRIES {
        return Err(package_error("the installed package exceeds its entry limit"));
    }
    if is_link {
        return Err(package_error("the installed package contains a link or reparse point"));
    }
    if is_dir {
        return Ok(WalkedEntry::Directory);
    }
    if !is_file {
        return Err(package_error("the installed package contains a non-file entry"));
    }
    match relative {
        None => Err(package_error("an installed package path escaped the package root")),
        Some(r) => {
            if !safe_relative_path(r) {
                return Err(package_error("the installed package contains an unsafe path"));
            }
            let inventory = inventory_path(r);
            let lowered = ascii_lower_chars(inventory.as_str());
            Ok(WalkedEntry::File(crate::text::string_of(&lowered, 0, lowered.len())))
        },
    }
}

/// The files found must be exactly the inventory's paths, ignoring ASCII case.
pub fn check_inventory_paths(actual_lowered: &[String], files: &[InstalledPackageFile]) -> (result: Result<(), AppError>)
    ensures
        (text_set(actual_lowered@) == lowered_paths(files@)) ==> result is Ok,
        (text_set(actual_lowered@) != lowered_paths(files@)) ==> (result matches Err(e)
            && is_error(e, ErrorKind::EnginePackage, "the installed package contains missing or untracked files"@)),
{
    if inventory_matches(actual_lowered, files) {
        Ok(())
    } else {
        Err(package_error("the installed package contains missing or untracked files"))
    }
}

/// An inventory path must be a safe relative path.
pub fn check_inventory_entry_path(path: &str) -> (result: Result<(), AppError>)
    ensures
        safe_relative_path_spec(path@) ==> result is Ok,
        !safe_relative_path_spec(path@) ==> (result matches Err(e)
            && is_error(e, ErrorKind::EnginePackage, "the installed package inventory contains an unsafe path"@)),
{
    if safe_relative_path(path) {
        Ok(())
    } else {
        Err(package_error("the installed package inventory contains an unsafe path"))
    }
}

/// An inventory file must be a regular file, not a link or reparse point, with the recorded
/// size and SHA-256.
pub fn check_installed_file(expected: &InstalledPackageFile, is_link: bool, is_file: bool, size: u64, sha256: &str) -> (result: Result<(), AppError>)
    ensures
        (is_link || !is_file) ==> (result matches Err(e)
            && is_error(e, ErrorKind::EnginePackage, "installed package file "@ + expected.path@ + " is missing or unsafe"@)),
        !(is_link || !is_file) && (size != expected.size_bytes || sha256@ != expected.sha256@) ==> (result matches Err(e)
            && is_error(e, ErrorKind::EnginePackage, "installed package file "@ + expected.path@ + " failed verification"@)),
        !(is_link || !is_file) && size == expected.size_bytes && sha256@ == expected.sha256@ ==> result is Ok,
{
    if is_link || !is_file {
        let mut text = crate::text::cat("installed package file ", expected.path.as_str());
        text.append(" is missing or unsafe");
        return Err(AppError::EnginePackage(text));
    }
    if size != expected.size_bytes || !str_eq(sha256, expected.sha256.as_str()) {
        let mut text = crate::text::cat("installed package file ", expected.path.as_str());
        text.append(" failed verification");
        return Err(AppError::EnginePackage(text));
    }
    Ok(())
}

/// What the disk shows of one inventory file.
#[derive(Debug, Clone)]
pub struct ObservedFile {
    pub is_link: bool,
    pub is_file: bool,
    pub size: u64,
    pub sha256: String,
}

/// Where the first inventory path that is not a safe relative path is, or the inventory's
/// length when every path is safe. Only the files before it are read from disk.
pub open spec fn first_unsafe_spec(files: Seq<InstalledPackageFile>) -> int
    decreases files.len(),
{
    if files.len() == 0 {
        0
    } else if !safe_relative_path_spec(files[0].path@) {
        0
    } else {
        1 + first_unsafe_spec(files.drop_first())
    }
}

pub fn first_unsafe_path(files: &[InstalledPackageFile]) -> (index: usize)
    ensures
        index == first_unsafe_spec(files@),
{
    let mut i: usize = 0;
    assert(files@.skip(0) =~= files@);
    while i < files.len()
        invariant
            i <= files@.len(),
            first_unsafe_spec(files@) == i + first_unsafe_spec(files@.skip(i as int)),
        decreases files@.len() - i,
    {
        assert(files@.skip(i as int)[0] == files@[i as int]);
        if !safe_relative_path(files[i].path.as_str()) {
            return i;
        }
        assert(files@.skip(i as int).drop_first() =~= files@.skip(i + 1));
        i += 1;
    }
    i
}

/// What is wrong with one inventory file as the disk shows it, if anything.
pub open spec fn file_problem(expected: InstalledPackageFile, seen: ObservedFile) -> Option<Seq<char>> {
    if seen.is_link || !seen.is_file {
        Some("installed package file "@ + expected.path@ + " is missing or unsafe"@)
    } else if seen.size != expected.size_bytes || seen.sha256@ != expected.sha256@ {
        Some("installed package file "@ + expected.path@ + " failed verification"@)
    } else {
        None
    }
}

/// The first problem among the first `k` files.
pub open spec fn prefix_problem(files: Seq<InstalledPackageFile>, observed: Seq<ObservedFile>, k: int) -> Option<Seq<char>>
    decreases k,
{
    if k <= 0 {
        None
    } else {
        match prefix_problem(files, observed, k - 1) {
            Some(d) => Some(d),
            None => file_problem(files[k - 1], observed[k - 1]),
        }
    }
}

/// The inventory files in order: each read file must be as recorded, and the first unsafe
/// path, where reading stopped, is refused.
pub open spec fn installed_files_problem(files: Seq<InstalledPackageFile>, observed: Seq<ObservedFile>) -> Option<Seq<char>> {
    match prefix_problem(files, observed, observed.len() as int) {
        Some(d) => Some(d),
        None => if observed.len() < files.len() {
            Some("the installed package inventory contains an unsafe path"@)
        } else {
            None
        },
    }
}

/// Checks the inventory files against what was read of them, as `installed_files_problem`
/// says; `observed` holds the files before the first unsafe path.
pub fn check_installed_files(files: &[InstalledPackageFile], observed: &[ObservedFile]) -> (result: Result<(), AppError>)
    requires
        observed@.len() == first_unsafe_spec(files@),
    ensures
        match installed_files_problem(files@, observed@) {
            Some(d) => result matches Err(e) && is_error(e, ErrorKind::EnginePackage, d),
            None => result is Ok,
        },
{
    proof { lemma_first_unsafe_bound(files@); }
    let mut i: usize = 0;
    while i < observed.len()
        invariant
            i <= observed@.len(),
            observed@.len() <= files@.len(),
            prefix_problem(files@, observed@, i as int) is None,
        decreases observed@.len() - i,
    {
        let seen = &observed[i];
        let expected = &files[i];
        if let Err(e) = check_installed_file(expected, seen.is_link, seen.is_file, seen.size, seen.sha256.as_str()) {
            proof { lemma_prefix_problem_stays(files@, observed@, i as int + 1); }
            return Err(e);
        }
        i += 1;
    }
    if observed.len() < files.len() {
        return Err(package_error("the installed package inventory contains an unsafe path"));
    }
    Ok(())
}

proof fn lemma_first_unsafe_bound(files: Seq<InstalledPackageFile>)
    ensures
        0 <= first_unsafe_spec(files) <= files.len(),
        first_unsafe_spec(files) < files.len() ==> !safe_relative_path_spec(files[first_unsafe_spec(files)].path@),
        forall|i: int| 0 <= i < first_unsafe_spec(files) ==> safe_relative_path_spec(#[trigger] files[i].path@),
    decreases files.len(),
{
    if files.len() > 0 && safe_relative_path_spec(files[0].path@) {
        let rest = files.drop_first();
        lemma_first_unsafe_bound(rest);
        assert forall|i: int| 0 <= i < first_unsafe_spec(files) implies safe_relative_path_spec(#[trigger] files[i].path@) by {
            if i > 0 {
                assert(files[i] == rest[i - 1]);
            }
        }
        if first_unsafe_spec(files) < files.len() {
            assert(files[first_unsafe_spec(files)] == rest[first_unsafe_spec(rest)]);
        }
    }
}

/// A problem found among the first `k` files is the first problem of any longer prefix.
proof fn lemma_prefix_problem_stays(files: Seq<InstalledPackageFile>, observed: Seq<ObservedFile>, k: int)
    requires
        0 <= k <= observed.len(),
        prefix_problem(files, observed, k) is Some,
    ensures
        prefix_problem(files, observed, observed.len() as int) == prefix_problem(files, observed, k),
    decreases observed.len() - k,
{
    if k < observed.len() {
        lemma_prefix_problem_stays(files, observed, k + 1);
    }
}

/// An installed package verifies exactly when the disk still holds what its inventory
/// recorded: the same paths (ignoring ASCII case), each a safe relative path to a regular
/// file with the recorded size and SHA-256. So a file added or removed, or one whose size or
/// content changed, is detected.
pub proof fn law_changes_on_disk_are_detected(
    files: Seq<InstalledPackageFile>,
    actual_lowered: Seq<String>,
    observed: Seq<ObservedFile>,
)
    requires
        observed.len() == first_unsafe_spec(files),
    ensures
        (text_set(actual_lowered) == lowered_paths(files) && installed_files_problem(files, observed) is None) <==> (
            text_set(actual_lowered) == lowered_paths(files)
            && observed.len() == files.len()
            && forall|i: int| 0 <= i < files.len() ==> {
                &&& safe_relative_path_spec(#[trigger] files[i].path@)
                &&& !observed[i].is_link && observed[i].is_file
                &&& observed[i].size == files[i].size_bytes
                &&& observed[i].sha256@ == files[i].sha256@
            }
        ),
{
    lemma_first_unsafe_bound(files);
    lemma_prefix_none_iff(files, observed, observed.len() as int);
    if observed.len() == files.len() && prefix_problem(files, observed, observed.len() as int) is None {
        assert forall|i: int| 0 <= i < files.len() implies {
            &&& safe_relative_path_spec(#[trigger] files[i].path@)
            &&& !observed[i].is_link && observed[i].is_file
            &&& observed[i].size == files[i].size_bytes
            &&& observed[i].sha256@ == files[i].sha256@
        } by {
            assert(file_problem(files[i], observed[i]) is None);
        }
    }
    if observed.len() == files.len() && (forall|i: int| 0 <= i < files.len() ==> {
        &&& safe_relative_path_spec(#[trigger] files[i].path@)
        &&& !observed[i].is_link && observed[i].is_file
        &&& observed[i].size == files[i].size_bytes
        &&& observed[i].sha256@ == files[i].sha256@
    }) {
        assert forall|i: int| 0 <= i < observed.len() implies #[trigger] file_problem(files[i], observed[i]) is None by {
            assert(safe_relative_path_spec(files[i].path@));
        }
    }
}

/// No problem among the first `k` files exactly when each of them is as recorded.
proof fn lemma_prefix_none_iff(files: Seq<InstalledPackageFile>, observed: Seq<ObservedFile>, k: int)
    requires
        0 <= k,
    ensures
        prefix_problem(files, observed, k) is None <==> forall|i: int| 0 <= i < k ==> #[trigger] file_problem(files[i], observed[i]) is None,
    decreases k,
{
    if k > 0 {
        lemma_prefix_none_iff(files, observed, k - 1);
    }
}

/// Only a directory directly under the package root that is not a link may be removed;
/// `Ok(false)` when there is nothing to remove.
pub fn check_removal(parent_is_root: bool, exists: bool, is_link: bool) -> (result: Result<bool, AppError>)
    ensures
        !parent_is_root ==> (result matches Err(e)
            && is_error(e, ErrorKind::EnginePackage, "refusing to remove a directory outside the package root"@)),
        parent_is_root && !exists ==> result == Ok::<bool, AppError>(false),
        parent_is_root && exists && is_link ==> (result matches Err(e)
            && is_error(e, ErrorKind::EnginePackage, "refusing to remove a linked package directory"@)),
        parent_is_root && exists && !is_link ==> result == Ok::<bool, AppError>(true),
{
    if !parent_is_root {
        return Err(package_error("refusing to remove a directory outside the package root"));
    }
    if !exists {
        return Ok(false);
    }
    if is_link {
        return Err(package_error("refusing to remove a linked package directory"));
    }
    Ok(true)
}

/// An offline archive must be a regular `.zip` file (ignoring ASCII case) reached without a
/// link or reparse point.
pub fn check_offline_archive_file(is_link: bool, is_reparse_point: bool, is_file: bool, canonical_path: &str) -> (result: Result<(), AppError>)
    ensures
        is_link ==> (result matches Err(e) && is_error(e, ErrorKind::InvalidPath, "symbolic links are not accepted for package imports"@)),
        !is_link && is_reparse_point ==> (result matches Err(e)
            && is_error(e, ErrorKind::InvalidPath, "Windows reparse points are not accepted for package imports"@)),
        !is_link && !is_reparse_point && !(is_file && crate::models::catalog::lowered_extension_spec(canonical_path@) == "zip"@)
            ==> (result matches Err(e) && is_error(e, ErrorKind::InvalidPath, "the selected package must be a regular .zip file"@)),
        !is_link && !is_reparse_point && is_file && crate::models::catalog::lowered_extension_spec(canonical_path@) == "zip"@ ==> result is Ok,
{
    if is_link {
        return Err(AppError::InvalidPath("symbolic links are not accepted for package imports".to_owned()));
    }
    if is_reparse_point {
        return Err(AppError::InvalidPath("Windows reparse points are not accepted for package imports".to_owned()));
    }
    let ext = crate::models::catalog::lowered_extension(canonical_path);
    let zip = chars_of("zip");
    if !is_file || !crate::text::chars_eq(&ext, &zip) {
        return Err(AppError::InvalidPath("the selected package must be a regular .zip file".to_owned()));
    }
    Ok(())
}

} // verus!
