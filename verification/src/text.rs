//! Character and byte helpers shared by the validators, with their specifications.
use vstd::prelude::*;
use vstd::utf8::*;
use vstd::string::StringExecFns;

verus! {

/// The UTF-8 encoding of a concatenation is the concatenation of the encodings.
pub proof fn lemma_encode_utf8_concat(a: Seq<char>, b: Seq<char>)
    ensures
        encode_utf8(a + b) == encode_utf8(a) + encode_utf8(b),
    decreases a.len(),
{
    if a.len() == 0 {
        assert(a + b =~= b);
    } else {
        assert((a + b).drop_first() =~= a.drop_first() + b);
        lemma_encode_utf8_concat(a.drop_first(), b);
        assert(encode_utf8(a + b) =~= encode_utf8(a) + encode_utf8(b));
    }
}

/// In a sequence without repeats, the element at `i` is found at `i`.
pub(crate) proof fn lemma_index_of_unique<A>(items: Seq<A>, i: int)
    requires
        items.no_duplicates(),
        0 <= i < items.len(),
    ensures
        items.contains(items[i]),
        items.index_of(items[i]) == i,
{
    assert(items[i] == items[i]);
    let j = items.index_of(items[i]);
    assert(0 <= j < items.len() && items[j] == items[i]);
}

/// The number of bytes of a character's UTF-8 encoding.
pub fn char_width(c: char) -> (width: usize)
    ensures
        width == encode_utf8(seq![c]).len(),
        1 <= width <= 4,
{
    proof {
        char_is_scalar(c);
        assert(seq![c].drop_first() =~= Seq::<char>::empty());
        assert(seq![c][0] == c);
        assert(encode_utf8(Seq::<char>::empty()) =~= Seq::<u8>::empty());
        assert(encode_utf8(seq![c]) =~= encode_scalar(c as u32) + encode_utf8(Seq::<char>::empty()));
        assert(encode_utf8(seq![c]) =~= encode_scalar(c as u32));
    }
    let v = c as u32;
    if v < 0x80 {
        1
    } else if v < 0x800 {
        2
    } else if v < 0x10000 {
        3
    } else {
        4
    }
}

/// `kept` is the longest prefix of `text` whose UTF-8 encoding fits `limit` bytes.
pub open spec fn longest_fitting_prefix(text: Seq<char>, kept: Seq<char>, limit: nat) -> bool {
    &&& kept.len() <= text.len()
    &&& kept == text.take(kept.len() as int)
    &&& encode_utf8(kept).len() <= limit
    &&& kept.len() < text.len() ==> encode_utf8(text.take(kept.len() as int + 1)).len() > limit
}

/// The longest prefix of `text` of at most `limit` bytes of UTF-8, cut at a character.
pub fn fitting_prefix(text: &str, limit: usize) -> (kept: String)
    ensures
        longest_fitting_prefix(text@, kept@, limit as nat),
{
    let chars = chars_of(text);
    let n = chars.len();
    let mut kept = String::new();
    let mut bytes: usize = 0;
    let mut i: usize = 0;
    let mut stop = false;
    while i < n && !stop
        invariant
            n == chars@.len(),
            chars@ == text@,
            i <= n,
            kept@ == text@.take(i as int),
            bytes == encode_utf8(kept@).len(),
            bytes <= limit,
            stop ==> i < n && encode_utf8(text@.take(i + 1)).len() > limit,
        decreases n - i + (if stop { 0int } else { 1int }),
    {
        let c = chars[i];
        let w = char_width(c);
        proof {
            assert(text@.take(i + 1) =~= text@.take(i as int) + seq![c]);
            lemma_encode_utf8_concat(text@.take(i as int), seq![c]);
        }
        if w > limit - bytes {
            stop = true;
        } else {
            push_char(&mut kept, c);
            assert(kept@ =~= text@.take(i + 1));
            bytes = bytes + w;
            i = i + 1;
        }
    }
    proof {
        if !stop {
            assert(text@.take(i as int) =~= text@);
        }
    }
    kept
}

/// Decodes UTF-8 bytes into a `String` with `String::from_utf8`.
/// Claims: the result is `Some` exactly when the bytes are valid UTF-8, and then holds
/// the decoded characters.
#[verifier::external_body]
pub(crate) fn utf8_string(bytes: Vec<u8>) -> (result: Option<String>)
    ensures
        result is Some <==> valid_utf8(bytes@),
        result matches Some(text) ==> text@ == decode_utf8(bytes@),
{
    String::from_utf8(bytes).ok()
}

/// What `String::from_utf8_lossy` makes of bytes: their characters, with U+FFFD in place of
/// each invalid sequence.
pub uninterp spec fn lossy_decode(bytes: Seq<u8>) -> Seq<char>;

/// Decodes bytes with `String::from_utf8_lossy`.
/// Claims: the text is a function of the bytes, named `lossy_decode`, and bytes that are valid
/// UTF-8 decode to their characters.
#[verifier::external_body]
pub(crate) fn lossy_text(bytes: &[u8]) -> (text: String)
    ensures
        text@ == lossy_decode(bytes@),
        valid_utf8(bytes@) ==> text@ == decode_utf8(bytes@),
{
    String::from_utf8_lossy(bytes).into_owned()
}

/// Appends one character with `String::push`.
/// Claims: the new text is the old text followed by the character.
#[verifier::external_body]
pub(crate) fn push_char(text: &mut String, c: char)
    ensures
        final(text)@ == old(text)@.push(c),
{
    text.push(c);
}

/// Byte-wise equality of two slices.
pub fn bytes_eq(a: &[u8], b: &[u8]) -> (result: bool)
    ensures
        result == (a@ == b@),
{
    if a.len() != b.len() {
        return false;
    }
    let mut i: usize = 0;
    while i < a.len()
        invariant
            a@.len() == b@.len(),
            i <= a@.len(),
            forall|j: int| 0 <= j < i ==> a@[j] == b@[j],
        decreases a@.len() - i,
    {
        if a[i] != b[i] {
            return false;
        }
        i += 1;
    }
    assert(a@ =~= b@);
    true
}

/// Appends the bytes of a slice to a buffer.
pub(crate) fn push_bytes(data: &mut Vec<u8>, bytes: &[u8])
    ensures
        final(data)@ == old(data)@ + bytes@,
{
    let ghost head = data@;
    let mut k: usize = 0;
    while k < bytes.len()
        invariant
            k <= bytes@.len(),
            data@ == head + bytes@.subrange(0, k as int),
        decreases bytes@.len() - k,
    {
        data.push(bytes[k]);
        k += 1;
    }
    assert(bytes@.subrange(0, bytes@.len() as int) =~= bytes@);
}

/// `bytes` ends with `suffix`.
pub open spec fn ends_with_spec(bytes: Seq<u8>, suffix: Seq<u8>) -> bool {
    bytes.len() >= suffix.len() && bytes.subrange(bytes.len() - suffix.len(), bytes.len() as int)
        == suffix
}

/// Byte-wise suffix test.
pub fn ends_with_bytes(bytes: &[u8], suffix: &[u8]) -> (result: bool)
    ensures
        result == ends_with_spec(bytes@, suffix@),
{
    if bytes.len() < suffix.len() {
        return false;
    }
    let start = bytes.len() - suffix.len();
    let mut i: usize = 0;
    while i < suffix.len()
        invariant
            start + suffix@.len() == bytes@.len(),
            bytes@.len() <= usize::MAX,
            i <= suffix@.len(),
            forall|j: int| 0 <= j < i ==> bytes@[start + j] == suffix@[j],
        decreases suffix@.len() - i,
    {
        if bytes[start + i] != suffix[i] {
            assert(bytes@.subrange(start as int, bytes@.len() as int)[i as int] != suffix@[i as int]);
            return false;
        }
        i += 1;
    }
    assert(bytes@.subrange(start as int, bytes@.len() as int) =~= suffix@);
    true
}

} // verus!

verus! {

/// Decimal digits of a natural number, most significant first.
pub open spec fn decimal_chars(n: nat) -> Seq<char>
    decreases n,
{
    if n < 10 {
        seq![digit_char(n)]
    } else {
        decimal_chars(n / 10).push(digit_char(n % 10))
    }
}

pub open spec fn digit_char(d: nat) -> char {
    (('0' as nat) + d) as char
}

/// Formats a number in decimal.
pub fn decimal_string(n: u64) -> (text: String)
    ensures
        text@ == decimal_chars(n as nat),
{
    let mut digits: Vec<char> = Vec::new();
    let mut rest = n;
    // digits holds the low-order digits, least significant first.
    while rest >= 10
        invariant
            decimal_chars(n as nat) == decimal_chars(rest as nat) + digits@.reverse(),
        decreases rest,
    {
        let d = rest % 10;
        let c = char_of_digit(d);
        digits.push(c);
        proof {
            assert(decimal_chars(rest as nat) == decimal_chars((rest / 10) as nat).push(c));
            assert(digits@.reverse() =~= seq![c] + digits@.drop_last().reverse());
        }
        rest = rest / 10;
    }
    let mut text = String::new();
    let first = char_of_digit(rest);
    crate::text::push_char(&mut text, first);
    assert(text@ =~= decimal_chars(rest as nat));
    let mut i = digits.len();
    while i > 0
        invariant
            i <= digits@.len(),
            decimal_chars(n as nat) == decimal_chars(rest as nat) + digits@.reverse(),
            text@ =~= decimal_chars(rest as nat) + digits@.subrange(i as int, digits@.len() as int).reverse(),
        decreases i,
    {
        i -= 1;
        crate::text::push_char(&mut text, digits[i]);
        proof {
            assert(digits@.subrange(i as int, digits@.len() as int).reverse() =~= digits@.subrange(
                i + 1,
                digits@.len() as int,
            ).reverse().push(digits@[i as int]));
        }
    }
    assert(digits@.subrange(0, digits@.len() as int) =~= digits@);
    text
}

fn char_of_digit(d: u64) -> (c: char)
    requires
        d < 10,
    ensures
        c == digit_char(d as nat),
{
    if d == 0 { '0' } else if d == 1 { '1' } else if d == 2 { '2' } else if d == 3 { '3' }
    else if d == 4 { '4' } else if d == 5 { '5' } else if d == 6 { '6' } else if d == 7 { '7' }
    else if d == 8 { '8' } else { '9' }
}

} // verus!

verus! {

/// The characters of a string, in order.
pub fn chars_of(s: &str) -> (chars: Vec<char>)
    ensures
        chars@ == s@,
{
    let mut chars: Vec<char> = Vec::new();
    for c in it: s.chars()
        invariant
            chars@ == it.seq().subrange(0, it.index() as int),
    {
        chars.push(c);
    }
    chars
}

} // verus!

verus! {

/// Unicode `White_Space`, the property that `char::is_whitespace` and `str::trim` use.
pub open spec fn is_whitespace_spec(c: char) -> bool {
    let v = c as u32;
    ||| (0x09 <= v <= 0x0d)
    ||| v == 0x20
    ||| v == 0x85
    ||| v == 0xa0
    ||| v == 0x1680
    ||| (0x2000 <= v <= 0x200a)
    ||| v == 0x2028
    ||| v == 0x2029
    ||| v == 0x202f
    ||| v == 0x205f
    ||| v == 0x3000
}

pub fn is_whitespace(c: char) -> (result: bool)
    ensures
        result == is_whitespace_spec(c),
{
    let v = c as u32;
    (0x09 <= v && v <= 0x0d) || v == 0x20 || v == 0x85 || v == 0xa0 || v == 0x1680 || (0x2000
        <= v && v <= 0x200a) || v == 0x2028 || v == 0x2029 || v == 0x202f || v == 0x205f || v
        == 0x3000
}

/// Every character is white space (so the trimmed text is empty).
pub open spec fn all_whitespace(s: Seq<char>) -> bool {
    forall|i: int| 0 <= i < s.len() ==> is_whitespace_spec(#[trigger] s[i])
}

/// Index of the first character that is not white space, or the length.
pub open spec fn trim_start_spec(s: Seq<char>) -> int
    decreases s.len(),
{
    if s.len() == 0 || !is_whitespace_spec(s[0]) {
        0
    } else {
        1 + trim_start_spec(s.drop_first())
    }
}

/// One past the last character that is not white space, or zero.
pub open spec fn trim_end_spec(s: Seq<char>) -> int
    decreases s.len(),
{
    if s.len() == 0 || !is_whitespace_spec(s.last()) {
        s.len() as int
    } else {
        trim_end_spec(s.drop_last())
    }
}

/// `str::trim`: the text without leading and trailing white space.
pub open spec fn trim_spec(s: Seq<char>) -> Seq<char> {
    if all_whitespace(s) {
        seq![]
    } else {
        s.subrange(trim_start_spec(s), trim_end_spec(s))
    }
}

proof fn lemma_trim_start(s: Seq<char>)
    ensures
        0 <= trim_start_spec(s) <= s.len(),
        forall|i: int| 0 <= i < trim_start_spec(s) ==> is_whitespace_spec(#[trigger] s[i]),
        trim_start_spec(s) < s.len() ==> !is_whitespace_spec(s[trim_start_spec(s)]),
    decreases s.len(),
{
    if s.len() > 0 && is_whitespace_spec(s[0]) {
        lemma_trim_start(s.drop_first());
        assert forall|i: int| 0 <= i < trim_start_spec(s) implies is_whitespace_spec(#[trigger] s[i]) by {
            if i > 0 {
                assert(s[i] == s.drop_first()[i - 1]);
            }
        }
    }
}

proof fn lemma_trim_end(s: Seq<char>)
    ensures
        0 <= trim_end_spec(s) <= s.len(),
        forall|i: int| trim_end_spec(s) <= i < s.len() ==> is_whitespace_spec(#[trigger] s[i]),
        trim_end_spec(s) > 0 ==> !is_whitespace_spec(s[trim_end_spec(s) - 1]),
    decreases s.len(),
{
    if s.len() > 0 && is_whitespace_spec(s.last()) {
        lemma_trim_end(s.drop_last());
        assert forall|i: int| trim_end_spec(s) <= i < s.len() implies is_whitespace_spec(#[trigger] s[i]) by {
            if i < s.len() - 1 {
                assert(s[i] == s.drop_last()[i]);
            }
        }
    }
}

/// `str::trim`.
pub fn trim(s: &str) -> (t: &str)
    ensures
        t@ == trim_spec(s@),
{
    let chars = chars_of(s);
    let n = chars.len();
    let mut start: usize = 0;
    while start < n && is_whitespace(chars[start])
        invariant
            chars@ == s@,
            n == chars@.len(),
            start <= n,
            forall|i: int| 0 <= i < start ==> is_whitespace_spec(#[trigger] chars@[i]),
        decreases n - start,
    {
        start += 1;
    }
    proof {
        lemma_trim_start(s@);
        lemma_trim_end(s@);
    }
    if start == n {
        proof {
            assert(all_whitespace(s@));
        }
        return s.substring_char(0, 0);
    }
    let mut end: usize = n;
    while end > start && is_whitespace(chars[end - 1])
        invariant
            chars@ == s@,
            n == chars@.len(),
            start < n,
            !is_whitespace_spec(chars@[start as int]),
            start <= end <= n,
            forall|i: int| end <= i < n ==> is_whitespace_spec(#[trigger] chars@[i]),
        decreases end,
    {
        end -= 1;
    }
    proof {
        assert(!all_whitespace(s@));
        assert(trim_start_spec(s@) == start) by {
            if trim_start_spec(s@) < start {
                assert(is_whitespace_spec(chars@[trim_start_spec(s@)]));
            }
        }
        assert(trim_end_spec(s@) == end) by {
            if trim_end_spec(s@) > end {
                assert(is_whitespace_spec(chars@[trim_end_spec(s@) - 1]));
            }
            if trim_end_spec(s@) < end {
                assert(is_whitespace_spec(chars@[end - 1]));
            }
        }
    }
    s.substring_char(start, end)
}

/// The text is empty once trimmed.
pub fn is_blank(s: &str) -> (result: bool)
    ensures
        result == all_whitespace(s@),
{
    let chars = chars_of(s);
    let mut i: usize = 0;
    while i < chars.len()
        invariant
            chars@ == s@,
            i <= chars@.len(),
            forall|j: int| 0 <= j < i ==> is_whitespace_spec(#[trigger] chars@[j]),
        decreases chars@.len() - i,
    {
        if !is_whitespace(chars[i]) {
            return false;
        }
        i += 1;
    }
    true
}

/// The text contains the character.
pub fn contains_char(s: &str, c: char) -> (result: bool)
    ensures
        result == s@.contains(c),
{
    let chars = chars_of(s);
    let mut i: usize = 0;
    while i < chars.len()
        invariant
            chars@ == s@,
            i <= chars@.len(),
            forall|j: int| 0 <= j < i ==> chars@[j] != c,
        decreases chars@.len() - i,
    {
        if chars[i] == c {
            return true;
        }
        i += 1;
    }
    false
}

/// Number of characters.
pub fn char_count(s: &str) -> (count: usize)
    ensures
        count == s@.len(),
{
    chars_of(s).len()
}

} // verus!

verus! {

pub open spec fn ascii_lower_char(c: char) -> char {
    if 'A' <= c <= 'Z' {
        ((c as u32) + 32) as char
    } else {
        c
    }
}

/// `to_ascii_lowercase`: ASCII capitals become small letters, everything else is kept.
pub open spec fn ascii_lower_spec(s: Seq<char>) -> Seq<char> {
    s.map_values(|c: char| ascii_lower_char(c))
}

pub fn ascii_lower(c: char) -> (result: char)
    ensures
        result == ascii_lower_char(c),
{
    if 'A' <= c && c <= 'Z' {
        let b = c as u8;
        (b + 32) as char
    } else {
        c
    }
}

/// The characters of `s` with ASCII capitals lowered.
pub fn ascii_lower_chars(s: &str) -> (lowered: Vec<char>)
    ensures
        lowered@ == ascii_lower_spec(s@),
{
    let chars = chars_of(s);
    let mut lowered: Vec<char> = Vec::new();
    let mut i: usize = 0;
    while i < chars.len()
        invariant
            chars@ == s@,
            i <= chars@.len(),
            lowered@ == ascii_lower_spec(s@.subrange(0, i as int)),
        decreases chars@.len() - i,
    {
        lowered.push(ascii_lower(chars[i]));
        proof {
            assert(ascii_lower_spec(s@.subrange(0, i + 1)) =~= ascii_lower_spec(s@.subrange(0, i as int)).push(ascii_lower_char(s@[i as int])));
        }
        i += 1;
    }
    proof {
        assert(s@.subrange(0, chars@.len() as int) =~= s@);
    }
    lowered
}

/// `needle` occurs in `hay` at some position.
pub open spec fn contains_seq(hay: Seq<char>, needle: Seq<char>) -> bool {
    exists|i: int| 0 <= i <= hay.len() - needle.len() && #[trigger] hay.subrange(i, i + needle.len()) == needle
}

pub(crate) fn matches_at(hay: &Vec<char>, needle: &Vec<char>, i: usize) -> (result: bool)
    requires
        i + needle@.len() <= hay@.len(),
    ensures
        result == (hay@.subrange(i as int, i + needle@.len()) == needle@),
{
    let total = hay.len();
    let mut j: usize = 0;
    while j < needle.len()
        invariant
            i + needle@.len() <= hay@.len(),
            total == hay@.len(),
            j <= needle@.len(),
            forall|k: int| 0 <= k < j ==> hay@[i + k] == needle@[k],
        decreases needle@.len() - j,
    {
        if hay[i + j] != needle[j] {
            assert(hay@.subrange(i as int, i + needle@.len())[j as int] != needle@[j as int]);
            return false;
        }
        j += 1;
    }
    assert(hay@.subrange(i as int, i + needle@.len()) =~= needle@);
    true
}

/// Substring search over characters.
pub fn contains_chars(hay: &Vec<char>, needle: &Vec<char>) -> (result: bool)
    ensures
        result == contains_seq(hay@, needle@),
{
    if needle.len() > hay.len() {
        return false;
    }
    let last = hay.len() - needle.len();
    let mut i: usize = 0;
    loop
        invariant
            last + needle@.len() == hay@.len(),
            i <= last,
            forall|k: int| 0 <= k < i ==> #[trigger] hay@.subrange(k, k + needle@.len()) != needle@,
        ensures
            forall|k: int| 0 <= k <= last ==> #[trigger] hay@.subrange(k, k + needle@.len()) != needle@,
        decreases last - i,
    {
        if matches_at(hay, needle, i) {
            return true;
        }
        if i == last {
            break;
        }
        i += 1;
    }
    assert forall|k: int| 0 <= k <= hay@.len() - needle@.len() implies #[trigger] hay@.subrange(k, k + needle@.len()) != needle@ by {}
    false
}

} // verus!

verus! {

/// `s` begins with `prefix`.
pub open spec fn starts_with(s: Seq<char>, prefix: Seq<char>) -> bool {
    prefix.len() <= s.len() && s.subrange(0, prefix.len() as int) == prefix
}

/// Character-wise prefix test.
pub fn chars_start_with(s: &Vec<char>, prefix: &Vec<char>) -> (result: bool)
    ensures
        result == starts_with(s@, prefix@),
{
    if prefix.len() > s.len() {
        return false;
    }
    matches_at(s, prefix, 0)
}

/// Character-wise equality.
pub fn chars_eq(a: &Vec<char>, b: &Vec<char>) -> (result: bool)
    ensures
        result == (a@ == b@),
{
    if a.len() != b.len() {
        return false;
    }
    let r = matches_at(a, b, 0);
    assert(a@.subrange(0, b@.len() as int) =~= a@);
    r
}

/// The two strings hold the same characters.
pub fn str_eq(a: &str, b: &str) -> (result: bool)
    ensures
        result == (a@ == b@),
{
    let x = chars_of(a);
    let y = chars_of(b);
    chars_eq(&x, &y)
}

/// A `String` holding `chars[from..to]`.
pub fn string_of(chars: &Vec<char>, from: usize, to: usize) -> (text: String)
    requires
        from <= to <= chars@.len(),
    ensures
        text@ == chars@.subrange(from as int, to as int),
{
    let mut text = String::new();
    let mut i = from;
    while i < to
        invariant
            from <= i <= to <= chars@.len(),
            text@ == chars@.subrange(from as int, i as int),
        decreases to - i,
    {
        push_char(&mut text, chars[i]);
        assert(chars@.subrange(from as int, i + 1) =~= chars@.subrange(from as int, i as int).push(chars@[i as int]));
        i += 1;
    }
    text
}

pub open spec fn is_digit(c: char) -> bool {
    '0' <= c <= '9'
}

pub open spec fn digit_value(c: char) -> nat {
    ((c as u32) - ('0' as u32)) as nat
}

/// The number that a run of decimal digits spells.
pub open spec fn decimal_value(s: Seq<char>) -> nat
    decreases s.len(),
{
    if s.len() == 0 {
        0
    } else {
        decimal_value(s.drop_last()) * 10 + digit_value(s.last())
    }
}

pub open spec fn all_digits(s: Seq<char>) -> bool {
    forall|i: int| 0 <= i < s.len() ==> is_digit(#[trigger] s[i])
}

/// The decimal digits of a number spell that number.
pub proof fn lemma_decimal_chars_value(n: nat)
    ensures
        decimal_value(decimal_chars(n)) == n,
        decimal_chars(n).len() >= 1,
        all_digits(decimal_chars(n)),
    decreases n,
{
    if n < 10 {
        assert(decimal_chars(n) =~= seq![digit_char(n)]);
        assert(seq![digit_char(n)].drop_last() =~= Seq::<char>::empty());
        assert(decimal_value(Seq::<char>::empty()) == 0);
        assert(digit_value(digit_char(n)) == n);
        assert(is_digit(digit_char(n)));
    } else {
        lemma_decimal_chars_value(n / 10);
        let s = decimal_chars(n);
        assert(s.drop_last() =~= decimal_chars(n / 10));
        assert(digit_value(digit_char(n % 10)) == n % 10);
        assert(s.last() == digit_char(n % 10));
        assert(n == (n / 10) * 10 + n % 10);
        assert(is_digit(digit_char(n % 10)));
        assert forall|i: int| 0 <= i < s.len() implies is_digit(#[trigger] s[i]) by {
            if i < s.len() - 1 {
                assert(s[i] == decimal_chars(n / 10)[i]);
            }
        }
    }
}


/// The text after an optional leading `+`.
pub open spec fn unsigned_digits(s: Seq<char>) -> Seq<char> {
    if s.len() > 0 && s[0] == '+' {
        s.drop_first()
    } else {
        s
    }
}

/// What `str::parse::<u32>` accepts: an optional `+`, then one or more ASCII digits whose
/// value fits in 32 bits.
pub open spec fn parse_u32_spec(s: Seq<char>) -> Option<u32> {
    let digits = unsigned_digits(s);
    if digits.len() > 0 && all_digits(digits) && decimal_value(digits) <= u32::MAX {
        Some(decimal_value(digits) as u32)
    } else {
        None
    }
}

const DECIMAL_CAP: u64 = 0x1_0000_0000;

/// Parses a decimal `u32` the way `str::parse::<u32>` does.
pub fn parse_u32(s: &str) -> (parsed: Option<u32>)
    ensures
        parsed == parse_u32_spec(s@),
{
    let chars = chars_of(s);
    let n = chars.len();
    let start: usize = if n > 0 && chars[0] == '+' { 1 } else { 0 };
    let ghost digits = unsigned_digits(s@);
    assert(digits =~= s@.subrange(start as int, n as int));
    if start == n {
        return None;
    }
    let mut value: u64 = 0;
    let mut i = start;
    while i < n
        invariant
            chars@ == s@,
            n == chars@.len(),
            start <= i <= n,
            digits == s@.subrange(start as int, n as int),
            digits == unsigned_digits(s@),
            all_digits(s@.subrange(start as int, i as int)),
            value == if decimal_value(s@.subrange(start as int, i as int)) < DECIMAL_CAP {
                decimal_value(s@.subrange(start as int, i as int))
            } else {
                DECIMAL_CAP as nat
            },
        decreases n - i,
    {
        let c = chars[i];
        if !('0' <= c && c <= '9') {
            assert(digits[i - start] == c);
            assert(!is_digit(digits[i - start]));
            assert(!all_digits(digits));
            return None;
        }
        let d = (c as u32 - '0' as u32) as u64;
        let ghost prev = s@.subrange(start as int, i as int);
        let ghost next = s@.subrange(start as int, i + 1);
        assert(next.drop_last() =~= prev);
        assert(decimal_value(next) == decimal_value(prev) * 10 + d);
        if value >= DECIMAL_CAP {
            assert(decimal_value(next) >= DECIMAL_CAP) by (nonlinear_arith)
                requires
                    decimal_value(next) == decimal_value(prev) * 10 + d,
                    decimal_value(prev) >= DECIMAL_CAP,
            ;
        } else {
            assert(value * 10 + d < 0x10_0000_0000) by (nonlinear_arith)
                requires
                    value < DECIMAL_CAP,
                    d < 10,
                                ;
            let grown = value * 10 + d;
            value = if grown < DECIMAL_CAP { grown } else { DECIMAL_CAP };
        }
        assert(all_digits(next)) by {
            assert forall|k: int| 0 <= k < next.len() implies is_digit(#[trigger] next[k]) by {
                if k < prev.len() {
                    assert(next[k] == prev[k]);
                }
            }
        }
        i += 1;
    }
    if value >= DECIMAL_CAP {
        None
    } else {
        Some(value as u32)
    }
}


const DECIMAL_CAP64: u128 = 0x1_0000_0000_0000_0000;

/// What `str::parse::<u64>` accepts: an optional `+`, then one or more ASCII digits whose
/// value fits in 64 bits.
pub open spec fn parse_u64_spec(s: Seq<char>) -> Option<u64> {
    let digits = unsigned_digits(s);
    if digits.len() > 0 && all_digits(digits) && decimal_value(digits) <= u64::MAX {
        Some(decimal_value(digits) as u64)
    } else {
        None
    }
}

/// Parses a decimal `u64` the way `str::parse::<u64>` does.
pub fn parse_u64(s: &str) -> (parsed: Option<u64>)
    ensures
        parsed == parse_u64_spec(s@),
{
    let chars = chars_of(s);
    let n = chars.len();
    let start: usize = if n > 0 && chars[0] == '+' { 1 } else { 0 };
    let ghost digits = unsigned_digits(s@);
    assert(digits =~= s@.subrange(start as int, n as int));
    if start == n {
        return None;
    }
    let mut value: u128 = 0;
    let mut i = start;
    while i < n
        invariant
            chars@ == s@,
            n == chars@.len(),
            start <= i <= n,
            digits == s@.subrange(start as int, n as int),
            digits == unsigned_digits(s@),
            all_digits(s@.subrange(start as int, i as int)),
            value == if decimal_value(s@.subrange(start as int, i as int)) < DECIMAL_CAP64 {
                decimal_value(s@.subrange(start as int, i as int))
            } else {
                DECIMAL_CAP64 as nat
            },
        decreases n - i,
    {
        let c = chars[i];
        if !('0' <= c && c <= '9') {
            assert(digits[i - start] == c);
            assert(!is_digit(digits[i - start]));
            assert(!all_digits(digits));
            return None;
        }
        let d = (c as u32 - '0' as u32) as u128;
        let ghost prev = s@.subrange(start as int, i as int);
        let ghost next = s@.subrange(start as int, i + 1);
        assert(next.drop_last() =~= prev);
        assert(decimal_value(next) == decimal_value(prev) * 10 + d);
        if value >= DECIMAL_CAP64 {
            assert(decimal_value(next) >= DECIMAL_CAP64) by (nonlinear_arith)
                requires
                    decimal_value(next) == decimal_value(prev) * 10 + d,
                    decimal_value(prev) >= DECIMAL_CAP64,
            ;
        } else {
            assert(value * 10 + d < 0x10_0000_0000_0000_0000) by (nonlinear_arith)
                requires
                    value < DECIMAL_CAP64,
                    d < 10,
                                ;
            let grown = value * 10 + d;
            value = if grown < DECIMAL_CAP64 { grown } else { DECIMAL_CAP64 };
        }
        assert(all_digits(next)) by {
            assert forall|k: int| 0 <= k < next.len() implies is_digit(#[trigger] next[k]) by {
                if k < prev.len() {
                    assert(next[k] == prev[k]);
                }
            }
        }
        i += 1;
    }
    if value >= DECIMAL_CAP64 {
        None
    } else {
        Some(value as u64)
    }
}

} // verus!

verus! {

/// The texts of a list of strings.
pub open spec fn texts(v: Seq<String>) -> Seq<Seq<char>> {
    v.map_values(|s: String| s@)
}

/// `a` followed by `b`, as a new `String`.
pub fn cat(a: &str, b: &str) -> (text: String)
    ensures
        text@ == a@ + b@,
{
    let mut text = a.to_owned();
    text.append(b);
    text
}

/// ASCII letter or digit, what `char::is_ascii_alphanumeric` accepts.
pub open spec fn is_ascii_alnum(c: char) -> bool {
    ('0' <= c <= '9') || ('a' <= c <= 'z') || ('A' <= c <= 'Z')
}

pub fn ascii_alnum(c: char) -> (result: bool)
    ensures
        result == is_ascii_alnum(c),
{
    ('0' <= c && c <= '9') || ('a' <= c && c <= 'z') || ('A' <= c && c <= 'Z')
}

} // verus!

verus! {

/// Reading `s` left to right: the text so far and whether white space followed its last word.
pub open spec fn collapse_run(s: Seq<char>) -> (Seq<char>, bool)
    decreases s.len(),
{
    if s.len() == 0 {
        (Seq::empty(), false)
    } else {
        let (out, gap) = collapse_run(s.drop_last());
        let c = s.last();
        if is_whitespace_spec(c) {
            (out, out.len() > 0)
        } else if gap {
            (out.push(' ').push(c), false)
        } else {
            (out.push(c), false)
        }
    }
}

/// The words of `s` (runs between Unicode white space) joined by single spaces, as
/// `split_whitespace().collect::<Vec<_>>().join(" ")` gives them.
pub open spec fn collapse_whitespace_spec(s: Seq<char>) -> Seq<char> {
    collapse_run(s).0
}

pub fn collapse_whitespace(s: &str) -> (collapsed: String)
    ensures
        collapsed@ == collapse_whitespace_spec(s@),
{
    let chars = chars_of(s);
    let mut out = String::new();
    let mut gap = false;
    let mut i: usize = 0;
    while i < chars.len()
        invariant
            chars@ == s@,
            i <= chars@.len(),
            collapse_run(s@.subrange(0, i as int)) == (out@, gap),
        decreases chars@.len() - i,
    {
        let c = chars[i];
        proof {
            assert(s@.subrange(0, i + 1).drop_last() =~= s@.subrange(0, i as int));
        }
        if is_whitespace(c) {
            gap = out.as_str().unicode_len() > 0;
        } else {
            if gap {
                push_char(&mut out, ' ');
            }
            push_char(&mut out, c);
            gap = false;
        }
        i += 1;
    }
    assert(s@.subrange(0, chars@.len() as int) =~= s@);
    out
}

/// An identifier that the stores accept: not blank, at most 128 bytes of UTF-8, and free of
/// carriage returns, line feeds and NUL characters.
pub open spec fn is_valid_id(value: Seq<char>) -> bool {
    &&& !all_whitespace(value)
    &&& (encode_utf8(value).len() as usize) <= 128
    &&& !value.contains('\r')
    &&& !value.contains('\n')
    &&& !value.contains('\0')
}

pub fn valid_id(value: &str) -> (valid: bool)
    ensures
        valid == is_valid_id(value@),
{
    !is_blank(value) && value.len() <= 128 && !contains_char(value, '\r') && !contains_char(value, '\n')
        && !contains_char(value, '\0')
}

/// The first `n` characters.
pub open spec fn take_chars(s: Seq<char>, n: nat) -> Seq<char> {
    if s.len() <= n { s } else { s.subrange(0, n as int) }
}

pub fn take_prefix(s: &str, n: usize) -> (prefix: String)
    ensures
        prefix@ == take_chars(s@, n as nat),
{
    let chars = chars_of(s);
    if chars.len() <= n {
        s.to_owned()
    } else {
        string_of(&chars, 0, n)
    }
}

} // verus!
