//! Character classification and string helpers shared by the library.
use vstd::prelude::*;
use vstd::utf8::{decode_utf8, valid_utf8};

verus! {

broadcast use vstd::string::group_string_axioms;

/// `char::is_control`: the Unicode general category Cc.
pub open spec fn is_control(c: char) -> bool {
    (c as u32) < 0x20 || (0x7f <= (c as u32) && (c as u32) < 0xa0)
}

/// `char::is_whitespace`: the Unicode `White_Space` property.
pub open spec fn is_whitespace(c: char) -> bool {
    let v = c as u32;
    (0x09 <= v && v <= 0x0d) || v == 0x20 || v == 0x85 || v == 0xa0 || v == 0x1680 || (0x2000
        <= v && v <= 0x200a) || v == 0x2028 || v == 0x2029 || v == 0x202f || v == 0x205f || v
        == 0x3000
}

/// Bidirectional formatting characters that can visually reorder terminal text.
pub open spec fn is_bidi_control(c: char) -> bool {
    let v = c as u32;
    v == 0x061c || v == 0x200e || v == 0x200f || (0x202a <= v && v <= 0x202e) || (0x2066 <= v
        && v <= 0x2069)
}

/// True when `s` starts or ends with whitespace, i.e. `s.trim() != s`.
pub open spec fn has_surrounding_whitespace(s: Seq<char>) -> bool {
    s.len() > 0 && (is_whitespace(s[0]) || is_whitespace(s[s.len() - 1]))
}

/// True when some character of `s` is a control character.
pub open spec fn has_control(s: Seq<char>) -> bool {
    exists|i: int| 0 <= i < s.len() && #[trigger] is_control(s[i])
}

/// Number of bytes of the UTF-8 encoding of `s` (what `str::len` returns).
pub open spec fn utf8_len(s: Seq<char>) -> nat {
    vstd::utf8::encode_utf8(s).len()
}

/// ASCII lowercasing of one character (`char::to_ascii_lowercase`).
pub open spec fn ascii_lower(c: char) -> char {
    if 'A' <= c && c <= 'Z' {
        ((c as u32) + 32) as char
    } else {
        c
    }
}

pub open spec fn ascii_lower_seq(s: Seq<char>) -> Seq<char> {
    s.map_values(|c: char| ascii_lower(c))
}

pub open spec fn is_ascii_alphanumeric(c: char) -> bool {
    ('a' <= c && c <= 'z') || ('A' <= c && c <= 'Z') || ('0' <= c && c <= '9')
}

pub open spec fn is_ascii_digit(c: char) -> bool {
    '0' <= c && c <= '9'
}

/// `needle` occurs as a contiguous part of `hay`.
pub open spec fn contains_seq(hay: Seq<char>, needle: Seq<char>) -> bool {
    exists|i: int|
        0 <= i && i + needle.len() <= hay.len() && #[trigger] hay.subrange(i, i + needle.len())
            == needle
}

/// What `str::to_lowercase` returns for the given characters (full Unicode case mapping).
pub uninterp spec fn unicode_lowercase(s: Seq<char>) -> Seq<char>;

/// Lowercase hexadecimal digit for `d < 16`.
pub open spec fn hex_digit(d: nat) -> char {
    if d < 10 {
        (('0' as u32) + d) as char
    } else {
        (('a' as u32) + (d - 10)) as char
    }
}

/// Lowercase hexadecimal representation of `n` without leading zeros.
pub open spec fn hex_digits(n: nat) -> Seq<char>
    decreases n,
{
    if n < 16 {
        seq![hex_digit(n)]
    } else {
        hex_digits(n / 16).push(hex_digit(n % 16))
    }
}

/// Decimal representation of `n` without leading zeros.
pub open spec fn decimal_digits(n: nat) -> Seq<char>
    decreases n,
{
    if n < 10 {
        seq![(('0' as u32) + n) as char]
    } else {
        decimal_digits(n / 10).push((('0' as u32) + (n % 10)) as char)
    }
}

/// Decimal representation of a signed integer, with a leading `-` when negative.
pub open spec fn signed_decimal(n: int) -> Seq<char> {
    if n < 0 {
        seq!['-'] + decimal_digits((-n) as nat)
    } else {
        decimal_digits(n as nat)
    }
}

/// `char::escape_unicode`: `\u{` followed by the lowercase hex code point and `}`.
pub open spec fn escape_unicode(c: char) -> Seq<char> {
    seq!['\\', 'u', '{'] + hex_digits(c as u32 as nat) + seq!['}']
}

/// Escape controls and bidi controls, optionally keeping newlines and tabs.
pub open spec fn escape_terminal(s: Seq<char>, keep_lines: bool) -> Seq<char>
    decreases s.len(),
{
    if s.len() == 0 {
        seq![]
    } else {
        let c = s.last();
        let rest = escape_terminal(s.drop_last(), keep_lines);
        if keep_lines && (c == '\n' || c == '\t') {
            rest.push(c)
        } else if is_control(c) || is_bidi_control(c) {
            rest + escape_unicode(c)
        } else {
            rest.push(c)
        }
    }
}

pub fn is_control_char(c: char) -> (r: bool)
    ensures
        r == is_control(c),
{
    let v = c as u32;
    v < 0x20 || (0x7f <= v && v < 0xa0)
}

pub fn is_whitespace_char(c: char) -> (r: bool)
    ensures
        r == is_whitespace(c),
{
    let v = c as u32;
    (0x09 <= v && v <= 0x0d) || v == 0x20 || v == 0x85 || v == 0xa0 || v == 0x1680 || (0x2000
        <= v && v <= 0x200a) || v == 0x2028 || v == 0x2029 || v == 0x202f || v == 0x205f || v
        == 0x3000
}

/// Whether `c` is a bidirectional formatting control.
pub fn is_bidi_control_char(c: char) -> (r: bool)
    ensures
        r == is_bidi_control(c),
{
    let v = c as u32;
    v == 0x061c || v == 0x200e || v == 0x200f || (0x202a <= v && v <= 0x202e) || (0x2066 <= v
        && v <= 0x2069)
}

pub fn ascii_lower_char(c: char) -> (r: char)
    ensures
        r == ascii_lower(c),
{
    if 'A' <= c && c <= 'Z' {
        let v = (c as u32) + 32;
        assert(v < 0xd800);
        char_from_ascii_code(v)
    } else {
        c
    }
}

/// The character with ASCII code `v`.
pub(crate) fn char_from_ascii_code(v: u32) -> (r: char)
    requires
        v < 0x80,
    ensures
        r == v as char,
        r as u32 == v,
{
    let b: u8 = v as u8;
    b as char
}

/// The characters of `value`, in order.
pub fn chars_of(value: &str) -> (out: Vec<char>)
    ensures
        out@ == value@,
{
    let mut out: Vec<char> = Vec::new();
    for c in it: value.chars()
        invariant
            out@ == it.seq().take(it.index() as int),
            it.seq() == value@,
    {
        out.push(c);
    }
    out
}

/// Number of bytes in the UTF-8 encoding of `value` (`str::len`).
pub fn byte_len(value: &str) -> (r: usize)
    ensures
        r == utf8_len(value@),
{
    value.as_bytes().len()
}

/// Append one character (`String::push`).
#[verifier::external_body]
pub(crate) fn push_char(s: &mut String, c: char)
    ensures
        final(s)@ == old(s)@.push(c),
{
    s.push(c);
}

/// Append a string slice.
pub(crate) fn push_str(s: &mut String, other: &str)
    ensures
        final(s)@ == old(s)@ + other@,
{
    s.append(other);
}

/// `String::from_utf8`: the bytes as text when they are valid UTF-8, else the bytes back.
#[verifier::external_body]
pub(crate) fn string_from_utf8(bytes: Vec<u8>) -> (r: Result<String, Vec<u8>>)
    ensures
        r is Ok <==> valid_utf8(bytes@),
        r matches Ok(s) ==> s@ == decode_utf8(bytes@),
        r matches Err(b) ==> b@ == bytes@,
{
    String::from_utf8(bytes).map_err(|error| error.into_bytes())
}

/// A new `String` with the characters of `value`.
pub fn owned(value: &str) -> (r: String)
    ensures
        r@ == value@,
{
    value.to_owned()
}

/// Lowercase with full Unicode case mapping (`str::to_lowercase`).
#[verifier::external_body]
pub(crate) fn to_lowercase(value: &str) -> (r: String)
    ensures
        r@ == unicode_lowercase(value@),
{
    value.to_lowercase()
}

/// Append the lowercase hexadecimal digits of `n`.
pub fn push_hex(out: &mut String, n: u32)
    ensures
        final(out)@ == old(out)@ + hex_digits(n as nat),
    decreases n,
{
    if n >= 16 {
        push_hex(out, n / 16);
    }
    let d = n % 16;
    let c = if d < 10 {
        char_from_ascii_code(0x30 + d)
    } else {
        char_from_ascii_code(0x61 + (d - 10))
    };
    push_char(out, c);
}

/// Append the decimal digits of `n`.
pub fn push_decimal(out: &mut String, n: u64)
    ensures
        final(out)@ == old(out)@ + decimal_digits(n as nat),
    decreases n,
{
    if n >= 10 {
        push_decimal(out, n / 10);
    }
    let d = (n % 10) as u32;
    push_char(out, char_from_ascii_code(0x30 + d));
}

/// Append the decimal representation of a signed integer.
pub fn push_signed_decimal(out: &mut String, n: i64)
    ensures
        final(out)@ == old(out)@ + signed_decimal(n as int),
{
    if n < 0 {
        push_char(out, '-');
        let magnitude: u64 = if n == i64::MIN {
            9223372036854775808u64
        } else {
            (-n) as u64
        };
        push_decimal(out, magnitude);
        assert(final(out)@ =~= old(out)@ + signed_decimal(n as int));
    } else {
        push_decimal(out, n as u64);
    }
}

/// Escape terminal-unsafe characters of `value` into a new string.
fn escape_for_terminal(value: &str, keep_lines: bool) -> (r: String)
    ensures
        r@ == escape_terminal(value@, keep_lines),
{
    let chars = chars_of(value);
    let mut out = String::new();
    let mut i: usize = 0;
    while i < chars.len()
        invariant
            i <= chars@.len(),
            chars@ == value@,
            out@ == escape_terminal(chars@.take(i as int), keep_lines),
        decreases chars@.len() - i,
    {
        let c = chars[i];
        assert(chars@.take(i as int + 1).drop_last() =~= chars@.take(i as int));
        if keep_lines && (c == '\n' || c == '\t') {
            push_char(&mut out, c);
        } else if is_control_char(c) || is_bidi_control_char(c) {
            push_str(&mut out, "\\u{");
            proof {
                reveal_strlit("\\u{");
            }
            push_hex(&mut out, c as u32);
            push_char(&mut out, '}');
            assert(out@ =~= escape_terminal(chars@.take(i as int), keep_lines) + escape_unicode(c));
        } else {
            push_char(&mut out, c);
        }
        i = i + 1;
    }
    assert(chars@.take(chars@.len() as int) =~= chars@);
    out
}

/// Escape provider-controlled text before placing it in terminal headings or tables.
///
/// Control characters and bidi overrides become `\u{..}` escapes; everything else is kept.
pub fn terminal_safe(value: &str) -> (r: String)
    ensures
        r@ == escape_terminal(value@, false),
{
    escape_for_terminal(value, false)
}

/// Escape terminal-control data from captured remote output while keeping newlines and tabs.
pub fn terminal_output_safe(value: &str) -> (r: String)
    ensures
        r@ == escape_terminal(value@, true),
{
    escape_for_terminal(value, true)
}

/// Whether the characters of `value` contain a control character.
pub fn contains_control(value: &str) -> (r: bool)
    ensures
        r == has_control(value@),
{
    let chars = chars_of(value);
    let mut i: usize = 0;
    while i < chars.len()
        invariant
            i <= chars@.len(),
            chars@ == value@,
            forall|j: int| 0 <= j < i ==> !is_control(#[trigger] chars@[j]),
        decreases chars@.len() - i,
    {
        if is_control_char(chars[i]) {
            return true;
        }
        i = i + 1;
    }
    false
}

/// Whether `value` starts or ends with whitespace (`value.trim() != value`).
pub fn surrounded_by_whitespace(value: &str) -> (r: bool)
    ensures
        r == has_surrounding_whitespace(value@),
{
    let chars = chars_of(value);
    if chars.len() == 0 {
        return false;
    }
    is_whitespace_char(chars[0]) || is_whitespace_char(chars[chars.len() - 1])
}

/// Whether `needle` occurs in `hay`.
pub fn contains_chars(hay: &Vec<char>, needle: &Vec<char>) -> (r: bool)
    ensures
        r == contains_seq(hay@, needle@),
{
    if needle.len() > hay.len() {
        return false;
    }
    if needle.len() == 0 {
        assert(hay@.subrange(0, 0 + needle@.len() as int) =~= needle@);
        return true;
    }
    let last = hay.len() - needle.len();
    let mut start: usize = 0;
    while start <= last
        invariant
            needle@.len() <= hay@.len(),
            last == hay@.len() - needle@.len(),
            needle@.len() > 0,
            hay@.len() <= usize::MAX,
            start <= last + 1,
            forall|i: int|
                0 <= i < start ==> #[trigger] hay@.subrange(i, i + needle@.len()) != needle@,
        decreases hay@.len() - start,
    {
        let mut k: usize = 0;
        let mut same = true;
        while k < needle.len()
            invariant
                start + needle@.len() <= hay@.len(),
                start <= last,
                last == hay@.len() - needle@.len(),
                hay@.len() <= usize::MAX,
                k <= needle@.len(),
                same == (forall|j: int| 0 <= j < k ==> hay@[start + j] == needle@[j]),
            decreases needle@.len() - k,
        {
            if hay[start + k] != needle[k] {
                same = false;
            }
            k = k + 1;
        }
        if same {
            assert(hay@.subrange(start as int, start + needle@.len()) =~= needle@);
            return true;
        }
        assert(hay@.subrange(start as int, start + needle@.len())[(choose|j: int|
            0 <= j < needle@.len() && hay@[start + j] != needle@[j]) as int] != needle@[(choose|
            j: int|
            0 <= j < needle@.len() && hay@[start + j] != needle@[j]) as int]);
        start = start + 1;
    }
    proof {
        assert forall|i: int|
            0 <= i && i + needle@.len() <= hay@.len() implies #[trigger] hay@.subrange(
            i,
            i + needle@.len(),
        ) != needle@ by {
            assert(i < start);
        }
    }
    false
}

/// Whether the text `needle` occurs in the text `hay`.
pub fn str_contains(hay: &str, needle: &str) -> (r: bool)
    ensures
        r == contains_seq(hay@, needle@),
{
    let h = chars_of(hay);
    let n = chars_of(needle);
    contains_chars(&h, &n)
}

/// Whether `value` starts with `prefix`.
pub fn starts_with(value: &str, prefix: &str) -> (r: bool)
    ensures
        r == (prefix@.len() <= value@.len() && value@.take(prefix@.len() as int) == prefix@),
{
    let v = chars_of(value);
    let p = chars_of(prefix);
    if p.len() > v.len() {
        return false;
    }
    let mut i: usize = 0;
    while i < p.len()
        invariant
            p@.len() <= v@.len(),
            v@ == value@,
            p@ == prefix@,
            i <= p@.len(),
            forall|j: int| 0 <= j < i ==> v@[j] == p@[j],
        decreases p@.len() - i,
    {
        if v[i] != p[i] {
            assert(v@.take(p@.len() as int)[i as int] != p@[i as int]);
            assert(v@.take(p@.len() as int) != p@);
            return false;
        }
        i = i + 1;
    }
    assert(v@.take(p@.len() as int) =~= p@);
    true
}

/// Equality after ASCII lowercasing of both sides (`str::eq_ignore_ascii_case`).
pub fn eq_ignore_ascii_case(a: &str, b: &str) -> (r: bool)
    ensures
        r == (ascii_lower_seq(a@) == ascii_lower_seq(b@)),
{
    let x = chars_of(a);
    let y = chars_of(b);
    if x.len() != y.len() {
        assert(ascii_lower_seq(a@).len() != ascii_lower_seq(b@).len());
        return false;
    }
    let mut i: usize = 0;
    while i < x.len()
        invariant
            x@.len() == y@.len(),
            x@ == a@,
            y@ == b@,
            i <= x@.len(),
            forall|j: int| 0 <= j < i ==> ascii_lower(x@[j]) == ascii_lower(y@[j]),
        decreases x@.len() - i,
    {
        if ascii_lower_char(x[i]) != ascii_lower_char(y[i]) {
            assert(ascii_lower_seq(a@)[i as int] != ascii_lower_seq(b@)[i as int]);
            return false;
        }
        i = i + 1;
    }
    assert(ascii_lower_seq(a@) =~= ascii_lower_seq(b@));
    true
}

/// `s` without leading whitespace.
pub open spec fn trim_start(s: Seq<char>) -> Seq<char>
    decreases s.len(),
{
    if s.len() > 0 && is_whitespace(s[0]) {
        trim_start(s.drop_first())
    } else {
        s
    }
}

/// `s` without trailing whitespace.
pub open spec fn trim_end(s: Seq<char>) -> Seq<char>
    decreases s.len(),
{
    if s.len() > 0 && is_whitespace(s.last()) {
        trim_end(s.drop_last())
    } else {
        s
    }
}

/// `str::trim`: `s` without leading and trailing whitespace.
pub open spec fn trimmed(s: Seq<char>) -> Seq<char> {
    trim_end(trim_start(s))
}

/// The text of `value` without leading and trailing whitespace.
pub fn trim(value: &str) -> (r: String)
    ensures
        r@ == trimmed(value@),
{
    let chars = chars_of(value);
    let n = chars.len();
    let mut start: usize = 0;
    assert(chars@.skip(0) =~= chars@);
    while start < n && is_whitespace_char(chars[start])
        invariant
            chars@ == value@,
            n == chars@.len(),
            start <= n,
            trim_start(value@) == trim_start(chars@.skip(start as int)),
        decreases n - start,
    {
        assert(chars@.skip(start as int).drop_first() =~= chars@.skip(start + 1));
        start = start + 1;
    }
    let mut end: usize = n;
    assert(chars@.skip(start as int).take((end - start) as int) =~= chars@.skip(start as int));
    while end > start && is_whitespace_char(chars[end - 1])
        invariant
            chars@ == value@,
            n == chars@.len(),
            start <= end <= n,
            trim_start(value@) == chars@.skip(start as int),
            trimmed(value@) == trim_end(chars@.subrange(start as int, end as int)),
        decreases end - start,
    {
        assert(chars@.subrange(start as int, end as int).drop_last() =~= chars@.subrange(
            start as int,
            end - 1,
        ));
        end = end - 1;
    }
    let mut out = String::new();
    let mut i: usize = start;
    while i < end
        invariant
            chars@ == value@,
            start <= i <= end <= n,
            n == chars@.len(),
            out@ == chars@.subrange(start as int, i as int),
        decreases end - i,
    {
        push_char(&mut out, chars[i]);
        assert(chars@.subrange(start as int, i + 1) =~= chars@.subrange(start as int, i as int).push(
            chars@[i as int],
        ));
        i = i + 1;
    }
    proof {
        assert(chars@.skip(start as int).take((n - start) as int) =~= chars@.subrange(start as int, n as int));
    }
    out
}

/// Whether two strings have the same characters.
pub fn str_eq(a: &str, b: &str) -> (r: bool)
    ensures
        r == (a@ == b@),
{
    let x = chars_of(a);
    let y = chars_of(b);
    if x.len() != y.len() {
        assert(x@.len() != y@.len());
        return false;
    }
    let mut i: usize = 0;
    while i < x.len()
        invariant
            x@.len() == y@.len(),
            x@ == a@,
            y@ == b@,
            i <= x@.len(),
            forall|j: int| 0 <= j < i ==> x@[j] == y@[j],
        decreases x@.len() - i,
    {
        if x[i] != y[i] {
            assert(x@[i as int] != y@[i as int]);
            return false;
        }
        i = i + 1;
    }
    assert(x@ =~= y@);
    true
}

/// A character that cannot steer a terminal: neither a bidi control nor a control character,
/// except a newline or tab where lines are kept.
pub open spec fn inert(c: char, keep_lines: bool) -> bool {
    !is_bidi_control(c) && (is_control(c) ==> keep_lines && (c == '\n' || c == '\t'))
}

proof fn lemma_hex_digits_inert(n: nat)
    ensures
        forall|i: int| 0 <= i < hex_digits(n).len() ==> inert(#[trigger] hex_digits(n)[i], false),
    decreases n,
{
    if n >= 16 {
        lemma_hex_digits_inert(n / 16);
    }
    let d = hex_digits(n);
    assert forall|i: int| 0 <= i < d.len() implies inert(#[trigger] d[i], false) by {
        if n >= 16 && i < d.len() - 1 {
            assert(d[i] == hex_digits(n / 16)[i]);
        } else {
            let x = if n < 16 { n } else { n % 16 };
            assert(d[i] == hex_digit(x));
            assert((hex_digit(x) as u32) as int == (if x < 10 { 0x30 + x as int } else { 0x61 + x as int - 10 }));
        }
    }
}

/// Escaping changes only what could steer a terminal: text whose every character is inert,
/// newlines and tabs included where lines are kept, comes back unchanged.
pub proof fn lemma_inert_text_is_unchanged(s: Seq<char>, keep_lines: bool)
    requires
        forall|i: int| 0 <= i < s.len() ==> inert(#[trigger] s[i], keep_lines),
    ensures
        escape_terminal(s, keep_lines) == s,
    decreases s.len(),
{
    if s.len() > 0 {
        let rest = s.drop_last();
        assert forall|i: int| 0 <= i < rest.len() implies inert(#[trigger] rest[i], keep_lines) by {
            assert(rest[i] == s[i]);
        }
        lemma_inert_text_is_unchanged(rest, keep_lines);
        assert(inert(s[s.len() - 1], keep_lines));
        assert(rest.push(s.last()) =~= s);
    }
}

/// Escaping works character by character: the escape of two texts joined is the two escapes
/// joined.
pub proof fn lemma_escape_distributes(a: Seq<char>, b: Seq<char>, keep_lines: bool)
    ensures
        escape_terminal(a + b, keep_lines) == escape_terminal(a, keep_lines) + escape_terminal(
            b,
            keep_lines,
        ),
    decreases b.len(),
{
    if b.len() == 0 {
        assert(a + b =~= a);
        assert(escape_terminal(a, keep_lines) + escape_terminal(b, keep_lines) =~= escape_terminal(
            a,
            keep_lines,
        ));
    } else {
        lemma_escape_distributes(a, b.drop_last(), keep_lines);
        assert((a + b).drop_last() =~= a + b.drop_last());
        assert((a + b).last() == b.last());
        let c = b.last();
        let ea = escape_terminal(a, keep_lines);
        let eb = escape_terminal(b.drop_last(), keep_lines);
        if keep_lines && (c == '\n' || c == '\t') {
            assert((ea + eb).push(c) =~= ea + eb.push(c));
        } else if is_control(c) || is_bidi_control(c) {
            assert((ea + eb) + escape_unicode(c) =~= ea + (eb + escape_unicode(c)));
        } else {
            assert((ea + eb).push(c) =~= ea + eb.push(c));
        }
    }
}

/// One character is kept when it is inert and otherwise written as its `\u{..}` escape.
pub proof fn lemma_escape_one_character(c: char, keep_lines: bool)
    ensures
        escape_terminal(seq![c], keep_lines) == if inert(c, keep_lines) {
            seq![c]
        } else {
            escape_unicode(c)
        },
{
    assert(seq![c].drop_last() =~= Seq::<char>::empty());
    assert(escape_terminal(Seq::<char>::empty(), keep_lines) == Seq::<char>::empty());
    assert(Seq::<char>::empty().push(c) =~= seq![c]);
    assert(Seq::<char>::empty() + escape_unicode(c) =~= escape_unicode(c));
}

/// Escaped text cannot steer a terminal: every character of `escape_terminal(s, keep_lines)`
/// is inert.
pub proof fn lemma_escaped_text_is_inert(s: Seq<char>, keep_lines: bool)
    ensures
        forall|i: int|
            0 <= i < escape_terminal(s, keep_lines).len() ==> inert(
                #[trigger] escape_terminal(s, keep_lines)[i],
                keep_lines,
            ),
    decreases s.len(),
{
    if s.len() > 0 {
        let c = s.last();
        let rest = escape_terminal(s.drop_last(), keep_lines);
        lemma_escaped_text_is_inert(s.drop_last(), keep_lines);
        let r = escape_terminal(s, keep_lines);
        if keep_lines && (c == '\n' || c == '\t') {
            assert forall|i: int| 0 <= i < r.len() implies inert(#[trigger] r[i], keep_lines) by {
                if i < rest.len() {
                    assert(r[i] == rest[i]);
                }
            }
        } else if is_control(c) || is_bidi_control(c) {
            let e = escape_unicode(c);
            lemma_hex_digits_inert(c as u32 as nat);
            assert forall|i: int| 0 <= i < r.len() implies inert(#[trigger] r[i], keep_lines) by {
                if i < rest.len() {
                    assert(r[i] == rest[i]);
                } else {
                    let j = i - rest.len();
                    assert(r[i] == e[j]);
                    let h = hex_digits(c as u32 as nat);
                    if 3 <= j < 3 + h.len() {
                        assert(e[j] == h[j - 3]);
                        assert(inert(h[j - 3], false));
                    }
                }
            }
        } else {
            assert forall|i: int| 0 <= i < r.len() implies inert(#[trigger] r[i], keep_lines) by {
                if i < rest.len() {
                    assert(r[i] == rest[i]);
                }
            }
        }
    }
}

} // verus!
