//! Character and string helpers for the source scanner, and the few std
//! calls whose behaviour vstd leaves unspecified.
use vstd::prelude::*;

verus! {

/// Whether std classes the character as alphanumeric (Unicode `Alphabetic`
/// or `Numeric`).
pub uninterp spec fn alphanumeric(c: char) -> bool;

/// The pieces of `s[start..]` between the occurrences of a non-empty
/// `pattern`, searching from `i`: each match is the leftmost one that does
/// not overlap the one before.
pub open spec fn split_from(s: Seq<char>, pattern: Seq<char>, start: int, i: int) -> Seq<Seq<char>>
    decreases s.len() - i,
{
    if pattern.len() == 0 || i < start || i + pattern.len() > s.len() {
        seq![s.subrange(start, s.len() as int)]
    } else if s.subrange(i, i + pattern.len()) == pattern {
        seq![s.subrange(start, i)] + split_from(s, pattern, i + pattern.len(), i + pattern.len())
    } else {
        split_from(s, pattern, start, i + 1)
    }
}

/// The pieces of `s` between the occurrences of a non-empty `pattern`, as
/// `str::split` yields them: one more piece than there are matches.
pub open spec fn split_pieces(s: Seq<char>, pattern: Seq<char>) -> Seq<Seq<char>> {
    split_from(s, pattern, 0, 0)
}

/// The characters with the Unicode `White_Space` property, which
/// `char::is_whitespace` tests.
pub open spec fn white_space(c: char) -> bool {
    let u = c as u32;
    ||| 0x09 <= u <= 0x0d
    ||| u == 0x20 || u == 0x85 || u == 0xa0 || u == 0x1680
    ||| 0x2000 <= u <= 0x200a
    ||| u == 0x2028 || u == 0x2029 || u == 0x202f || u == 0x205f || u == 0x3000
}

/// `s` without its leading white space.
pub open spec fn trimmed_start(s: Seq<char>) -> Seq<char>
    decreases s.len(),
{
    if s.len() > 0 && white_space(s[0]) {
        trimmed_start(s.drop_first())
    } else {
        s
    }
}

/// `s` without its trailing white space.
pub open spec fn trimmed_end(s: Seq<char>) -> Seq<char>
    decreases s.len(),
{
    if s.len() > 0 && white_space(s.last()) {
        trimmed_end(s.drop_last())
    } else {
        s
    }
}

/// `s` without its leading and trailing white space.
pub open spec fn trimmed(s: Seq<char>) -> Seq<char> {
    trimmed_end(trimmed_start(s))
}

/// The value of a digit character in radices up to 36; 36 for a non-digit.
pub open spec fn digit_value(c: char) -> nat {
    if '0' <= c && c <= '9' {
        (c as nat - '0' as nat) as nat
    } else if 'a' <= c && c <= 'z' {
        (c as nat - 'a' as nat + 10) as nat
    } else if 'A' <= c && c <= 'Z' {
        (c as nat - 'A' as nat + 10) as nat
    } else {
        36
    }
}

/// Every character of `s` is a digit of the radix.
pub open spec fn all_digits(s: Seq<char>, radix: nat) -> bool {
    forall|i: int| 0 <= i < s.len() ==> digit_value(#[trigger] s[i]) < radix
}

/// The number that the digits of `s` write in the radix, most significant first.
pub open spec fn digits_value(s: Seq<char>, radix: nat) -> nat
    decreases s.len(),
{
    if s.len() == 0 {
        0
    } else {
        digits_value(s.drop_last(), radix) * radix + digit_value(s.last())
    }
}

/// What `u64::from_str_radix` accepts: an optional `+`, then one or more
/// digits of the radix whose value fits in 64 bits.
pub open spec fn radix_value(s: Seq<char>, radix: nat) -> Option<u64> {
    let body = if s.len() > 0 && s[0] == '+' {
        s.drop_first()
    } else {
        s
    };
    if body.len() > 0 && all_digits(body, radix) && digits_value(body, radix) <= u64::MAX {
        Some(digits_value(body, radix) as u64)
    } else {
        None
    }
}

/// Relies on `char::is_alphanumeric`: a property of the character alone,
/// true of the ASCII letters and digits and of the Polish capitals, which
/// are Unicode Alphabetic or Numeric, and false of ASCII space and
/// punctuation.
#[verifier::external_body]
pub(crate) fn is_alphanumeric(c: char) -> (r: bool)
    ensures
        r == alphanumeric(c),
        ('a' <= c <= 'z' || 'A' <= c <= 'Z' || '0' <= c <= '9') ==> r,
        (c == 'Ą' || c == 'Ć' || c == 'Ę' || c == 'Ł' || c == 'Ń' || c == 'Ó' || c == 'Ś'
            || c == 'Ź' || c == 'Ż') ==> r,
        (c == ' ' || c == ';' || c == '\n' || c == '"' || c == '@' || c == '.' || c == '\\'
            || c == '|') ==> !r,
{
    c.is_alphanumeric()
}

/// Relies on `u64::from_str_radix`: an optional `+` and digits of the radix,
/// anything else or a value over `u64::MAX` is an error.
#[verifier::external_body]
pub(crate) fn parse_radix(s: &str, radix: u32) -> (r: Option<u64>)
    requires
        radix == 10 || radix == 16,
    ensures
        r == radix_value(s@, radix as nat),
{
    u64::from_str_radix(s, radix).ok()
}

/// Relies on `str::trim`: the text without leading and trailing characters
/// of the Unicode `White_Space` property.
#[verifier::external_body]
pub(crate) fn trim(s: &str) -> (r: &str)
    ensures
        r@ == trimmed(s@),
{
    s.trim()
}

/// Relies on `String::push`: appends the character.
#[verifier::external_body]
pub(crate) fn push_char(s: &mut String, c: char)
    ensures
        final(s)@ == old(s)@.push(c),
{
    s.push(c)
}

/// Relies on `str::split` with a non-empty string pattern: the pieces
/// between the matches, found left to right without overlap, each copied out.
#[verifier::external_body]
pub(crate) fn split_on(s: &str, pattern: &str) -> (r: Vec<String>)
    requires
        pattern@.len() > 0,
    ensures
        r@.map_values(|f: String| f@) == split_pieces(s@, pattern@),
{
    s.split(pattern).map(str::to_owned).collect()
}

/// The characters of `s`, in order.
pub(crate) fn collect_chars(s: &str) -> (r: Vec<char>)
    ensures
        r@ == s@,
{
    let mut v: Vec<char> = Vec::new();
    for c in it: s.chars()
        invariant
            v@ == it.seq().take(it.index() as int),
    {
        v.push(c);
    }
    v
}

/// Whether two strings hold the same characters.
pub(crate) fn same_word(s: &str, w: &str) -> (r: bool)
    ensures
        r == (s@ == w@),
{
    let n = s.unicode_len();
    if n != w.unicode_len() {
        return false;
    }
    let mut i: usize = 0;
    while i < n
        invariant
            n == s@.len(),
            n == w@.len(),
            i <= n,
            s@.take(i as int) == w@.take(i as int),
        decreases n - i,
    {
        if s.get_char(i) != w.get_char(i) {
            return false;
        }
        assert(s@.take(i + 1) == s@.take(i as int).push(s@[i as int]));
        assert(w@.take(i + 1) == w@.take(i as int).push(w@[i as int]));
        i = i + 1;
    }
    assert(s@ == s@.take(n as int));
    assert(w@ == w@.take(n as int));
    true
}

} // verus!
