//! Text helpers: UTF-8 decoding, character access and substring search.
use vstd::prelude::*;
use vstd::utf8::{decode_utf8, valid_utf8};
use std::str::Utf8Error;

verus! {

#[verifier::external_type_specification]
#[verifier::external_body]
pub struct ExUtf8Error(Utf8Error);

/// Decodes `bytes` as UTF-8 with `std::str::from_utf8`, which accepts
/// exactly the well-formed UTF-8 sequences and decodes them to the scalars
/// that they encode.
#[verifier::external_body]
pub(crate) fn utf8_to_string(bytes: &[u8]) -> (res: Result<String, Utf8Error>)
    ensures
        res is Ok <==> valid_utf8(bytes@),
        res matches Ok(s) ==> s@ == decode_utf8(bytes@),
{
    std::str::from_utf8(bytes).map(|s| s.to_owned())
}

/// The characters of `s`.
pub fn chars_of(s: &str) -> (res: Vec<char>)
    ensures
        res@ == s@,
{
    let n = s.unicode_len();
    let mut res = Vec::new();
    let mut i: usize = 0;
    while i < n
        invariant
            n == s@.len(),
            i <= n,
            res@ == s@.take(i as int),
        decreases n - i,
    {
        res.push(s.get_char(i));
        i = i + 1;
        assert(res@ =~= s@.take(i as int));
    }
    assert(s@.take(n as int) =~= s@);
    res
}

/// Whether `needle` occurs in `hay` at position `i`.
pub open spec fn occurs_at(hay: Seq<char>, needle: Seq<char>, i: int) -> bool {
    0 <= i && i + needle.len() <= hay.len() && hay.subrange(i, i + needle.len()) == needle
}

/// Whether `needle` occurs anywhere in `hay`.
pub open spec fn contains_seq(hay: Seq<char>, needle: Seq<char>) -> bool {
    exists|i: int| occurs_at(hay, needle, i)
}

/// Whether `needle` occurs in `hay`.
pub fn contains_str(hay: &str, needle: &str) -> (res: bool)
    ensures
        res == contains_seq(hay@, needle@),
{
    let h = chars_of(hay);
    let n = chars_of(needle);
    if n.len() > h.len() {
        assert forall|i: int| !occurs_at(hay@, needle@, i) by {}
        return false;
    }
    let mut i: usize = 0;
    while i <= h.len() - n.len()
        invariant
            h@ == hay@,
            n@ == needle@,
            n.len() <= h.len(),
            i <= h.len() - n.len() + 1,
            forall|k: int| 0 <= k < i ==> !occurs_at(hay@, needle@, k),
        decreases h.len() - i,
    {
        let mut j: usize = 0;
        let mut same = true;
        while j < n.len()
            invariant
                h@ == hay@,
                n@ == needle@,
                i + n.len() <= h.len(),
                j <= n.len(),
                same <==> forall|q: int| 0 <= q < j ==> h@[i + q] == n@[q],
            decreases n.len() - j,
        {
            if h[i + j] != n[j] {
                same = false;
            }
            j = j + 1;
        }
        if same {
            assert(hay@.subrange(i as int, i + needle@.len()) =~= needle@);
            assert(occurs_at(hay@, needle@, i as int));
            return true;
        }
        proof {
            if occurs_at(hay@, needle@, i as int) {
                assert forall|q: int| 0 <= q < n.len() implies h@[i + q] == n@[q] by {
                    assert(hay@.subrange(i as int, i + needle@.len())[q] == needle@[q]);
                }
            }
        }
        i = i + 1;
    }
    assert forall|k: int| !occurs_at(hay@, needle@, k) by {
        if 0 <= k && k + needle@.len() <= hay@.len() {
            assert(k < i);
        }
    }
    false
}

/// Whether `s` is the text `lit`.
pub fn is_text(s: &String, lit: &str) -> (res: bool)
    ensures
        res == (s@ == lit@),
{
    let other: String = lit.to_owned();
    *s == other
}


/// Whether `c` has the Unicode White_Space property (what
/// `char::is_whitespace` tests).
pub open spec fn is_whitespace(c: char) -> bool {
    ||| ('\u{9}' <= c && c <= '\u{d}')
    ||| c == ' '
    ||| c == '\u{85}'
    ||| c == '\u{a0}'
    ||| c == '\u{1680}'
    ||| ('\u{2000}' <= c && c <= '\u{200a}')
    ||| c == '\u{2028}'
    ||| c == '\u{2029}'
    ||| c == '\u{202f}'
    ||| c == '\u{205f}'
    ||| c == '\u{3000}'
}

/// `s` without its leading and trailing whitespace.
pub open spec fn trim_spec(s: Seq<char>) -> Seq<char> {
    let first = if exists|i: int| 0 <= i < s.len() && !is_whitespace(s[i]) {
        choose|i: int| 0 <= i < s.len() && !is_whitespace(s[i]) && forall|j: int| 0 <= j < i ==> is_whitespace(s[j])
    } else {
        s.len() as int
    };
    let last = if exists|i: int| 0 <= i < s.len() && !is_whitespace(s[i]) {
        choose|i: int| 0 <= i < s.len() && !is_whitespace(s[i]) && forall|j: int| i < j < s.len() ==> is_whitespace(s[j])
    } else {
        s.len() as int - 1
    };
    if first <= last { s.subrange(first, last + 1) } else { Seq::empty() }
}

/// `str::trim`: `s` without leading and trailing characters that have the
/// White_Space property.
#[verifier::external_body]
pub(crate) fn trim(s: &str) -> (res: String)
    ensures
        res@ == trim_spec(s@),
{
    s.trim().to_owned()
}

/// Whether `c` is an ASCII decimal digit.
pub open spec fn is_digit(c: char) -> bool {
    '0' <= c && c <= '9'
}

/// The value of a sequence of decimal digits.
pub open spec fn digits_value(s: Seq<char>) -> int
    decreases s.len(),
{
    if s.len() == 0 {
        0
    } else {
        digits_value(s.drop_last()) * 10 + (s.last() as int - '0' as int)
    }
}

/// What `str::parse::<i32>` makes of `s`: an optional `+` or `-` followed by
/// at least one decimal digit and nothing else, with a value in range.
pub open spec fn parse_i32_spec(s: Seq<char>) -> Option<i32> {
    if s.len() == 0 {
        None
    } else {
        let neg = s[0] == '-';
        let digits = if s[0] == '-' || s[0] == '+' { s.skip(1) } else { s };
        if digits.len() == 0 || exists|i: int| 0 <= i < digits.len() && !is_digit(digits[i]) {
            None
        } else {
            let v = if neg { -digits_value(digits) } else { digits_value(digits) };
            if i32::MIN <= v <= i32::MAX { Some(v as i32) } else { None }
        }
    }
}

/// `str::parse::<i32>`, which accepts an optional sign followed by decimal
/// digits whose value fits in an `i32`.
#[verifier::external_body]
pub(crate) fn parse_i32(s: &str) -> (res: Option<i32>)
    ensures
        res == parse_i32_spec(s@),
{
    s.parse::<i32>().ok()
}

/// The first group that the regular expression `pattern` captures in
/// `text`, or `None` where the pattern does not compile, does not match or
/// its first group does not take part in the match.
pub uninterp spec fn regex_capture(pattern: Seq<char>, text: Seq<char>) -> Option<Seq<char>>;

/// Compiles `pattern` with `regex::Regex::new` and returns the text of the
/// first capture group of its leftmost match in `text`. What that text is
/// rests on the regex crate and is left to the name `regex_capture`.
#[verifier::external_body]
pub(crate) fn first_capture(pattern: &str, text: &str) -> (res: Option<String>)
    ensures
        match res {
            Some(c) => regex_capture(pattern@, text@) == Some(c@),
            None => regex_capture(pattern@, text@) is None,
        },
{
    let regex = regex::Regex::new(pattern).ok()?;
    let captures = regex.captures(text)?;
    captures.get(1).map(|group| group.as_str().to_owned())
}

/// The MAC address that `macaddr::MacAddr6::from_str` parses from `text`.
pub uninterp spec fn mac_parse(text: Seq<char>) -> Option<Seq<u8>>;

/// Parses a MAC address with `macaddr`'s `MacAddr6::from_str` (six groups
/// of two hexadecimal digits separated by `-` or `:`, or three groups of
/// four separated by `.`). Which texts it accepts is left to the name
/// `mac_parse`.
#[verifier::external_body]
pub(crate) fn parse_mac(text: &str) -> (res: Option<[u8; 6]>)
    ensures
        match res {
            Some(a) => mac_parse(text@) == Some(a@),
            None => mac_parse(text@) is None,
        },
{
    text.parse::<macaddr::MacAddr6>().ok().map(|addr| addr.into_array())
}

/// The decimal digit character of `d` (below 10).
pub open spec fn digit_char(d: nat) -> char {
    if d == 0 { '0' } else if d == 1 { '1' } else if d == 2 { '2' } else if d == 3 { '3' } else if d == 4 { '4' }
    else if d == 5 { '5' } else if d == 6 { '6' } else if d == 7 { '7' } else if d == 8 { '8' } else { '9' }
}

/// The decimal text of `n`, without leading zeros ("0" for zero).
pub open spec fn decimal(n: nat) -> Seq<char>
    decreases n,
{
    if n < 10 {
        seq![digit_char(n)]
    } else {
        decimal(n / 10).push(digit_char(n % 10))
    }
}

/// The text of one decimal digit.
fn digit_str(d: u64) -> (res: &'static str)
    requires
        d < 10,
    ensures
        res@ == seq![digit_char(d as nat)],
{
    let r = if d == 0 { "0" } else if d == 1 { "1" } else if d == 2 { "2" } else if d == 3 { "3" }
        else if d == 4 { "4" } else if d == 5 { "5" } else if d == 6 { "6" } else if d == 7 { "7" }
        else if d == 8 { "8" } else { "9" };
    proof {
        reveal_strlit("0"); reveal_strlit("1"); reveal_strlit("2"); reveal_strlit("3"); reveal_strlit("4");
        reveal_strlit("5"); reveal_strlit("6"); reveal_strlit("7"); reveal_strlit("8"); reveal_strlit("9");
    }
    r
}

/// Appends the decimal text of `n` to `s`.
pub fn push_decimal(s: &mut String, n: u64)
    ensures
        final(s)@ == old(s)@ + decimal(n as nat),
    decreases n,
{
    if n >= 10 {
        push_decimal(s, n / 10);
        s.append(digit_str(n % 10));
        assert(s@ =~= old(s)@ + decimal(n as nat));
    } else {
        s.append(digit_str(n));
        assert(s@ =~= old(s)@ + decimal(n as nat));
    }
}

/// The dotted text of an IPv4 address.
pub open spec fn dotted(a: [u8; 4]) -> Seq<char> {
    decimal(a[0] as nat) + "."@ + decimal(a[1] as nat) + "."@ + decimal(a[2] as nat) + "."@ + decimal(a[3] as nat)
}

/// Appends the dotted text of an IPv4 address to `s`.
pub fn push_dotted(s: &mut String, a: [u8; 4])
    ensures
        final(s)@ == old(s)@ + dotted(a),
{
    proof { reveal_strlit("."); }
    push_decimal(s, a[0] as u64);
    s.append(".");
    push_decimal(s, a[1] as u64);
    s.append(".");
    push_decimal(s, a[2] as u64);
    s.append(".");
    push_decimal(s, a[3] as u64);
    assert(s@ =~= old(s)@ + dotted(a));
}

} // verus!
