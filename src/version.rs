//! The `HTTP/<major>.<minor>` token.
use vstd::prelude::*;

use crate::error::HttpVersionParseError;
use crate::text::{chars_of, copy_range, find_char, first_from};

verus! {

/// A protocol version.
#[derive(Debug, Clone, Copy, PartialEq, Eq)]
pub struct HttpVersion {
    pub major: u8,
    pub minor: u8,
}

/// An ASCII decimal digit. Digits of other scripts do not count: a version token
/// that holds one does not have the `HTTP/<digits>.<digits>` shape and is `Invalid`.
pub open spec fn is_digit(c: char) -> bool {
    '0' <= c && c <= '9'
}

/// `s[from..to]` is a non-empty run of ASCII decimal digits.
pub open spec fn digits_between(s: Seq<char>, from: int, to: int) -> bool {
    0 <= from < to <= s.len() && forall|i: int| from <= i < to ==> is_digit(#[trigger] s[i])
}

/// The number that a run of decimal digits writes.
pub open spec fn decimal_value(d: Seq<char>) -> nat
    decreases d.len(),
{
    if d.len() == 0 {
        0
    } else {
        decimal_value(d.drop_last()) * 10 + (d.last() as u32 - '0' as u32) as nat
    }
}

/// The two digit groups of a token `HTTP/<major>.<minor>`, where the `.` is a literal
/// dot and both groups are non-empty runs of ASCII digits, or `None` for any other token.
pub open spec fn version_groups(s: Seq<char>) -> Option<(Seq<char>, Seq<char>)> {
    let k = first_from(s, '.', 5);
    if s.len() >= 5 && s.subrange(0, 5) == seq!['H', 'T', 'T', 'P', '/'] && digits_between(s, 5, k)
        && digits_between(s, k + 1, s.len() as int) {
        Some((s.subrange(5, k), s.subrange(k + 1, s.len() as int)))
    } else {
        None
    }
}

/// What parsing the token `s` gives: the numbers of its two groups, or the error of
/// the first group that does not fit in a `u8`, or `Invalid` for a token of another shape.
pub open spec fn version_result(s: Seq<char>, r: Result<HttpVersion, HttpVersionParseError>) -> bool {
    match version_groups(s) {
        None => r matches Err(HttpVersionParseError::Invalid),
        Some((a, b)) => if decimal_value(a) > 255 {
            r matches Err(HttpVersionParseError::MajorVersionParseError(_))
        } else if decimal_value(b) > 255 {
            r matches Err(HttpVersionParseError::MinorVersionParseError(_))
        } else {
            r == Ok::<HttpVersion, HttpVersionParseError>(
                HttpVersion { major: decimal_value(a) as u8, minor: decimal_value(b) as u8 },
            )
        },
    }
}

/// Whether the token `s` is a version that parses.
pub open spec fn version_accepts(s: Seq<char>) -> bool {
    match version_groups(s) {
        None => false,
        Some((a, b)) => decimal_value(a) <= 255 && decimal_value(b) <= 255,
    }
}

/// Relies on `<u8 as FromStr>::from_str`: a string of ASCII decimal digits is read as
/// the number it writes (leading zeros allowed), and a number above `u8::MAX` is an error.
#[verifier::external_body]
fn parse_u8(digits: &str) -> (r: Result<u8, std::num::ParseIntError>)
    requires
        digits_between(digits@, 0, digits@.len() as int),
    ensures
        decimal_value(digits@) <= 255 ==> r is Ok && r->Ok_0 == decimal_value(digits@),
        decimal_value(digits@) > 255 ==> r is Err,
{
    digits.parse::<u8>()
}

/// Whether `s[from..to]` is a non-empty run of ASCII digits.
fn all_digits(s: &Vec<char>, from: usize, to: usize) -> (r: bool)
    requires
        from <= to <= s@.len(),
    ensures
        r == digits_between(s@, from as int, to as int),
{
    if from == to {
        return false;
    }
    let mut i: usize = from;
    while i < to
        invariant
            from <= i <= to <= s@.len(),
            forall|j: int| from <= j < i ==> is_digit(#[trigger] s@[j]),
        decreases to - i,
    {
        if !('0' <= s[i] && s[i] <= '9') {
            return false;
        }
        i = i + 1;
    }
    true
}

impl HttpVersion {
    /// Parses a version token such as `HTTP/1.1`.
    pub fn parse(value: &str) -> (r: Result<HttpVersion, HttpVersionParseError>)
        ensures
            version_result(value@, r),
    {
        let cs = chars_of(value);
        let n: usize = cs.len();
        if n < 5 {
            return Err(HttpVersionParseError::Invalid);
        }
        let k = find_char(&cs, '.', 5);
        let prefix_ok = cs[0] == 'H' && cs[1] == 'T' && cs[2] == 'T' && cs[3] == 'P' && cs[4] == '/';
        proof {
            assert(prefix_ok <==> value@.subrange(0, 5) =~= seq!['H', 'T', 'T', 'P', '/']);
        }
        if !prefix_ok || k == n || !all_digits(&cs, 5, k) || !all_digits(&cs, k + 1, n) {
            proof {
                if k == n {
                    assert(!digits_between(value@, k + 1, n as int));
                }
            }
            return Err(HttpVersionParseError::Invalid);
        }
        let major_text = copy_range(value, 5, k);
        let minor_text = copy_range(value, k + 1, n);
        let major = match parse_u8(major_text.as_str()) {
            Ok(v) => v,
            Err(e) => return Err(HttpVersionParseError::MajorVersionParseError(e)),
        };
        let minor = match parse_u8(minor_text.as_str()) {
            Ok(v) => v,
            Err(e) => return Err(HttpVersionParseError::MinorVersionParseError(e)),
        };
        Ok(HttpVersion { major, minor })
    }
}

impl<'a> TryFrom<&'a str> for HttpVersion {
    type Error = HttpVersionParseError;

    fn try_from(value: &'a str) -> (r: Result<HttpVersion, HttpVersionParseError>)
        ensures
            version_result(value@, r),
    {
        HttpVersion::parse(value)
    }
}

/// The contract of `try_from` is stated on the impl above, as on `HttpVersion::parse`.
impl<'a> vstd::std_specs::convert::TryFromSpecImpl<&'a str> for HttpVersion {
    open spec fn obeys_try_from_spec() -> bool {
        false
    }

    open spec fn try_from_spec(v: &'a str) -> Result<HttpVersion, HttpVersionParseError> {
        arbitrary()
    }
}

} // verus!
