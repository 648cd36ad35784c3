//! Parsing of command-line values: durations such as `30s`, `2m` or `1h`,
//! quality presets, session types, and frame sizes for streaming.
use crate::error::CaptureError;
use vstd::prelude::*;
use vstd::string::StringSliceAdditionalSpecFns;
use vstd::utf8::{encode_utf8, is_char_boundary};

verus! {

/// Whether a byte is an ASCII decimal digit.
pub open spec fn is_digit(b: u8) -> bool {
    48 <= b <= 57
}

/// The value of a string of decimal digits.
pub open spec fn digits_value(s: Seq<u8>) -> nat
    decreases s.len(),
{
    if s.len() == 0 {
        0
    } else {
        digits_value(s.drop_last()) * 10 + (s.last() - 48) as nat
    }
}

/// The digits of a number in text: an optional leading `+` removed.
pub open spec fn unsigned_digits(s: Seq<u8>) -> Seq<u8> {
    if s.len() > 0 && s[0] == 43 {
        s.subrange(1, s.len() as int)
    } else {
        s
    }
}

/// The `u32` a text denotes, as Rust's `u32::from_str` reads it: an
/// optional `+`, then one or more decimal digits, of value at most
/// `u32::MAX`.
pub open spec fn spec_parse_u32(s: Seq<u8>) -> Option<u32> {
    let d = unsigned_digits(s);
    if d.len() > 0 && (forall|i: int| 0 <= i < d.len() ==> is_digit(#[trigger] d[i])) && digits_value(d)
        <= u32::MAX {
        Some(digits_value(d) as u32)
    } else {
        None
    }
}

/// Digits after a prefix only make the value larger.
proof fn lemma_digits_value_grows(s: Seq<u8>, k: int)
    requires
        0 <= k <= s.len(),
        forall|i: int| 0 <= i < s.len() ==> is_digit(#[trigger] s[i]),
    ensures
        digits_value(s.subrange(0, k)) <= digits_value(s),
    decreases s.len() - k,
{
    if k < s.len() {
        lemma_digits_value_grows(s, k + 1);
        let p = s.subrange(0, k + 1);
        assert(p.drop_last() =~= s.subrange(0, k));
    } else {
        assert(s.subrange(0, k) =~= s);
    }
}

/// Reads a `u32` from the text bytes `s` as Rust's `u32::from_str` does.
pub fn parse_u32(s: &[u8]) -> (r: Option<u32>)
    ensures
        r == spec_parse_u32(s@),
{
    let n = s.len();
    let start: usize = if n > 0 && s[0] == 43 { 1 } else { 0 };
    let ghost d = unsigned_digits(s@);
    assert(d =~= s@.subrange(start as int, n as int));
    if start >= n {
        return None;
    }
    let mut v: u64 = 0;
    let mut i: usize = start;
    while i < n
        invariant
            start <= i <= n,
            n == s@.len(),
            d == s@.subrange(start as int, n as int),
            d == unsigned_digits(s@),
            forall|k: int| start <= k < i ==> is_digit(#[trigger] s@[k]),
            v == digits_value(s@.subrange(start as int, i as int)),
            v <= u32::MAX,
        decreases n - i,
    {
        let b = s[i];
        if b < 48 || b > 57 {
            assert(d[i - start] == b);
            assert(!is_digit(d[(i - start) as int]));
            return None;
        }
        let next = v * 10 + (b - 48) as u64;
        proof {
            let p = s@.subrange(start as int, i + 1);
            assert(p.drop_last() =~= s@.subrange(start as int, i as int));
        }
        if next > 0xFFFF_FFFFu64 {
            proof {
                if forall|j: int| 0 <= j < d.len() ==> is_digit(#[trigger] d[j]) {
                    lemma_digits_value_grows(d, (i + 1 - start) as int);
                    assert(d.subrange(0, (i + 1 - start) as int) =~= s@.subrange(start as int, i + 1));
                    assert(digits_value(d) > u32::MAX);
                }
            }
            return None;
        }
        v = next;
        i += 1;
    }
    assert(s@.subrange(start as int, n as int) =~= d);
    Some(v as u32)
}

/// Whether two texts are equal when ASCII letters are compared without
/// case.
pub open spec fn eq_ignore_ascii_case(a: Seq<char>, b: Seq<char>) -> bool {
    a.len() == b.len() && forall|i: int| 0 <= i < a.len() ==> #[trigger] ascii_lower(a[i]) == ascii_lower(b[i])
}

/// `c` with an ASCII capital letter made small.
pub open spec fn ascii_lower(c: char) -> char {
    if 'A' <= c <= 'Z' {
        ((c as int) + 32) as char
    } else {
        c
    }
}

/// `c` with an ASCII capital letter made small.
fn to_ascii_lower(c: char) -> (r: char)
    ensures
        r == ascii_lower(c),
{
    if 'A' <= c && c <= 'Z' {
        let b = c as u8;
        assert(b == c as int);
        (b + 32) as char
    } else {
        c
    }
}

/// Whether `a` equals the lower-case word `word` when ASCII letters are
/// compared without case.
pub fn matches_ignore_ascii_case(a: &str, word: &str) -> (r: bool)
    ensures
        r == eq_ignore_ascii_case(a@, word@),
{
    let n = a.unicode_len();
    let m = word.unicode_len();
    if n != m {
        return false;
    }
    let mut i: usize = 0;
    while i < n
        invariant
            n == a@.len(),
            m == word@.len(),
            n == m,
            i <= n,
            forall|k: int| 0 <= k < i ==> #[trigger] ascii_lower(a@[k]) == ascii_lower(word@[k]),
        decreases n - i,
    {
        let x = to_ascii_lower(a.get_char(i));
        let y = to_ascii_lower(word.get_char(i));
        if x != y {
            return false;
        }
        i += 1;
    }
    true
}

/// The x264 constant rate factor of a quality preset, named without
/// regard to ASCII case.
pub open spec fn spec_quality_crf(q: Seq<char>) -> Option<u8> {
    if eq_ignore_ascii_case(q, "low"@) {
        Some(28)
    } else if eq_ignore_ascii_case(q, "medium"@) {
        Some(23)
    } else if eq_ignore_ascii_case(q, "high"@) {
        Some(20)
    } else if eq_ignore_ascii_case(q, "ultra"@) {
        Some(18)
    } else {
        None
    }
}

/// `e` is a validation error of `field` for `constraint` whose value has
/// the UTF-8 bytes `value`.
pub open spec fn is_validation(e: CaptureError, field: Seq<char>, constraint: Seq<char>, value: Seq<u8>) -> bool {
    e matches CaptureError::Validation { field: f, constraint: c, value: v, .. } && f@ == field && c@ == constraint
        && encode_utf8(v@) == value
}

/// The CRF of a quality preset: `low` 28, `medium` 23, `high` 20, `ultra`
/// 18 (any ASCII case); anything else is a validation error.
pub fn parse_quality(quality: &str) -> (r: Result<u8, CaptureError>)
    ensures
        match spec_quality_crf(quality@) {
            Some(c) => r == Ok::<u8, CaptureError>(c),
            None => r matches Err(e) && is_validation(
                e,
                "quality"@,
                "invalid preset (use low/medium/high/ultra)"@,
                quality.spec_bytes(),
            ),
        },
{
    if matches_ignore_ascii_case(quality, "low") {
        Ok(28)
    } else if matches_ignore_ascii_case(quality, "medium") {
        Ok(23)
    } else if matches_ignore_ascii_case(quality, "high") {
        Ok(20)
    } else if matches_ignore_ascii_case(quality, "ultra") {
        Ok(18)
    } else {
        Err(CaptureError::validation("quality", "invalid preset (use low/medium/high/ultra)", quality))
    }
}

/// Whether a session type names a Wayland session (any ASCII case).
pub fn is_wayland_session_type(session_type: Option<&str>) -> (r: bool)
    ensures
        r == (session_type matches Some(t) && eq_ignore_ascii_case(t@, "wayland"@)),
{
    match session_type {
        Some(t) => matches_ignore_ascii_case(t, "wayland"),
        None => false,
    }
}

/// The start of the last character of `b[..=i]`: the greatest character
/// boundary not after `i` (zero at the latest).
pub open spec fn boundary_at_or_before(b: Seq<u8>, i: int) -> int
    decreases i,
{
    if i <= 0 {
        0
    } else if is_char_boundary(b, i) {
        i
    } else {
        boundary_at_or_before(b, i - 1)
    }
}

/// The start of the last character of a text of at least one byte.
pub open spec fn last_char_start(b: Seq<u8>) -> int {
    boundary_at_or_before(b, b.len() - 1)
}

/// The seconds a duration text denotes, or the validation error for it: a
/// plain number of seconds, or a number followed by `s`, `m` or `h`.
pub open spec fn duration_outcome(b: Seq<u8>, r: Result<u32, CaptureError>) -> bool {
    match spec_parse_u32(b) {
        Some(v) => r == Ok::<u32, CaptureError>(v),
        None => if b.len() < 2 {
            r matches Err(e) && is_validation(e, "duration"@, "invalid format"@, b)
        } else {
            let cut = last_char_start(b);
            let head = b.subrange(0, cut);
            let unit = b.subrange(cut, b.len() as int);
            match spec_parse_u32(head) {
                None => r matches Err(e) && is_validation(e, "duration"@, "invalid number"@, head),
                Some(n) => if unit == seq![115u8] {
                    r == Ok::<u32, CaptureError>(n)
                } else if unit == seq![109u8] {
                    r == Ok::<u32, CaptureError>((n * 60) as u32)
                } else if unit == seq![104u8] {
                    r == Ok::<u32, CaptureError>((n * 3600) as u32)
                } else {
                    r matches Err(e) && is_validation(e, "duration"@, "invalid unit (use s/m/h)"@, unit)
                },
            }
        },
    }
}

/// What reading a duration asks of its text: minutes or hours fit in a
/// `u32` of seconds.
pub open spec fn duration_readable(b: Seq<u8>) -> bool {
    spec_parse_u32(b) is None && b.len() >= 2 ==> {
        let cut = last_char_start(b);
        spec_parse_u32(b.subrange(0, cut)) matches Some(n) ==> {
            &&& (b.subrange(cut, b.len() as int) == seq![109u8] ==> n * 60 <= u32::MAX)
            &&& (b.subrange(cut, b.len() as int) == seq![104u8] ==> n * 3600 <= u32::MAX)
        }
    }
}

/// The seconds of a duration such as `45`, `30s`, `2m` or `1h`; the unit
/// is the text's last character.
pub fn parse_duration(duration: &str) -> (r: Result<u32, CaptureError>)
    requires
        duration_readable(duration.spec_bytes()),
    ensures
        duration_outcome(duration.spec_bytes(), r),
{
    let bytes = duration.as_bytes();
    let ghost b = duration.spec_bytes();
    assert(bytes@ == b);
    match parse_u32(bytes) {
        Some(v) => {
            return Ok(v);
        },
        None => {},
    }
    let len = bytes.len();
    assert(len == b.len());
    if len < 2 {
        assert(spec_parse_u32(b) is None);
        assert(encode_utf8(duration@) == b);
        return Err(CaptureError::validation("duration", "invalid format", duration));
    }
    let mut cut = len - 1;
    while cut > 0 && !duration.is_char_boundary(cut)
        invariant
            b == duration.spec_bytes(),
            len == b.len(),
            cut < len,
            boundary_at_or_before(b, cut as int) == last_char_start(b),
        decreases cut,
    {
        cut -= 1;
    }
    proof {
        vstd::utf8::encode_utf8_valid_utf8(duration@);
        assert(is_char_boundary(b, cut as int));
    }
    assert(boundary_at_or_before(b, cut as int) == cut as int);
    let (num_str, unit) = duration.split_at(cut);
    let num = match parse_u32(num_str.as_bytes()) {
        Some(n) => n,
        None => {
            return Err(CaptureError::validation("duration", "invalid number", num_str));
        },
    };
    let u = unit.as_bytes();
    if u.len() == 1 && u[0] == 115 {
        assert(u@ =~= seq![115u8]);
        Ok(num)
    } else if u.len() == 1 && u[0] == 109 {
        assert(u@ =~= seq![109u8]);
        Ok(num * 60)
    } else if u.len() == 1 && u[0] == 104 {
        assert(u@ =~= seq![104u8]);
        Ok(num * 3600)
    } else {
        Err(CaptureError::validation("duration", "invalid unit (use s/m/h)", unit))
    }
}

} // verus!
