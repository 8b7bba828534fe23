//! Parsing Python writer versions of the form `major.minor.patch` with an
//! optional trailing suffix, e.g. `3.11.0a1`.

use vstd::prelude::*;

use crate::log_types::PythonVersion;
use crate::log_types::PythonVersionView;

verus! {

/// Why a version component failed to parse as an integer.
#[derive(Clone, Copy, Debug, PartialEq, Eq, Structural)]
pub enum IntParseError {
    /// The component holds no characters at all.
    Empty,
    /// A character that is no decimal digit stands where one must.
    InvalidDigit,
    /// The digits name a value larger than the component's type holds.
    Overflow,
}

/// Why a version string failed to parse.
#[derive(Clone, Copy, Debug, PartialEq, Eq, Structural)]
pub enum PythonVersionParseError {
    MissingMajor,
    MissingMinor,
    MissingPatch,
    InvalidMajor(IntParseError),
    InvalidMinor(IntParseError),
    InvalidPatch(IntParseError),
}

pub open spec fn is_ascii_digit_char(c: char) -> bool {
    '0' <= c && c <= '9'
}

/// Folds decimal digits onto `acc`, scanning left to right: the first
/// non-digit is an error, and so is the first prefix whose value exceeds
/// a byte — whichever comes first.
pub open spec fn spec_parse_u8_digits(s: Seq<char>, acc: int) -> Result<u8, IntParseError>
    recommends
        0 <= acc <= 255,
    decreases s.len(),
{
    if s.len() == 0 {
        Ok(acc as u8)
    } else if !is_ascii_digit_char(s[0]) {
        Err(IntParseError::InvalidDigit)
    } else {
        let v = acc * 10 + (s[0] as u32 - 48);
        if v > 255 {
            Err(IntParseError::Overflow)
        } else {
            spec_parse_u8_digits(s.skip(1), v)
        }
    }
}

/// Parses a byte-sized decimal number: an optional leading `+`, then at
/// least one digit.
pub open spec fn spec_parse_u8(s: Seq<char>) -> Result<u8, IntParseError> {
    if s.len() == 0 {
        Err(IntParseError::Empty)
    } else {
        let body = if s[0] == '+' {
            s.skip(1)
        } else {
            s
        };
        if body.len() == 0 {
            Err(IntParseError::InvalidDigit)
        } else {
            spec_parse_u8_digits(body, 0)
        }
    }
}

/// Index of the first `.` at or after `from`; the length when there is
/// none.
pub open spec fn spec_find_dot(s: Seq<char>, from: int) -> int
    decreases s.len() - from,
{
    if from < 0 || from >= s.len() {
        s.len() as int
    } else if s[from] == '.' {
        from
    } else {
        spec_find_dot(s, from + 1)
    }
}

/// Index of the first character at or after `from` that is no decimal
/// digit; the length when all are digits.
pub open spec fn spec_find_non_digit(s: Seq<char>, from: int) -> int
    decreases s.len() - from,
{
    if from < 0 || from >= s.len() {
        s.len() as int
    } else if !is_ascii_digit_char(s[from]) {
        from
    } else {
        spec_find_non_digit(s, from + 1)
    }
}

/// What parsing a version string yields: the text before the first dot is
/// the major version, the text between the first and second dots the
/// minor, then the longest run of digits the patch, and whatever follows
/// those digits the suffix. Structural faults (a missing component)
/// surface before numeric ones, and the numeric components are judged in
/// major, minor, patch order.
pub open spec fn spec_parse_python_version(s: Seq<char>) -> Result<
    PythonVersionView,
    PythonVersionParseError,
> {
    if s.len() == 0 {
        Err(PythonVersionParseError::MissingMajor)
    } else {
        let i = spec_find_dot(s, 0);
        if i == s.len() {
            Err(PythonVersionParseError::MissingMinor)
        } else {
            let major_s = s.take(i);
            let rest = s.skip(i + 1);
            if rest.len() == 0 {
                Err(PythonVersionParseError::MissingMinor)
            } else {
                let j = spec_find_dot(rest, 0);
                if j == rest.len() {
                    Err(PythonVersionParseError::MissingPatch)
                } else {
                    let minor_s = rest.take(j);
                    let rest2 = rest.skip(j + 1);
                    if rest2.len() == 0 {
                        Err(PythonVersionParseError::MissingPatch)
                    } else {
                        let p = spec_find_non_digit(rest2, 0);
                        let patch_s = rest2.take(p);
                        let suffix = rest2.skip(p);
                        match spec_parse_u8(major_s) {
                            Err(e) => Err(PythonVersionParseError::InvalidMajor(e)),
                            Ok(major) => match spec_parse_u8(minor_s) {
                                Err(e) => Err(PythonVersionParseError::InvalidMinor(e)),
                                Ok(minor) => match spec_parse_u8(patch_s) {
                                    Err(e) => Err(PythonVersionParseError::InvalidPatch(e)),
                                    Ok(patch) => Ok(
                                        PythonVersionView { major, minor, patch, suffix },
                                    ),
                                },
                            },
                        }
                    }
                }
            }
        }
    }
}

/// The view of a parse result, for stating the executable parser's
/// contract.
pub open spec fn view_parsed(r: Result<PythonVersion, PythonVersionParseError>) -> Result<
    PythonVersionView,
    PythonVersionParseError,
> {
    match r {
        Ok(v) => Ok(v@),
        Err(e) => Err(e),
    }
}

/// Finds the first `.` in `s`, or returns the length.
fn find_dot(s: &str, n: usize) -> (r: usize)
    requires
        n == s@.len(),
    ensures
        r == spec_find_dot(s@, 0),
        r <= n,
{
    let mut k: usize = 0;
    while k < n
        invariant
            k <= n,
            n == s@.len(),
            spec_find_dot(s@, 0) == spec_find_dot(s@, k as int),
        decreases n - k,
    {
        if s.get_char(k) == '.' {
            return k;
        }
        k = k + 1;
    }
    n
}

/// Finds the first non-digit in `s`, or returns the length.
fn find_non_digit(s: &str, n: usize) -> (r: usize)
    requires
        n == s@.len(),
    ensures
        r == spec_find_non_digit(s@, 0),
        r <= n,
{
    let mut k: usize = 0;
    while k < n
        invariant
            k <= n,
            n == s@.len(),
            spec_find_non_digit(s@, 0) == spec_find_non_digit(s@, k as int),
        decreases n - k,
    {
        let c = s.get_char(k);
        if c < '0' || c > '9' {
            return k;
        }
        k = k + 1;
    }
    n
}

/// Parses a byte-sized decimal number, exactly as [`spec_parse_u8`] lays
/// out.
fn parse_u8_str(t: &str) -> (r: Result<u8, IntParseError>)
    ensures
        r == spec_parse_u8(t@),
{
    let n = t.unicode_len();
    if n == 0 {
        return Err(IntParseError::Empty);
    }
    let start: usize = if t.get_char(0) == '+' {
        1
    } else {
        0
    };
    if n - start == 0 {
        return Err(IntParseError::InvalidDigit);
    }
    let ghost body = if start == 1 {
        t@.skip(1)
    } else {
        t@
    };
    let mut acc: u16 = 0;
    let mut k = start;
    proof {
        assert(body.skip(0) =~= body);
    }
    while k < n
        invariant
            n == t@.len(),
            start <= k <= n,
            start <= 1,
            start < n,
            acc <= 255,
            body == (if start == 1 {
                t@.skip(1)
            } else {
                t@
            }),
            body.len() == n - start,
            spec_parse_u8(t@) == spec_parse_u8_digits(body, 0),
            spec_parse_u8_digits(body.skip((k - start) as int), acc as int) == spec_parse_u8_digits(
                body,
                0,
            ),
        decreases n - k,
    {
        let ghost seen = body.skip((k - start) as int);
        proof {
            assert(seen[0] == t@[k as int]);
        }
        let c = t.get_char(k);
        if c < '0' || c > '9' {
            return Err(IntParseError::InvalidDigit);
        }
        let d: u16 = ((c as u32) - 48) as u16;
        let next: u16 = acc * 10 + d;
        if next > 255 {
            return Err(IntParseError::Overflow);
        }
        proof {
            assert(seen.skip(1) =~= body.skip((k + 1 - start) as int));
        }
        acc = next;
        k = k + 1;
    }
    proof {
        assert(body.skip((n - start) as int).len() == 0);
    }
    Ok(acc as u8)
}

impl PythonVersion {
    /// Parses `major.minor.patch{suffix}`, exactly as
    /// [`spec_parse_python_version`] lays out.
    pub fn parse(s: &str) -> (r: Result<PythonVersion, PythonVersionParseError>)
        ensures
            view_parsed(r) == spec_parse_python_version(s@),
    {
        let n = s.unicode_len();
        if n == 0 {
            return Err(PythonVersionParseError::MissingMajor);
        }
        let i = find_dot(s, n);
        if i == n {
            return Err(PythonVersionParseError::MissingMinor);
        }
        let major_str = s.substring_char(0, i);
        proof {
            assert(major_str@ =~= s@.take(i as int));
        }
        let rest = s.substring_char(i + 1, n);
        let rest_n = n - (i + 1);
        proof {
            assert(rest@ =~= s@.skip(i + 1 as int));
        }
        if rest_n == 0 {
            return Err(PythonVersionParseError::MissingMinor);
        }
        let j = find_dot(rest, rest_n);
        if j == rest_n {
            return Err(PythonVersionParseError::MissingPatch);
        }
        let minor_str = rest.substring_char(0, j);
        proof {
            assert(minor_str@ =~= rest@.take(j as int));
        }
        let rest2 = rest.substring_char(j + 1, rest_n);
        let rest2_n = rest_n - (j + 1);
        proof {
            assert(rest2@ =~= rest@.skip(j + 1 as int));
        }
        if rest2_n == 0 {
            return Err(PythonVersionParseError::MissingPatch);
        }
        let p = find_non_digit(rest2, rest2_n);
        let patch_str = rest2.substring_char(0, p);
        let suffix_str = rest2.substring_char(p, rest2_n);
        proof {
            assert(patch_str@ =~= rest2@.take(p as int));
            assert(suffix_str@ =~= rest2@.skip(p as int));
        }
        let major = match parse_u8_str(major_str) {
            Ok(v) => v,
            Err(e) => {
                return Err(PythonVersionParseError::InvalidMajor(e));
            },
        };
        let minor = match parse_u8_str(minor_str) {
            Ok(v) => v,
            Err(e) => {
                return Err(PythonVersionParseError::InvalidMinor(e));
            },
        };
        let patch = match parse_u8_str(patch_str) {
            Ok(v) => v,
            Err(e) => {
                return Err(PythonVersionParseError::InvalidPatch(e));
            },
        };
        Ok(PythonVersion { major, minor, patch, suffix: suffix_str.to_owned() })
    }
}

impl core::str::FromStr for PythonVersion {
    type Err = PythonVersionParseError;

    fn from_str(s: &str) -> Result<PythonVersion, PythonVersionParseError> {
        PythonVersion::parse(s)
    }
}

} // verus!
