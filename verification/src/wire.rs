//! Byte-level primitives of the payload encoding: little-endian integers,
//! booleans, length-prefixed byte runs and length-prefixed character
//! strings.
//!
//! Each primitive comes as a spec-level parser `p_*` over a byte sequence
//! and an offset, a spec-level encoder `e_*`, executable readers and
//! writers proved against them, and a round-trip lemma saying that a
//! parser applied where its encoder's bytes lie yields the encoded value.

use vstd::bytes::*;
use vstd::prelude::*;
use vstd::slice::slice_subrange;
use vstd::slice::slice_to_vec;
use vstd::utf8::char_is_scalar;
use vstd::utf8::char_u32_cast;
use vstd::utf8::is_scalar;

use crate::error::CodecError;

verus! {

// ---------------------------------------------------------------- u8

pub open spec fn p_u8(b: Seq<u8>, i: int) -> Result<(u8, int), CodecError> {
    if 0 <= i && i + 1 <= b.len() {
        Ok((b[i], i + 1))
    } else {
        Err(CodecError::Truncated)
    }
}

pub open spec fn e_u8(x: u8) -> Seq<u8> {
    seq![x]
}

pub fn read_u8(b: &[u8], at: usize) -> (r: Result<(u8, usize), CodecError>)
    ensures
        r matches Ok(p) ==> p_u8(b@, at as int) == Ok::<(u8, int), CodecError>((p.0, p.1 as int))
            && at < p.1 <= b@.len(),
        r matches Err(e) ==> p_u8(b@, at as int) == Err::<(u8, int), CodecError>(e),
{
    if at < b.len() {
        Ok((b[at], at + 1))
    } else {
        Err(CodecError::Truncated)
    }
}

pub fn write_u8(out: &mut Vec<u8>, x: u8)
    ensures
        final(out)@ == old(out)@ + e_u8(x),
{
    out.push(x);
    proof {
        assert(out@ =~= old(out)@ + e_u8(x));
    }
}

pub proof fn lemma_read_u8(b: Seq<u8>, i: int, x: u8)
    requires
        0 <= i,
        i + 1 <= b.len(),
        b.subrange(i, i + 1) == e_u8(x),
    ensures
        p_u8(b, i) == Ok::<(u8, int), CodecError>((x, i + 1)),
{
    assert(b[i] == b.subrange(i, i + 1)[0]);
}

// ---------------------------------------------------------------- u32

pub open spec fn p_u32(b: Seq<u8>, i: int) -> Result<(u32, int), CodecError> {
    if 0 <= i && i + 4 <= b.len() {
        Ok((spec_u32_from_le_bytes(b.subrange(i, i + 4)), i + 4))
    } else {
        Err(CodecError::Truncated)
    }
}

pub open spec fn e_u32(x: u32) -> Seq<u8> {
    spec_u32_to_le_bytes(x)
}

pub fn read_u32(b: &[u8], at: usize) -> (r: Result<(u32, usize), CodecError>)
    ensures
        r matches Ok(p) ==> p_u32(b@, at as int) == Ok::<(u32, int), CodecError>((p.0, p.1 as int))
            && at < p.1 <= b@.len(),
        r matches Err(e) ==> p_u32(b@, at as int) == Err::<(u32, int), CodecError>(e),
{
    if at <= b.len() && b.len() - at >= 4 {
        let s = slice_subrange(b, at, at + 4);
        Ok((u32_from_le_bytes(s), at + 4))
    } else {
        Err(CodecError::Truncated)
    }
}

pub fn write_u32(out: &mut Vec<u8>, x: u32)
    ensures
        final(out)@ == old(out)@ + e_u32(x),
{
    let mut bytes = u32_to_le_bytes(x);
    out.append(&mut bytes);
}

pub proof fn lemma_read_u32(b: Seq<u8>, i: int, x: u32)
    requires
        0 <= i,
        i + 4 <= b.len(),
        b.subrange(i, i + 4) == e_u32(x),
    ensures
        p_u32(b, i) == Ok::<(u32, int), CodecError>((x, i + 4)),
{
    lemma_auto_spec_u32_to_from_le_bytes();
    assert(spec_u32_to_le_bytes(x).len() == 4);
    assert(spec_u32_from_le_bytes(b.subrange(i, i + 4)) == x);
}

// ---------------------------------------------------------------- u64

pub open spec fn p_u64(b: Seq<u8>, i: int) -> Result<(u64, int), CodecError> {
    if 0 <= i && i + 8 <= b.len() {
        Ok((spec_u64_from_le_bytes(b.subrange(i, i + 8)), i + 8))
    } else {
        Err(CodecError::Truncated)
    }
}

pub open spec fn e_u64(x: u64) -> Seq<u8> {
    spec_u64_to_le_bytes(x)
}

pub fn read_u64(b: &[u8], at: usize) -> (r: Result<(u64, usize), CodecError>)
    ensures
        r matches Ok(p) ==> p_u64(b@, at as int) == Ok::<(u64, int), CodecError>((p.0, p.1 as int))
            && at < p.1 <= b@.len(),
        r matches Err(e) ==> p_u64(b@, at as int) == Err::<(u64, int), CodecError>(e),
{
    if at <= b.len() && b.len() - at >= 8 {
        let s = slice_subrange(b, at, at + 8);
        Ok((u64_from_le_bytes(s), at + 8))
    } else {
        Err(CodecError::Truncated)
    }
}

pub fn write_u64(out: &mut Vec<u8>, x: u64)
    ensures
        final(out)@ == old(out)@ + e_u64(x),
{
    let mut bytes = u64_to_le_bytes(x);
    out.append(&mut bytes);
}

pub proof fn lemma_read_u64(b: Seq<u8>, i: int, x: u64)
    requires
        0 <= i,
        i + 8 <= b.len(),
        b.subrange(i, i + 8) == e_u64(x),
    ensures
        p_u64(b, i) == Ok::<(u64, int), CodecError>((x, i + 8)),
{
    lemma_auto_spec_u64_to_from_le_bytes();
}

/// The little-endian bytes of a `u64` are eight.
pub proof fn lemma_e_u64_len(x: u64)
    ensures
        e_u64(x).len() == 8,
{
    lemma_auto_spec_u64_to_from_le_bytes();
}

// ---------------------------------------------------------------- bool

pub open spec fn p_bool(b: Seq<u8>, i: int) -> Result<(bool, int), CodecError> {
    match p_u8(b, i) {
        Ok((v, j)) => if v == 0 {
            Ok((false, j))
        } else if v == 1 {
            Ok((true, j))
        } else {
            Err(CodecError::InvalidBool(v))
        },
        Err(e) => Err(e),
    }
}

pub open spec fn e_bool(x: bool) -> Seq<u8> {
    seq![
        if x {
            1u8
        } else {
            0u8
        },
    ]
}

pub fn read_bool(b: &[u8], at: usize) -> (r: Result<(bool, usize), CodecError>)
    ensures
        r matches Ok(p) ==> p_bool(b@, at as int) == Ok::<(bool, int), CodecError>(
            (p.0, p.1 as int),
        ) && at < p.1 <= b@.len(),
        r matches Err(e) ==> p_bool(b@, at as int) == Err::<(bool, int), CodecError>(e),
{
    let (v, j) = match read_u8(b, at) {
        Ok(p) => p,
        Err(e) => {
            return Err(e);
        },
    };
    if v == 0 {
        Ok((false, j))
    } else if v == 1 {
        Ok((true, j))
    } else {
        Err(CodecError::InvalidBool(v))
    }
}

pub fn write_bool(out: &mut Vec<u8>, x: bool)
    ensures
        final(out)@ == old(out)@ + e_bool(x),
{
    let byte: u8 = if x {
        1
    } else {
        0
    };
    out.push(byte);
    proof {
        assert(out@ =~= old(out)@ + e_bool(x));
    }
}

pub proof fn lemma_read_bool(b: Seq<u8>, i: int, x: bool)
    requires
        0 <= i,
        i + 1 <= b.len(),
        b.subrange(i, i + 1) == e_bool(x),
    ensures
        p_bool(b, i) == Ok::<(bool, int), CodecError>((x, i + 1)),
{
    if x {
        lemma_read_u8(b, i, 1u8);
    } else {
        lemma_read_u8(b, i, 0u8);
    }
}

// ----------------------------------------------- length-prefixed bytes

pub open spec fn p_raw(b: Seq<u8>, i: int) -> Result<(Seq<u8>, int), CodecError> {
    match p_u64(b, i) {
        Ok((n, j)) => if j + n <= b.len() {
            Ok((b.subrange(j, j + n), j + n))
        } else {
            Err(CodecError::Truncated)
        },
        Err(e) => Err(e),
    }
}

pub open spec fn e_raw(s: Seq<u8>) -> Seq<u8> {
    e_u64(s.len() as u64) + s
}

pub fn read_raw(b: &[u8], at: usize) -> (r: Result<(Vec<u8>, usize), CodecError>)
    ensures
        r matches Ok(p) ==> p_raw(b@, at as int) == Ok::<(Seq<u8>, int), CodecError>(
            (p.0@, p.1 as int),
        ) && at < p.1 <= b@.len(),
        r matches Err(e) ==> p_raw(b@, at as int) == Err::<(Seq<u8>, int), CodecError>(e),
{
    let (n, j) = match read_u64(b, at) {
        Ok(p) => p,
        Err(e) => {
            return Err(e);
        },
    };
    if n > (b.len() - j) as u64 {
        return Err(CodecError::Truncated);
    }
    let n_usize = n as usize;
    let s = slice_subrange(b, j, j + n_usize);
    Ok((slice_to_vec(s), j + n_usize))
}

pub fn write_raw(out: &mut Vec<u8>, s: &[u8])
    ensures
        final(out)@ == old(out)@ + e_raw(s@),
{
    write_u64(out, s.len() as u64);
    let ghost mid = out@;
    out.extend_from_slice(s);
    proof {
        assert(out@ =~= old(out)@ + e_raw(s@));
    }
}

pub proof fn lemma_read_raw(b: Seq<u8>, i: int, s: Seq<u8>)
    requires
        0 <= i,
        s.len() < 0x1_0000_0000_0000_0000,
        i + e_raw(s).len() <= b.len(),
        b.subrange(i, i + e_raw(s).len()) == e_raw(s),
    ensures
        p_raw(b, i) == Ok::<(Seq<u8>, int), CodecError>((s, i + e_raw(s).len())),
{
    lemma_auto_spec_u64_to_from_le_bytes();
    let n = s.len() as u64;
    let whole = b.subrange(i, i + e_raw(s).len());
    assert forall|k: int| 0 <= k < 8 implies b.subrange(i, i + 8)[k] == e_u64(n)[k] by {
        assert(whole[k] == e_raw(s)[k]);
    }
    assert(b.subrange(i, i + 8) =~= e_u64(n));
    lemma_read_u64(b, i, n);
    assert forall|k: int| 0 <= k < s.len() implies b.subrange(i + 8, i + 8 + s.len())[k]
        == s[k] by {
        assert(whole[8 + k] == e_raw(s)[8 + k]);
    }
    assert(b.subrange(i + 8, i + 8 + s.len()) =~= s);
}

// -------------------------------------------- length-prefixed strings

/// The character code stored at block `j` of a character run starting at
/// byte offset `m`.
pub open spec fn char_code_at(b: Seq<u8>, m: int, j: int) -> u32 {
    spec_u32_from_le_bytes(b.subrange(m + 4 * j, m + 4 * j + 4))
}

/// Parses a string: a `u64` character count, then one little-endian
/// `u32` Unicode scalar per character.
pub open spec fn p_string(b: Seq<u8>, i: int) -> Result<(Seq<char>, int), CodecError> {
    match p_u64(b, i) {
        Ok((n, m)) => if m + 4 * (n as int) <= b.len() {
            if forall|j: int| 0 <= j < n as int ==> is_scalar(#[trigger] char_code_at(b, m, j)) {
                Ok(
                    (
                        Seq::new(n as nat, |j: int| char_code_at(b, m, j) as char),
                        m + 4 * (n as int),
                    ),
                )
            } else {
                Err(CodecError::InvalidChar)
            }
        } else {
            Err(CodecError::Truncated)
        },
        Err(e) => Err(e),
    }
}

pub open spec fn e_chars(s: Seq<char>) -> Seq<u8>
    decreases s.len(),
{
    if s.len() == 0 {
        Seq::empty()
    } else {
        spec_u32_to_le_bytes(s[0] as u32) + e_chars(s.skip(1))
    }
}

pub open spec fn e_string(s: Seq<char>) -> Seq<u8> {
    e_u64(s.len() as u64) + e_chars(s)
}

pub proof fn lemma_e_chars_len(s: Seq<char>)
    ensures
        e_chars(s).len() == 4 * s.len(),
    decreases s.len(),
{
    lemma_auto_spec_u32_to_from_le_bytes();
    if s.len() > 0 {
        lemma_e_chars_len(s.skip(1));
    }
}

/// Block `j` of an encoded character run holds character `j`.
pub proof fn lemma_e_chars_block(s: Seq<char>, j: int)
    requires
        0 <= j < s.len(),
    ensures
        e_chars(s).len() == 4 * s.len(),
        e_chars(s).subrange(4 * j, 4 * j + 4) == spec_u32_to_le_bytes(s[j] as u32),
    decreases j,
{
    lemma_auto_spec_u32_to_from_le_bytes();
    lemma_e_chars_len(s);
    lemma_e_chars_len(s.skip(1));
    if j == 0 {
        assert(e_chars(s).subrange(0, 4) =~= spec_u32_to_le_bytes(s[0] as u32));
    } else {
        lemma_e_chars_block(s.skip(1), j - 1);
        assert(e_chars(s).subrange(4 * j, 4 * j + 4) =~= e_chars(s.skip(1)).subrange(
            4 * (j - 1),
            4 * (j - 1) + 4,
        ));
        assert(s.skip(1)[j - 1] == s[j]);
    }
}

/// Appending one character appends its four-byte block.
pub proof fn lemma_e_chars_push(s: Seq<char>, c: char)
    ensures
        e_chars(s.push(c)) == e_chars(s) + spec_u32_to_le_bytes(c as u32),
    decreases s.len(),
{
    lemma_auto_spec_u32_to_from_le_bytes();
    if s.len() == 0 {
        assert(s.push(c)[0] == c);
        assert(s.push(c).skip(1) =~= s);
        assert(e_chars(s) == Seq::<u8>::empty());
        assert(e_chars(s.push(c)) == spec_u32_to_le_bytes(c as u32) + e_chars(s));
        assert(e_chars(s.push(c)) =~= e_chars(s) + spec_u32_to_le_bytes(c as u32));
    } else {
        assert(s.push(c)[0] == s[0]);
        assert(e_chars(s.push(c)) == spec_u32_to_le_bytes(s.push(c)[0] as u32) + e_chars(
            s.push(c).skip(1),
        ));
        assert(s.push(c).skip(1) =~= s.skip(1).push(c));
        lemma_e_chars_push(s.skip(1), c);
        assert(e_chars(s.push(c)) == spec_u32_to_le_bytes(s[0] as u32) + (e_chars(s.skip(1))
            + spec_u32_to_le_bytes(c as u32)));
        assert(e_chars(s) == spec_u32_to_le_bytes(s[0] as u32) + e_chars(s.skip(1)));
        assert(spec_u32_to_le_bytes(s[0] as u32) + (e_chars(s.skip(1)) + spec_u32_to_le_bytes(
            c as u32,
        )) =~= (spec_u32_to_le_bytes(s[0] as u32) + e_chars(s.skip(1))) + spec_u32_to_le_bytes(
            c as u32,
        ));
    }
}

/// Relies on char::from_u32: `Some` exactly for Unicode scalar values,
/// and the returned char casts back to the argument.
pub assume_specification[ char::from_u32 ](x: u32) -> (r: Option<char>)
    ensures
        r matches Some(c) ==> c as u32 == x,
        r is Some <==> is_scalar(x),
;

/// Relies on String's FromIterator impl over chars: collecting chars
/// yields the string of exactly those characters in order.
#[verifier::external_body]
fn chars_to_string(v: Vec<char>) -> (r: String)
    ensures
        r@ == v@,
{
    v.into_iter().collect()
}

pub fn read_string(b: &[u8], at: usize) -> (r: Result<(String, usize), CodecError>)
    ensures
        r matches Ok(p) ==> p_string(b@, at as int) == Ok::<(Seq<char>, int), CodecError>(
            (p.0@, p.1 as int),
        ) && at < p.1 <= b@.len(),
        r matches Err(e) ==> p_string(b@, at as int) == Err::<(Seq<char>, int), CodecError>(e),
{
    let (n, m) = match read_u64(b, at) {
        Ok(p) => p,
        Err(e) => {
            return Err(e);
        },
    };
    if n > ((b.len() - m) / 4) as u64 {
        proof {
            vstd::arithmetic::div_mod::lemma_fundamental_div_mod((b@.len() - m) as int, 4);
        }
        return Err(CodecError::Truncated);
    }
    proof {
        vstd::arithmetic::div_mod::lemma_fundamental_div_mod((b@.len() - m) as int, 4);
    }
    let n_usize = n as usize;
    let mut chars: Vec<char> = Vec::new();
    let mut j: usize = 0;
    while j < n_usize
        invariant
            b@.len() <= usize::MAX,
            m + 4 * n_usize <= b@.len(),
            n_usize == n,
            j <= n_usize,
            p_u64(b@, at as int) == Ok::<(u64, int), CodecError>((n, m as int)),
            chars@.len() == j,
            forall|k: int|
                0 <= k < j ==> is_scalar(#[trigger] char_code_at(b@, m as int, k)) && chars@[k]
                    == char_code_at(b@, m as int, k) as char,
        decreases n_usize - j,
    {
        let (code, _next) = match read_u32(b, m + 4 * j) {
            Ok(p) => p,
            Err(e) => {
                // the bounds check above rules this branch out
                proof {
                    assert(false);
                }
                return Err(e);
            },
        };
        proof {
            assert(code == char_code_at(b@, m as int, j as int));
        }
        match char::from_u32(code) {
            Some(c) => {
                chars.push(c);
                proof {
                    char_u32_cast(c, code);
                }
            },
            None => {
                proof {
                    assert(!is_scalar(char_code_at(b@, m as int, j as int)));
                }
                return Err(CodecError::InvalidChar);
            },
        }
        j = j + 1;
    }
    let s = chars_to_string(chars);
    proof {
        assert(s@ =~= Seq::new(n as nat, |k: int| char_code_at(b@, m as int, k) as char));
    }
    Ok((s, m + 4 * n_usize))
}

pub fn write_string(out: &mut Vec<u8>, s: &str)
    ensures
        final(out)@ == old(out)@ + e_string(s@),
{
    let n = s.unicode_len();
    write_u64(out, n as u64);
    let ghost base = out@;
    let mut j: usize = 0;
    while j < n
        invariant
            n == s@.len(),
            j <= n,
            out@ == base + e_chars(s@.take(j as int)),
        decreases n - j,
    {
        let c = s.get_char(j);
        write_u32(out, c as u32);
        proof {
            assert(s@.take(j + 1 as int) =~= s@.take(j as int).push(s@[j as int]));
            lemma_e_chars_push(s@.take(j as int), s@[j as int]);
            assert(out@ =~= base + e_chars(s@.take(j + 1 as int)));
        }
        j = j + 1;
    }
    proof {
        assert(s@.take(n as int) =~= s@);
        assert(out@ =~= old(out)@ + e_string(s@));
    }
}

pub proof fn lemma_read_string(b: Seq<u8>, i: int, s: Seq<char>)
    requires
        0 <= i,
        s.len() < 0x1_0000_0000_0000_0000,
        i + e_string(s).len() <= b.len(),
        b.subrange(i, i + e_string(s).len()) == e_string(s),
    ensures
        p_string(b, i) == Ok::<(Seq<char>, int), CodecError>((s, i + e_string(s).len())),
{
    lemma_auto_spec_u64_to_from_le_bytes();
    lemma_auto_spec_u32_to_from_le_bytes();
    lemma_e_chars_len(s);
    let n = s.len() as u64;
    let m = i + 8;
    let whole = b.subrange(i, i + e_string(s).len());
    assert forall|k: int| 0 <= k < 8 implies b.subrange(i, i + 8)[k] == e_u64(n)[k] by {
        assert(whole[k] == e_string(s)[k]);
    }
    assert(b.subrange(i, i + 8) =~= e_u64(n));
    lemma_read_u64(b, i, n);
    assert forall|j: int| 0 <= j < s.len() implies #[trigger] char_code_at(b, m, j) == (s[j]
        as u32) by {
        lemma_e_chars_block(s, j);
        assert forall|k: int|
            0 <= k < 4 implies #[trigger] b.subrange(m + 4 * j, m + 4 * j + 4)[k] == e_chars(
            s,
        ).subrange(4 * j, 4 * j + 4)[k] by {
            assert(whole[8 + 4 * j + k] == e_string(s)[8 + 4 * j + k]);
        }
        assert(b.subrange(m + 4 * j, m + 4 * j + 4) =~= e_chars(s).subrange(4 * j, 4 * j + 4));
    }
    assert forall|j: int| 0 <= j < s.len() implies is_scalar(#[trigger] char_code_at(b, m, j)) by {
        char_is_scalar(s[j]);
    }
    assert forall|j: int|
        0 <= j < s.len() implies (#[trigger] char_code_at(b, m, j) as char) == s[j] by {
        char_u32_cast(s[j], char_code_at(b, m, j));
    }
    assert(Seq::new(s.len(), |j: int| char_code_at(b, m, j) as char) =~= s);
}

} // verus!
