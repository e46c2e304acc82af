//! Primitive fields of the native protocol: big-endian integers,
//! length-prefixed strings and length-prefixed byte blobs.
//!
//! Every reader takes the whole received buffer and a position in it, and
//! returns the decoded value together with the position just after it.
use vstd::prelude::*;
use vstd::utf8::{decode_utf8, valid_utf8};

verus! {

/// Why a frame body could not be decoded.
#[derive(Debug, Clone, Copy, PartialEq, Eq, Structural)]
pub enum DecodeError {
    /// The buffer ends before the field being read does.
    Truncated,
    /// A column-type code outside the known table.
    UnknownColumnType(u16),
    /// A flag value whose known bits are not exactly one flag.
    UnknownFlagBit(i32),
    /// A count field holds a negative number.
    NegativeCount(i32),
    /// A length prefix is negative without being a known sentinel.
    InvalidLength(i32),
    /// A string field does not hold valid UTF-8.
    InvalidUtf8,
}

/// Decoded value of type `T` and the position just after it.
pub type Parsed<T> = Result<(T, int), DecodeError>;

/// The unsigned 16-bit big-endian number at `p` (which must be in bounds).
pub open spec fn be_u16(b: Seq<u8>, p: int) -> int {
    b[p] as int * 256 + b[p + 1] as int
}

/// The unsigned 32-bit big-endian number at `p` (which must be in bounds).
pub open spec fn be_u32(b: Seq<u8>, p: int) -> int {
    b[p] as int * 16777216 + b[p + 1] as int * 65536 + b[p + 2] as int * 256 + b[p + 3] as int
}

/// Two's complement reading of a 32-bit unsigned number.
pub open spec fn as_signed(u: int) -> int {
    if u >= 0x8000_0000 {
        u - 0x1_0000_0000
    } else {
        u
    }
}

/// The four big-endian bytes of a 32-bit signed number.
pub open spec fn int_bytes(v: i32) -> Seq<u8> {
    let u: int = if v < 0 { v + 0x1_0000_0000 } else { v as int };
    seq![
        (u / 16777216) as u8,
        (u / 65536 % 256) as u8,
        (u / 256 % 256) as u8,
        (u % 256) as u8,
    ]
}

/// A `[short]`: two bytes, unsigned, big-endian.
pub open spec fn spec_short(b: Seq<u8>, p: int) -> Parsed<u16> {
    if 0 <= p && p + 2 <= b.len() {
        Ok((be_u16(b, p) as u16, p + 2))
    } else {
        Err(DecodeError::Truncated)
    }
}

/// An `[int]`: four bytes, signed, big-endian.
pub open spec fn spec_int(b: Seq<u8>, p: int) -> Parsed<i32> {
    if 0 <= p && p + 4 <= b.len() {
        Ok((as_signed(be_u32(b, p)) as i32, p + 4))
    } else {
        Err(DecodeError::Truncated)
    }
}

/// A `[string]`: a `[short]` length `n`, then `n` bytes of UTF-8.
pub open spec fn spec_string(b: Seq<u8>, p: int) -> Parsed<Seq<char>> {
    match spec_short(b, p) {
        Err(e) => Err(e),
        Ok((n, q)) => {
            if q + n > b.len() {
                Err(DecodeError::Truncated)
            } else if valid_utf8(b.subrange(q, q + n)) {
                Ok((decode_utf8(b.subrange(q, q + n)), q + n))
            } else {
                Err(DecodeError::InvalidUtf8)
            }
        },
    }
}

/// A byte blob that must be present: an `[int]` length `n >= 0`, then `n` bytes.
pub open spec fn spec_blob(b: Seq<u8>, p: int) -> Parsed<Seq<u8>> {
    match spec_int(b, p) {
        Err(e) => Err(e),
        Ok((n, q)) => {
            if n < 0 {
                Err(DecodeError::InvalidLength(n))
            } else if q + n > b.len() {
                Err(DecodeError::Truncated)
            } else {
                Ok((b.subrange(q, q + n), q + n))
            }
        },
    }
}

/// A cell value: an `[int]` length `n`; `-1` stands for null, `n >= 0` is
/// followed by `n` bytes, and any other negative length is refused.
pub open spec fn spec_value(b: Seq<u8>, p: int) -> Parsed<Option<Seq<u8>>> {
    match spec_int(b, p) {
        Err(e) => Err(e),
        Ok((n, q)) => {
            if n == -1 {
                Ok((None, q))
            } else if n < 0 {
                Err(DecodeError::InvalidLength(n))
            } else if q + n > b.len() {
                Err(DecodeError::Truncated)
            } else {
                Ok((Some(b.subrange(q, q + n)), q + n))
            }
        },
    }
}

/// How a reader behaves on the first `k` bytes of a buffer on which it
/// succeeded from `p`: the value ends no earlier than `p`, and when the cut
/// is not before `p`, the cut buffer gives the same result if the value ends
/// within it, `Truncated` otherwise.
pub open spec fn cut_result<T>(full: Parsed<T>, cut: Parsed<T>, p: int, k: int) -> bool {
    full matches Ok((_, q)) ==> q >= p && (p <= k ==> if q <= k {
        cut == full
    } else {
        cut == Err::<(T, int), DecodeError>(DecodeError::Truncated)
    })
}

pub proof fn lemma_short_cut(b: Seq<u8>, p: int, k: int)
    requires
        0 <= k <= b.len(),
    ensures
        cut_result(spec_short(b, p), spec_short(b.subrange(0, k), p), p, k),
{
}

pub proof fn lemma_int_cut(b: Seq<u8>, p: int, k: int)
    requires
        0 <= k <= b.len(),
    ensures
        cut_result(spec_int(b, p), spec_int(b.subrange(0, k), p), p, k),
{
}

pub proof fn lemma_string_cut(b: Seq<u8>, p: int, k: int)
    requires
        0 <= k <= b.len(),
    ensures
        cut_result(spec_string(b, p), spec_string(b.subrange(0, k), p), p, k),
{
    lemma_short_cut(b, p, k);
    let c = b.subrange(0, k);
    if let Ok((n, q)) = spec_short(b, p) {
        if q + n <= k {
            assert(c.subrange(q, q + n) =~= b.subrange(q, q + n));
        }
    }
}

pub proof fn lemma_blob_cut(b: Seq<u8>, p: int, k: int)
    requires
        0 <= k <= b.len(),
    ensures
        cut_result(spec_blob(b, p), spec_blob(b.subrange(0, k), p), p, k),
{
    lemma_int_cut(b, p, k);
    let c = b.subrange(0, k);
    if let Ok((n, q)) = spec_int(b, p) {
        if n >= 0 && q + n <= k {
            assert(c.subrange(q, q + n) =~= b.subrange(q, q + n));
        }
    }
}

pub proof fn lemma_value_cut(b: Seq<u8>, p: int, k: int)
    requires
        0 <= k <= b.len(),
    ensures
        cut_result(spec_value(b, p), spec_value(b.subrange(0, k), p), p, k),
{
    lemma_int_cut(b, p, k);
    let c = b.subrange(0, k);
    if let Ok((n, q)) = spec_int(b, p) {
        if n >= 0 && q + n <= k {
            assert(c.subrange(q, q + n) =~= b.subrange(q, q + n));
        }
    }
}

/// A reader's result with the position as a mathematical integer.
pub open spec fn at<T>(r: Result<(T, usize), DecodeError>) -> Parsed<T> {
    match r {
        Ok((v, q)) => Ok((v, q as int)),
        Err(e) => Err(e),
    }
}

pub open spec fn string_at(r: Result<(String, usize), DecodeError>) -> Parsed<Seq<char>> {
    match r {
        Ok((s, q)) => Ok((s@, q as int)),
        Err(e) => Err(e),
    }
}

pub open spec fn blob_at(r: Result<(Vec<u8>, usize), DecodeError>) -> Parsed<Seq<u8>> {
    match r {
        Ok((v, q)) => Ok((v@, q as int)),
        Err(e) => Err(e),
    }
}

pub open spec fn opt_bytes(v: Option<Vec<u8>>) -> Option<Seq<u8>> {
    match v {
        Some(x) => Some(x@),
        None => None,
    }
}

pub open spec fn value_at(r: Result<(Option<Vec<u8>>, usize), DecodeError>) -> Parsed<
    Option<Seq<u8>>,
> {
    match r {
        Ok((v, q)) => Ok((opt_bytes(v), q as int)),
        Err(e) => Err(e),
    }
}

/// Relies on `String::from_utf8`: it succeeds exactly on valid UTF-8 and then
/// holds the characters that the bytes encode.
#[verifier::external_body]
fn string_from_utf8(bytes: Vec<u8>) -> (r: Option<String>)
    ensures
        r is Some <==> valid_utf8(bytes@),
        r matches Some(s) ==> s@ == decode_utf8(bytes@),
{
    String::from_utf8(bytes).ok()
}

/// The bytes of `b` from `start` up to `end`.
pub fn copy_range(b: &[u8], start: usize, end: usize) -> (r: Vec<u8>)
    requires
        start <= end <= b@.len(),
    ensures
        r@ == b@.subrange(start as int, end as int),
{
    let mut r: Vec<u8> = Vec::new();
    let mut i: usize = start;
    while i < end
        invariant
            start <= i <= end <= b@.len(),
            r@ == b@.subrange(start as int, i as int),
        decreases end - i,
    {
        r.push(b[i]);
        i = i + 1;
    }
    r
}

/// Reads a `[short]` at `p`.
pub fn read_short(b: &[u8], p: usize) -> (r: Result<(u16, usize), DecodeError>)
    ensures
        at(r) == spec_short(b@, p as int),
{
    if p > b.len() || b.len() - p < 2 {
        return Err(DecodeError::Truncated);
    }
    let v: u16 = (b[p] as u16) * 256 + b[p + 1] as u16;
    Ok((v, p + 2))
}

/// Reads an `[int]` at `p`.
pub fn read_int(b: &[u8], p: usize) -> (r: Result<(i32, usize), DecodeError>)
    ensures
        at(r) == spec_int(b@, p as int),
{
    if p > b.len() || b.len() - p < 4 {
        return Err(DecodeError::Truncated);
    }
    let u: u32 = (b[p] as u32) * 16777216 + (b[p + 1] as u32) * 65536 + (b[p + 2] as u32) * 256
        + b[p + 3] as u32;
    let v: i32 = if u >= 0x8000_0000 {
        ((u - 0x8000_0000) as i32) - 0x7fff_ffff - 1
    } else {
        u as i32
    };
    Ok((v, p + 4))
}

/// Writes `v` as an `[int]`.
pub fn write_int(v: i32) -> (r: Vec<u8>)
    ensures
        r@ == int_bytes(v),
{
    let u: u32 = if v < 0 {
        ((v + 0x7fff_ffff + 1) as u32) + 0x8000_0000
    } else {
        v as u32
    };
    let mut r: Vec<u8> = Vec::new();
    r.push((u / 16777216) as u8);
    r.push((u / 65536 % 256) as u8);
    r.push((u / 256 % 256) as u8);
    r.push((u % 256) as u8);
    r
}

/// Reads a `[string]` at `p`.
pub fn read_string(b: &[u8], p: usize) -> (r: Result<(String, usize), DecodeError>)
    ensures
        string_at(r) == spec_string(b@, p as int),
{
    let (n, q) = match read_short(b, p) {
        Ok(x) => x,
        Err(e) => return Err(e),
    };
    if n as usize > b.len() - q {
        return Err(DecodeError::Truncated);
    }
    let end: usize = q + n as usize;
    let raw = copy_range(b, q, end);
    match string_from_utf8(raw) {
        Some(s) => Ok((s, end)),
        None => Err(DecodeError::InvalidUtf8),
    }
}

/// Reads a byte blob that must be present at `p`.
pub fn read_blob(b: &[u8], p: usize) -> (r: Result<(Vec<u8>, usize), DecodeError>)
    ensures
        blob_at(r) == spec_blob(b@, p as int),
{
    let (n, q) = match read_int(b, p) {
        Ok(x) => x,
        Err(e) => return Err(e),
    };
    if n < 0 {
        return Err(DecodeError::InvalidLength(n));
    }
    if n as usize > b.len() - q {
        return Err(DecodeError::Truncated);
    }
    let end: usize = q + n as usize;
    Ok((copy_range(b, q, end), end))
}

/// Reads a cell value at `p`: `None` for the null sentinel.
pub fn read_value(b: &[u8], p: usize) -> (r: Result<(Option<Vec<u8>>, usize), DecodeError>)
    ensures
        value_at(r) == spec_value(b@, p as int),
{
    let (n, q) = match read_int(b, p) {
        Ok(x) => x,
        Err(e) => return Err(e),
    };
    if n == -1 {
        return Ok((None, q));
    }
    if n < 0 {
        return Err(DecodeError::InvalidLength(n));
    }
    if n as usize > b.len() - q {
        return Err(DecodeError::Truncated);
    }
    let end: usize = q + n as usize;
    Ok((Some(copy_range(b, q, end)), end))
}

} // verus!
