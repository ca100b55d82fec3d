//! The wire format that records and commands are made of: little-endian
//! integers, one-byte flags, raw addresses, and texts and lists behind a
//! 32-bit length.
//!
//! Every kind of value has a spec function that gives its bytes, a spec
//! function that takes it off the front of a byte sequence, an executable
//! writer and an executable reader, and a lemma that taking undoes giving.

use crate::address::Pubkey;
use crate::error::ErrorKind;
use vstd::arithmetic::div_mod::lemma_div_denominator;
use vstd::prelude::*;
use vstd::slice::*;
use vstd::string::*;
use vstd::utf8::*;

verus! {

/// What a reader hands out for the position `pos`, held against what the
/// bytes from there on parse to: the same value, and a position behind
/// which the rest lies; or nothing where the bytes do not parse or `pos`
/// lies behind them.
pub open spec fn reads<T: DeepView>(
    data: Seq<u8>,
    pos: usize,
    r: Option<(T, usize)>,
    parsed: Option<(T::V, Seq<u8>)>,
) -> bool {
    if pos > data.len() {
        r is None
    } else {
        match parsed {
            Some((value, rest)) => {
                &&& r matches Some(got)
                &&& got.0.deep_view() == value
                &&& got.1 <= data.len()
                &&& data.skip(got.1 as int) == rest
            },
            None => r is None,
        }
    }
}

/// The value of a field that was taken off some bytes.
pub open spec fn value_of<T>(taken: Option<(T, Seq<u8>)>) -> T {
    taken.unwrap().0
}

/// The bytes that were left behind a field that was taken off some bytes.
pub open spec fn rest_of<T>(taken: Option<(T, Seq<u8>)>) -> Seq<u8> {
    taken.unwrap().1
}

/// A field between what was written before it and what follows it may be
/// counted with either.
pub proof fn lemma_regroup(before: Seq<u8>, field: Seq<u8>, after: Seq<u8>)
    ensures
        (before + field) + after == before + (field + after),
{
    assert((before + field) + after =~= before + (field + after));
}

// ---------------------------------------------------------------------
// One byte
// ---------------------------------------------------------------------

/// Takes one byte off the front.
pub open spec fn take_u8(b: Seq<u8>) -> Option<(u8, Seq<u8>)> {
    if b.len() >= 1 {
        Some((b[0], b.skip(1)))
    } else {
        None
    }
}

pub proof fn lemma_take_u8(x: u8, rest: Seq<u8>)
    ensures
        take_u8(seq![x] + rest) == Some((x, rest)),
{
    assert((seq![x] + rest).skip(1) =~= rest);
}

/// Reads the byte at `pos`.
pub fn read_u8(data: &[u8], pos: usize) -> (r: Option<(u8, usize)>)
    ensures
        reads(data@, pos, r, take_u8(data@.skip(pos as int))),
{
    if pos > data.len() {
        return None;
    }
    if data.len() - pos < 1 {
        return None;
    }
    assert(data@.skip(pos as int).skip(1) =~= data@.skip(pos + 1));
    Some((data[pos], pos + 1))
}

// ---------------------------------------------------------------------
// Flags
// ---------------------------------------------------------------------

/// A flag is one byte, 0 or 1.
pub open spec fn bool_bytes(x: bool) -> Seq<u8> {
    seq![if x { 1u8 } else { 0u8 }]
}

/// Takes a flag off the front; any byte but 0 and 1 is refused.
pub open spec fn take_bool(b: Seq<u8>) -> Option<(bool, Seq<u8>)> {
    if b.len() >= 1 && b[0] == 0 {
        Some((false, b.skip(1)))
    } else if b.len() >= 1 && b[0] == 1 {
        Some((true, b.skip(1)))
    } else {
        None
    }
}

pub proof fn lemma_take_bool(x: bool, rest: Seq<u8>)
    ensures
        take_bool(bool_bytes(x) + rest) == Some((x, rest)),
{
    assert((bool_bytes(x) + rest).skip(1) =~= rest);
}

/// Appends a flag.
pub fn put_bool(out: &mut Vec<u8>, x: bool)
    ensures
        final(out)@ == old(out)@ + bool_bytes(x),
{
    out.push(if x { 1u8 } else { 0u8 });
    assert(out@ =~= old(out)@ + bool_bytes(x));
}

/// Reads the flag at `pos`.
pub fn read_bool(data: &[u8], pos: usize) -> (r: Option<(bool, usize)>)
    ensures
        reads(data@, pos, r, take_bool(data@.skip(pos as int))),
{
    if pos > data.len() {
        return None;
    }
    if data.len() - pos < 1 {
        return None;
    }
    assert(data@.skip(pos as int).skip(1) =~= data@.skip(pos + 1));
    let byte = data[pos];
    if byte == 0 {
        Some((false, pos + 1))
    } else if byte == 1 {
        Some((true, pos + 1))
    } else {
        None
    }
}

// ---------------------------------------------------------------------
// 32-bit lengths
// ---------------------------------------------------------------------

/// The four bytes of a `u32`, lowest first.
pub open spec fn u32_bytes(x: u32) -> Seq<u8> {
    seq![
        (x % 0x100) as u8,
        (x / 0x100 % 0x100) as u8,
        (x / 0x1_0000 % 0x100) as u8,
        (x / 0x100_0000 % 0x100) as u8,
    ]
}

/// The `u32` that four bytes stand for, lowest first.
pub open spec fn u32_value(b: Seq<u8>) -> u32 {
    (b[0] + b[1] * 0x100 + b[2] * 0x1_0000 + b[3] * 0x100_0000) as u32
}

/// Takes a `u32` off the front.
pub open spec fn take_u32(b: Seq<u8>) -> Option<(u32, Seq<u8>)> {
    if b.len() >= 4 {
        Some((u32_value(b.take(4)), b.skip(4)))
    } else {
        None
    }
}

pub proof fn lemma_u32_value_of_bytes(x: u32)
    ensures
        u32_value(u32_bytes(x)) == x,
{
    let q1 = x as int / 0x100;
    let q2 = x as int / 0x1_0000;
    let q3 = x as int / 0x100_0000;
    lemma_div_denominator(x as int, 0x100, 0x100);
    lemma_div_denominator(x as int, 0x1_0000, 0x100);
    assert(q2 == q1 / 0x100);
    assert(q3 == q2 / 0x100);
    assert(q3 < 0x100);
    let b = u32_bytes(x);
    assert(b[0] == x as int % 0x100);
    assert(b[1] == q1 % 0x100);
    assert(b[2] == q2 % 0x100);
    assert(b[3] == q3);
    assert(q2 == b[2] + q3 * 0x100);
    assert(q1 == b[1] + q2 * 0x100);
    assert(x == b[0] + q1 * 0x100);
}

pub proof fn lemma_take_u32(x: u32, rest: Seq<u8>)
    ensures
        take_u32(u32_bytes(x) + rest) == Some((x, rest)),
{
    let b = u32_bytes(x) + rest;
    assert(b.take(4) =~= u32_bytes(x));
    assert(b.skip(4) =~= rest);
    lemma_u32_value_of_bytes(x);
}

/// Appends a `u32`.
pub fn put_u32(out: &mut Vec<u8>, x: u32)
    ensures
        final(out)@ == old(out)@ + u32_bytes(x),
{
    out.push((x % 0x100) as u8);
    out.push((x / 0x100 % 0x100) as u8);
    out.push((x / 0x1_0000 % 0x100) as u8);
    out.push((x / 0x100_0000 % 0x100) as u8);
    assert(out@ =~= old(out)@ + u32_bytes(x));
}

/// Reads the `u32` at `pos`.
pub fn read_u32(data: &[u8], pos: usize) -> (r: Option<(u32, usize)>)
    ensures
        reads(data@, pos, r, take_u32(data@.skip(pos as int))),
{
    if pos > data.len() {
        return None;
    }
    if data.len() - pos < 4 {
        return None;
    }
    let b0: u32 = data[pos] as u32;
    let b1: u32 = data[pos + 1] as u32;
    let b2: u32 = data[pos + 2] as u32;
    let b3: u32 = data[pos + 3] as u32;
    let value: u32 = b0 + b1 * 0x100 + b2 * 0x1_0000 + b3 * 0x100_0000;
    assert(data@.skip(pos as int).skip(4) =~= data@.skip(pos + 4));
    Some((value, pos + 4))
}

// ---------------------------------------------------------------------
// 64-bit counters
// ---------------------------------------------------------------------

/// The eight bytes of a `u64`, lowest first.
pub open spec fn u64_bytes(x: u64) -> Seq<u8> {
    seq![
        (x % 0x100) as u8,
        (x / 0x100 % 0x100) as u8,
        (x / 0x1_0000 % 0x100) as u8,
        (x / 0x100_0000 % 0x100) as u8,
        (x / 0x1_0000_0000 % 0x100) as u8,
        (x / 0x100_0000_0000 % 0x100) as u8,
        (x / 0x1_0000_0000_0000 % 0x100) as u8,
        (x / 0x100_0000_0000_0000 % 0x100) as u8,
    ]
}

/// The `u64` that eight bytes stand for, lowest first.
pub open spec fn u64_value(b: Seq<u8>) -> u64 {
    (b[0] + b[1] * 0x100 + b[2] * 0x1_0000 + b[3] * 0x100_0000 + b[4] * 0x1_0000_0000 + b[5]
        * 0x100_0000_0000 + b[6] * 0x1_0000_0000_0000 + b[7] * 0x100_0000_0000_0000) as u64
}

/// Takes a `u64` off the front.
pub open spec fn take_u64(b: Seq<u8>) -> Option<(u64, Seq<u8>)> {
    if b.len() >= 8 {
        Some((u64_value(b.take(8)), b.skip(8)))
    } else {
        None
    }
}

pub proof fn lemma_u64_value_of_bytes(x: u64)
    ensures
        u64_value(u64_bytes(x)) == x,
{
    let q1 = x as int / 0x100;
    let q2 = x as int / 0x1_0000;
    let q3 = x as int / 0x100_0000;
    let q4 = x as int / 0x1_0000_0000;
    let q5 = x as int / 0x100_0000_0000;
    let q6 = x as int / 0x1_0000_0000_0000;
    let q7 = x as int / 0x100_0000_0000_0000;
    lemma_div_denominator(x as int, 0x100, 0x100);
    lemma_div_denominator(x as int, 0x1_0000, 0x100);
    lemma_div_denominator(x as int, 0x100_0000, 0x100);
    lemma_div_denominator(x as int, 0x1_0000_0000, 0x100);
    lemma_div_denominator(x as int, 0x100_0000_0000, 0x100);
    lemma_div_denominator(x as int, 0x1_0000_0000_0000, 0x100);
    assert(q2 == q1 / 0x100);
    assert(q3 == q2 / 0x100);
    assert(q4 == q3 / 0x100);
    assert(q5 == q4 / 0x100);
    assert(q6 == q5 / 0x100);
    assert(q7 == q6 / 0x100);
    assert(q7 < 0x100);
    let b = u64_bytes(x);
    assert(b[0] == x as int % 0x100);
    assert(b[1] == q1 % 0x100);
    assert(b[2] == q2 % 0x100);
    assert(b[3] == q3 % 0x100);
    assert(b[4] == q4 % 0x100);
    assert(b[5] == q5 % 0x100);
    assert(b[6] == q6 % 0x100);
    assert(b[7] == q7);
    assert(q6 == b[6] + q7 * 0x100);
    assert(q5 == b[5] + q6 * 0x100);
    assert(q4 == b[4] + q5 * 0x100);
    assert(q3 == b[3] + q4 * 0x100);
    assert(q2 == b[2] + q3 * 0x100);
    assert(q1 == b[1] + q2 * 0x100);
    assert(x == b[0] + q1 * 0x100);
}

pub proof fn lemma_take_u64(x: u64, rest: Seq<u8>)
    ensures
        take_u64(u64_bytes(x) + rest) == Some((x, rest)),
{
    let b = u64_bytes(x) + rest;
    assert(b.take(8) =~= u64_bytes(x));
    assert(b.skip(8) =~= rest);
    lemma_u64_value_of_bytes(x);
}

/// Appends a `u64`.
pub fn put_u64(out: &mut Vec<u8>, x: u64)
    ensures
        final(out)@ == old(out)@ + u64_bytes(x),
{
    out.push((x % 0x100) as u8);
    out.push((x / 0x100 % 0x100) as u8);
    out.push((x / 0x1_0000 % 0x100) as u8);
    out.push((x / 0x100_0000 % 0x100) as u8);
    out.push((x / 0x1_0000_0000 % 0x100) as u8);
    out.push((x / 0x100_0000_0000 % 0x100) as u8);
    out.push((x / 0x1_0000_0000_0000 % 0x100) as u8);
    out.push((x / 0x100_0000_0000_0000 % 0x100) as u8);
    assert(out@ =~= old(out)@ + u64_bytes(x));
}

/// Reads the `u64` at `pos`.
pub fn read_u64(data: &[u8], pos: usize) -> (r: Option<(u64, usize)>)
    ensures
        reads(data@, pos, r, take_u64(data@.skip(pos as int))),
{
    if pos > data.len() {
        return None;
    }
    if data.len() - pos < 8 {
        return None;
    }
    let b0: u64 = data[pos] as u64;
    let b1: u64 = data[pos + 1] as u64;
    let b2: u64 = data[pos + 2] as u64;
    let b3: u64 = data[pos + 3] as u64;
    let b4: u64 = data[pos + 4] as u64;
    let b5: u64 = data[pos + 5] as u64;
    let b6: u64 = data[pos + 6] as u64;
    let b7: u64 = data[pos + 7] as u64;
    let value: u64 = b0 + b1 * 0x100 + b2 * 0x1_0000 + b3 * 0x100_0000 + b4 * 0x1_0000_0000 + b5
        * 0x100_0000_0000 + b6 * 0x1_0000_0000_0000 + b7 * 0x100_0000_0000_0000;
    assert(data@.skip(pos as int).skip(8) =~= data@.skip(pos + 8));
    Some((value, pos + 8))
}

// ---------------------------------------------------------------------
// Signed 64-bit scores
// ---------------------------------------------------------------------

/// The unsigned number that has the bits of `x` in two's complement.
pub open spec fn twos(x: i64) -> u64 {
    if x >= 0 {
        x as u64
    } else {
        (x + 0x1_0000_0000_0000_0000) as u64
    }
}

/// The signed number that has the bits of `u` in two's complement.
pub open spec fn untwos(u: u64) -> i64 {
    if u <= 0x7fff_ffff_ffff_ffff {
        u as i64
    } else {
        (u - 0x1_0000_0000_0000_0000) as i64
    }
}

/// The eight bytes of an `i64`: those of its two's complement, lowest first.
pub open spec fn i64_bytes(x: i64) -> Seq<u8> {
    u64_bytes(twos(x))
}

/// Takes an `i64` off the front.
pub open spec fn take_i64(b: Seq<u8>) -> Option<(i64, Seq<u8>)> {
    match take_u64(b) {
        Some((u, rest)) => Some((untwos(u), rest)),
        None => None,
    }
}

pub proof fn lemma_take_i64(x: i64, rest: Seq<u8>)
    ensures
        take_i64(i64_bytes(x) + rest) == Some((x, rest)),
{
    lemma_take_u64(twos(x), rest);
}

/// The two's complement of `x`, which is what `x as u64` gives.
pub fn to_unsigned(x: i64) -> (r: u64)
    ensures
        r == twos(x),
{
    if x >= 0 {
        x as u64
    } else {
        let below: i64 = -(x + 1);
        u64::MAX - (below as u64)
    }
}

/// The number whose two's complement is `u`, which is what `u as i64` gives.
pub fn to_signed(u: u64) -> (r: i64)
    ensures
        r == untwos(u),
{
    if u <= 0x7fff_ffff_ffff_ffff {
        u as i64
    } else {
        let below: u64 = u64::MAX - u;
        -(below as i64) - 1
    }
}

/// Appends an `i64`.
pub fn put_i64(out: &mut Vec<u8>, x: i64)
    ensures
        final(out)@ == old(out)@ + i64_bytes(x),
{
    put_u64(out, to_unsigned(x));
}

/// Reads the `i64` at `pos`.
pub fn read_i64(data: &[u8], pos: usize) -> (r: Option<(i64, usize)>)
    ensures
        reads(data@, pos, r, take_i64(data@.skip(pos as int))),
{
    if pos > data.len() {
        return None;
    }
    match read_u64(data, pos) {
        Some((u, next)) => Some((to_signed(u), next)),
        None => None,
    }
}

// ---------------------------------------------------------------------
// Addresses
// ---------------------------------------------------------------------

/// Takes the 32 bytes of an address off the front.
pub open spec fn take_key(b: Seq<u8>) -> Option<(Seq<u8>, Seq<u8>)> {
    if b.len() >= 32 {
        Some((b.take(32), b.skip(32)))
    } else {
        None
    }
}

pub proof fn lemma_take_key(key: Seq<u8>, rest: Seq<u8>)
    requires
        key.len() == 32,
    ensures
        take_key(key + rest) == Some((key, rest)),
{
    assert((key + rest).take(32) =~= key);
    assert((key + rest).skip(32) =~= rest);
}

/// Appends an address.
pub fn put_key(out: &mut Vec<u8>, key: &Pubkey)
    ensures
        final(out)@ == old(out)@ + key@,
{
    let mut i: usize = 0;
    while i < 32
        invariant
            i <= 32,
            out@ == old(out)@ + key@.take(i as int),
        decreases 32 - i,
    {
        out.push(key.bytes[i]);
        assert(out@ =~= old(out)@ + key@.take(i + 1));
        i += 1;
    }
    assert(key@.take(32) =~= key@);
}

/// Reads the address at `pos`.
pub fn read_key(data: &[u8], pos: usize) -> (r: Option<(Pubkey, usize)>)
    ensures
        reads(data@, pos, r, take_key(data@.skip(pos as int))),
{
    if pos > data.len() {
        return None;
    }
    if data.len() - pos < 32 {
        return None;
    }
    let mut bytes = [0u8; 32];
    let mut i: usize = 0;
    while i < 32
        invariant
            i <= 32,
            pos + 32 <= data@.len() <= usize::MAX,
            forall|j: int| 0 <= j < i ==> bytes@[j] == data@[pos + j],
        decreases 32 - i,
    {
        bytes[i] = data[pos + i];
        i += 1;
    }
    let key = Pubkey { bytes };
    assert(key@ =~= data@.skip(pos as int).take(32));
    assert(data@.skip(pos as int).skip(32) =~= data@.skip(pos + 32));
    Some((key, pos + 32))
}

// ---------------------------------------------------------------------
// Texts
// ---------------------------------------------------------------------

/// A text can be written when its UTF-8 form is no longer than a 32-bit
/// length can say.
pub open spec fn text_fits(s: Seq<char>) -> bool {
    encode_utf8(s).len() <= u32::MAX
}

/// A text is the length of its UTF-8 form, as a `u32`, and then that form.
pub open spec fn text_bytes(s: Seq<char>) -> Seq<u8> {
    u32_bytes(encode_utf8(s).len() as u32) + encode_utf8(s)
}

/// Takes a text off the front: a length, then that many bytes, which must
/// be valid UTF-8.
#[verifier::opaque]
pub open spec fn take_text(b: Seq<u8>) -> Option<(Seq<char>, Seq<u8>)> {
    match take_u32(b) {
        None => None,
        Some((n, body)) => if body.len() >= n && valid_utf8(body.take(n as int)) {
            Some((decode_utf8(body.take(n as int)), body.skip(n as int)))
        } else {
            None
        },
    }
}

pub proof fn lemma_take_text(s: Seq<char>, rest: Seq<u8>)
    requires
        text_fits(s),
    ensures
        take_text(text_bytes(s) + rest) == Some((s, rest)),
{
    reveal(take_text);
    let body = encode_utf8(s);
    let n = body.len() as u32;
    assert(text_bytes(s) + rest =~= u32_bytes(n) + (body + rest));
    lemma_take_u32(n, body + rest);
    assert((body + rest).take(n as int) =~= body);
    assert((body + rest).skip(n as int) =~= rest);
    encode_utf8_valid_utf8(s);
    encode_utf8_decode_utf8(s);
}

/// A text that was taken off some bytes can be written again.
pub proof fn lemma_taken_text_fits(b: Seq<u8>)
    ensures
        take_text(b) matches Some(taken) ==> text_fits(taken.0),
{
    reveal(take_text);
    if let Some((n, body)) = take_u32(b) {
        if body.len() >= n && valid_utf8(body.take(n as int)) {
            decode_utf8_encode_utf8(body.take(n as int));
        }
    }
}

/// The bytes of a text are four more than the bytes of its UTF-8 form.
pub proof fn lemma_text_bytes_len(s: Seq<char>)
    ensures
        text_bytes(s).len() == 4 + encode_utf8(s).len(),
{
}

/// A text that was taken off some bytes took four bytes and the bytes of
/// its UTF-8 form.
pub proof fn lemma_taken_text_len(b: Seq<u8>)
    ensures
        take_text(b) matches Some(taken) ==> b.len() == 4 + encode_utf8(taken.0).len()
            + taken.1.len(),
{
    reveal(take_text);
    if let Some((n, body)) = take_u32(b) {
        if body.len() >= n && valid_utf8(body.take(n as int)) {
            decode_utf8_encode_utf8(body.take(n as int));
        }
    }
}

/// Whether the text can be written.
pub fn text_len_fits(s: &String) -> (r: bool)
    ensures
        r == text_fits(s@),
{
    s.as_str().as_bytes().len() <= u32::MAX as usize
}

/// Appends a text.
pub(crate) fn put_text(out: &mut Vec<u8>, s: &String)
    requires
        text_fits(s@),
    ensures
        final(out)@ == old(out)@ + text_bytes(s@),
{
    let body = s.as_str().as_bytes();
    put_u32(out, body.len() as u32);
    out.extend_from_slice(body);
    assert(out@ =~= old(out)@ + text_bytes(s@));
}

/// Makes a text of bytes with `String::from_utf8` of std, which is
/// documented to succeed exactly on valid UTF-8 and to keep the bytes as
/// the text's own. Nothing is proved of this function.
#[verifier::external_body]
pub(crate) fn text_from_utf8(bytes: Vec<u8>) -> (r: Option<String>)
    ensures
        r is Some <==> valid_utf8(bytes@),
        r matches Some(s) ==> encode_utf8(s@) == bytes@,
{
    String::from_utf8(bytes).ok()
}

/// Reads the text at `pos`.
pub fn read_text(data: &[u8], pos: usize) -> (r: Option<(String, usize)>)
    ensures
        reads(data@, pos, r, take_text(data@.skip(pos as int))),
        r matches Some(got) ==> text_fits(got.0@),
{
    if pos > data.len() {
        return None;
    }
    proof {
        reveal(take_text);
    }
    let (n, start) = match read_u32(data, pos) {
        Some(got) => got,
        None => { return None; },
    };
    if data.len() - start < n as usize {
        return None;
    }
    let len: usize = n as usize;
    let body = slice_to_vec(slice_subrange(data, start, start + len));
    proof {
        let tail = data@.skip(pos as int).skip(4);
        assert(tail =~= data@.skip(start as int));
        assert(body@ =~= tail.take(n as int));
        assert(tail.skip(n as int) =~= data@.skip(start + len));
    }
    match text_from_utf8(body) {
        Some(s) => {
            proof {
                encode_utf8_decode_utf8(s@);
            }
            Some((s, start + len))
        },
        None => None,
    }
}

// ---------------------------------------------------------------------
// Lists of texts
// ---------------------------------------------------------------------

/// A list can be written when its count fits a 32-bit length and each of
/// its texts can be written.
pub open spec fn texts_fit(l: Seq<Seq<char>>) -> bool {
    &&& l.len() <= u32::MAX
    &&& forall|i: int| 0 <= i < l.len() ==> text_fits(#[trigger] l[i])
}

/// The texts of a list, one after the other.
pub open spec fn texts_body(l: Seq<Seq<char>>) -> Seq<u8>
    decreases l.len(),
{
    if l.len() == 0 {
        Seq::empty()
    } else {
        text_bytes(l[0]) + texts_body(l.drop_first())
    }
}

/// A list is its count, as a `u32`, and then its texts.
pub open spec fn texts_bytes(l: Seq<Seq<char>>) -> Seq<u8> {
    u32_bytes(l.len() as u32) + texts_body(l)
}

/// Takes `n` texts off the front.
pub open spec fn take_texts_n(b: Seq<u8>, n: nat) -> Option<(Seq<Seq<char>>, Seq<u8>)>
    decreases n,
{
    if n == 0 {
        Some((Seq::empty(), b))
    } else {
        match take_text(b) {
            None => None,
            Some((first, after)) => match take_texts_n(after, (n - 1) as nat) {
                None => None,
                Some((others, rest)) => Some((seq![first] + others, rest)),
            },
        }
    }
}

/// Takes a list off the front: a count, then that many texts.
#[verifier::opaque]
pub open spec fn take_texts(b: Seq<u8>) -> Option<(Seq<Seq<char>>, Seq<u8>)> {
    match take_u32(b) {
        None => None,
        Some((n, body)) => take_texts_n(body, n as nat),
    }
}

/// The texts of two lists joined are the texts of the first and then
/// those of the second.
pub proof fn lemma_texts_body_add(a: Seq<Seq<char>>, b: Seq<Seq<char>>)
    ensures
        texts_body(a + b) == texts_body(a) + texts_body(b),
    decreases a.len(),
{
    if a.len() == 0 {
        assert(a + b =~= b);
        assert(texts_body(a) + texts_body(b) =~= texts_body(b));
    } else {
        lemma_texts_body_add(a.drop_first(), b);
        assert((a + b).drop_first() =~= a.drop_first() + b);
        assert((a + b)[0] == a[0]);
        assert(texts_body(a + b) =~= texts_body(a) + texts_body(b));
    }
}

pub proof fn lemma_take_texts_n(l: Seq<Seq<char>>, rest: Seq<u8>)
    requires
        forall|i: int| 0 <= i < l.len() ==> text_fits(#[trigger] l[i]),
    ensures
        take_texts_n(texts_body(l) + rest, l.len()) == Some((l, rest)),
    decreases l.len(),
{
    if l.len() == 0 {
        assert(texts_body(l) + rest =~= rest);
        assert(l =~= Seq::empty());
    } else {
        let tail = l.drop_first();
        let after = texts_body(tail) + rest;
        assert(texts_body(l) + rest =~= text_bytes(l[0]) + after);
        assert(take_text(texts_body(l) + rest) == Some((l[0], after))) by {
            lemma_take_text(l[0], after);
        }
        assert forall|i: int| 0 <= i < tail.len() implies text_fits(#[trigger] tail[i]) by {
            assert(tail[i] == l[i + 1]);
        }
        assert(take_texts_n(after, tail.len()) == Some((tail, rest))) by {
            lemma_take_texts_n(tail, rest);
        }
        assert(seq![l[0]] + tail =~= l);
        assert((l.len() - 1) as nat == tail.len());
    }
}

pub proof fn lemma_take_texts(l: Seq<Seq<char>>, rest: Seq<u8>)
    requires
        texts_fit(l),
    ensures
        take_texts(texts_bytes(l) + rest) == Some((l, rest)),
{
    reveal(take_texts);
    let n = l.len() as u32;
    assert(texts_bytes(l) + rest =~= u32_bytes(n) + (texts_body(l) + rest));
    lemma_take_u32(n, texts_body(l) + rest);
    lemma_take_texts_n(l, rest);
}

/// Texts that were taken off some bytes can be written again, and there
/// are as many of them as were asked for.
pub proof fn lemma_taken_texts_n_fit(b: Seq<u8>, n: nat)
    ensures
        take_texts_n(b, n) matches Some(taken) ==> taken.0.len() == n && forall|i: int|
            0 <= i < taken.0.len() ==> text_fits(#[trigger] taken.0[i]),
    decreases n,
{
    if n > 0 {
        lemma_taken_text_fits(b);
        if let Some((first, after)) = take_text(b) {
            lemma_taken_texts_n_fit(after, (n - 1) as nat);
        }
    }
}

/// A list that was taken off some bytes can be written again.
pub proof fn lemma_taken_texts_fit(b: Seq<u8>)
    ensures
        take_texts(b) matches Some(taken) ==> texts_fit(taken.0),
{
    reveal(take_texts);
    if let Some((n, body)) = take_u32(b) {
        lemma_taken_texts_n_fit(body, n as nat);
    }
}

/// Texts that were taken off some bytes took the bytes that they are
/// written as.
pub proof fn lemma_taken_texts_n_len(b: Seq<u8>, n: nat)
    ensures
        take_texts_n(b, n) matches Some(taken) ==> b.len() == texts_body(taken.0).len()
            + taken.1.len(),
    decreases n,
{
    if n > 0 {
        lemma_taken_text_len(b);
        if let Some((first, after)) = take_text(b) {
            lemma_taken_texts_n_len(after, (n - 1) as nat);
            if let Some((others, rest)) = take_texts_n(after, (n - 1) as nat) {
                let all = seq![first] + others;
                assert(all.drop_first() =~= others);
                assert(all[0] == first);
                lemma_text_bytes_len(first);
                assert(texts_body(all) == text_bytes(first) + texts_body(others));
            }
        }
    } else {
        assert(texts_body(Seq::empty()) =~= Seq::<u8>::empty());
    }
}

/// A list that was taken off some bytes took four bytes and the bytes of
/// its texts.
pub proof fn lemma_taken_texts_len(b: Seq<u8>)
    ensures
        take_texts(b) matches Some(taken) ==> b.len() == 4 + texts_body(taken.0).len()
            + taken.1.len(),
{
    reveal(take_texts);
    if let Some((n, body)) = take_u32(b) {
        lemma_taken_texts_n_len(body, n as nat);
    }
}

/// Whether the list can be written.
pub fn texts_len_fit(l: &Vec<String>) -> (r: bool)
    ensures
        r == texts_fit(l.deep_view()),
{
    if l.len() > u32::MAX as usize {
        return false;
    }
    let mut i: usize = 0;
    while i < l.len()
        invariant
            i <= l@.len(),
            l@.len() <= u32::MAX,
            forall|j: int| 0 <= j < i ==> text_fits(#[trigger] l.deep_view()[j]),
        decreases l@.len() - i,
    {
        if !text_len_fits(&l[i]) {
            assert(!text_fits(l.deep_view()[i as int]));
            return false;
        }
        i += 1;
    }
    true
}

/// Appends a list of texts.
pub(crate) fn put_texts(out: &mut Vec<u8>, l: &Vec<String>)
    requires
        texts_fit(l.deep_view()),
    ensures
        final(out)@ == old(out)@ + texts_bytes(l.deep_view()),
{
    let ghost texts = l.deep_view();
    put_u32(out, l.len() as u32);
    let mut i: usize = 0;
    proof {
        assert(texts.take(0) =~= Seq::empty());
        assert(out@ =~= old(out)@ + u32_bytes(texts.len() as u32) + texts_body(texts.take(0)));
    }
    while i < l.len()
        invariant
            i <= l@.len(),
            texts == l.deep_view(),
            texts_fit(texts),
            out@ == old(out)@ + u32_bytes(texts.len() as u32) + texts_body(texts.take(i as int)),
        decreases l@.len() - i,
    {
        proof {
            let done = texts.take(i as int);
            let one = seq![texts[i as int]];
            assert(texts.take(i + 1) =~= done + one);
            lemma_texts_body_add(done, one);
            assert(one.drop_first() =~= Seq::<Seq<char>>::empty());
            assert(texts_body(one.drop_first()) =~= Seq::<u8>::empty());
            assert(texts_body(one) =~= text_bytes(texts[i as int]));
        }
        put_text(out, &l[i]);
        i += 1;
    }
    proof {
        assert(texts.take(i as int) =~= texts);
        assert(out@ =~= old(out)@ + texts_bytes(texts));
    }
}

/// The outcome of taking some texts and then some more: the first texts in
/// front of the others.
pub open spec fn after_texts(
    done: Seq<Seq<char>>,
    more: Option<(Seq<Seq<char>>, Seq<u8>)>,
) -> Option<(Seq<Seq<char>>, Seq<u8>)> {
    match more {
        None => None,
        Some((others, rest)) => Some((done + others, rest)),
    }
}

/// Reads the list of texts at `pos`.
pub fn read_texts(data: &[u8], pos: usize) -> (r: Option<(Vec<String>, usize)>)
    ensures
        reads(data@, pos, r, take_texts(data@.skip(pos as int))),
        r matches Some(got) ==> texts_fit(got.0.deep_view()),
{
    if pos > data.len() {
        return None;
    }
    proof {
        reveal(take_texts);
    }
    let (n, start) = match read_u32(data, pos) {
        Some(got) => got,
        None => { return None; },
    };
    let ghost whole = take_texts(data@.skip(pos as int));
    let mut out: Vec<String> = Vec::new();
    let mut at: usize = start;
    let mut i: u32 = 0;
    proof {
        assert(data@.skip(pos as int).skip(4) =~= data@.skip(start as int));
        let more = take_texts_n(data@.skip(at as int), n as nat);
        assert(out.deep_view() =~= Seq::empty());
        if more is Some {
            assert(out.deep_view() + more.unwrap().0 =~= more.unwrap().0);
        }
    }
    while i < n
        invariant
            i <= n,
            at <= data@.len(),
            out@.len() == i,
            forall|j: int| 0 <= j < out@.len() ==> text_fits(#[trigger] out.deep_view()[j]),
            whole == take_texts(data@.skip(pos as int)),
            whole == after_texts(
                out.deep_view(),
                take_texts_n(data@.skip(at as int), (n - i) as nat),
            ),
        decreases n - i,
    {
        let ghost done = out.deep_view();
        let ghost before = data@.skip(at as int);
        match read_text(data, at) {
            None => {
                proof {
                    assert(take_text(before) is None);
                    assert(take_texts_n(before, (n - i) as nat) is None);
                    assert(whole is None);
                }
                return None;
            },
            Some((s, next)) => {
                proof {
                    let more = take_texts_n(data@.skip(next as int), (n - i - 1) as nat);
                    if more is Some {
                        assert(done + (seq![s@] + more.unwrap().0) =~= (done + seq![s@]) + more.unwrap().0);
                    }
                }
                out.push(s);
                assert(out.deep_view() =~= done + seq![s@]);
                at = next;
                i += 1;
            },
        }
    }
    Some((out, at))
}

// ---------------------------------------------------------------------
// Buffers of fixed capacity
// ---------------------------------------------------------------------

/// A buffer after `bytes` were written over its front: the bytes, and
/// behind them what the buffer held there before.
pub open spec fn overwritten(buffer: Seq<u8>, bytes: Seq<u8>) -> Seq<u8> {
    bytes + buffer.skip(bytes.len() as int)
}

/// Why an encoded record cannot be stored in a buffer of `capacity` bytes,
/// if it cannot. `bytes` is `None` for a record that cannot be written at
/// all. A record longer than the buffer is refused; nothing is ever cut
/// off to make it fit.
pub open spec fn store_failure(capacity: nat, bytes: Option<Seq<u8>>) -> Option<ErrorKind> {
    match bytes {
        None => Some(ErrorKind::Unencodable),
        Some(b) => if b.len() > capacity {
            Some(ErrorKind::CapacityExceeded)
        } else {
            None
        },
    }
}

/// What storing an encoded record in a buffer comes to: the buffer with
/// the record over its front, or the reason why it cannot be stored.
pub open spec fn stored(buffer: Seq<u8>, bytes: Option<Seq<u8>>) -> Result<Seq<u8>, ErrorKind> {
    match store_failure(buffer.len(), bytes) {
        Some(e) => Err(e),
        None => Ok(overwritten(buffer, bytes.unwrap())),
    }
}

/// Writes `bytes` over the front of `dst`.
pub(crate) fn overwrite(dst: &mut [u8], bytes: &[u8])
    requires
        bytes@.len() <= old(dst)@.len(),
    ensures
        final(dst)@ == overwritten(old(dst)@, bytes@),
{
    let mut i: usize = 0;
    while i < bytes.len()
        invariant
            i <= bytes@.len() <= dst@.len(),
            dst@.len() == old(dst)@.len(),
            forall|j: int| 0 <= j < i ==> dst@[j] == bytes@[j],
            forall|j: int| i <= j < dst@.len() ==> dst@[j] == old(dst)@[j],
        decreases bytes@.len() - i,
    {
        dst[i] = bytes[i];
        i += 1;
    }
    assert(dst@ =~= overwritten(old(dst)@, bytes@));
}

/// Stores an encoded record in `dst`, or leaves `dst` as it is.
pub fn store(dst: &mut [u8], bytes: &Option<Vec<u8>>) -> (r: Result<(), ErrorKind>)
    ensures
        match stored(old(dst)@, bytes.deep_view()) {
            Ok(after) => r is Ok && final(dst)@ == after,
            Err(e) => r == Err::<(), ErrorKind>(e) && final(dst)@ == old(dst)@,
        },
{
    match bytes {
        None => Err(ErrorKind::Unencodable),
        Some(b) => {
            assert(b.deep_view() =~= b@);
            if b.len() > dst.len() {
                Err(ErrorKind::CapacityExceeded)
            } else {
                overwrite(dst, b.as_slice());
                Ok(())
            }
        },
    }
}

/// A buffer as it is when it was allocated: every byte zero.
pub open spec fn zeroed(b: Seq<u8>) -> bool {
    forall|i: int| 0 <= i < b.len() ==> b[i] == 0
}

/// `n` zero bytes.
pub open spec fn zeros(n: nat) -> Seq<u8> {
    Seq::new(n, |i: int| 0u8)
}

/// Zeros after zeros are zeros.
pub proof fn lemma_zeros_add(a: nat, b: nat)
    ensures
        zeros(a) + zeros(b) == zeros(a + b),
{
    assert(zeros(a) + zeros(b) =~= zeros(a + b));
}

/// A buffer of zeros is zeros in front of the rest of it.
pub proof fn lemma_zeroed_split(b: Seq<u8>, n: nat)
    requires
        zeroed(b),
        n <= b.len(),
    ensures
        b == zeros(n) + b.skip(n as int),
{
    assert(b =~= zeros(n) + b.skip(n as int));
}

/// The values that are written as zeros: the flag that is not set, the
/// number zero, the empty text and the empty list.
pub proof fn lemma_zero_fields()
    ensures
        bool_bytes(false) == zeros(1),
        u64_bytes(0) == zeros(8),
        i64_bytes(0) == zeros(8),
        text_bytes(Seq::empty()) == zeros(4),
        texts_bytes(Seq::empty()) == zeros(4),
        text_fits(Seq::empty()),
        texts_fit(Seq::empty()),
{
    assert(bool_bytes(false) =~= zeros(1));
    assert(u64_bytes(0) =~= zeros(8));
    assert(twos(0) == 0);
    assert(encode_utf8(Seq::<char>::empty()) =~= Seq::<u8>::empty());
    assert(u32_bytes(0) =~= zeros(4));
    assert(text_bytes(Seq::empty()) =~= zeros(4));
    assert(texts_body(Seq::empty()) =~= Seq::<u8>::empty());
    assert(texts_bytes(Seq::empty()) =~= zeros(4));
}

/// The widths of the fields of fixed width.
pub proof fn lemma_widths(flag: bool, count: u64, score: i64)
    ensures
        bool_bytes(flag).len() == 1,
        u64_bytes(count).len() == 8,
        i64_bytes(score).len() == 8,
{
}

/// The bytes of a list are four more than the bytes of its texts.
pub proof fn lemma_texts_bytes_len(l: Seq<Seq<char>>)
    ensures
        texts_bytes(l).len() == 4 + texts_body(l).len(),
{
}

/// Writing the same bytes twice is writing them once.
pub proof fn lemma_overwritten_twice(buffer: Seq<u8>, bytes: Seq<u8>)
    requires
        bytes.len() <= buffer.len(),
    ensures
        overwritten(overwritten(buffer, bytes), bytes) == overwritten(buffer, bytes),
{
    assert(overwritten(overwritten(buffer, bytes), bytes) =~= overwritten(buffer, bytes));
}

} // verus!
