//! The byte format of the fields that records and requests are made of.
//!
//! Integers are little-endian, a flag is one byte that is zero or one, and a
//! text is the number of its UTF-8 bytes as a `u32` followed by those bytes.
//! Fields follow one another without padding.

use vstd::prelude::*;
use vstd::utf8::*;
use vstd::slice::{slice_subrange, slice_to_vec};
use crate::pubkey::Pubkey;

verus! {

/// The four bytes of `x`, lowest first.
pub open spec fn u32_le(x: u32) -> Seq<u8> {
    seq![
        (x % 256) as u8,
        ((x / 256) % 256) as u8,
        ((x / 65536) % 256) as u8,
        ((x / 16777216) % 256) as u8,
    ]
}

/// The number whose four bytes, lowest first, open `bytes`.
pub open spec fn u32_from_le(bytes: Seq<u8>) -> u32
    recommends
        bytes.len() >= 4,
{
    (bytes[0] + bytes[1] * 256 + bytes[2] * 65536 + bytes[3] * 16777216) as u32
}

/// The eight bytes of `x`, lowest first.
pub open spec fn u64_le(x: u64) -> Seq<u8> {
    u32_le((x % 0x1_0000_0000) as u32) + u32_le((x / 0x1_0000_0000) as u32)
}

/// The number whose eight bytes, lowest first, open `bytes`.
pub open spec fn u64_from_le(bytes: Seq<u8>) -> u64
    recommends
        bytes.len() >= 8,
{
    (u32_from_le(bytes) + u32_from_le(bytes.skip(4)) * 0x1_0000_0000) as u64
}

/// The unsigned number with the same sixty-four bits as `x` in two's
/// complement.
pub open spec fn i64_bits(x: i64) -> u64 {
    if x >= 0 {
        x as u64
    } else {
        (x + 0x1_0000_0000_0000_0000) as u64
    }
}

/// The signed number with the same sixty-four bits as `bits`.
pub open spec fn i64_from_bits(bits: u64) -> i64 {
    if bits < 0x8000_0000_0000_0000 {
        bits as i64
    } else {
        (bits - 0x1_0000_0000_0000_0000) as i64
    }
}

/// The eight bytes of `x` in two's complement, lowest first.
pub open spec fn i64_le(x: i64) -> Seq<u8> {
    u64_le(i64_bits(x))
}

/// The signed number whose eight bytes, lowest first, open `bytes`.
pub open spec fn i64_from_le(bytes: Seq<u8>) -> i64 {
    i64_from_bits(u64_from_le(bytes))
}

/// The byte of a flag.
pub open spec fn bool_byte(flag: bool) -> u8 {
    if flag {
        1
    } else {
        0
    }
}

/// The bytes of a text: the length of its UTF-8 form, then that form.
pub open spec fn text_bytes(text: Seq<char>) -> Seq<u8> {
    u32_le(encode_utf8(text).len() as u32) + encode_utf8(text)
}

/// Whether a text is short enough for its length to be written down.
pub open spec fn text_fits(text: Seq<char>) -> bool {
    encode_utf8(text).len() <= u32::MAX
}

/// Four digits in base 256 are the digits of the number that they spell.
proof fn lemma_digits(b0: int, b1: int, b2: int, b3: int)
    requires
        0 <= b0 < 256,
        0 <= b1 < 256,
        0 <= b2 < 256,
        0 <= b3 < 256,
    ensures
        0 <= b0 + b1 * 256 + b2 * 65536 + b3 * 16777216 < 0x1_0000_0000,
        (b0 + b1 * 256 + b2 * 65536 + b3 * 16777216) % 256 == b0,
        ((b0 + b1 * 256 + b2 * 65536 + b3 * 16777216) / 256) % 256 == b1,
        ((b0 + b1 * 256 + b2 * 65536 + b3 * 16777216) / 65536) % 256 == b2,
        ((b0 + b1 * 256 + b2 * 65536 + b3 * 16777216) / 16777216) % 256 == b3,
{
}

/// Reading back the bytes of a `u32` gives the number, whatever follows.
pub proof fn lemma_u32_round_trip(x: u32, tail: Seq<u8>)
    ensures
        u32_le(x).len() == 4,
        u32_from_le(u32_le(x) + tail) == x,
{
    let b = u32_le(x) + tail;
    assert(b[0] == u32_le(x)[0]);
    assert(b[1] == u32_le(x)[1]);
    assert(b[2] == u32_le(x)[2]);
    assert(b[3] == u32_le(x)[3]);
}

/// Four bytes are the bytes of the number that they read as.
pub proof fn lemma_u32_bytes(bytes: Seq<u8>)
    requires
        bytes.len() >= 4,
    ensures
        u32_le(u32_from_le(bytes)) == bytes.take(4),
{
    lemma_digits(bytes[0] as int, bytes[1] as int, bytes[2] as int, bytes[3] as int);
    assert(u32_le(u32_from_le(bytes)) =~= bytes.take(4));
}

/// Reading back the bytes of a `u64` gives the number, whatever follows.
pub proof fn lemma_u64_round_trip(x: u64, tail: Seq<u8>)
    ensures
        u64_le(x).len() == 8,
        u64_from_le(u64_le(x) + tail) == x,
{
    let lo = (x % 0x1_0000_0000) as u32;
    let hi = (x / 0x1_0000_0000) as u32;
    let b = u64_le(x) + tail;
    lemma_u32_round_trip(lo, u32_le(hi) + tail);
    lemma_u32_round_trip(hi, tail);
    assert(b =~= u32_le(lo) + (u32_le(hi) + tail));
    assert(b.skip(4) =~= u32_le(hi) + tail);
}

/// Eight bytes are the bytes of the number that they read as.
pub proof fn lemma_u64_bytes(bytes: Seq<u8>)
    requires
        bytes.len() >= 8,
    ensures
        u64_le(u64_from_le(bytes)) == bytes.take(8),
{
    let lo = u32_from_le(bytes);
    let hi = u32_from_le(bytes.skip(4));
    let x = u64_from_le(bytes);
    assert(x == lo + hi * 0x1_0000_0000);
    assert((x % 0x1_0000_0000) as u32 == lo);
    assert((x / 0x1_0000_0000) as u32 == hi);
    lemma_u32_bytes(bytes);
    lemma_u32_bytes(bytes.skip(4));
    assert(u64_le(x) =~= bytes.take(8));
}

/// Reading back the bytes of an `i64` gives the number, whatever follows.
pub proof fn lemma_i64_round_trip(x: i64, tail: Seq<u8>)
    ensures
        i64_le(x).len() == 8,
        i64_from_le(i64_le(x) + tail) == x,
{
    lemma_u64_round_trip(i64_bits(x), tail);
}

/// The bytes of an `i64` are eight.
pub proof fn lemma_i64_len(x: i64)
    ensures
        i64_le(x).len() == 8,
{
}

/// Eight bytes are the bytes of the signed number that they read as.
pub proof fn lemma_i64_bytes(bytes: Seq<u8>)
    requires
        bytes.len() >= 8,
    ensures
        i64_le(i64_from_le(bytes)) == bytes.take(8),
{
    lemma_u64_bytes(bytes);
}


/// The first byte of `bytes`, and what follows it.
#[verifier::opaque]
pub open spec fn take_u8(bytes: Seq<u8>) -> Option<(u8, Seq<u8>)> {
    if bytes.len() < 1 {
        None
    } else {
        Some((bytes[0], bytes.skip(1)))
    }
}

/// The flag that opens `bytes`, and what follows it. Only zero and one are
/// flags.
#[verifier::opaque]
pub open spec fn take_bool(bytes: Seq<u8>) -> Option<(bool, Seq<u8>)> {
    if bytes.len() < 1 || bytes[0] > 1 {
        None
    } else {
        Some((bytes[0] == 1, bytes.skip(1)))
    }
}

/// The `u32` that opens `bytes`, and what follows it.
#[verifier::opaque]
pub open spec fn take_u32(bytes: Seq<u8>) -> Option<(u32, Seq<u8>)> {
    if bytes.len() < 4 {
        None
    } else {
        Some((u32_from_le(bytes), bytes.skip(4)))
    }
}

/// The `u64` that opens `bytes`, and what follows it.
#[verifier::opaque]
pub open spec fn take_u64(bytes: Seq<u8>) -> Option<(u64, Seq<u8>)> {
    if bytes.len() < 8 {
        None
    } else {
        Some((u64_from_le(bytes), bytes.skip(8)))
    }
}

/// The `i64` that opens `bytes`, and what follows it.
#[verifier::opaque]
pub open spec fn take_i64(bytes: Seq<u8>) -> Option<(i64, Seq<u8>)> {
    if bytes.len() < 8 {
        None
    } else {
        Some((i64_from_le(bytes), bytes.skip(8)))
    }
}

/// The address that opens `bytes`, as its thirty-two bytes, and what follows
/// it.
#[verifier::opaque]
pub open spec fn take_key(bytes: Seq<u8>) -> Option<(Seq<u8>, Seq<u8>)> {
    if bytes.len() < 32 {
        None
    } else {
        Some((bytes.take(32), bytes.skip(32)))
    }
}

/// The text that opens `bytes`, and what follows it. The bytes that the
/// length announces have to be there and to be UTF-8.
#[verifier::opaque]
pub open spec fn take_text(bytes: Seq<u8>) -> Option<(Seq<char>, Seq<u8>)> {
    if bytes.len() < 4 {
        None
    } else {
        let n = u32_from_le(bytes) as int;
        if bytes.len() - 4 < n || !valid_utf8(bytes.subrange(4, 4 + n)) {
            None
        } else {
            Some((decode_utf8(bytes.subrange(4, 4 + n)), bytes.skip(4 + n)))
        }
    }
}

/// What a reading left, or nothing where nothing was read.
pub open spec fn rest_of<T>(taken: Option<(T, Seq<u8>)>) -> Seq<u8> {
    match taken {
        Some((_, rest)) => rest,
        None => Seq::empty(),
    }
}

/// Reading back a byte gives the byte, whatever follows.
pub proof fn lemma_take_u8(x: u8, tail: Seq<u8>)
    ensures
        take_u8(seq![x] + tail) == Some((x, tail)),
{
    reveal(take_u8);
    assert((seq![x] + tail).skip(1) =~= tail);
}

/// The bytes from which a byte was read are that byte, followed by what the
/// reading left.
pub proof fn lemma_taken_u8(bytes: Seq<u8>)
    ensures
        take_u8(bytes) matches Some((x, rest)) ==> bytes == seq![x] + rest,
{
    reveal(take_u8);
    if take_u8(bytes) is Some {
        assert(bytes =~= seq![bytes[0]] + bytes.skip(1));
    }
}

/// Reading back the byte of a flag gives the flag, whatever follows.
pub proof fn lemma_take_bool(flag: bool, tail: Seq<u8>)
    ensures
        take_bool(seq![bool_byte(flag)] + tail) == Some((flag, tail)),
{
    reveal(take_bool);
    assert((seq![bool_byte(flag)] + tail).skip(1) =~= tail);
}

/// The bytes from which a flag was read are the byte of that flag, followed
/// by what the reading left.
pub proof fn lemma_taken_bool(bytes: Seq<u8>)
    ensures
        take_bool(bytes) matches Some((flag, rest)) ==> bytes == seq![bool_byte(flag)] + rest,
{
    reveal(take_bool);
    if take_bool(bytes) is Some {
        assert(bytes =~= seq![bytes[0]] + bytes.skip(1));
    }
}

/// Reading back the bytes of a `u64` gives the number, whatever follows.
pub proof fn lemma_take_u64(x: u64, tail: Seq<u8>)
    ensures
        take_u64(u64_le(x) + tail) == Some((x, tail)),
{
    reveal(take_u64);
    lemma_u64_round_trip(x, tail);
    assert((u64_le(x) + tail).skip(8) =~= tail);
}

/// The bytes from which a `u64` was read are the bytes of that number,
/// followed by what the reading left.
pub proof fn lemma_taken_u64(bytes: Seq<u8>)
    ensures
        take_u64(bytes) matches Some((x, rest)) ==> bytes == u64_le(x) + rest,
{
    reveal(take_u64);
    if take_u64(bytes) is Some {
        lemma_u64_bytes(bytes);
        assert(bytes =~= bytes.take(8) + bytes.skip(8));
    }
}

/// Reading back the bytes of an `i64` gives the number, whatever follows.
pub proof fn lemma_take_i64(x: i64, tail: Seq<u8>)
    ensures
        take_i64(i64_le(x) + tail) == Some((x, tail)),
{
    reveal(take_i64);
    lemma_i64_round_trip(x, tail);
    assert((i64_le(x) + tail).skip(8) =~= tail);
}

/// The bytes from which an `i64` was read are the bytes of that number,
/// followed by what the reading left.
pub proof fn lemma_taken_i64(bytes: Seq<u8>)
    ensures
        take_i64(bytes) matches Some((x, rest)) ==> bytes == i64_le(x) + rest,
{
    reveal(take_i64);
    if take_i64(bytes) is Some {
        lemma_i64_bytes(bytes);
        assert(bytes =~= bytes.take(8) + bytes.skip(8));
    }
}

/// Reading back the bytes of an address gives them, whatever follows.
pub proof fn lemma_take_key(key: Seq<u8>, tail: Seq<u8>)
    requires
        key.len() == 32,
    ensures
        take_key(key + tail) == Some((key, tail)),
{
    reveal(take_key);
    assert((key + tail).take(32) =~= key);
    assert((key + tail).skip(32) =~= tail);
}

/// The bytes from which an address was read are its thirty-two bytes,
/// followed by what the reading left.
pub proof fn lemma_taken_key(bytes: Seq<u8>)
    ensures
        take_key(bytes) matches Some((key, rest)) ==> key.len() == 32 && bytes == key + rest,
{
    reveal(take_key);
    if take_key(bytes) is Some {
        assert(bytes =~= bytes.take(32) + bytes.skip(32));
    }
}

/// Reading back the bytes of a text gives the text, whatever follows.
pub proof fn lemma_take_text(text: Seq<char>, tail: Seq<u8>)
    requires
        text_fits(text),
    ensures
        take_text(text_bytes(text) + tail) == Some((text, tail)),
{
    reveal(take_text);
    let body = encode_utf8(text);
    let n = body.len() as u32;
    let all = text_bytes(text) + tail;
    lemma_u32_round_trip(n, body + tail);
    assert(all =~= u32_le(n) + (body + tail));
    assert(all.subrange(4, 4 + n) =~= body);
    assert(all.skip(4 + n) =~= tail);
    encode_utf8_valid_utf8(text);
    encode_utf8_decode_utf8(text);
}

/// The bytes from which a text was read are the bytes of that text, followed
/// by what the reading left.
pub proof fn lemma_taken_text(bytes: Seq<u8>)
    ensures
        take_text(bytes) matches Some((text, rest)) ==> text_fits(text) && bytes == text_bytes(
            text,
        ) + rest,
{
    reveal(take_text);
    if take_text(bytes) is Some {
        let n = u32_from_le(bytes) as int;
        let body = bytes.subrange(4, 4 + n);
        decode_utf8_encode_utf8(body);
        lemma_u32_bytes(bytes);
        assert(bytes =~= bytes.take(4) + body + bytes.skip(4 + n));
    }
}

/// Appends the bytes of `x` to `out`.
pub fn put_u32(out: &mut Vec<u8>, x: u32)
    ensures
        final(out)@ == old(out)@ + u32_le(x),
{
    out.push((x % 256) as u8);
    out.push(((x / 256) % 256) as u8);
    out.push(((x / 65536) % 256) as u8);
    out.push(((x / 16777216) % 256) as u8);
    assert(out@ =~= old(out)@ + u32_le(x));
}

/// Appends the bytes of `x` to `out`.
pub fn put_u64(out: &mut Vec<u8>, x: u64)
    ensures
        final(out)@ == old(out)@ + u64_le(x),
{
    put_u32(out, (x % 0x1_0000_0000) as u32);
    put_u32(out, (x / 0x1_0000_0000) as u32);
    assert(out@ =~= old(out)@ + u64_le(x));
}

/// Appends the bytes of `x` to `out`.
pub fn put_i64(out: &mut Vec<u8>, x: i64)
    ensures
        final(out)@ == old(out)@ + i64_le(x),
{
    let bits: u64 = if x >= 0 {
        x as u64
    } else {
        u64::MAX - ((-(x + 1)) as u64)
    };
    put_u64(out, bits);
}

/// Appends the byte of `flag` to `out`.
pub fn put_bool(out: &mut Vec<u8>, flag: bool)
    ensures
        final(out)@ == old(out)@ + seq![bool_byte(flag)],
{
    out.push(if flag { 1 } else { 0 });
    assert(out@ =~= old(out)@ + seq![bool_byte(flag)]);
}

/// Appends the bytes of `key` to `out`.
pub fn put_key(out: &mut Vec<u8>, key: &Pubkey)
    ensures
        final(out)@ == old(out)@ + key@,
{
    out.extend_from_slice(key.bytes.as_slice());
}

/// Appends the bytes of `text` to `out`, unless the text is too long for
/// its length to be written down: then `out` stays as it is.
pub fn put_text(out: &mut Vec<u8>, text: &str) -> (done: bool)
    ensures
        done == text_fits(text@),
        done ==> final(out)@ == old(out)@ + text_bytes(text@),
        !done ==> final(out)@ == old(out)@,
{
    let body = text.as_bytes();
    if body.len() > 0xffff_ffff {
        return false;
    }
    put_u32(out, body.len() as u32);
    out.extend_from_slice(body);
    assert(out@ =~= old(out)@ + text_bytes(text@));
    true
}


/// Whether `got`, read from `data` at the index `at`, is the value `want`
/// that opens the bytes from there on, together with the index at which the
/// bytes that follow the value begin. Past the end of the data nothing is
/// read.
pub open spec fn read_is<T>(
    got: Option<(T, usize)>,
    want: Option<(T, Seq<u8>)>,
    data: Seq<u8>,
    at: usize,
) -> bool {
    if at > data.len() {
        got is None
    } else {
        read_matches(got, want, data, at)
    }
}

/// Whether `got` is the value `want` with the index at which what follows
/// it begins.
pub open spec fn read_matches<T>(
    got: Option<(T, usize)>,
    want: Option<(T, Seq<u8>)>,
    data: Seq<u8>,
    at: usize,
) -> bool {
    match want {
        Some((value, rest)) => {
            &&& got matches Some((read, next))
            &&& read == value
            &&& at <= next <= data.len()
            &&& next == data.len() - rest.len()
            &&& rest == data.skip(next as int)
        },
        None => got is None,
    }
}

/// Reads one byte of `data` at the index `at`.
pub fn read_u8(data: &[u8], at: usize) -> (got: Option<(u8, usize)>)
    ensures
        read_is(got, take_u8(data@.skip(at as int)), data@, at),
{
    if at > data.len() {
        return None;
    }
    proof {
        reveal(take_u8);
    }
    if data.len() - at < 1 {
        return None;
    }
    assert(data@.skip(at as int).skip(1) =~= data@.skip(at + 1));
    Some((data[at], at + 1))
}

/// Reads a flag of `data` at the index `at`.
pub fn read_bool(data: &[u8], at: usize) -> (got: Option<(bool, usize)>)
    ensures
        read_is(got, take_bool(data@.skip(at as int)), data@, at),
{
    if at > data.len() {
        return None;
    }
    proof {
        reveal(take_bool);
    }
    if data.len() - at < 1 || data[at] > 1 {
        return None;
    }
    assert(data@.skip(at as int).skip(1) =~= data@.skip(at + 1));
    Some((data[at] == 1, at + 1))
}

/// Reads a `u32` of `data` at the index `at`.
pub fn read_u32(data: &[u8], at: usize) -> (got: Option<(u32, usize)>)
    ensures
        read_is(got, take_u32(data@.skip(at as int)), data@, at),
{
    if at > data.len() {
        return None;
    }
    proof {
        reveal(take_u32);
    }
    if data.len() - at < 4 {
        return None;
    }
    let b0: u32 = data[at] as u32;
    let b1: u32 = data[at + 1] as u32;
    let b2: u32 = data[at + 2] as u32;
    let b3: u32 = data[at + 3] as u32;
    assert(data@.skip(at as int).skip(4) =~= data@.skip(at + 4));
    Some((b0 + b1 * 256 + b2 * 65536 + b3 * 16777216, at + 4))
}

/// Reads a `u64` of `data` at the index `at`.
pub fn read_u64(data: &[u8], at: usize) -> (got: Option<(u64, usize)>)
    ensures
        read_is(got, take_u64(data@.skip(at as int)), data@, at),
{
    if at > data.len() {
        return None;
    }
    proof {
        reveal(take_u64);
        reveal(take_u32);
    }
    if data.len() - at < 8 {
        return None;
    }
    let (lo, mid) = match read_u32(data, at) {
        Some(pair) => pair,
        None => { return None; },
    };
    let (hi, end) = match read_u32(data, mid) {
        Some(pair) => pair,
        None => { return None; },
    };
    assert(data@.skip(at as int).skip(4) =~= data@.skip(at + 4));
    assert(data@.skip(at as int).skip(8) =~= data@.skip(at + 8));
    Some(((lo as u64) + (hi as u64) * 0x1_0000_0000, end))
}

/// Reads an `i64` of `data` at the index `at`.
pub fn read_i64(data: &[u8], at: usize) -> (got: Option<(i64, usize)>)
    ensures
        read_is(got, take_i64(data@.skip(at as int)), data@, at),
{
    if at > data.len() {
        return None;
    }
    proof {
        reveal(take_i64);
        reveal(take_u64);
    }
    let (bits, end) = match read_u64(data, at) {
        Some(pair) => pair,
        None => { return None; },
    };
    let value: i64 = if bits < 0x8000_0000_0000_0000 {
        bits as i64
    } else {
        -((u64::MAX - bits) as i64) - 1
    };
    Some((value, end))
}

/// Reads an address of `data` at the index `at`.
pub fn read_key(data: &[u8], at: usize) -> (got: Option<(Pubkey, usize)>)
    ensures
        at > data@.len() ==> got is None,
        at <= data@.len() ==> match take_key(data@.skip(at as int)) {
            Some((bytes, rest)) => {
                &&& got matches Some((key, next))
                &&& key@ == bytes
                &&& next == at + 32 <= data@.len()
                &&& rest == data@.skip(next as int)
            },
            None => got is None,
        },
{
    if at > data.len() {
        return None;
    }
    proof {
        reveal(take_key);
    }
    if data.len() - at < 32 {
        return None;
    }
    let mut bytes: [u8; 32] = [0u8; 32];
    let mut i: usize = 0;
    while i < 32
        invariant
            i <= 32,
            at + 32 <= data@.len() <= usize::MAX,
            forall|j: int| 0 <= j < i ==> bytes[j] == data@[at + j],
        decreases 32 - i,
    {
        bytes[i] = data[at + i];
        i += 1;
    }
    assert(bytes@ =~= data@.skip(at as int).take(32));
    assert(data@.skip(at as int).skip(32) =~= data@.skip(at + 32));
    Some((Pubkey { bytes }, at + 32))
}

/// Calls `String::from_utf8`.
///
/// Trusted: the standard library makes a text of the bytes where they are
/// UTF-8, the text that they encode, and refuses them where they are not.
#[verifier::external_body]
fn string_from_utf8(bytes: Vec<u8>) -> (text: Option<String>)
    ensures
        text is Some == valid_utf8(bytes@),
        text matches Some(t) ==> t@ == decode_utf8(bytes@),
{
    String::from_utf8(bytes).ok()
}

/// Reads a text of `data` at the index `at`.
pub fn read_text(data: &[u8], at: usize) -> (got: Option<(String, usize)>)
    ensures
        at > data@.len() ==> got is None,
        at <= data@.len() ==> match take_text(data@.skip(at as int)) {
            Some((text, rest)) => {
                &&& got matches Some((read, next))
                &&& read@ == text
                &&& at <= next <= data@.len()
                &&& next == data@.len() - rest.len()
                &&& rest == data@.skip(next as int)
            },
            None => got is None,
        },
{
    if at > data.len() {
        return None;
    }
    proof {
        reveal(take_text);
        reveal(take_u32);
    }
    let (n, start) = match read_u32(data, at) {
        Some(pair) => pair,
        None => { return None; },
    };
    if data.len() - start < n as usize {
        return None;
    }
    let end: usize = start + n as usize;
    let body = slice_to_vec(slice_subrange(data, start, end));
    assert(body@ =~= data@.skip(at as int).subrange(4, 4 + n));
    assert(data@.skip(at as int).skip(4 + n) =~= data@.skip(end as int));
    match string_from_utf8(body) {
        Some(text) => Some((text, end)),
        None => None,
    }
}

} // verus!
