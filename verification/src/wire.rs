//! Primitive wire encodings: integers in a chosen byte order, fixed-size
//! hashes, NUL-terminated length-prefixed strings, count-prefixed sequences,
//! and the `WireFormat` trait that every encodable type implements.
use vstd::prelude::*;
use vstd::slice::slice_subrange;
use vstd::utf8::decode_utf8;
use vstd::utf8::encode_utf8;
use vstd::utf8::encode_utf8_decode_utf8;
use vstd::utf8::encode_utf8_valid_utf8;
use vstd::utf8::valid_utf8;

verus! {

/// Byte order of the multi-byte integers on the wire.
#[derive(Debug, Clone, Copy, PartialEq, Eq, Structural)]
pub enum Endianness {
    LittleEndian,
    BigEndian,
}

/// Why a value could not be read from a buffer.
#[derive(Debug, Clone, Copy, PartialEq, Eq, Structural)]
pub enum ReadError {
    /// The buffer ended before the value did.
    EndOfInput,
    /// The bytes of a string are not valid UTF-8.
    InvalidUtf8,
}

// ---------------------------------------------------------------------------
// Integers

/// The `u16` that two wire bytes encode.
pub open spec fn u16_from_bytes(b0: u8, b1: u8, e: Endianness) -> u16 {
    match e {
        Endianness::LittleEndian => (b0 + 0x100 * b1) as u16,
        Endianness::BigEndian => (b1 + 0x100 * b0) as u16,
    }
}

/// The `u32` that four wire bytes encode.
pub open spec fn u32_from_bytes(b0: u8, b1: u8, b2: u8, b3: u8, e: Endianness) -> u32 {
    match e {
        Endianness::LittleEndian => (b0 + 0x100 * b1 + 0x1_0000 * b2 + 0x100_0000 * b3) as u32,
        Endianness::BigEndian => (b3 + 0x100 * b2 + 0x1_0000 * b1 + 0x100_0000 * b0) as u32,
    }
}

/// The `i32` that four wire bytes encode (two's complement).
pub open spec fn i32_from_bytes(b0: u8, b1: u8, b2: u8, b3: u8, e: Endianness) -> i32 {
    u32_from_bytes(b0, b1, b2, b3, e) as i32
}

/// The two wire bytes of a `u16`.
pub open spec fn u16_to_bytes(v: u16, e: Endianness) -> Seq<u8> {
    let lo = (v % 0x100) as u8;
    let hi = (v / 0x100) as u8;
    match e {
        Endianness::LittleEndian => seq![lo, hi],
        Endianness::BigEndian => seq![hi, lo],
    }
}

/// The four wire bytes of a `u32`.
pub open spec fn u32_to_bytes(v: u32, e: Endianness) -> Seq<u8> {
    let b0 = (v % 0x100) as u8;
    let b1 = (v / 0x100 % 0x100) as u8;
    let b2 = (v / 0x1_0000 % 0x100) as u8;
    let b3 = (v / 0x100_0000) as u8;
    match e {
        Endianness::LittleEndian => seq![b0, b1, b2, b3],
        Endianness::BigEndian => seq![b3, b2, b1, b0],
    }
}

/// The four wire bytes of an `i32` (two's complement).
pub open spec fn i32_to_bytes(v: i32, e: Endianness) -> Seq<u8> {
    u32_to_bytes(v as u32, e)
}

/// Reading a `u8` at position `p` of `s`.
pub open spec fn spec_read_u8(s: Seq<u8>, p: int) -> Result<(u8, int), ReadError> {
    if 0 <= p && p + 1 <= s.len() {
        Ok((s[p], p + 1))
    } else {
        Err(ReadError::EndOfInput)
    }
}

/// Reading a `u16` at position `p` of `s`.
pub open spec fn spec_read_u16(s: Seq<u8>, p: int, e: Endianness) -> Result<(u16, int), ReadError> {
    if 0 <= p && p + 2 <= s.len() {
        Ok((u16_from_bytes(s[p], s[p + 1], e), p + 2))
    } else {
        Err(ReadError::EndOfInput)
    }
}

/// Reading a `u32` at position `p` of `s`.
pub open spec fn spec_read_u32(s: Seq<u8>, p: int, e: Endianness) -> Result<(u32, int), ReadError> {
    if 0 <= p && p + 4 <= s.len() {
        Ok((u32_from_bytes(s[p], s[p + 1], s[p + 2], s[p + 3], e), p + 4))
    } else {
        Err(ReadError::EndOfInput)
    }
}

/// Reading an `i32` at position `p` of `s`.
pub open spec fn spec_read_i32(s: Seq<u8>, p: int, e: Endianness) -> Result<(i32, int), ReadError> {
    if 0 <= p && p + 4 <= s.len() {
        Ok((i32_from_bytes(s[p], s[p + 1], s[p + 2], s[p + 3], e), p + 4))
    } else {
        Err(ReadError::EndOfInput)
    }
}

/// `w` stands in `s` from position `p` on.
pub open spec fn occurs_at(s: Seq<u8>, p: int, w: Seq<u8>) -> bool {
    &&& 0 <= p
    &&& p + w.len() <= s.len()
    &&& s.subrange(p, p + w.len()) == w
}

/// What an exec read returned agrees with what the spec reader gives:
/// the same value (by view) and end position, or the same error.
pub open spec fn read_agrees<T: View>(
    res: Result<(T, usize), ReadError>,
    spec: Result<(T::V, int), ReadError>,
) -> bool {
    match res {
        Ok((v, q)) => spec == Ok::<(T::V, int), ReadError>((v@, q as int)),
        Err(err) => spec == Err::<(T::V, int), ReadError>(err),
    }
}

/// A concatenation that occurs in `s` leaves each part occurring in turn.
pub proof fn lemma_occurs_split(s: Seq<u8>, p: int, a: Seq<u8>, b: Seq<u8>)
    requires
        occurs_at(s, p, a + b),
    ensures
        occurs_at(s, p, a),
        occurs_at(s, p + a.len(), b),
{
    assert(s.subrange(p, p + a.len()) =~= a) by {
        assert forall|i: int| 0 <= i < a.len() implies s.subrange(p, p + a.len())[i] == a[i] by {
            assert(s.subrange(p, p + (a + b).len())[i] == (a + b)[i]);
        }
    }
    assert(s.subrange(p + a.len(), p + a.len() + b.len()) =~= b) by {
        assert forall|i: int| 0 <= i < b.len() implies s.subrange(
            p + a.len(),
            p + a.len() + b.len(),
        )[i] == b[i] by {
            assert(s.subrange(p, p + (a + b).len())[a.len() + i] == (a + b)[a.len() + i]);
        }
    }
}

/// The bytes of an occurrence are those of the sequence.
pub proof fn lemma_occurs_byte(s: Seq<u8>, p: int, w: Seq<u8>, i: int)
    requires
        occurs_at(s, p, w),
        0 <= i < w.len(),
    ensures
        s[p + i] == w[i],
{
    assert(s.subrange(p, p + w.len())[i] == s[p + i]);
}

/// Any sequence occurs at the start of itself.
pub proof fn lemma_occurs_whole(w: Seq<u8>)
    ensures
        occurs_at(w, 0, w),
{
    assert(w.subrange(0, w.len() as int) =~= w);
}

/// A written `u16` reads back.
pub proof fn lemma_u16_write_read(s: Seq<u8>, p: int, v: u16, e: Endianness)
    requires
        occurs_at(s, p, u16_to_bytes(v, e)),
    ensures
        spec_read_u16(s, p, e) == Ok::<(u16, int), ReadError>((v, p + 2)),
{
    let w = u16_to_bytes(v, e);
    assert(s[p] == w[0] && s[p + 1] == w[1]) by {
        assert(s.subrange(p, p + 2)[0] == w[0]);
        assert(s.subrange(p, p + 2)[1] == w[1]);
    }
}

/// A written `u32` reads back.
pub proof fn lemma_u32_write_read(s: Seq<u8>, p: int, v: u32, e: Endianness)
    requires
        occurs_at(s, p, u32_to_bytes(v, e)),
    ensures
        spec_read_u32(s, p, e) == Ok::<(u32, int), ReadError>((v, p + 4)),
{
    let w = u32_to_bytes(v, e);
    assert(s[p] == w[0] && s[p + 1] == w[1] && s[p + 2] == w[2] && s[p + 3] == w[3]) by {
        assert(s.subrange(p, p + 4)[0] == w[0]);
        assert(s.subrange(p, p + 4)[1] == w[1]);
        assert(s.subrange(p, p + 4)[2] == w[2]);
        assert(s.subrange(p, p + 4)[3] == w[3]);
    }
    let b0 = (v % 0x100) as u8;
    let b1 = (v / 0x100 % 0x100) as u8;
    let b2 = (v / 0x1_0000 % 0x100) as u8;
    let b3 = (v / 0x100_0000) as u8;
    assert(b0 + 0x100 * b1 + 0x1_0000 * b2 + 0x100_0000 * b3 == v) by (nonlinear_arith)
        requires
            b0 == v % 0x100,
            b1 == v / 0x100 % 0x100,
            b2 == v / 0x1_0000 % 0x100,
            b3 == v / 0x100_0000,
    ;
}

/// A written `i32` reads back.
pub proof fn lemma_i32_write_read(s: Seq<u8>, p: int, v: i32, e: Endianness)
    requires
        occurs_at(s, p, i32_to_bytes(v, e)),
    ensures
        spec_read_i32(s, p, e) == Ok::<(i32, int), ReadError>((v, p + 4)),
{
    lemma_u32_write_read(s, p, v as u32, e);
    assert((v as u32) as i32 == v) by (bit_vector);
}

// Exec readers. The multi-byte conversions are speedy's own.
/// Calls `speedy::Endianness::read_u16`, which interprets a two-byte slice
/// in the given byte order; claimed: the result is `u16_from_bytes`.
#[verifier::external_body]
fn endian_read_u16(e: Endianness, b0: u8, b1: u8) -> (v: u16)
    ensures
        v == u16_from_bytes(b0, b1, e),
{
    let endianness = match e {
        Endianness::LittleEndian => speedy::Endianness::LittleEndian,
        Endianness::BigEndian => speedy::Endianness::BigEndian,
    };
    endianness.read_u16(&[b0, b1])
}

/// Calls `speedy::Endianness::read_u32`, which interprets a four-byte slice
/// in the given byte order; claimed: the result is `u32_from_bytes`.
#[verifier::external_body]
fn endian_read_u32(e: Endianness, b0: u8, b1: u8, b2: u8, b3: u8) -> (v: u32)
    ensures
        v == u32_from_bytes(b0, b1, b2, b3, e),
{
    let endianness = match e {
        Endianness::LittleEndian => speedy::Endianness::LittleEndian,
        Endianness::BigEndian => speedy::Endianness::BigEndian,
    };
    endianness.read_u32(&[b0, b1, b2, b3])
}

/// Calls `speedy::Endianness::read_i32`, which interprets a four-byte slice
/// in the given byte order as a two's complement integer; claimed: the
/// result is `i32_from_bytes`.
#[verifier::external_body]
fn endian_read_i32(e: Endianness, b0: u8, b1: u8, b2: u8, b3: u8) -> (v: i32)
    ensures
        v == i32_from_bytes(b0, b1, b2, b3, e),
{
    let endianness = match e {
        Endianness::LittleEndian => speedy::Endianness::LittleEndian,
        Endianness::BigEndian => speedy::Endianness::BigEndian,
    };
    endianness.read_i32(&[b0, b1, b2, b3])
}

/// Reads a `u8` at `pos`.
pub fn read_u8(buf: &[u8], pos: usize) -> (res: Result<(u8, usize), ReadError>)
    ensures
        read_agrees(res, spec_read_u8(buf@, pos as int)),
{
    if pos < buf.len() {
        Ok((buf[pos], pos + 1))
    } else {
        Err(ReadError::EndOfInput)
    }
}

/// Reads a `u16` at `pos`.
pub fn read_u16(buf: &[u8], pos: usize, e: Endianness) -> (res: Result<(u16, usize), ReadError>)
    ensures
        read_agrees(res, spec_read_u16(buf@, pos as int, e)),
{
    if pos <= buf.len() && buf.len() - pos >= 2 {
        Ok((endian_read_u16(e, buf[pos], buf[pos + 1]), pos + 2))
    } else {
        Err(ReadError::EndOfInput)
    }
}

/// Reads a `u32` at `pos`.
pub fn read_u32(buf: &[u8], pos: usize, e: Endianness) -> (res: Result<(u32, usize), ReadError>)
    ensures
        read_agrees(res, spec_read_u32(buf@, pos as int, e)),
{
    if pos <= buf.len() && buf.len() - pos >= 4 {
        Ok((endian_read_u32(e, buf[pos], buf[pos + 1], buf[pos + 2], buf[pos + 3]), pos + 4))
    } else {
        Err(ReadError::EndOfInput)
    }
}

/// Reads an `i32` at `pos`.
pub fn read_i32(buf: &[u8], pos: usize, e: Endianness) -> (res: Result<(i32, usize), ReadError>)
    ensures
        read_agrees(res, spec_read_i32(buf@, pos as int, e)),
{
    if pos <= buf.len() && buf.len() - pos >= 4 {
        Ok((endian_read_i32(e, buf[pos], buf[pos + 1], buf[pos + 2], buf[pos + 3]), pos + 4))
    } else {
        Err(ReadError::EndOfInput)
    }
}

/// Appends a `u8`.
pub fn write_u8(v: u8, out: &mut Vec<u8>)
    ensures
        final(out)@ == old(out)@ + seq![v],
{
    out.push(v);
}

/// Appends the two wire bytes of a `u16`.
pub fn write_u16(v: u16, e: Endianness, out: &mut Vec<u8>)
    ensures
        final(out)@ == old(out)@ + u16_to_bytes(v, e),
{
    let lo = (v % 0x100) as u8;
    let hi = (v / 0x100) as u8;
    match e {
        Endianness::LittleEndian => {
            out.push(lo);
            out.push(hi);
        },
        Endianness::BigEndian => {
            out.push(hi);
            out.push(lo);
        },
    }
    assert(out@ =~= old(out)@ + u16_to_bytes(v, e));
}

/// Appends the four wire bytes of a `u32`.
pub fn write_u32(v: u32, e: Endianness, out: &mut Vec<u8>)
    ensures
        final(out)@ == old(out)@ + u32_to_bytes(v, e),
{
    let b0 = (v % 0x100) as u8;
    let b1 = (v / 0x100 % 0x100) as u8;
    let b2 = (v / 0x1_0000 % 0x100) as u8;
    let b3 = (v / 0x100_0000) as u8;
    match e {
        Endianness::LittleEndian => {
            out.push(b0);
            out.push(b1);
            out.push(b2);
            out.push(b3);
        },
        Endianness::BigEndian => {
            out.push(b3);
            out.push(b2);
            out.push(b1);
            out.push(b0);
        },
    }
    assert(out@ =~= old(out)@ + u32_to_bytes(v, e));
}

/// Appends the four wire bytes of an `i32`.
pub fn write_i32(v: i32, e: Endianness, out: &mut Vec<u8>)
    ensures
        final(out)@ == old(out)@ + i32_to_bytes(v, e),
{
    write_u32(v as u32, e, out);
}

// ---------------------------------------------------------------------------
// Byte runs, hashes and strings

/// Appends every byte of `bytes`.
pub fn write_bytes(bytes: &[u8], out: &mut Vec<u8>)
    ensures
        final(out)@ == old(out)@ + bytes@,
{
    let n = bytes.len();
    let mut i: usize = 0;
    while i < n
        invariant
            n == bytes@.len(),
            i <= n,
            out@ == old(out)@ + bytes@.take(i as int),
        decreases n - i,
    {
        out.push(bytes[i]);
        i = i + 1;
        assert(bytes@.take(i as int) =~= bytes@.take(i - 1 as int).push(bytes@[i - 1]));
    }
    assert(bytes@.take(n as int) =~= bytes@);
}

/// Reading a 14-byte equivalence hash at position `p` of `s`.
pub open spec fn spec_read_hash(s: Seq<u8>, p: int) -> Result<(Seq<u8>, int), ReadError> {
    if 0 <= p && p + 14 <= s.len() {
        Ok((s.subrange(p, p + 14), p + 14))
    } else {
        Err(ReadError::EndOfInput)
    }
}

/// Reads a 14-byte equivalence hash at `pos`.
pub fn read_hash(buf: &[u8], pos: usize) -> (res: Result<([u8; 14], usize), ReadError>)
    ensures
        read_agrees(res, spec_read_hash(buf@, pos as int)),
{
    if pos <= buf.len() && buf.len() - pos >= 14 {
        let hash: [u8; 14] = [
            buf[pos],
            buf[pos + 1],
            buf[pos + 2],
            buf[pos + 3],
            buf[pos + 4],
            buf[pos + 5],
            buf[pos + 6],
            buf[pos + 7],
            buf[pos + 8],
            buf[pos + 9],
            buf[pos + 10],
            buf[pos + 11],
            buf[pos + 12],
            buf[pos + 13],
        ];
        assert(hash@ =~= buf@.subrange(pos as int, pos + 14));
        Ok((hash, pos + 14))
    } else {
        Err(ReadError::EndOfInput)
    }
}

/// Appends the 14 bytes of an equivalence hash.
pub fn write_hash(hash: &[u8; 14], out: &mut Vec<u8>)
    ensures
        final(out)@ == old(out)@ + hash@,
{
    let mut i: usize = 0;
    while i < 14
        invariant
            i <= 14,
            hash@.len() == 14,
            out@ == old(out)@ + hash@.take(i as int),
        decreases 14 - i,
    {
        out.push(hash[i]);
        i = i + 1;
        assert(hash@.take(i as int) =~= hash@.take(i - 1 as int).push(hash@[i - 1]));
    }
    assert(hash@.take(14) =~= hash@);
}

/// The text bytes of a string field: its bytes without the terminating NUL,
/// where the last byte is one.
pub open spec fn string_text(bytes: Seq<u8>) -> Seq<u8> {
    if bytes.len() > 0 && bytes.last() == 0 {
        bytes.drop_last()
    } else {
        bytes
    }
}

/// Reading a string field at position `p` of `s`: a `u32` length, then that
/// many bytes, which hold UTF-8 text followed by a NUL.
#[verifier::opaque]
pub open spec fn spec_read_string(s: Seq<u8>, p: int, e: Endianness) -> Result<
    (Seq<char>, int),
    ReadError,
> {
    match spec_read_u32(s, p, e) {
        Err(err) => Err(err),
        Ok((len, q)) => if q + len > s.len() {
            Err(ReadError::EndOfInput)
        } else {
            let text = string_text(s.subrange(q, q + len));
            if valid_utf8(text) {
                Ok((decode_utf8(text), q + len))
            } else {
                Err(ReadError::InvalidUtf8)
            }
        },
    }
}

/// The length field of a string: its UTF-8 length plus the NUL, modulo 2^32.
pub open spec fn string_length_field(chars: Seq<char>) -> u32 {
    ((encode_utf8(chars).len() + 1) % 0x1_0000_0000) as u32
}

/// The wire bytes of a string field.
#[verifier::opaque]
pub open spec fn spec_write_string(chars: Seq<char>, e: Endianness) -> Seq<u8> {
    u32_to_bytes(string_length_field(chars), e) + encode_utf8(chars) + seq![0u8]
}

/// A string reads back as written when its length field does not wrap.
pub open spec fn string_lossless(chars: Seq<char>) -> bool {
    encode_utf8(chars).len() + 1 <= u32::MAX
}

/// Calls `core::str::from_utf8`, which accepts exactly the valid UTF-8 byte
/// sequences and then returns the text that they encode; claimed: `Some`
/// iff the bytes are valid UTF-8, and then the text's bytes are the input.
#[verifier::external_body]
fn utf8_text(bytes: &[u8]) -> (res: Option<&str>)
    ensures
        res is Some <==> valid_utf8(bytes@),
        res matches Some(text) ==> encode_utf8(text@) == bytes@,
{
    core::str::from_utf8(bytes).ok()
}

/// Reads a string field at `pos`.
pub fn read_string(buf: &[u8], pos: usize, e: Endianness) -> (res: Result<(String, usize), ReadError>)
    ensures
        read_agrees(res, spec_read_string(buf@, pos as int, e)),
        res matches Ok((_, q)) ==> pos <= q <= buf@.len(),
{
    proof {
        reveal(spec_read_string);
    }
    let (len, q) = match read_u32(buf, pos, e) {
        Ok(r) => r,
        Err(err) => return Err(err),
    };
    let len = len as usize;
    if buf.len() - q < len {
        return Err(ReadError::EndOfInput);
    }
    let end = q + len;
    let text_end = if len > 0 && buf[end - 1] == 0 {
        end - 1
    } else {
        end
    };
    let text = slice_subrange(buf, q, text_end);
    proof {
        let field = buf@.subrange(q as int, end as int);
        assert(text@ =~= string_text(field));
    }
    match utf8_text(text) {
        Some(t) => {
            proof {
                encode_utf8_decode_utf8(t@);
            }
            Ok((t.to_owned(), end))
        },
        None => Err(ReadError::InvalidUtf8),
    }
}

/// The length field of a string with `n` UTF-8 bytes.
fn string_length_value(n: usize) -> (field: u32)
    ensures
        field == ((n + 1) % 0x1_0000_0000) as u32,
{
    if n < 0xFFFF_FFFF {
        n as u32 + 1
    } else {
        let m: u64 = n as u64 - 0xFFFF_FFFF;
        assert((n + 1) % 0x1_0000_0000 == m % 0x1_0000_0000) by (nonlinear_arith)
            requires
                m == n - 0xFFFF_FFFF,
        ;
        (m % 0x1_0000_0000) as u32
    }
}

/// Appends a string field.
pub fn write_string(s: &String, e: Endianness, out: &mut Vec<u8>)
    ensures
        final(out)@ == old(out)@ + spec_write_string(s@, e),
{
    let bytes = s.as_str().as_bytes();
    assert(bytes@ == encode_utf8(s@));
    let field = string_length_value(bytes.len());
    assert(field == string_length_field(s@));
    write_u32(field, e, out);
    let ghost head = out@;
    write_bytes(bytes, out);
    out.push(0u8);
    assert(out@ =~= head + (bytes@ + seq![0u8]));
    reveal(spec_write_string);
    assert(spec_write_string(s@, e) =~= u32_to_bytes(field, e) + (bytes@ + seq![0u8]));
}

/// A written string field reads back.
pub proof fn lemma_string_write_read(s: Seq<u8>, p: int, chars: Seq<char>, e: Endianness)
    requires
        string_lossless(chars),
        occurs_at(s, p, spec_write_string(chars, e)),
    ensures
        spec_read_string(s, p, e) == Ok::<(Seq<char>, int), ReadError>(
            (chars, p + spec_write_string(chars, e).len()),
        ),
{
    reveal(spec_read_string);
    reveal(spec_write_string);
    let body = encode_utf8(chars);
    let len = string_length_field(chars);
    assert(spec_write_string(chars, e) =~= u32_to_bytes(len, e) + (body + seq![0u8]));
    lemma_occurs_split(s, p, u32_to_bytes(len, e), body + seq![0u8]);
    lemma_u32_write_read(s, p, len, e);
    assert(len == body.len() + 1);
    let q = p + 4;
    assert(s.subrange(q, q + len) == body + seq![0u8]);
    assert(string_text(body + seq![0u8]) =~= body);
    encode_utf8_valid_utf8(chars);
    encode_utf8_decode_utf8(chars);
}

// ---------------------------------------------------------------------------
// Encodable types

/// The views of a sequence of values.
pub open spec fn views<T: View>(vs: Seq<T>) -> Seq<T::V> {
    vs.map_values(|v: T| v@)
}

/// A type with a wire encoding. `spec_read` and `spec_write` state the
/// encoding over the type's view; `read_from` and `write_to` implement it.
pub trait WireFormat: View + Sized {
    /// Reading a value at position `p` of `s`: the value and the position
    /// after it, or why the bytes there hold none.
    spec fn spec_read(s: Seq<u8>, p: int, e: Endianness) -> Result<(Self::V, int), ReadError>;

    /// The bytes that encode `v`.
    spec fn spec_write(v: Self::V, e: Endianness) -> Seq<u8>;

    /// `v` reads back as itself from its encoding.
    spec fn spec_lossless(v: Self::V) -> bool;

    /// What is written reads back: wherever the encoding of a lossless value
    /// stands in a buffer, reading there yields the value and ends right
    /// after the encoding, whatever follows.
    proof fn lemma_write_read(v: Self::V, s: Seq<u8>, p: int, e: Endianness)
        requires
            Self::spec_lossless(v),
            occurs_at(s, p, Self::spec_write(v, e)),
        ensures
            Self::spec_read(s, p, e) == Ok::<(Self::V, int), ReadError>(
                (v, p + Self::spec_write(v, e).len()),
            ),
    ;

    /// Reads a value at `pos` of `buf`; on success, also the position after it.
    fn read_from(buf: &[u8], pos: usize, endian: Endianness) -> (res: Result<(Self, usize), ReadError>)
        requires
            pos <= buf@.len(),
        ensures
            read_agrees(res, Self::spec_read(buf@, pos as int, endian)),
            res matches Ok((_, q)) ==> pos <= q <= buf@.len(),
    ;

    /// Appends the encoding of `self` to `out`.
    fn write_to(&self, endian: Endianness, out: &mut Vec<u8>)
        ensures
            final(out)@ == old(out)@ + Self::spec_write(self@, endian),
    ;

    /// Reads a value from the start of `buf`; bytes after it are ignored.
    fn read_from_buffer_with_ctx(endian: Endianness, buf: &[u8]) -> (res: Result<Self, ReadError>)
        ensures
            match Self::spec_read(buf@, 0, endian) {
                Ok((v, _)) => res matches Ok(x) && x@ == v,
                Err(err) => res == Err::<Self, ReadError>(err),
            },
    {
        match Self::read_from(buf, 0, endian) {
            Ok((v, _)) => Ok(v),
            Err(err) => Err(err),
        }
    }

    /// The encoding of `self` as a new vector.
    fn write_to_vec_with_ctx(&self, endian: Endianness) -> (res: Vec<u8>)
        ensures
            res@ == Self::spec_write(self@, endian),
    {
        let mut out: Vec<u8> = Vec::new();
        self.write_to(endian, &mut out);
        assert(out@ =~= Self::spec_write(self@, endian));
        out
    }
}

impl WireFormat for u32 {
    open spec fn spec_read(s: Seq<u8>, p: int, e: Endianness) -> Result<(u32, int), ReadError> {
        spec_read_u32(s, p, e)
    }

    open spec fn spec_write(v: u32, e: Endianness) -> Seq<u8> {
        u32_to_bytes(v, e)
    }

    open spec fn spec_lossless(v: u32) -> bool {
        true
    }

    proof fn lemma_write_read(v: u32, s: Seq<u8>, p: int, e: Endianness) {
        lemma_u32_write_read(s, p, v, e);
    }

    fn read_from(buf: &[u8], pos: usize, endian: Endianness) -> (res: Result<(u32, usize), ReadError>) {
        read_u32(buf, pos, endian)
    }

    fn write_to(&self, endian: Endianness, out: &mut Vec<u8>) {
        write_u32(*self, endian, out);
    }
}

impl WireFormat for i32 {
    open spec fn spec_read(s: Seq<u8>, p: int, e: Endianness) -> Result<(i32, int), ReadError> {
        spec_read_i32(s, p, e)
    }

    open spec fn spec_write(v: i32, e: Endianness) -> Seq<u8> {
        i32_to_bytes(v, e)
    }

    open spec fn spec_lossless(v: i32) -> bool {
        true
    }

    proof fn lemma_write_read(v: i32, s: Seq<u8>, p: int, e: Endianness) {
        lemma_i32_write_read(s, p, v, e);
    }

    fn read_from(buf: &[u8], pos: usize, endian: Endianness) -> (res: Result<(i32, usize), ReadError>) {
        read_i32(buf, pos, endian)
    }

    fn write_to(&self, endian: Endianness, out: &mut Vec<u8>) {
        write_i32(*self, endian, out);
    }
}

// ---------------------------------------------------------------------------
// Sequences of encodable values

/// Reading `n` values one after another from position `p` of `s`.
pub open spec fn spec_read_seq<T: WireFormat>(s: Seq<u8>, p: int, n: nat, e: Endianness) -> Result<
    (Seq<T::V>, int),
    ReadError,
>
    decreases n,
{
    if n == 0 {
        Ok((seq![], p))
    } else {
        match spec_read_seq::<T>(s, p, (n - 1) as nat, e) {
            Ok((vs, q)) => match T::spec_read(s, q, e) {
                Ok((v, r)) => Ok((vs.push(v), r)),
                Err(err) => Err(err),
            },
            Err(err) => Err(err),
        }
    }
}

/// The encodings of `vs`, one after another.
pub open spec fn spec_write_seq<T: WireFormat>(vs: Seq<T::V>, e: Endianness) -> Seq<u8>
    decreases vs.len(),
{
    if vs.len() == 0 {
        seq![]
    } else {
        spec_write_seq::<T>(vs.drop_last(), e) + T::spec_write(vs.last(), e)
    }
}

/// Every value of `vs` is lossless.
pub open spec fn all_lossless<T: WireFormat>(vs: Seq<T::V>) -> bool {
    forall|i: int| 0 <= i < vs.len() ==> T::spec_lossless(#[trigger] vs[i])
}

/// Once reading a run of values fails, reading a longer run fails the same way.
pub proof fn lemma_read_seq_error_persists<T: WireFormat>(
    s: Seq<u8>,
    p: int,
    k: nat,
    n: nat,
    e: Endianness,
)
    requires
        k <= n,
        spec_read_seq::<T>(s, p, k, e) is Err,
    ensures
        spec_read_seq::<T>(s, p, n, e) == spec_read_seq::<T>(s, p, k, e),
    decreases n,
{
    if n > k {
        lemma_read_seq_error_persists::<T>(s, p, k, (n - 1) as nat, e);
    }
}

/// A written run of values reads back.
pub proof fn lemma_seq_write_read<T: WireFormat>(vs: Seq<T::V>, s: Seq<u8>, p: int, e: Endianness)
    requires
        all_lossless::<T>(vs),
        occurs_at(s, p, spec_write_seq::<T>(vs, e)),
    ensures
        spec_read_seq::<T>(s, p, vs.len(), e) == Ok::<(Seq<T::V>, int), ReadError>(
            (vs, p + spec_write_seq::<T>(vs, e).len()),
        ),
    decreases vs.len(),
{
    if vs.len() > 0 {
        let init = vs.drop_last();
        lemma_occurs_split(s, p, spec_write_seq::<T>(init, e), T::spec_write(vs.last(), e));
        assert(all_lossless::<T>(init)) by {
            assert forall|i: int| 0 <= i < init.len() implies T::spec_lossless(#[trigger] init[i]) by {
                assert(init[i] == vs[i]);
            }
        }
        lemma_seq_write_read::<T>(init, s, p, e);
        assert(T::spec_lossless(vs[vs.len() - 1]));
        T::lemma_write_read(vs.last(), s, p + spec_write_seq::<T>(init, e).len(), e);
        assert(init.push(vs.last()) =~= vs);
    } else {
        assert(vs =~= seq![]);
    }
}

/// Reads `n` values one after another from `pos`.
pub fn read_seq<T: WireFormat>(buf: &[u8], pos: usize, n: u32, e: Endianness) -> (res: Result<
    (Vec<T>, usize),
    ReadError,
>)
    requires
        pos <= buf@.len(),
    ensures
        match res {
            Ok((vs, q)) => spec_read_seq::<T>(buf@, pos as int, n as nat, e) == Ok::<
                (Seq<T::V>, int),
                ReadError,
            >((views(vs@), q as int)) && pos <= q <= buf@.len(),
            Err(err) => spec_read_seq::<T>(buf@, pos as int, n as nat, e) == Err::<
                (Seq<T::V>, int),
                ReadError,
            >(err),
        },
{
    let mut vs: Vec<T> = Vec::new();
    let mut q = pos;
    let mut i: u32 = 0;
    assert(views(vs@) =~= seq![]);
    while i < n
        invariant
            i <= n,
            pos <= q <= buf@.len(),
            spec_read_seq::<T>(buf@, pos as int, i as nat, e) == Ok::<(Seq<T::V>, int), ReadError>(
                (views(vs@), q as int),
            ),
        decreases n - i,
    {
        match T::read_from(buf, q, e) {
            Ok((v, r)) => {
                let ghost before = vs@;
                vs.push(v);
                assert(views(vs@) =~= views(before).push(v@));
                q = r;
                i = i + 1;
            },
            Err(err) => {
                proof {
                    lemma_read_seq_error_persists::<T>(buf@, pos as int, (i + 1) as nat, n as nat, e);
                }
                return Err(err);
            },
        }
    }
    Ok((vs, q))
}

/// Appends the encodings of `vs`, one after another.
pub fn write_seq<T: WireFormat>(vs: &Vec<T>, e: Endianness, out: &mut Vec<u8>)
    ensures
        final(out)@ == old(out)@ + spec_write_seq::<T>(views(vs@), e),
{
    let n = vs.len();
    let mut i: usize = 0;
    assert(views(vs@).take(0) =~= seq![]);
    while i < n
        invariant
            n == vs@.len(),
            i <= n,
            out@ == old(out)@ + spec_write_seq::<T>(views(vs@).take(i as int), e),
        decreases n - i,
    {
        let ghost before = out@;
        vs[i].write_to(e, out);
        let ghost taken = views(vs@).take(i + 1 as int);
        assert(taken.drop_last() =~= views(vs@).take(i as int));
        assert(taken.last() == vs@[i as int]@);
        assert(out@ =~= old(out)@ + spec_write_seq::<T>(taken, e));
        i = i + 1;
    }
    assert(views(vs@).take(n as int) =~= views(vs@));
}

/// The encoding of a prefix of a run is no longer than that of a longer prefix.
pub proof fn lemma_write_seq_prefix_len<T: WireFormat>(vs: Seq<T::V>, i: int, j: int, e: Endianness)
    requires
        0 <= i <= j <= vs.len(),
    ensures
        spec_write_seq::<T>(vs.take(i), e).len() <= spec_write_seq::<T>(vs.take(j), e).len(),
    decreases j,
{
    if i < j {
        assert(vs.take(j).drop_last() =~= vs.take(j - 1));
        lemma_write_seq_prefix_len::<T>(vs, i, j - 1, e);
    }
}

/// The encoding of the first `i + 1` values is that of the first `i`
/// followed by that of value `i`.
pub proof fn lemma_write_seq_step<T: WireFormat>(vs: Seq<T::V>, i: int, e: Endianness)
    requires
        0 <= i < vs.len(),
    ensures
        spec_write_seq::<T>(vs.take(i + 1), e) == spec_write_seq::<T>(vs.take(i), e) + T::spec_write(
            vs[i],
            e,
        ),
{
    assert(vs.take(i + 1).drop_last() =~= vs.take(i));
}

/// What is written reads back: reading the encoding of a lossless value
/// yields the value and consumes the whole encoding.
pub proof fn lemma_encoding_reads_back<T: WireFormat>(v: T::V, e: Endianness)
    requires
        T::spec_lossless(v),
    ensures
        T::spec_read(T::spec_write(v, e), 0, e) == Ok::<(T::V, int), ReadError>(
            (v, T::spec_write(v, e).len() as int),
        ),
{
    lemma_occurs_whole(T::spec_write(v, e));
    T::lemma_write_read(v, T::spec_write(v, e), 0, e);
}

/// What is written reads back whatever follows it: reading a lossless
/// value's encoding followed by other bytes yields the value and stops right
/// after its encoding.
pub proof fn lemma_encoding_reads_back_before<T: WireFormat>(v: T::V, rest: Seq<u8>, e: Endianness)
    requires
        T::spec_lossless(v),
    ensures
        T::spec_read(T::spec_write(v, e) + rest, 0, e) == Ok::<(T::V, int), ReadError>(
            (v, T::spec_write(v, e).len() as int),
        ),
{
    let w = T::spec_write(v, e);
    assert((w + rest).subrange(0, w.len() as int) =~= w);
    T::lemma_write_read(v, w + rest, 0, e);
}

/// Reading a run of `n` values yields `n` values.
pub proof fn lemma_read_seq_len<T: WireFormat>(s: Seq<u8>, p: int, n: nat, e: Endianness)
    ensures
        spec_read_seq::<T>(s, p, n, e) matches Ok((vs, _)) ==> vs.len() == n,
    decreases n,
{
    if n > 0 {
        lemma_read_seq_len::<T>(s, p, (n - 1) as nat, e);
    }
}

/// Reading a run of `n` values yields `n` values, for every run.
pub proof fn lemma_read_seq_lengths<T: WireFormat>()
    ensures
        forall|s: Seq<u8>, p: int, n: nat, e: Endianness|
            match #[trigger] spec_read_seq::<T>(s, p, n, e) {
                Ok((vs, _)) => vs.len() == n,
                Err(_) => true,
            },
{
    assert forall|s: Seq<u8>, p: int, n: nat, e: Endianness|
        match #[trigger] spec_read_seq::<T>(s, p, n, e) {
            Ok((vs, _)) => vs.len() == n,
            Err(_) => true,
        } by {
        lemma_read_seq_len::<T>(s, p, n, e);
    }
}

// ---------------------------------------------------------------------------
// Laws on the primitive layouts

/// Little-endian order puts the least significant byte first, and
/// big-endian order is its reverse.
pub proof fn lemma_byte_orders(x: u16, y: u32)
    ensures
        u16_to_bytes(x, Endianness::LittleEndian)[0] == x % 0x100,
        u16_to_bytes(x, Endianness::BigEndian) == u16_to_bytes(x, Endianness::LittleEndian).reverse(),
        u32_to_bytes(y, Endianness::LittleEndian)[0] == y % 0x100,
        u32_to_bytes(y, Endianness::LittleEndian)[3] == y / 0x100_0000,
        u32_to_bytes(y, Endianness::BigEndian) == u32_to_bytes(y, Endianness::LittleEndian).reverse(),
        u16_from_bytes(1, 0, Endianness::LittleEndian) == 1,
        u16_from_bytes(1, 0, Endianness::BigEndian) == 0x100,
        u32_from_bytes(1, 0, 0, 0, Endianness::LittleEndian) == 1,
        u32_from_bytes(1, 0, 0, 0, Endianness::BigEndian) == 0x100_0000,
{
    assert(u16_to_bytes(x, Endianness::BigEndian) =~= u16_to_bytes(x, Endianness::LittleEndian).reverse());
    assert(u32_to_bytes(y, Endianness::BigEndian) =~= u32_to_bytes(y, Endianness::LittleEndian).reverse());
}

/// A string field is written as its length (the UTF-8 length plus one) as a
/// `u32`, its UTF-8 bytes, then a NUL.
pub proof fn lemma_string_layout(chars: Seq<char>, e: Endianness)
    ensures
        ({
            let w = spec_write_string(chars, e);
            let n = encode_utf8(chars).len();
            &&& w.len() == 4 + n + 1
            &&& w.subrange(0, 4) == u32_to_bytes(((n + 1) % 0x1_0000_0000) as u32, e)
            &&& w.subrange(4, 4 + n as int) == encode_utf8(chars)
            &&& w[4 + n as int] == 0
        }),
{
    reveal(spec_write_string);
    let w = spec_write_string(chars, e);
    let n = encode_utf8(chars).len();
    assert(w.subrange(0, 4) =~= u32_to_bytes(((n + 1) % 0x1_0000_0000) as u32, e));
    assert(w.subrange(4, 4 + n as int) =~= encode_utf8(chars));
}

/// What a read of a string field yields: the text whose UTF-8 bytes are the
/// bytes after the `u32` length, up to that length, less one trailing NUL;
/// the read ends after those bytes.
pub proof fn lemma_string_read(s: Seq<u8>, p: int, e: Endianness)
    requires
        0 <= p,
    ensures
        spec_read_string(s, p, e) matches Ok((chars, q)) ==> {
            let len = u32_from_bytes(s[p], s[p + 1], s[p + 2], s[p + 3], e);
            let field = s.subrange(p + 4, q);
            &&& p + 4 <= s.len()
            &&& q == p + 4 + len
            &&& q <= s.len()
            &&& (if len > 0 && s[q - 1] == 0 {
                encode_utf8(chars) == field.drop_last()
            } else {
                encode_utf8(chars) == field
            })
        },
{
    reveal(spec_read_string);
    if let Ok((chars, q)) = spec_read_string(s, p, e) {
        let len = u32_from_bytes(s[p], s[p + 1], s[p + 2], s[p + 3], e);
        let field = s.subrange(p + 4, q);
        let text = string_text(field);
        vstd::utf8::decode_utf8_encode_utf8(text);
        if len > 0 {
            assert(field.last() == s[q - 1]);
        }
    }
}

} // verus!
