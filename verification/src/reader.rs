//! Inbound half of the codec: a cursor over the bytes of one payload, with
//! the fixed-width, string and variable-length decodings of the wire format.

use crate::writer::{be_bytes_u32, bits32, string_field, vint_bytes, MAX_STRING_BYTES};
use bytes::Buf;
use vstd::prelude::*;
use vstd::std_specs::convert::FromSpecImpl;
use vstd::utf8::{
    decode_utf8, encode_utf8, encode_utf8_decode_utf8, encode_utf8_valid_utf8, valid_utf8,
};

verus! {

/// `bytes::Bytes`, the buffer that a reader reads from. What it holds is
/// spoken of through [`bytes_contents`] only.
#[verifier::external_type_specification]
#[verifier::external_body]
pub struct ExBytes(bytes::Bytes);

/// `std::string::FromUtf8Error`, the error of `String::from_utf8`. It is
/// carried through as it is.
#[verifier::external_type_specification]
#[verifier::external_body]
pub struct ExFromUtf8Error(std::string::FromUtf8Error);

/// `std::io::Error`. It is carried through as it is.
#[verifier::external_type_specification]
#[verifier::external_body]
pub struct ExIoError(std::io::Error);

/// The bytes that a buffer holds, from its cursor to its end.
pub uninterp spec fn bytes_contents(buf: bytes::Bytes) -> Seq<u8>;

/// `bytes::Bytes::from` for a vector: the buffer holds the vector's bytes.
#[verifier::external_body]
pub(crate) fn bytes_from_vec(data: Vec<u8>) -> (buf: bytes::Bytes)
    ensures
        bytes_contents(buf) == data@,
{
    bytes::Bytes::from(data)
}

/// `Buf::remaining` of a `Bytes`: the number of bytes from the cursor to the end.
#[verifier::external_body]
fn bytes_remaining(buf: &bytes::Bytes) -> (n: usize)
    ensures
        n == bytes_contents(*buf).len(),
{
    buf.remaining()
}

/// `Buf::chunk` of a `Bytes`: all the bytes from the cursor to the end, in
/// one piece, since a `Bytes` is contiguous.
#[verifier::external_body]
fn bytes_chunk(buf: &bytes::Bytes) -> (chunk: &[u8])
    ensures
        chunk@ == bytes_contents(*buf),
{
    buf.chunk()
}

/// `Buf::get_u8`: hands out the first byte and moves the cursor past it.
/// It panics on an empty buffer, which the precondition leaves out.
#[verifier::external_body]
fn bytes_get_u8(buf: &mut bytes::Bytes) -> (value: u8)
    requires
        bytes_contents(*old(buf)).len() >= 1,
    ensures
        value == bytes_contents(*old(buf))[0],
        bytes_contents(*final(buf)) == bytes_contents(*old(buf)).skip(1),
{
    buf.get_u8()
}

/// `Buf::get_u16`: hands out the first two bytes as a big-endian number and
/// moves the cursor past them. It panics on fewer than two bytes, which the
/// precondition leaves out.
#[verifier::external_body]
fn bytes_get_u16(buf: &mut bytes::Bytes) -> (value: u16)
    requires
        bytes_contents(*old(buf)).len() >= 2,
    ensures
        value == be_u16(bytes_contents(*old(buf))),
        bytes_contents(*final(buf)) == bytes_contents(*old(buf)).skip(2),
{
    buf.get_u16()
}

/// `Buf::get_u32`: hands out the first four bytes as a big-endian number and
/// moves the cursor past them. It panics on fewer than four bytes, which the
/// precondition leaves out.
#[verifier::external_body]
fn bytes_get_u32(buf: &mut bytes::Bytes) -> (value: u32)
    requires
        bytes_contents(*old(buf)).len() >= 4,
    ensures
        value == be_u32(bytes_contents(*old(buf))),
        bytes_contents(*final(buf)) == bytes_contents(*old(buf)).skip(4),
{
    buf.get_u32()
}

/// `Buf::copy_to_bytes` of a `Bytes`: splits off the first `len` bytes. It
/// panics where fewer remain, which the precondition leaves out.
#[verifier::external_body]
fn bytes_copy_to_bytes(buf: &mut bytes::Bytes, len: usize) -> (head: bytes::Bytes)
    requires
        len <= bytes_contents(*old(buf)).len(),
    ensures
        bytes_contents(head) == bytes_contents(*old(buf)).take(len as int),
        bytes_contents(*final(buf)) == bytes_contents(*old(buf)).skip(len as int),
{
    buf.copy_to_bytes(len)
}

/// `to_vec` on the slice that a `Bytes` dereferences to: the bytes from the
/// cursor to the end, copied into a vector.
#[verifier::external_body]
fn bytes_to_vec(buf: &bytes::Bytes) -> (data: Vec<u8>)
    ensures
        data@ == bytes_contents(*buf),
{
    buf.to_vec()
}

/// `String::from_utf8`: the string that the bytes spell, or an error where
/// they are not UTF-8.
#[verifier::external_body]
fn string_from_utf8(data: Vec<u8>) -> (text: Result<String, std::string::FromUtf8Error>)
    ensures
        text is Ok <==> valid_utf8(data@),
        text matches Ok(s) ==> s@ == decode_utf8(data@),
{
    String::from_utf8(data)
}

/// Why a payload could not be decoded.
#[derive(Debug)]
pub enum DecodeError {
    /// The source of the bytes failed.
    IoError(std::io::Error),
    /// A string is not UTF-8.
    Utf8Error(std::string::FromUtf8Error),
    /// The payload ends inside a field.
    UnexpectedEof,
}

impl From<std::io::Error> for DecodeError {
    fn from(err: std::io::Error) -> (error: Self) {
        DecodeError::IoError(err)
    }
}

impl FromSpecImpl<std::io::Error> for DecodeError {
    open spec fn obeys_from_spec() -> bool {
        true
    }

    open spec fn from_spec(err: std::io::Error) -> Self {
        DecodeError::IoError(err)
    }
}

impl From<std::string::FromUtf8Error> for DecodeError {
    fn from(err: std::string::FromUtf8Error) -> (error: Self) {
        DecodeError::Utf8Error(err)
    }
}

impl FromSpecImpl<std::string::FromUtf8Error> for DecodeError {
    open spec fn obeys_from_spec() -> bool {
        true
    }

    open spec fn from_spec(err: std::string::FromUtf8Error) -> Self {
        DecodeError::Utf8Error(err)
    }
}

/// The number that two bytes spell, most significant first.
pub open spec fn be_u16(s: Seq<u8>) -> u16
    recommends
        s.len() >= 2,
{
    (s[0] * 0x100 + s[1]) as u16
}

/// The number that four bytes spell, most significant first.
pub open spec fn be_u32(s: Seq<u8>) -> u32
    recommends
        s.len() >= 4,
{
    (s[0] * 0x100_0000 + s[1] * 0x1_0000 + s[2] * 0x100 + s[3]) as u32
}

/// The first byte of a rotated variable-length integer, set right: its low
/// seven bits are rotated to the left by one place, so that bit 6 becomes
/// bit 0, and its continuation bit stays.
pub open spec fn rotate_first(b: u8) -> u8 {
    ((b / 0x80) * 0x80 + (b % 0x40) * 2 + (b / 0x40) % 2) as u8
}

/// The seven payload bits of the byte at `index` of a variable-length integer.
pub open spec fn varint_group(s: Seq<u8>, index: int, rotate: bool) -> u8
    recommends
        0 <= index < s.len(),
{
    if rotate && index == 0 {
        rotate_first(s[index]) % 0x80
    } else {
        s[index] % 0x80
    }
}

/// The number of bytes that the variable-length integer at the start of `s`
/// takes: up to and including the first byte without the continuation bit.
/// `None` where `s` ends before such a byte.
pub open spec fn varint_len(s: Seq<u8>) -> Option<nat>
    decreases s.len(),
{
    if s.len() == 0 {
        None
    } else if s[0] < 0x80 {
        Some(1)
    } else {
        match varint_len(s.skip(1)) {
            Some(n) => Some(n + 1),
            None => None,
        }
    }
}

/// A group of seven bits at its place in the value: moved up by `7 * index`
/// bits. What does not fit 64 bits is lost.
pub open spec fn place_group(group: u8, index: nat) -> u64 {
    if 7 * index < 64 {
        (group as u64) << ((7 * index) as u32)
    } else {
        0
    }
}

/// The unsigned value of the first `n` bytes of a variable-length integer:
/// the groups of seven bits, the first one lowest.
pub open spec fn varint_value(s: Seq<u8>, n: nat, rotate: bool) -> u64
    recommends
        n <= s.len(),
    decreases n,
{
    if n == 0 {
        0
    } else {
        varint_value(s, (n - 1) as nat, rotate) | place_group(
            varint_group(s, n - 1, rotate),
            (n - 1) as nat,
        )
    }
}

/// The signed number that a zigzag-encoded one stands for: the even numbers
/// stand for 0, 1, 2, ... and the odd ones for -1, -2, -3, ...
pub open spec fn zigzag(n: u64) -> i64 {
    if n % 2 == 0 {
        (n / 2) as i64
    } else {
        (-(n / 2) - 1) as i64
    }
}

/// What reading a rotated, zigzag-encoded integer off the front of `s`
/// gives: the number and the rest of `s`, or `None` where `s` ends too soon.
pub open spec fn spec_read_vint(s: Seq<u8>) -> Option<(i64, Seq<u8>)> {
    match varint_len(s) {
        Some(n) => Some((zigzag(varint_value(s, n, true)), s.skip(n as int))),
        None => None,
    }
}

/// What reading a data reference off the front of `s` gives: a single zero,
/// read as (0, 0), or two numbers.
pub open spec fn spec_read_data_reference(s: Seq<u8>) -> Option<((i64, i64), Seq<u8>)> {
    match spec_read_vint(s) {
        Some((high, rest)) => if high == 0 {
            Some(((0, 0), rest))
        } else {
            match spec_read_vint(rest) {
                Some((low, rest)) => Some(((high, low), rest)),
                None => None,
            }
        },
        None => None,
    }
}

/// What reading `count` integers in a row off the front of `s` gives.
pub open spec fn spec_read_vints(s: Seq<u8>, count: nat) -> Option<(Seq<i64>, Seq<u8>)>
    decreases count,
{
    if count == 0 {
        Some((Seq::empty(), s))
    } else {
        match spec_read_vints(s, (count - 1) as nat) {
            Some((values, rest)) => match spec_read_vint(rest) {
                Some((value, rest)) => Some((values.push(value), rest)),
                None => None,
            },
            None => None,
        }
    }
}

/// How reading a string off the front of a payload can end.
pub enum StringRead {
    /// The string, and what is left of the payload.
    Text(Seq<char>, Seq<u8>),
    /// The payload ends inside the string. What is left of it is given.
    Truncated(Seq<u8>),
    /// The bytes of the string are not UTF-8. What is left behind them is given.
    NotUtf8(Seq<u8>),
}

/// What reading a string off the front of `s` gives: behind a 32-bit length,
/// that many bytes of UTF-8. The length `0xFFFF_FFFF` stands for an absent
/// string, which reads as the empty one.
pub open spec fn spec_read_string(s: Seq<u8>) -> StringRead {
    if s.len() < 4 {
        StringRead::Truncated(s)
    } else if be_u32(s) == 0xFFFF_FFFF {
        StringRead::Text(Seq::empty(), s.skip(4))
    } else if s.len() - 4 < be_u32(s) {
        StringRead::Truncated(s.skip(4))
    } else if valid_utf8(s.subrange(4, 4 + be_u32(s))) {
        StringRead::Text(decode_utf8(s.subrange(4, 4 + be_u32(s))), s.skip(4 + be_u32(s)))
    } else {
        StringRead::NotUtf8(s.skip(4 + be_u32(s)))
    }
}

/// Four bytes that were written for a number are read back as the number.
pub proof fn lemma_int_round_trip(u: u32)
    ensures
        be_bytes_u32(u).len() == 4,
        be_u32(be_bytes_u32(u)) == u,
{
}

/// A string that was written is read back as it was, and an absent one as
/// the empty string; what follows the string is left.
pub proof fn lemma_string_round_trip(text: Option<Seq<char>>, rest: Seq<u8>)
    requires
        text matches Some(t) ==> encode_utf8(t).len() <= MAX_STRING_BYTES,
    ensures
        spec_read_string(
            string_field(
                match text {
                    Some(t) => Some(encode_utf8(t)),
                    None => None,
                },
            ) + rest,
        ) == StringRead::Text(
            match text {
                Some(t) => t,
                None => Seq::empty(),
            },
            rest,
        ),
{
    match text {
        Some(t) => {
            let body = encode_utf8(t);
            let n = body.len() as u32;
            let s = string_field(Some(body)) + rest;
            lemma_int_round_trip(n);
            assert(s[0] == be_bytes_u32(n)[0] && s[1] == be_bytes_u32(n)[1] && s[2]
                == be_bytes_u32(n)[2] && s[3] == be_bytes_u32(n)[3]);
            assert(be_u32(s) == n);
            assert(s.subrange(4, 4 + n) =~= body);
            assert(s.skip(4 + n) =~= rest);
            encode_utf8_valid_utf8(t);
            encode_utf8_decode_utf8(t);
        },
        None => {
            let s = string_field(None) + rest;
            lemma_int_round_trip(0xFFFF_FFFF);
            assert(s[0] == 0xFF && s[1] == 0xFF && s[2] == 0xFF && s[3] == 0xFF);
            assert(s.skip(4) =~= rest);
        },
    }
}

/// What is written as a variable-length integer is not what is read back:
/// the writer puts the bits out as they are, the reader rotates the first
/// byte and decodes a sign. Of the values that take one byte, those below
/// 64 come back as they were; a value `v` from 64 on comes back as `63 - v`.
pub proof fn lemma_vint_asymmetry(v: i32)
    requires
        0 <= v < 128,
    ensures
        spec_read_vint(vint_bytes(bits32(v))) == Some(
            (
                if v < 64 {
                    v as i64
                } else {
                    (63 - v) as i64
                },
                Seq::<u8>::empty(),
            ),
        ),
{
    let s = vint_bytes(bits32(v));
    assert(s =~= seq![v as u8]);
    assert(varint_len(s) == Some(1nat));
    let group = varint_group(s, 0, true);
    assert(group == if v < 64 {
        2 * v
    } else {
        2 * (v - 64) + 1
    });
    assert(varint_value(s, 0, true) == 0);
    assert(0u64 | ((group as u64) << 0u32) == group as u64) by (bit_vector);
    assert(varint_value(s, 1, true) == group as u64);
    assert(s.skip(1) =~= Seq::<u8>::empty());
}

/// A cursor over the bytes of one payload.
pub struct ByteReader {
    buf: bytes::Bytes,
}

impl View for ByteReader {
    type V = Seq<u8>;

    /// The bytes that are still to be read.
    closed spec fn view(&self) -> Seq<u8> {
        bytes_contents(self.buf)
    }
}

impl ByteReader {
    /// A reader at the start of `data`.
    pub fn from(data: bytes::Bytes) -> (reader: Self)
        ensures
            reader@ == bytes_contents(data),
    {
        Self { buf: data }
    }

    /// Number of bytes that are still to be read.
    pub fn remaining(&self) -> (n: usize)
        ensures
            n == self@.len(),
    {
        bytes_remaining(&self.buf)
    }

    /// Reads one byte.
    pub fn read_u8(&mut self) -> (read: Result<u8, DecodeError>)
        ensures
            match read {
                Ok(value) => old(self)@.len() >= 1 && value == old(self)@[0] && final(self)@ == old(self)@.skip(1),
                Err(error) => old(self)@.len() < 1 && error is UnexpectedEof && final(self)@ == old(self)@,
            },
    {
        if bytes_remaining(&self.buf) >= 1 {
            Ok(bytes_get_u8(&mut self.buf))
        } else {
            Err(DecodeError::UnexpectedEof)
        }
    }

    /// Reads two bytes as a number, most significant byte first.
    pub fn read_u16(&mut self) -> (read: Result<u16, DecodeError>)
        ensures
            match read {
                Ok(value) => old(self)@.len() >= 2 && value == be_u16(old(self)@) && final(self)@
                    == old(self)@.skip(2),
                Err(error) => old(self)@.len() < 2 && error is UnexpectedEof && final(self)@ == old(self)@,
            },
    {
        if bytes_remaining(&self.buf) >= 2 {
            Ok(bytes_get_u16(&mut self.buf))
        } else {
            Err(DecodeError::UnexpectedEof)
        }
    }

    /// Reads four bytes as a number, most significant byte first.
    pub fn read_u32(&mut self) -> (read: Result<u32, DecodeError>)
        ensures
            match read {
                Ok(value) => old(self)@.len() >= 4 && value == be_u32(old(self)@) && final(self)@
                    == old(self)@.skip(4),
                Err(error) => old(self)@.len() < 4 && error is UnexpectedEof && final(self)@ == old(self)@,
            },
    {
        if bytes_remaining(&self.buf) >= 4 {
            Ok(bytes_get_u32(&mut self.buf))
        } else {
            Err(DecodeError::UnexpectedEof)
        }
    }

    /// Reads one byte as a boolean: zero is `false`, anything else `true`.
    pub fn read_bool(&mut self) -> (read: Result<bool, DecodeError>)
        ensures
            match read {
                Ok(value) => old(self)@.len() >= 1 && value == (old(self)@[0] != 0) && final(self)@
                    == old(self)@.skip(1),
                Err(error) => old(self)@.len() < 1 && error is UnexpectedEof && final(self)@ == old(self)@,
            },
    {
        match self.read_u8() {
            Ok(byte) => Ok(byte != 0),
            Err(error) => Err(error),
        }
    }

    /// Reads a 64-bit identifier as its two halves, high then low.
    pub fn read_long(&mut self) -> (read: Result<(u32, u32), DecodeError>)
        ensures
            match read {
                Ok((high, low)) => old(self)@.len() >= 8 && high == be_u32(old(self)@) && low
                    == be_u32(old(self)@.skip(4)) && final(self)@ == old(self)@.skip(8),
                Err(error) => old(self)@.len() < 8 && error is UnexpectedEof && final(self)@
                    == if old(self)@.len() < 4 {
                    old(self)@
                } else {
                    old(self)@.skip(4)
                },
            },
    {
        let high = match self.read_u32() {
            Ok(high) => high,
            Err(error) => {
                return Err(error);
            },
        };
        let low = match self.read_u32() {
            Ok(low) => low,
            Err(error) => {
                return Err(error);
            },
        };
        assert(old(self)@.skip(4).skip(4) =~= old(self)@.skip(8));
        Ok((high, low))
    }

    /// Reads a variable-length integer without decoding its sign. With
    /// `rotate`, the first byte is set right before its bits are taken.
    /// Where the payload ends inside the integer, all of it has been read.
    pub fn read_variable_int(&mut self, rotate: bool) -> (read: Result<u64, DecodeError>)
        ensures
            match read {
                Ok(value) => varint_len(old(self)@) matches Some(n) && value == varint_value(
                    old(self)@,
                    n,
                    rotate,
                ) && final(self)@ == old(self)@.skip(n as int),
                Err(error) => varint_len(old(self)@) is None && error is UnexpectedEof && final(self)@.len() == 0,
            },
    {
        let mut result: u64 = 0;
        let mut shift: u32 = 0;
        let ghost mut count: nat = 0;
        loop
            invariant
                count <= old(self)@.len(),
                self@ == old(self)@.skip(count as int),
                forall|i: int| 0 <= i < count ==> old(self)@[i] >= 0x80,
                result == varint_value(old(self)@, count, rotate),
                shift == if 7 * count < 64 {
                    7 * count
                } else {
                    70
                },
            decreases old(self)@.len() - count,
        {
            let byte = match self.read_u8() {
                Ok(byte) => byte,
                Err(error) => {
                    proof {
                        lemma_varint_len_none(old(self)@, count);
                    }
                    return Err(error);
                },
            };
            let ghost index = count as int;
            assert(byte == old(self)@[index]);
            let set_right = if rotate && shift == 0 {
                rotated(byte)
            } else {
                byte
            };
            let group: u8 = set_right & 0x7F;
            proof {
                lemma_low_seven(set_right);
                lemma_rotate_keeps_top(byte);
                assert(group == varint_group(old(self)@, index, rotate));
                assert(self@ =~= old(self)@.skip(index + 1));
            }
            let ghost before = result;
            if shift < 64 {
                result |= (group as u64) << shift;
                shift += 7;
            }
            proof {
                assert(before | 0u64 == before) by (bit_vector);
                assert(result == before | place_group(group, count));
                count = count + 1;
            }
            if set_right & 0x80 == 0 {
                proof {
                    lemma_top_bit(set_right);
                    lemma_varint_len_some(old(self)@, count);
                }
                return Ok(result);
            }
            proof {
                lemma_top_bit(set_right);
            }
        }
    }

    /// Reads a rotated, zigzag-encoded integer.
    pub fn read_vint(&mut self) -> (read: Result<i64, DecodeError>)
        ensures
            match read {
                Ok(value) => spec_read_vint(old(self)@) == Some((value, final(self)@)),
                Err(error) => spec_read_vint(old(self)@) is None && error is UnexpectedEof && final(self)@.len() == 0,
            },
    {
        let n = match self.read_variable_int(true) {
            Ok(n) => n,
            Err(error) => {
                return Err(error);
            },
        };
        proof {
            lemma_zigzag(n);
        }
        let half = (n >> 1) as i64;
        let sign = (n & 1) as i64;
        let decoded = half ^ (-sign);
        Ok(decoded)
    }

    /// Reads a string.
    pub fn read_string(&mut self) -> (read: Result<String, DecodeError>)
        ensures
            match read {
                Ok(text) => spec_read_string(old(self)@) == StringRead::Text(text@, final(self)@),
                Err(DecodeError::UnexpectedEof) => spec_read_string(old(self)@)
                    == StringRead::Truncated(final(self)@),
                Err(DecodeError::Utf8Error(_)) => spec_read_string(old(self)@)
                    == StringRead::NotUtf8(final(self)@),
                Err(DecodeError::IoError(_)) => false,
            },
    {
        let len = match self.read_u32() {
            Ok(len) => len,
            Err(error) => {
                return Err(error);
            },
        };
        if len == u32::MAX {
            return Ok(String::new());
        }
        if bytes_remaining(&self.buf) < len as usize {
            return Err(DecodeError::UnexpectedEof);
        }
        let body = bytes_copy_to_bytes(&mut self.buf, len as usize);
        proof {
            assert(bytes_contents(body) =~= old(self)@.subrange(4, 4 + len));
            assert(self@ =~= old(self)@.skip(4 + len));
        }
        match string_from_utf8(bytes_to_vec(&body)) {
            Ok(text) => Ok(text),
            Err(error) => Err(DecodeError::from(error)),
        }
    }

    /// Reads a reference to a catalogue object: one integer, and a second
    /// one unless the first is zero.
    pub fn read_data_reference(&mut self) -> (read: Result<(i64, i64), DecodeError>)
        ensures
            match read {
                Ok(reference) => spec_read_data_reference(old(self)@) == Some(
                    (reference, final(self)@),
                ),
                Err(error) => spec_read_data_reference(old(self)@) is None
                    && error is UnexpectedEof && final(self)@.len() == 0,
            },
    {
        let high = match self.read_vint() {
            Ok(high) => high,
            Err(error) => {
                return Err(error);
            },
        };
        if high == 0 {
            Ok((high, 0))
        } else {
            match self.read_vint() {
                Ok(low) => Ok((high, low)),
                Err(error) => Err(error),
            }
        }
    }

    /// Reads the nine integers that head a command.
    pub fn read_command_header(&mut self) -> (read: Result<Vec<i64>, DecodeError>)
        ensures
            match read {
                Ok(header) => spec_read_vints(old(self)@, 9) == Some((header@, final(self)@)),
                Err(error) => spec_read_vints(old(self)@, 9) is None && error is UnexpectedEof
                    && final(self)@.len() == 0,
            },
    {
        let mut header: Vec<i64> = Vec::with_capacity(9);
        let mut i: usize = 0;
        while i < 9
            invariant
                i <= 9,
                spec_read_vints(old(self)@, i as nat) == Some((header@, self@)),
            decreases 9 - i,
        {
            match self.read_vint() {
                Ok(value) => {
                    header.push(value);
                },
                Err(error) => {
                    proof {
                        lemma_read_vints_fails(old(self)@, (i + 1) as nat, 9);
                    }
                    return Err(error);
                },
            }
            i += 1;
        }
        Ok(header)
    }

    /// Looks at the next four bytes as a big-endian number without reading them.
    pub fn peek_int(&self) -> (peeked: Result<u32, DecodeError>)
        ensures
            match peeked {
                Ok(value) => self@.len() >= 4 && value == be_u32(self@),
                Err(error) => self@.len() < 4 && error is UnexpectedEof,
            },
    {
        if bytes_remaining(&self.buf) >= 4 {
            let slice = bytes_chunk(&self.buf);
            Ok(
                slice[0] as u32 * 0x100_0000 + slice[1] as u32 * 0x1_0000 + slice[2] as u32 * 0x100
                    + slice[3] as u32,
            )
        } else {
            Err(DecodeError::UnexpectedEof)
        }
    }
}

/// Sets the first byte of a rotated variable-length integer right.
fn rotated(byte: u8) -> (set_right: u8)
    ensures
        set_right == rotate_first(byte),
{
    let seventh = (byte & 0x40) >> 6;
    let msb = (byte & 0x80) >> 7;
    let n = byte << 1;
    assert(((n & !0x81u8) | (msb << 7) | seventh) == ((byte / 0x80) * 0x80 + (byte % 0x40) * 2
        + (byte / 0x40) % 2) as u8) by (bit_vector)
        requires
            seventh == (byte & 0x40) >> 6,
            msb == (byte & 0x80) >> 7,
            n == byte << 1,
    ;
    (n & !0x81) | (msb << 7) | seventh
}

/// The low seven bits of a byte.
proof fn lemma_low_seven(b: u8)
    ensures
        b & 0x7F == b % 0x80,
{
    assert(b & 0x7F == b % 0x80) by (bit_vector);
}

/// The top bit of a byte is set exactly where the byte is 128 or more.
proof fn lemma_top_bit(b: u8)
    ensures
        (b & 0x80 == 0) <==> b < 0x80,
{
    assert((b & 0x80 == 0) <==> b < 0x80) by (bit_vector);
}

/// Setting the first byte right keeps its continuation bit.
proof fn lemma_rotate_keeps_top(b: u8)
    ensures
        rotate_first(b) < 0x80 <==> b < 0x80,
{
}

/// The arithmetic of zigzag decoding, in bit operations: the value without
/// its lowest bit, with every bit turned over where the lowest bit is set.
proof fn lemma_zigzag(n: u64)
    ensures
        (n >> 1) <= i64::MAX,
        (n & 1) == 0 || (n & 1) == 1,
        (n & 1) == 0 ==> ((n >> 1) as i64) ^ 0i64 == zigzag(n),
        (n & 1) == 1 ==> ((n >> 1) as i64) ^ (-1i64) == zigzag(n),
{
    assert((n >> 1) <= 0x7FFF_FFFF_FFFF_FFFF && ((n & 1) == 0 || (n & 1) == 1)) by (bit_vector);
    assert((n & 1) == 0 ==> ((n >> 1) as i64) ^ 0i64 == (n / 2) as i64 && n % 2 == 0)
        by (bit_vector);
    assert((n & 1) == 1 ==> ((n >> 1) as i64) ^ (-1i64) == (-(n / 2) - 1) as i64 && n % 2 == 1)
        by (bit_vector);
}

/// Where the first `count` bytes all carry the continuation bit and nothing
/// follows them, no integer is complete.
proof fn lemma_varint_len_none(s: Seq<u8>, count: nat)
    requires
        count == s.len(),
        forall|i: int| 0 <= i < count ==> s[i] >= 0x80,
    ensures
        varint_len(s) is None,
    decreases count,
{
    if count > 0 {
        let rest = s.skip(1);
        assert forall|i: int| 0 <= i < count - 1 implies rest[i] >= 0x80 by {
            assert(rest[i] == s[i + 1]);
        }
        lemma_varint_len_none(rest, (count - 1) as nat);
    }
}

/// Where the first `count - 1` bytes carry the continuation bit and the next
/// one does not, the integer takes `count` bytes.
proof fn lemma_varint_len_some(s: Seq<u8>, count: nat)
    requires
        1 <= count <= s.len(),
        forall|i: int| 0 <= i < count - 1 ==> s[i] >= 0x80,
        s[count - 1] < 0x80,
    ensures
        varint_len(s) == Some(count),
    decreases count,
{
    if count > 1 {
        let rest = s.skip(1);
        assert forall|i: int| 0 <= i < count - 2 implies rest[i] >= 0x80 by {
            assert(rest[i] == s[i + 1]);
        }
        assert(rest[count - 2] == s[count - 1]);
        lemma_varint_len_some(rest, (count - 1) as nat);
    }
}

/// Once one of the integers cannot be read, no longer row of them can.
proof fn lemma_read_vints_fails(s: Seq<u8>, failed: nat, count: nat)
    requires
        failed <= count,
        spec_read_vints(s, failed) is None,
    ensures
        spec_read_vints(s, count) is None,
    decreases count,
{
    if failed < count {
        lemma_read_vints_fails(s, failed, (count - 1) as nat);
    }
}

} // verus!
