//! Outbound half of the codec: an append-only byte buffer with the
//! fixed-width, string and variable-length encodings of the wire format.

use vstd::prelude::*;
use vstd::utf8::encode_utf8;

verus! {

/// Longest string, in bytes, that is written out; anything longer is sent as absent.
pub const MAX_STRING_BYTES: usize = 900_000;

/// The bit pattern of a signed 32-bit value, read as an unsigned word.
pub open spec fn bits32(v: i32) -> u32 {
    if v >= 0 {
        v as u32
    } else {
        (v + 0x1_0000_0000) as u32
    }
}

/// The bit pattern of a signed 16-bit value, read as an unsigned word.
pub open spec fn bits16(v: i16) -> u16 {
    if v >= 0 {
        v as u16
    } else {
        (v + 0x1_0000) as u16
    }
}

/// The bit pattern of a signed 64-bit value, read as an unsigned word.
pub open spec fn bits64(v: i64) -> u64 {
    if v >= 0 {
        v as u64
    } else {
        (v + 0x1_0000_0000_0000_0000) as u64
    }
}

/// The four bytes of `u`, most significant first.
pub open spec fn be_bytes_u32(u: u32) -> Seq<u8> {
    seq![
        (u / 0x100_0000) as u8,
        (u / 0x1_0000 % 0x100) as u8,
        (u / 0x100 % 0x100) as u8,
        (u % 0x100) as u8,
    ]
}

/// The four bytes of `u`, least significant first.
pub open spec fn le_bytes_u32(u: u32) -> Seq<u8> {
    seq![
        (u % 0x100) as u8,
        (u / 0x100 % 0x100) as u8,
        (u / 0x1_0000 % 0x100) as u8,
        (u / 0x100_0000) as u8,
    ]
}

/// The two bytes of `u`, most significant first.
pub open spec fn be_bytes_u16(u: u16) -> Seq<u8> {
    seq![(u / 0x100) as u8, (u % 0x100) as u8]
}

/// The two bytes of `u`, least significant first.
pub open spec fn le_bytes_u16(u: u16) -> Seq<u8> {
    seq![(u % 0x100) as u8, (u / 0x100) as u8]
}

/// The variable-length encoding of `u`: groups of seven bits, least
/// significant group first, each byte but the last carrying the
/// continuation bit `0x80`.
pub open spec fn vint_bytes(u: u32) -> Seq<u8>
    decreases u,
{
    if u < 0x80 {
        seq![u as u8]
    } else {
        seq![(u % 0x80 + 0x80) as u8] + vint_bytes(u / 0x80)
    }
}

/// The wire form of an optional string, given as its UTF-8 bytes: a 32-bit
/// big-endian length and the bytes, or the length `0xFFFF_FFFF` alone where
/// the string is absent or longer than [`MAX_STRING_BYTES`].
pub open spec fn string_field(value: Option<Seq<u8>>) -> Seq<u8> {
    match value {
        Some(bytes) if bytes.len() <= MAX_STRING_BYTES => be_bytes_u32(bytes.len() as u32) + bytes,
        _ => be_bytes_u32(0xFFFF_FFFF),
    }
}

/// The wire form of a byte block: its length, reduced to 32 bits, and the bytes.
pub open spec fn bytes_field(value: Seq<u8>) -> Seq<u8> {
    be_bytes_u32((value.len() % 0x1_0000_0000) as u32) + value
}

/// The items of a list of variable-length integers, one after the other.
pub open spec fn vint_array_bytes(values: Seq<i32>) -> Seq<u8>
    decreases values.len(),
{
    if values.len() == 0 {
        Seq::empty()
    } else {
        vint_array_bytes(values.drop_last()) + vint_bytes(bits32(values.last()))
    }
}

/// A string that is too long is written exactly as an absent one.
pub proof fn lemma_long_string_is_absent(bytes: Seq<u8>)
    requires
        bytes.len() >= MAX_STRING_BYTES + 1,
    ensures
        string_field(Some(bytes)) == string_field(None),
{
}

/// A present string of at most [`MAX_STRING_BYTES`] bytes never looks like an absent one.
pub proof fn lemma_short_string_is_present(bytes: Seq<u8>)
    requires
        bytes.len() <= MAX_STRING_BYTES,
    ensures
        string_field(Some(bytes)) != string_field(None),
        string_field(Some(bytes)).len() == 4 + bytes.len(),
{
    let n = bytes.len() as u32;
    assert(be_bytes_u32(n)[0] == (n / 0x100_0000) as u8);
    assert(be_bytes_u32(0xFFFF_FFFF)[0] == 0xFFu8);
    assert(string_field(Some(bytes))[0] == be_bytes_u32(n)[0]);
    assert(string_field(None)[0] == 0xFFu8);
}

/// Append-only output buffer.
///
/// `offset` counts the bytes written so far and `bitoffset` is the position
/// inside a partly written byte; every operation here writes whole bytes and
/// leaves it at zero.
pub struct ByteWriter {
    pub buffer: Vec<u8>,
    pub offset: usize,
    pub bitoffset: u8,
}

impl View for ByteWriter {
    type V = Seq<u8>;

    open spec fn view(&self) -> Seq<u8> {
        self.buffer@
    }
}

impl ByteWriter {
    /// The write position agrees with the buffer.
    pub open spec fn wf(&self) -> bool {
        self.offset == self.buffer@.len()
    }

    /// A writer that holds nothing yet.
    pub fn new() -> (writer: Self)
        ensures
            writer@ == Seq::<u8>::empty(),
            writer.wf(),
            writer.bitoffset == 0,
    {
        Self { buffer: Vec::new(), offset: 0, bitoffset: 0 }
    }

    /// Number of bytes written.
    pub fn size(&self) -> (n: usize)
        ensures
            n == self@.len(),
    {
        self.buffer.len()
    }

    /// The bytes written so far.
    pub fn get_raw(&self) -> (raw: &[u8])
        ensures
            raw@ == self@,
    {
        self.buffer.as_slice()
    }

    /// Appends `value` as four bytes, most significant first.
    pub fn write_int(&mut self, value: i32)
        requires
            old(self).wf(),
        ensures
            final(self).wf(),
            final(self).bitoffset == 0,
            final(self)@ == old(self)@ + be_bytes_u32(bits32(value)),
    {
        proof {
            lemma_bits32(value);
        }
        self.put_u32(#[verifier::truncate] (value as u32));
    }

    /// Appends the first `length` bytes of `data`, least significant first.
    pub fn write_int_endian(&mut self, data: i32, length: usize)
        requires
            old(self).wf(),
            length <= 4,
        ensures
            final(self).wf(),
            final(self).bitoffset == 0,
            final(self)@ == old(self)@ + le_bytes_u32(bits32(data)).take(length as int),
    {
        let u: u32 = #[verifier::truncate] (data as u32);
        let bytes: [u8; 4] = [low_byte(u), low_byte(u >> 8), low_byte(u >> 16), low_byte(u >> 24)];
        proof {
            lemma_bits32(data);
            lemma_le_bytes_u32(u);
            assert(bytes@ =~= le_bytes_u32(u));
        }
        let mut i: usize = 0;
        while i < length
            invariant
                i <= length <= 4,
                bytes@ == le_bytes_u32(bits32(data)),
                self.offset == old(self).offset,
                old(self).wf(),
                self.buffer@ == old(self)@ + bytes@.take(i as int),
            decreases length - i,
        {
            self.buffer.push(bytes[i]);
            assert(bytes@.take(i as int).push(bytes@[i as int]) =~= bytes@.take(i + 1));
            i += 1;
        }
        assert(self.offset + length == self.buffer.len());
        self.offset += length;
        self.bitoffset = 0;
    }

    /// Appends `data` as two bytes, least significant first.
    pub fn write_short_endian(&mut self, data: i16)
        requires
            old(self).wf(),
        ensures
            final(self).wf(),
            final(self).bitoffset == 0,
            final(self)@ == old(self)@ + le_bytes_u16(bits16(data)),
    {
        let u: u16 = #[verifier::truncate] (data as u16);
        proof {
            lemma_bits16(data);
            lemma_shift_byte16(u);
        }
        self.buffer.push(low_byte16(u));
        self.buffer.push(low_byte16(u >> 8));
        assert(self.buffer@ =~= old(self)@ + le_bytes_u16(bits16(data)));
        assert(self.offset + 2 == self.buffer.len());
        self.offset += 2;
        self.bitoffset = 0;
    }

    /// Appends one byte.
    pub fn write_byte(&mut self, value: u8)
        requires
            old(self).wf(),
        ensures
            final(self).wf(),
            final(self).bitoffset == 0,
            final(self)@ == old(self)@.push(value),
    {
        self.buffer.push(value);
        assert(self.offset + 1 == self.buffer.len());
        self.offset += 1;
        self.bitoffset = 0;
    }

    /// Appends `value` as two bytes, most significant first.
    pub fn write_short(&mut self, value: i16)
        requires
            old(self).wf(),
        ensures
            final(self).wf(),
            final(self).bitoffset == 0,
            final(self)@ == old(self)@ + be_bytes_u16(bits16(value)),
    {
        let u: u16 = #[verifier::truncate] (value as u16);
        proof {
            lemma_bits16(value);
            lemma_shift_byte16(u);
        }
        self.buffer.push(low_byte16(u >> 8));
        self.buffer.push(low_byte16(u));
        assert(self.buffer@ =~= old(self)@ + be_bytes_u16(bits16(value)));
        assert(self.offset + 2 == self.buffer.len());
        self.offset += 2;
        self.bitoffset = 0;
    }

    /// Appends a byte block behind its 32-bit length.
    pub fn write_bytes(&mut self, value: &[u8])
        requires
            old(self).wf(),
        ensures
            final(self).wf(),
            final(self).bitoffset == 0,
            final(self)@ == old(self)@ + bytes_field(value@),
    {
        let length: u32 = #[verifier::truncate] (value.len() as u32);
        proof {
            lemma_len_low_word(value.len());
        }
        self.put_u32(length);
        self.put_slice(value);
        assert(self.buffer@ =~= old(self)@ + bytes_field(value@));
    }

    /// Appends an optional string: its byte length and its UTF-8 bytes, or
    /// the absent marker where there is none or it is longer than
    /// [`MAX_STRING_BYTES`].
    pub fn write_string(&mut self, value: Option<&str>)
        requires
            old(self).wf(),
        ensures
            final(self).wf(),
            final(self).bitoffset == 0,
            final(self)@ == old(self)@ + string_field(
                match value {
                    Some(s) => Some(encode_utf8(s@)),
                    None => None,
                },
            ),
    {
        self.bitoffset = 0;
        match value {
            Some(s) => {
                let str_bytes = s.as_bytes();
                if str_bytes.len() <= MAX_STRING_BYTES {
                    self.put_u32(str_bytes.len() as u32);
                    self.put_slice(str_bytes);
                    assert(self.buffer@ =~= old(self)@ + string_field(Some(encode_utf8(s@))));
                } else {
                    self.put_u32(0xFFFF_FFFF);
                }
            },
            None => {
                self.put_u32(0xFFFF_FFFF);
            },
        }
    }

    /// Appends one byte: 1 for `true`, 0 for `false`.
    pub fn write_boolean(&mut self, value: bool)
        requires
            old(self).wf(),
        ensures
            final(self).wf(),
            final(self).bitoffset == 0,
            final(self)@ == old(self)@.push(if value { 1u8 } else { 0u8 }),
    {
        self.bitoffset = 0;
        self.write_byte(if value { 1 } else { 0 });
    }

    /// Appends the bit pattern of `data` in the variable-length encoding.
    /// The value is neither rotated nor zigzag-encoded, so a negative value
    /// takes five bytes.
    pub fn write_vint(&mut self, data: i32)
        requires
            old(self).wf(),
        ensures
            final(self).wf(),
            final(self).bitoffset == 0,
            final(self)@ == old(self)@ + vint_bytes(bits32(data)),
    {
        proof {
            lemma_bits32(data);
        }
        self.put_vint(#[verifier::truncate] (data as u32));
    }

    /// Appends `value` as eight bytes, most significant first: the high word,
    /// then the low word.
    pub fn write_long_long(&mut self, value: i64)
        requires
            old(self).wf(),
        ensures
            final(self).wf(),
            final(self).bitoffset == 0,
            final(self)@ == old(self)@ + be_bytes_u32((bits64(value) / 0x1_0000_0000) as u32)
                + be_bytes_u32((bits64(value) % 0x1_0000_0000) as u32),
    {
        let u: u64 = #[verifier::truncate] (value as u64);
        let high: u32 = #[verifier::truncate] ((u >> 32) as u32);
        let low: u32 = #[verifier::truncate] ((u & 0xFFFF_FFFF) as u32);
        proof {
            lemma_bits64(value);
            lemma_split_words(u);
        }
        self.put_u32(high);
        self.put_u32(low);
    }

    /// Appends a two-part identifier as two 32-bit words, high then low.
    ///
    /// The layout of this field has not been confirmed against captured
    /// traffic; until it is, the words are written as [`Self::write_int`]
    /// writes them.
    pub fn write_long(&mut self, high: i32, low: i32)
        requires
            old(self).wf(),
        ensures
            final(self).wf(),
            final(self).bitoffset == 0,
            final(self)@ == old(self)@ + be_bytes_u32(bits32(high)) + be_bytes_u32(bits32(low)),
    {
        self.write_int(high);
        self.write_int(low);
    }

    /// Appends a two-part identifier as two variable-length integers, high
    /// then low.
    ///
    /// The layout of this field has not been confirmed against captured
    /// traffic; until it is, the parts are written as [`Self::write_vint`]
    /// writes them.
    pub fn write_vlong(&mut self, high: i32, low: i32)
        requires
            old(self).wf(),
        ensures
            final(self).wf(),
            final(self).bitoffset == 0,
            final(self)@ == old(self)@ + vint_bytes(bits32(high)) + vint_bytes(bits32(low)),
    {
        self.write_vint(high);
        self.write_vint(low);
    }

    /// Appends a typed identifier: the class of the object, then its
    /// instance within the class, each as a variable-length integer.
    ///
    /// The layout of this field has not been confirmed against captured
    /// traffic; until it is, the parts are written as [`Self::write_vint`]
    /// writes them.
    pub fn write_sc_id(&mut self, class_id: i32, instance_id: i32)
        requires
            old(self).wf(),
        ensures
            final(self).wf(),
            final(self).bitoffset == 0,
            final(self)@ == old(self)@ + vint_bytes(bits32(class_id)) + vint_bytes(
                bits32(instance_id),
            ),
    {
        self.write_vint(class_id);
        self.write_vint(instance_id);
    }

    /// Appends a list of variable-length integers behind its count.
    ///
    /// The layout of this field has not been confirmed against captured
    /// traffic; until it is, the count and the items are written as
    /// [`Self::write_vint`] writes them.
    pub fn write_array_vint(&mut self, values: Vec<i32>)
        requires
            old(self).wf(),
        ensures
            final(self).wf(),
            final(self).bitoffset == 0,
            final(self)@ == old(self)@ + vint_bytes((values@.len() % 0x1_0000_0000) as u32)
                + vint_array_bytes(values@),
    {
        proof {
            lemma_len_low_word(values.len());
        }
        self.put_vint(#[verifier::truncate] (values.len() as u32));
        let ghost start = self@;
        let mut i: usize = 0;
        while i < values.len()
            invariant
                i <= values.len(),
                self.wf(),
                self.bitoffset == 0,
                self@ == start + vint_array_bytes(values@.take(i as int)),
            decreases values.len() - i,
        {
            self.write_vint(values[i]);
            proof {
                let next = values@.take(i + 1);
                assert(next.drop_last() =~= values@.take(i as int));
                assert(next.last() == values@[i as int]);
                assert(self@ =~= start + vint_array_bytes(next));
            }
            i += 1;
        }
        assert(values@.take(values@.len() as int) =~= values@);
    }

    /// Appends bytes that were encoded elsewhere, as they are.
    pub fn write_raw(&mut self, bytes: &[u8])
        requires
            old(self).wf(),
        ensures
            final(self).wf(),
            final(self).bitoffset == 0,
            final(self)@ == old(self)@ + bytes@,
    {
        self.put_slice(bytes);
    }

    /// Appends `u` in the variable-length encoding.
    fn put_vint(&mut self, u: u32)
        requires
            old(self).wf(),
        ensures
            final(self).wf(),
            final(self).bitoffset == 0,
            final(self)@ == old(self)@ + vint_bytes(u),
    {
        self.bitoffset = 0;
        let mut rest: u32 = u;
        let ghost mut done: Seq<u8> = Seq::empty();
        loop
            invariant_except_break
                done + vint_bytes(rest) == vint_bytes(u),
                self.buffer@ == old(self)@ + done,
            invariant
                self.offset == old(self).offset,
                old(self).wf(),
                self.bitoffset == 0,
            ensures
                self.buffer@ == old(self)@ + vint_bytes(u),
            decreases rest,
        {
            let group: u8 = low_seven(rest);
            let next: u32 = rest >> 7;
            proof {
                lemma_shift_seven(rest);
            }
            if next != 0 {
                self.buffer.push(group | 0x80);
                proof {
                    lemma_set_top_bit(group);
                    assert(vint_bytes(rest) == seq![(rest % 0x80 + 0x80) as u8] + vint_bytes(next));
                    assert((done.push((group + 0x80) as u8)) + vint_bytes(next) =~= done
                        + vint_bytes(rest));
                    done = done.push((group + 0x80) as u8);
                }
                rest = next;
            } else {
                self.buffer.push(group);
                proof {
                    assert(vint_bytes(rest) == seq![rest as u8]);
                    assert(self.buffer@ =~= old(self)@ + (done + vint_bytes(rest)));
                }
                break ;
            }
        }
        self.offset = self.buffer.len();
    }

    /// Appends the four bytes of `u`, most significant first.
    fn put_u32(&mut self, u: u32)
        requires
            old(self).wf(),
        ensures
            final(self).wf(),
            final(self).bitoffset == 0,
            final(self)@ == old(self)@ + be_bytes_u32(u),
    {
        proof {
            lemma_le_bytes_u32(u);
        }
        self.buffer.push(low_byte(u >> 24));
        self.buffer.push(low_byte(u >> 16));
        self.buffer.push(low_byte(u >> 8));
        self.buffer.push(low_byte(u));
        assert(self.buffer@ =~= old(self)@ + be_bytes_u32(u));
        assert(self.offset + 4 == self.buffer.len());
        self.offset += 4;
        self.bitoffset = 0;
    }

    /// Appends `bytes` as they are.
    fn put_slice(&mut self, bytes: &[u8])
        requires
            old(self).wf(),
        ensures
            final(self).wf(),
            final(self).bitoffset == 0,
            final(self)@ == old(self)@ + bytes@,
    {
        self.buffer.extend_from_slice(bytes);
        assert(self.buffer@ =~= old(self)@ + bytes@);
        assert(self.offset + bytes.len() == self.buffer.len());
        self.offset += bytes.len();
        self.bitoffset = 0;
    }
}

/// The lowest eight bits of a word.
fn low_byte(u: u32) -> (b: u8)
    ensures
        b == u % 0x100,
{
    assert(u & 0xff == u % 0x100) by (bit_vector);
    (u & 0xff) as u8
}

/// The lowest eight bits of a half word.
fn low_byte16(u: u16) -> (b: u8)
    ensures
        b == u % 0x100,
{
    assert(u & 0xff == u % 0x100) by (bit_vector);
    (u & 0xff) as u8
}

/// The lowest seven bits of a word.
fn low_seven(u: u32) -> (b: u8)
    ensures
        b == u % 0x80,
{
    assert(u & 0x7f == u % 0x80) by (bit_vector);
    (u & 0x7f) as u8
}

/// The cast of a signed word to an unsigned one keeps the bit pattern.
pub proof fn lemma_bits32(v: i32)
    ensures
        v as u32 == bits32(v),
{
    assert(v as u32 == if v >= 0 {
        v as u32
    } else {
        (v + 0x1_0000_0000) as u32
    }) by (bit_vector);
}

/// The cast of a signed half word to an unsigned one keeps the bit pattern.
pub proof fn lemma_bits16(v: i16)
    ensures
        v as u16 == bits16(v),
{
    assert(v as u16 == if v >= 0 {
        v as u16
    } else {
        (v + 0x1_0000) as u16
    }) by (bit_vector);
}

/// The cast of a signed double word to an unsigned one keeps the bit pattern.
pub proof fn lemma_bits64(v: i64)
    ensures
        v as u64 == bits64(v),
{
    assert(v as u64 == if v >= 0 {
        v as u64
    } else {
        (v + 0x1_0000_0000_0000_0000) as u64
    }) by (bit_vector);
}

/// Shifts of a word by whole bytes are divisions by powers of 256.
proof fn lemma_le_bytes_u32(u: u32)
    ensures
        (u >> 8) == u / 0x100,
        (u >> 16) == u / 0x1_0000,
        (u >> 24) == u / 0x100_0000,
        u / 0x100_0000 < 0x100,
{
    assert((u >> 8) == u / 0x100 && (u >> 16) == u / 0x1_0000 && (u >> 24) == u / 0x100_0000)
        by (bit_vector);
}

/// A shift of a half word by one byte is a division by 256.
proof fn lemma_shift_byte16(u: u16)
    ensures
        (u >> 8) == u / 0x100,
        u / 0x100 < 0x100,
{
    assert((u >> 8) == u / 0x100) by (bit_vector);
}

/// A shift by seven bits is a division by 128.
proof fn lemma_shift_seven(u: u32)
    ensures
        (u >> 7) == u / 0x80,
{
    assert((u >> 7) == u / 0x80) by (bit_vector);
}

/// Setting the top bit of a seven-bit value adds 128.
proof fn lemma_set_top_bit(b: u8)
    requires
        b < 0x80,
    ensures
        b | 0x80 == b + 0x80,
{
    assert(b < 0x80 ==> b | 0x80 == b + 0x80) by (bit_vector);
}

/// The two halves of a double word.
proof fn lemma_split_words(u: u64)
    ensures
        ((u >> 32) as u32) == (u / 0x1_0000_0000) as u32,
        ((u & 0xFFFF_FFFF) as u32) == (u % 0x1_0000_0000) as u32,
        u / 0x1_0000_0000 <= 0xFFFF_FFFF,
{
    assert(((u >> 32) as u32) == (u / 0x1_0000_0000) as u32 && ((u & 0xFFFF_FFFF) as u32) == (u
        % 0x1_0000_0000) as u32 && u / 0x1_0000_0000 <= 0xFFFF_FFFF) by (bit_vector);
}

/// The cast of a length to 32 bits keeps its low word.
proof fn lemma_len_low_word(n: usize)
    ensures
        (n as u32) == (n as int % 0x1_0000_0000) as u32,
{
    assert((n as u32) == (n as u64 % 0x1_0000_0000) as u32) by (bit_vector);
}

} // verus!
