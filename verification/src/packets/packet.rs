//! What every message has in common: it is a list of typed fields, and its
//! wire form is the fields' encodings one after the other.

use crate::reader::{
    be_u32, spec_read_string, spec_read_vint, varint_len, ByteReader, DecodeError, StringRead,
};
use crate::writer::{
    be_bytes_u32, bits32, string_field, vint_array_bytes, vint_bytes, ByteWriter,
};
use vstd::prelude::*;
use vstd::utf8::encode_utf8;

verus! {

/// One field of a message.
pub enum Field {
    /// A 32-bit integer, four bytes.
    Int(i32),
    /// A variable-length integer.
    VInt(i32),
    /// A boolean, one byte.
    Boolean(bool),
    /// An optional string.
    Str(Option<Seq<char>>),
    /// A two-part identifier as two 32-bit integers.
    Long(i32, i32),
    /// A two-part identifier as two variable-length integers.
    VLong(i32, i32),
    /// The class and the instance of a catalogue object.
    ScId(i32, i32),
    /// A counted list of variable-length integers.
    VIntArray(Seq<i32>),
    /// Bytes that were encoded elsewhere and are put in as they are.
    Raw(Seq<u8>),
}

/// The encoding of one field.
pub open spec fn field_bytes(field: Field) -> Seq<u8> {
    match field {
        Field::Int(v) => be_bytes_u32(bits32(v)),
        Field::VInt(v) => vint_bytes(bits32(v)),
        Field::Boolean(b) => seq![if b { 1u8 } else { 0u8 }],
        Field::Str(Some(s)) => string_field(Some(encode_utf8(s))),
        Field::Str(None) => string_field(None),
        Field::Long(high, low) => be_bytes_u32(bits32(high)) + be_bytes_u32(bits32(low)),
        Field::VLong(high, low) => vint_bytes(bits32(high)) + vint_bytes(bits32(low)),
        Field::ScId(class_id, instance_id) => vint_bytes(bits32(class_id)) + vint_bytes(
            bits32(instance_id),
        ),
        Field::VIntArray(values) => vint_bytes((values.len() % 0x1_0000_0000) as u32)
            + vint_array_bytes(values),
        Field::Raw(bytes) => bytes,
    }
}

/// The encoding of a list of fields: each field's encoding, in order.
pub open spec fn fields_bytes(fields: Seq<Field>) -> Seq<u8>
    decreases fields.len(),
{
    if fields.len() == 0 {
        Seq::empty()
    } else {
        fields_bytes(fields.drop_last()) + field_bytes(fields.last())
    }
}

/// Encoding a list with one more field appends that field's encoding.
pub proof fn lemma_fields_bytes_push(fields: Seq<Field>, field: Field)
    ensures
        fields_bytes(fields.push(field)) == fields_bytes(fields) + field_bytes(field),
{
    assert(fields.push(field).drop_last() =~= fields);
}

/// What kind of field a message has at some place. These are the kinds that
/// inbound messages are made of.
pub enum FieldKind {
    /// A 32-bit integer, four bytes.
    Int,
    /// A rotated, zigzag-encoded variable-length integer.
    VInt,
    /// A string.
    Str,
}

/// A field that was read.
pub enum FieldValue {
    Int(u32),
    VInt(i64),
    Str(Seq<char>),
}

/// Why a payload is not the message it should be.
pub enum DecodeFailure {
    /// It ends inside a field.
    Truncated,
    /// One of its strings is not UTF-8.
    NotUtf8,
}

/// What reading one field of the kind `kind` off the front of `s` gives: the
/// field and the rest of `s`, or the reason why there is no such field.
pub open spec fn read_field(s: Seq<u8>, kind: FieldKind) -> Result<
    (FieldValue, Seq<u8>),
    DecodeFailure,
> {
    match kind {
        FieldKind::Int => if s.len() >= 4 {
            Ok((FieldValue::Int(be_u32(s)), s.skip(4)))
        } else {
            Err(DecodeFailure::Truncated)
        },
        FieldKind::VInt => match spec_read_vint(s) {
            Some((value, rest)) => Ok((FieldValue::VInt(value), rest)),
            None => Err(DecodeFailure::Truncated),
        },
        FieldKind::Str => match spec_read_string(s) {
            StringRead::Text(text, rest) => Ok((FieldValue::Str(text), rest)),
            StringRead::Truncated(_) => Err(DecodeFailure::Truncated),
            StringRead::NotUtf8(_) => Err(DecodeFailure::NotUtf8),
        },
    }
}

/// What reading fields of the kinds `kinds`, one after the other, off the
/// front of `s` gives: the fields and the rest of `s`, or the reason why the
/// first field that cannot be read is not there.
pub open spec fn read_fields(s: Seq<u8>, kinds: Seq<FieldKind>) -> Result<
    (Seq<FieldValue>, Seq<u8>),
    DecodeFailure,
>
    decreases kinds.len(),
{
    if kinds.len() == 0 {
        Ok((Seq::empty(), s))
    } else {
        match read_fields(s, kinds.drop_last()) {
            Ok((values, rest)) => match read_field(rest, kinds.last()) {
                Ok((value, rest)) => Ok((values.push(value), rest)),
                Err(failure) => Err(failure),
            },
            Err(failure) => Err(failure),
        }
    }
}

/// What is left of `s` once a field of the kind `kind` was read off its
/// front, or was found not to be there.
pub open spec fn field_left(s: Seq<u8>, kind: FieldKind) -> Seq<u8> {
    match kind {
        FieldKind::Int => if s.len() >= 4 {
            s.skip(4)
        } else {
            s
        },
        FieldKind::VInt => match varint_len(s) {
            Some(n) => s.skip(n as int),
            None => Seq::empty(),
        },
        FieldKind::Str => match spec_read_string(s) {
            StringRead::Text(_, rest) => rest,
            StringRead::Truncated(rest) => rest,
            StringRead::NotUtf8(rest) => rest,
        },
    }
}

/// The fields of the kinds `kinds` that can be read off the front of `s`
/// one after the other: all of them, or those before the first that cannot
/// be read.
pub open spec fn fields_read(s: Seq<u8>, kinds: Seq<FieldKind>) -> Seq<FieldValue>
    decreases kinds.len(),
{
    if kinds.len() == 0 {
        Seq::empty()
    } else {
        match read_fields(s, kinds.drop_last()) {
            Ok((values, rest)) => match read_field(rest, kinds.last()) {
                Ok((value, _)) => values.push(value),
                Err(_) => values,
            },
            Err(_) => fields_read(s, kinds.drop_last()),
        }
    }
}

/// What is left of `s` once reading fields of the kinds `kinds` off its
/// front has come to its end, be it with the last field or with the first
/// that cannot be read.
pub open spec fn left_unread(s: Seq<u8>, kinds: Seq<FieldKind>) -> Seq<u8>
    decreases kinds.len(),
{
    if kinds.len() == 0 {
        s
    } else {
        match read_fields(s, kinds.drop_last()) {
            Ok((_, rest)) => field_left(rest, kinds.last()),
            Err(_) => left_unread(s, kinds.drop_last()),
        }
    }
}

/// Whether `error` is the error that a payload with the fault `failure`
/// gives: `UnexpectedEof` for a payload that is cut short, `Utf8Error` for
/// one with a string that is not UTF-8. No fault of a payload gives an
/// `IoError`.
pub open spec fn reports(error: DecodeError, failure: DecodeFailure) -> bool {
    match failure {
        DecodeFailure::Truncated => error is UnexpectedEof,
        DecodeFailure::NotUtf8 => error is Utf8Error,
    }
}

/// Reading one field more: where the first `k` fields of a layout were read,
/// the next field decides how reading the first `k + 1` ends.
pub proof fn lemma_read_fields_next(s: Seq<u8>, kinds: Seq<FieldKind>, k: int)
    requires
        0 <= k < kinds.len(),
        read_fields(s, kinds.take(k)) is Ok,
    ensures
        ({
            let (values, rest) = read_fields(s, kinds.take(k))->Ok_0;
            read_fields(s, kinds.take(k + 1)) == match read_field(rest, kinds[k]) {
                Ok((value, rest)) => Ok::<(Seq<FieldValue>, Seq<u8>), DecodeFailure>(
                    (values.push(value), rest),
                ),
                Err(failure) => Err(failure),
            }
        }),
{
    assert(kinds.take(k + 1).drop_last() =~= kinds.take(k));
    assert(kinds.take(k + 1).last() == kinds[k]);
}

/// Once a field cannot be read, no longer layout can be read either, and for
/// the same reason; no further field is read, and nothing more is taken
/// off the payload.
pub proof fn lemma_read_fields_fails(s: Seq<u8>, kinds: Seq<FieldKind>, k: int)
    requires
        0 <= k <= kinds.len(),
        read_fields(s, kinds.take(k)) is Err,
    ensures
        read_fields(s, kinds) == read_fields(s, kinds.take(k)),
        fields_read(s, kinds) == fields_read(s, kinds.take(k)),
        left_unread(s, kinds) == left_unread(s, kinds.take(k)),
    decreases kinds.len() - k,
{
    if k < kinds.len() {
        assert(kinds.take(k + 1).drop_last() =~= kinds.take(k));
        lemma_read_fields_fails(s, kinds, k + 1);
    } else {
        assert(kinds.take(k) =~= kinds);
    }
}

/// Where a layout can be read, all its fields are read, and what is left
/// is what lies behind them.
pub proof fn lemma_read_fields_reads_all(s: Seq<u8>, kinds: Seq<FieldKind>)
    requires
        read_fields(s, kinds) is Ok,
    ensures
        fields_read(s, kinds) == read_fields(s, kinds)->Ok_0.0,
        left_unread(s, kinds) == read_fields(s, kinds)->Ok_0.1,
        fields_read(s, kinds).len() == kinds.len(),
    decreases kinds.len(),
{
    if kinds.len() > 0 {
        lemma_read_fields_reads_all(s, kinds.drop_last());
    }
}

/// A message that a client sends.
pub trait ClientPacket {
    /// Fills the message from a payload. Where the payload is not such a
    /// message, what was read up to there stays filled in.
    fn decode(&mut self, stream: &mut ByteReader) -> (decoded: Result<(), DecodeError>);
}

/// A message that the server sends.
pub trait ServerPacket {
    /// Whether the message can be encoded as it stands.
    spec fn encodable(&self) -> bool;

    /// The fields of the message, in wire order.
    spec fn fields(&self) -> Seq<Field>;

    /// Encodes the message. The result is the payload of a frame, before encryption.
    fn encode(&mut self) -> (bytes: Vec<u8>)
        requires
            old(self).encodable(),
        ensures
            bytes@ == fields_bytes(old(self).fields()),
    ;
}

/// A [`ByteWriter`] that keeps track of the fields written into it.
pub(crate) struct FieldWriter {
    pub writer: ByteWriter,
    pub fields: Ghost<Seq<Field>>,
}

impl FieldWriter {
    pub(crate) open spec fn wf(&self) -> bool {
        &&& self.writer.wf()
        &&& self.writer@ == fields_bytes(self.fields@)
    }

    pub(crate) fn new() -> (w: Self)
        ensures
            w.wf(),
            w.fields@ == Seq::<Field>::empty(),
    {
        FieldWriter { writer: ByteWriter::new(), fields: Ghost(Seq::empty()) }
    }

    pub(crate) fn put_int(&mut self, value: i32)
        requires
            old(self).wf(),
        ensures
            final(self).wf(),
            final(self).fields@ == old(self).fields@.push(Field::Int(value)),
    {
        self.writer.write_int(value);
        proof {
            lemma_fields_bytes_push(self.fields@, Field::Int(value));
            self.fields@ = self.fields@.push(Field::Int(value));
        }
    }

    pub(crate) fn put_vint(&mut self, value: i32)
        requires
            old(self).wf(),
        ensures
            final(self).wf(),
            final(self).fields@ == old(self).fields@.push(Field::VInt(value)),
    {
        self.writer.write_vint(value);
        proof {
            lemma_fields_bytes_push(self.fields@, Field::VInt(value));
            self.fields@ = self.fields@.push(Field::VInt(value));
        }
    }

    pub(crate) fn put_boolean(&mut self, value: bool)
        requires
            old(self).wf(),
        ensures
            final(self).wf(),
            final(self).fields@ == old(self).fields@.push(Field::Boolean(value)),
    {
        self.writer.write_boolean(value);
        proof {
            lemma_fields_bytes_push(self.fields@, Field::Boolean(value));
            assert(old(self).writer@.push(if value { 1u8 } else { 0u8 }) =~= old(self).writer@
                + field_bytes(Field::Boolean(value)));
            self.fields@ = self.fields@.push(Field::Boolean(value));
        }
    }

    pub(crate) fn put_string(&mut self, value: Option<&str>)
        requires
            old(self).wf(),
        ensures
            final(self).wf(),
            final(self).fields@ == old(self).fields@.push(
                Field::Str(
                    match value {
                        Some(s) => Some(s@),
                        None => None,
                    },
                ),
            ),
    {
        self.writer.write_string(value);
        proof {
            let field = Field::Str(
                match value {
                    Some(s) => Some(s@),
                    None => None,
                },
            );
            lemma_fields_bytes_push(self.fields@, field);
            self.fields@ = self.fields@.push(field);
        }
    }

    pub(crate) fn put_long(&mut self, high: i32, low: i32)
        requires
            old(self).wf(),
        ensures
            final(self).wf(),
            final(self).fields@ == old(self).fields@.push(Field::Long(high, low)),
    {
        self.writer.write_long(high, low);
        proof {
            lemma_fields_bytes_push(self.fields@, Field::Long(high, low));
            assert(self.writer@ =~= old(self).writer@ + field_bytes(Field::Long(high, low)));
            self.fields@ = self.fields@.push(Field::Long(high, low));
        }
    }

    pub(crate) fn put_vlong(&mut self, high: i32, low: i32)
        requires
            old(self).wf(),
        ensures
            final(self).wf(),
            final(self).fields@ == old(self).fields@.push(Field::VLong(high, low)),
    {
        self.writer.write_vlong(high, low);
        proof {
            lemma_fields_bytes_push(self.fields@, Field::VLong(high, low));
            assert(self.writer@ =~= old(self).writer@ + field_bytes(Field::VLong(high, low)));
            self.fields@ = self.fields@.push(Field::VLong(high, low));
        }
    }

    pub(crate) fn put_sc_id(&mut self, class_id: i32, instance_id: i32)
        requires
            old(self).wf(),
        ensures
            final(self).wf(),
            final(self).fields@ == old(self).fields@.push(Field::ScId(class_id, instance_id)),
    {
        self.writer.write_sc_id(class_id, instance_id);
        proof {
            let field = Field::ScId(class_id, instance_id);
            lemma_fields_bytes_push(self.fields@, field);
            assert(self.writer@ =~= old(self).writer@ + field_bytes(field));
            self.fields@ = self.fields@.push(field);
        }
    }

    pub(crate) fn put_array_vint(&mut self, values: Vec<i32>)
        requires
            old(self).wf(),
        ensures
            final(self).wf(),
            final(self).fields@ == old(self).fields@.push(Field::VIntArray(values@)),
    {
        let ghost field = Field::VIntArray(values@);
        self.writer.write_array_vint(values);
        proof {
            lemma_fields_bytes_push(self.fields@, field);
            assert(self.writer@ =~= old(self).writer@ + field_bytes(field));
            self.fields@ = self.fields@.push(field);
        }
    }

    pub(crate) fn put_raw(&mut self, bytes: &[u8])
        requires
            old(self).wf(),
        ensures
            final(self).wf(),
            final(self).fields@ == old(self).fields@.push(Field::Raw(bytes@)),
    {
        self.writer.write_raw(bytes);
        proof {
            lemma_fields_bytes_push(self.fields@, Field::Raw(bytes@));
            self.fields@ = self.fields@.push(Field::Raw(bytes@));
        }
    }

    pub(crate) fn finish(self) -> (bytes: Vec<u8>)
        requires
            self.wf(),
        ensures
            bytes@ == fields_bytes(self.fields@),
    {
        self.writer.buffer
    }
}

} // verus!
