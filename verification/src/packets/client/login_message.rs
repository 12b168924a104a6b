//! The first message of every connection: who the client is.

use crate::packets::packet::{
    field_left, fields_read, left_unread, lemma_read_fields_fails,
    lemma_read_fields_next, lemma_read_fields_reads_all, read_field, read_fields, reports,
    ClientPacket, DecodeFailure, FieldKind, FieldValue,
};
use crate::reader::{ByteReader, DecodeError};
use vstd::prelude::*;
use vstd::string::StrSliceExecFns;

verus! {

/// A client's request to log in.
#[derive(Debug)]
pub struct LoginMessage {
    pub high_id: u32,
    pub low_id: u32,
    pub token: String,
    pub major_version: u32,
    pub minor_version: u32,
    pub build: u32,
    pub fingerprint_sha: String,
    pub unknown_string1: String,
    pub device_id: String,
    pub unknown_string2: String,
    pub device: String,
    pub system_language: u32,
    pub region: String,
}

/// A [`LoginMessage`] with its strings as character sequences.
pub struct LoginView {
    pub high_id: u32,
    pub low_id: u32,
    pub token: Seq<char>,
    pub major_version: u32,
    pub minor_version: u32,
    pub build: u32,
    pub fingerprint_sha: Seq<char>,
    pub unknown_string1: Seq<char>,
    pub device_id: Seq<char>,
    pub unknown_string2: Seq<char>,
    pub device: Seq<char>,
    pub system_language: u32,
    pub region: Seq<char>,
}

impl View for LoginMessage {
    type V = LoginView;

    open spec fn view(&self) -> LoginView {
        LoginView {
            high_id: self.high_id,
            low_id: self.low_id,
            token: self.token@,
            major_version: self.major_version,
            minor_version: self.minor_version,
            build: self.build,
            fingerprint_sha: self.fingerprint_sha@,
            unknown_string1: self.unknown_string1@,
            device_id: self.device_id@,
            unknown_string2: self.unknown_string2@,
            device: self.device@,
            system_language: self.system_language,
            region: self.region@,
        }
    }
}

/// The fields of a login, in wire order: the player's identifier in two
/// halves, the token, the three parts of the client's version, five strings
/// about the client and its device, the number of the system language, and
/// the language tag.
pub open spec fn login_layout() -> Seq<FieldKind> {
    seq![
        FieldKind::Int,
        FieldKind::Int,
        FieldKind::Str,
        FieldKind::Int,
        FieldKind::Int,
        FieldKind::Int,
        FieldKind::Str,
        FieldKind::Str,
        FieldKind::Str,
        FieldKind::Str,
        FieldKind::Str,
        FieldKind::VInt,
        FieldKind::Str,
    ]
}

/// Where the first hyphen of `text` stands, or the length of `text` where it has none.
pub open spec fn first_hyphen(text: Seq<char>) -> int
    decreases text.len(),
{
    if text.len() == 0 {
        0
    } else if text[0] == '-' {
        0
    } else {
        1 + first_hyphen(text.skip(1))
    }
}

/// The region of a language tag: what stands between its first hyphen and
/// its second, or behind its first where there is no second. A tag without
/// a hyphen names no region.
pub open spec fn region_of(tag: Seq<char>) -> Seq<char> {
    let hyphen = first_hyphen(tag);
    if hyphen >= tag.len() {
        Seq::empty()
    } else {
        let behind = tag.skip(hyphen + 1);
        behind.take(first_hyphen(behind))
    }
}

/// The login that the fields `values` make up.
pub open spec fn login_of(values: Seq<FieldValue>) -> LoginView
    recommends
        values.len() == 13,
{
    LoginView {
        high_id: values[0]->Int_0,
        low_id: values[1]->Int_0,
        token: values[2]->Str_0,
        major_version: values[3]->Int_0,
        minor_version: values[4]->Int_0,
        build: values[5]->Int_0,
        fingerprint_sha: values[6]->Str_0,
        unknown_string1: values[7]->Str_0,
        device_id: values[8]->Str_0,
        unknown_string2: values[9]->Str_0,
        device: values[10]->Str_0,
        system_language: values[11]->VInt_0 as u32,
        region: region_of(values[12]->Str_0),
    }
}

/// The login `before` once the fields `values` were filled in, in the order
/// of the layout. Fields for which there is no value stay as they were.
pub open spec fn login_filled(before: LoginView, values: Seq<FieldValue>) -> LoginView {
    LoginView {
        high_id: if values.len() > 0 {
            values[0]->Int_0
        } else {
            before.high_id
        },
        low_id: if values.len() > 1 {
            values[1]->Int_0
        } else {
            before.low_id
        },
        token: if values.len() > 2 {
            values[2]->Str_0
        } else {
            before.token
        },
        major_version: if values.len() > 3 {
            values[3]->Int_0
        } else {
            before.major_version
        },
        minor_version: if values.len() > 4 {
            values[4]->Int_0
        } else {
            before.minor_version
        },
        build: if values.len() > 5 {
            values[5]->Int_0
        } else {
            before.build
        },
        fingerprint_sha: if values.len() > 6 {
            values[6]->Str_0
        } else {
            before.fingerprint_sha
        },
        unknown_string1: if values.len() > 7 {
            values[7]->Str_0
        } else {
            before.unknown_string1
        },
        device_id: if values.len() > 8 {
            values[8]->Str_0
        } else {
            before.device_id
        },
        unknown_string2: if values.len() > 9 {
            values[9]->Str_0
        } else {
            before.unknown_string2
        },
        device: if values.len() > 10 {
            values[10]->Str_0
        } else {
            before.device
        },
        system_language: if values.len() > 11 {
            values[11]->VInt_0 as u32
        } else {
            before.system_language
        },
        region: if values.len() > 12 {
            region_of(values[12]->Str_0)
        } else {
            before.region
        },
    }
}

/// The first `k` fields of a login were read off `start`, and `rest` is
/// what is left of it.
pub open spec fn read_up_to(start: Seq<u8>, k: int, values: Seq<FieldValue>, rest: Seq<u8>) -> bool {
    &&& values.len() == k
    &&& read_fields(start, login_layout().take(k)) == Ok::<
        (Seq<FieldValue>, Seq<u8>),
        DecodeFailure,
    >((values, rest))
}

/// Reading a login off `start` came to its end with `error`, after the
/// fields `values`, and `rest` is what is left of it.
pub open spec fn stopped_with(
    start: Seq<u8>,
    error: DecodeError,
    values: Seq<FieldValue>,
    rest: Seq<u8>,
) -> bool {
    &&& read_fields(start, login_layout()) matches Err(failure)
    &&& reports(error, failure)
    &&& fields_read(start, login_layout()) == values
    &&& left_unread(start, login_layout()) == rest
}

/// Where the first `k` fields of a login were read and the next one cannot
/// be, reading the login stops there.
proof fn lemma_login_stops(start: Seq<u8>, k: int, values: Seq<FieldValue>, rest: Seq<u8>)
    requires
        0 <= k < login_layout().len(),
        read_up_to(start, k, values, rest),
        read_field(rest, login_layout()[k]) is Err,
    ensures
        read_fields(start, login_layout()) == Err::<(Seq<FieldValue>, Seq<u8>), DecodeFailure>(
            read_field(rest, login_layout()[k])->Err_0,
        ),
        fields_read(start, login_layout()) == values,
        left_unread(start, login_layout()) == field_left(rest, login_layout()[k]),
{
    let kinds = login_layout();
    lemma_read_fields_next(start, kinds, k);
    assert(kinds.take(k + 1).drop_last() =~= kinds.take(k));
    assert(kinds.take(k + 1).last() == kinds[k]);
    lemma_read_fields_fails(start, kinds, k + 1);
}

impl Default for LoginMessage {
    fn default() -> (message: Self)
        ensures
            message@ == (LoginView {
                high_id: 0,
                low_id: 0,
                token: Seq::empty(),
                major_version: 0,
                minor_version: 0,
                build: 0,
                fingerprint_sha: Seq::empty(),
                unknown_string1: Seq::empty(),
                device_id: Seq::empty(),
                unknown_string2: Seq::empty(),
                device: Seq::empty(),
                system_language: 0,
                region: Seq::empty(),
            }),
    {
        LoginMessage {
            high_id: 0,
            low_id: 0,
            token: String::new(),
            major_version: 0,
            minor_version: 0,
            build: 0,
            fingerprint_sha: String::new(),
            unknown_string1: String::new(),
            device_id: String::new(),
            unknown_string2: String::new(),
            device: String::new(),
            system_language: 0,
            region: String::new(),
        }
    }
}

/// Reads the next field of a login, an integer.
fn take_int(
    stream: &mut ByteReader,
    Ghost(start): Ghost<Seq<u8>>,
    Ghost(k): Ghost<int>,
    Ghost(values): Ghost<Seq<FieldValue>>,
) -> (read: Result<u32, DecodeError>)
    requires
        0 <= k < login_layout().len(),
        login_layout()[k] is Int,
        read_up_to(start, k, values, old(stream)@),
    ensures
        match read {
            Ok(value) => read_up_to(
                start,
                k + 1,
                values.push(FieldValue::Int(value)),
                final(stream)@,
            ),
            Err(error) => stopped_with(start, error, values, final(stream)@),
        },
{
    proof {
        lemma_read_fields_next(start, login_layout(), k);
    }
    match stream.read_u32() {
        Ok(value) => Ok(value),
        Err(error) => {
            proof {
                lemma_login_stops(start, k, values, old(stream)@);
            }
            Err(error)
        },
    }
}

/// Reads the next field of a login, a string.
fn take_string(
    stream: &mut ByteReader,
    Ghost(start): Ghost<Seq<u8>>,
    Ghost(k): Ghost<int>,
    Ghost(values): Ghost<Seq<FieldValue>>,
) -> (read: Result<String, DecodeError>)
    requires
        0 <= k < login_layout().len(),
        login_layout()[k] is Str,
        read_up_to(start, k, values, old(stream)@),
    ensures
        match read {
            Ok(value) => read_up_to(
                start,
                k + 1,
                values.push(FieldValue::Str(value@)),
                final(stream)@,
            ),
            Err(error) => stopped_with(start, error, values, final(stream)@),
        },
{
    proof {
        lemma_read_fields_next(start, login_layout(), k);
    }
    match stream.read_string() {
        Ok(value) => Ok(value),
        Err(error) => {
            proof {
                lemma_login_stops(start, k, values, old(stream)@);
            }
            Err(error)
        },
    }
}

/// Reads the next field of a login, a variable-length integer.
fn take_vint(
    stream: &mut ByteReader,
    Ghost(start): Ghost<Seq<u8>>,
    Ghost(k): Ghost<int>,
    Ghost(values): Ghost<Seq<FieldValue>>,
) -> (read: Result<i64, DecodeError>)
    requires
        0 <= k < login_layout().len(),
        login_layout()[k] is VInt,
        read_up_to(start, k, values, old(stream)@),
    ensures
        match read {
            Ok(value) => read_up_to(
                start,
                k + 1,
                values.push(FieldValue::VInt(value)),
                final(stream)@,
            ),
            Err(error) => stopped_with(start, error, values, final(stream)@),
        },
{
    proof {
        lemma_read_fields_next(start, login_layout(), k);
    }
    match stream.read_vint() {
        Ok(value) => Ok(value),
        Err(error) => {
            proof {
                lemma_login_stops(start, k, values, old(stream)@);
                assert(stream@ =~= Seq::<u8>::empty());
            }
            Err(error)
        },
    }
}

/// Where the first hyphen of `text` stands at or behind `from`, or the
/// length of `text` where none does.
fn find_hyphen(text: &str, from: usize, len: usize) -> (at: usize)
    requires
        len == text@.len(),
        from <= len,
    ensures
        from <= at <= len,
        at == from + first_hyphen(text@.skip(from as int)),
{
    let mut i = from;
    while i < len && text.get_char(i) != '-'
        invariant
            from <= i <= len,
            len == text@.len(),
            first_hyphen(text@.skip(from as int)) == (i - from) + first_hyphen(
                text@.skip(i as int),
            ),
        decreases len - i,
    {
        assert(text@.skip(i as int).skip(1) =~= text@.skip(i + 1));
        i += 1;
    }
    i
}

/// The region that a language tag names.
fn region(tag: &str) -> (named: String)
    ensures
        named@ == region_of(tag@),
{
    let len = tag.unicode_len();
    assert(tag@.skip(0) =~= tag@);
    let hyphen = find_hyphen(tag, 0, len);
    if hyphen >= len {
        return String::new();
    }
    let end = find_hyphen(tag, hyphen + 1, len);
    let named = tag.substring_char(hyphen + 1, end);
    assert(tag@.subrange(hyphen + 1, end as int) =~= tag@.skip(hyphen + 1).take(
        end - (hyphen + 1),
    ));
    named.to_owned()
}

impl ClientPacket for LoginMessage {
    /// Fills the message from a payload. It succeeds exactly where the
    /// payload starts with the fields of a login; what follows them is left
    /// in `stream`. A payload that is cut short gives `UnexpectedEof`, one
    /// with a string that is not UTF-8 gives `Utf8Error`, and nothing gives
    /// another error. Where it fails, the fields in front of the one that
    /// cannot be read are filled in and the others stay as they were.
    fn decode(&mut self, stream: &mut ByteReader) -> (decoded: Result<(), DecodeError>)
        ensures
            final(self)@ == login_filled(
                old(self)@,
                fields_read(old(stream)@, login_layout()),
            ),
            final(stream)@ == left_unread(old(stream)@, login_layout()),
            match decoded {
                Ok(()) => read_fields(old(stream)@, login_layout()) matches Ok((values, rest))
                    && final(self)@ == login_of(values) && final(stream)@ == rest,
                Err(error) => {
                    &&& read_fields(old(stream)@, login_layout()) matches Err(failure)
                    &&& (failure is Truncated <==> error is UnexpectedEof)
                    &&& (failure is NotUtf8 <==> error is Utf8Error)
                },
            },
    {
        let ghost start = stream@;
        let ghost v0 = Seq::<FieldValue>::empty();
        assert(login_layout().take(0) =~= Seq::<FieldKind>::empty());

        let high_id = take_int(stream, Ghost(start), Ghost(0), Ghost(v0))?;
        self.high_id = high_id;
        let ghost v1 = v0.push(FieldValue::Int(high_id));
        let low_id = take_int(stream, Ghost(start), Ghost(1), Ghost(v1))?;
        self.low_id = low_id;
        let ghost v2 = v1.push(FieldValue::Int(low_id));

        let token = take_string(stream, Ghost(start), Ghost(2), Ghost(v2))?;
        let ghost v3 = v2.push(FieldValue::Str(token@));
        self.token = token;

        let major_version = take_int(stream, Ghost(start), Ghost(3), Ghost(v3))?;
        self.major_version = major_version;
        let ghost v4 = v3.push(FieldValue::Int(major_version));
        let minor_version = take_int(stream, Ghost(start), Ghost(4), Ghost(v4))?;
        self.minor_version = minor_version;
        let ghost v5 = v4.push(FieldValue::Int(minor_version));
        let build = take_int(stream, Ghost(start), Ghost(5), Ghost(v5))?;
        self.build = build;
        let ghost v6 = v5.push(FieldValue::Int(build));

        let fingerprint_sha = take_string(stream, Ghost(start), Ghost(6), Ghost(v6))?;
        let ghost v7 = v6.push(FieldValue::Str(fingerprint_sha@));
        self.fingerprint_sha = fingerprint_sha;
        let unknown_string1 = take_string(stream, Ghost(start), Ghost(7), Ghost(v7))?;
        let ghost v8 = v7.push(FieldValue::Str(unknown_string1@));
        self.unknown_string1 = unknown_string1;

        let device_id = take_string(stream, Ghost(start), Ghost(8), Ghost(v8))?;
        let ghost v9 = v8.push(FieldValue::Str(device_id@));
        self.device_id = device_id;
        let unknown_string2 = take_string(stream, Ghost(start), Ghost(9), Ghost(v9))?;
        let ghost v10 = v9.push(FieldValue::Str(unknown_string2@));
        self.unknown_string2 = unknown_string2;

        let device = take_string(stream, Ghost(start), Ghost(10), Ghost(v10))?;
        let ghost v11 = v10.push(FieldValue::Str(device@));
        self.device = device;
        let system_language = take_vint(stream, Ghost(start), Ghost(11), Ghost(v11))?;
        self.system_language = #[verifier::truncate] (system_language as u32);
        let ghost v12 = v11.push(FieldValue::VInt(system_language));

        let lang = take_string(stream, Ghost(start), Ghost(12), Ghost(v12))?;
        self.region = region(lang.as_str());

        proof {
            assert(login_layout().take(13) =~= login_layout());
            lemma_read_fields_reads_all(start, login_layout());
        }
        Ok(())
    }
}

} // verus!
