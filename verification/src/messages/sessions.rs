//! The payloads of the session topics: a reference to a session, the
//! details of a session and a detection.

use crate::messages::text::string_from_utf8;
use crate::wire::{
    extend_bytes, fields_in, fixed32_field_bytes, len_field_bytes, parse_fields, scan_fields,
    twos_complement, varint_field_bytes, write_fixed32_field, write_int_field, write_len_field,
    write_varint_field, DecodeError, Field, FieldSpec, WireType,
};
use vstd::prelude::*;
use vstd::string::StringSliceAdditionalSpecFns;
use vstd::utf8::{decode_utf8, encode_utf8, valid_utf8};

verus! {

/// Field number of the session id in a session reference.
pub const SESSION_TAG: u32 = 1;

/// Takes the fields of a session reference into a session id, each field in
/// turn: field 1 must be length-delimited UTF-8; fields with other numbers
/// are passed over.
pub open spec fn merge_session(fields: Seq<FieldSpec>) -> Option<Seq<char>>
    decreases fields.len(),
{
    if fields.len() == 0 {
        Some(Seq::empty())
    } else {
        let f = fields.last();
        match merge_session(fields.drop_last()) {
            Some(session) => if f.tag == SESSION_TAG {
                if f.wire == WireType::LengthDelimited && valid_utf8(f.data) {
                    Some(decode_utf8(f.data))
                } else {
                    None
                }
            } else {
                Some(session)
            },
            None => None,
        }
    }
}

/// The session id that a session reference holds.
pub open spec fn decoded_session(bytes: Seq<u8>) -> Result<Seq<char>, DecodeError> {
    match parse_fields(bytes) {
        Some(fields) => match merge_session(fields) {
            Some(session) => Ok(session),
            None => Err(DecodeError::InvalidField),
        },
        None => Err(DecodeError::Malformed),
    }
}

/// Once a part of the fields cannot be taken into a session id, no more
/// fields mend it.
pub proof fn lemma_merge_session_fails(fields: Seq<FieldSpec>, n: int)
    requires
        0 <= n <= fields.len(),
        merge_session(fields.take(n)) is None,
    ensures
        merge_session(fields) is None,
    decreases fields.len() - n,
{
    if n < fields.len() {
        assert(fields.take(n + 1).drop_last() =~= fields.take(n));
        lemma_merge_session_fails(fields, n + 1);
    } else {
        assert(fields.take(n) =~= fields);
    }
}

/// The session id that the payload `buf` holds, or why it holds none.
pub fn decode_session(buf: &[u8]) -> (r: Result<String, DecodeError>)
    ensures
        match r {
            Ok(session) => decoded_session(buf@) == Ok::<Seq<char>, DecodeError>(session@),
            Err(e) => decoded_session(buf@) == Err::<Seq<char>, DecodeError>(e),
        },
{
    let fields = match scan_fields(buf) {
        Some(fields) => fields,
        None => {
            return Err(DecodeError::Malformed);
        },
    };
    let ghost all = fields_in(fields@, buf@);
    let mut session = String::new();
    let mut i: usize = 0;
    assert(all.take(0) =~= Seq::<FieldSpec>::empty());
    while i < fields.len()
        invariant
            i <= fields@.len(),
            all == fields_in(fields@, buf@),
            parse_fields(buf@) == Some(all),
            forall|j: int| 0 <= j < fields@.len() ==> (#[trigger] fields@[j]).within(buf@),
            merge_session(all.take(i as int)) == Some(session@),
        decreases fields@.len() - i,
    {
        let f: Field = fields[i];
        proof {
            assert(all.take(i + 1).drop_last() =~= all.take(i as int));
            assert(all.take(i + 1).last() == f.spec_in(buf@));
        }
        if f.tag == SESSION_TAG {
            let text = match f.wire {
                WireType::LengthDelimited => {
                    let mut data: Vec<u8> = Vec::new();
                    extend_bytes(&mut data, buf, f.start, f.end);
                    assert(data@ =~= f.spec_in(buf@).data);
                    string_from_utf8(data)
                },
                _ => None,
            };
            match text {
                Some(text) => {
                    session = text;
                },
                None => {
                    proof {
                        lemma_merge_session_fails(all, i + 1);
                    }
                    return Err(DecodeError::InvalidField);
                },
            }
        }
        i = i + 1;
    }
    assert(all.take(i as int) =~= all);
    Ok(session)
}

/// A text field, left out where the text is empty.
pub open spec fn text_field(tag: nat, text: Seq<char>) -> Seq<u8> {
    if text.len() == 0 {
        Seq::empty()
    } else {
        len_field_bytes(tag, encode_utf8(text))
    }
}

/// A field for a signed number, left out where the number is 0.
pub open spec fn int_field(tag: nat, v: int) -> Seq<u8> {
    if v == 0 {
        Seq::empty()
    } else {
        varint_field_bytes(tag, twos_complement(v))
    }
}

/// A field for a boolean, left out where it is `false`.
pub open spec fn bool_field(tag: nat, v: bool) -> Seq<u8> {
    if v {
        varint_field_bytes(tag, 1)
    } else {
        Seq::empty()
    }
}

/// A field for a signed number that may be absent: written where the number
/// is there, 0 too.
pub open spec fn optional_int_field(tag: nat, v: Option<int>) -> Seq<u8> {
    match v {
        Some(v) => varint_field_bytes(tag, twos_complement(v)),
        None => Seq::empty(),
    }
}

/// A field for a 32-bit float given by its bits, left out where the float
/// is zero of either sign.
pub open spec fn float_field(tag: nat, bits: u32) -> Seq<u8> {
    if bits == 0 || bits == 0x8000_0000 {
        Seq::empty()
    } else {
        fixed32_field_bytes(tag, bits)
    }
}

/// The details of a session as the session events carry them.
pub struct SessionDetails {
    pub session: Seq<char>,
    pub active: bool,
    pub opened: int,
    pub closed: Option<int>,
    pub detections: int,
}

/// The payload of a session event: session id, active flag, time of
/// opening, time of closing and number of detections as fields 1 to 5.
pub open spec fn session_details_bytes(d: SessionDetails) -> Seq<u8> {
    text_field(1, d.session) + bool_field(2, d.active) + int_field(3, d.opened)
        + optional_int_field(4, d.closed) + int_field(5, d.detections)
}

/// A detection as the detection event carries it. `score` is the confidence
/// as the bits of a 32-bit float.
pub struct Detection {
    pub session: Seq<char>,
    pub detection: int,
    pub created: int,
    pub updated: int,
    pub score: u32,
    pub clazz: int,
    pub width: int,
    pub height: int,
    pub image: Seq<u8>,
}

/// The payload of a detection event: session id, detection id, times of
/// creation and update, confidence, class, width, height and image as
/// fields 1 to 9. The image is always written.
pub open spec fn detection_bytes(d: Detection) -> Seq<u8> {
    text_field(1, d.session) + int_field(2, d.detection) + int_field(3, d.created) + int_field(
        4,
        d.updated,
    ) + float_field(5, d.score) + int_field(6, d.clazz) + int_field(7, d.width) + int_field(
        8,
        d.height,
    ) + len_field_bytes(9, d.image)
}

/// Appends a text field unless the text is empty.
fn write_text(tag: u32, text: &str, out: &mut Vec<u8>)
    requires
        1 <= tag <= crate::wire::MAX_TAG,
    ensures
        final(out)@ == old(out)@ + text_field(tag as nat, text@),
{
    let bytes = text.as_bytes();
    proof {
        crate::messages::protobuf_msg::lemma_empty_text(text@);
    }
    if bytes.len() > 0 {
        write_len_field(tag, bytes, out);
    } else {
        assert(out@ =~= old(out)@ + text_field(tag as nat, text@));
    }
}

/// Appends a field for a signed number unless the number is 0.
fn write_int(tag: u32, v: i64, out: &mut Vec<u8>)
    requires
        1 <= tag <= crate::wire::MAX_TAG,
    ensures
        final(out)@ == old(out)@ + int_field(tag as nat, v as int),
{
    if v != 0 {
        write_int_field(tag, v, out);
    } else {
        assert(out@ =~= old(out)@ + int_field(tag as nat, v as int));
    }
}

/// The payload of a session event.
pub fn encode_session_details(
    session: &str,
    active: bool,
    opened: i64,
    closed: Option<i64>,
    detections: i32,
) -> (payload: Vec<u8>)
    ensures
        payload@ == session_details_bytes(
            SessionDetails {
                session: session@,
                active,
                opened: opened as int,
                closed: match closed {
                    Some(c) => Some(c as int),
                    None => None,
                },
                detections: detections as int,
            },
        ),
{
    let mut out: Vec<u8> = Vec::new();
    write_text(1, session, &mut out);
    let ghost s1 = out@;
    if active {
        write_varint_field(2, 1, &mut out);
    }
    let ghost s2 = out@;
    assert(s2 =~= s1 + bool_field(2, active));
    write_int(3, opened, &mut out);
    let ghost s3 = out@;
    match closed {
        Some(c) => {
            write_int_field(4, c, &mut out);
        },
        None => {},
    }
    let ghost s4 = out@;
    assert(s4 =~= s3 + optional_int_field(
        4,
        match closed {
            Some(c) => Some(c as int),
            None => None,
        },
    ));
    write_int(5, detections as i64, &mut out);
    assert(s1 =~= text_field(1, session@));
    out
}

/// The payload of a detection event.
pub fn encode_detection(
    session: &str,
    detection: i32,
    created: i64,
    updated: i64,
    score: u32,
    clazz: i32,
    width: i32,
    height: i32,
    image: &[u8],
) -> (payload: Vec<u8>)
    ensures
        payload@ == detection_bytes(
            Detection {
                session: session@,
                detection: detection as int,
                created: created as int,
                updated: updated as int,
                score,
                clazz: clazz as int,
                width: width as int,
                height: height as int,
                image: image@,
            },
        ),
{
    let mut out: Vec<u8> = Vec::new();
    write_text(1, session, &mut out);
    assert(out@ =~= text_field(1, session@));
    write_int(2, detection as i64, &mut out);
    write_int(3, created, &mut out);
    write_int(4, updated, &mut out);
    let ghost s4 = out@;
    if score != 0 && score != 0x8000_0000 {
        write_fixed32_field(5, score, &mut out);
    }
    assert(out@ =~= s4 + float_field(5, score));
    write_int(6, clazz as i64, &mut out);
    write_int(7, width as i64, &mut out);
    write_int(8, height as i64, &mut out);
    write_len_field(9, image, &mut out);
    out
}

} // verus!
