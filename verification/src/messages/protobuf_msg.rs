//! The envelope: a topic and an opaque payload, and its wire frame.

use crate::messages::raw_message::RawMessage;
use crate::messages::text::{string_from_utf8, trim, trimmed};
use crate::wire::{
    extend_bytes, fields_in, last_field, lemma_len_field_round_trip, lemma_parse_fields_cons,
    len_field_bytes, parse_fields, scan_fields, write_len_field, DecodeError, Field, FieldSpec,
    WireType,
};
use vstd::prelude::*;
use vstd::string::StringSliceAdditionalSpecFns;
use vstd::utf8::{decode_utf8, encode_utf8, valid_utf8};

verus! {

/// Field number of the topic in a wire frame.
pub const TOPIC_TAG: u32 = 1;

/// Field number of the payload in a wire frame.
pub const PAYLOAD_TAG: u32 = 2;

/// A message on a bus: `identifier` is the topic that routes it, `payload`
/// the serialised message that the topic stands for.
#[derive(Clone, Hash, Debug, Eq, PartialEq)]
pub struct ProtobufMsg {
    pub identifier: String,
    pub payload: Vec<u8>,
}

/// An envelope as a pair of sequences.
pub struct Envelope {
    pub identifier: Seq<char>,
    pub payload: Seq<u8>,
}

impl View for ProtobufMsg {
    type V = Envelope;

    open spec fn view(&self) -> Envelope {
        Envelope { identifier: self.identifier@, payload: self.payload@ }
    }
}

/// The wire frame of an envelope: the topic as field 1, the payload as
/// field 2, each left out where it is empty.
pub open spec fn envelope_bytes(e: Envelope) -> Seq<u8> {
    let topic = if e.identifier.len() == 0 {
        Seq::empty()
    } else {
        len_field_bytes(TOPIC_TAG as nat, encode_utf8(e.identifier))
    };
    let payload = if e.payload.len() == 0 {
        Seq::empty()
    } else {
        len_field_bytes(PAYLOAD_TAG as nat, e.payload)
    };
    topic + payload
}

/// Takes the fields of a wire frame into an envelope, each field in turn,
/// so that of two fields with one number the later stands. A topic or a
/// payload that is not length-delimited, or a topic that is no UTF-8, gives
/// `None`; fields with other numbers are passed over.
pub open spec fn merge_envelope(fields: Seq<FieldSpec>) -> Option<Envelope>
    decreases fields.len(),
{
    if fields.len() == 0 {
        Some(Envelope { identifier: Seq::empty(), payload: Seq::empty() })
    } else {
        let f = fields.last();
        match merge_envelope(fields.drop_last()) {
            Some(e) => if f.tag == TOPIC_TAG {
                if f.wire == WireType::LengthDelimited && valid_utf8(f.data) {
                    Some(Envelope { identifier: decode_utf8(f.data), payload: e.payload })
                } else {
                    None
                }
            } else if f.tag == PAYLOAD_TAG {
                if f.wire == WireType::LengthDelimited {
                    Some(Envelope { identifier: e.identifier, payload: f.data })
                } else {
                    None
                }
            } else {
                Some(e)
            },
            None => None,
        }
    }
}

/// Whether field `f` can stand in a wire frame: a topic is length-delimited
/// UTF-8, a payload is length-delimited, any other field is free.
pub open spec fn fits_envelope(f: FieldSpec) -> bool {
    &&& f.tag == TOPIC_TAG ==> f.wire == WireType::LengthDelimited && valid_utf8(f.data)
    &&& f.tag == PAYLOAD_TAG ==> f.wire == WireType::LengthDelimited
}

/// What `merge_envelope` comes to. The fields give an envelope exactly
/// where each of them can stand in a wire frame; its topic is the text of
/// the last topic field and its payload the bytes of the last payload
/// field, each empty where there is no such field.
pub proof fn lemma_merge_envelope(fields: Seq<FieldSpec>)
    ensures
        merge_envelope(fields) == if forall|i: int|
            0 <= i < fields.len() ==> fits_envelope(#[trigger] fields[i]) {
            Some(
                Envelope {
                    identifier: match last_field(fields, TOPIC_TAG as nat) {
                        Some(f) => decode_utf8(f.data),
                        None => Seq::empty(),
                    },
                    payload: match last_field(fields, PAYLOAD_TAG as nat) {
                        Some(f) => f.data,
                        None => Seq::empty(),
                    },
                },
            )
        } else {
            None
        },
    decreases fields.len(),
{
    if fields.len() > 0 {
        let rest = fields.drop_last();
        lemma_merge_envelope(rest);
        let all_fit = forall|i: int| 0 <= i < fields.len() ==> fits_envelope(#[trigger] fields[i]);
        let rest_fit = forall|i: int| 0 <= i < rest.len() ==> fits_envelope(#[trigger] rest[i]);
        assert(all_fit <==> rest_fit && fits_envelope(fields.last())) by {
            if all_fit {
                assert forall|i: int| 0 <= i < rest.len() implies fits_envelope(
                    #[trigger] rest[i],
                ) by {
                    assert(rest[i] == fields[i]);
                }
                assert(fits_envelope(fields[fields.len() - 1]));
            }
            if rest_fit && fits_envelope(fields.last()) {
                assert forall|i: int| 0 <= i < fields.len() implies fits_envelope(
                    #[trigger] fields[i],
                ) by {
                    if i < rest.len() {
                        assert(rest[i] == fields[i]);
                    }
                }
            }
        }
    }
}

/// The envelope that a wire frame holds, the topic as it stands in the frame.
pub open spec fn decoded_envelope(bytes: Seq<u8>) -> Result<Envelope, DecodeError> {
    match parse_fields(bytes) {
        Some(fields) => match merge_envelope(fields) {
            Some(e) => Ok(e),
            None => Err(DecodeError::InvalidField),
        },
        None => Err(DecodeError::Malformed),
    }
}

/// The envelope that a wire frame holds, the topic without the white space
/// around it.
pub open spec fn received_envelope(bytes: Seq<u8>) -> Result<Envelope, DecodeError> {
    match decoded_envelope(bytes) {
        Ok(e) => Ok(Envelope { identifier: trimmed(e.identifier), payload: e.payload }),
        Err(e) => Err(e),
    }
}

/// Once a part of the fields cannot be taken into an envelope, no more
/// fields mend it.
pub proof fn lemma_merge_envelope_fails(fields: Seq<FieldSpec>, n: int)
    requires
        0 <= n <= fields.len(),
        merge_envelope(fields.take(n)) is None,
    ensures
        merge_envelope(fields) is None,
    decreases fields.len() - n,
{
    if n < fields.len() {
        assert(fields.take(n + 1).drop_last() =~= fields.take(n));
        lemma_merge_envelope_fails(fields, n + 1);
    } else {
        assert(fields.take(n) =~= fields);
    }
}

/// Reads a wire frame into topic and payload as they stand in it.
fn decode_envelope(buf: &[u8]) -> (r: Result<ProtobufMsg, DecodeError>)
    ensures
        match r {
            Ok(m) => decoded_envelope(buf@) == Ok::<Envelope, DecodeError>(m@),
            Err(e) => decoded_envelope(buf@) == Err::<Envelope, DecodeError>(e),
        },
{
    let fields = match scan_fields(buf) {
        Some(fields) => fields,
        None => {
            return Err(DecodeError::Malformed);
        },
    };
    let ghost all = fields_in(fields@, buf@);
    let mut identifier = String::new();
    let mut payload: Vec<u8> = Vec::new();
    let mut i: usize = 0;
    assert(all.take(0) =~= Seq::<FieldSpec>::empty());
    while i < fields.len()
        invariant
            i <= fields@.len(),
            all == fields_in(fields@, buf@),
            parse_fields(buf@) == Some(all),
            forall|j: int| 0 <= j < fields@.len() ==> (#[trigger] fields@[j]).within(buf@),
            merge_envelope(all.take(i as int)) == Some(
                Envelope { identifier: identifier@, payload: payload@ },
            ),
        decreases fields@.len() - i,
    {
        let f: Field = fields[i];
        proof {
            assert(all.take(i + 1).drop_last() =~= all.take(i as int));
            assert(all.take(i + 1).last() == f.spec_in(buf@));
        }
        let length_delimited = match f.wire {
            WireType::LengthDelimited => true,
            _ => false,
        };
        if f.tag == TOPIC_TAG || f.tag == PAYLOAD_TAG {
            if !length_delimited {
                proof {
                    lemma_merge_envelope_fails(all, i + 1);
                }
                return Err(DecodeError::InvalidField);
            }
            let mut data: Vec<u8> = Vec::new();
            extend_bytes(&mut data, buf, f.start, f.end);
            assert(data@ =~= f.spec_in(buf@).data);
            if f.tag == TOPIC_TAG {
                match string_from_utf8(data) {
                    Some(text) => {
                        identifier = text;
                    },
                    None => {
                        proof {
                            lemma_merge_envelope_fails(all, i + 1);
                        }
                        return Err(DecodeError::InvalidField);
                    },
                }
            } else {
                payload = data;
            }
        }
        i = i + 1;
    }
    assert(all.take(i as int) =~= all);
    Ok(ProtobufMsg { identifier, payload })
}

impl ProtobufMsg {
    /// The wire frame of the envelope. The topic is written as it is.
    pub fn to_raw_message(&self) -> (raw: RawMessage)
        ensures
            raw@ == envelope_bytes(self@),
    {
        let mut buf: Vec<u8> = Vec::new();
        let topic = self.identifier.as_str().as_bytes();
        if topic.len() > 0 {
            write_len_field(TOPIC_TAG, topic, &mut buf);
        }
        let ghost after_topic = buf@;
        if self.payload.len() > 0 {
            write_len_field(PAYLOAD_TAG, self.payload.as_slice(), &mut buf);
        }
        proof {
            lemma_empty_text(self.identifier@);
            assert(buf@ =~= envelope_bytes(self@));
        }
        RawMessage { message: buf }
    }

    /// The envelope that a wire frame holds, the topic without the white
    /// space around it; the error where the frame holds none.
    pub fn from_raw_message(raw: RawMessage) -> (r: Result<ProtobufMsg, DecodeError>)
        ensures
            match r {
                Ok(m) => received_envelope(raw@) == Ok::<Envelope, DecodeError>(m@),
                Err(e) => received_envelope(raw@) == Err::<Envelope, DecodeError>(e),
            },
    {
        match decode_envelope(raw.message.as_slice()) {
            Ok(m) => {
                let identifier = trim(m.identifier.as_str());
                Ok(ProtobufMsg { identifier, payload: m.payload })
            },
            Err(e) => Err(e),
        }
    }

    /// The envelope that the bytes of a wire frame hold, the topic as it
    /// stands in the frame.
    pub fn _from_bytes(bytes: &[u8]) -> (r: Result<ProtobufMsg, DecodeError>)
        ensures
            match r {
                Ok(m) => decoded_envelope(bytes@) == Ok::<Envelope, DecodeError>(m@),
                Err(e) => decoded_envelope(bytes@) == Err::<Envelope, DecodeError>(e),
            },
    {
        decode_envelope(bytes)
    }
}

/// Text is empty exactly where its UTF-8 encoding is.
pub proof fn lemma_empty_text(text: Seq<char>)
    ensures
        (encode_utf8(text).len() == 0) == (text.len() == 0),
{
    if text.len() > 0 {
        vstd::utf8::encode_utf8_first_scalar(text);
    }
}

/// The fields of the wire frame of `e`, in the order in which they stand.
pub open spec fn envelope_fields(e: Envelope) -> Seq<FieldSpec> {
    let topic = if e.identifier.len() == 0 {
        Seq::empty()
    } else {
        seq![
            FieldSpec {
                tag: TOPIC_TAG as nat,
                wire: WireType::LengthDelimited,
                value: 0,
                data: encode_utf8(e.identifier),
            },
        ]
    };
    let payload = if e.payload.len() == 0 {
        Seq::empty()
    } else {
        seq![
            FieldSpec {
                tag: PAYLOAD_TAG as nat,
                wire: WireType::LengthDelimited,
                value: 0,
                data: e.payload,
            },
        ]
    };
    topic + payload
}

/// The wire frame of an envelope scans into the fields that were written.
pub proof fn lemma_envelope_bytes_scan(e: Envelope)
    requires
        encode_utf8(e.identifier).len() <= usize::MAX,
        e.payload.len() <= usize::MAX,
    ensures
        parse_fields(envelope_bytes(e)) == Some(envelope_fields(e)),
{
    let none = Seq::<u8>::empty();
    let text = encode_utf8(e.identifier);
    let payload = if e.payload.len() == 0 {
        none
    } else {
        len_field_bytes(PAYLOAD_TAG as nat, e.payload)
    };
    let payload_fields = if e.payload.len() == 0 {
        Seq::<FieldSpec>::empty()
    } else {
        seq![
            FieldSpec {
                tag: PAYLOAD_TAG as nat,
                wire: WireType::LengthDelimited,
                value: 0,
                data: e.payload,
            },
        ]
    };
    assert(parse_fields(none) == Some(Seq::<FieldSpec>::empty()));
    assert(parse_fields(payload) == Some(payload_fields)) by {
        if e.payload.len() > 0 {
            lemma_len_field_round_trip(PAYLOAD_TAG as nat, e.payload, none);
            lemma_parse_fields_cons(payload, payload_fields[0], none);
            assert(payload + none =~= payload);
            assert(seq![payload_fields[0]] + Seq::<FieldSpec>::empty() =~= payload_fields);
        }
    }
    if e.identifier.len() == 0 {
        assert(envelope_bytes(e) =~= payload);
        assert(envelope_fields(e) =~= payload_fields);
    } else {
        let topic = len_field_bytes(TOPIC_TAG as nat, text);
        let f = FieldSpec {
            tag: TOPIC_TAG as nat,
            wire: WireType::LengthDelimited,
            value: 0,
            data: text,
        };
        lemma_len_field_round_trip(TOPIC_TAG as nat, text, payload);
        lemma_parse_fields_cons(topic, f, payload);
        assert(envelope_fields(e) =~= seq![f] + payload_fields);
    }
}

/// Round trip of the envelope protocol: the wire frame of an envelope
/// decodes to the same payload and to the same topic, which the receiving
/// side then holds without the white space around it.
pub proof fn lemma_envelope_round_trip(e: Envelope)
    requires
        encode_utf8(e.identifier).len() <= usize::MAX,
        e.payload.len() <= usize::MAX,
    ensures
        decoded_envelope(envelope_bytes(e)) == Ok::<Envelope, DecodeError>(e),
        received_envelope(envelope_bytes(e)) == Ok::<Envelope, DecodeError>(
            Envelope { identifier: trimmed(e.identifier), payload: e.payload },
        ),
{
    lemma_envelope_bytes_scan(e);
    vstd::utf8::encode_utf8_valid_utf8(e.identifier);
    vstd::utf8::encode_utf8_decode_utf8(e.identifier);
    let fields = envelope_fields(e);
    let blank = Envelope { identifier: Seq::empty(), payload: Seq::empty() };
    reveal_with_fuel(merge_envelope, 3);
    if e.identifier.len() == 0 && e.payload.len() == 0 {
        assert(fields =~= Seq::<FieldSpec>::empty());
        assert(e.identifier =~= blank.identifier && e.payload =~= blank.payload);
    } else if e.identifier.len() == 0 {
        assert(fields.drop_last() =~= Seq::<FieldSpec>::empty());
        assert(e.identifier =~= blank.identifier);
    } else if e.payload.len() == 0 {
        assert(fields.drop_last() =~= Seq::<FieldSpec>::empty());
        assert(e.payload =~= blank.payload);
    } else {
        assert(fields.drop_last() =~= seq![fields[0]]);
        assert(fields.drop_last().drop_last() =~= Seq::<FieldSpec>::empty());
    }
}

} // verus!
