//! The payload of the toggle topics: one boolean.

use crate::wire::{
    fields_in, lemma_parse_fields_cons, lemma_varint_field_round_trip, parse_fields, scan_fields,
    varint_field_bytes, write_varint_field, DecodeError, Field, FieldSpec, WireType,
};
use vstd::prelude::*;

verus! {

/// Field number of the boolean in a toggle payload.
pub const STATE_TAG: u32 = 1;

/// The payload that carries `state`: the boolean as varint field 1, left
/// out where it is `false`.
pub open spec fn state_bytes(state: bool) -> Seq<u8> {
    if state {
        varint_field_bytes(STATE_TAG as nat, 1)
    } else {
        Seq::empty()
    }
}

/// Takes the fields of a toggle payload into a boolean, each field in turn:
/// field 1 must be a varint and is `true` unless it carries 0; fields with
/// other numbers are passed over.
pub open spec fn merge_state(fields: Seq<FieldSpec>) -> Option<bool>
    decreases fields.len(),
{
    if fields.len() == 0 {
        Some(false)
    } else {
        let f = fields.last();
        match merge_state(fields.drop_last()) {
            Some(state) => if f.tag == STATE_TAG {
                if f.wire == WireType::Varint {
                    Some(f.value != 0)
                } else {
                    None
                }
            } else {
                Some(state)
            },
            None => None,
        }
    }
}

/// The boolean that a toggle payload holds.
pub open spec fn decoded_state(bytes: Seq<u8>) -> Result<bool, DecodeError> {
    match parse_fields(bytes) {
        Some(fields) => match merge_state(fields) {
            Some(state) => Ok(state),
            None => Err(DecodeError::InvalidField),
        },
        None => Err(DecodeError::Malformed),
    }
}

/// Once a part of the fields cannot be taken into a boolean, no more fields
/// mend it.
pub proof fn lemma_merge_state_fails(fields: Seq<FieldSpec>, n: int)
    requires
        0 <= n <= fields.len(),
        merge_state(fields.take(n)) is None,
    ensures
        merge_state(fields) is None,
    decreases fields.len() - n,
{
    if n < fields.len() {
        assert(fields.take(n + 1).drop_last() =~= fields.take(n));
        lemma_merge_state_fails(fields, n + 1);
    } else {
        assert(fields.take(n) =~= fields);
    }
}

/// The payload that carries `state`.
pub fn encode_state(state: bool) -> (payload: Vec<u8>)
    ensures
        payload@ == state_bytes(state),
{
    let mut payload: Vec<u8> = Vec::new();
    if state {
        write_varint_field(STATE_TAG, 1, &mut payload);
    }
    assert(payload@ =~= state_bytes(state));
    payload
}

/// The boolean that the payload `buf` holds, or why it holds none.
pub fn decode_state(buf: &[u8]) -> (r: Result<bool, DecodeError>)
    ensures
        r == decoded_state(buf@),
{
    let fields = match scan_fields(buf) {
        Some(fields) => fields,
        None => {
            return Err(DecodeError::Malformed);
        },
    };
    let ghost all = fields_in(fields@, buf@);
    let mut state = false;
    let mut i: usize = 0;
    assert(all.take(0) =~= Seq::<FieldSpec>::empty());
    while i < fields.len()
        invariant
            i <= fields@.len(),
            all == fields_in(fields@, buf@),
            parse_fields(buf@) == Some(all),
            merge_state(all.take(i as int)) == Some(state),
        decreases fields@.len() - i,
    {
        let f: Field = fields[i];
        proof {
            assert(all.take(i + 1).drop_last() =~= all.take(i as int));
            assert(all.take(i + 1).last() == f.spec_in(buf@));
        }
        if f.tag == STATE_TAG {
            match f.wire {
                WireType::Varint => {
                    state = f.value != 0;
                },
                _ => {
                    proof {
                        lemma_merge_state_fails(all, i + 1);
                    }
                    return Err(DecodeError::InvalidField);
                },
            }
        }
        i = i + 1;
    }
    assert(all.take(i as int) =~= all);
    Ok(state)
}

/// A toggle payload decodes to the boolean that was encoded.
pub proof fn lemma_state_round_trip(state: bool)
    ensures
        decoded_state(state_bytes(state)) == Ok::<bool, DecodeError>(state),
{
    let none = Seq::<u8>::empty();
    reveal_with_fuel(merge_state, 2);
    assert(parse_fields(none) == Some(Seq::<FieldSpec>::empty()));
    if state {
        let f = FieldSpec {
            tag: STATE_TAG as nat,
            wire: WireType::Varint,
            value: 1,
            data: Seq::empty(),
        };
        lemma_varint_field_round_trip(STATE_TAG as nat, 1, none);
        lemma_parse_fields_cons(state_bytes(true), f, none);
        assert(state_bytes(true) + none =~= state_bytes(true));
        let fields = seq![f] + Seq::<FieldSpec>::empty();
        assert(fields.drop_last() =~= Seq::<FieldSpec>::empty());
        assert(fields.last() == f);
    }
}

} // verus!
