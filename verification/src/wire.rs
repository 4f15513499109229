//! Protocol Buffers wire format: base-128 varints, field keys and the scan of
//! a message into its fields.

use vstd::prelude::*;

verus! {

/// The canonical base-128 encoding of `v`, least significant group first.
pub open spec fn varint_bytes(v: nat) -> Seq<u8>
    decreases v,
{
    if v < 128 {
        seq![v as u8]
    } else {
        seq![((v % 128) + 128) as u8] + varint_bytes(v / 128)
    }
}

/// Exclusive bound on the value that the groups from index `k` on may carry:
/// ten groups at most, the tenth holding a single bit, so that the whole
/// value fits in 64 bits.
pub open spec fn varint_limit(k: nat) -> nat
    decreases 9 - k,
{
    if k >= 9 {
        2
    } else {
        128 * varint_limit(k + 1)
    }
}

/// Reads the rest of a varint whose group number `k` is the first byte of `s`:
/// the value of the groups read and the number of bytes they take. Padded
/// encodings are accepted; an eleventh byte or a tenth group above 1 is not.
pub open spec fn varint_tail(s: Seq<u8>, k: nat) -> Option<(nat, nat)>
    decreases s.len(),
{
    if k >= 10 || s.len() == 0 {
        None
    } else if s[0] < 128 {
        if k == 9 && s[0] >= 2 {
            None
        } else {
            Some((s[0] as nat, 1nat))
        }
    } else {
        match varint_tail(s.drop_first(), k + 1) {
            Some((rest, n)) => Some((((s[0] - 128) + 128 * rest) as nat, n + 1)),
            None => None,
        }
    }
}

/// Reads a varint at the start of `s`: its value and its length in bytes.
pub open spec fn parse_varint(s: Seq<u8>) -> Option<(nat, nat)> {
    varint_tail(s, 0)
}

/// Ten groups carry 64 bits.
pub proof fn lemma_varint_limit_zero()
    ensures
        varint_limit(0) == 0x1_0000_0000_0000_0000,
{
    reveal_with_fuel(varint_limit, 11);
}

/// Each group index has 128 times the room of the next one, and none more
/// than 64 bits.
pub proof fn lemma_varint_limit_step(k: nat)
    ensures
        k < 9 ==> varint_limit(k) == 128 * varint_limit(k + 1),
        varint_limit(k) <= varint_limit(0),
        varint_limit(0) == 0x1_0000_0000_0000_0000,
    decreases k,
{
    lemma_varint_limit_zero();
    if k > 0 && k <= 9 {
        lemma_varint_limit_step((k - 1) as nat);
    } else if k > 9 {
        reveal_with_fuel(varint_limit, 11);
    }
}

/// A varint that parses takes between one byte and all of `s`, and its value
/// stays under the limit of its first group.
pub proof fn lemma_varint_tail_bounds(s: Seq<u8>, k: nat)
    ensures
        varint_tail(s, k) matches Some((v, n)) ==> 1 <= n <= s.len() && n <= 10 - k && v
            < varint_limit(k),
    decreases s.len(),
{
    if k >= 10 || s.len() == 0 {
    } else if s[0] < 128 {
        if k < 9 {
            lemma_varint_tail_bounds(s.drop_first(), k + 1);
            assert(varint_limit(k + 1) >= 2) by {
                reveal_with_fuel(varint_limit, 11);
            }
        }
    } else {
        lemma_varint_tail_bounds(s.drop_first(), k + 1);
    }
}

/// Appends the canonical encoding of `v` to `out`.
pub fn write_varint(v: u64, out: &mut Vec<u8>)
    ensures
        final(out)@ == old(out)@ + varint_bytes(v as nat),
{
    let mut rest: u64 = v;
    while rest >= 128
        invariant
            out@ + varint_bytes(rest as nat) == old(out)@ + varint_bytes(v as nat),
        decreases rest,
    {
        let ghost before = out@;
        let group: u8 = (rest % 128 + 128) as u8;
        out.push(group);
        proof {
            assert(varint_bytes(rest as nat) == seq![group] + varint_bytes((rest / 128) as nat));
            assert(out@ + varint_bytes((rest / 128) as nat) =~= before + varint_bytes(
                rest as nat,
            ));
        }
        rest = rest / 128;
    }
    let ghost before = out@;
    out.push(rest as u8);
    proof {
        assert(out@ =~= before + varint_bytes(rest as nat));
    }
}

/// Reads the groups of a varint from `buf[pos..]`, `k` groups having been
/// read before: the value of the groups read and the position after them.
fn read_varint_tail(buf: &[u8], pos: usize, k: u8) -> (r: Option<(u64, usize)>)
    requires
        pos <= buf@.len(),
        k <= 10,
    ensures
        match r {
            Some((v, next)) => varint_tail(buf@.skip(pos as int), k as nat) == Some(
                (v as nat, (next - pos) as nat),
            ) && pos < next <= buf@.len(),
            None => varint_tail(buf@.skip(pos as int), k as nat) is None,
        },
    decreases buf@.len() - pos,
{
    let ghost s = buf@.skip(pos as int);
    if k >= 10 || pos >= buf.len() {
        return None;
    }
    let b: u8 = buf[pos];
    assert(s[0] == b);
    assert(s.drop_first() =~= buf@.skip(pos + 1));
    if b < 128 {
        if k == 9 && b >= 2 {
            None
        } else {
            Some((b as u64, pos + 1))
        }
    } else {
        match read_varint_tail(buf, pos + 1, k + 1) {
            Some((rest, next)) => {
                proof {
                    lemma_varint_tail_bounds(s.drop_first(), (k + 1) as nat);
                    lemma_varint_limit_zero();
                    lemma_varint_limit_step(k as nat);
                }
                assert((b - 128) + 128 * rest < varint_limit(k as nat));
                Some(((b - 128) as u64 + 128 * rest, next))
            },
            None => None,
        }
    }
}

/// Reads a varint at `buf[pos..]`: its value and the position after it, or
/// `None` where no varint stands there.
pub fn read_varint(buf: &[u8], pos: usize) -> (r: Option<(u64, usize)>)
    requires
        pos <= buf@.len(),
    ensures
        match r {
            Some((v, next)) => parse_varint(buf@.skip(pos as int)) == Some(
                (v as nat, (next - pos) as nat),
            ) && pos < next <= buf@.len(),
            None => parse_varint(buf@.skip(pos as int)) is None,
        },
{
    read_varint_tail(buf, pos, 0)
}

/// Why a buffer could not be read as a message.
#[derive(Clone, Copy, Debug, PartialEq, Eq, Structural)]
pub enum DecodeError {
    /// The buffer is not a sequence of whole fields: it is cut short, or a
    /// varint, a key or a group in it is not well-formed.
    Malformed,
    /// The fields are whole, but one that the message knows has another wire
    /// type than the message gives it, or holds text that is no UTF-8.
    InvalidField,
}

/// How the value of a field is laid out after its key.
#[derive(Clone, Copy, Debug, PartialEq, Eq, Structural)]
pub enum WireType {
    Varint,
    SixtyFourBit,
    LengthDelimited,
    StartGroup,
    EndGroup,
    ThirtyTwoBit,
}

/// Nesting of groups that a scan follows before it gives up.
pub const RECURSION_LIMIT: u32 = 100;

/// Largest field number that a key can carry.
pub const MAX_TAG: u32 = 0x1FFF_FFFF;

impl WireType {
    /// The number that stands for the wire type in the low three bits of a key.
    pub open spec fn number(self) -> nat {
        match self {
            WireType::Varint => 0,
            WireType::SixtyFourBit => 1,
            WireType::LengthDelimited => 2,
            WireType::StartGroup => 3,
            WireType::EndGroup => 4,
            WireType::ThirtyTwoBit => 5,
        }
    }

    /// The wire type that `n` stands for; 6 and 7 stand for none.
    pub open spec fn of_number(n: nat) -> Option<WireType> {
        if n == 0 {
            Some(WireType::Varint)
        } else if n == 1 {
            Some(WireType::SixtyFourBit)
        } else if n == 2 {
            Some(WireType::LengthDelimited)
        } else if n == 3 {
            Some(WireType::StartGroup)
        } else if n == 4 {
            Some(WireType::EndGroup)
        } else if n == 5 {
            Some(WireType::ThirtyTwoBit)
        } else {
            None
        }
    }

    /// The number that stands for the wire type.
    fn to_number(self) -> (n: u8)
        ensures
            n == self.number(),
    {
        match self {
            WireType::Varint => 0,
            WireType::SixtyFourBit => 1,
            WireType::LengthDelimited => 2,
            WireType::StartGroup => 3,
            WireType::EndGroup => 4,
            WireType::ThirtyTwoBit => 5,
        }
    }

    /// The wire type that `n` stands for.
    fn from_number(n: u64) -> (w: Option<WireType>)
        ensures
            w == WireType::of_number(n as nat),
    {
        if n == 0 {
            Some(WireType::Varint)
        } else if n == 1 {
            Some(WireType::SixtyFourBit)
        } else if n == 2 {
            Some(WireType::LengthDelimited)
        } else if n == 3 {
            Some(WireType::StartGroup)
        } else if n == 4 {
            Some(WireType::EndGroup)
        } else if n == 5 {
            Some(WireType::ThirtyTwoBit)
        } else {
            None
        }
    }
}

/// The key of a field: its number and wire type in one varint.
pub open spec fn key_bytes(tag: nat, wire: WireType) -> Seq<u8> {
    varint_bytes(tag * 8 + wire.number())
}

/// Reads a key at the start of `s`: the field number, the wire type and the
/// length of the key. The key must fit in 32 bits, name one of the six wire
/// types and a field number of at least 1.
pub open spec fn parse_key(s: Seq<u8>) -> Option<(nat, WireType, nat)> {
    match parse_varint(s) {
        Some((key, n)) => if key > u32::MAX {
            None
        } else {
            match WireType::of_number(key % 8) {
                Some(wire) => if key / 8 < 1 {
                    None
                } else {
                    Some((key / 8, wire, n))
                },
                None => None,
            }
        },
        None => None,
    }
}

/// A key that parses takes between one byte and all of `s`.
pub proof fn lemma_parse_key_bounds(s: Seq<u8>)
    ensures
        parse_key(s) matches Some((tag, _, n)) ==> 1 <= n <= s.len() && 1 <= tag <= MAX_TAG,
{
    lemma_varint_tail_bounds(s, 0);
}

/// Appends the key of field `tag` with wire type `wire` to `out`.
pub fn write_key(tag: u32, wire: WireType, out: &mut Vec<u8>)
    requires
        tag <= MAX_TAG,
    ensures
        final(out)@ == old(out)@ + key_bytes(tag as nat, wire),
{
    let key: u64 = tag as u64 * 8 + wire.to_number() as u64;
    write_varint(key, out);
}

/// Reads a key at `buf[pos..]`: field number, wire type and the position
/// after the key.
pub fn read_key(buf: &[u8], pos: usize) -> (r: Option<(u32, WireType, usize)>)
    requires
        pos <= buf@.len(),
    ensures
        match r {
            Some((tag, wire, next)) => parse_key(buf@.skip(pos as int)) == Some(
                (tag as nat, wire, (next - pos) as nat),
            ) && pos < next <= buf@.len() && 1 <= tag <= MAX_TAG,
            None => parse_key(buf@.skip(pos as int)) is None,
        },
{
    match read_varint(buf, pos) {
        Some((key, next)) => {
            if key > 0xFFFF_FFFF {
                return None;
            }
            match WireType::from_number(key % 8) {
                Some(wire) => {
                    let tag: u64 = key / 8;
                    if tag < 1 {
                        None
                    } else {
                        Some((tag as u32, wire, next))
                    }
                },
                None => None,
            }
        },
        None => None,
    }
}

/// The length of the value that follows a key of wire type `wire` and field
/// number `tag` at the start of `s`, or `None` where no whole value stands
/// there. `credit` is the nesting of groups that is still allowed.
pub open spec fn skip_value(s: Seq<u8>, wire: WireType, tag: nat, credit: nat) -> Option<nat>
    decreases credit, s.len(), 1nat,
{
    if credit == 0 {
        None
    } else {
        match wire {
            WireType::Varint => match parse_varint(s) {
                Some((_, n)) => Some(n),
                None => None,
            },
            WireType::SixtyFourBit => if s.len() >= 8 {
                Some(8nat)
            } else {
                None
            },
            WireType::ThirtyTwoBit => if s.len() >= 4 {
                Some(4nat)
            } else {
                None
            },
            WireType::LengthDelimited => match parse_varint(s) {
                Some((len, n)) => if len <= s.len() - n {
                    Some(n + len)
                } else {
                    None
                },
                None => None,
            },
            WireType::StartGroup => skip_group(s, tag, credit),
            WireType::EndGroup => None,
        }
    }
}

/// The length of the fields of group `tag` at the start of `s`, up to and
/// with the key that ends the group.
pub open spec fn skip_group(s: Seq<u8>, tag: nat, credit: nat) -> Option<nat>
    decreases credit, s.len(), 0nat,
{
    match parse_key(s) {
        Some((inner, wire, n)) => if wire == WireType::EndGroup {
            if inner == tag {
                Some(n)
            } else {
                None
            }
        } else if credit == 0 {
            None
        } else {
            match skip_value(s.skip(n as int), wire, inner, (credit - 1) as nat) {
                Some(m) => if m > s.len() - n {
                    None
                } else {
                    proof {
                        lemma_parse_key_bounds(s);
                    }
                    match skip_group(s.skip((n + m) as int), tag, credit) {
                        Some(r) => Some(n + m + r),
                        None => None,
                    }
                },
                None => None,
            }
        },
        None => None,
    }
}

/// A value that can be skipped lies within `s`.
pub proof fn lemma_skip_bounds(s: Seq<u8>, wire: WireType, tag: nat, credit: nat)
    ensures
        skip_value(s, wire, tag, credit) matches Some(n) ==> n <= s.len(),
        skip_group(s, tag, credit) matches Some(n) ==> 1 <= n <= s.len(),
    decreases credit, s.len(),
{
    lemma_varint_tail_bounds(s, 0);
    lemma_skip_group_bounds(s, tag, credit);
}

/// A group that can be skipped lies within `s` and is not empty.
proof fn lemma_skip_group_bounds(s: Seq<u8>, tag: nat, credit: nat)
    ensures
        skip_group(s, tag, credit) matches Some(n) ==> 1 <= n <= s.len(),
    decreases credit, s.len(),
{
    lemma_parse_key_bounds(s);
    match parse_key(s) {
        Some((inner, wire, n)) => {
            if wire != WireType::EndGroup && credit > 0 {
                match skip_value(s.skip(n as int), wire, inner, (credit - 1) as nat) {
                    Some(m) => {
                        if m <= s.len() - n {
                            lemma_skip_group_bounds(s.skip((n + m) as int), tag, credit);
                        }
                    },
                    None => {},
                }
            }
        },
        None => {},
    }
}

/// Skips the value of a field whose key has been read: the position after it.
fn skip_value_at(buf: &[u8], pos: usize, wire: WireType, tag: u32, credit: u32) -> (r: Option<
    usize,
>)
    requires
        pos <= buf@.len(),
    ensures
        match r {
            Some(next) => skip_value(buf@.skip(pos as int), wire, tag as nat, credit as nat)
                == Some((next - pos) as nat) && pos <= next <= buf@.len(),
            None => skip_value(buf@.skip(pos as int), wire, tag as nat, credit as nat) is None,
        },
    decreases credit, 1nat,
{
    if credit == 0 {
        return None;
    }
    let left: usize = buf.len() - pos;
    match wire {
        WireType::Varint => match read_varint(buf, pos) {
            Some((_, next)) => Some(next),
            None => None,
        },
        WireType::SixtyFourBit => if left >= 8 {
            Some(pos + 8)
        } else {
            None
        },
        WireType::ThirtyTwoBit => if left >= 4 {
            Some(pos + 4)
        } else {
            None
        },
        WireType::LengthDelimited => match read_varint(buf, pos) {
            Some((len, next)) => if len <= (buf.len() - next) as u64 {
                Some(next + len as usize)
            } else {
                None
            },
            None => None,
        },
        WireType::StartGroup => skip_group_at(buf, pos, tag, credit),
        WireType::EndGroup => None,
    }
}

/// Skips the fields of group `tag` and the key that ends it.
fn skip_group_at(buf: &[u8], pos: usize, tag: u32, credit: u32) -> (r: Option<usize>)
    requires
        pos <= buf@.len(),
        credit > 0,
    ensures
        match r {
            Some(next) => skip_group(buf@.skip(pos as int), tag as nat, credit as nat) == Some(
                (next - pos) as nat,
            ) && pos <= next <= buf@.len(),
            None => skip_group(buf@.skip(pos as int), tag as nat, credit as nat) is None,
        },
    decreases credit, 0nat,
{
    let mut at: usize = pos;
    loop
        invariant
            pos <= at <= buf@.len(),
            credit > 0,
            skip_group(buf@.skip(pos as int), tag as nat, credit as nat) == match skip_group(
                buf@.skip(at as int),
                tag as nat,
                credit as nat,
            ) {
                Some(r) => Some((at - pos + r) as nat),
                None => None,
            },
        decreases buf@.len() - at,
    {
        let ghost s = buf@.skip(at as int);
        match read_key(buf, at) {
            Some((inner, wire, after_key)) => {
                if let WireType::EndGroup = wire {
                    if inner == tag {
                        return Some(after_key);
                    } else {
                        return None;
                    }
                }
                assert(s.skip(after_key - at) =~= buf@.skip(after_key as int));
                match skip_value_at(buf, after_key, wire, inner, credit - 1) {
                    Some(next) => {
                        assert(s.skip(next - at) =~= buf@.skip(next as int));
                        at = next;
                    },
                    None => {
                        return None;
                    },
                }
            },
            None => {
                return None;
            },
        }
    }
}

/// One field of a message as it stands on the wire: its number, its wire
/// type, the number it carries where it is a varint, and the bytes it
/// carries where it is length-delimited.
pub struct FieldSpec {
    pub tag: nat,
    pub wire: WireType,
    pub value: nat,
    pub data: Seq<u8>,
}

/// The number that a value of wire type `wire` at the start of `s` carries;
/// 0 for the wire types that carry none.
pub open spec fn value_carried(s: Seq<u8>, wire: WireType) -> nat {
    match (wire, parse_varint(s)) {
        (WireType::Varint, Some((v, _))) => v,
        _ => 0,
    }
}

/// The bytes that a value of wire type `wire` at the start of `s` carries;
/// none for the wire types that are not length-delimited.
pub open spec fn data_carried(s: Seq<u8>, wire: WireType) -> Seq<u8> {
    match (wire, parse_varint(s)) {
        (WireType::LengthDelimited, Some((len, n))) => s.subrange(n as int, (n + len) as int),
        _ => Seq::empty(),
    }
}

/// Reads one field at the start of `s`: the field and its length, key
/// included.
pub open spec fn parse_field(s: Seq<u8>) -> Option<(FieldSpec, nat)> {
    match parse_key(s) {
        Some((tag, wire, n)) => {
            let rest = s.skip(n as int);
            match skip_value(rest, wire, tag, RECURSION_LIMIT as nat) {
                Some(m) => Some(
                    (
                        FieldSpec {
                            tag,
                            wire,
                            value: value_carried(rest, wire),
                            data: data_carried(rest, wire),
                        },
                        n + m,
                    ),
                ),
                None => None,
            }
        },
        None => None,
    }
}

/// A field that parses takes between one byte and all of `s`.
pub proof fn lemma_parse_field_bounds(s: Seq<u8>)
    ensures
        parse_field(s) matches Some((f, n)) ==> 1 <= n <= s.len() && 1 <= f.tag <= MAX_TAG,
{
    lemma_parse_key_bounds(s);
    match parse_key(s) {
        Some((tag, wire, n)) => {
            lemma_skip_bounds(s.skip(n as int), wire, tag, RECURSION_LIMIT as nat);
        },
        None => {},
    }
}

/// Reads `s` as a message: the fields in the order in which they stand, or
/// `None` where `s` is not a sequence of whole fields.
pub open spec fn parse_fields(s: Seq<u8>) -> Option<Seq<FieldSpec>>
    decreases s.len(),
{
    if s.len() == 0 {
        Some(Seq::empty())
    } else {
        match parse_field(s) {
            Some((f, n)) => {
                proof {
                    lemma_parse_field_bounds(s);
                }
                match parse_fields(s.skip(n as int)) {
                    Some(rest) => Some(seq![f] + rest),
                    None => None,
                }
            },
            None => None,
        }
    }
}

/// A field found by a scan of a buffer. `start..end` is the range of the
/// buffer that holds the bytes of a length-delimited field.
#[derive(Clone, Copy, Debug)]
pub struct Field {
    pub tag: u32,
    pub wire: WireType,
    pub value: u64,
    pub start: usize,
    pub end: usize,
}

impl Field {
    /// The range of the field lies in `buf`.
    pub open spec fn within(self, buf: Seq<u8>) -> bool {
        self.start <= self.end <= buf.len()
    }

    /// The field as it stands in `buf`.
    pub open spec fn spec_in(self, buf: Seq<u8>) -> FieldSpec {
        FieldSpec {
            tag: self.tag as nat,
            wire: self.wire,
            value: self.value as nat,
            data: buf.subrange(self.start as int, self.end as int),
        }
    }
}

/// The fields of `fields` as they stand in `buf`.
pub open spec fn fields_in(fields: Seq<Field>, buf: Seq<u8>) -> Seq<FieldSpec> {
    Seq::new(fields.len(), |i: int| fields[i].spec_in(buf))
}

/// Scans one field at `buf[pos..]`: the field and the position after it.
pub fn scan_field(buf: &[u8], pos: usize) -> (r: Option<(Field, usize)>)
    requires
        pos <= buf@.len(),
    ensures
        match r {
            Some((f, next)) => parse_field(buf@.skip(pos as int)) == Some(
                (f.spec_in(buf@), (next - pos) as nat),
            ) && pos < next <= buf@.len() && f.within(buf@),
            None => parse_field(buf@.skip(pos as int)) is None,
        },
{
    let ghost s = buf@.skip(pos as int);
    let (tag, wire, after_key) = match read_key(buf, pos) {
        Some(key) => key,
        None => {
            return None;
        },
    };
    let ghost rest = buf@.skip(after_key as int);
    assert(s.skip(after_key - pos) =~= rest);
    match wire {
        WireType::Varint => match read_varint(buf, after_key) {
            Some((value, next)) => {
                assert(buf@.subrange(next as int, next as int) =~= Seq::<u8>::empty());
                Some((Field { tag, wire, value, start: next, end: next }, next))
            },
            None => None,
        },
        WireType::LengthDelimited => match read_varint(buf, after_key) {
            Some((len, start)) => if len <= (buf.len() - start) as u64 {
                let end: usize = start + len as usize;
                assert(rest.subrange(start - after_key, end - after_key) =~= buf@.subrange(
                    start as int,
                    end as int,
                ));
                Some((Field { tag, wire, value: 0, start, end }, end))
            } else {
                None
            },
            None => None,
        },
        _ => match skip_value_at(buf, after_key, wire, tag, RECURSION_LIMIT) {
            Some(next) => {
                assert(buf@.subrange(next as int, next as int) =~= Seq::<u8>::empty());
                Some((Field { tag, wire, value: 0, start: next, end: next }, next))
            },
            None => None,
        },
    }
}

/// Scans `buf` as a message: its fields in the order in which they stand,
/// or `None` where `buf` is not a sequence of whole fields.
pub fn scan_fields(buf: &[u8]) -> (r: Option<Vec<Field>>)
    ensures
        match r {
            Some(fields) => parse_fields(buf@) == Some(fields_in(fields@, buf@)) && forall|
                i: int,
            |
                0 <= i < fields@.len() ==> (#[trigger] fields@[i]).within(buf@),
            None => parse_fields(buf@) is None,
        },
{
    let mut fields: Vec<Field> = Vec::new();
    let mut pos: usize = 0;
    assert(buf@.skip(0) =~= buf@);
    while pos < buf.len()
        invariant
            pos <= buf@.len(),
            forall|i: int| 0 <= i < fields@.len() ==> (#[trigger] fields@[i]).within(buf@),
            parse_fields(buf@) == match parse_fields(buf@.skip(pos as int)) {
                Some(rest) => Some(fields_in(fields@, buf@) + rest),
                None => None,
            },
        decreases buf@.len() - pos,
    {
        let ghost s = buf@.skip(pos as int);
        let ghost done = fields_in(fields@, buf@);
        match scan_field(buf, pos) {
            Some((f, next)) => {
                fields.push(f);
                proof {
                    assert(s.skip(next - pos) =~= buf@.skip(next as int));
                    assert(fields_in(fields@, buf@) =~= done.push(f.spec_in(buf@)));
                    match parse_fields(buf@.skip(next as int)) {
                        Some(rest) => {
                            assert(done + (seq![f.spec_in(buf@)] + rest) =~= done.push(
                                f.spec_in(buf@),
                            ) + rest);
                        },
                        None => {},
                    }
                }
                pos = next;
            },
            None => {
                return None;
            },
        }
    }
    proof {
        assert(fields_in(fields@, buf@) + Seq::<FieldSpec>::empty() =~= fields_in(
            fields@,
            buf@,
        ));
    }
    Some(fields)
}

/// Reading back what `varint_bytes` wrote gives the value and the length
/// written, whatever follows.
pub proof fn lemma_varint_round_trip(v: nat, k: nat, rest: Seq<u8>)
    requires
        k <= 9,
        v < varint_limit(k),
    ensures
        varint_tail(varint_bytes(v) + rest, k) == Some((v, varint_bytes(v).len())),
        1 <= varint_bytes(v).len() <= 10 - k,
    decreases v,
{
    let s = varint_bytes(v) + rest;
    lemma_varint_limit_step(k);
    if v < 128 {
        assert(s[0] == v as u8);
    } else {
        assert(varint_limit(9) == 2) by {
            reveal_with_fuel(varint_limit, 2);
        }
        assert(k < 9);
        assert(s[0] == ((v % 128) + 128) as u8);
        assert(s.drop_first() =~= varint_bytes(v / 128) + rest);
        lemma_varint_round_trip(v / 128, k + 1, rest);
    }
}

/// Reading back a key gives the field number and the wire type written.
pub proof fn lemma_key_round_trip(tag: nat, wire: WireType, rest: Seq<u8>)
    requires
        1 <= tag <= MAX_TAG,
    ensures
        parse_key(key_bytes(tag, wire) + rest) == Some((tag, wire, key_bytes(tag, wire).len())),
        1 <= key_bytes(tag, wire).len(),
{
    lemma_varint_limit_zero();
    lemma_varint_round_trip(tag * 8 + wire.number(), 0, rest);
}

/// A length-delimited field: key, length of the bytes, bytes.
pub open spec fn len_field_bytes(tag: nat, data: Seq<u8>) -> Seq<u8> {
    key_bytes(tag, WireType::LengthDelimited) + varint_bytes(data.len()) + data
}

/// A varint field: key, number.
pub open spec fn varint_field_bytes(tag: nat, v: nat) -> Seq<u8> {
    key_bytes(tag, WireType::Varint) + varint_bytes(v)
}

/// The four bytes of `v`, least significant first.
pub open spec fn le_bytes32(v: u32) -> Seq<u8> {
    seq![
        (v % 256) as u8,
        (v / 256 % 256) as u8,
        (v / 65536 % 256) as u8,
        (v / 16777216) as u8,
    ]
}

/// A 32-bit field: key, four bytes.
pub open spec fn fixed32_field_bytes(tag: nat, v: u32) -> Seq<u8> {
    key_bytes(tag, WireType::ThirtyTwoBit) + le_bytes32(v)
}

/// The 64-bit two's complement pattern of a signed number, as a varint
/// field carries it.
pub open spec fn twos_complement(v: int) -> nat {
    if v >= 0 {
        v as nat
    } else {
        (v + 0x1_0000_0000_0000_0000) as nat
    }
}

/// Reading back a length-delimited field gives its number and its bytes.
pub proof fn lemma_len_field_round_trip(tag: nat, data: Seq<u8>, rest: Seq<u8>)
    requires
        1 <= tag <= MAX_TAG,
        data.len() <= u64::MAX,
    ensures
        parse_field(len_field_bytes(tag, data) + rest) == Some(
            (
                FieldSpec { tag, wire: WireType::LengthDelimited, value: 0, data },
                len_field_bytes(tag, data).len(),
            ),
        ),
{
    let wire = WireType::LengthDelimited;
    let key = key_bytes(tag, wire);
    let len = varint_bytes(data.len());
    let s = len_field_bytes(tag, data) + rest;
    assert(s =~= key + (len + data + rest));
    lemma_key_round_trip(tag, wire, len + data + rest);
    let after_key = s.skip(key.len() as int);
    assert(after_key =~= len + (data + rest));
    lemma_varint_limit_zero();
    lemma_varint_round_trip(data.len(), 0, data + rest);
    assert(after_key.subrange(len.len() as int, (len.len() + data.len()) as int) =~= data);
}

/// Reading back a varint field gives its number and the number it carries.
pub proof fn lemma_varint_field_round_trip(tag: nat, v: nat, rest: Seq<u8>)
    requires
        1 <= tag <= MAX_TAG,
        v <= u64::MAX,
    ensures
        parse_field(varint_field_bytes(tag, v) + rest) == Some(
            (
                FieldSpec { tag, wire: WireType::Varint, value: v, data: Seq::empty() },
                varint_field_bytes(tag, v).len(),
            ),
        ),
{
    let wire = WireType::Varint;
    let key = key_bytes(tag, wire);
    let s = varint_field_bytes(tag, v) + rest;
    assert(s =~= key + (varint_bytes(v) + rest));
    lemma_key_round_trip(tag, wire, varint_bytes(v) + rest);
    assert(s.skip(key.len() as int) =~= varint_bytes(v) + rest);
    lemma_varint_limit_zero();
    lemma_varint_round_trip(v, 0, rest);
}

/// A message that starts with a whole field is that field and then the
/// fields of what follows it.
pub proof fn lemma_parse_fields_cons(first: Seq<u8>, f: FieldSpec, rest: Seq<u8>)
    requires
        parse_field(first + rest) == Some((f, first.len())),
    ensures
        parse_fields(first + rest) == match parse_fields(rest) {
            Some(fields) => Some(seq![f] + fields),
            None => None,
        },
{
    lemma_parse_field_bounds(first + rest);
    assert((first + rest).skip(first.len() as int) =~= rest);
}

/// Appends `data[start..end]` to `out`.
pub fn extend_bytes(out: &mut Vec<u8>, data: &[u8], start: usize, end: usize)
    requires
        start <= end <= data@.len(),
    ensures
        final(out)@ == old(out)@ + data@.subrange(start as int, end as int),
{
    let mut i: usize = start;
    while i < end
        invariant
            start <= i <= end <= data@.len(),
            out@ == old(out)@ + data@.subrange(start as int, i as int),
        decreases end - i,
    {
        let ghost before = out@;
        out.push(data[i]);
        i = i + 1;
        assert(out@ =~= old(out)@ + data@.subrange(start as int, i as int));
    }
}

/// Appends a length-delimited field that carries `data`.
pub fn write_len_field(tag: u32, data: &[u8], out: &mut Vec<u8>)
    requires
        1 <= tag <= MAX_TAG,
    ensures
        final(out)@ == old(out)@ + len_field_bytes(tag as nat, data@),
{
    write_key(tag, WireType::LengthDelimited, out);
    write_varint(data.len() as u64, out);
    extend_bytes(out, data, 0, data.len());
    assert(data@.subrange(0, data@.len() as int) =~= data@);
    assert(out@ =~= old(out)@ + len_field_bytes(tag as nat, data@));
}

/// Appends a varint field that carries `v`.
pub fn write_varint_field(tag: u32, v: u64, out: &mut Vec<u8>)
    requires
        1 <= tag <= MAX_TAG,
    ensures
        final(out)@ == old(out)@ + varint_field_bytes(tag as nat, v as nat),
{
    write_key(tag, WireType::Varint, out);
    write_varint(v, out);
    assert(out@ =~= old(out)@ + varint_field_bytes(tag as nat, v as nat));
}

/// Appends a varint field that carries the signed number `v` in two's
/// complement.
pub fn write_int_field(tag: u32, v: i64, out: &mut Vec<u8>)
    requires
        1 <= tag <= MAX_TAG,
    ensures
        final(out)@ == old(out)@ + varint_field_bytes(tag as nat, twos_complement(v as int)),
{
    let bits: u64 = if v >= 0 {
        v as u64
    } else {
        u64::MAX - ((-(v + 1)) as u64)
    };
    write_varint_field(tag, bits, out);
}

/// Appends a 32-bit field that carries `v`.
pub fn write_fixed32_field(tag: u32, v: u32, out: &mut Vec<u8>)
    requires
        1 <= tag <= MAX_TAG,
    ensures
        final(out)@ == old(out)@ + fixed32_field_bytes(tag as nat, v),
{
    write_key(tag, WireType::ThirtyTwoBit, out);
    let ghost before = out@;
    out.push((v % 256) as u8);
    out.push((v / 256 % 256) as u8);
    out.push((v / 65536 % 256) as u8);
    out.push((v / 16777216) as u8);
    assert(out@ =~= before + le_bytes32(v));
    assert(out@ =~= old(out)@ + fixed32_field_bytes(tag as nat, v));
}

/// The last of `fields` that has the number `tag`, if there is one.
pub open spec fn last_field(fields: Seq<FieldSpec>, tag: nat) -> Option<FieldSpec>
    decreases fields.len(),
{
    if fields.len() == 0 {
        None
    } else if fields.last().tag == tag {
        Some(fields.last())
    } else {
        last_field(fields.drop_last(), tag)
    }
}

} // verus!
