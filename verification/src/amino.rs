//! The message encoding of the composite header fields: a message is the
//! concatenation of its fields in order, each behind a key that holds the
//! field's number and its wire type. A field that holds zero, or no bytes, is
//! left out.

use crate::encoding::{
    encode_varint, lemma_varint_injective, lemma_varint_prefix, length_delimited, varint,
};
use vstd::prelude::*;

verus! {

/// The wire type of a field that holds a variable-length integer.
pub const WIRE_VARINT: u8 = 0;

/// The wire type of a field that holds bytes behind their length.
pub const WIRE_LENGTH_DELIMITED: u8 = 2;

/// The greatest field number.
pub const MAX_TAG: u32 = 0x1fff_ffff;

/// The key of a field: its number and wire type in one variable-length
/// integer.
pub open spec fn field_key(tag: nat, wire_type: nat) -> Seq<u8> {
    varint(tag * 8 + wire_type)
}

/// An integer field: nothing for zero, else the key and the value.
pub open spec fn varint_field(tag: nat, value: nat) -> Seq<u8> {
    if value == 0 {
        Seq::empty()
    } else {
        field_key(tag, 0) + varint(value)
    }
}

/// A field of bytes: nothing for no bytes, else the key and the bytes behind
/// their length.
pub open spec fn bytes_field(tag: nat, bytes: Seq<u8>) -> Seq<u8> {
    if bytes.len() == 0 {
        Seq::empty()
    } else {
        field_key(tag, 2) + length_delimited(bytes)
    }
}

/// A field that holds a message: the key and the message behind its length,
/// also where the message is empty.
pub open spec fn message_field(tag: nat, message: Seq<u8>) -> Seq<u8> {
    field_key(tag, 2) + length_delimited(message)
}

/// A message of two integer fields, numbered 1 and 2, gives the two integers
/// back: different pairs have different encodings.
pub proof fn lemma_varint_fields_injective(a1: nat, b1: nat, a2: nat, b2: nat)
    requires
        varint_field(1, a1) + varint_field(2, b1) == varint_field(1, a2) + varint_field(2, b2),
    ensures
        a1 == a2,
        b1 == b2,
{
    let left = varint_field(1, a1) + varint_field(2, b1);
    let right = varint_field(1, a2) + varint_field(2, b2);
    assert(field_key(1, 0) =~= seq![8u8]);
    assert(field_key(2, 0) =~= seq![16u8]);
    assert(varint(a1).len() > 0 && varint(a2).len() > 0 && varint(b1).len() > 0 && varint(
        b2,
    ).len() > 0);
    if a1 != 0 {
        assert(left[0] == 8);
        assert(left.len() == right.len());
        if a2 == 0 {
            assert(b2 != 0);
            assert(right[0] == 16);
        }
        assert(left =~= varint(8) + (varint(a1) + varint_field(2, b1)));
        assert(right =~= varint(8) + (varint(a2) + varint_field(2, b2)));
        lemma_varint_prefix(8, 8, varint(a1) + varint_field(2, b1), varint(a2) + varint_field(2, b2));
        lemma_varint_prefix(a1, a2, varint_field(2, b1), varint_field(2, b2));
    } else {
        if a2 != 0 {
            assert(right[0] == 8);
            assert(left.len() == right.len());
            assert(b1 != 0);
            assert(left[0] == 16);
        }
        assert(left =~= varint_field(2, b1));
        assert(right =~= varint_field(2, b2));
    }
    assert(varint_field(2, b1) == varint_field(2, b2));
    if b1 != 0 {
        assert(varint_field(2, b1).len() > 0);
        assert(b2 != 0);
        lemma_varint_prefix(16, 16, varint(b1), varint(b2));
        lemma_varint_injective(b1, b2);
    } else {
        assert(varint_field(2, b2).len() == 0);
    }
}

/// Appends the key of a field.
pub(crate) fn put_key(out: &mut Vec<u8>, tag: u32, wire_type: u8)
    requires
        1 <= tag <= MAX_TAG,
        wire_type < 8,
    ensures
        final(out)@ == old(out)@ + field_key(tag as nat, wire_type as nat),
{
    let key = encode_varint(tag as u64 * 8 + wire_type as u64);
    out.extend_from_slice(key.as_slice());
}

/// Appends an integer field.
pub(crate) fn put_varint_field(out: &mut Vec<u8>, tag: u32, value: u64)
    requires
        1 <= tag <= MAX_TAG,
    ensures
        final(out)@ == old(out)@ + varint_field(tag as nat, value as nat),
{
    if value != 0 {
        put_key(out, tag, WIRE_VARINT);
        let enc = encode_varint(value);
        out.extend_from_slice(enc.as_slice());
    }
}

/// Appends a field of bytes.
pub(crate) fn put_bytes_field(out: &mut Vec<u8>, tag: u32, bytes: &[u8])
    requires
        1 <= tag <= MAX_TAG,
    ensures
        final(out)@ == old(out)@ + bytes_field(tag as nat, bytes@),
{
    if bytes.len() != 0 {
        put_key(out, tag, WIRE_LENGTH_DELIMITED);
        let len = encode_varint(bytes.len() as u64);
        out.extend_from_slice(len.as_slice());
        out.extend_from_slice(bytes);
    }
}

} // verus!
