//! Blocks: heights and block identifiers.

use crate::amino::{bytes_field, message_field, put_bytes_field, put_key, put_varint_field, varint_field};
use crate::encoding::{
    encode_varint, lemma_length_delimited_prefix, lemma_varint_prefix, length_delimited, varint,
};
use crate::hash::lemma_hash_by_bytes;
use vstd::prelude::*;

verus! {

/// The position of a block in the chain. As a key of a lookup, `0` stands for
/// the latest height.
pub type Height = u64;

/// The header of the set of parts that a block was split into.
#[derive(Clone, Copy, Debug, PartialEq, Eq)]
pub struct PartSetHeader {
    /// The number of parts.
    pub total: u64,
    /// The Merkle root of the parts.
    pub hash: crate::hash::Hash,
}

/// What identifies a block: the hash of its header, and the header of its
/// part set where there is one.
#[derive(Clone, Copy, Debug, PartialEq, Eq)]
pub struct Id {
    /// The hash of the block's header.
    pub hash: crate::hash::Hash,
    /// The header of the block's part set.
    pub parts: Option<PartSetHeader>,
}

/// The message encoding of a part set header: the number of parts as field
/// 1, the hash as field 2.
pub open spec fn part_set_header_bytes(parts: PartSetHeader) -> Seq<u8> {
    varint_field(1, parts.total as nat) + bytes_field(2, parts.hash.bytes())
}

/// The message encoding of a block identifier: the hash as field 1, the part
/// set header, where there is one, as field 2.
pub open spec fn block_id_bytes(id: Id) -> Seq<u8> {
    bytes_field(1, id.hash.bytes()) + match id.parts {
        Some(parts) => message_field(2, part_set_header_bytes(parts)),
        None => Seq::empty(),
    }
}

/// Different part set headers have different encodings.
pub proof fn lemma_part_set_header_injective(a: PartSetHeader, b: PartSetHeader)
    requires
        part_set_header_bytes(a) == part_set_header_bytes(b),
    ensures
        a == b,
{
    let left = part_set_header_bytes(a);
    let right = part_set_header_bytes(b);
    let ha = length_delimited(a.hash.bytes());
    let hb = length_delimited(b.hash.bytes());
    assert(crate::amino::field_key(1, 0) =~= seq![8u8]);
    assert(crate::amino::field_key(2, 2) =~= seq![18u8]);
    assert(a.hash.bytes().len() == 32 && b.hash.bytes().len() == 32);
    assert(varint(a.total as nat).len() > 0 && varint(b.total as nat).len() > 0);
    assert(bytes_field(2, a.hash.bytes()) =~= varint(18) + ha);
    assert(bytes_field(2, b.hash.bytes()) =~= varint(18) + hb);
    if a.total != 0 {
        assert(left[0] == 8);
        if b.total == 0 {
            assert(right[0] == 18);
        }
        assert(left =~= varint(8) + (varint(a.total as nat) + (varint(18) + ha)));
        assert(right =~= varint(8) + (varint(b.total as nat) + (varint(18) + hb)));
        lemma_varint_prefix(
            8,
            8,
            varint(a.total as nat) + (varint(18) + ha),
            varint(b.total as nat) + (varint(18) + hb),
        );
        lemma_varint_prefix(a.total as nat, b.total as nat, varint(18) + ha, varint(18) + hb);
    } else {
        assert(left =~= varint(18) + ha);
        assert(left[0] == 18);
        if b.total != 0 {
            assert(right[0] == 8);
        }
        assert(right =~= varint(18) + hb);
    }
    lemma_varint_prefix(18, 18, ha, hb);
    assert(ha + Seq::<u8>::empty() =~= ha);
    assert(hb + Seq::<u8>::empty() =~= hb);
    lemma_length_delimited_prefix(a.hash.bytes(), b.hash.bytes(), Seq::empty(), Seq::empty());
    lemma_hash_by_bytes(a.hash, b.hash);
}

/// What follows the hash in the encoding of a block identifier.
spec fn parts_field(parts: Option<PartSetHeader>) -> Seq<u8> {
    match parts {
        Some(parts) => message_field(2, part_set_header_bytes(parts)),
        None => Seq::empty(),
    }
}

/// Different block identifiers have different encodings, and none has the
/// empty encoding.
pub proof fn lemma_block_id_injective(a: Id, b: Id)
    requires
        block_id_bytes(a) == block_id_bytes(b),
    ensures
        a == b,
        block_id_bytes(a).len() > 0,
{
    let ha = length_delimited(a.hash.bytes());
    let hb = length_delimited(b.hash.bytes());
    assert(crate::amino::field_key(1, 2) =~= seq![10u8]);
    assert(crate::amino::field_key(2, 2) =~= seq![18u8]);
    assert(a.hash.bytes().len() == 32 && b.hash.bytes().len() == 32);
    assert(block_id_bytes(a) =~= varint(10) + (ha + parts_field(a.parts)));
    assert(block_id_bytes(b) =~= varint(10) + (hb + parts_field(b.parts)));
    lemma_varint_prefix(10, 10, ha + parts_field(a.parts), hb + parts_field(b.parts));
    lemma_length_delimited_prefix(
        a.hash.bytes(),
        b.hash.bytes(),
        parts_field(a.parts),
        parts_field(b.parts),
    );
    lemma_hash_by_bytes(a.hash, b.hash);
    match (a.parts, b.parts) {
        (Some(pa), Some(pb)) => {
            let ma = length_delimited(part_set_header_bytes(pa));
            let mb = length_delimited(part_set_header_bytes(pb));
            lemma_varint_prefix(18, 18, ma, mb);
            assert(ma + Seq::<u8>::empty() =~= ma);
            assert(mb + Seq::<u8>::empty() =~= mb);
            lemma_length_delimited_prefix(
                part_set_header_bytes(pa),
                part_set_header_bytes(pb),
                Seq::empty(),
                Seq::empty(),
            );
            lemma_part_set_header_injective(pa, pb);
        },
        (Some(pa), None) => {
            assert(parts_field(a.parts).len() > 0);
        },
        (None, Some(pb)) => {
            assert(parts_field(b.parts).len() > 0);
        },
        (None, None) => {},
    }
}

impl PartSetHeader {
    /// Encodes the part set header as a message.
    pub fn bytes_vec(&self) -> (out: Vec<u8>)
        ensures
            out@ == part_set_header_bytes(*self),
    {
        let mut out: Vec<u8> = Vec::new();
        put_varint_field(&mut out, 1, self.total);
        put_bytes_field(&mut out, 2, self.hash.as_bytes());
        out
    }
}

impl Id {
    /// Encodes the block identifier as a message.
    pub fn bytes_vec(&self) -> (out: Vec<u8>)
        ensures
            out@ == block_id_bytes(*self),
    {
        let mut out: Vec<u8> = Vec::new();
        put_bytes_field(&mut out, 1, self.hash.as_bytes());
        match &self.parts {
            Some(parts) => {
                let inner = parts.bytes_vec();
                put_key(&mut out, 2, 2);
                let len = encode_varint(inner.len() as u64);
                out.extend_from_slice(len.as_slice());
                out.extend_from_slice(inner.as_slice());
            },
            None => {},
        }
        out
    }
}

} // verus!
