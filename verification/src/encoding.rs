//! The canonical byte encoding of single header fields: variable-length
//! integers and length-prefixed byte strings.

use crate::error::Error;
use prost_amino::EncodeError;
use vstd::prelude::*;

verus! {

/// The variable-length encoding of an unsigned integer: base 128, least
/// significant group first, the high bit of a byte set when another byte
/// follows.
pub open spec fn varint(v: nat) -> Seq<u8>
    decreases v,
{
    if v < 0x80 {
        seq![v as u8]
    } else {
        seq![(v % 0x80 + 0x80) as u8] + varint(v / 0x80)
    }
}

/// A byte string behind its length: the length as a variable-length integer,
/// then the bytes.
pub open spec fn length_delimited(bytes: Seq<u8>) -> Seq<u8> {
    varint(bytes.len()) + bytes
}

/// A variable-length integer marks its own end: where two of them, each
/// followed by further bytes, give the same bytes, the integers are equal and
/// so is what follows them.
pub proof fn lemma_varint_prefix(a: nat, b: nat, x: Seq<u8>, y: Seq<u8>)
    requires
        varint(a) + x == varint(b) + y,
    ensures
        a == b,
        x == y,
    decreases a,
{
    let left = varint(a) + x;
    let right = varint(b) + y;
    assert(left[0] == right[0]);
    assert(left[0] == varint(a)[0]);
    assert(right[0] == varint(b)[0]);
    if a < 0x80 {
        assert(b < 0x80);
        assert(x =~= left.skip(1));
        assert(y =~= right.skip(1));
    } else {
        assert(b >= 0x80);
        assert(a % 0x80 == b % 0x80);
        assert(varint(a / 0x80) + x =~= left.skip(1));
        assert(varint(b / 0x80) + y =~= right.skip(1));
        lemma_varint_prefix(a / 0x80, b / 0x80, x, y);
    }
}

/// Different integers have different encodings.
pub proof fn lemma_varint_injective(a: nat, b: nat)
    requires
        varint(a) == varint(b),
    ensures
        a == b,
{
    assert(varint(a) + Seq::<u8>::empty() =~= varint(a));
    assert(varint(b) + Seq::<u8>::empty() =~= varint(b));
    lemma_varint_prefix(a, b, Seq::empty(), Seq::empty());
}

/// A byte string behind its length marks its own end: where two of them,
/// each followed by further bytes, give the same bytes, the strings are equal
/// and so is what follows them.
pub proof fn lemma_length_delimited_prefix(a: Seq<u8>, b: Seq<u8>, x: Seq<u8>, y: Seq<u8>)
    requires
        length_delimited(a) + x == length_delimited(b) + y,
    ensures
        a == b,
        x == y,
{
    assert(varint(a.len()) + (a + x) =~= length_delimited(a) + x);
    assert(varint(b.len()) + (b + y) =~= length_delimited(b) + y);
    lemma_varint_prefix(a.len(), b.len(), a + x, b + y);
    assert(a =~= (a + x).take(a.len() as int));
    assert(b =~= (b + y).take(b.len() as int));
    assert(x =~= (a + x).skip(a.len() as int));
    assert(y =~= (b + y).skip(b.len() as int));
}

/// Different byte strings have different encodings behind their length.
pub proof fn lemma_length_delimited_injective(a: Seq<u8>, b: Seq<u8>)
    requires
        length_delimited(a) == length_delimited(b),
    ensures
        a == b,
{
    assert(length_delimited(a) + Seq::<u8>::empty() =~= length_delimited(a));
    assert(length_delimited(b) + Seq::<u8>::empty() =~= length_delimited(b));
    lemma_length_delimited_prefix(a, b, Seq::empty(), Seq::empty());
}

/// Different optional digests have different encodings; one that is absent
/// has no bytes, one that is present has 33.
pub proof fn lemma_optional_hash_injective(
    a: Option<crate::hash::Hash>,
    b: Option<crate::hash::Hash>,
)
    requires
        optional_hash_bytes(a) == optional_hash_bytes(b),
    ensures
        a == b,
        a is None ==> optional_hash_bytes(a).len() == 0,
        a is Some ==> optional_hash_bytes(a).len() == 33,
{
    match a {
        Some(h) => {
            assert(varint(32) =~= seq![32u8]);
            assert(h.bytes().len() == 32);
        },
        None => {},
    }
    match b {
        Some(h) => {
            assert(varint(32) =~= seq![32u8]);
            assert(h.bytes().len() == 32);
        },
        None => {},
    }
    if let (Some(h1), Some(h2)) = (a, b) {
        lemma_length_delimited_injective(h1.bytes(), h2.bytes());
        crate::hash::lemma_hash_by_bytes(h1, h2);
    }
}

/// The error of `prost_amino`'s encoder, `prost_amino::EncodeError`. Nothing
/// is claimed of what it holds: it is only carried from the call to the place
/// where it becomes an error of this library.
#[verifier::external_type_specification]
#[verifier::external_body]
pub struct ExEncodeError(EncodeError);

/// Calls `prost_amino::encoding::encode_varint` on an empty vector. That
/// function writes the value in LEB128: seven bits to a byte from the low end,
/// each byte but the last with its high bit set. The contract says that the
/// vector then holds `varint` of the value.
#[verifier::external_body]
pub(crate) fn encode_varint(val: u64) -> (val_enc: Vec<u8>)
    ensures
        val_enc@ == varint(val as nat),
{
    let mut val_enc = vec![];
    prost_amino::encoding::encode_varint(val, &mut val_enc);
    val_enc
}

/// Calls `prost_amino::encode_length_delimiter` on an empty vector. That
/// function fails only where the buffer has less room left than the delimiter
/// takes, at most ten bytes; a vector reports `usize::MAX` less its length as
/// the room left. So the contract promises success, and that the vector holds
/// `varint` of the length.
#[verifier::external_body]
fn encode_length_delimiter(length: usize) -> (r: Result<Vec<u8>, EncodeError>)
    ensures
        r is Ok,
        r->Ok_0@ == varint(length as nat),
{
    let mut buf = vec![];
    match prost_amino::encode_length_delimiter(length, &mut buf) {
        Ok(()) => Ok(buf),
        Err(e) => Err(e),
    }
}

/// Encodes a byte string behind its length. An empty string gives the single
/// byte `0`.
pub fn bytes_enc(bytes: &[u8]) -> (r: Result<Vec<u8>, Error>)
    ensures
        r is Ok,
        r->Ok_0@ == length_delimited(bytes@),
{
    match encode_length_delimiter(bytes.len()) {
        Ok(mut enc) => {
            enc.extend_from_slice(bytes);
            Ok(enc)
        },
        Err(_) => Err(Error::FatalEncoding),
    }
}

/// The encoding of an optional digest: the digest behind its length where it
/// is present, no bytes at all where it is absent.
pub open spec fn optional_hash_bytes(hash: Option<crate::hash::Hash>) -> Seq<u8> {
    match hash {
        Some(h) => length_delimited(h.bytes()),
        None => Seq::empty(),
    }
}

/// Encodes a digest that is present: its bytes behind their length.
pub fn encode_hash(hash: &crate::hash::Hash) -> (r: Result<Vec<u8>, Error>)
    ensures
        r is Ok,
        r->Ok_0@ == length_delimited(hash.bytes()),
{
    bytes_enc(hash.as_bytes())
}

/// Encodes an optional digest. One that is absent gives no bytes, not the
/// length prefix of an empty string.
pub fn encode_optional_hash(hash: &Option<crate::hash::Hash>) -> (r: Result<Vec<u8>, Error>)
    ensures
        r is Ok,
        r->Ok_0@ == optional_hash_bytes(*hash),
{
    match hash {
        Some(h) => encode_hash(h),
        None => Ok(Vec::new()),
    }
}

} // verus!
