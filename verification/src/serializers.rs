//! The conventions by which header fields are written as text: 64-bit
//! integers in decimal, digests in hexadecimal, and the empty text for a
//! digest or a block identifier that is absent.

use crate::block::{Height, Id, PartSetHeader};
use crate::error::Error;
use crate::hash::{hex_decode, is_hex_digest};
use crate::numbers::{
    decimal_string, decimal_text, i64_of_text, parse_i64_text, parse_u64_text,
    signed_decimal_string, signed_decimal_text, u64_of_text,
};
use crate::time::Duration;
use vstd::prelude::*;

verus! {

/// Reads a signed 64-bit integer that is transported as decimal text.
pub fn parse_i64(text: &str) -> (r: Result<i64, Error>)
    ensures
        match r {
            Ok(v) => i64_of_text(text@) == Some(v),
            Err(e) => i64_of_text(text@) is None && e == Error::InvalidInteger,
        },
{
    match parse_i64_text(text) {
        Some(v) => Ok(v),
        None => Err(Error::InvalidInteger),
    }
}

/// Writes a signed 64-bit integer as the decimal text that transports it.
pub fn serialize_i64(value: &i64) -> (r: String)
    ensures
        r@ == signed_decimal_text(*value as int),
{
    signed_decimal_string(*value)
}

/// Reads an unsigned 64-bit integer that is transported as decimal text.
pub fn parse_u64(text: &str) -> (r: Result<u64, Error>)
    ensures
        match r {
            Ok(v) => u64_of_text(text@) == Some(v),
            Err(e) => u64_of_text(text@) is None && e == Error::InvalidInteger,
        },
{
    match parse_u64_text(text) {
        Some(v) => Ok(v),
        None => Err(Error::InvalidInteger),
    }
}

/// Writes an unsigned 64-bit integer as the decimal text that transports it.
pub fn serialize_u64(value: &u64) -> (r: String)
    ensures
        r@ == decimal_text(*value as nat),
{
    decimal_string(*value as u128)
}

/// Reads a span of time that is transported as a count of nanoseconds in
/// decimal text. The count must fit 64 bits.
pub fn parse_duration(text: &str) -> (r: Result<Duration, Error>)
    ensures
        match r {
            Ok(d) => u64_of_text(text@) == Some(d.nanoseconds() as u64) && d.nanoseconds()
                <= u64::MAX,
            Err(e) => u64_of_text(text@) is None && e == Error::InvalidInteger,
        },
{
    match parse_u64_text(text) {
        Some(nanos) => Ok(Duration::from_nanos(nanos)),
        None => Err(Error::InvalidInteger),
    }
}

/// Writes a span of time as its count of nanoseconds in decimal text.
pub fn serialize_duration(duration: &Duration) -> (r: String)
    ensures
        r@ == decimal_text(duration.nanoseconds()),
{
    decimal_string(duration.as_nanos())
}

/// Reads a height that is transported as decimal text; a text that is no
/// height gives none.
pub fn parse_height_option(text: &str) -> (r: Option<Height>)
    ensures
        r == u64_of_text(text@),
{
    parse_u64_text(text)
}

/// The header of a part set as it is transported: the hash as text.
#[derive(Clone, Debug, PartialEq, Eq)]
pub struct RawPartSetHeader {
    /// The number of parts.
    pub total: u64,
    /// The hash in hexadecimal, or the empty text.
    pub hash: String,
}

/// A block identifier as it is transported: the hashes as text.
#[derive(Clone, Debug, PartialEq, Eq)]
pub struct RawBlockId {
    /// The hash of the block's header in hexadecimal, or the empty text.
    pub hash: String,
    /// The header of the block's part set.
    pub parts: RawPartSetHeader,
}

/// Whether a digest is the one that a hexadecimal text stands for.
pub open spec fn is_hash_of_text(hash: crate::hash::Hash, text: Seq<char>) -> bool {
    is_hex_digest(text) && hash.bytes() == hex_decode(text)
}

/// Reads an optional digest: no text and the empty text stand for a digest
/// that is absent, any other text must be a digest in hexadecimal.
pub fn parse_non_empty_hash(text: &Option<String>) -> (r: Result<Option<crate::hash::Hash>, Error>)
    ensures
        match r {
            Ok(None) => text is None || text->0@.len() == 0,
            Ok(Some(hash)) => text is Some && text->0@.len() != 0 && is_hash_of_text(
                hash,
                text->0@,
            ),
            Err(e) => text is Some && text->0@.len() != 0 && !is_hex_digest(text->0@) && e
                == Error::InvalidHash,
        },
{
    match text {
        None => Ok(None),
        Some(s) => {
            if s.as_str().is_empty() {
                Ok(None)
            } else {
                match crate::hash::Hash::from_hex(s.as_str()) {
                    Ok(hash) => Ok(Some(hash)),
                    Err(e) => Err(e),
                }
            }
        },
    }
}

/// Whether a part set header is the one that its transported form stands for.
pub open spec fn is_parts_of_raw(parts: Option<PartSetHeader>, raw: RawPartSetHeader) -> bool {
    match parts {
        None => raw.hash@.len() == 0,
        Some(p) => raw.hash@.len() != 0 && p.total == raw.total && is_hash_of_text(
            p.hash,
            raw.hash@,
        ),
    }
}

/// Reads an optional block identifier. None, and one whose hash is the empty
/// text, stand for a block identifier that is absent. In any other the hash
/// must be a digest in hexadecimal; its part set header is absent where that
/// header's hash is the empty text, and must else hold a digest in
/// hexadecimal too.
pub fn parse_non_empty_block_id(raw: &Option<RawBlockId>) -> (r: Result<Option<Id>, Error>)
    ensures
        match r {
            Ok(None) => raw is None || raw->0.hash@.len() == 0,
            Ok(Some(id)) => raw is Some && raw->0.hash@.len() != 0 && is_hash_of_text(
                id.hash,
                raw->0.hash@,
            ) && is_parts_of_raw(id.parts, raw->0.parts),
            Err(e) => e == Error::InvalidHash && raw is Some && raw->0.hash@.len() != 0 && (
            !is_hex_digest(raw->0.hash@) || (raw->0.parts.hash@.len() != 0 && !is_hex_digest(
                raw->0.parts.hash@,
            ))),
        },
{
    match raw {
        None => Ok(None),
        Some(tmp_id) => {
            if tmp_id.hash.as_str().is_empty() {
                Ok(None)
            } else {
                let hash = match crate::hash::Hash::from_hex(tmp_id.hash.as_str()) {
                    Ok(hash) => hash,
                    Err(e) => {
                        return Err(e);
                    },
                };
                let parts = if tmp_id.parts.hash.as_str().is_empty() {
                    None
                } else {
                    match crate::hash::Hash::from_hex(tmp_id.parts.hash.as_str()) {
                        Ok(parts_hash) => Some(
                            PartSetHeader { total: tmp_id.parts.total, hash: parts_hash },
                        ),
                        Err(e) => {
                            return Err(e);
                        },
                    }
                };
                Ok(Some(Id { hash, parts }))
            }
        },
    }
}

} // verus!
