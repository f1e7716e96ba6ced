//! SHA-256 digests.

use crate::error::Error;
use crate::text::{ascii_bytes, bytes_are_chars};
use sha2::{Digest, Sha256};
use vstd::prelude::*;
use vstd::string::StringExecFns;

verus! {

/// The SHA-256 digest of a byte string.
pub uninterp spec fn sha256(data: Seq<u8>) -> [u8; 32];

/// Computes a SHA-256 digest with `sha2::Sha256::digest`. The contract names
/// the digest `sha256(data@)`: it is a function of the bytes alone. That it
/// has 32 bytes is carried by the result's type.
#[verifier::external_body]
pub(crate) fn sha256_digest(data: &[u8]) -> (digest: [u8; 32])
    ensures
        digest == sha256(data@),
{
    Sha256::digest(data).into()
}

/// A digest that identifies a block, a header or a set of validators.
#[derive(Clone, Copy, Debug, PartialEq, Eq)]
pub enum Hash {
    /// A SHA-256 digest.
    Sha256([u8; 32]),
}

/// Two digests of the same bytes are the same digest.
pub proof fn lemma_hash_by_bytes(a: Hash, b: Hash)
    requires
        a.bytes() == b.bytes(),
    ensures
        a == b,
{
    broadcast use vstd::array::group_array_axioms;

    let x = a->Sha256_0;
    let y = b->Sha256_0;
    assert(x =~= y);
}

/// The value of a hexadecimal digit, in either case, or `None` for any other
/// character.
pub open spec fn hex_value(c: char) -> Option<u8> {
    if '0' <= c <= '9' {
        Some((c as u8 - 0x30) as u8)
    } else if 'A' <= c <= 'F' {
        Some((c as u8 - 0x41 + 10) as u8)
    } else if 'a' <= c <= 'f' {
        Some((c as u8 - 0x61 + 10) as u8)
    } else {
        None
    }
}

/// Whether a text is a SHA-256 digest in hexadecimal: 64 digits.
pub open spec fn is_hex_digest(text: Seq<char>) -> bool {
    &&& text.len() == 64
    &&& forall|i: int| 0 <= i < 64 ==> (#[trigger] hex_value(text[i])) is Some
}

/// The bytes that a hexadecimal text stands for: one for each pair of digits,
/// the high digit first.
pub open spec fn hex_decode(text: Seq<char>) -> Seq<u8> {
    Seq::new(
        text.len() / 2,
        |i: int| (16 * hex_value(text[2 * i]).unwrap() + hex_value(text[2 * i + 1]).unwrap()) as u8,
    )
}

/// The upper-case hexadecimal digit of a value below 16.
pub open spec fn hex_char(d: nat) -> char {
    if d == 0 {
        '0'
    } else if d == 1 {
        '1'
    } else if d == 2 {
        '2'
    } else if d == 3 {
        '3'
    } else if d == 4 {
        '4'
    } else if d == 5 {
        '5'
    } else if d == 6 {
        '6'
    } else if d == 7 {
        '7'
    } else if d == 8 {
        '8'
    } else if d == 9 {
        '9'
    } else if d == 10 {
        'A'
    } else if d == 11 {
        'B'
    } else if d == 12 {
        'C'
    } else if d == 13 {
        'D'
    } else if d == 14 {
        'E'
    } else {
        'F'
    }
}

/// Bytes in upper-case hexadecimal: two digits for each byte, the high digit
/// first.
pub open spec fn hex_text(bytes: Seq<u8>) -> Seq<char> {
    Seq::new(
        2 * bytes.len(),
        |i: int|
            if i % 2 == 0 {
                hex_char((bytes[i / 2] / 16) as nat)
            } else {
                hex_char((bytes[i / 2] % 16) as nat)
            },
    )
}

/// A digest that is written in hexadecimal and read again is the same
/// digest: the text of 32 bytes is a digest in hexadecimal, and it stands for
/// those bytes.
pub proof fn lemma_hex_round_trip(bytes: Seq<u8>)
    requires
        bytes.len() == 32,
    ensures
        is_hex_digest(hex_text(bytes)),
        hex_decode(hex_text(bytes)) == bytes,
{
    let text = hex_text(bytes);
    assert forall|i: int| 0 <= i < 64 implies (#[trigger] hex_value(text[i])) is Some by {
        let b = bytes[i / 2];
        assert(b / 16 < 16 && b % 16 < 16);
    }
    assert forall|i: int| 0 <= i < 32 implies hex_decode(text)[i] == bytes[i] by {
        let b = bytes[i];
        assert((2 * i) / 2 == i && (2 * i) % 2 == 0);
        assert((2 * i + 1) / 2 == i && (2 * i + 1) % 2 == 1);
        assert(text[2 * i] == hex_char((b / 16) as nat));
        assert(text[2 * i + 1] == hex_char((b % 16) as nat));
        assert(hex_value(hex_char((b / 16) as nat)) == Some((b / 16) as u8));
        assert(hex_value(hex_char((b % 16) as nat)) == Some((b % 16) as u8));
        assert(16 * (b / 16) + b % 16 == b);
    }
    assert(hex_decode(text) =~= bytes);
}

/// The text of one upper-case hexadecimal digit.
fn hex_digit_str(d: u8) -> (s: &'static str)
    requires
        d < 16,
    ensures
        s@ == seq![hex_char(d as nat)],
{
    proof {
        reveal_strlit("0");
        reveal_strlit("1");
        reveal_strlit("2");
        reveal_strlit("3");
        reveal_strlit("4");
        reveal_strlit("5");
        reveal_strlit("6");
        reveal_strlit("7");
        reveal_strlit("8");
        reveal_strlit("9");
        reveal_strlit("A");
        reveal_strlit("B");
        reveal_strlit("C");
        reveal_strlit("D");
        reveal_strlit("E");
        reveal_strlit("F");
    }
    let s = match d {
        0 => "0",
        1 => "1",
        2 => "2",
        3 => "3",
        4 => "4",
        5 => "5",
        6 => "6",
        7 => "7",
        8 => "8",
        9 => "9",
        10 => "A",
        11 => "B",
        12 => "C",
        13 => "D",
        14 => "E",
        _ => "F",
    };
    assert(s@ =~= seq![hex_char(d as nat)]);
    s
}

/// The value of the hexadecimal digit that a byte stands for.
fn hex_digit(b: u8, Ghost(c): Ghost<char>) -> (r: Option<u8>)
    requires
        '\0' <= c <= '\u{7f}',
        b == c as u8,
    ensures
        r == hex_value(c),
        r matches Some(d) ==> d < 16,
{
    if 0x30 <= b && b <= 0x39 {
        Some(b - 0x30)
    } else if 0x41 <= b && b <= 0x46 {
        Some(b - 0x41 + 10)
    } else if 0x61 <= b && b <= 0x66 {
        Some(b - 0x61 + 10)
    } else {
        None
    }
}

impl Hash {
    /// Reads a digest from its hexadecimal text: 64 digits, in either case.
    /// Any other text is refused.
    pub fn from_hex(text: &str) -> (r: Result<Hash, Error>)
        ensures
            match r {
                Ok(h) => is_hex_digest(text@) && h.bytes() == hex_decode(text@),
                Err(e) => !is_hex_digest(text@) && e == Error::InvalidHash,
            },
    {
        let digits = match ascii_bytes(text) {
            Some(digits) => digits,
            None => {
                proof {
                    if is_hex_digest(text@) {
                        assert forall|i: int| 0 <= i < text@.len() implies '\0'
                            <= #[trigger] text@[i] <= '\u{7f}' by {
                            assert(hex_value(text@[i]) is Some);
                        }
                    }
                }
                return Err(Error::InvalidHash);
            },
        };
        if digits.len() != 64 {
            return Err(Error::InvalidHash);
        }
        let mut out = [0u8; 32];
        let mut i: usize = 0;
        while i < 32
            invariant
                i <= 32,
                bytes_are_chars(digits@, text@),
                digits@.len() == 64,
                forall|j: int| 0 <= j < 2 * i ==> (#[trigger] hex_value(text@[j])) is Some,
                forall|j: int| 0 <= j < i ==> out@[j] == #[trigger] hex_decode(text@)[j],
            decreases 32 - i,
        {
            let hi = hex_digit(digits[2 * i], Ghost(text@[2 * i]));
            let lo = hex_digit(digits[2 * i + 1], Ghost(text@[2 * i + 1]));
            match (hi, lo) {
                (Some(h), Some(l)) => {
                    out[i] = 16 * h + l;
                },
                _ => {
                    return Err(Error::InvalidHash);
                },
            }
            i += 1;
        }
        assert(out@ =~= hex_decode(text@));
        Ok(Hash::Sha256(out))
    }

    /// Writes the digest in upper-case hexadecimal: 64 digits.
    pub fn to_hex(&self) -> (r: String)
        ensures
            r@ == hex_text(self.bytes()),
    {
        let bytes = self.as_bytes();
        let mut out = String::new();
        let mut i: usize = 0;
        while i < 32
            invariant
                i <= 32,
                bytes@ == self.bytes(),
                bytes@.len() == 32,
                out@ == hex_text(self.bytes()).take(2 * i),
            decreases 32 - i,
        {
            let b = bytes[i];
            out.append(hex_digit_str(b / 16));
            out.append(hex_digit_str(b % 16));
            proof {
                let text = hex_text(self.bytes());
                assert((2 * i) / 2 == i && (2 * i) % 2 == 0);
                assert((2 * i + 1) / 2 == i && (2 * i + 1) % 2 == 1);
                assert(text[2 * i] == hex_char((b / 16) as nat));
                assert(text[2 * i + 1] == hex_char((b % 16) as nat));
                assert(out@ =~= text.take(2 * (i + 1)));
            }
            i += 1;
        }
        assert(out@ =~= hex_text(self.bytes()));
        out
    }

    /// The bytes of the digest, as a sequence.
    pub open spec fn bytes(self) -> Seq<u8> {
        match self {
            Hash::Sha256(b) => b@,
        }
    }

    /// The bytes of the digest.
    pub fn as_bytes(&self) -> (b: &[u8])
        ensures
            b@ == self.bytes(),
            b@.len() == 32,
    {
        match self {
            Hash::Sha256(b) => b.as_slice(),
        }
    }
}

} // verus!
