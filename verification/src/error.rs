//! The errors that this library reports.

use crate::numbers::{decimal_text, push_decimal};
use vstd::prelude::*;
use vstd::string::StringExecFns;

verus! {

/// Why an operation of this library failed.
#[derive(Clone, Copy, Debug, PartialEq, Eq, Structural)]
pub enum Error {
    /// A header holds a value that has no canonical encoding, so it has no
    /// hash. The caller must not substitute a default.
    FatalEncoding,
    /// The store holds no trusted state at this height. The height is the
    /// one that was looked up, after `0` was resolved to the latest height.
    NotFound(u64),
    /// A text is no decimal integer of the type asked for.
    InvalidInteger,
    /// A text is no hexadecimal SHA-256 digest.
    InvalidHash,
}

impl Error {
    /// The error in words. One that reports a missing height names the
    /// height.
    pub open spec fn message(self) -> Seq<char> {
        match self {
            Error::FatalEncoding => "header has no canonical encoding"@,
            Error::NotFound(height) => "could not load height "@ + decimal_text(height as nat)
                + " from store"@,
            Error::InvalidInteger => "invalid decimal integer"@,
            Error::InvalidHash => "invalid hexadecimal digest"@,
        }
    }

    /// Writes the error in words.
    pub fn to_string(&self) -> (r: String)
        ensures
            r@ == self.message(),
    {
        match self {
            Error::FatalEncoding => String::from_str("header has no canonical encoding"),
            Error::NotFound(height) => {
                let mut out = String::from_str("could not load height ");
                push_decimal(&mut out, *height as u128);
                out.append(" from store");
                out
            },
            Error::InvalidInteger => String::from_str("invalid decimal integer"),
            Error::InvalidHash => String::from_str("invalid hexadecimal digest"),
        }
    }
}

} // verus!
