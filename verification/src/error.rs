//! The failures this crate reports.

use vstd::prelude::*;

verus! {

/// Why an encoding or a decoding did not go through.
#[derive(Debug, Clone, Copy, PartialEq, Eq, Structural)]
pub enum Error {
    /// A rule names a source and a destination prefix of different address families.
    MixedFamily,
    /// An attribute payload is too long for the 16-bit length field in front of it.
    SerializationOverflow,
    /// A buffer is shorter than the fixed layout it is read against.
    ShortRead,
    /// A pair of addresses is neither two IPv4 nor two IPv6 addresses.
    UnsupportedFamily,
}

impl Error {
    /// A short description for messages and logs.
    pub fn message(&self) -> (r: &'static str)
        ensures
            r@ == match *self {
                Error::MixedFamily => "source and destination ip are not the same IP family"@,
                Error::SerializationOverflow => "attribute payload does not fit a 16-bit length"@,
                Error::ShortRead => "socket data short read"@,
                Error::UnsupportedFamily => "addresses are not of one supported family"@,
            },
    {
        match self {
            Error::MixedFamily => "source and destination ip are not the same IP family",
            Error::SerializationOverflow => "attribute payload does not fit a 16-bit length",
            Error::ShortRead => "socket data short read",
            Error::UnsupportedFamily => "addresses are not of one supported family",
        }
    }
}

} // verus!
