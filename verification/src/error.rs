use vstd::prelude::*;

verus! {

/// The ways a RAFF operation can fail.
#[derive(Debug, Clone, Copy, PartialEq, Eq, Structural)]
pub enum RaffError {
    /// A tag or version field does not have the required shape.
    InvalidFormat,
    /// The fixed icon or text magic bytes of a container header do not match.
    InvalidMagic,
    /// A variable-length size field would need more than five octets.
    OutOfRange,
    /// A well-formed container header carries a version this library does not accept.
    UnsupportedVersion,
    /// The underlying octet stream failed; for in-memory streams, it ran out of data.
    IoError,
}

} // verus!
