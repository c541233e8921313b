use vstd::prelude::*;

verus! {

/// Errors raised while decoding application-layer fields and frames.
#[derive(Debug, Copy, Clone, PartialEq, Eq, Structural)]
pub enum DatatypeError {
    /// A variable-length integer ran past its maximum width.
    TooBig,
    /// The input ended before the field's bytes were all present.
    NotEnoughData,
    /// A next-state value outside the known enumeration.
    UnknownState(i32),
    /// A malformed encoding: invalid text bytes, an identifier without its
    /// separator, a corrupt compressed body, or a declared uncompressed
    /// length that the decompressed bytes do not match.
    Invalid,
    /// A client-bound packet while the session is still handshaking.
    IllegalDirection,
}

} // verus!
