use vstd::prelude::*;

verus! {

/// Errors raised while parsing the link and transport layers.
#[derive(Debug, Copy, Clone, PartialEq, Eq, Structural)]
pub enum PacketError {
    /// The packet bytes are malformed.
    Invalid,
    /// Fewer bytes are present than a fixed field or a declared length demands.
    IncorrectLength,
    /// The ether-type is not one this library decodes.
    UnknownProtocol(u16),
}

} // verus!
