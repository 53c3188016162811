//! Client-side codec for a schema-evolvable binary RPC wire protocol.
//!
//! The crate centres on a binary codec over an in-memory byte stream:
//! big-endian fixed-width integers, length-prefixed binary blobs,
//! type-tagged field headers, and a recursive skip routine that discards
//! a value of any wire type so unknown struct fields can be tolerated.
//! On top of the codec sit the message envelope (method name, message
//! kind, sequence id) and a small route-management client layer that
//! encodes requests and decodes replies for a routing agent.

use vstd::prelude::*;

pub mod addr;
pub mod codec;
pub mod reader;
pub mod rpc;
pub mod skip;
pub mod tag;
pub mod value;

verus! {

/// A violation of the wire encoding itself: the peer (or the caller)
/// produced bytes that no conforming encoder emits.
#[derive(Clone, Copy, Debug, PartialEq, Eq, Structural)]
pub enum ProtocolError {
    /// A type-tag byte outside the defined enumeration.
    UnknownTypeTag,
    /// A list, set, map or binary header carried a negative count.
    NegativeCount,
    /// A message-kind byte outside the defined enumeration.
    UnknownMessageKind,
    /// `Stop` or `Void` was given as the target of a skip.
    InvalidSkipTag,
}

/// The error taxonomy of the library.
#[derive(Clone, Copy, Debug, PartialEq, Eq, Structural)]
pub enum Error {
    /// The stream ended before the value was complete (a short read).
    TransportError,
    /// The bytes violate the wire encoding.
    ProtocolError(ProtocolError),
    /// The peer signalled an application-level exception envelope.
    UserException,
}

} // verus!
