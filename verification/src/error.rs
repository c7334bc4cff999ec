//! The failure taxonomy of packet encoding and decoding.

use vstd::prelude::*;

verus! {

/// Every way an encode or decode call can fail.
///
/// Failures are reported to the immediate caller; none is recovered
/// internally, and a failing call never leaves a partially written buffer
/// or an advanced counter behind.
#[derive(Clone, Copy, Debug, PartialEq, Eq, Structural)]
pub enum PacketError {
    /// Fewer bytes were available than the header declares it needs.
    TruncatedHeader,
    /// A decoded header declares a total header length smaller than the
    /// 16-byte fixed part.
    HeaderLengthUnderflow,
    /// The computed header length exceeds the range of its one-byte field.
    HeaderLengthOverflow,
    /// The payload byte count exceeds the range of its two-byte field.
    PayloadLengthOverflow,
    /// A TLV tag byte matches none of the defined variants.
    UnknownTlvTag,
    /// A payload-label TLV declares a slot count other than one.
    UnsupportedTlvLength,
}

} // verus!
