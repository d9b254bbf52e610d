//! Faults: everything that can go wrong while lowering a contract or while
//! running its code. Every fault is recoverable at the call boundary; no
//! operation of this crate aborts its host.

use vstd::prelude::*;

verus! {

/// A recoverable fault, raised either while generating code or while the
/// interpreter runs it.
#[derive(Clone, Copy, Debug, PartialEq, Eq, Structural)]
pub enum Fault {
    /// A pop was attempted on an empty operand stack.
    StackUnderflow,
    /// A push was attempted on a full operand stack; the word is never
    /// silently dropped.
    StackOverflow,
    /// A load or store addressed a slot beyond the allocated storage.
    StorageAddressOutOfRange,
    /// A parameter or expression whose type has no code-generation or
    /// decoding rule; anything but a boolean is outside the support table.
    UnsupportedType,
    /// A variable name with no assigned storage slot; a lookup never falls
    /// back silently to slot zero.
    UnresolvedVariable,
    /// A storage slot index too large to be the immediate of a one-byte push.
    SlotOutOfRange,
}

} // verus!
