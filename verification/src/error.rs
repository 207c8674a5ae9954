use vstd::prelude::*;

verus! {

/// The single terminal error class each lifecycle operation surfaces.
/// Every rejection happens before any asset movement, so an error always
/// means zero side effects.
#[derive(Clone, Copy, Debug, PartialEq, Eq, Structural)]
pub enum EscrowError {
    /// A signer, identity, asset kind, account or record did not match what
    /// the operation requires (this also covers a destination account that
    /// cannot take the units being moved).
    PreconditionViolation,
    /// A holding account lacks the units the operation must move.
    InsufficientBalance,
    /// The address the operation would allocate is already occupied.
    AddressCollision,
    /// The address deriver found no viable derivation for the given inputs.
    DerivationExhaustion,
}

} // verus!
