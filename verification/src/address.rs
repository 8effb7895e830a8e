use vstd::prelude::*;

verus! {

/// The identity of a ledger participant.
///
/// A participant is an account or a contract, told apart by a 32-byte
/// identifier that is kept as its two big-endian halves. Equal values denote
/// the same participant.
#[derive(Clone, Copy, Debug, PartialEq, Eq, Structural)]
pub enum Address {
    /// An account, by its public key.
    Account(u128, u128),
    /// A contract, by its identifier.
    Contract(u128, u128),
}

} // verus!
