use vstd::prelude::*;

verus! {

/// Why an instruction was refused.
#[derive(Clone, Copy, Debug, PartialEq, Eq, Structural)]
pub enum TokenError {
    /// The payload is too short or holds an invalid flag byte.
    MalformedInstruction,
    /// Fewer account handles than the instruction needs.
    MissingAccount,
    /// The mint record is absent or not initialized.
    InvalidMint,
    /// A record is absent, of the wrong kind or not initialized.
    InvalidAccount,
    /// The storage is not owned by the recognized program.
    WrongOwner,
    /// The signer set does not authorize the operation.
    AuthorityError,
    /// A native-only operation on an account that does not wrap the native asset.
    NonNativeNotSupported,
    /// A withdrawal exceeds the balance.
    InsufficientFunds,
    /// The mint has no freeze authority.
    MintCannotFreeze,
    /// The account already holds an initialized record.
    AlreadyInitialized,
    /// The account is already in the requested state.
    InvalidState,
    /// The account belongs to another mint than the one supplied.
    MintMismatch,
    /// The account is frozen.
    AccountFrozen,
    /// The account holds fewer base-currency units than its reserve.
    NotRentExempt,
    /// A counter would overflow.
    ArithmeticOverflow,
}

} // verus!
