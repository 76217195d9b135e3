use vstd::prelude::*;

verus! {

/// Failures of candy machine initialization.
#[derive(Debug, Clone, Copy, PartialEq, Eq, Structural)]
pub enum CandyError {
    /// A size or offset computation does not fit in 64 bits.
    NumericalOverflowError,
    /// The required account size exceeds the platform's maximum account size.
    ExceedsStorageLimit,
    /// More creators than fit beside the machine itself.
    TooManyCreators,
    /// The token account's mint differs from the payment mint.
    PaymentMintMismatch,
    /// The account buffer is smaller than the layout needs.
    InsufficientBufferCapacity,
    /// The account to initialize already carries a tag.
    AccountNotZeroed,
    /// The symbol is longer than the fixed symbol width.
    SymbolTooLong,
    /// The account does not start with the expected tag, or holds no record.
    AccountTagMismatch,
    /// The signer is not the machine's authority.
    AuthorityMismatch,
    /// The collection account is not the one derived for this machine.
    MismatchedCollectionPDA,
}

} // verus!
