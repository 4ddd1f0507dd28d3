//! Error kinds of the transaction-validation path.

use vstd::prelude::*;

verus! {

/// Why a transfer or an initialization was rejected.
///
/// Every check of the validation sequence aborts with exactly one of these;
/// no partial effect is ever kept alongside an error.
#[derive(Clone, Copy, Debug, PartialEq, Eq, Structural)]
pub enum ErrorCode {
    Unauthorized,
    ExtDataHashMismatch,
    UnknownRoot,
    InvalidPublicAmountData,
    InsufficientFundsForWithdrawal,
    InsufficientFundsForFee,
    InvalidProof,
    InvalidFee,
    InvalidExtAmount,
    PublicAmountCalculationError,
    ArithmeticOverflow,
    DepositLimitExceeded,
    InvalidFeeRate,
    InvalidFeeRecipient,
    InvalidFeeAmount,
    RecipientMismatch,
    MerkleTreeFull,
    InvalidTokenAccount,
    InvalidMintAddress,
    InvalidTokenAccountMintAddress,
    /// The nullifier's marker record already exists: the note was spent.
    NullifierAlreadyUsed,
    /// The two-to-one hash rejected an input that is not a field element.
    HashFailed,
}

} // verus!
