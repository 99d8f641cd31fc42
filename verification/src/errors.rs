use vstd::prelude::*;

verus! {

/// Every way a mutating operation of the contract can fail.
///
/// A failed operation leaves the contract untouched: callers never see a
/// partially applied mint, transfer, or claim.
#[derive(Clone, Copy, Debug, PartialEq, Eq, Structural)]
pub enum Error {
    /// A mutating entry point was called while the contract is frozen.
    ContractFrozen,
    /// The caller lacks the role the operation demands.
    Unauthorized,
    /// The named drop does not exist.
    DropNotFound,
    /// The named account has no record on the contract.
    AccountNotFound,
    /// The claim signature did not authenticate the claimant.
    InvalidSignature,
    /// The drop requires scavenger pieces but none was supplied.
    ScavengerRequired,
    /// The supplied piece is not one of the drop's required pieces.
    InvalidScavengerPiece,
    /// The supplied piece was already recorded for this account and drop.
    PieceAlreadyClaimed,
    /// The account already claimed this drop.
    AlreadyClaimed,
    /// A token-drop creator's balance cannot cover the drop amount.
    InsufficientCreatorFunds,
    /// A transfer exceeds the sender's balance.
    InsufficientBalance,
    /// A balance or supply counter would overflow.
    BalanceOverflow,
    /// Sender and receiver of a transfer are the same account.
    SelfTransfer,
    /// A transfer of zero tokens was requested.
    ZeroAmount,
    /// A freshly formed drop id is already taken.
    DropIdCollision,
    /// A freshly formed series id is already taken.
    SeriesIdCollision,
    /// The drop id does not parse into a creator and a sequence number.
    MalformedDropId,
    /// The caller's account id cannot be embedded in a drop id.
    InvalidAccountId,
    /// The NFT series a drop refers to does not exist.
    SeriesNotFound,
    /// Only the creator named in the drop id may delete the drop.
    CreatorMismatch,
    /// The account exists but no claim record exists for the drop.
    ClaimNotFound,
}

impl Error {
    /// A human-readable description of the failure.
    pub fn message(&self) -> &'static str {
        match self {
            Error::ContractFrozen => "the contract is frozen",
            Error::Unauthorized => "unauthorized",
            Error::DropNotFound => "drop not found",
            Error::AccountNotFound => "account not found",
            Error::InvalidSignature => "invalid signature",
            Error::ScavengerRequired => "this drop requires a scavenger piece",
            Error::InvalidScavengerPiece => "incorrect scavenger piece passed in",
            Error::PieceAlreadyClaimed => "scavenger piece already claimed",
            Error::AlreadyClaimed => "drop already claimed",
            Error::InsufficientCreatorFunds => "the creator does not have enough tokens to cover the amount to be claimed",
            Error::InsufficientBalance => "the account doesn't have enough balance",
            Error::BalanceOverflow => "token amount overflow",
            Error::SelfTransfer => "sender and receiver should be different",
            Error::ZeroAmount => "the amount should be a positive number",
            Error::DropIdCollision => "drop id already exists",
            Error::SeriesIdCollision => "series id already exists",
            Error::MalformedDropId => "invalid drop id",
            Error::InvalidAccountId => "invalid account id",
            Error::SeriesNotFound => "no series found with the given id",
            Error::CreatorMismatch => "only the drop creator can delete this drop",
            Error::ClaimNotFound => "no claim record found for this drop",
        }
    }
}

} // verus!
