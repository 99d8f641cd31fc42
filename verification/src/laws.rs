use vstd::prelude::*;
use crate::claim::piece_in_hunt;
use crate::contract::Contract;
use crate::drop_id::drop_id_creator;
use crate::errors::Error;

verus! {

// The library-wide guarantees that relate several operations. Each is
// stated over the same spec functions the operations' own contracts use,
// so a caller can chain an operation's postcondition with the lemma.

/// At-most-once claim: once an account holds any claim record for a drop
/// without a scavenger requirement — and a successful claim leaves the
/// terminal record — every further claim attempt by that account fails with
/// `AlreadyClaimed` (or earlier, with `InvalidSignature`), and a failed
/// claim changes nothing, so the reward is paid out at most once.
pub proof fn lemma_direct_claim_at_most_once(
    c: &Contract,
    receiver: Seq<char>,
    id: Seq<char>,
    piece: Option<Seq<u8>>,
    signature_valid: bool,
)
    requires
        !c.is_contract_frozen,
        c.spec_has_drop(id),
        c.spec_drop(id)@.scavenger_of() is None,
        c.spec_progress_of(receiver, id) is Some,
    ensures
        c.claim_err(receiver, id, piece, signature_valid) == (if !signature_valid {
            Some(Error::InvalidSignature)
        } else {
            Some(Error::AlreadyClaimed)
        }),
{
}

/// Scavenger pieces are recorded at most once: resubmitting a piece that the
/// account already recorded for the drop fails with `PieceAlreadyClaimed`,
/// and a failed claim changes nothing, so a completed hunt can never pay out
/// a second time.
pub proof fn lemma_piece_resubmission_fails(c: &Contract, receiver: Seq<char>, id: Seq<char>, p: Seq<u8>)
    requires
        !c.is_contract_frozen,
        c.spec_has_drop(id),
        c.spec_drop(id)@.scavenger_of() matches Some(hunt) && piece_in_hunt(hunt, p),
        c.spec_progress_of(receiver, id) matches Some(rec) && rec matches Some(found)
            && found.contains(p),
    ensures
        c.claim_err(receiver, id, Some(p), true) == Some(Error::PieceAlreadyClaimed),
{
}

/// A piece outside the drop's required set is rejected with
/// `InvalidScavengerPiece`; a failed claim changes nothing, so progress is
/// untouched.
pub proof fn lemma_invalid_piece_rejected(c: &Contract, receiver: Seq<char>, id: Seq<char>, p: Seq<u8>)
    requires
        !c.is_contract_frozen,
        c.spec_has_drop(id),
        c.spec_drop(id)@.scavenger_of() matches Some(hunt) && !piece_in_hunt(hunt, p),
    ensures
        c.claim_err(receiver, id, Some(p), true) == Some(Error::InvalidScavengerPiece),
{
}

/// Sponsor funding limit: the claim of a sponsor-created token drop whose
/// sponsor cannot cover the amount fails its payout with
/// `InsufficientCreatorFunds`.
pub proof fn lemma_sponsor_funding_limit(c: &Contract, receiver: Seq<char>, id: Seq<char>)
    requires
        c.spec_drop(id)@ matches crate::models::DropDataV::Token(t) && t.token_amount > 0
            && c.spec_balance_of(drop_id_creator(id)) < t.token_amount,
        c.spec_has_account(drop_id_creator(id)),
        c.spec_status_of(drop_id_creator(id)) == Some(crate::roles::AccountStatus::Sponsor),
        drop_id_creator(id) != receiver,
    ensures
        c.payout_err(receiver, id) == Some(Error::InsufficientCreatorFunds),
{
}

/// Admin minting is supply-creating: a completed claim of a token drop whose
/// creator is an admin raises the total supply by exactly the drop amount.
pub proof fn lemma_admin_claim_creates_supply(
    pre: &Contract,
    post: &Contract,
    receiver: Seq<char>,
    id: Seq<char>,
)
    requires
        pre.claim_ledger_effect(post, receiver, id),
        pre.spec_drop(id)@ is Token,
        pre.spec_is_admin(drop_id_creator(id)),
    ensures
        post.ft_total_supply == pre.ft_total_supply + pre.spec_drop(id)@->Token_0.token_amount,
{
}

/// A sponsor-funded claim is a pure transfer: a completed claim of a token
/// drop whose creator is a sponsor (and not an admin) leaves the total
/// supply unchanged.
pub proof fn lemma_sponsor_claim_preserves_supply(
    pre: &Contract,
    post: &Contract,
    receiver: Seq<char>,
    id: Seq<char>,
)
    requires
        pre.claim_ledger_effect(post, receiver, id),
        pre.spec_drop(id)@ is Token,
        !pre.spec_is_admin(drop_id_creator(id)),
        pre.spec_is_sponsor(drop_id_creator(id)),
    ensures
        post.ft_total_supply == pre.ft_total_supply,
{
}

/// A frozen contract halts claims: whatever the drop, the piece, and the
/// signature, the claim fails with `ContractFrozen` — and a failed claim
/// changes nothing. The creation, transfer, and mint entry points state the
/// same fact directly in their own contracts.
pub proof fn lemma_frozen_halts_claims(
    c: &Contract,
    receiver: Seq<char>,
    id: Seq<char>,
    piece: Option<Seq<u8>>,
    signature_valid: bool,
)
    requires
        c.is_contract_frozen,
    ensures
        c.claim_err(receiver, id, piece, signature_valid) == Some(Error::ContractFrozen),
{
}

/// Overflow protection: a mint whose amount would push the receiver's
/// balance or the total supply past the representable range is refused, and
/// `ft_mint`'s contract guarantees a refused mint mutates nothing.
pub proof fn lemma_mint_overflow_rejected(c: &Contract, k: Seq<char>, amount: u128, credit: bool)
    requires
        c.spec_balance_of(k) + amount > u128::MAX || c.ft_total_supply + amount > u128::MAX,
    ensures
        c.mint_overflows(k, amount, credit),
{
}

} // verus!
