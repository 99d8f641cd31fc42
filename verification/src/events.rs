use vstd::prelude::*;
use crate::models::{AccountId, DropId};

verus! {

/// Name of the fungible-token event standard.
pub const FT_STANDARD_NAME: &'static str = "nep141";

/// Version of the fungible-token event standard.
pub const FT_METADATA_SPEC: &'static str = "1.0.0";

/// Name of the domain event standard.
pub const KEYPOM_STANDARD_NAME: &'static str = "kpom101";

/// Version of the domain event standard.
pub const KEYPOM_CONFERENCE_METADATA_SPEC: &'static str = "1.0.0";

/// What a completed claim paid out.
pub enum DropClaimReward {
    Nft,
    Token(u128),
    Multichain,
}

/// A standard fungible-token mint event.
pub struct FtMintLog {
    pub owner_id: String,
    pub amount: u128,
    pub memo: Option<String>,
}

/// A standard fungible-token transfer event.
pub struct FtTransferLog {
    pub old_owner_id: String,
    pub new_owner_id: String,
    pub amount: u128,
    pub memo: Option<String>,
}

/// A domain mint event carrying the receiver's new balance and, when the
/// mint paid out a drop, the drop's id.
pub struct KeypomTokenMintLog {
    pub amount: u128,
    pub receiver_id: String,
    pub drop_id: Option<DropId>,
    pub new_balance: u128,
}

/// A domain transfer event carrying both parties' new balances.
pub struct KeypomTokenTransferLog {
    pub amount: u128,
    pub sender_id: String,
    pub receiver_id: String,
    pub new_sender_balance: u128,
    pub new_receiver_balance: u128,
}

/// A domain event recording the creation of a drop.
pub struct KeypomDropCreationLog {
    pub drop_reward: DropClaimReward,
    pub creator_id: String,
    pub num_scavengers: Option<u16>,
}

/// A domain event recording one validated claim attempt.
pub struct KeypomDropClaimLog {
    pub claimer_id: String,
    pub reward: Option<DropClaimReward>,
    pub pieces_found: Option<u16>,
    pub pieces_required: Option<u16>,
}

/// The payload of one event-log envelope.
pub enum EventLogVariant {
    FtMint(FtMintLog),
    FtTransfer(FtTransferLog),
    KeypomDropClaim(KeypomDropClaimLog),
    KeypomDropCreation(KeypomDropCreationLog),
    KeypomTokenMint(KeypomTokenMintLog),
    KeypomTokenTransfer(KeypomTokenTransferLog),
}

/// One entry of the append-only event log: the standard it follows, the
/// standard's version, and the payload. The host serializes entries and
/// hands them to off-chain indexers.
pub struct EventLog {
    pub standard: String,
    pub version: String,
    pub event: EventLogVariant,
}

/// One entry of the bounded recent-transactions list.
pub enum TransactionType {
    Claim { account_id: AccountId, reward: String, timestamp: u64 },
    Transfer { sender_id: AccountId, receiver_id: AccountId, amount: u128, timestamp: u64 },
}

/// Mathematical image of `TransactionType`.
pub enum TransactionTypeV {
    Claim { account_id: Seq<char>, reward: Seq<char>, timestamp: u64 },
    Transfer { sender_id: Seq<char>, receiver_id: Seq<char>, amount: u128, timestamp: u64 },
}

impl View for TransactionType {
    type V = TransactionTypeV;

    open spec fn view(&self) -> TransactionTypeV {
        match self {
            TransactionType::Claim { account_id, reward, timestamp } => TransactionTypeV::Claim {
                account_id: account_id@,
                reward: reward@,
                timestamp: *timestamp,
            },
            TransactionType::Transfer {
                sender_id,
                receiver_id,
                amount,
                timestamp,
            } => TransactionTypeV::Transfer {
                sender_id: sender_id@,
                receiver_id: receiver_id@,
                amount: *amount,
                timestamp: *timestamp,
            },
        }
    }
}

impl TransactionType {
    /// A copy of the transaction record, equal in content.
    pub fn duplicate(&self) -> (r: TransactionType)
        ensures
            r@ == self@,
    {
        match self {
            TransactionType::Claim { account_id, reward, timestamp } => TransactionType::Claim {
                account_id: account_id.clone(),
                reward: reward.clone(),
                timestamp: *timestamp,
            },
            TransactionType::Transfer {
                sender_id,
                receiver_id,
                amount,
                timestamp,
            } => TransactionType::Transfer {
                sender_id: sender_id.clone(),
                receiver_id: receiver_id.clone(),
                amount: *amount,
                timestamp: *timestamp,
            },
        }
    }
}

/// `e` is a standard mint event for `owner` over `amount`.
pub open spec fn is_ft_mint_event(e: EventLog, owner: Seq<char>, amount: u128) -> bool {
    &&& e.event matches EventLogVariant::FtMint(l)
    &&& l.owner_id@ == owner
    &&& l.amount == amount
}

/// `e` is a standard transfer event from `sender` to `receiver` over
/// `amount`.
pub open spec fn is_ft_transfer_event(
    e: EventLog,
    sender: Seq<char>,
    receiver: Seq<char>,
    amount: u128,
) -> bool {
    &&& e.event matches EventLogVariant::FtTransfer(l)
    &&& l.old_owner_id@ == sender
    &&& l.new_owner_id@ == receiver
    &&& l.amount == amount
}

/// `e` is a domain mint event for `receiver` over `amount`, carrying the
/// receiver's new balance and the provenance drop id.
pub open spec fn is_keypom_mint_event(
    e: EventLog,
    receiver: Seq<char>,
    amount: u128,
    new_balance: u128,
    drop_id: Option<DropId>,
) -> bool {
    &&& e.event matches EventLogVariant::KeypomTokenMint(l)
    &&& l.receiver_id@ == receiver
    &&& l.amount == amount
    &&& l.new_balance == new_balance
    &&& l.drop_id == drop_id
}

/// `e` is a domain transfer event from `sender` to `receiver` over
/// `amount`, carrying both new balances.
pub open spec fn is_keypom_transfer_event(
    e: EventLog,
    sender: Seq<char>,
    receiver: Seq<char>,
    amount: u128,
    new_sender_balance: u128,
    new_receiver_balance: u128,
) -> bool {
    &&& e.event matches EventLogVariant::KeypomTokenTransfer(l)
    &&& l.sender_id@ == sender
    &&& l.receiver_id@ == receiver
    &&& l.amount == amount
    &&& l.new_sender_balance == new_sender_balance
    &&& l.new_receiver_balance == new_receiver_balance
}

} // verus!
