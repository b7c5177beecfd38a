//! Origins, errors, events and relayed transfers of the assets module.

use crate::encoding::AccountId;
use crate::ledger::{AssetId, Balance};
use vstd::prelude::*;

verus! {

/// Number of decimals with which an asset is displayed.
pub type Decimals = u16;

/// Longest accepted asset name, in bytes.
pub const MAX_NAME_SIZE: usize = 16;

/// Who dispatched a call.
#[derive(Clone, Copy, Debug, PartialEq, Eq, Structural)]
pub enum Origin {
    /// The privileged root origin.
    Root,
    /// A call signed by an account.
    Signed(AccountId),
    /// An unsigned call.
    Unsigned,
}

impl Origin {
    /// A call signed by `who`.
    pub fn signed(who: AccountId) -> (r: Origin)
        ensures
            r == Origin::Signed(who),
    {
        Origin::Signed(who)
    }
}

/// Why a call was refused.
#[derive(Clone, Copy, Debug, PartialEq, Eq, Structural)]
pub enum DispatchError {
    /// The call was not signed.
    BadOrigin,
    /// The asset name is longer than `MAX_NAME_SIZE`.
    NameTooLong,
    /// A transfer of zero units.
    ZeroAmount,
    /// The sender holds fewer units than the transfer moves.
    InsufficientBalance,
    /// Nothing to destroy: the caller holds no units.
    ZeroBalance,
    /// A relayed transfer that could not be decoded.
    InvalidTransfer,
}

/// The outcome of a dispatched call.
pub type DispatchResult = Result<(), DispatchError>;

/// The text that accompanies each error.
pub open spec fn error_message(e: DispatchError) -> Seq<char> {
    match e {
        DispatchError::BadOrigin => "Bad origin"@,
        DispatchError::NameTooLong => "Asset's name's length overflow."@,
        DispatchError::ZeroAmount => "transfer amount should be non-zero"@,
        DispatchError::InsufficientBalance => "origin account balance must be greater than or equal to the transfer amount"@,
        DispatchError::ZeroBalance => "origin balance should be non-zero"@,
        DispatchError::InvalidTransfer => "transfer is invalid."@,
    }
}

impl DispatchError {
    /// The text that accompanies the error.
    pub fn message(&self) -> (r: &'static str)
        ensures
            r@ == error_message(*self),
    {
        match self {
            DispatchError::BadOrigin => "Bad origin",
            DispatchError::NameTooLong => "Asset's name's length overflow.",
            DispatchError::ZeroAmount => "transfer amount should be non-zero",
            DispatchError::InsufficientBalance => "origin account balance must be greater than or equal to the transfer amount",
            DispatchError::ZeroBalance => "origin balance should be non-zero",
            DispatchError::InvalidTransfer => "transfer is invalid.",
        }
    }
}

/// The account that signed `origin`, or `BadOrigin`.
pub open spec fn signer_of(origin: Origin) -> Result<AccountId, DispatchError> {
    match origin {
        Origin::Signed(who) => Ok(who),
        _ => Err(DispatchError::BadOrigin),
    }
}

/// The signer of a call; refuses root and unsigned origins.
pub fn ensure_signed(origin: Origin) -> (r: Result<AccountId, DispatchError>)
    ensures
        r == signer_of(origin),
{
    match origin {
        Origin::Signed(who) => Ok(who),
        _ => Err(DispatchError::BadOrigin),
    }
}

/// Something that happened in the assets module.
#[derive(Debug, PartialEq, Eq)]
pub enum Event {
    /// Some assets were issued: shard code, asset id, name, issuer, total, decimals.
    Issued(Vec<u8>, AssetId, Vec<u8>, AccountId, Balance, Decimals),
    /// Some assets were transferred: shard code, asset id, from, to, amount.
    Transferred(Vec<u8>, AssetId, AccountId, AccountId, Balance),
    /// Some assets were destroyed: shard code, asset id, holder, amount.
    Destroyed(Vec<u8>, AssetId, AccountId, Balance),
}

/// An event as seen in specifications.
pub enum EventView {
    Issued(Seq<u8>, AssetId, Seq<u8>, AccountId, Balance, Decimals),
    Transferred(Seq<u8>, AssetId, AccountId, AccountId, Balance),
    Destroyed(Seq<u8>, AssetId, AccountId, Balance),
}

impl View for Event {
    type V = EventView;

    open spec fn view(&self) -> EventView {
        match self {
            Event::Issued(sc, id, name, who, total, dec) => EventView::Issued(
                sc@,
                *id,
                name@,
                *who,
                *total,
                *dec,
            ),
            Event::Transferred(sc, id, from, to, amount) => EventView::Transferred(
                sc@,
                *id,
                *from,
                *to,
                *amount,
            ),
            Event::Destroyed(sc, id, who, amount) => EventView::Destroyed(sc@, *id, *who, *amount),
        }
    }
}

/// A transfer from another shard, as decoded from a relayed extrinsic.
pub struct RelayedTransfer {
    pub shard_code: Vec<u8>,
    pub asset_id: Option<AssetId>,
    pub from: AccountId,
    pub to: AccountId,
    pub amount: Balance,
}

/// What the module records of an issued asset.
pub struct AssetDetails {
    pub name: Seq<u8>,
    pub total_supply: Balance,
    pub decimals: Decimals,
    pub issuer: AccountId,
}

} // verus!
