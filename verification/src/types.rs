//! Identifiers, records and rejections shared by the whole crate.

use vstd::prelude::*;

verus! {

/// An account, as authenticated by the host.
pub type AccountId = u64;

/// A governed space.
pub type SpaceId = u64;

/// A change proposal. Identifiers are handed out in increasing order, starting at 1.
pub type TransactionId = u64;

/// Why a call was rejected. A rejected call leaves the store as it was.
#[derive(Clone, Copy, Debug, PartialEq, Eq, Structural)]
pub enum Error {
    /// The space already has an owner group.
    SpaceOwnersAlreadyExist,
    /// An owner group cannot be set up without owners.
    NoSpaceOwnersProvided,
    /// An account is listed twice, or is to be added although it is an owner already.
    DuplicateOwner,
    /// The threshold is less than 1.
    ZeroThreshold,
    /// The threshold is greater than the number of owners that would have to meet it.
    TooBigThreshold,
    /// The proposal would change neither the owners nor the threshold.
    NoFieldsUpdatedOnProposal,
    /// The proposal would leave the space without owners.
    NoSpaceOwnersLeft,
    /// The space already has a proposal that waits for confirmations.
    PendingTxAlreadyExists,
    /// The account is not an owner of the space.
    NotASpaceOwner,
    /// The transaction is not the one that waits on this space.
    TxNotRelatedToSpace,
    /// The account has confirmed the transaction before.
    TxAlreadyConfirmed,
}

/// The accounts that jointly own a space, and how many of them must agree.
#[derive(Debug, PartialEq, Eq)]
pub struct OwnerGroup {
    pub space_id: SpaceId,
    pub owners: Vec<AccountId>,
    pub threshold: u16,
    pub executed_tx_count: u64,
}

/// What an [`OwnerGroup`] stands for.
pub struct OwnerGroupView {
    pub space_id: SpaceId,
    pub owners: Seq<AccountId>,
    pub threshold: u16,
    pub executed_tx_count: u64,
}

impl View for OwnerGroup {
    type V = OwnerGroupView;

    open spec fn view(&self) -> OwnerGroupView {
        OwnerGroupView {
            space_id: self.space_id,
            owners: self.owners@,
            threshold: self.threshold,
            executed_tx_count: self.executed_tx_count,
        }
    }
}

impl Clone for OwnerGroup {
    fn clone(&self) -> (res: Self)
        ensures
            res@ == self@,
    {
        OwnerGroup {
            space_id: self.space_id,
            owners: self.owners.clone(),
            threshold: self.threshold,
            executed_tx_count: self.executed_tx_count,
        }
    }
}

/// A proposed change to the owner group of one space, with the accounts that
/// have confirmed it so far, the proposer first.
#[derive(Debug, PartialEq, Eq)]
pub struct ChangeProposal {
    pub tx_id: TransactionId,
    pub space_id: SpaceId,
    pub add_owners: Vec<AccountId>,
    pub remove_owners: Vec<AccountId>,
    pub new_threshold: Option<u16>,
    pub notes: Vec<u8>,
    pub confirmed_by: Vec<AccountId>,
}

/// What a [`ChangeProposal`] stands for.
pub struct ChangeProposalView {
    pub tx_id: TransactionId,
    pub space_id: SpaceId,
    pub add_owners: Seq<AccountId>,
    pub remove_owners: Seq<AccountId>,
    pub new_threshold: Option<u16>,
    pub notes: Seq<u8>,
    pub confirmed_by: Seq<AccountId>,
}

impl View for ChangeProposal {
    type V = ChangeProposalView;

    open spec fn view(&self) -> ChangeProposalView {
        ChangeProposalView {
            tx_id: self.tx_id,
            space_id: self.space_id,
            add_owners: self.add_owners@,
            remove_owners: self.remove_owners@,
            new_threshold: self.new_threshold,
            notes: self.notes@,
            confirmed_by: self.confirmed_by@,
        }
    }
}

impl Clone for ChangeProposal {
    fn clone(&self) -> (res: Self)
        ensures
            res@ == self@,
    {
        ChangeProposal {
            tx_id: self.tx_id,
            space_id: self.space_id,
            add_owners: self.add_owners.clone(),
            remove_owners: self.remove_owners.clone(),
            new_threshold: self.new_threshold,
            notes: self.notes.clone(),
            confirmed_by: self.confirmed_by.clone(),
        }
    }
}

} // verus!
