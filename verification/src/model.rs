//! The store as a mathematical value, and each call as a function on it.
//!
//! Every call either is rejected, and then leaves the state as it was, or
//! succeeds, and then leads to the state that this module names.

use vstd::prelude::*;
use crate::seqs::{some_in, some_outside, without};
use crate::types::{AccountId, ChangeProposalView, Error, OwnerGroupView, SpaceId, TransactionId};

verus! {

/// Everything the store holds.
pub struct State {
    /// The owner group of each space that has one.
    pub groups: Map<SpaceId, OwnerGroupView>,
    /// For every account, the spaces it owns, in the order in which it came to own them.
    pub owned: Map<AccountId, Seq<SpaceId>>,
    /// The proposal that waits on a space, if one does.
    pub pending: Map<SpaceId, TransactionId>,
    /// For every space, the proposals carried out on it, oldest first.
    pub executed: Map<SpaceId, Seq<TransactionId>>,
    /// Every proposal ever accepted.
    pub txs: Map<TransactionId, ChangeProposalView>,
    /// The identifier that the next proposal gets.
    pub next_tx_id: TransactionId,
}

impl State {
    /// The state of a fresh store.
    pub open spec fn empty() -> State {
        State {
            groups: Map::empty(),
            owned: Map::new(|a: AccountId| true, |a: AccountId| Seq::empty()),
            pending: Map::empty(),
            executed: Map::new(|s: SpaceId| true, |s: SpaceId| Seq::empty()),
            txs: Map::empty(),
            next_tx_id: 1,
        }
    }

    /// Whether `account` is one of the owners of `space_id`.
    pub open spec fn is_owner(self, space_id: SpaceId, account: AccountId) -> bool {
        self.groups.contains_key(space_id) && self.groups[space_id].owners.contains(account)
    }
}

// ---------------------------------------------------------------------------
// Setting up a group

/// Why setting up a group is rejected, if it is.
pub open spec fn create_error(
    s: State,
    space_id: SpaceId,
    owners: Seq<AccountId>,
    threshold: u16,
) -> Option<Error> {
    if s.groups.contains_key(space_id) {
        Some(Error::SpaceOwnersAlreadyExist)
    } else if owners.len() == 0 {
        Some(Error::NoSpaceOwnersProvided)
    } else if !owners.no_duplicates() {
        Some(Error::DuplicateOwner)
    } else if threshold == 0 {
        Some(Error::ZeroThreshold)
    } else if threshold > owners.len() {
        Some(Error::TooBigThreshold)
    } else {
        None
    }
}

/// The index of owned spaces after `members` came to own `space_id`.
pub open spec fn owned_joined(
    owned: Map<AccountId, Seq<SpaceId>>,
    members: Seq<AccountId>,
    space_id: SpaceId,
) -> Map<AccountId, Seq<SpaceId>> {
    Map::new(
        |a: AccountId| true,
        |a: AccountId|
            if members.contains(a) {
                owned[a].push(space_id)
            } else {
                owned[a]
            },
    )
}

/// The index of owned spaces after `members` ceased to own `space_id`.
pub open spec fn owned_left(
    owned: Map<AccountId, Seq<SpaceId>>,
    members: Seq<AccountId>,
    space_id: SpaceId,
) -> Map<AccountId, Seq<SpaceId>> {
    Map::new(
        |a: AccountId| true,
        |a: AccountId|
            if members.contains(a) {
                without(owned[a], seq![space_id])
            } else {
                owned[a]
            },
    )
}

/// The state after a group was set up.
pub open spec fn created(
    s: State,
    space_id: SpaceId,
    owners: Seq<AccountId>,
    threshold: u16,
) -> State {
    State {
        groups: s.groups.insert(
            space_id,
            OwnerGroupView { space_id, owners, threshold, executed_tx_count: 0 },
        ),
        owned: owned_joined(s.owned, owners, space_id),
        ..s
    }
}

// ---------------------------------------------------------------------------
// Carrying out a change

/// The owners after a change: those that stay, in their order, then those that join.
pub open spec fn new_owners(
    owners: Seq<AccountId>,
    add_owners: Seq<AccountId>,
    remove_owners: Seq<AccountId>,
) -> Seq<AccountId> {
    without(owners, remove_owners) + add_owners
}

/// The threshold after a change.
pub open spec fn new_threshold(g: OwnerGroupView, p: ChangeProposalView) -> u16 {
    match p.new_threshold {
        Some(t) => t,
        None => g.threshold,
    }
}

/// Why a change cannot be carried out on a group, if it cannot.
pub open spec fn apply_error(g: OwnerGroupView, p: ChangeProposalView) -> Option<Error> {
    let owners = new_owners(g.owners, p.add_owners, p.remove_owners);
    if owners.len() == 0 {
        Some(Error::NoSpaceOwnersLeft)
    } else if new_threshold(g, p) == 0 {
        Some(Error::ZeroThreshold)
    } else if new_threshold(g, p) > owners.len() {
        Some(Error::TooBigThreshold)
    } else {
        None
    }
}

/// The group after a change was carried out on it.
pub open spec fn applied(g: OwnerGroupView, p: ChangeProposalView) -> OwnerGroupView {
    OwnerGroupView {
        space_id: g.space_id,
        owners: new_owners(g.owners, p.add_owners, p.remove_owners),
        threshold: new_threshold(g, p),
        executed_tx_count: (g.executed_tx_count + 1) as u64,
    }
}

/// The state after the registry carried out the change `p` on `space_id`:
/// the group is changed; who leaves no longer has the space in its list, and
/// who joins has it at the end of its list.
pub open spec fn change_applied(s: State, space_id: SpaceId, p: ChangeProposalView) -> State {
    State {
        groups: s.groups.insert(space_id, applied(s.groups[space_id], p)),
        owned: owned_joined(
            owned_left(s.owned, p.remove_owners, space_id),
            p.add_owners,
            space_id,
        ),
        ..s
    }
}

/// The state after the proposal `tx_id` was carried out on `space_id`: the
/// registry has applied it, the space has no waiting proposal, and its
/// history ends with `tx_id`.
pub open spec fn executed(s: State, space_id: SpaceId, tx_id: TransactionId) -> State {
    let r = change_applied(s, space_id, s.txs[tx_id]);
    State {
        pending: s.pending.remove(space_id),
        executed: s.executed.insert(space_id, s.executed[space_id].push(tx_id)),
        ..r
    }
}

// ---------------------------------------------------------------------------
// Proposing a change

/// Whether a proposal would leave the group as it is: nobody joins who is not
/// an owner already, nobody leaves who is one, and the threshold stays.
pub open spec fn changes_nothing(
    g: OwnerGroupView,
    add_owners: Seq<AccountId>,
    remove_owners: Seq<AccountId>,
    threshold: Option<u16>,
) -> bool {
    &&& !some_outside(add_owners, g.owners)
    &&& !some_in(remove_owners, g.owners)
    &&& (threshold is None || threshold == Some(g.threshold))
}

/// How many owners the group has once the proposal is carried out.
pub open spec fn resulting_count(
    g: OwnerGroupView,
    add_owners: Seq<AccountId>,
    remove_owners: Seq<AccountId>,
) -> int {
    g.owners.len() + add_owners.len() - remove_owners.len()
}

/// Why the lists of a proposal are rejected, if they are: who joins must be
/// new and named once, who leaves must be an owner and named once.
pub open spec fn lists_error(
    g: OwnerGroupView,
    add_owners: Seq<AccountId>,
    remove_owners: Seq<AccountId>,
) -> Option<Error> {
    if !add_owners.no_duplicates() {
        Some(Error::DuplicateOwner)
    } else if some_in(add_owners, g.owners) {
        Some(Error::DuplicateOwner)
    } else if some_outside(remove_owners, g.owners) {
        Some(Error::NotASpaceOwner)
    } else if !remove_owners.no_duplicates() {
        Some(Error::DuplicateOwner)
    } else {
        None
    }
}

/// Why the size of the resulting group is rejected, if it is.
pub open spec fn count_error(count: int, threshold: Option<u16>) -> Option<Error> {
    if threshold is Some && threshold->0 == 0 {
        Some(Error::ZeroThreshold)
    } else if threshold is Some && threshold->0 > count {
        Some(Error::TooBigThreshold)
    } else if count <= 0 {
        Some(Error::NoSpaceOwnersLeft)
    } else {
        None
    }
}

/// Why a proposal is rejected, if it is.
pub open spec fn propose_error(
    s: State,
    caller: AccountId,
    space_id: SpaceId,
    add_owners: Seq<AccountId>,
    remove_owners: Seq<AccountId>,
    threshold: Option<u16>,
) -> Option<Error> {
    if !s.is_owner(space_id, caller) {
        Some(Error::NotASpaceOwner)
    } else if s.pending.contains_key(space_id) {
        Some(Error::PendingTxAlreadyExists)
    } else if changes_nothing(s.groups[space_id], add_owners, remove_owners, threshold) {
        Some(Error::NoFieldsUpdatedOnProposal)
    } else if lists_error(s.groups[space_id], add_owners, remove_owners) is Some {
        lists_error(s.groups[space_id], add_owners, remove_owners)
    } else {
        count_error(resulting_count(s.groups[space_id], add_owners, remove_owners), threshold)
    }
}

/// The proposal that an accepted call records: it gets the next identifier
/// and is confirmed by its proposer.
pub open spec fn new_proposal(
    s: State,
    caller: AccountId,
    space_id: SpaceId,
    add_owners: Seq<AccountId>,
    remove_owners: Seq<AccountId>,
    threshold: Option<u16>,
    notes: Seq<u8>,
) -> ChangeProposalView {
    ChangeProposalView {
        tx_id: s.next_tx_id,
        space_id,
        add_owners,
        remove_owners,
        new_threshold: threshold,
        notes,
        confirmed_by: seq![caller],
    }
}

/// The state after a proposal was accepted. Where one confirmation is
/// enough, the proposer's own counts and the change is carried out at once;
/// otherwise the proposal waits on the space.
pub open spec fn proposed(
    s: State,
    caller: AccountId,
    space_id: SpaceId,
    add_owners: Seq<AccountId>,
    remove_owners: Seq<AccountId>,
    threshold: Option<u16>,
    notes: Seq<u8>,
) -> State {
    let p = new_proposal(s, caller, space_id, add_owners, remove_owners, threshold, notes);
    let recorded = State {
        txs: s.txs.insert(s.next_tx_id, p),
        next_tx_id: (s.next_tx_id + 1) as u64,
        ..s
    };
    if s.groups[space_id].threshold == 1 {
        executed(recorded, space_id, p.tx_id)
    } else {
        State { pending: s.pending.insert(space_id, p.tx_id), ..recorded }
    }
}

// ---------------------------------------------------------------------------
// Confirming a change

/// Whether one more confirmation gives the proposal as many as the group asks for.
pub open spec fn completes_quorum(g: OwnerGroupView, p: ChangeProposalView) -> bool {
    p.confirmed_by.len() + 1 >= g.threshold
}

/// Why a confirmation is rejected, if it is.
pub open spec fn confirm_error(
    s: State,
    caller: AccountId,
    space_id: SpaceId,
    tx_id: TransactionId,
) -> Option<Error> {
    if !s.is_owner(space_id, caller) {
        Some(Error::NotASpaceOwner)
    } else if !s.pending.contains_key(space_id) || s.pending[space_id] != tx_id {
        Some(Error::TxNotRelatedToSpace)
    } else if s.txs[tx_id].confirmed_by.contains(caller) {
        Some(Error::TxAlreadyConfirmed)
    } else if completes_quorum(s.groups[space_id], s.txs[tx_id]) {
        apply_error(s.groups[space_id], s.txs[tx_id])
    } else {
        None
    }
}

/// The state after a confirmation was accepted: the caller is the last to
/// have confirmed, and if that completes the quorum the change is carried out.
pub open spec fn confirmed(
    s: State,
    caller: AccountId,
    space_id: SpaceId,
    tx_id: TransactionId,
) -> State {
    let p = s.txs[tx_id];
    let signed = State {
        txs: s.txs.insert(
            tx_id,
            ChangeProposalView { confirmed_by: p.confirmed_by.push(caller), ..p },
        ),
        ..s
    };
    if completes_quorum(s.groups[space_id], p) {
        executed(signed, space_id, tx_id)
    } else {
        signed
    }
}

/// The state that a call to confirm leaves, accepted or not.
pub open spec fn after_confirm(
    s: State,
    caller: AccountId,
    space_id: SpaceId,
    tx_id: TransactionId,
) -> State {
    if confirm_error(s, caller, space_id, tx_id) is None {
        confirmed(s, caller, space_id, tx_id)
    } else {
        s
    }
}

} // verus!
