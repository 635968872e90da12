//! The proposal engine: a change to a group is proposed by one owner,
//! confirmed by others, and carried out by the confirmation that completes
//! the quorum.

use vstd::prelude::*;
use crate::model::{
    apply_error, confirm_error, confirmed, executed, propose_error, proposed, resulting_count,
    State,
};
use crate::seqs::{any_in, any_outside, contains, has_duplicates, lemma_without_len};
use crate::soundness::{lemma_confirmed_inv, lemma_proposed_inv};
use crate::store::Module;
use crate::types::{AccountId, ChangeProposal, Error, SpaceId, TransactionId};

verus! {

impl Module {
    /// Records the proposal `p`, whose quorum is complete, and carries it
    /// out on `space_id`: the registry applies it, nothing waits on the space
    /// any more, and the history of the space ends with the proposal.
    ///
    /// Where the registry cannot apply it, nothing is changed or recorded.
    fn execute(&mut self, space_id: SpaceId, p: ChangeProposal) -> (res: Result<(), Error>)
        requires
            old(self)@.groups.contains_key(space_id),
            old(self)@.groups[space_id].space_id == space_id,
            old(self)@.groups[space_id].executed_tx_count < u64::MAX,
            old(self)@.owned.dom() == Set::<AccountId>::full(),
            p@.add_owners.no_duplicates(),
            p@.remove_owners.no_duplicates(),
        ensures
            match apply_error(old(self)@.groups[space_id], p@) {
                Some(e) => res == Err::<(), Error>(e) && final(self)@ == old(self)@,
                None => res is Ok && final(self)@ == executed(
                    State { txs: old(self)@.txs.insert(p.tx_id, p@), ..old(self)@ },
                    space_id,
                    p.tx_id,
                ),
            },
    {
        match self.apply_executed_change(space_id, &p) {
            Err(e) => Err(e),
            Ok(()) => {
                let tx_id = p.tx_id;
                self.put_tx(p);
                self.clear_pending(space_id);
                self.push_executed(space_id, tx_id);
                Ok(())
            },
        }
    }

    /// Proposes a change to the owner group of `space_id`, confirmed by its
    /// proposer. Where the group asks for one confirmation only, the change
    /// is carried out at once; otherwise the proposal waits on the space.
    ///
    /// The call is rejected, and changes nothing, in this order: where
    /// `caller` is not an owner of the space; where a proposal waits on the
    /// space; where the proposal would change nothing; where an account is
    /// to join that is an owner or is named twice, or one is to leave that
    /// is no owner or is named twice; where the new threshold is 0 or more
    /// than the number of owners that there would be; where no owner would
    /// be left.
    pub fn propose_change(
        &mut self,
        caller: AccountId,
        space_id: SpaceId,
        add_owners: Vec<AccountId>,
        remove_owners: Vec<AccountId>,
        new_threshold: Option<u16>,
        notes: Vec<u8>,
    ) -> (res: Result<(), Error>)
        requires
            old(self)@.inv(),
            old(self)@.next_tx_id < u64::MAX,
        ensures
            match propose_error(
                old(self)@,
                caller,
                space_id,
                add_owners@,
                remove_owners@,
                new_threshold,
            ) {
                Some(e) => res == Err::<(), Error>(e) && final(self)@ == old(self)@,
                None => res is Ok && final(self)@ == proposed(
                    old(self)@,
                    caller,
                    space_id,
                    add_owners@,
                    remove_owners@,
                    new_threshold,
                    notes@,
                ),
            },
            final(self)@.inv(),
    {
        let ghost before = self@;
        proof {
            if propose_error(before, caller, space_id, add_owners@, remove_owners@, new_threshold)
                is None {
                lemma_proposed_inv(
                    before,
                    caller,
                    space_id,
                    add_owners@,
                    remove_owners@,
                    new_threshold,
                    notes@,
                );
            }
        }
        let group = match self.group(space_id) {
            Some(g) => g,
            None => { return Err(Error::NotASpaceOwner); },
        };
        if !contains(&group.owners, caller) {
            return Err(Error::NotASpaceOwner);
        }
        if self.pending_tx_id_by_space_id(space_id).is_some() {
            return Err(Error::PendingTxAlreadyExists);
        }
        let same_threshold = match new_threshold {
            Some(t) => t == group.threshold,
            None => true,
        };
        if same_threshold && !any_outside(&add_owners, &group.owners) && !any_in(
            &remove_owners,
            &group.owners,
        ) {
            return Err(Error::NoFieldsUpdatedOnProposal);
        }
        if has_duplicates(&add_owners) || any_in(&add_owners, &group.owners) {
            return Err(Error::DuplicateOwner);
        }
        if any_outside(&remove_owners, &group.owners) {
            return Err(Error::NotASpaceOwner);
        }
        if has_duplicates(&remove_owners) {
            return Err(Error::DuplicateOwner);
        }
        proof {
            assert(before.group_ok(space_id));
            assert(before.history_ok(space_id));
            lemma_without_len(group.owners@, remove_owners@);
        }
        let count: u128 = group.owners.len() as u128 + add_owners.len() as u128
            - remove_owners.len() as u128;
        assert(count == resulting_count(before.groups[space_id], add_owners@, remove_owners@));
        match new_threshold {
            Some(t) => {
                if t == 0 {
                    return Err(Error::ZeroThreshold);
                }
                if t as u128 > count {
                    return Err(Error::TooBigThreshold);
                }
            },
            None => {},
        }
        if count == 0 {
            return Err(Error::NoSpaceOwnersLeft);
        }
        let alone = group.threshold == 1;
        let tx_id = self.allocate_tx_id();
        let mut confirmed_by: Vec<AccountId> = Vec::new();
        confirmed_by.push(caller);
        assert(confirmed_by@ =~= seq![caller]);
        let p = ChangeProposal {
            tx_id,
            space_id,
            add_owners,
            remove_owners,
            new_threshold,
            notes,
            confirmed_by,
        };
        if alone {
            self.execute(space_id, p)
        } else {
            self.put_tx(p);
            self.set_pending(space_id, tx_id);
            Ok(())
        }
    }

    /// Confirms the proposal `tx_id`, which waits on `space_id`, in the name
    /// of `caller`. The confirmation that gives the proposal as many as the
    /// group asks for carries the change out.
    ///
    /// The call is rejected, and changes nothing, in this order: where
    /// `caller` is not an owner of the space; where `tx_id` is not the
    /// proposal that waits on the space; where `caller` has confirmed it
    /// before; where the quorum is complete but the change cannot be
    /// carried out.
    pub fn confirm_change(&mut self, caller: AccountId, space_id: SpaceId, tx_id: TransactionId) -> (res:
        Result<(), Error>)
        requires
            old(self)@.inv(),
        ensures
            match confirm_error(old(self)@, caller, space_id, tx_id) {
                Some(e) => res == Err::<(), Error>(e) && final(self)@ == old(self)@,
                None => res is Ok && final(self)@ == confirmed(old(self)@, caller, space_id, tx_id),
            },
            final(self)@.inv(),
    {
        let ghost before = self@;
        proof {
            if confirm_error(before, caller, space_id, tx_id) is None {
                lemma_confirmed_inv(before, caller, space_id, tx_id);
            }
        }
        let threshold = match self.group(space_id) {
            Some(g) => {
                if !contains(&g.owners, caller) {
                    return Err(Error::NotASpaceOwner);
                }
                g.threshold
            },
            None => { return Err(Error::NotASpaceOwner); },
        };
        match self.pending_tx_id_by_space_id(space_id) {
            Some(t) => {
                if t != tx_id {
                    return Err(Error::TxNotRelatedToSpace);
                }
            },
            None => { return Err(Error::TxNotRelatedToSpace); },
        }
        proof {
            assert(before.pending_ok(space_id));
            assert(before.group_ok(space_id));
            assert(before.history_ok(space_id));
        }
        let mut p = match self.tx(tx_id) {
            Some(p) => p.clone(),
            // a proposal that waits is on record, so this is never taken
            None => { return Err(Error::TxNotRelatedToSpace); },
        };
        if contains(&p.confirmed_by, caller) {
            return Err(Error::TxAlreadyConfirmed);
        }
        p.confirmed_by.push(caller);
        if p.confirmed_by.len() >= threshold as usize {
            self.execute(space_id, p)
        } else {
            self.put_tx(p);
            Ok(())
        }
    }
}

} // verus!
