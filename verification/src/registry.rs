//! The ownership registry: who owns which space, and how many owners must
//! agree. It is changed by setting up a group and by carrying out a change
//! that the owners have agreed on, and by nothing else.

use vstd::prelude::*;
use crate::model::{
    apply_error, change_applied, create_error, created, owned_joined, owned_left, State,
};
use crate::seqs::{append, contains, has_duplicates, lemma_take_next, remove_all};
use crate::soundness::lemma_created_inv;
use crate::store::Module;
use crate::types::{AccountId, ChangeProposal, Error, OwnerGroup, SpaceId};

verus! {

impl Module {
    /// Whether `account` is one of the owners of `space_id`.
    pub fn is_space_owner(&self, space_id: SpaceId, account: AccountId) -> (yes: bool)
        ensures
            yes == self@.is_owner(space_id, account),
    {
        match self.group(space_id) {
            Some(g) => contains(&g.owners, account),
            None => false,
        }
    }

    /// Puts `space_id` at the end of the list of each of `members`.
    fn join_all(&mut self, members: &Vec<AccountId>, space_id: SpaceId)
        requires
            members@.no_duplicates(),
            old(self)@.owned.dom() == Set::<AccountId>::full(),
        ensures
            final(self)@ == (State {
                owned: owned_joined(old(self)@.owned, members@, space_id),
                ..old(self)@
            }),
    {
        let ghost before = self@;
        let mut i: usize = 0;
        assert(before.owned =~= owned_joined(before.owned, members@.take(0), space_id));
        while i < members.len()
            invariant
                i <= members.len(),
                members@.no_duplicates(),
                before.owned.dom() == Set::<AccountId>::full(),
                self@ == (State {
                    owned: owned_joined(before.owned, members@.take(i as int), space_id),
                    ..before
                }),
            decreases members.len() - i,
        {
            let account = members[i];
            let mut ids = self.take_owned(account);
            ids.push(space_id);
            self.put_owned(account, ids);
            proof {
                let next = owned_joined(before.owned, members@.take(i + 1), space_id);
                assert forall|a: AccountId| self@.owned[a] == #[trigger] next[a] by {
                    lemma_take_next(members@, i as int, a);
                    lemma_take_next(members@, i as int, account);
                }
                assert(self@.owned =~= next);
            }
            i += 1;
        }
        assert(members@.take(members.len() as int) =~= members@);
    }

    /// Takes `space_id` out of the list of each of `members`.
    fn leave_all(&mut self, members: &Vec<AccountId>, space_id: SpaceId)
        requires
            members@.no_duplicates(),
            old(self)@.owned.dom() == Set::<AccountId>::full(),
        ensures
            final(self)@ == (State {
                owned: owned_left(old(self)@.owned, members@, space_id),
                ..old(self)@
            }),
    {
        let ghost before = self@;
        let mut gone: Vec<SpaceId> = Vec::new();
        gone.push(space_id);
        assert(gone@ =~= seq![space_id]);
        let mut i: usize = 0;
        assert(before.owned =~= owned_left(before.owned, members@.take(0), space_id));
        while i < members.len()
            invariant
                i <= members.len(),
                members@.no_duplicates(),
                gone@ == seq![space_id],
                before.owned.dom() == Set::<AccountId>::full(),
                self@ == (State {
                    owned: owned_left(before.owned, members@.take(i as int), space_id),
                    ..before
                }),
            decreases members.len() - i,
        {
            let account = members[i];
            let ids = self.take_owned(account);
            let kept = remove_all(&ids, &gone);
            self.put_owned(account, kept);
            proof {
                let next = owned_left(before.owned, members@.take(i + 1), space_id);
                assert forall|a: AccountId| self@.owned[a] == #[trigger] next[a] by {
                    lemma_take_next(members@, i as int, a);
                    lemma_take_next(members@, i as int, account);
                }
                assert(self@.owned =~= next);
            }
            i += 1;
        }
        assert(members@.take(members.len() as int) =~= members@);
    }

    /// Sets up the owner group of a space that has none. Any account may do
    /// so: nothing is asked of `_caller`, the account in whose name the call
    /// is made, and it becomes an owner only if `owners` names it.
    ///
    /// The call is rejected, and changes nothing, where the space has a
    /// group already, where `owners` is empty or names an account twice, and
    /// where `threshold` is 0 or more than the number of owners.
    pub fn create_space_owners(
        &mut self,
        _caller: AccountId,
        space_id: SpaceId,
        owners: Vec<AccountId>,
        threshold: u16,
    ) -> (res: Result<(), Error>)
        requires
            old(self)@.inv(),
        ensures
            match create_error(old(self)@, space_id, owners@, threshold) {
                Some(e) => res == Err::<(), Error>(e) && final(self)@ == old(self)@,
                None => res is Ok && final(self)@ == created(
                    old(self)@,
                    space_id,
                    owners@,
                    threshold,
                ),
            },
            final(self)@.inv(),
    {
        proof {
            if create_error(self@, space_id, owners@, threshold) is None {
                lemma_created_inv(self@, space_id, owners@, threshold);
            }
        }
        if self.group(space_id).is_some() {
            return Err(Error::SpaceOwnersAlreadyExist);
        }
        if owners.len() == 0 {
            return Err(Error::NoSpaceOwnersProvided);
        }
        if has_duplicates(&owners) {
            return Err(Error::DuplicateOwner);
        }
        if threshold == 0 {
            return Err(Error::ZeroThreshold);
        }
        if threshold as usize > owners.len() {
            return Err(Error::TooBigThreshold);
        }
        self.join_all(&owners, space_id);
        self.put_group(OwnerGroup { space_id, owners, threshold, executed_tx_count: 0 });
        Ok(())
    }

    /// Carries out the change `p` on the group of `space_id`: who is named in
    /// `remove_owners` leaves, who is named in `add_owners` joins, the
    /// threshold becomes the proposed one if there is one, and the group
    /// counts one more executed proposal.
    ///
    /// The change is not carried out, and nothing changes, where nobody would
    /// be left or where the threshold would be 0 or more than the number of
    /// owners.
    pub(crate) fn apply_executed_change(&mut self, space_id: SpaceId, p: &ChangeProposal) -> (res:
        Result<(), Error>)
        requires
            old(self)@.groups.contains_key(space_id),
            old(self)@.groups[space_id].space_id == space_id,
            old(self)@.groups[space_id].executed_tx_count < u64::MAX,
            old(self)@.owned.dom() == Set::<AccountId>::full(),
            p@.add_owners.no_duplicates(),
            p@.remove_owners.no_duplicates(),
        ensures
            match apply_error(old(self)@.groups[space_id], p@) {
                Some(e) => res == Err::<(), Error>(e) && final(self)@ == old(self)@,
                None => res is Ok && final(self)@ == change_applied(old(self)@, space_id, p@),
            },
    {
        let group = match self.group(space_id) {
            Some(g) => g,
            // the space has a group, so this is never taken
            None => { return Err(Error::NoSpaceOwnersLeft); },
        };
        let mut owners = remove_all(&group.owners, &p.remove_owners);
        append(&mut owners, &p.add_owners);
        let threshold = match p.new_threshold {
            Some(t) => t,
            None => group.threshold,
        };
        let executed_tx_count = group.executed_tx_count + 1;
        if owners.len() == 0 {
            return Err(Error::NoSpaceOwnersLeft);
        }
        if threshold == 0 {
            return Err(Error::ZeroThreshold);
        }
        if threshold as usize > owners.len() {
            return Err(Error::TooBigThreshold);
        }
        self.leave_all(&p.remove_owners, space_id);
        assert(self@.owned.dom() =~= Set::<AccountId>::full());
        self.join_all(&p.add_owners, space_id);
        self.put_group(OwnerGroup { space_id, owners, threshold, executed_tx_count });
        Ok(())
    }
}

} // verus!
