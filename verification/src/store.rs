//! The store: the records and indices that the calls read and write.
//!
//! The records live in hash maps. Everything else in the crate reaches them
//! through the small reading and writing functions of this module, each of
//! which says what it does to the [`State`] that the store stands for.

use std::collections::HashMap;
use vstd::prelude::*;
use crate::model::State;
use crate::soundness::lemma_empty_inv;
use crate::types::{AccountId, ChangeProposal, OwnerGroup, SpaceId, TransactionId};

verus! {

/// The multi-ownership store.
#[derive(Debug, PartialEq, Eq)]
pub struct Module {
    groups: HashMap<SpaceId, OwnerGroup>,
    owned: HashMap<AccountId, Vec<SpaceId>>,
    pending: HashMap<SpaceId, TransactionId>,
    executed: HashMap<SpaceId, Vec<TransactionId>>,
    txs: HashMap<TransactionId, ChangeProposal>,
    next_tx_id: TransactionId,
}

impl View for Module {
    type V = State;

    closed spec fn view(&self) -> State {
        State {
            groups: Map::new(
                |s: SpaceId| self.groups@.contains_key(s),
                |s: SpaceId| self.groups@[s]@,
            ),
            owned: Map::new(
                |a: AccountId| true,
                |a: AccountId|
                    if self.owned@.contains_key(a) {
                        self.owned@[a]@
                    } else {
                        Seq::empty()
                    },
            ),
            pending: self.pending@,
            executed: Map::new(
                |s: SpaceId| true,
                |s: SpaceId|
                    if self.executed@.contains_key(s) {
                        self.executed@[s]@
                    } else {
                        Seq::empty()
                    },
            ),
            txs: Map::new(
                |t: TransactionId| self.txs@.contains_key(t),
                |t: TransactionId| self.txs@[t]@,
            ),
            next_tx_id: self.next_tx_id,
        }
    }
}

impl Clone for Module {
    /// A second store that holds what this one holds.
    fn clone(&self) -> (res: Self)
        ensures
            res@ == self@,
    {
        let res = Module {
            groups: self.groups.clone(),
            owned: self.owned.clone(),
            pending: self.pending.clone(),
            executed: self.executed.clone(),
            txs: self.txs.clone(),
            next_tx_id: self.next_tx_id,
        };
        assert(res@.groups =~= self@.groups);
        assert(res@.owned =~= self@.owned);
        assert(res@.executed =~= self@.executed);
        assert(res@.txs =~= self@.txs);
        res
    }
}

impl Module {
    /// A store without groups and proposals; the first proposal gets the identifier 1.
    pub fn new() -> (m: Module)
        ensures
            m@ == State::empty(),
            m@.inv(),
    {
        proof {
            lemma_empty_inv();
        }
        let m = Module {
            groups: HashMap::new(),
            owned: HashMap::new(),
            pending: HashMap::new(),
            executed: HashMap::new(),
            txs: HashMap::new(),
            next_tx_id: 1,
        };
        assert(m@.groups =~= State::empty().groups);
        assert(m@.owned =~= State::empty().owned);
        assert(m@.executed =~= State::empty().executed);
        assert(m@.txs =~= State::empty().txs);
        m
    }

    // -- reading -------------------------------------------------------------

    /// The spaces that `account` owns, in the order in which it came to own them.
    pub fn space_ids_owned_by_account_id(&self, account: AccountId) -> (ids: Vec<SpaceId>)
        ensures
            ids@ == self@.owned[account],
    {
        match self.owned.get(&account) {
            Some(ids) => ids.clone(),
            None => Vec::new(),
        }
    }

    /// The owner group of `space_id`, if it has one.
    pub fn space_owners_by_space_id(&self, space_id: SpaceId) -> (group: Option<OwnerGroup>)
        ensures
            group is Some == self@.groups.contains_key(space_id),
            group matches Some(g) ==> g@ == self@.groups[space_id],
    {
        match self.groups.get(&space_id) {
            Some(g) => Some(g.clone()),
            None => None,
        }
    }

    /// The proposal that waits on `space_id`, if one does.
    pub fn pending_tx_id_by_space_id(&self, space_id: SpaceId) -> (tx_id: Option<TransactionId>)
        ensures
            tx_id is Some == self@.pending.contains_key(space_id),
            tx_id matches Some(t) ==> t == self@.pending[space_id],
    {
        match self.pending.get(&space_id) {
            Some(t) => Some(*t),
            None => None,
        }
    }

    /// The proposals carried out on `space_id`, oldest first.
    pub fn executed_tx_ids_by_space_id(&self, space_id: SpaceId) -> (ids: Vec<TransactionId>)
        ensures
            ids@ == self@.executed[space_id],
    {
        match self.executed.get(&space_id) {
            Some(ids) => ids.clone(),
            None => Vec::new(),
        }
    }

    /// The proposal `tx_id`, waiting or carried out, if there is one.
    pub fn tx_by_id(&self, tx_id: TransactionId) -> (tx: Option<ChangeProposal>)
        ensures
            tx is Some == self@.txs.contains_key(tx_id),
            tx matches Some(p) ==> p@ == self@.txs[tx_id],
    {
        match self.txs.get(&tx_id) {
            Some(p) => Some(p.clone()),
            None => None,
        }
    }

    /// The identifier that the next proposal gets.
    pub fn next_tx_id(&self) -> (id: TransactionId)
        ensures
            id == self@.next_tx_id,
    {
        self.next_tx_id
    }

    /// The owner group of `space_id`, borrowed.
    pub(crate) fn group(&self, space_id: SpaceId) -> (group: Option<&OwnerGroup>)
        ensures
            group is Some == self@.groups.contains_key(space_id),
            group matches Some(g) ==> g@ == self@.groups[space_id],
    {
        self.groups.get(&space_id)
    }

    /// The proposal `tx_id`, borrowed.
    pub(crate) fn tx(&self, tx_id: TransactionId) -> (tx: Option<&ChangeProposal>)
        ensures
            tx is Some == self@.txs.contains_key(tx_id),
            tx matches Some(p) ==> p@ == self@.txs[tx_id],
    {
        self.txs.get(&tx_id)
    }

    // -- writing -------------------------------------------------------------

    /// Stores `group` as the owner group of its space.
    pub(crate) fn put_group(&mut self, group: OwnerGroup)
        ensures
            final(self)@ == (State {
                groups: old(self)@.groups.insert(group.space_id, group@),
                ..old(self)@
            }),
    {
        let ghost before = self@;
        let ghost key = group.space_id;
        let ghost value = group@;
        self.groups.insert(group.space_id, group);
        assert(self@.groups =~= before.groups.insert(key, value));
    }

    /// Hands out the list of spaces that `account` owns, leaving an empty one behind.
    pub(crate) fn take_owned(&mut self, account: AccountId) -> (ids: Vec<SpaceId>)
        ensures
            ids@ == old(self)@.owned[account],
            final(self)@ == (State {
                owned: old(self)@.owned.insert(account, Seq::empty()),
                ..old(self)@
            }),
    {
        let ghost before = self@;
        let ids = match self.owned.remove(&account) {
            Some(ids) => ids,
            None => Vec::new(),
        };
        assert(self@.owned =~= before.owned.insert(account, Seq::empty()));
        ids
    }

    /// Stores `ids` as the list of spaces that `account` owns.
    pub(crate) fn put_owned(&mut self, account: AccountId, ids: Vec<SpaceId>)
        ensures
            final(self)@ == (State {
                owned: old(self)@.owned.insert(account, ids@),
                ..old(self)@
            }),
    {
        let ghost before = self@;
        let ghost value = ids@;
        self.owned.insert(account, ids);
        assert(self@.owned =~= before.owned.insert(account, value));
    }

    /// Lets `tx_id` wait on `space_id`.
    pub(crate) fn set_pending(&mut self, space_id: SpaceId, tx_id: TransactionId)
        ensures
            final(self)@ == (State {
                pending: old(self)@.pending.insert(space_id, tx_id),
                ..old(self)@
            }),
    {
        self.pending.insert(space_id, tx_id);
    }

    /// Lets nothing wait on `space_id`.
    pub(crate) fn clear_pending(&mut self, space_id: SpaceId)
        ensures
            final(self)@ == (State {
                pending: old(self)@.pending.remove(space_id),
                ..old(self)@
            }),
    {
        self.pending.remove(&space_id);
    }

    /// Appends `tx_id` to the history of `space_id`.
    pub(crate) fn push_executed(&mut self, space_id: SpaceId, tx_id: TransactionId)
        ensures
            final(self)@ == (State {
                executed: old(self)@.executed.insert(
                    space_id,
                    old(self)@.executed[space_id].push(tx_id),
                ),
                ..old(self)@
            }),
    {
        let ghost before = self@;
        let mut ids = match self.executed.remove(&space_id) {
            Some(ids) => ids,
            None => Vec::new(),
        };
        ids.push(tx_id);
        self.executed.insert(space_id, ids);
        assert(self@.executed =~= before.executed.insert(
            space_id,
            before.executed[space_id].push(tx_id),
        ));
    }

    /// Stores `tx` under its identifier.
    pub(crate) fn put_tx(&mut self, tx: ChangeProposal)
        ensures
            final(self)@ == (State {
                txs: old(self)@.txs.insert(tx.tx_id, tx@),
                ..old(self)@
            }),
    {
        let ghost before = self@;
        let ghost key = tx.tx_id;
        let ghost value = tx@;
        self.txs.insert(tx.tx_id, tx);
        assert(self@.txs =~= before.txs.insert(key, value));
    }

    /// Hands out the next identifier and moves the counter on.
    pub(crate) fn allocate_tx_id(&mut self) -> (id: TransactionId)
        requires
            old(self)@.next_tx_id < u64::MAX,
        ensures
            id == old(self)@.next_tx_id,
            final(self)@ == (State { next_tx_id: (id + 1) as u64, ..old(self)@ }),
    {
        let id = self.next_tx_id;
        self.next_tx_id = id + 1;
        id
    }
}

} // verus!
