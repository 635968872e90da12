//! What holds of the store between calls.

use vstd::prelude::*;
use crate::model::{
    apply_error, applied, completes_quorum, confirm_error, confirmed, create_error, created,
    executed, new_owners, new_proposal, propose_error, proposed, resulting_count, State,
};
use crate::seqs::{
    lemma_concat, lemma_push, lemma_without_contains, lemma_without_len,
    lemma_without_no_duplicates, some_in, some_outside, without,
};
use crate::types::{AccountId, ChangeProposalView, OwnerGroupView, SpaceId, TransactionId};

verus! {

/// Whether the change `p` fits the group `g`: who joins is new and named
/// once, who leaves is an owner and named once, somebody stays, and a new
/// threshold can be met by those who stay or join.
pub open spec fn fits(g: OwnerGroupView, p: ChangeProposalView) -> bool {
    &&& p.add_owners.no_duplicates()
    &&& !some_in(p.add_owners, g.owners)
    &&& p.remove_owners.no_duplicates()
    &&& !some_outside(p.remove_owners, g.owners)
    &&& resulting_count(g, p.add_owners, p.remove_owners) >= 1
    &&& p.new_threshold matches Some(t) ==> 1 <= t <= resulting_count(
        g,
        p.add_owners,
        p.remove_owners,
    )
}

impl State {
    /// The group of `space_id` is sound: its owners are distinct, its
    /// threshold is at least 1 and at most their number, and it has counted
    /// the proposals in its history.
    pub open spec fn group_ok(self, space_id: SpaceId) -> bool {
        let g = self.groups[space_id];
        &&& g.space_id == space_id
        &&& g.owners.no_duplicates()
        &&& 1 <= g.threshold <= g.owners.len()
        &&& g.executed_tx_count == self.executed[space_id].len()
    }

    /// The proposal that waits on `space_id` belongs to it, fits its group,
    /// has not been carried out, and has fewer confirmations than the group
    /// asks for, all of them by owners.
    pub open spec fn pending_ok(self, space_id: SpaceId) -> bool {
        let tx_id = self.pending[space_id];
        let p = self.txs[tx_id];
        let g = self.groups[space_id];
        &&& self.groups.contains_key(space_id)
        &&& self.txs.contains_key(tx_id)
        &&& p.space_id == space_id
        &&& fits(g, p)
        &&& p.confirmed_by.len() < g.threshold
        &&& !some_outside(p.confirmed_by, g.owners)
        &&& !self.executed[space_id].contains(tx_id)
    }

    /// The proposal `tx_id` is recorded under its identifier, which has been
    /// handed out; nobody has confirmed it twice; and it either waits on its
    /// space or is in the history of its space.
    pub open spec fn tx_ok(self, tx_id: TransactionId) -> bool {
        let p = self.txs[tx_id];
        &&& p.tx_id == tx_id
        &&& 1 <= tx_id < self.next_tx_id
        &&& p.confirmed_by.len() >= 1
        &&& p.confirmed_by.no_duplicates()
        &&& self.groups.contains_key(p.space_id)
        &&& self.is_pending(tx_id) || self.executed[p.space_id].contains(tx_id)
    }

    /// Whether the proposal `tx_id` waits for confirmations.
    pub open spec fn is_pending(self, tx_id: TransactionId) -> bool {
        let space_id = self.txs[tx_id].space_id;
        &&& self.txs.contains_key(tx_id)
        &&& self.pending.contains_key(space_id)
        &&& self.pending[space_id] == tx_id
    }

    /// The history of `space_id` names proposals of that space, each once,
    /// and together with a waiting proposal they are fewer than the
    /// identifiers handed out.
    pub open spec fn history_ok(self, space_id: SpaceId) -> bool {
        let h = self.executed[space_id];
        &&& h.no_duplicates()
        &&& forall|i: int|
            0 <= i < h.len() ==> self.txs.contains_key(#[trigger] h[i]) && self.txs[h[i]].space_id
                == space_id
        &&& h.len() + (if self.pending.contains_key(space_id) {
            1int
        } else {
            0int
        }) < self.next_tx_id
        &&& h.len() > 0 ==> self.groups.contains_key(space_id)
    }

    /// The list of `account` names exactly the spaces it owns, each once.
    pub open spec fn index_ok(self, account: AccountId) -> bool {
        &&& self.owned[account].no_duplicates()
        &&& forall|space_id: SpaceId|
            self.owned[account].contains(space_id) <==> #[trigger] self.is_owner(space_id, account)
    }

    /// What holds of the store between calls.
    pub open spec fn inv(self) -> bool {
        &&& self.next_tx_id >= 1
        &&& self.owned.dom() == Set::<AccountId>::full()
        &&& self.executed.dom() == Set::<SpaceId>::full()
        &&& forall|space_id: SpaceId| #[trigger]
            self.groups.contains_key(space_id) ==> self.group_ok(space_id)
        &&& forall|space_id: SpaceId| #[trigger]
            self.pending.contains_key(space_id) ==> self.pending_ok(space_id)
        &&& forall|tx_id: TransactionId| #[trigger]
            self.txs.contains_key(tx_id) ==> self.tx_ok(tx_id)
        &&& forall|space_id: SpaceId| #[trigger] self.history_ok(space_id)
        &&& forall|account: AccountId| #[trigger] self.index_ok(account)
    }
}

/// A fresh store is sound.
pub proof fn lemma_empty_inv()
    ensures
        State::empty().inv(),
{
    let s = State::empty();
    assert(s.owned.dom() =~= Set::<AccountId>::full());
    assert(s.executed.dom() =~= Set::<SpaceId>::full());
    assert forall|account: AccountId| #[trigger] s.index_ok(account) by {
        assert forall|space_id: SpaceId|
            s.owned[account].contains(space_id) <==> #[trigger] s.is_owner(space_id, account) by {}
    }
}

/// Setting up a group keeps the store sound.
pub proof fn lemma_created_inv(s: State, space_id: SpaceId, owners: Seq<AccountId>, threshold: u16)
    requires
        s.inv(),
        create_error(s, space_id, owners, threshold) is None,
    ensures
        created(s, space_id, owners, threshold).inv(),
{
    let n = created(s, space_id, owners, threshold);
    assert(n.owned.dom() =~= Set::<AccountId>::full());
    assert(s.history_ok(space_id));
    assert forall|x: SpaceId| #[trigger] n.groups.contains_key(x) implies n.group_ok(x) by {
        if x != space_id {
            assert(s.groups.contains_key(x));
        }
    }
    assert forall|x: SpaceId| #[trigger] n.pending.contains_key(x) implies n.pending_ok(x) by {
        assert(s.pending_ok(x));
    }
    assert forall|t: TransactionId| #[trigger] n.txs.contains_key(t) implies n.tx_ok(t) by {
        assert(s.tx_ok(t));
    }
    assert forall|x: SpaceId| #[trigger] n.history_ok(x) by {
        assert(s.history_ok(x));
    }
    assert forall|a: AccountId| #[trigger] n.index_ok(a) by {
        assert(s.index_ok(a));
        assert(!s.is_owner(space_id, a));
        assert forall|x: SpaceId| n.owned[a].contains(x) <==> #[trigger] n.is_owner(x, a) by {
            lemma_push(s.owned[a], space_id, x);
            assert(s.owned[a].contains(x) <==> s.is_owner(x, a));
        }
        lemma_push(s.owned[a], space_id, space_id);
    }
}

/// A change that fits its group leaves as many owners as were counted when
/// it was proposed, none of them twice: those that stay and those that join.
pub proof fn lemma_fitting_change(g: OwnerGroupView, p: ChangeProposalView)
    requires
        g.owners.no_duplicates(),
        fits(g, p),
    ensures
        new_owners(g.owners, p.add_owners, p.remove_owners).len() == resulting_count(
            g,
            p.add_owners,
            p.remove_owners,
        ),
        new_owners(g.owners, p.add_owners, p.remove_owners).no_duplicates(),
        forall|a: AccountId|
            new_owners(g.owners, p.add_owners, p.remove_owners).contains(a) <==> (g.owners.contains(
                a,
            ) && !p.remove_owners.contains(a)) || p.add_owners.contains(a),
        forall|a: AccountId| p.add_owners.contains(a) ==> !g.owners.contains(a),
        forall|a: AccountId| p.remove_owners.contains(a) ==> g.owners.contains(a),
{
    let stay = without(g.owners, p.remove_owners);
    lemma_without_len(g.owners, p.remove_owners);
    lemma_without_no_duplicates(g.owners, p.remove_owners);
    assert forall|a: AccountId| p.add_owners.contains(a) implies !g.owners.contains(a) by {
        let i = choose|i: int| 0 <= i < p.add_owners.len() && p.add_owners[i] == a;
        assert(!g.owners.contains(p.add_owners[i]));
    }
    assert forall|a: AccountId| p.remove_owners.contains(a) implies g.owners.contains(a) by {
        let i = choose|i: int| 0 <= i < p.remove_owners.len() && p.remove_owners[i] == a;
        assert(g.owners.contains(p.remove_owners[i]));
    }
    assert(!some_in(p.add_owners, stay)) by {
        assert forall|i: int| 0 <= i < p.add_owners.len() implies !stay.contains(
            #[trigger] p.add_owners[i],
        ) by {
            lemma_without_contains(g.owners, p.remove_owners, p.add_owners[i]);
        }
    }
    lemma_concat(stay, p.add_owners, 0);
    assert forall|a: AccountId|
        new_owners(g.owners, p.add_owners, p.remove_owners).contains(a) <==> (g.owners.contains(a)
            && !p.remove_owners.contains(a)) || p.add_owners.contains(a) by {
        lemma_concat(stay, p.add_owners, a);
        lemma_without_contains(g.owners, p.remove_owners, a);
    }
}

/// A store in which the proposal `tx_id` of `space_id` has its quorum and
/// is about to be carried out: sound, but for that proposal and that space.
pub open spec fn ready(r: State, space_id: SpaceId, tx_id: TransactionId) -> bool {
    let p = r.txs[tx_id];
    let g = r.groups[space_id];
    let h = r.executed[space_id];
    &&& r.next_tx_id >= 1
    &&& r.owned.dom() == Set::<AccountId>::full()
    &&& r.executed.dom() == Set::<SpaceId>::full()
    &&& forall|x: SpaceId| #[trigger] r.groups.contains_key(x) ==> r.group_ok(x)
    &&& forall|x: SpaceId| #[trigger] r.pending.contains_key(x) && x != space_id ==> r.pending_ok(x)
    &&& forall|t: TransactionId| #[trigger] r.txs.contains_key(t) && t != tx_id ==> r.tx_ok(t)
    &&& forall|x: SpaceId| x != space_id ==> #[trigger] r.history_ok(x)
    &&& forall|a: AccountId| #[trigger] r.index_ok(a)
    &&& h.no_duplicates()
    &&& forall|i: int|
        0 <= i < h.len() ==> r.txs.contains_key(#[trigger] h[i]) && r.txs[h[i]].space_id == space_id
    &&& h.len() + 1 < r.next_tx_id
    &&& !h.contains(tx_id)
    &&& r.groups.contains_key(space_id)
    &&& r.txs.contains_key(tx_id)
    &&& p.tx_id == tx_id
    &&& p.space_id == space_id
    &&& 1 <= tx_id < r.next_tx_id
    &&& p.confirmed_by.len() >= 1
    &&& p.confirmed_by.no_duplicates()
    &&& fits(g, p)
    &&& apply_error(g, p) is None
    &&& r.pending.contains_key(space_id) ==> r.pending[space_id] == tx_id
}

/// Carrying out a proposal that is ready makes the store sound.
pub proof fn lemma_executed_inv(r: State, space_id: SpaceId, tx_id: TransactionId)
    requires
        ready(r, space_id, tx_id),
    ensures
        executed(r, space_id, tx_id).inv(),
{
    let n = executed(r, space_id, tx_id);
    let p = r.txs[tx_id];
    let g = r.groups[space_id];
    let h = r.executed[space_id];
    assert(r.group_ok(space_id));
    lemma_fitting_change(g, p);
    assert(n.owned.dom() =~= Set::<AccountId>::full());
    assert(n.executed.dom() =~= Set::<SpaceId>::full());
    assert(n.groups[space_id] == applied(g, p));
    assert(n.executed[space_id] == h.push(tx_id));
    assert forall|x: SpaceId| #[trigger] n.groups.contains_key(x) implies n.group_ok(x) by {
        if x != space_id {
            assert(r.groups.contains_key(x));
            assert(r.group_ok(x));
        }
    }
    assert forall|x: SpaceId| #[trigger] n.pending.contains_key(x) implies n.pending_ok(x) by {
        assert(r.pending.contains_key(x) && x != space_id);
        assert(r.pending_ok(x));
    }
    assert forall|x: SpaceId| #[trigger] n.history_ok(x) by {
        if x == space_id {
            lemma_push(h, tx_id, tx_id);
            let hn = h.push(tx_id);
            assert forall|i: int| 0 <= i < hn.len() implies n.txs.contains_key(#[trigger] hn[i])
                && n.txs[hn[i]].space_id == x by {
                if i < h.len() {
                    assert(r.txs.contains_key(h[i]));
                }
            }
        } else {
            assert(r.history_ok(x));
        }
    }
    assert forall|t: TransactionId| #[trigger] n.txs.contains_key(t) implies n.tx_ok(t) by {
        if t == tx_id {
            lemma_push(h, tx_id, tx_id);
        } else {
            assert(r.tx_ok(t));
            let q = r.txs[t];
            if q.space_id == space_id {
                lemma_push(h, tx_id, t);
            }
        }
    }
    assert forall|a: AccountId| #[trigger] n.index_ok(a) by {
        lemma_executed_index(r, space_id, tx_id, a);
    }
}

/// Carrying out a proposal keeps the list of spaces of each account in step
/// with the groups.
proof fn lemma_executed_index(r: State, space_id: SpaceId, tx_id: TransactionId, a: AccountId)
    requires
        ready(r, space_id, tx_id),
    ensures
        executed(r, space_id, tx_id).index_ok(a),
{
    let n = executed(r, space_id, tx_id);
    let p = r.txs[tx_id];
    let g = r.groups[space_id];
    let gone = seq![space_id];
    assert(r.group_ok(space_id));
    assert(r.index_ok(a));
    lemma_fitting_change(g, p);
    let before = r.owned[a];
    let kept = if p.remove_owners.contains(a) {
        without(before, gone)
    } else {
        before
    };
    let after = if p.add_owners.contains(a) {
        kept.push(space_id)
    } else {
        kept
    };
    assert(n.owned[a] == after);
    assert(n.groups[space_id] == applied(g, p));
    assert(gone[0] == space_id);
    lemma_without_no_duplicates(before, gone);
    lemma_without_contains(before, gone, space_id);
    assert(before.contains(space_id) <==> r.is_owner(space_id, a));
    lemma_push(kept, space_id, space_id);
    assert(after.no_duplicates());
    assert forall|x: SpaceId| after.contains(x) <==> #[trigger] n.is_owner(x, a) by {
        lemma_without_contains(before, gone, x);
        lemma_push(kept, space_id, x);
        assert(before.contains(x) <==> r.is_owner(x, a));
        if x != space_id {
            assert(!gone.contains(x)) by {
                if gone.contains(x) {
                    let i = choose|i: int| 0 <= i < gone.len() && gone[i] == x;
                }
            }
            assert(n.is_owner(x, a) <==> r.is_owner(x, a));
        }
    }
}

/// An accepted proposal keeps the store sound, whether it waits or is
/// carried out at once.
pub proof fn lemma_proposed_inv(
    s: State,
    caller: AccountId,
    space_id: SpaceId,
    add_owners: Seq<AccountId>,
    remove_owners: Seq<AccountId>,
    threshold: Option<u16>,
    notes: Seq<u8>,
)
    requires
        s.inv(),
        s.next_tx_id < u64::MAX,
        propose_error(s, caller, space_id, add_owners, remove_owners, threshold) is None,
    ensures
        proposed(s, caller, space_id, add_owners, remove_owners, threshold, notes).inv(),
{
    let n = proposed(s, caller, space_id, add_owners, remove_owners, threshold, notes);
    let p = new_proposal(s, caller, space_id, add_owners, remove_owners, threshold, notes);
    let tx_id = s.next_tx_id;
    let g = s.groups[space_id];
    let h = s.executed[space_id];
    let recorded = State {
        txs: s.txs.insert(tx_id, p),
        next_tx_id: (s.next_tx_id + 1) as u64,
        ..s
    };
    assert(s.group_ok(space_id));
    assert(s.history_ok(space_id));
    assert(fits(g, p));
    assert(!s.txs.contains_key(tx_id)) by {
        if s.txs.contains_key(tx_id) {
            assert(s.tx_ok(tx_id));
        }
    }
    assert(!h.contains(tx_id)) by {
        if h.contains(tx_id) {
            let i = choose|i: int| 0 <= i < h.len() && h[i] == tx_id;
            assert(s.txs.contains_key(h[i]));
        }
    }
    assert(p.confirmed_by[0] == caller);
    assert(!some_outside(p.confirmed_by, g.owners));
    assert forall|x: SpaceId| #[trigger] recorded.groups.contains_key(x) implies recorded.group_ok(
        x,
    ) by {
        assert(s.group_ok(x));
    }
    assert forall|x: SpaceId| #[trigger]
        recorded.pending.contains_key(x) && x != space_id implies recorded.pending_ok(x) by {
        assert(s.pending_ok(x));
    }
    assert forall|t: TransactionId| #[trigger]
        recorded.txs.contains_key(t) && t != tx_id implies recorded.tx_ok(t) by {
        assert(s.tx_ok(t));
    }
    assert forall|x: SpaceId| x != space_id implies #[trigger] recorded.history_ok(x) by {
        assert(s.history_ok(x));
    }
    assert forall|a: AccountId| #[trigger] recorded.index_ok(a) by {
        assert(s.index_ok(a));
        assert forall|x: SpaceId|
            recorded.owned[a].contains(x) <==> #[trigger] recorded.is_owner(x, a) by {
            assert(s.owned[a].contains(x) <==> s.is_owner(x, a));
        }
    }
    if g.threshold == 1 {
        lemma_fitting_change(g, p);
        assert(ready(recorded, space_id, tx_id));
        lemma_executed_inv(recorded, space_id, tx_id);
    } else {
        assert(n.owned.dom() == Set::<AccountId>::full());
        assert forall|x: SpaceId| #[trigger] n.groups.contains_key(x) implies n.group_ok(x) by {
            assert(recorded.group_ok(x));
        }
        assert forall|x: SpaceId| #[trigger] n.pending.contains_key(x) implies n.pending_ok(x) by {
            if x != space_id {
                assert(recorded.pending_ok(x));
            }
        }
        assert forall|t: TransactionId| #[trigger] n.txs.contains_key(t) implies n.tx_ok(t) by {
            if t != tx_id {
                assert(recorded.tx_ok(t));
            }
        }
        assert forall|x: SpaceId| #[trigger] n.history_ok(x) by {
            if x != space_id {
                assert(recorded.history_ok(x));
            }
        }
        assert forall|a: AccountId| #[trigger] n.index_ok(a) by {
            assert(recorded.index_ok(a));
            assert forall|x: SpaceId| n.owned[a].contains(x) <==> #[trigger] n.is_owner(x, a) by {
                assert(recorded.owned[a].contains(x) <==> recorded.is_owner(x, a));
            }
        }
    }
}

/// An accepted confirmation keeps the store sound, whether the proposal
/// goes on waiting or is carried out.
pub proof fn lemma_confirmed_inv(
    s: State,
    caller: AccountId,
    space_id: SpaceId,
    tx_id: TransactionId,
)
    requires
        s.inv(),
        confirm_error(s, caller, space_id, tx_id) is None,
    ensures
        confirmed(s, caller, space_id, tx_id).inv(),
{
    let p = s.txs[tx_id];
    let g = s.groups[space_id];
    let q = ChangeProposalView { confirmed_by: p.confirmed_by.push(caller), ..p };
    let signed = State { txs: s.txs.insert(tx_id, q), ..s };
    assert(s.pending_ok(space_id));
    assert(s.group_ok(space_id));
    assert(s.history_ok(space_id));
    assert(s.tx_ok(tx_id));
    lemma_push(p.confirmed_by, caller, caller);
    assert(fits(g, q));
    assert(!some_outside(q.confirmed_by, g.owners)) by {
        assert forall|i: int| 0 <= i < q.confirmed_by.len() implies g.owners.contains(
            #[trigger] q.confirmed_by[i],
        ) by {
            if i < p.confirmed_by.len() {
                assert(g.owners.contains(p.confirmed_by[i]));
            }
        }
    }
    assert forall|x: SpaceId| #[trigger] signed.groups.contains_key(x) implies signed.group_ok(
        x,
    ) by {
        assert(s.group_ok(x));
    }
    assert forall|x: SpaceId| #[trigger]
        signed.pending.contains_key(x) && x != space_id implies signed.pending_ok(x) by {
        assert(s.pending_ok(x));
    }
    assert forall|t: TransactionId| #[trigger]
        signed.txs.contains_key(t) && t != tx_id implies signed.tx_ok(t) by {
        assert(s.tx_ok(t));
    }
    assert forall|x: SpaceId| #[trigger] signed.history_ok(x) by {
        assert(s.history_ok(x));
        let h = s.executed[x];
        assert forall|i: int| 0 <= i < h.len() implies signed.txs.contains_key(#[trigger] h[i])
            && signed.txs[h[i]].space_id == x by {
            assert(s.txs.contains_key(h[i]));
        }
    }
    assert forall|a: AccountId| #[trigger] signed.index_ok(a) by {
        assert(s.index_ok(a));
        assert forall|x: SpaceId|
            signed.owned[a].contains(x) <==> #[trigger] signed.is_owner(x, a) by {
            assert(s.owned[a].contains(x) <==> s.is_owner(x, a));
        }
    }
    if completes_quorum(g, p) {
        assert(ready(signed, space_id, tx_id));
        lemma_executed_inv(signed, space_id, tx_id);
    } else {
        assert(signed.pending_ok(space_id));
        assert(signed.tx_ok(tx_id));
        assert forall|x: SpaceId| #[trigger] signed.pending.contains_key(x) implies signed.pending_ok(
            x,
        ) by {}
        assert forall|t: TransactionId| #[trigger] signed.txs.contains_key(t) implies signed.tx_ok(
            t,
        ) by {}
    }
}

} // verus!
