//! What holds of every sound store and of every call on it.

use vstd::prelude::*;
use crate::model::{
    after_confirm, applied, apply_error, completes_quorum, confirm_error, confirmed, new_proposal,
    propose_error, proposed, resulting_count, State,
};
use crate::seqs::lemma_push;
use crate::soundness::{lemma_confirmed_inv, lemma_fitting_change};
use crate::types::{AccountId, ChangeProposalView, Error, SpaceId, TransactionId};

verus! {

/// The threshold of every group is at least 1 and at most the number of its
/// owners. Every call ends with a sound store, so this holds after each.
pub proof fn law_threshold_bounds(s: State, space_id: SpaceId)
    requires
        s.inv(),
        s.groups.contains_key(space_id),
    ensures
        1 <= s.groups[space_id].threshold <= s.groups[space_id].owners.len(),
        s.groups[space_id].owners.no_duplicates(),
{
    assert(s.group_ok(space_id));
}

/// At most one proposal waits on a space: two proposals of one space that
/// have not been carried out are one and the same, namely the one that the
/// space's slot names.
pub proof fn law_single_pending(s: State, space_id: SpaceId, t1: TransactionId, t2: TransactionId)
    requires
        s.inv(),
        s.txs.contains_key(t1),
        s.txs.contains_key(t2),
        s.txs[t1].space_id == space_id,
        s.txs[t2].space_id == space_id,
        !s.executed[space_id].contains(t1),
        !s.executed[space_id].contains(t2),
    ensures
        t1 == t2,
        s.pending.contains_key(space_id),
        s.pending[space_id] == t1,
{
    assert(s.tx_ok(t1));
    assert(s.tx_ok(t2));
}

/// While a proposal waits on a space, no owner can propose another.
pub proof fn law_no_second_proposal(
    s: State,
    caller: AccountId,
    space_id: SpaceId,
    add_owners: Seq<AccountId>,
    remove_owners: Seq<AccountId>,
    threshold: Option<u16>,
)
    requires
        s.pending.contains_key(space_id),
        s.is_owner(space_id, caller),
    ensures
        propose_error(s, caller, space_id, add_owners, remove_owners, threshold) == Some(
            Error::PendingTxAlreadyExists,
        ),
{
}

/// No account is among the confirmations of a proposal twice, and an
/// account that has confirmed the waiting proposal is turned away when it
/// tries again.
pub proof fn law_no_double_confirmation(s: State, tx_id: TransactionId, caller: AccountId)
    requires
        s.inv(),
        s.txs.contains_key(tx_id),
    ensures
        s.txs[tx_id].confirmed_by.no_duplicates(),
        s.is_pending(tx_id) && s.txs[tx_id].confirmed_by.contains(caller) ==> confirm_error(
            s,
            caller,
            s.txs[tx_id].space_id,
            tx_id,
        ) == Some(Error::TxAlreadyConfirmed),
{
    assert(s.tx_ok(tx_id));
    let p = s.txs[tx_id];
    if s.is_pending(tx_id) && p.confirmed_by.contains(caller) {
        assert(s.pending_ok(p.space_id));
        let i = choose|i: int| 0 <= i < p.confirmed_by.len() && p.confirmed_by[i] == caller;
        assert(s.groups[p.space_id].owners.contains(p.confirmed_by[i]));
    }
}

/// A waiting proposal has fewer confirmations than its group asks for. The
/// accepted confirmation that completes the quorum carries the change out
/// in the same call: the group is changed, nothing waits on the space, and
/// the history of the space ends with the proposal. An accepted confirmation
/// that does not complete it leaves the group alone and the proposal
/// waiting.
pub proof fn law_quorum_executes(
    s: State,
    caller: AccountId,
    space_id: SpaceId,
    tx_id: TransactionId,
)
    requires
        s.inv(),
        confirm_error(s, caller, space_id, tx_id) is None,
    ensures
        s.txs[tx_id].confirmed_by.len() < s.groups[space_id].threshold,
        confirmed(s, caller, space_id, tx_id).txs[tx_id].confirmed_by
            == s.txs[tx_id].confirmed_by.push(caller),
        completes_quorum(s.groups[space_id], s.txs[tx_id]) ==> {
            let n = confirmed(s, caller, space_id, tx_id);
            &&& !n.pending.contains_key(space_id)
            &&& n.executed[space_id] == s.executed[space_id].push(tx_id)
            &&& n.groups[space_id] == applied(s.groups[space_id], s.txs[tx_id])
        },
        !completes_quorum(s.groups[space_id], s.txs[tx_id]) ==> {
            let n = confirmed(s, caller, space_id, tx_id);
            &&& n.pending.contains_key(space_id) && n.pending[space_id] == tx_id
            &&& n.executed == s.executed
            &&& n.groups == s.groups
        },
{
    assert(s.pending_ok(space_id));
}

/// Where one confirmation is enough, an accepted proposal is carried out in
/// the call that proposes it: the group is changed, nothing waits on the
/// space, and the history of the space ends with the new proposal. Where
/// more are asked for, it waits and the group stays as it is.
pub proof fn law_sole_quorum_executes(
    s: State,
    caller: AccountId,
    space_id: SpaceId,
    add_owners: Seq<AccountId>,
    remove_owners: Seq<AccountId>,
    threshold: Option<u16>,
    notes: Seq<u8>,
)
    requires
        s.inv(),
        propose_error(s, caller, space_id, add_owners, remove_owners, threshold) is None,
    ensures
        ({
            let n = proposed(s, caller, space_id, add_owners, remove_owners, threshold, notes);
            let p = new_proposal(s, caller, space_id, add_owners, remove_owners, threshold, notes);
            &&& n.txs[s.next_tx_id].confirmed_by == seq![caller]
            &&& s.groups[space_id].threshold == 1 ==> {
                &&& !n.pending.contains_key(space_id)
                &&& n.executed[space_id] == s.executed[space_id].push(s.next_tx_id)
                &&& n.groups[space_id] == applied(s.groups[space_id], p)
            }
            &&& s.groups[space_id].threshold != 1 ==> {
                &&& n.pending.contains_key(space_id) && n.pending[space_id] == s.next_tx_id
                &&& n.executed == s.executed
                &&& n.groups == s.groups
            }
        }),
{
}

/// The change that waits on a space can be carried out once its quorum is
/// complete, with one exception: it proposes no threshold, and fewer owners
/// would be left than the threshold that stays asks for.
pub proof fn law_waiting_change_applies(s: State, space_id: SpaceId)
    requires
        s.inv(),
        s.pending.contains_key(space_id),
    ensures
        ({
            let g = s.groups[space_id];
            let p = s.txs[s.pending[space_id]];
            apply_error(g, p) == if p.new_threshold is None && g.threshold > resulting_count(
                g,
                p.add_owners,
                p.remove_owners,
            ) {
                Some(Error::TooBigThreshold)
            } else {
                None
            }
        }),
{
    assert(s.pending_ok(space_id));
    assert(s.group_ok(space_id));
    lemma_fitting_change(s.groups[space_id], s.txs[s.pending[space_id]]);
}

/// A proposal is carried out once: it is in the history of its space once,
/// and from then on every confirmation of it is turned away, whoever calls
/// and whichever space is named.
pub proof fn law_executed_once(
    s: State,
    caller: AccountId,
    space_id: SpaceId,
    tx_id: TransactionId,
)
    requires
        s.inv(),
        s.txs.contains_key(tx_id),
        s.executed[s.txs[tx_id].space_id].contains(tx_id),
    ensures
        s.executed[s.txs[tx_id].space_id].no_duplicates(),
        !s.is_pending(tx_id),
        confirm_error(s, caller, space_id, tx_id) is Some,
{
    let home = s.txs[tx_id].space_id;
    assert(s.history_ok(home));
    if s.pending.contains_key(space_id) && s.pending[space_id] == tx_id {
        assert(s.pending_ok(space_id));
    }
    if s.pending.contains_key(home) && s.pending[home] == tx_id {
        assert(s.pending_ok(home));
    }
}

/// The order in which two accounts confirm does not matter to the outcome:
/// either way the groups, the lists of owned spaces, the waiting proposals
/// and the histories end up the same.
pub proof fn law_confirmation_order(
    s: State,
    a: AccountId,
    b: AccountId,
    space_id: SpaceId,
    tx_id: TransactionId,
)
    requires
        s.inv(),
    ensures
        ({
            let ab = after_confirm(after_confirm(s, a, space_id, tx_id), b, space_id, tx_id);
            let ba = after_confirm(after_confirm(s, b, space_id, tx_id), a, space_id, tx_id);
            &&& ab.groups == ba.groups
            &&& ab.owned == ba.owned
            &&& ab.pending == ba.pending
            &&& ab.executed == ba.executed
            &&& ab.next_tx_id == ba.next_tx_id
        }),
{
    let sa = after_confirm(s, a, space_id, tx_id);
    let sb = after_confirm(s, b, space_id, tx_id);
    let ab = after_confirm(sa, b, space_id, tx_id);
    let ba = after_confirm(sb, a, space_id, tx_id);
    if confirm_error(s, a, space_id, tx_id) is None {
        lemma_confirmed_inv(s, a, space_id, tx_id);
    }
    if confirm_error(s, b, space_id, tx_id) is None {
        lemma_confirmed_inv(s, b, space_id, tx_id);
    }
    let p = s.txs[tx_id];
    let g = s.groups[space_id];
    lemma_push(p.confirmed_by, a, b);
    lemma_push(p.confirmed_by, b, a);
    if a != b {
        let ea = confirm_error(s, a, space_id, tx_id);
        let eb = confirm_error(s, b, space_id, tx_id);
        if ea is None && eb is None {
            let qa = ChangeProposalView { confirmed_by: p.confirmed_by.push(a), ..p };
            let qb = ChangeProposalView { confirmed_by: p.confirmed_by.push(b), ..p };
            assert(applied(g, qa) == applied(g, qb));
            assert(apply_error(g, qa) == apply_error(g, qb));
            if completes_quorum(g, p) {
                assert(confirm_error(sa, b, space_id, tx_id) is Some);
                assert(confirm_error(sb, a, space_id, tx_id) is Some);
            } else {
                assert(sa.txs[tx_id] == qa);
                assert(sb.txs[tx_id] == qb);
                assert(confirm_error(sa, b, space_id, tx_id) == confirm_error(
                    sb,
                    a,
                    space_id,
                    tx_id,
                ));
            }
        } else if ea is None {
            assert(sb == s);
            assert(confirm_error(sa, b, space_id, tx_id) is Some);
        } else if eb is None {
            assert(sa == s);
            assert(confirm_error(sb, a, space_id, tx_id) is Some);
        }
    }
    assert(ab.groups =~= ba.groups);
    assert(ab.owned =~= ba.owned);
    assert(ab.pending =~= ba.pending);
    assert(ab.executed =~= ba.executed);
}

} // verus!
