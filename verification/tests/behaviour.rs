use df_multiowner::mock::{new_test_ext, tx_note, ACCOUNT1, ACCOUNT2, ACCOUNT3, ACCOUNT4};
use df_multiowner::seqs::{any_in, any_outside, append, contains, has_duplicates, remove_all};
use df_multiowner::store::Module;
use df_multiowner::types::{AccountId, Error, OwnerGroup, SpaceId};

/// A store in which the first two accounts own space 1 and must both agree.
fn two_owner_store() -> Module {
    let mut store = Module::new();
    assert_eq!(store.create_space_owners(ACCOUNT1, 1, vec![ACCOUNT1, ACCOUNT2], 2), Ok(()));
    store
}

/// A store in which three accounts own space 1 and must all agree.
fn three_owner_store() -> Module {
    let mut store = Module::new();
    assert_eq!(
        store.create_space_owners(ACCOUNT1, 1, vec![ACCOUNT1, ACCOUNT2, ACCOUNT4], 3),
        Ok(())
    );
    store
}

fn rejected(
    store: &mut Module,
    call: impl FnOnce(&mut Module) -> Result<(), Error>,
    expected: Error,
) {
    let before = store.clone();
    assert_eq!(call(store), Err(expected));
    assert_eq!(*store, before);
}

fn group(store: &Module, space_id: SpaceId) -> OwnerGroup {
    store.space_owners_by_space_id(space_id).unwrap()
}

// -- the store at its beginning ----------------------------------------------

#[test]
fn fresh_store_is_empty() {
    let store = new_test_ext();
    assert_eq!(store, Module::new());
    assert_eq!(store.next_tx_id(), 1);
    assert_eq!(store.space_owners_by_space_id(1), None);
    assert_eq!(store.pending_tx_id_by_space_id(1), None);
    assert_eq!(store.tx_by_id(1), None);
    assert_eq!(store.executed_tx_ids_by_space_id(1), Vec::<u64>::new());
    assert_eq!(store.space_ids_owned_by_account_id(ACCOUNT1), Vec::<u64>::new());
    assert!(!store.is_space_owner(1, ACCOUNT1));
}

#[test]
fn tx_note_is_the_default_note() {
    assert_eq!(tx_note(), b"Default change proposal".to_vec());
    assert_eq!(tx_note().len(), 23);
}

#[test]
fn clone_holds_the_same() {
    let mut store = two_owner_store();
    let copy = store.clone();
    assert_eq!(copy, store);
    assert_eq!(store.propose_change(ACCOUNT1, 1, vec![ACCOUNT3], vec![], None, vec![]), Ok(()));
    assert_ne!(copy, store);
    assert_eq!(copy.pending_tx_id_by_space_id(1), None);
}

// -- setting up a group ------------------------------------------------------

#[test]
fn create_by_an_outsider_is_accepted() {
    let mut store = Module::new();
    assert_eq!(store.create_space_owners(ACCOUNT4, 7, vec![ACCOUNT1, ACCOUNT2], 1), Ok(()));
    assert_eq!(store.space_ids_owned_by_account_id(ACCOUNT4), Vec::<u64>::new());
    assert_eq!(store.space_ids_owned_by_account_id(ACCOUNT1), vec![7]);
    assert!(store.is_space_owner(7, ACCOUNT2));
    assert!(!store.is_space_owner(7, ACCOUNT4));
    assert!(!store.is_space_owner(8, ACCOUNT1));
}

#[test]
fn create_fails_space_owners_already_exist() {
    let mut store = two_owner_store();
    rejected(
        &mut store,
        |s| s.create_space_owners(ACCOUNT3, 1, vec![ACCOUNT3], 1),
        Error::SpaceOwnersAlreadyExist,
    );
}

#[test]
fn create_fails_no_space_owners_provided() {
    let mut store = Module::new();
    rejected(&mut store, |s| s.create_space_owners(ACCOUNT1, 1, vec![], 1), Error::NoSpaceOwnersProvided);
    // an empty list is reported before a zero threshold
    rejected(&mut store, |s| s.create_space_owners(ACCOUNT1, 1, vec![], 0), Error::NoSpaceOwnersProvided);
}

#[test]
fn create_fails_duplicate_owner() {
    let mut store = Module::new();
    rejected(
        &mut store,
        |s| s.create_space_owners(ACCOUNT1, 1, vec![ACCOUNT1, ACCOUNT2, ACCOUNT1], 2),
        Error::DuplicateOwner,
    );
}

#[test]
fn create_fails_zero_threshold() {
    let mut store = Module::new();
    rejected(
        &mut store,
        |s| s.create_space_owners(ACCOUNT1, 1, vec![ACCOUNT1, ACCOUNT2], 0),
        Error::ZeroThreshold,
    );
}

#[test]
fn create_fails_too_big_threshold() {
    let mut store = Module::new();
    rejected(
        &mut store,
        |s| s.create_space_owners(ACCOUNT1, 1, vec![ACCOUNT1, ACCOUNT2], 3),
        Error::TooBigThreshold,
    );
    assert_eq!(store.create_space_owners(ACCOUNT1, 1, vec![ACCOUNT1, ACCOUNT2], 2), Ok(()));
}

#[test]
fn an_account_lists_its_spaces_in_order() {
    let mut store = Module::new();
    assert_eq!(store.create_space_owners(ACCOUNT1, 5, vec![ACCOUNT1], 1), Ok(()));
    assert_eq!(store.create_space_owners(ACCOUNT1, 2, vec![ACCOUNT2, ACCOUNT1], 1), Ok(()));
    assert_eq!(store.create_space_owners(ACCOUNT1, 9, vec![ACCOUNT2], 1), Ok(()));
    assert_eq!(store.space_ids_owned_by_account_id(ACCOUNT1), vec![5, 2]);
    assert_eq!(store.space_ids_owned_by_account_id(ACCOUNT2), vec![2, 9]);
}

// -- proposing ---------------------------------------------------------------

#[test]
fn propose_fails_not_a_space_owner() {
    let mut store = two_owner_store();
    rejected(
        &mut store,
        |s| s.propose_change(ACCOUNT3, 1, vec![ACCOUNT3], vec![], None, vec![]),
        Error::NotASpaceOwner,
    );
}

#[test]
fn propose_on_a_space_without_group_fails() {
    let mut store = two_owner_store();
    rejected(
        &mut store,
        |s| s.propose_change(ACCOUNT1, 2, vec![ACCOUNT3], vec![], None, vec![]),
        Error::NotASpaceOwner,
    );
}

#[test]
fn propose_fails_when_nothing_is_proposed() {
    let mut store = two_owner_store();
    rejected(
        &mut store,
        |s| s.propose_change(ACCOUNT1, 1, vec![], vec![], None, vec![]),
        Error::NoFieldsUpdatedOnProposal,
    );
    // letting an owner in and a stranger go changes nothing either
    rejected(
        &mut store,
        |s| s.propose_change(ACCOUNT1, 1, vec![ACCOUNT2], vec![ACCOUNT4], Some(2), vec![]),
        Error::NoFieldsUpdatedOnProposal,
    );
}

#[test]
fn propose_fails_duplicate_owner() {
    let mut store = two_owner_store();
    // named twice
    rejected(
        &mut store,
        |s| s.propose_change(ACCOUNT1, 1, vec![ACCOUNT3, ACCOUNT3], vec![], None, vec![]),
        Error::DuplicateOwner,
    );
    // an owner already
    rejected(
        &mut store,
        |s| s.propose_change(ACCOUNT1, 1, vec![ACCOUNT3, ACCOUNT2], vec![], None, vec![]),
        Error::DuplicateOwner,
    );
    // to leave twice
    rejected(
        &mut store,
        |s| s.propose_change(ACCOUNT1, 1, vec![ACCOUNT3], vec![ACCOUNT2, ACCOUNT2], None, vec![]),
        Error::DuplicateOwner,
    );
}

#[test]
fn propose_fails_to_remove_a_stranger() {
    let mut store = two_owner_store();
    rejected(
        &mut store,
        |s| s.propose_change(ACCOUNT1, 1, vec![ACCOUNT3], vec![ACCOUNT4], None, vec![]),
        Error::NotASpaceOwner,
    );
}

#[test]
fn propose_checks_the_threshold_before_the_owners_left() {
    let mut store = two_owner_store();
    rejected(
        &mut store,
        |s| s.propose_change(ACCOUNT1, 1, vec![], vec![ACCOUNT1, ACCOUNT2], Some(0), vec![]),
        Error::ZeroThreshold,
    );
    rejected(
        &mut store,
        |s| s.propose_change(ACCOUNT1, 1, vec![], vec![ACCOUNT1, ACCOUNT2], Some(1), vec![]),
        Error::TooBigThreshold,
    );
}

#[test]
fn propose_counts_who_joins_and_who_leaves() {
    // 2 owners + 2 - 1 = 3: a threshold of 3 fits, one of 4 does not
    let mut store = two_owner_store();
    rejected(
        &mut store,
        |s| s.propose_change(ACCOUNT1, 1, vec![ACCOUNT3, ACCOUNT4], vec![ACCOUNT2], Some(4), vec![]),
        Error::TooBigThreshold,
    );
    assert_eq!(
        store.propose_change(ACCOUNT1, 1, vec![ACCOUNT3, ACCOUNT4], vec![ACCOUNT2], Some(3), vec![]),
        Ok(())
    );
}

#[test]
fn proposal_is_recorded_as_given() {
    let mut store = two_owner_store();
    assert_eq!(
        store.propose_change(ACCOUNT2, 1, vec![ACCOUNT4], vec![ACCOUNT1], None, vec![7, 8, 9]),
        Ok(())
    );
    let tx = store.tx_by_id(1).unwrap();
    assert_eq!(tx.tx_id, 1);
    assert_eq!(tx.space_id, 1);
    assert_eq!(tx.add_owners, vec![ACCOUNT4]);
    assert_eq!(tx.remove_owners, vec![ACCOUNT1]);
    assert_eq!(tx.new_threshold, None);
    assert_eq!(tx.notes, vec![7, 8, 9]);
    assert_eq!(tx.confirmed_by, vec![ACCOUNT2]);
    // nothing is carried out yet
    assert_eq!(group(&store, 1).owners, vec![ACCOUNT1, ACCOUNT2]);
    assert_eq!(store.executed_tx_ids_by_space_id(1), Vec::<u64>::new());
}

#[test]
fn sole_quorum_executes_at_once() {
    let mut store = Module::new();
    assert_eq!(store.create_space_owners(ACCOUNT3, 2, vec![ACCOUNT3], 1), Ok(()));
    assert_eq!(
        store.propose_change(ACCOUNT3, 2, vec![ACCOUNT1], vec![], Some(2), tx_note()),
        Ok(())
    );
    assert_eq!(store.pending_tx_id_by_space_id(2), None);
    assert_eq!(store.executed_tx_ids_by_space_id(2), vec![1]);
    assert_eq!(store.next_tx_id(), 2);
    let g = group(&store, 2);
    assert_eq!(g.owners, vec![ACCOUNT3, ACCOUNT1]);
    assert_eq!(g.threshold, 2);
    assert_eq!(g.executed_tx_count, 1);
    assert_eq!(store.tx_by_id(1).unwrap().confirmed_by, vec![ACCOUNT3]);
    assert_eq!(store.space_ids_owned_by_account_id(ACCOUNT1), vec![2]);
    // the space is free for the next proposal, which now has to wait
    assert_eq!(store.propose_change(ACCOUNT1, 2, vec![], vec![], Some(1), vec![]), Ok(()));
    assert_eq!(store.pending_tx_id_by_space_id(2), Some(2));
    assert_eq!(store.next_tx_id(), 3);
}

#[test]
fn tx_ids_run_across_spaces() {
    let mut store = two_owner_store();
    assert_eq!(store.create_space_owners(ACCOUNT3, 2, vec![ACCOUNT3, ACCOUNT4], 2), Ok(()));
    assert_eq!(store.propose_change(ACCOUNT3, 2, vec![ACCOUNT1], vec![], None, vec![]), Ok(()));
    assert_eq!(store.propose_change(ACCOUNT1, 1, vec![ACCOUNT3], vec![], None, vec![]), Ok(()));
    assert_eq!(store.pending_tx_id_by_space_id(2), Some(1));
    assert_eq!(store.pending_tx_id_by_space_id(1), Some(2));
    assert_eq!(store.tx_by_id(2).unwrap().space_id, 1);
    assert_eq!(store.next_tx_id(), 3);
}

// -- confirming --------------------------------------------------------------

#[test]
fn quorum_changes_the_group() {
    let mut store = two_owner_store();
    assert_eq!(
        store.propose_change(ACCOUNT1, 1, vec![ACCOUNT3], vec![], Some(3), tx_note()),
        Ok(())
    );
    assert_eq!(store.confirm_change(ACCOUNT2, 1, 1), Ok(()));
    assert_eq!(store.pending_tx_id_by_space_id(1), None);
    assert_eq!(store.executed_tx_ids_by_space_id(1), vec![1]);
    let g = group(&store, 1);
    assert_eq!(g.owners, vec![ACCOUNT1, ACCOUNT2, ACCOUNT3]);
    assert_eq!(g.threshold, 3);
    assert_eq!(g.executed_tx_count, 1);
    assert_eq!(g.space_id, 1);
    assert_eq!(store.space_ids_owned_by_account_id(ACCOUNT3), vec![1]);
}

#[test]
fn who_leaves_loses_the_space() {
    let mut store = two_owner_store();
    assert_eq!(store.create_space_owners(ACCOUNT2, 2, vec![ACCOUNT2], 1), Ok(()));
    assert_eq!(
        store.propose_change(ACCOUNT1, 1, vec![ACCOUNT4, ACCOUNT3], vec![ACCOUNT2], Some(1), vec![]),
        Ok(())
    );
    assert_eq!(store.confirm_change(ACCOUNT2, 1, 1), Ok(()));
    let g = group(&store, 1);
    assert_eq!(g.owners, vec![ACCOUNT1, ACCOUNT4, ACCOUNT3]);
    assert_eq!(g.threshold, 1);
    assert_eq!(store.space_ids_owned_by_account_id(ACCOUNT2), vec![2]);
    assert_eq!(store.space_ids_owned_by_account_id(ACCOUNT1), vec![1]);
    assert_eq!(store.space_ids_owned_by_account_id(ACCOUNT4), vec![1]);
    assert!(!store.is_space_owner(1, ACCOUNT2));
    // who left can neither propose nor confirm
    rejected(
        &mut store,
        |s| s.propose_change(ACCOUNT2, 1, vec![ACCOUNT2], vec![], None, vec![]),
        Error::NotASpaceOwner,
    );
}

#[test]
fn threshold_stays_where_none_is_proposed() {
    let mut store = two_owner_store();
    assert_eq!(store.propose_change(ACCOUNT1, 1, vec![ACCOUNT3], vec![], None, vec![]), Ok(()));
    assert_eq!(store.confirm_change(ACCOUNT2, 1, 1), Ok(()));
    assert_eq!(group(&store, 1).threshold, 2);
    assert_eq!(group(&store, 1).owners, vec![ACCOUNT1, ACCOUNT2, ACCOUNT3]);
}

#[test]
fn below_quorum_the_proposal_waits() {
    let mut store = three_owner_store();
    assert_eq!(store.propose_change(ACCOUNT1, 1, vec![ACCOUNT3], vec![], Some(3), vec![]), Ok(()));
    assert_eq!(store.confirm_change(ACCOUNT2, 1, 1), Ok(()));
    assert_eq!(store.pending_tx_id_by_space_id(1), Some(1));
    assert_eq!(store.executed_tx_ids_by_space_id(1), Vec::<u64>::new());
    assert_eq!(group(&store, 1).owners, vec![ACCOUNT1, ACCOUNT2, ACCOUNT4]);
    assert_eq!(store.tx_by_id(1).unwrap().confirmed_by, vec![ACCOUNT1, ACCOUNT2]);
    assert_eq!(store.confirm_change(ACCOUNT4, 1, 1), Ok(()));
    assert_eq!(store.pending_tx_id_by_space_id(1), None);
    assert_eq!(store.tx_by_id(1).unwrap().confirmed_by, vec![ACCOUNT1, ACCOUNT2, ACCOUNT4]);
    assert_eq!(group(&store, 1).owners, vec![ACCOUNT1, ACCOUNT2, ACCOUNT4, ACCOUNT3]);
}

#[test]
fn confirm_fails_not_a_space_owner() {
    let mut store = two_owner_store();
    assert_eq!(store.propose_change(ACCOUNT1, 1, vec![ACCOUNT3], vec![], None, vec![]), Ok(()));
    rejected(&mut store, |s| s.confirm_change(ACCOUNT3, 1, 1), Error::NotASpaceOwner);
    rejected(&mut store, |s| s.confirm_change(ACCOUNT1, 9, 1), Error::NotASpaceOwner);
}

#[test]
fn confirm_fails_when_nothing_waits() {
    let mut store = two_owner_store();
    rejected(&mut store, |s| s.confirm_change(ACCOUNT2, 1, 1), Error::TxNotRelatedToSpace);
}

#[test]
fn confirm_fails_for_another_tx_id() {
    let mut store = two_owner_store();
    assert_eq!(store.propose_change(ACCOUNT1, 1, vec![ACCOUNT3], vec![], None, vec![]), Ok(()));
    rejected(&mut store, |s| s.confirm_change(ACCOUNT2, 1, 2), Error::TxNotRelatedToSpace);
    rejected(&mut store, |s| s.confirm_change(ACCOUNT2, 1, 0), Error::TxNotRelatedToSpace);
}

#[test]
fn proposer_cannot_confirm_again() {
    let mut store = two_owner_store();
    assert_eq!(store.propose_change(ACCOUNT1, 1, vec![ACCOUNT3], vec![], Some(3), vec![]), Ok(()));
    rejected(&mut store, |s| s.confirm_change(ACCOUNT1, 1, 1), Error::TxAlreadyConfirmed);
    assert_eq!(store.tx_by_id(1).unwrap().confirmed_by, vec![ACCOUNT1]);
}

#[test]
fn executed_tx_takes_no_more_confirmations() {
    let mut store = two_owner_store();
    assert_eq!(store.propose_change(ACCOUNT1, 1, vec![ACCOUNT3], vec![], Some(3), vec![]), Ok(()));
    assert_eq!(store.confirm_change(ACCOUNT2, 1, 1), Ok(()));
    rejected(&mut store, |s| s.confirm_change(ACCOUNT3, 1, 1), Error::TxNotRelatedToSpace);
    rejected(&mut store, |s| s.confirm_change(ACCOUNT2, 1, 1), Error::TxNotRelatedToSpace);
    // nor after the next proposal has taken the slot
    assert_eq!(store.propose_change(ACCOUNT3, 1, vec![], vec![], Some(2), vec![]), Ok(()));
    rejected(&mut store, |s| s.confirm_change(ACCOUNT2, 1, 1), Error::TxNotRelatedToSpace);
    assert_eq!(store.executed_tx_ids_by_space_id(1), vec![1]);
}

#[test]
fn history_grows_in_order() {
    let mut store = two_owner_store();
    assert_eq!(store.propose_change(ACCOUNT1, 1, vec![ACCOUNT3], vec![], None, vec![]), Ok(()));
    assert_eq!(store.confirm_change(ACCOUNT2, 1, 1), Ok(()));
    assert_eq!(store.propose_change(ACCOUNT3, 1, vec![], vec![ACCOUNT1], None, vec![]), Ok(()));
    assert_eq!(store.confirm_change(ACCOUNT2, 1, 2), Ok(()));
    assert_eq!(store.executed_tx_ids_by_space_id(1), vec![1, 2]);
    assert_eq!(group(&store, 1).executed_tx_count, 2);
    assert_eq!(group(&store, 1).owners, vec![ACCOUNT2, ACCOUNT3]);
    assert_eq!(store.space_ids_owned_by_account_id(ACCOUNT1), Vec::<u64>::new());
}

#[test]
fn change_that_outgrows_the_threshold_is_not_carried_out() {
    // two owners who must both agree; one is to leave and the threshold is to stay
    let mut store = two_owner_store();
    assert_eq!(store.propose_change(ACCOUNT1, 1, vec![], vec![ACCOUNT2], None, vec![]), Ok(()));
    rejected(&mut store, |s| s.confirm_change(ACCOUNT2, 1, 1), Error::TooBigThreshold);
    assert_eq!(store.pending_tx_id_by_space_id(1), Some(1));
    assert_eq!(store.tx_by_id(1).unwrap().confirmed_by, vec![ACCOUNT1]);
    assert_eq!(group(&store, 1).owners, vec![ACCOUNT1, ACCOUNT2]);
}

// -- what holds of every store, on chosen values -------------------------------

fn threshold_in_bounds(store: &Module, space_id: SpaceId) -> bool {
    let g = group(store, space_id);
    1 <= g.threshold && g.threshold as usize <= g.owners.len()
}

#[test]
fn threshold_stays_in_bounds() {
    let mut store = two_owner_store();
    assert!(threshold_in_bounds(&store, 1));
    assert_eq!(
        store.propose_change(ACCOUNT1, 1, vec![ACCOUNT3], vec![ACCOUNT2], Some(1), vec![]),
        Ok(())
    );
    assert!(threshold_in_bounds(&store, 1));
    assert_eq!(store.confirm_change(ACCOUNT2, 1, 1), Ok(()));
    assert!(threshold_in_bounds(&store, 1));
    assert_eq!(store.propose_change(ACCOUNT3, 1, vec![ACCOUNT4], vec![], Some(3), vec![]), Ok(()));
    assert!(threshold_in_bounds(&store, 1));
    assert_eq!(group(&store, 1).threshold, 3);
}

#[test]
fn one_proposal_waits_per_space() {
    let mut store = two_owner_store();
    assert_eq!(store.propose_change(ACCOUNT1, 1, vec![ACCOUNT3], vec![], None, vec![]), Ok(()));
    rejected(
        &mut store,
        |s| s.propose_change(ACCOUNT2, 1, vec![ACCOUNT4], vec![], None, vec![]),
        Error::PendingTxAlreadyExists,
    );
    rejected(
        &mut store,
        |s| s.propose_change(ACCOUNT1, 1, vec![], vec![], None, vec![]),
        Error::PendingTxAlreadyExists,
    );
    assert_eq!(store.pending_tx_id_by_space_id(1), Some(1));
    assert_eq!(store.tx_by_id(2), None);
}

#[test]
fn nobody_confirms_twice() {
    let mut store = three_owner_store();
    assert_eq!(store.propose_change(ACCOUNT1, 1, vec![ACCOUNT3], vec![], None, vec![]), Ok(()));
    assert_eq!(store.confirm_change(ACCOUNT4, 1, 1), Ok(()));
    rejected(&mut store, |s| s.confirm_change(ACCOUNT4, 1, 1), Error::TxAlreadyConfirmed);
    rejected(&mut store, |s| s.confirm_change(ACCOUNT1, 1, 1), Error::TxAlreadyConfirmed);
    let confirmed_by: Vec<AccountId> = store.tx_by_id(1).unwrap().confirmed_by;
    assert_eq!(confirmed_by, vec![ACCOUNT1, ACCOUNT4]);
    assert!(!has_duplicates(&confirmed_by));
}

#[test]
fn order_of_confirmations_does_not_matter() {
    let mut first = three_owner_store();
    let mut second = three_owner_store();
    for store in [&mut first, &mut second] {
        assert_eq!(
            store.propose_change(ACCOUNT1, 1, vec![ACCOUNT3], vec![ACCOUNT2], Some(2), vec![]),
            Ok(())
        );
    }
    assert_eq!(first.confirm_change(ACCOUNT2, 1, 1), Ok(()));
    assert_eq!(first.confirm_change(ACCOUNT4, 1, 1), Ok(()));
    assert_eq!(second.confirm_change(ACCOUNT4, 1, 1), Ok(()));
    assert_eq!(second.confirm_change(ACCOUNT2, 1, 1), Ok(()));
    assert_eq!(group(&first, 1), group(&second, 1));
    assert_eq!(group(&first, 1).owners, vec![ACCOUNT1, ACCOUNT4, ACCOUNT3]);
    assert_eq!(first.executed_tx_ids_by_space_id(1), second.executed_tx_ids_by_space_id(1));
    assert_eq!(first.tx_by_id(1).unwrap().confirmed_by, vec![ACCOUNT1, ACCOUNT2, ACCOUNT4]);
    assert_eq!(second.tx_by_id(1).unwrap().confirmed_by, vec![ACCOUNT1, ACCOUNT4, ACCOUNT2]);
}

// -- lists -------------------------------------------------------------------

#[test]
fn contains_finds_members() {
    assert!(contains(&vec![4, 5, 6], 6));
    assert!(!contains(&vec![4, 5, 6], 7));
    assert!(!contains(&vec![], 0));
}

#[test]
fn has_duplicates_finds_repeats() {
    assert!(!has_duplicates(&vec![]));
    assert!(!has_duplicates(&vec![1, 2, 3]));
    assert!(has_duplicates(&vec![1, 2, 1]));
    assert!(has_duplicates(&vec![3, 3]));
}

#[test]
fn any_in_and_any_outside() {
    assert!(any_in(&vec![1, 9], &vec![9, 8]));
    assert!(!any_in(&vec![1, 2], &vec![9, 8]));
    assert!(!any_in(&vec![], &vec![9, 8]));
    assert!(any_outside(&vec![9, 1], &vec![9, 8]));
    assert!(!any_outside(&vec![8, 9], &vec![9, 8]));
    assert!(!any_outside(&vec![], &vec![]));
}

#[test]
fn remove_all_keeps_the_order() {
    assert_eq!(remove_all(&vec![5, 1, 4, 2, 3], &vec![4, 5]), vec![1, 2, 3]);
    assert_eq!(remove_all(&vec![1, 2], &vec![]), vec![1, 2]);
    assert_eq!(remove_all(&vec![1, 1], &vec![1]), Vec::<u64>::new());
}

#[test]
fn append_puts_the_second_list_last() {
    let mut v = vec![3, 1];
    append(&mut v, &vec![2, 5]);
    assert_eq!(v, vec![3, 1, 2, 5]);
    append(&mut v, &vec![]);
    assert_eq!(v, vec![3, 1, 2, 5]);
}
