use df_multiowner::mock::{
    new_test_ext, tx_note, Test, _confirm_change, _confirm_default_change,
    _create_default_space_owners, _create_space_owners, _propose_change, _propose_default_change,
    ACCOUNT1, ACCOUNT2, ACCOUNT3, ACCOUNT4,
};
use df_multiowner::store::Module;
use df_multiowner::types::{AccountId, Error};

type MultiOwnership = Module;

/// The call succeeded.
fn assert_ok(res: Result<(), Error>) {
    assert_eq!(res, Ok(()));
}

/// The call was rejected with `expected` and left the store as it was.
fn assert_noop(
    store: &mut MultiOwnership,
    call: impl FnOnce(&mut MultiOwnership) -> Result<(), Error>,
    expected: Error,
) {
    let before = store.clone();
    assert_eq!(call(store), Err(expected));
    assert_eq!(*store, before);
}

#[test]
fn create_space_owners_should_work() {
    let mut store = new_test_ext();
    assert_ok(_create_default_space_owners(&mut store));

    // Check storages
    assert_eq!(store.space_ids_owned_by_account_id(ACCOUNT1), vec![1]);
    assert_eq!(store.space_ids_owned_by_account_id(ACCOUNT2), vec![1]);

    // Check whether data is stored correctly
    let space_owners = store.space_owners_by_space_id(1).unwrap();
    assert_eq!(space_owners.owners, vec![ACCOUNT1, ACCOUNT2]);
    assert_eq!(space_owners.space_id, 1);
    assert_eq!(space_owners.threshold, 2);
    assert_eq!(space_owners.executed_tx_count, 0);
}

#[test]
fn propose_change_should_work() {
    let mut store = new_test_ext();
    assert_ok(_create_default_space_owners(&mut store));
    assert_ok(_propose_default_change(&mut store));

    // Check storages
    assert_eq!(store.pending_tx_id_by_space_id(1), Some(1));
    assert_eq!(store.next_tx_id(), 2);

    // Check whether data is stored correctly
    let tx = store.tx_by_id(1).unwrap();
    assert_eq!(tx.add_owners, vec![ACCOUNT3]);
    assert_eq!(tx.remove_owners, Vec::<AccountId>::new());
    assert_eq!(tx.new_threshold, Some(3));
    assert_eq!(tx.notes, tx_note());
    assert_eq!(tx.confirmed_by, vec![ACCOUNT1]);
}

#[test]
fn propose_change_should_work_with_only_one_owner() {
    let mut store = new_test_ext();
    assert_ok(_create_default_space_owners(&mut store));
    assert_ok(_propose_change(
        &mut store,
        None,
        None,
        Some(vec![ACCOUNT3]),
        Some(vec![ACCOUNT1, ACCOUNT2]),
        Some(Some(1)),
        None,
    ));

    // Check storages
    assert_eq!(store.pending_tx_id_by_space_id(1), Some(1));
    assert_eq!(store.next_tx_id(), 2);

    // Check whether data is stored correctly
    let tx = store.tx_by_id(1).unwrap();
    assert_eq!(tx.add_owners, vec![ACCOUNT3]);
    assert_eq!(tx.remove_owners, vec![ACCOUNT1, ACCOUNT2]);
    assert_eq!(tx.new_threshold, Some(1));
    assert_eq!(tx.notes, tx_note());
    assert_eq!(tx.confirmed_by, vec![ACCOUNT1]);
}

#[test]
fn propose_change_should_fail_zero_threshold() {
    let mut store = new_test_ext();
    assert_ok(_create_default_space_owners(&mut store));
    assert_noop(
        &mut store,
        |s| _propose_change(s, None, None, Some(vec![]), Some(vec![]), Some(Some(0)), None),
        Error::ZeroThreshold,
    );
}

#[test]
fn propose_change_should_fail_too_big_threshold() {
    let mut store = new_test_ext();
    assert_ok(_create_default_space_owners(&mut store));
    assert_noop(
        &mut store,
        |s| _propose_change(s, None, None, Some(vec![]), Some(vec![]), Some(Some(3)), None),
        Error::TooBigThreshold,
    );
}

#[test]
fn propose_change_should_fail_no_owners_left() {
    let mut store = new_test_ext();
    assert_ok(_create_default_space_owners(&mut store));
    assert_noop(
        &mut store,
        |s| {
            _propose_change(
                s,
                None,
                None,
                Some(vec![]),
                Some(vec![ACCOUNT1, ACCOUNT2]),
                Some(None),
                None,
            )
        },
        Error::NoSpaceOwnersLeft,
    );
}

#[test]
fn propose_change_should_fail_proposal_already_exist() {
    let mut store = new_test_ext();
    assert_ok(_create_default_space_owners(&mut store));
    assert_ok(_propose_default_change(&mut store));
    assert_noop(
        &mut store,
        |s| _propose_change(s, Some(ACCOUNT2), None, None, None, Some(None), None),
        Error::PendingTxAlreadyExists,
    );
}

#[test]
fn propose_change_should_fail_no_updates_on_owners() {
    let mut store = new_test_ext();
    assert_ok(_create_default_space_owners(&mut store));
    assert_noop(
        &mut store,
        |s| _propose_change(s, None, None, Some(vec![]), Some(vec![ACCOUNT3]), Some(None), None),
        Error::NoFieldsUpdatedOnProposal,
    );
}

#[test]
fn propose_change_should_fail_no_updates_on_threshold() {
    let mut store = new_test_ext();
    assert_ok(_create_default_space_owners(&mut store));
    assert_noop(
        &mut store,
        |s| _propose_change(s, None, None, Some(vec![]), Some(vec![]), Some(Some(2)), None),
        Error::NoFieldsUpdatedOnProposal,
    );
}

#[test]
fn confirm_change_should_work() {
    let mut store = new_test_ext();
    assert_ok(_create_default_space_owners(&mut store));
    assert_ok(_propose_default_change(&mut store));
    assert_ok(_confirm_default_change(&mut store));

    // Check storages
    assert_eq!(store.pending_tx_id_by_space_id(1), None);
    assert_eq!(store.executed_tx_ids_by_space_id(1), vec![1]);
    assert_eq!(store.next_tx_id(), 2);

    // Check whether data is stored correctly
    let tx = store.tx_by_id(1).unwrap();
    assert_eq!(tx.confirmed_by, vec![ACCOUNT1, ACCOUNT2]);
}

#[test]
fn confirm_change_should_fail_not_related_to_space_owners() {
    let mut store = new_test_ext();
    assert_ok(_create_default_space_owners(&mut store));
    assert_ok(_propose_default_change(&mut store));
    assert_ok(_create_space_owners(
        &mut store,
        Some(ACCOUNT3),
        Some(2),
        Some(vec![ACCOUNT3]),
        Some(1),
    ));
    assert_ok(_propose_change(
        &mut store,
        Some(ACCOUNT3),
        Some(2),
        Some(vec![ACCOUNT1]),
        Some(vec![]),
        Some(Some(2)),
        Some(tx_note()),
    ));

    assert_noop(
        &mut store,
        |s| _confirm_change(s, None, Some(1), Some(2)),
        Error::TxNotRelatedToSpace,
    );
}

#[test]
fn confirm_change_should_fail_not() {
    let mut store = new_test_ext();
    assert_ok(_create_space_owners(
        &mut store,
        Some(ACCOUNT1),
        Some(1),
        Some(vec![ACCOUNT1, ACCOUNT2, ACCOUNT4]),
        Some(3),
    ));
    assert_ok(_propose_default_change(&mut store));
    assert_ok(_confirm_default_change(&mut store));

    assert_noop(&mut store, |s| _confirm_default_change(s), Error::TxAlreadyConfirmed);
}

#[test]
fn the_setting_has_a_name() {
    let a = Test;
    let b = a.clone();
    assert!(a == b);
}
