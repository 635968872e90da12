//! A small fixed setting to try the store in: four accounts, one space that
//! the first two of them own together, and one proposal to let the third in.
//! Each helper takes the store and, for every argument of the call it stands
//! for, either a value or `None` for the default of this setting.

use vstd::prelude::*;
use vstd::string::{StrSliceExecFns, StringSliceAdditionalSpecFns};
use crate::model::{
    confirm_error, confirmed, create_error, created, propose_error, proposed, State,
};
use crate::store::Module;
use crate::types::{AccountId, Error, SpaceId, TransactionId};

verus! {

/// Names this setting, in which accounts are plain numbers and a call is
/// made in the name of whichever account the caller states.
#[derive(Eq, PartialEq)]
pub struct Test;

impl Clone for Test {
    fn clone(&self) -> (res: Self)
        ensures
            res == *self,
    {
        Test
    }
}

pub const ACCOUNT1: AccountId = 1;

pub const ACCOUNT2: AccountId = 2;

pub const ACCOUNT3: AccountId = 3;

pub const ACCOUNT4: AccountId = 4;

/// The owners that a group gets where none are given.
pub open spec fn default_owners() -> Seq<AccountId> {
    seq![ACCOUNT1, ACCOUNT2]
}

/// The accounts that a proposal lets in where none are given.
pub open spec fn default_add_owners() -> Seq<AccountId> {
    seq![ACCOUNT3]
}

/// `value`, or `default` where there is none.
pub open spec fn or_default<T>(value: Option<T>, default: T) -> T {
    match value {
        Some(v) => v,
        None => default,
    }
}

/// The list that `value` holds, or `default` where there is none.
pub open spec fn list_or(value: Option<Vec<u64>>, default: Seq<u64>) -> Seq<u64> {
    match value {
        Some(v) => v@,
        None => default,
    }
}

/// A store at its beginning: no groups, no proposals.
pub fn new_test_ext() -> (m: Module)
    ensures
        m@ == State::empty(),
        m@.inv(),
{
    Module::new()
}

/// The note that a proposal carries where none is given.
pub fn tx_note() -> (note: Vec<u8>)
    ensures
        note@ == "Default change proposal".spec_bytes(),
{
    "Default change proposal".as_bytes_vec()
}

/// Sets up space 1 for the first two accounts, who must both agree.
pub fn _create_default_space_owners(module: &mut Module) -> (res: Result<(), Error>)
    requires
        old(module)@.inv(),
    ensures
        match create_error(old(module)@, 1, default_owners(), 2) {
            Some(e) => res == Err::<(), Error>(e) && final(module)@ == old(module)@,
            None => res is Ok && final(module)@ == created(old(module)@, 1, default_owners(), 2),
        },
        final(module)@.inv(),
{
    _create_space_owners(module, None, None, None, None)
}

/// Sets up a group as [`Module::create_space_owners`] does. The defaults:
/// the first account calls, for space 1, with the first two accounts as
/// owners and a threshold of 2.
pub fn _create_space_owners(
    module: &mut Module,
    origin: Option<AccountId>,
    space_id: Option<SpaceId>,
    owners: Option<Vec<AccountId>>,
    threshold: Option<u16>,
) -> (res: Result<(), Error>)
    requires
        old(module)@.inv(),
    ensures
        match create_error(
            old(module)@,
            or_default(space_id, 1),
            list_or(owners, default_owners()),
            or_default(threshold, 2),
        ) {
            Some(e) => res == Err::<(), Error>(e) && final(module)@ == old(module)@,
            None => res is Ok && final(module)@ == created(
                old(module)@,
                or_default(space_id, 1),
                list_or(owners, default_owners()),
                or_default(threshold, 2),
            ),
        },
        final(module)@.inv(),
{
    let owners = match owners {
        Some(v) => v,
        None => {
            let mut v: Vec<AccountId> = Vec::new();
            v.push(ACCOUNT1);
            v.push(ACCOUNT2);
            assert(v@ =~= default_owners());
            v
        },
    };
    module.create_space_owners(
        origin.unwrap_or(ACCOUNT1),
        space_id.unwrap_or(1),
        owners,
        threshold.unwrap_or(2),
    )
}

/// Proposes, in the name of the first account, to let the third account
/// into space 1 and to raise the threshold to 3.
pub fn _propose_default_change(module: &mut Module) -> (res: Result<(), Error>)
    requires
        old(module)@.inv(),
        old(module)@.next_tx_id < u64::MAX,
    ensures
        match propose_error(
            old(module)@,
            ACCOUNT1,
            1,
            default_add_owners(),
            Seq::empty(),
            Some(3u16),
        ) {
            Some(e) => res == Err::<(), Error>(e) && final(module)@ == old(module)@,
            None => res is Ok && final(module)@ == proposed(
                old(module)@,
                ACCOUNT1,
                1,
                default_add_owners(),
                Seq::empty(),
                Some(3u16),
                "Default change proposal".spec_bytes(),
            ),
        },
        final(module)@.inv(),
{
    _propose_change(module, None, None, None, None, None, None)
}

/// Proposes a change as [`Module::propose_change`] does. The defaults: the
/// first account calls, for space 1, to let the third account in, to let
/// nobody go, and to raise the threshold to 3, with the note of [`tx_note`].
pub fn _propose_change(
    module: &mut Module,
    origin: Option<AccountId>,
    space_id: Option<SpaceId>,
    add_owners: Option<Vec<AccountId>>,
    remove_owners: Option<Vec<AccountId>>,
    new_threshold: Option<Option<u16>>,
    notes: Option<Vec<u8>>,
) -> (res: Result<(), Error>)
    requires
        old(module)@.inv(),
        old(module)@.next_tx_id < u64::MAX,
    ensures
        match propose_error(
            old(module)@,
            or_default(origin, ACCOUNT1),
            or_default(space_id, 1),
            list_or(add_owners, default_add_owners()),
            list_or(remove_owners, Seq::empty()),
            or_default(new_threshold, Some(3u16)),
        ) {
            Some(e) => res == Err::<(), Error>(e) && final(module)@ == old(module)@,
            None => res is Ok && final(module)@ == proposed(
                old(module)@,
                or_default(origin, ACCOUNT1),
                or_default(space_id, 1),
                list_or(add_owners, default_add_owners()),
                list_or(remove_owners, Seq::empty()),
                or_default(new_threshold, Some(3u16)),
                match notes {
                    Some(n) => n@,
                    None => "Default change proposal".spec_bytes(),
                },
            ),
        },
        final(module)@.inv(),
{
    let add_owners = match add_owners {
        Some(v) => v,
        None => {
            let mut v: Vec<AccountId> = Vec::new();
            v.push(ACCOUNT3);
            assert(v@ =~= default_add_owners());
            v
        },
    };
    let remove_owners = match remove_owners {
        Some(v) => v,
        None => Vec::new(),
    };
    let notes = match notes {
        Some(n) => n,
        None => tx_note(),
    };
    module.propose_change(
        origin.unwrap_or(ACCOUNT1),
        space_id.unwrap_or(1),
        add_owners,
        remove_owners,
        new_threshold.unwrap_or(Some(3)),
        notes,
    )
}

/// Confirms proposal 1 on space 1 in the name of the second account.
pub fn _confirm_default_change(module: &mut Module) -> (res: Result<(), Error>)
    requires
        old(module)@.inv(),
    ensures
        match confirm_error(old(module)@, ACCOUNT2, 1, 1) {
            Some(e) => res == Err::<(), Error>(e) && final(module)@ == old(module)@,
            None => res is Ok && final(module)@ == confirmed(old(module)@, ACCOUNT2, 1, 1),
        },
        final(module)@.inv(),
{
    _confirm_change(module, None, None, None)
}

/// Confirms a proposal as [`Module::confirm_change`] does. The defaults:
/// the second account calls, for space 1 and proposal 1.
pub fn _confirm_change(
    module: &mut Module,
    origin: Option<AccountId>,
    space_id: Option<SpaceId>,
    tx_id: Option<TransactionId>,
) -> (res: Result<(), Error>)
    requires
        old(module)@.inv(),
    ensures
        match confirm_error(
            old(module)@,
            or_default(origin, ACCOUNT2),
            or_default(space_id, 1),
            or_default(tx_id, 1),
        ) {
            Some(e) => res == Err::<(), Error>(e) && final(module)@ == old(module)@,
            None => res is Ok && final(module)@ == confirmed(
                old(module)@,
                or_default(origin, ACCOUNT2),
                or_default(space_id, 1),
                or_default(tx_id, 1),
            ),
        },
        final(module)@.inv(),
{
    module.confirm_change(origin.unwrap_or(ACCOUNT2), space_id.unwrap_or(1), tx_id.unwrap_or(1))
}

} // verus!
