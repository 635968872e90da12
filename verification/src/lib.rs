//! Multi-owner governance of spaces: a group of accounts jointly owns a space,
//! and every change to the group is proposed by one owner and carried out once
//! enough owners have confirmed it.
//!
//! [`store::Module`] holds the records. [`model`] says what each call does to
//! them, [`soundness`] what holds of them between calls, and [`laws`] what
//! follows for every caller.

pub mod engine;
pub mod laws;
pub mod mock;
pub mod model;
pub mod registry;
pub mod seqs;
pub mod soundness;
pub mod store;
pub mod types;

pub use store::Module;
pub use types::{AccountId, ChangeProposal, Error, OwnerGroup, SpaceId, TransactionId};
