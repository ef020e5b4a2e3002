//! A digital-entity registry and breeding engine.
//!
//! Actors create unique tokens ("kitties") carrying fixed-size genetic
//! data, transfer ownership, and mint new tokens by combining two existing
//! tokens' genetic data.  Every new token is linked into a genealogy graph
//! kept as per-entity adjacency lists (parents, mates, brothers, children).

#![allow(unused_imports)]
use vstd::prelude::*;

pub mod allocator;
pub mod entropy;
pub mod kitty;
pub mod laws;
pub mod registry;
pub mod store;

verus! {

/// Identifier of an entity; assigned strictly in increasing order from zero.
pub type KittyIndex = u32;

/// Identity of an actor, as resolved by the hosting ledger.
pub type AccountId = u64;

/// The closed set of failures an operation can surface.
#[derive(Clone, Copy, Debug, PartialEq, Eq, Structural)]
pub enum Error {
    /// The id space is exhausted: the allocation counter is at its maximum.
    KittiesCountOverflow,
    /// A referenced id does not resolve to a stored entity.
    InvalidKittyId,
    /// A breeding attempt named the same entity twice.
    ParentsTheSame,
}

/// The closed set of events an operation emits, in emission order.
#[derive(Clone, Copy, Debug, PartialEq, Eq, Structural)]
pub enum Event {
    /// A genesis entity was created: (actor, new id).
    Created(AccountId, KittyIndex),
    /// An entity's owner was set: (actor, new owner, id).
    Transfered(AccountId, AccountId, KittyIndex),
    /// An offspring was bred: (actor, new id).
    Breeded(AccountId, KittyIndex),
}

} // verus!
