//! Key-value records kept beside the entity store: the id-to-owner map and
//! the owner-to-last-entity map.
//!
//! Both are overwrite maps kept as append-only binding lists: a later
//! binding for a key shadows every earlier one, which gives exactly the
//! unconditional-overwrite semantics of `set_owner` and `insert`.

#![allow(unused_imports)]
use crate::kitty::{Kitty, KittyView};
use crate::{AccountId, KittyIndex};
use vstd::prelude::*;

verus! {

/// The map a binding list denotes: later bindings shadow earlier ones.
pub open spec fn owner_map_of(s: Seq<(KittyIndex, AccountId)>) -> Map<KittyIndex, AccountId>
    decreases s.len(),
{
    if s.len() == 0 {
        Map::empty()
    } else {
        owner_map_of(s.drop_last()).insert(s.last().0, s.last().1)
    }
}

/// Maps an entity id to its current owner.  Writing never checks that the
/// entity exists or that the writer held the entity before.
pub struct OwnershipRegistry {
    entries: Vec<(KittyIndex, AccountId)>,
}

impl View for OwnershipRegistry {
    type V = Map<KittyIndex, AccountId>;

    closed spec fn view(&self) -> Map<KittyIndex, AccountId> {
        owner_map_of(self.entries@)
    }
}

impl OwnershipRegistry {
    /// An empty registry: no entity has an owner yet.
    pub fn new() -> (r: OwnershipRegistry)
        ensures
            r@ == Map::<KittyIndex, AccountId>::empty(),
    {
        let r = OwnershipRegistry { entries: Vec::new() };
        r
    }

    /// Unconditionally record `owner` as the current owner of `id`.
    pub fn set_owner(&mut self, id: KittyIndex, owner: AccountId)
        ensures
            final(self)@ == old(self)@.insert(id, owner),
    {
        self.entries.push((id, owner));
        proof {
            assert(self.entries@.drop_last() =~= old(self).entries@);
        }
    }

    /// The current owner of `id`, if any was ever recorded.
    pub fn get_owner(&self, id: KittyIndex) -> (r: Option<AccountId>)
        ensures
            r == if self@.contains_key(id) {
                Some(self@[id])
            } else {
                None::<AccountId>
            },
    {
        let mut r: Option<AccountId> = None;
        let mut i: usize = 0;
        while i < self.entries.len()
            invariant
                i <= self.entries@.len(),
                r == if owner_map_of(self.entries@.take(i as int)).contains_key(id) {
                    Some(owner_map_of(self.entries@.take(i as int))[id])
                } else {
                    None::<AccountId>
                },
            decreases self.entries@.len() - i,
        {
            proof {
                assert(self.entries@.take(i + 1).drop_last() =~= self.entries@.take(i as int));
                assert(self.entries@.take(i + 1).last() == self.entries@[i as int]);
            }
            if self.entries[i].0 == id {
                r = Some(self.entries[i].1);
            }
            i = i + 1;
        }
        proof {
            assert(self.entries@.take(self.entries@.len() as int) =~= self.entries@);
        }
        r
    }
}

/// The map a binding list of entities denotes, over entity views.
pub open spec fn whos_map_of(s: Seq<(AccountId, Kitty)>) -> Map<AccountId, KittyView>
    decreases s.len(),
{
    if s.len() == 0 {
        Map::empty()
    } else {
        whos_map_of(s.drop_last()).insert(s.last().0, s.last().1@)
    }
}

/// Maps an owner to the entity it most recently produced.  Each creating
/// operation overwrites the binding, so only the latest entity per owner is
/// retrievable here.
pub struct WhosKitties {
    entries: Vec<(AccountId, Kitty)>,
}

impl View for WhosKitties {
    type V = Map<AccountId, KittyView>;

    closed spec fn view(&self) -> Map<AccountId, KittyView> {
        whos_map_of(self.entries@)
    }
}

impl WhosKitties {
    /// An empty map: no owner has produced an entity yet.
    pub fn new() -> (r: WhosKitties)
        ensures
            r@ == Map::<AccountId, KittyView>::empty(),
    {
        let r = WhosKitties { entries: Vec::new() };
        r
    }

    /// Record `kitty` as the entity `owner` produced last.
    pub fn insert(&mut self, owner: AccountId, kitty: Kitty)
        ensures
            final(self)@ == old(self)@.insert(owner, kitty@),
    {
        self.entries.push((owner, kitty));
        proof {
            assert(self.entries@.drop_last() =~= old(self).entries@);
        }
    }

    /// The entity `owner` produced last, if any.
    pub fn get(&self, owner: AccountId) -> (r: Option<Kitty>)
        ensures
            match r {
                Some(k) => self@.contains_key(owner) && k@ == self@[owner],
                None => !self@.contains_key(owner),
            },
    {
        let mut r: Option<Kitty> = None;
        let mut i: usize = 0;
        while i < self.entries.len()
            invariant
                i <= self.entries@.len(),
                match r {
                    Some(k) => whos_map_of(self.entries@.take(i as int)).contains_key(owner)
                        && k@ == whos_map_of(self.entries@.take(i as int))[owner],
                    None => !whos_map_of(self.entries@.take(i as int)).contains_key(owner),
                },
            decreases self.entries@.len() - i,
        {
            proof {
                assert(self.entries@.take(i + 1).drop_last() =~= self.entries@.take(i as int));
                assert(self.entries@.take(i + 1).last() == self.entries@[i as int]);
            }
            let p = &self.entries[i];
            if p.0 == owner {
                r = Some(p.1.duplicate());
            }
            i = i + 1;
        }
        proof {
            assert(self.entries@.take(self.entries@.len() as int) =~= self.entries@);
        }
        r
    }
}

} // verus!
