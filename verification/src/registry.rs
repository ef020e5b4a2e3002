//! The registry module: entity store, ownership records, allocator and
//! entropy source behind the three operations `create`, `transfer` and
//! `breed`.
//!
//! Entities are kept in a dense vector: the entity with id `i` is the
//! `i`-th element, and the allocation counter always equals the number of
//! stored entities, so an id resolves exactly when it is below the counter.

#![allow(unused_imports)]
use crate::allocator::IdAllocator;
use crate::entropy::{entropy_of, next_nonce, seed_ok, EntropySource, EntropyView};
use crate::kitty::{
    combine, combine_seq, contains_id, copy_ids, valid_ids, Kitty, KittyView,
};
use crate::store::{OwnershipRegistry, WhosKitties};
use crate::{AccountId, Error, Event, KittyIndex};
use vstd::pervasive::VecAdditionalExecFns;
use vstd::prelude::*;

verus! {

/// The views of a stored entity sequence.
pub open spec fn views_of(s: Seq<Kitty>) -> Seq<KittyView> {
    s.map_values(|k: Kitty| k@)
}

/// The mathematical shadow of the whole registry.
#[verifier::ext_equal]
pub ghost struct ModuleView {
    pub kitties: Seq<KittyView>,
    pub owners: Map<KittyIndex, AccountId>,
    pub whos: Map<AccountId, KittyView>,
    pub entropy: EntropyView,
    pub events: Seq<Event>,
}

/// Relation well-formedness of the stored entities: every adjacency list
/// holds stored ids without repeats, parents are two distinct stored
/// entities, and the mate relation is symmetric.
pub open spec fn graph_wf(ks: Seq<KittyView>) -> bool {
    &&& forall|i: int| 0 <= i < ks.len() ==> (#[trigger] ks[i]).wf_rel_in(ks.len() as int)
    &&& forall|i: int, j: int|
        0 <= i < ks.len() && 0 <= j < ks.len() && #[trigger] ks[i].mates.contains(
            j as KittyIndex,
        ) ==> ks[j].mates.contains(i as KittyIndex)
}

/// Every stored entity carries exactly 16 bytes of genetic data.
pub open spec fn dna_wf(ks: Seq<KittyView>) -> bool {
    forall|i: int| 0 <= i < ks.len() ==> (#[trigger] ks[i]).dna.len() == 16
}

/// Every stored entity has an owner on record.
pub open spec fn owners_wf(s: ModuleView) -> bool {
    forall|i: int| 0 <= i < s.kitties.len() ==> s.owners.contains_key(#[trigger] (i as KittyIndex))
}

/// Well-formedness of a registry state.
pub open spec fn wf_view(s: ModuleView) -> bool {
    &&& s.kitties.len() <= KittyIndex::MAX
    &&& graph_wf(s.kitties)
    &&& dna_wf(s.kitties)
    &&& owners_wf(s)
    &&& seed_ok(s.entropy.seed)
}

/// The genesis entity `actor` gets from a creation in state `pre`.
pub open spec fn genesis_kitty(pre: ModuleView, actor: AccountId) -> KittyView {
    KittyView {
        dna: entropy_of(pre.entropy, actor),
        parents: None,
        mates: Seq::empty(),
        brothers: Seq::empty(),
        children: Seq::empty(),
    }
}

/// The creation transition: one fresh entity with no relations is appended
/// under the next id, the owner records are updated, one counter value is
/// consumed.  (The emitted event is stated beside this predicate.)
pub open spec fn create_ok(pre: ModuleView, post: ModuleView, actor: AccountId) -> bool {
    let id = pre.kitties.len() as KittyIndex;
    let k = genesis_kitty(pre, actor);
    &&& pre.kitties.len() < KittyIndex::MAX
    &&& post.kitties == pre.kitties.push(k)
    &&& post.owners == pre.owners.insert(id, actor)
    &&& post.whos == pre.whos.insert(actor, k)
    &&& post.entropy.seed == pre.entropy.seed
    &&& post.entropy.nonce == next_nonce(pre.entropy.nonce)
}

/// The transfer transition: the owner record of `id` is unconditionally
/// overwritten with `to` and the event is emitted; nothing else changes.
/// Nothing here asks that `id` names a stored entity or that `actor` was
/// the previous owner: the operation succeeds from every state.
pub open spec fn transfer_ok(
    pre: ModuleView,
    post: ModuleView,
    actor: AccountId,
    to: AccountId,
    id: KittyIndex,
) -> bool {
    &&& post.owners == pre.owners.insert(id, to)
    &&& post.kitties == pre.kitties
    &&& post.whos == pre.whos
    &&& post.entropy == pre.entropy
    &&& post.events == pre.events.push(Event::Transfered(actor, to, id))
}

/// The registry.
pub struct KittiesModule {
    kitties: Vec<Kitty>,
    allocator: IdAllocator,
    owners: OwnershipRegistry,
    whos: WhosKitties,
    entropy: EntropySource,
    events: Vec<Event>,
}

impl View for KittiesModule {
    type V = ModuleView;

    closed spec fn view(&self) -> ModuleView {
        ModuleView {
            kitties: views_of(self.kitties@),
            owners: self.owners@,
            whos: self.whos@,
            entropy: self.entropy@,
            events: self.events@,
        }
    }
}

impl KittiesModule {
    /// The allocation counter equals the number of stored entities.
    pub closed spec fn repr_wf(self) -> bool {
        self.allocator.counter() == self@.kitties.len()
    }

    /// Well-formedness: the allocation counter equals the number of stored
    /// entities, and the state view is well-formed.
    pub open spec fn wf(self) -> bool {
        &&& self.repr_wf()
        &&& wf_view(self@)
    }

    /// An empty registry over the given per-block seed.
    pub fn new(seed: Vec<u8>) -> (r: KittiesModule)
        requires
            seed_ok(seed@),
        ensures
            r.wf(),
            r@.kitties == Seq::<KittyView>::empty(),
            r@.owners == Map::<KittyIndex, AccountId>::empty(),
            r@.whos == Map::<AccountId, KittyView>::empty(),
            r@.entropy.seed == seed@,
            r@.entropy.nonce == 0,
            r@.events == Seq::<Event>::empty(),
    {
        let r = KittiesModule {
            kitties: Vec::new(),
            allocator: IdAllocator::new(),
            owners: OwnershipRegistry::new(),
            whos: WhosKitties::new(),
            entropy: EntropySource::new(seed),
            events: Vec::new(),
        };
        proof {
            assert(r@.kitties =~= Seq::<KittyView>::empty());
        }
        r
    }

    /// The hosting ledger distributes a new per-block seed.
    pub fn set_seed(&mut self, seed: Vec<u8>)
        requires
            old(self).wf(),
            seed_ok(seed@),
        ensures
            final(self).wf(),
            final(self)@.entropy.seed == seed@,
            final(self)@.entropy.nonce == old(self)@.entropy.nonce,
            final(self)@.kitties == old(self)@.kitties,
            final(self)@.owners == old(self)@.owners,
            final(self)@.whos == old(self)@.whos,
            final(self)@.events == old(self)@.events,
    {
        self.entropy.set_seed(seed);
    }

    /// The number of entities created so far, which is also the id the next
    /// creation will get.
    pub fn kitties_count(&self) -> (r: KittyIndex)
        requires
            self.wf(),
        ensures
            r == self@.kitties.len(),
    {
        self.kitties.len() as KittyIndex
    }

    /// The id the next creation will get, or `KittiesCountOverflow` when
    /// the id space is exhausted.
    pub fn next_kitty_id(&self) -> (r: Result<KittyIndex, Error>)
        requires
            self.wf(),
        ensures
            r == if self@.kitties.len() == KittyIndex::MAX {
                Err::<KittyIndex, Error>(Error::KittiesCountOverflow)
            } else {
                Ok::<KittyIndex, Error>(self@.kitties.len() as KittyIndex)
            },
    {
        self.allocator.next_id()
    }

    /// The stored entity under `kitty_id`, if that id was ever assigned.
    pub fn kitties(&self, kitty_id: KittyIndex) -> (r: Option<Kitty>)
        ensures
            match r {
                Some(k) => kitty_id < self@.kitties.len() && k@ == self@.kitties[kitty_id as int],
                None => kitty_id >= self@.kitties.len(),
            },
    {
        if (kitty_id as usize) < self.kitties.len() {
            Some(self.kitties[kitty_id as usize].duplicate())
        } else {
            None
        }
    }

    /// The current owner of `kitty_id`, if one was ever recorded.
    pub fn kitty_owner(&self, kitty_id: KittyIndex) -> (r: Option<AccountId>)
        ensures
            r == if self@.owners.contains_key(kitty_id) {
                Some(self@.owners[kitty_id])
            } else {
                None::<AccountId>
            },
    {
        self.owners.get_owner(kitty_id)
    }

    /// The entity `owner` produced last, if any.
    pub fn whos_kitties(&self, owner: AccountId) -> (r: Option<Kitty>)
        ensures
            match r {
                Some(k) => self@.whos.contains_key(owner) && k@ == self@.whos[owner],
                None => !self@.whos.contains_key(owner),
            },
    {
        self.whos.get(owner)
    }

    /// Every event emitted so far, in emission order.
    pub fn events(&self) -> (r: &Vec<Event>)
        ensures
            r@ == self@.events,
    {
        &self.events
    }

    /// Persist a freshly built entity under the id the allocator issued:
    /// store it, consume the id, and record `owner` as its owner and as
    /// having produced it last.
    fn insert_kitties(&mut self, owner: AccountId, kitty_id: KittyIndex, kitty: Kitty)
        requires
            old(self).allocator.counter() == old(self)@.kitties.len(),
            old(self)@.kitties.len() < KittyIndex::MAX,
            kitty_id == old(self)@.kitties.len(),
        ensures
            final(self)@.kitties == old(self)@.kitties.push(kitty@),
            final(self)@.owners == old(self)@.owners.insert(kitty_id, owner),
            final(self)@.whos == old(self)@.whos.insert(owner, kitty@),
            final(self)@.entropy == old(self)@.entropy,
            final(self)@.events == old(self)@.events,
            final(self).allocator.counter() == final(self)@.kitties.len(),
    {
        let dup = kitty.duplicate();
        self.kitties.push(kitty);
        self.allocator.advance();
        self.owners.set_owner(kitty_id, owner);
        self.whos.insert(owner, dup);
        proof {
            assert(self@.kitties =~= old(self)@.kitties.push(dup@));
        }
    }

    /// Create a genesis entity for `actor`: it gets the next id and fresh
    /// pseudo-random genetic data, and carries no relations.  Fails with
    /// `KittiesCountOverflow`, changing nothing, exactly when the id space
    /// is exhausted.
    pub fn create(&mut self, actor: AccountId) -> (r: Result<(), Error>)
        requires
            old(self).wf(),
        ensures
            final(self).wf(),
            r is Ok <==> old(self)@.kitties.len() < KittyIndex::MAX,
            r is Ok ==> create_ok(old(self)@, final(self)@, actor) && final(self)@.events
                == old(self)@.events.push(
                Event::Created(actor, old(self)@.kitties.len() as KittyIndex),
            ),
            r is Err ==> final(self)@ == old(self)@ && r == Err::<(), Error>(
                Error::KittiesCountOverflow,
            ),
    {
        let kitty_id = match self.allocator.next_id() {
            Ok(id) => id,
            Err(e) => {
                return Err(e);
            },
        };
        let dna = self.entropy.derive(actor);
        let kitty = Kitty {
            dna,
            parents: None,
            mates: Vec::new(),
            brothers: Vec::new(),
            children: Vec::new(),
        };
        proof {
            assert(kitty@ =~= genesis_kitty(old(self)@, actor));
        }
        self.insert_kitties(actor, kitty_id, kitty);
        self.events.push(Event::Created(actor, kitty_id));
        proof {
            lemma_create_preserves_graph_wf(old(self)@.kitties, self@.kitties);
            assert(dna_wf(self@.kitties)) by {
                assert(forall|i: int|
                    0 <= i < old(self)@.kitties.len() ==> self@.kitties[i] == old(
                        self,
                    )@.kitties[i]);
            }
        }
        Ok(())
    }

    /// Unconditionally set the owner of `kitty_id` to `to`.  There is no
    /// check that the entity exists or that `actor` owned it before; the
    /// operation always succeeds.
    pub fn transfer(&mut self, actor: AccountId, to: AccountId, kitty_id: KittyIndex) -> (r:
        Result<(), Error>)
        requires
            old(self).wf(),
        ensures
            final(self).wf(),
            r == Ok::<(), Error>(()),
            transfer_ok(old(self)@, final(self)@, actor, to, kitty_id),
    {
        self.owners.set_owner(kitty_id, to);
        self.events.push(Event::Transfered(actor, to, kitty_id));
        Ok(())
    }

    /// Breed an offspring from `kitty_id_1` and `kitty_id_2` for `sender`
    /// and return its id: the whole transition of [`breed_ok`], without the
    /// event.  On any error nothing changes.
    pub fn do_breed(&mut self, sender: AccountId, kitty_id_1: KittyIndex, kitty_id_2: KittyIndex)
        -> (r: Result<KittyIndex, Error>)
        requires
            old(self).wf(),
        ensures
            final(self).wf(),
            r is Ok <==> can_breed(old(self)@, kitty_id_1, kitty_id_2),
            r is Ok ==> r == Ok::<KittyIndex, Error>(old(self)@.kitties.len() as KittyIndex)
                && breed_ok(old(self)@, final(self)@, sender, kitty_id_1, kitty_id_2)
                && final(self)@.events == old(self)@.events,
            r is Err ==> final(self)@ == old(self)@ && r == Err::<KittyIndex, Error>(
                breed_err(old(self)@, kitty_id_1, kitty_id_2),
            ),
    {
        let n = self.kitties.len();
        if (kitty_id_1 as usize) >= n || (kitty_id_2 as usize) >= n {
            return Err(Error::InvalidKittyId);
        }
        if kitty_id_1 == kitty_id_2 {
            return Err(Error::ParentsTheSame);
        }
        let kitty_id = match self.allocator.next_id() {
            Ok(id) => id,
            Err(e) => {
                return Err(e);
            },
        };
        let ghost pre = self@;
        let ghost nn = pre.kitties.len() as int;

        let kitty1 = self.kitties[kitty_id_1 as usize].duplicate();
        let kitty2 = self.kitties[kitty_id_2 as usize].duplicate();
        proof {
            assert(kitty1@ == pre.kitties[kitty_id_1 as int]);
            assert(kitty2@ == pre.kitties[kitty_id_2 as int]);
            assert(pre.kitties[kitty_id_1 as int].wf_rel_in(nn));
            assert(pre.kitties[kitty_id_2 as int].wf_rel_in(nn));
            assert(pre.kitties[kitty_id_1 as int].dna.len() == 16);
            assert(pre.kitties[kitty_id_2 as int].dna.len() == 16);
        }
        let selector = self.entropy.derive(sender);
        let new_dna = combine(&kitty1.dna, &kitty2.dna, &selector);

        // the offspring's sibling set: both parents' children, deduplicated
        let mut brothers = copy_ids(&kitty1.children);
        let ghost c2 = kitty2.children@;
        proof {
            assert(c2.skip(0) =~= c2);
        }
        let mut j: usize = 0;
        while j < kitty2.children.len()
            invariant
                j <= c2.len(),
                c2 == kitty2.children@,
                dedup_push(brothers@, c2.skip(j as int)) == union_children(
                    kitty1.children@,
                    c2,
                ),
            decreases c2.len() - j,
        {
            proof {
                assert(c2.skip(j as int)[0] == c2[j as int]);
                assert(c2.skip(j as int).drop_first() =~= c2.skip(j as int + 1));
            }
            let c = kitty2.children[j];
            if !contains_id(&brothers, c) {
                brothers.push(c);
            }
            j = j + 1;
        }
        proof {
            assert(c2.skip(c2.len() as int) =~= Seq::<KittyIndex>::empty());
            assert(brothers@ == union_children(kitty1.children@, c2));
        }

        let ghost off = offspring_kitty(pre, sender, kitty_id_1, kitty_id_2);
        let ghost bros = off.brothers;
        let ghost mated = pre.kitties[kitty_id_1 as int].mates.contains(kitty_id_2);
        proof {
            lemma_dedup_push_props(kitty1.children@, c2, nn);
        }

        let new_kitty = Kitty {
            dna: new_dna,
            parents: Some((kitty_id_1, kitty_id_2)),
            mates: Vec::new(),
            brothers: copy_ids(&brothers),
            children: Vec::new(),
        };
        proof {
            assert(new_kitty@ =~= off);
        }
        self.insert_kitties(sender, kitty_id, new_kitty);
        let ghost s1 = self@;
        proof {
            assert(s1.kitties.len() == nn + 1);
            assert(s1.kitties[nn] == off);
            assert forall|i: int| 0 <= i < nn implies #[trigger] s1.kitties[i] == sib_phase(
                pre.kitties[i],
                i,
                kitty_id,
                bros.take(0),
            ) by {
                assert(s1.kitties[i] == pre.kitties.push(off)[i]);
                assert(bros.take(0) =~= Seq::<KittyIndex>::empty());
                assert(s1.kitties[i] =~= sib_phase(pre.kitties[i], i, kitty_id, bros.take(0)));
            }
        }

        // each sibling gains the back-edge to the offspring
        let mut t: usize = 0;
        while t < brothers.len()
            invariant
                t <= bros.len(),
                brothers@ == bros,
                bros.no_duplicates(),
                valid_ids(bros, nn),
                0 <= nn,
                nn == pre.kitties.len(),
                nn + 1 == self@.kitties.len(),
                nn + 1 <= KittyIndex::MAX,
                kitty_id == nn as KittyIndex,
                self@.owners == s1.owners,
                self@.whos == s1.whos,
                self@.entropy == s1.entropy,
                self@.events == s1.events,
                self.allocator.counter() == self@.kitties.len(),
                self@.kitties[nn] == off,
                forall|i: int|
                    0 <= i < nn ==> #[trigger] self@.kitties[i] == sib_phase(
                        pre.kitties[i],
                        i,
                        kitty_id,
                        bros.take(t as int),
                    ),
            decreases bros.len() - t,
        {
            broadcast use vstd::seq_lib::lemma_seq_contains_after_push;

            let b = brothers[t];
            proof {
                assert(bros[t as int] < nn);
                assert(!bros.take(t as int).contains(b)) by {
                    if bros.take(t as int).contains(b) {
                        let w = choose|w: int|
                            0 <= w < t && bros.take(t as int)[w] == b;
                        assert(bros[w] == bros[t as int]);
                    }
                }
            }
            let ghost before = self@;
            let mut kb = self.kitties[b as usize].duplicate();
            proof {
                assert(kb@ == before.kitties[b as int]);
            }
            kb.brothers.push(kitty_id);
            self.kitties.set(b as usize, kb);
            proof {
                assert(((b as int) as KittyIndex) == b);
                assert(bros.take(t as int + 1) =~= bros.take(t as int).push(b));
                assert(self@.kitties =~= before.kitties.update(b as int, kb@));
                assert forall|i: int|
                    0 <= i < nn implies #[trigger] self@.kitties[i] == sib_phase(
                        pre.kitties[i],
                        i,
                        kitty_id,
                        bros.take(t as int + 1),
                    ) by {
                    assert(before.kitties[i] == sib_phase(
                        pre.kitties[i],
                        i,
                        kitty_id,
                        bros.take(t as int),
                    ));
                    if i == b as int {
                        assert(self@.kitties[i] == kb@);
                        assert(bros.take(t as int + 1).contains(b));
                        assert(kb@.brothers == pre.kitties[i].brothers.push(kitty_id));
                        assert(self@.kitties[i] =~= sib_phase(
                            pre.kitties[i],
                            i,
                            kitty_id,
                            bros.take(t as int + 1),
                        ));
                    } else {
                        assert(self@.kitties[i] == before.kitties[i]);
                        assert((i as KittyIndex) != b);
                        assert(bros.take(t as int + 1).contains(i as KittyIndex) == bros.take(
                            t as int,
                        ).contains(i as KittyIndex));
                        assert(self@.kitties[i] =~= sib_phase(
                            pre.kitties[i],
                            i,
                            kitty_id,
                            bros.take(t as int + 1),
                        ));
                    }
                }
            }
            t = t + 1;
        }
        proof {
            assert(bros.take(bros.len() as int) =~= bros);
        }
        let ghost s2 = self@;

        // the parents become mates, unless they already were
        let exist = contains_id(&kitty1.mates, kitty_id_2);
        if !exist {
            let mut k1 = self.kitties[kitty_id_1 as usize].duplicate();
            k1.mates.push(kitty_id_2);
            self.kitties.set(kitty_id_1 as usize, k1);
            let mut k2 = self.kitties[kitty_id_2 as usize].duplicate();
            k2.mates.push(kitty_id_1);
            self.kitties.set(kitty_id_2 as usize, k2);
        }
        let ghost s3 = self@;

        // the offspring is a child of both parents
        let mut c1 = self.kitties[kitty_id_1 as usize].duplicate();
        c1.children.push(kitty_id);
        self.kitties.set(kitty_id_1 as usize, c1);
        let mut cc2 = self.kitties[kitty_id_2 as usize].duplicate();
        cc2.children.push(kitty_id);
        self.kitties.set(kitty_id_2 as usize, cc2);

        proof {
            let post = self@;
            assert(post.kitties[nn] == off);
            assert forall|i: int|
                0 <= i < nn implies #[trigger] post.kitties[i] == breed_update(
                    pre.kitties[i],
                    i,
                    kitty_id_1,
                    kitty_id_2,
                    kitty_id,
                    bros,
                    mated,
                ) by {
                assert(s2.kitties[i] == sib_phase(pre.kitties[i], i, kitty_id, bros));
                if i == kitty_id_1 as int {
                    assert(post.kitties[i] =~= breed_update(
                        pre.kitties[i],
                        i,
                        kitty_id_1,
                        kitty_id_2,
                        kitty_id,
                        bros,
                        mated,
                    ));
                } else if i == kitty_id_2 as int {
                    assert(post.kitties[i] =~= breed_update(
                        pre.kitties[i],
                        i,
                        kitty_id_1,
                        kitty_id_2,
                        kitty_id,
                        bros,
                        mated,
                    ));
                } else {
                    assert(post.kitties[i] == s2.kitties[i]);
                    assert(post.kitties[i] =~= breed_update(
                        pre.kitties[i],
                        i,
                        kitty_id_1,
                        kitty_id_2,
                        kitty_id,
                        bros,
                        mated,
                    ));
                }
            }
            assert(breed_ok(pre, post, sender, kitty_id_1, kitty_id_2));
            lemma_breed_preserves_graph_wf(
                pre.kitties,
                post.kitties,
                kitty_id_1,
                kitty_id_2,
                kitty_id,
                bros,
                mated,
            );
            assert(dna_wf(post.kitties)) by {
                assert forall|i: int|
                    0 <= i < post.kitties.len() implies (#[trigger] post.kitties[i]).dna.len()
                    == 16 by {
                    if i < nn {
                        assert(pre.kitties[i].dna.len() == 16);
                    } else {
                        assert(post.kitties[i] == off);
                    }
                }
            }
        }
        Ok(kitty_id)
    }

    /// Run the breeding of [`do_breed`] for `sender` and emit the event.
    /// Both ids must resolve (`InvalidKittyId`, `kitty_id_1` checked first)
    /// and differ (`ParentsTheSame`); the id space must not be exhausted
    /// (`KittiesCountOverflow`).  On any error nothing changes and no event
    /// is emitted.
    pub fn breed(&mut self, sender: AccountId, kitty_id_1: KittyIndex, kitty_id_2: KittyIndex)
        -> (r: Result<(), Error>)
        requires
            old(self).wf(),
        ensures
            final(self).wf(),
            r is Ok <==> can_breed(old(self)@, kitty_id_1, kitty_id_2),
            r is Ok ==> breed_ok(old(self)@, final(self)@, sender, kitty_id_1, kitty_id_2)
                && final(self)@.events == old(self)@.events.push(
                Event::Breeded(sender, old(self)@.kitties.len() as KittyIndex),
            ),
            r is Err ==> final(self)@ == old(self)@ && r == Err::<(), Error>(
                breed_err(old(self)@, kitty_id_1, kitty_id_2),
            ),
    {
        if self.kitties(kitty_id_1).is_none() {
            return Err(Error::InvalidKittyId);
        }
        if self.kitties(kitty_id_2).is_none() {
            return Err(Error::InvalidKittyId);
        }
        if kitty_id_1 == kitty_id_2 {
            return Err(Error::ParentsTheSame);
        }
        let new_kitty_id = match self.do_breed(sender, kitty_id_1, kitty_id_2) {
            Ok(id) => id,
            Err(e) => {
                return Err(e);
            },
        };
        self.events.push(Event::Breeded(sender, new_kitty_id));
        Ok(())
    }
}

/// `rest`, deduplicated from the front against `acc` and appended to it.
pub open spec fn dedup_push(acc: Seq<KittyIndex>, rest: Seq<KittyIndex>) -> Seq<KittyIndex>
    decreases rest.len(),
{
    if rest.len() == 0 {
        acc
    } else if acc.contains(rest[0]) {
        dedup_push(acc, rest.drop_first())
    } else {
        dedup_push(acc.push(rest[0]), rest.drop_first())
    }
}

/// The offspring's sibling set: both parents' pre-breed children, the first
/// parent's list followed by the second's with repeats dropped.
pub open spec fn union_children(c1: Seq<KittyIndex>, c2: Seq<KittyIndex>) -> Seq<KittyIndex> {
    dedup_push(c1, c2)
}

/// What [`dedup_push`] builds: exactly the ids of both lists, without new
/// repeats, and ids stay valid.
pub proof fn lemma_dedup_push_props(acc: Seq<KittyIndex>, rest: Seq<KittyIndex>, n: int)
    requires
        acc.no_duplicates(),
        valid_ids(acc, n),
        valid_ids(rest, n),
    ensures
        dedup_push(acc, rest).no_duplicates(),
        valid_ids(dedup_push(acc, rest), n),
        forall|x: KittyIndex| #[trigger]
            dedup_push(acc, rest).contains(x) <==> acc.contains(x) || rest.contains(x),
    decreases rest.len(),
{
    broadcast use vstd::seq_lib::lemma_seq_contains_after_push;

    if rest.len() == 0 {
    } else {
        let r2 = rest.drop_first();
        assert forall|x: KittyIndex|
            rest.contains(x) <==> (x == rest[0] || r2.contains(x)) by {
            if rest.contains(x) {
                let i = choose|i: int| 0 <= i < rest.len() && rest[i] == x;
                if i > 0 {
                    assert(r2[i - 1] == x);
                }
            }
            if r2.contains(x) {
                let i = choose|i: int| 0 <= i < r2.len() && r2[i] == x;
                assert(rest[i + 1] == x);
            }
        }
        assert(valid_ids(r2, n)) by {
            assert forall|i: int| 0 <= i < r2.len() implies (#[trigger] r2[i]) < n by {
                assert(r2[i] == rest[i + 1]);
            }
        }
        if acc.contains(rest[0]) {
            lemma_dedup_push_props(acc, r2, n);
        } else {
            assert(rest[0] < n);
            lemma_push_no_dup(acc, rest[0]);
            assert(valid_ids(acc.push(rest[0]), n)) by {
                assert forall|i: int|
                    0 <= i < acc.push(rest[0]).len() implies (#[trigger] acc.push(rest[0])[i])
                    < n by {
                    if i < acc.len() {
                        assert(acc[i] < n);
                    }
                }
            }
            lemma_dedup_push_props(acc.push(rest[0]), r2, n);
        }
    }
}

/// Pushing a fresh element keeps a sequence free of repeats.
pub proof fn lemma_push_no_dup(s: Seq<KittyIndex>, x: KittyIndex)
    requires
        s.no_duplicates(),
        !s.contains(x),
    ensures
        s.push(x).no_duplicates(),
{
    assert forall|i: int, j: int|
        0 <= i < s.push(x).len() && 0 <= j < s.push(x).len() && i != j implies s.push(x)[i] != s.push(
        x,
    )[j] by {
        if j == s.len() && s.push(x)[i] == x {
            assert(s[i] == x);
        }
        if i == s.len() && s.push(x)[j] == x {
            assert(s[j] == x);
        }
    }
}

/// A sequence of ids below `n` never holds an id at or above `n`.
pub proof fn lemma_valid_not_contains(s: Seq<KittyIndex>, n: int, x: KittyIndex)
    requires
        valid_ids(s, n),
        x >= n,
    ensures
        !s.contains(x),
{
    if s.contains(x) {
        let i = choose|i: int| 0 <= i < s.len() && s[i] == x;
        assert(s[i] < n);
    }
}

/// How a pre-existing entity changes when `new_id` is bred from `id1` and
/// `id2` with sibling set `bros`: sibling-set members gain the back-edge to
/// the offspring, both parents gain a child, and — unless `mated`, i.e.
/// they already were mates — each parent gains the other as a mate.
pub open spec fn breed_update(
    k: KittyView,
    i: int,
    id1: KittyIndex,
    id2: KittyIndex,
    new_id: KittyIndex,
    bros: Seq<KittyIndex>,
    mated: bool,
) -> KittyView {
    KittyView {
        dna: k.dna,
        parents: k.parents,
        brothers: if bros.contains(i as KittyIndex) {
            k.brothers.push(new_id)
        } else {
            k.brothers
        },
        mates: if !mated && i == id1 {
            k.mates.push(id2)
        } else if !mated && i == id2 {
            k.mates.push(id1)
        } else {
            k.mates
        },
        children: if i == id1 || i == id2 {
            k.children.push(new_id)
        } else {
            k.children
        },
    }
}

/// An entity after the sibling phase alone: members of `done` carry the
/// back-edge to `new_id`, everything else is untouched.
spec fn sib_phase(k: KittyView, i: int, new_id: KittyIndex, done: Seq<KittyIndex>) -> KittyView {
    KittyView {
        dna: k.dna,
        parents: k.parents,
        brothers: if done.contains(i as KittyIndex) {
            k.brothers.push(new_id)
        } else {
            k.brothers
        },
        mates: k.mates,
        children: k.children,
    }
}

/// The offspring of breeding `id1` with `id2` for `actor` in state `pre`.
pub open spec fn offspring_kitty(
    pre: ModuleView,
    actor: AccountId,
    id1: KittyIndex,
    id2: KittyIndex,
) -> KittyView {
    KittyView {
        dna: combine_seq(
            pre.kitties[id1 as int].dna,
            pre.kitties[id2 as int].dna,
            entropy_of(pre.entropy, actor),
        ),
        parents: Some((id1, id2)),
        mates: Seq::empty(),
        brothers: union_children(pre.kitties[id1 as int].children, pre.kitties[id2 as int].children),
        children: Seq::empty(),
    }
}

/// Breeding is allowed: both parents resolve, are distinct, and an id is
/// still free.
pub open spec fn can_breed(pre: ModuleView, id1: KittyIndex, id2: KittyIndex) -> bool {
    &&& (id1 as int) < pre.kitties.len()
    &&& (id2 as int) < pre.kitties.len()
    &&& id1 != id2
    &&& pre.kitties.len() < KittyIndex::MAX
}

/// The error a disallowed breeding surfaces: a missing id is reported first
/// (`id1` before `id2`), then self-breeding, then id-space exhaustion.
pub open spec fn breed_err(pre: ModuleView, id1: KittyIndex, id2: KittyIndex) -> Error {
    if (id1 as int) >= pre.kitties.len() || (id2 as int) >= pre.kitties.len() {
        Error::InvalidKittyId
    } else if id1 == id2 {
        Error::ParentsTheSame
    } else {
        Error::KittiesCountOverflow
    }
}

/// The breeding transition: the offspring is appended under the next id
/// with the combined genetic data and the pre-breed sibling set, every
/// sibling gains the back-edge, both parents gain the child and (if not
/// already mates) each other, the owner records are updated and one counter
/// value is consumed.  (The emitted event is stated beside this predicate.)
pub open spec fn breed_ok(
    pre: ModuleView,
    post: ModuleView,
    actor: AccountId,
    id1: KittyIndex,
    id2: KittyIndex,
) -> bool {
    let n = pre.kitties.len() as int;
    let new_id = pre.kitties.len() as KittyIndex;
    let off = offspring_kitty(pre, actor, id1, id2);
    let bros = off.brothers;
    let mated = pre.kitties[id1 as int].mates.contains(id2);
    &&& can_breed(pre, id1, id2)
    &&& post.kitties.len() == n + 1
    &&& post.kitties[n] == off
    &&& forall|i: int|
        0 <= i < n ==> #[trigger] post.kitties[i] == breed_update(
            pre.kitties[i],
            i,
            id1,
            id2,
            new_id,
            bros,
            mated,
        )
    &&& post.owners == pre.owners.insert(new_id, actor)
    &&& post.whos == pre.whos.insert(actor, off)
    &&& post.entropy.seed == pre.entropy.seed
    &&& post.entropy.nonce == next_nonce(pre.entropy.nonce)
}

/// Appending a relation-free, well-formed entity keeps the stored graph
/// well-formed.
proof fn lemma_create_preserves_graph_wf(pre: Seq<KittyView>, post: Seq<KittyView>)
    requires
        graph_wf(pre),
        pre.len() < KittyIndex::MAX,
        post.len() == pre.len() + 1,
        forall|i: int| 0 <= i < pre.len() ==> post[i] == pre[i],
        post.last().parents is None,
        post.last().mates == Seq::<KittyIndex>::empty(),
        post.last().brothers == Seq::<KittyIndex>::empty(),
        post.last().children == Seq::<KittyIndex>::empty(),
    ensures
        graph_wf(post),
{
    let n = post.len() as int;
    assert forall|i: int| 0 <= i < post.len() implies (#[trigger] post[i]).wf_rel_in(n) by {
        if i < pre.len() {
            assert(pre[i].wf_rel_in(pre.len() as int));
        }
    }
    assert forall|i: int, j: int|
        0 <= i < post.len() && 0 <= j < post.len() && #[trigger] post[i].mates.contains(
            j as KittyIndex,
        ) implies post[j].mates.contains(i as KittyIndex) by {
        if i < pre.len() {
            assert(pre[i].mates.contains(j as KittyIndex));
            assert(valid_ids(pre[i].mates, pre.len() as int));
            let w = choose|w: int| 0 <= w < pre[i].mates.len() && pre[i].mates[w] == j as KittyIndex;
            assert(pre[i].mates[w] < pre.len());
            assert(pre[j].mates.contains(i as KittyIndex));
        }
    }
}

/// The breeding transition keeps the stored graph well-formed: every pushed
/// id is fresh or checked absent, and the mate edge is added on both sides
/// at once.
pub proof fn lemma_breed_preserves_graph_wf(
    pre: Seq<KittyView>,
    post: Seq<KittyView>,
    id1: KittyIndex,
    id2: KittyIndex,
    new_id: KittyIndex,
    bros: Seq<KittyIndex>,
    mated: bool,
)
    requires
        graph_wf(pre),
        pre.len() < KittyIndex::MAX,
        (id1 as int) < pre.len(),
        (id2 as int) < pre.len(),
        id1 != id2,
        new_id == pre.len(),
        bros.no_duplicates(),
        valid_ids(bros, pre.len() as int),
        mated == pre[id1 as int].mates.contains(id2),
        post.len() == pre.len() + 1,
        forall|i: int|
            0 <= i < pre.len() ==> #[trigger] post[i] == breed_update(
                pre[i],
                i,
                id1,
                id2,
                new_id,
                bros,
                mated,
            ),
        post[pre.len() as int].parents == Some((id1, id2)),
        post[pre.len() as int].mates == Seq::<KittyIndex>::empty(),
        post[pre.len() as int].brothers == bros,
        post[pre.len() as int].children == Seq::<KittyIndex>::empty(),
    ensures
        graph_wf(post),
{
    broadcast use vstd::seq_lib::lemma_seq_contains_after_push;

    let n = pre.len() as int;
    let m = post.len() as int;
    assert forall|i: int| 0 <= i < post.len() implies (#[trigger] post[i]).wf_rel_in(m) by {
        if i < n {
            assert(pre[i].wf_rel_in(n));
            assert(post[i] == breed_update(pre[i], i, id1, id2, new_id, bros, mated));
            // brothers
            lemma_valid_not_contains(pre[i].brothers, n, new_id);
            if bros.contains(i as KittyIndex) {
                lemma_push_no_dup(pre[i].brothers, new_id);
            }
            assert(valid_ids(post[i].brothers, m)) by {
                assert forall|w: int|
                    0 <= w < post[i].brothers.len() implies (#[trigger] post[i].brothers[w])
                    < m by {
                    if w < pre[i].brothers.len() {
                        assert(pre[i].brothers[w] < n);
                    }
                }
            }
            // children
            lemma_valid_not_contains(pre[i].children, n, new_id);
            if i == id1 || i == id2 {
                lemma_push_no_dup(pre[i].children, new_id);
            }
            assert(valid_ids(post[i].children, m)) by {
                assert forall|w: int|
                    0 <= w < post[i].children.len() implies (#[trigger] post[i].children[w])
                    < m by {
                    if w < pre[i].children.len() {
                        assert(pre[i].children[w] < n);
                    }
                }
            }
            // mates
            if !mated && i == id1 {
                lemma_push_no_dup(pre[i].mates, id2);
            }
            if !mated && i == id2 {
                assert(!pre[id2 as int].mates.contains(id1)) by {
                    if pre[id2 as int].mates.contains(id1) {
                        assert(((id1 as int) as KittyIndex) == id1);
                        assert(((id2 as int) as KittyIndex) == id2);
                        assert(pre[id2 as int].mates.contains((id1 as int) as KittyIndex));
                        assert(pre[id1 as int].mates.contains(id2));
                    }
                }
                lemma_push_no_dup(pre[i].mates, id1);
            }
            assert(valid_ids(post[i].mates, m)) by {
                assert forall|w: int|
                    0 <= w < post[i].mates.len() implies (#[trigger] post[i].mates[w]) < m by {
                    if w < pre[i].mates.len() {
                        assert(pre[i].mates[w] < n);
                    }
                }
            }
        } else {
            assert(post[i] == post[n]);
            assert(valid_ids(bros, m)) by {
                assert forall|w: int| 0 <= w < bros.len() implies (#[trigger] bros[w]) < m by {
                    assert(bros[w] < n);
                }
            }
        }
    }
    assert forall|i: int, j: int|
        0 <= i < post.len() && 0 <= j < post.len() && #[trigger] post[i].mates.contains(
            j as KittyIndex,
        ) implies post[j].mates.contains(i as KittyIndex) by {
        if i < n {
            // the mate lists of stored entities never name the offspring
            if j == n {
                assert(valid_ids(pre[i].mates, n));
                lemma_valid_not_contains(pre[i].mates, n, new_id);
                assert(pre[i].mates.contains(new_id) == false);
                assert(post[i].mates.contains(j as KittyIndex));
                assert(false);
            } else {
                let iu = i as KittyIndex;
                let ju = j as KittyIndex;
                if !mated && i == id1 && ju == id2 {
                    assert(post[j].mates == pre[j].mates.push(id1));
                    assert(post[j].mates.contains(iu));
                } else if !mated && i == id2 && ju == id1 {
                    assert(post[j].mates == pre[j].mates.push(id2));
                    assert(post[j].mates.contains(iu));
                } else {
                    assert(pre[i].mates.contains(ju));
                    assert(pre[j].mates.contains(iu));
                    assert(post[j].mates.contains(iu));
                }
            }
        } else {
            assert(post[i] == post[n]);
        }
    }
}

} // verus!
