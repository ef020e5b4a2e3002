//! The laws of the registry: properties that relate several operations,
//! stated over the transition predicates the operations' contracts use.

#![allow(unused_imports)]
use crate::registry::{
    breed_err, breed_ok, breed_update, can_breed, create_ok, dna_wf, graph_wf,
    lemma_dedup_push_props, offspring_kitty, transfer_ok, wf_view, ModuleView,
};
use crate::{AccountId, Error, KittyIndex};
use vstd::prelude::*;

verus! {

/// Some creating operation (a creation or a breeding) leads from `pre` to
/// `post`.
pub open spec fn creation_step(pre: ModuleView, post: ModuleView) -> bool {
    ||| exists|a: AccountId| create_ok(pre, post, a)
    ||| exists|a: AccountId, i: KittyIndex, j: KittyIndex| breed_ok(pre, post, a, i, j)
}

/// The id a creating operation run in state `pre` assigns.
pub open spec fn assigned_id(pre: ModuleView) -> KittyIndex {
    pre.kitties.len() as KittyIndex
}

/// Across any two successive successful creating operations the assigned
/// ids are strictly increasing by exactly one, so ids never repeat.
pub proof fn lemma_ids_strictly_increase(s0: ModuleView, s1: ModuleView, s2: ModuleView)
    requires
        creation_step(s0, s1),
        creation_step(s1, s2),
    ensures
        s1.kitties.len() == s0.kitties.len() + 1,
        assigned_id(s1) == assigned_id(s0) + 1,
        assigned_id(s1) != assigned_id(s0),
{
    if exists|a: AccountId| create_ok(s0, s1, a) {
        let a = choose|a: AccountId| create_ok(s0, s1, a);
        assert(s1.kitties.len() == s0.kitties.len() + 1);
    } else {
        let (a, i, j) = choose|a: AccountId, i: KittyIndex, j: KittyIndex|
            breed_ok(s0, s1, a, i, j);
        assert(s1.kitties.len() == s0.kitties.len() + 1);
    }
    if exists|a: AccountId| create_ok(s1, s2, a) {
        let a = choose|a: AccountId| create_ok(s1, s2, a);
        assert(s1.kitties.len() < KittyIndex::MAX);
    } else {
        let (a, i, j) = choose|a: AccountId, i: KittyIndex, j: KittyIndex|
            breed_ok(s1, s2, a, i, j);
        assert(s1.kitties.len() < KittyIndex::MAX);
    }
}

/// Breeding an entity with itself is refused as `ParentsTheSame` whenever
/// the id resolves.  (An id that does not resolve is reported first, as
/// `InvalidKittyId`: existence is checked before the self-breeding rule.)
pub proof fn lemma_breed_same_parents(pre: ModuleView, id: KittyIndex)
    requires
        (id as int) < pre.kitties.len(),
    ensures
        breed_err(pre, id, id) == Error::ParentsTheSame,
        !can_breed(pre, id, id),
{
}

/// Breeding with an id that does not resolve is refused as
/// `InvalidKittyId`, whatever the other id is — also when both ids are
/// missing, since `id1` is checked first and both report the same error.
pub proof fn lemma_breed_invalid_id(pre: ModuleView, id1: KittyIndex, id2: KittyIndex)
    requires
        (id1 as int) >= pre.kitties.len() || (id2 as int) >= pre.kitties.len(),
    ensures
        breed_err(pre, id1, id2) == Error::InvalidKittyId,
        !can_breed(pre, id1, id2),
{
}

/// The breeding transition keeps the registry state well-formed.  (The
/// offspring's genetic data is a combination of two 16-byte payloads, so
/// it is 16 bytes itself.)
pub proof fn lemma_breed_preserves_wf_view(
    pre: ModuleView,
    post: ModuleView,
    actor: AccountId,
    id1: KittyIndex,
    id2: KittyIndex,
)
    requires
        wf_view(pre),
        breed_ok(pre, post, actor, id1, id2),
    ensures
        wf_view(post),
{
    broadcast use vstd::seq_lib::lemma_seq_contains_after_push;

    let n = pre.kitties.len() as int;
    let new_id = pre.kitties.len() as KittyIndex;
    let off = offspring_kitty(pre, actor, id1, id2);
    let bros = off.brothers;
    let mated = pre.kitties[id1 as int].mates.contains(id2);
    assert(pre.kitties[id1 as int].wf_rel_in(n));
    assert(pre.kitties[id2 as int].wf_rel_in(n));
    lemma_dedup_push_props(pre.kitties[id1 as int].children, pre.kitties[id2 as int].children, n);
    crate::registry::lemma_breed_preserves_graph_wf(
        pre.kitties,
        post.kitties,
        id1,
        id2,
        new_id,
        bros,
        mated,
    );
    assert(dna_wf(post.kitties)) by {
        assert forall|i: int|
            0 <= i < post.kitties.len() implies (#[trigger] post.kitties[i]).dna.len() == 16 by {
            if i < n {
                assert(pre.kitties[i].dna.len() == 16);
                assert(post.kitties[i] == breed_update(
                    pre.kitties[i],
                    i,
                    id1,
                    id2,
                    new_id,
                    bros,
                    mated,
                ));
            } else {
                assert(post.kitties[i] == off);
                assert(pre.kitties[id1 as int].dna.len() == 16);
            }
        }
    }
}

/// After a successful breeding: the offspring is a child of both parents;
/// its parents are exactly `(id1, id2)`; its sibling set equals the union
/// of both parents' pre-breed children; and every member of that union now
/// lists the offspring among its own brothers.
pub proof fn lemma_breed_links(
    pre: ModuleView,
    post: ModuleView,
    actor: AccountId,
    id1: KittyIndex,
    id2: KittyIndex,
)
    requires
        wf_view(pre),
        breed_ok(pre, post, actor, id1, id2),
    ensures
        post.kitties[id1 as int].children.contains(pre.kitties.len() as KittyIndex),
        post.kitties[id2 as int].children.contains(pre.kitties.len() as KittyIndex),
        post.kitties[pre.kitties.len() as int].parents == Some((id1, id2)),
        post.kitties[pre.kitties.len() as int].brothers.to_set() == pre.kitties[id1 as int].children.to_set() + pre.kitties[id2 as int].children.to_set(),
        forall|b: KittyIndex|
            pre.kitties[id1 as int].children.contains(b) || pre.kitties[id2 as int].children.contains(b)
                ==> #[trigger] post.kitties[b as int].brothers.contains(pre.kitties.len() as KittyIndex),
{
    broadcast use vstd::seq_lib::lemma_seq_contains_after_push;

    let n = pre.kitties.len() as int;
    let new_id = pre.kitties.len() as KittyIndex;
    let off = offspring_kitty(pre, actor, id1, id2);
    let bros = off.brothers;
    let mated = pre.kitties[id1 as int].mates.contains(id2);
    let c1 = pre.kitties[id1 as int].children;
    let c2 = pre.kitties[id2 as int].children;
    assert(pre.kitties[id1 as int].wf_rel_in(n));
    assert(pre.kitties[id2 as int].wf_rel_in(n));
    lemma_dedup_push_props(c1, c2, n);

    assert(post.kitties[id1 as int] == breed_update(
        pre.kitties[id1 as int],
        id1 as int,
        id1,
        id2,
        new_id,
        bros,
        mated,
    ));
    assert(post.kitties[id2 as int] == breed_update(
        pre.kitties[id2 as int],
        id2 as int,
        id1,
        id2,
        new_id,
        bros,
        mated,
    ));
    assert(post.kitties[id1 as int].children.contains(new_id));
    assert(post.kitties[id2 as int].children.contains(new_id));
    assert(post.kitties[n] == off);
    assert(bros.to_set() =~= c1.to_set() + c2.to_set());
    assert forall|b: KittyIndex|
        c1.contains(b) || c2.contains(b) implies #[trigger] post.kitties[b as int].brothers.contains(new_id) by {
        assert(bros.contains(b));
        assert((b as int) < n) by {
            if c1.contains(b) {
                let w = choose|w: int| 0 <= w < c1.len() && c1[w] == b;
                assert(c1[w] < n);
            } else {
                let w = choose|w: int| 0 <= w < c2.len() && c2[w] == b;
                assert(c2[w] < n);
            }
        }
        assert(post.kitties[b as int] == breed_update(
            pre.kitties[b as int],
            b as int,
            id1,
            id2,
            new_id,
            bros,
            mated,
        ));
        assert(((b as int) as KittyIndex) == b);
        assert(post.kitties[b as int].brothers == pre.kitties[b as int].brothers.push(new_id));
    }
}

/// Breeding the same pair twice assigns two distinct offspring ids and
/// does not duplicate the mate edge: the second breeding leaves both mate
/// lists unchanged, and each parent lists the other exactly once.
pub proof fn lemma_breed_twice(
    s0: ModuleView,
    s1: ModuleView,
    s2: ModuleView,
    a1: AccountId,
    a2: AccountId,
    id1: KittyIndex,
    id2: KittyIndex,
)
    requires
        wf_view(s0),
        breed_ok(s0, s1, a1, id1, id2),
        breed_ok(s1, s2, a2, id1, id2),
    ensures
        assigned_id(s1) == assigned_id(s0) + 1,
        s2.kitties[id1 as int].mates == s1.kitties[id1 as int].mates,
        s2.kitties[id2 as int].mates == s1.kitties[id2 as int].mates,
        s2.kitties[id1 as int].mates.contains(id2),
        s2.kitties[id2 as int].mates.contains(id1),
        s2.kitties[id1 as int].mates.no_duplicates(),
        s2.kitties[id2 as int].mates.no_duplicates(),
{
    broadcast use vstd::seq_lib::lemma_seq_contains_after_push;

    lemma_breed_preserves_wf_view(s0, s1, a1, id1, id2);
    lemma_breed_preserves_wf_view(s1, s2, a2, id1, id2);
    let n0 = s0.kitties.len() as int;
    let bros0 = offspring_kitty(s0, a1, id1, id2).brothers;
    let mated0 = s0.kitties[id1 as int].mates.contains(id2);
    assert(s1.kitties[id1 as int] == breed_update(
        s0.kitties[id1 as int],
        id1 as int,
        id1,
        id2,
        s0.kitties.len() as KittyIndex,
        bros0,
        mated0,
    ));
    assert(s1.kitties[id1 as int].mates.contains(id2));
    let n1 = s1.kitties.len() as int;
    let bros1 = offspring_kitty(s1, a2, id1, id2).brothers;
    let mated1 = s1.kitties[id1 as int].mates.contains(id2);
    assert(mated1);
    assert(s2.kitties[id1 as int] == breed_update(
        s1.kitties[id1 as int],
        id1 as int,
        id1,
        id2,
        s1.kitties.len() as KittyIndex,
        bros1,
        mated1,
    ));
    assert(s2.kitties[id2 as int] == breed_update(
        s1.kitties[id2 as int],
        id2 as int,
        id1,
        id2,
        s1.kitties.len() as KittyIndex,
        bros1,
        mated1,
    ));
    assert(s2.kitties[id2 as int].mates.contains(id1)) by {
        assert(((id1 as int) as KittyIndex) == id1);
        assert(((id2 as int) as KittyIndex) == id2);
        assert(s2.kitties[id1 as int].mates.contains((id2 as int) as KittyIndex));
        assert(graph_wf(s2.kitties));
    }
    assert(s2.kitties[id1 as int].wf_rel_in(s2.kitties.len() as int));
    assert(s2.kitties[id2 as int].wf_rel_in(s2.kitties.len() as int));
}

/// A transfer succeeds from every state — nothing requires that `id` names
/// a stored entity or that `actor` is the recorded owner — and afterwards
/// the ownership lookup of `id` resolves to exactly `to`.  The entities and
/// every other owner record are untouched.
pub proof fn lemma_transfer_unchecked(
    pre: ModuleView,
    post: ModuleView,
    actor: AccountId,
    to: AccountId,
    id: KittyIndex,
)
    requires
        transfer_ok(pre, post, actor, to, id),
    ensures
        post.owners.contains_key(id),
        post.owners[id] == to,
        post.kitties == pre.kitties,
        forall|k: KittyIndex|
            k != id ==> (#[trigger] post.owners.contains_key(k)) == pre.owners.contains_key(k),
        forall|k: KittyIndex|
            k != id && pre.owners.contains_key(k) ==> #[trigger] post.owners[k] == pre.owners[k],
{
}

} // verus!
