//! The entity record and the genetic-data combination rule.

#![allow(unused_imports)]
use crate::KittyIndex;
use vstd::prelude::*;

verus! {

/// An entity of the registry.  `dna` is always exactly 16 bytes; the four
/// relation lists hold ids of other entities and form the genealogy graph.
pub struct Kitty {
    pub dna: Vec<u8>,
    /// `None` for a genesis entity; `Some((a, b))` with `a != b` for an
    /// entity produced by breeding `a` with `b`.
    pub parents: Option<(KittyIndex, KittyIndex)>,
    pub mates: Vec<KittyIndex>,
    pub brothers: Vec<KittyIndex>,
    pub children: Vec<KittyIndex>,
}

/// The mathematical shadow of a [`Kitty`]: the same record over sequences.
#[verifier::ext_equal]
pub ghost struct KittyView {
    pub dna: Seq<u8>,
    pub parents: Option<(KittyIndex, KittyIndex)>,
    pub mates: Seq<KittyIndex>,
    pub brothers: Seq<KittyIndex>,
    pub children: Seq<KittyIndex>,
}

impl View for Kitty {
    type V = KittyView;

    open spec fn view(&self) -> KittyView {
        KittyView {
            dna: self.dna@,
            parents: self.parents,
            mates: self.mates@,
            brothers: self.brothers@,
            children: self.children@,
        }
    }
}

/// Every id of `ids` names an entity of a registry that holds `n` entities.
pub open spec fn valid_ids(ids: Seq<KittyIndex>, n: int) -> bool {
    forall|i: int| 0 <= i < ids.len() ==> (#[trigger] ids[i]) < n
}

impl KittyView {
    /// Relation well-formedness of one entity inside a registry of `n`
    /// entities: the parents (if any) are two distinct stored entities, and
    /// each relation list holds stored ids without repeats.
    pub open spec fn wf_rel_in(self, n: int) -> bool {
        &&& match self.parents {
            Some(p) => p.0 != p.1 && p.0 < n && p.1 < n,
            None => true,
        }
        &&& valid_ids(self.mates, n) && self.mates.no_duplicates()
        &&& valid_ids(self.brothers, n) && self.brothers.no_duplicates()
        &&& valid_ids(self.children, n) && self.children.no_duplicates()
    }
}

/// An exact copy of a byte vector.
pub fn copy_bytes(v: &Vec<u8>) -> (r: Vec<u8>)
    ensures
        r@ == v@,
{
    let mut r: Vec<u8> = Vec::new();
    let mut i: usize = 0;
    while i < v.len()
        invariant
            i <= v.len(),
            r@ == v@.take(i as int),
        decreases v.len() - i,
    {
        r.push(v[i]);
        i = i + 1;
        proof {
            assert(r@ =~= v@.take(i as int));
        }
    }
    proof {
        assert(r@ =~= v@);
    }
    r
}

/// An exact copy of an id vector.
pub fn copy_ids(v: &Vec<KittyIndex>) -> (r: Vec<KittyIndex>)
    ensures
        r@ == v@,
{
    let mut r: Vec<KittyIndex> = Vec::new();
    let mut i: usize = 0;
    while i < v.len()
        invariant
            i <= v.len(),
            r@ == v@.take(i as int),
        decreases v.len() - i,
    {
        r.push(v[i]);
        i = i + 1;
        proof {
            assert(r@ =~= v@.take(i as int));
        }
    }
    proof {
        assert(r@ =~= v@);
    }
    r
}

/// `x` stands in `v`.
pub fn contains_id(v: &Vec<KittyIndex>, x: KittyIndex) -> (r: bool)
    ensures
        r == v@.contains(x),
{
    let mut i: usize = 0;
    while i < v.len()
        invariant
            i <= v.len(),
            forall|k: int| 0 <= k < i ==> v@[k] != x,
        decreases v.len() - i,
    {
        if v[i] == x {
            return true;
        }
        i = i + 1;
    }
    proof {
        assert(!v@.contains(x));
    }
    false
}

impl Kitty {
    /// An exact copy of the record.
    pub fn duplicate(&self) -> (r: Kitty)
        ensures
            r@ == self@,
    {
        let r = Kitty {
            dna: copy_bytes(&self.dna),
            parents: self.parents,
            mates: copy_ids(&self.mates),
            brothers: copy_ids(&self.brothers),
            children: copy_ids(&self.children),
        };
        proof {
            assert(r@ =~= self@);
        }
        r
    }
}

/// One byte of offspring genetic data: each bit comes from `dna1` where the
/// selector bit is 1, and from `dna2` where it is 0.
pub open spec fn combine_byte(dna1: u8, dna2: u8, selector: u8) -> u8 {
    (selector & dna1) | (!selector & dna2)
}

/// Per-bit multiplexing of two genetic payloads under a selector mask.
pub open spec fn combine_seq(dna1: Seq<u8>, dna2: Seq<u8>, selector: Seq<u8>) -> Seq<u8> {
    Seq::new(dna1.len(), |i: int| combine_byte(dna1[i], dna2[i], selector[i]))
}

/// One byte of offspring genetic data, as [`combine_byte`] states it.
pub fn combine_dna(dna1: u8, dna2: u8, selector: u8) -> (r: u8)
    ensures
        r == combine_byte(dna1, dna2, selector),
{
    (selector & dna1) | (!selector & dna2)
}

/// Genetic-data combination over whole payloads: byte `i` of the result is
/// `(selector[i] & dna1[i]) | (!selector[i] & dna2[i])`.
pub fn combine(dna1: &Vec<u8>, dna2: &Vec<u8>, selector: &Vec<u8>) -> (r: Vec<u8>)
    requires
        dna1@.len() == dna2@.len(),
        dna1@.len() == selector@.len(),
    ensures
        r@ == combine_seq(dna1@, dna2@, selector@),
        r@.len() == dna1@.len(),
        forall|i: int|
            0 <= i < r@.len() ==> r@[i] == combine_byte(dna1@[i], dna2@[i], selector@[i]),
{
    let mut r: Vec<u8> = Vec::new();
    let mut i: usize = 0;
    while i < dna1.len()
        invariant
            i <= dna1@.len(),
            dna1@.len() == dna2@.len(),
            dna1@.len() == selector@.len(),
            r@.len() == i,
            forall|k: int|
                0 <= k < i ==> r@[k] == combine_byte(dna1@[k], dna2@[k], selector@[k]),
        decreases dna1.len() - i,
    {
        r.push(combine_dna(dna1[i], dna2[i], selector[i]));
        i = i + 1;
    }
    proof {
        assert(r@ =~= combine_seq(dna1@, dna2@, selector@));
    }
    r
}

} // verus!
