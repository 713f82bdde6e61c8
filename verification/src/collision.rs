//! Finding the entities that collide with one another, by id, and parting a
//! list of entities by a set of ids.

use crate::geometry::{is_colliding, overlap, Triangle};
use crate::models::{BulletState, Item, PlayerState};
use crate::seqs::lemma_filter_step;
use std::collections::HashSet;
use vstd::prelude::*;
use vstd::std_specs::hash::*;

verus! {

/// An entity that carries an id.
pub trait Tagged: Triangle {
    /// The id of this entity.
    spec fn tag(&self) -> u32;

    fn id(&self) -> (r: u32)
        ensures
            r == self.tag(),
    ;
}

impl Tagged for PlayerState {
    open spec fn tag(&self) -> u32 {
        self.id
    }

    fn id(&self) -> (r: u32) {
        self.id
    }
}

impl Tagged for BulletState {
    open spec fn tag(&self) -> u32 {
        self.id
    }

    fn id(&self) -> (r: u32) {
        self.id
    }
}

impl Tagged for Item {
    open spec fn tag(&self) -> u32 {
        self.id
    }

    fn id(&self) -> (r: u32) {
        self.id
    }
}

/// The entities at `a` and `b` carry different ids and overlap.
pub open spec fn clashes<T: Tagged>(s: Seq<T>, a: int, b: int) -> bool {
    &&& 0 <= a < s.len()
    &&& 0 <= b < s.len()
    &&& s[a].tag() != s[b].tag()
    &&& overlap(s[a].circle(), s[b].circle())
}

/// The entity at `a` overlaps some entity with another id.
pub open spec fn struck<T: Tagged>(s: Seq<T>, a: int) -> bool {
    exists|b: int| clashes(s, a, b)
}

/// The ids of the entities among the first `n` that overlap an entity with
/// another id.
pub open spec fn clashing_upto<T: Tagged>(s: Seq<T>, n: int) -> Set<u32> {
    Set::new(
        |id: u32|
            exists|a: int|
                0 <= a < n && a < s.len() && s[a].tag() == id && #[trigger] struck(s, a),
    )
}

/// The ids of all entities that overlap an entity with another id.
pub open spec fn clashing_ids<T: Tagged>(s: Seq<T>) -> Set<u32> {
    clashing_upto(s, s.len() as int)
}

/// The test that an entity's id is in `ids`.
pub open spec fn tagged_in<T: Tagged>(ids: Set<u32>) -> spec_fn(T) -> bool {
    |e: T| ids.contains(e.tag())
}

/// The test that an entity's id is not in `ids`.
pub open spec fn tagged_out<T: Tagged>(ids: Set<u32>) -> spec_fn(T) -> bool {
    |e: T| !ids.contains(e.tag())
}

/// Whether the entity at `a` overlaps some entity with another id.
pub fn is_struck<T: Tagged>(v: &Vec<T>, a: usize) -> (hit: bool)
    requires
        a < v.len(),
    ensures
        hit == struck(v@, a as int),
{
    let mut hit: bool = false;
    let mut b: usize = 0;
    while b < v.len()
        invariant
            a < v.len(),
            b <= v.len(),
            hit == exists|k: int| 0 <= k < b && #[trigger] clashes(v@, a as int, k),
        decreases v.len() - b,
    {
        if v[a].id() != v[b].id() && is_colliding(&v[a], &v[b]) {
            assert(clashes(v@, a as int, b as int));
            hit = true;
        }
        b += 1;
    }
    hit
}

/// Collects the ids of all entities that overlap an entity with another id.
pub fn find_clashing<T: Tagged>(v: &Vec<T>) -> (ids: HashSet<u32>)
    ensures
        ids@ == clashing_ids(v@),
{
    broadcast use group_hash_axioms;

    let mut ids: HashSet<u32> = HashSet::new();
    let mut a: usize = 0;
    while a < v.len()
        invariant
            a <= v.len(),
            ids@ =~= clashing_upto(v@, a as int),
        decreases v.len() - a,
    {
        let hit: bool = is_struck(v, a);
        if hit {
            ids.insert(v[a].id());
        }
        a += 1;
    }
    ids
}

/// The entities whose id is not in `ids`, in their order.
pub fn without<T: Tagged + Copy>(v: &Vec<T>, ids: &HashSet<u32>) -> (kept: Vec<T>)
    ensures
        kept@ == v@.filter(tagged_out::<T>(ids@)),
{
    broadcast use group_hash_axioms;

    let mut kept: Vec<T> = Vec::new();
    let mut i: usize = 0;
    assert(v@.take(0) =~= Seq::<T>::empty());
    while i < v.len()
        invariant
            i <= v.len(),
            kept@ == v@.take(i as int).filter(tagged_out::<T>(ids@)),
        decreases v.len() - i,
    {
        proof {
            lemma_filter_step(v@, tagged_out::<T>(ids@), i as int);
        }
        let tag: u32 = v[i].id();
        if !ids.contains(&tag) {
            kept.push(v[i]);
        }
        i += 1;
    }
    assert(v@.take(v.len() as int) =~= v@);
    kept
}

/// The entities whose id is in `ids`, in their order.
pub fn only<T: Tagged + Copy>(v: &Vec<T>, ids: &HashSet<u32>) -> (taken: Vec<T>)
    ensures
        taken@ == v@.filter(tagged_in::<T>(ids@)),
{
    broadcast use group_hash_axioms;

    let mut taken: Vec<T> = Vec::new();
    let mut i: usize = 0;
    assert(v@.take(0) =~= Seq::<T>::empty());
    while i < v.len()
        invariant
            i <= v.len(),
            taken@ == v@.take(i as int).filter(tagged_in::<T>(ids@)),
        decreases v.len() - i,
    {
        proof {
            lemma_filter_step(v@, tagged_in::<T>(ids@), i as int);
        }
        let tag: u32 = v[i].id();
        if ids.contains(&tag) {
            taken.push(v[i]);
        }
        i += 1;
    }
    assert(v@.take(v.len() as int) =~= v@);
    taken
}

} // verus!
