//! Walking up the hierarchy of entities.

use std::collections::{HashMap, HashSet};
use vstd::prelude::*;

verus! {

/// The entity `n` steps above `e`; `e` itself for none.
pub open spec fn ancestor(parents: Map<u64, u64>, e: u64, n: nat) -> Option<u64>
    decreases n,
{
    if n == 0 {
        Some(e)
    } else {
        match ancestor(parents, e, (n - 1) as nat) {
            Some(a) => if parents.dom().contains(a) {
                Some(parents[a])
            } else {
                None
            },
            None => None,
        }
    }
}

/// Whether the entities can be ranked so that each stands below its parent, as
/// those of a forest can.
pub open spec fn is_forest(parents: Map<u64, u64>) -> bool {
    exists|rank: spec_fn(u64) -> nat| #[trigger] ranks(parents, rank)
}

/// Whether a ranking puts each entity below its parent.
pub open spec fn ranks(parents: Map<u64, u64>, rank: spec_fn(u64) -> nat) -> bool {
    forall|e: u64| #[trigger] parents.dom().contains(e) ==> rank(parents[e]) < rank(e)
}

/// Whether `found` is the marked entity nearest above `e`, counting `e` itself.
pub open spec fn is_nearest(
    parents: Map<u64, u64>,
    marked: Set<u64>,
    e: u64,
    found: Option<u64>,
) -> bool {
    match found {
        Some(a) => exists|n: nat|
            #![trigger ancestor(parents, e, n)]
            ancestor(parents, e, n) == Some(a) && marked.contains(a) && forall|k: nat|
                #![trigger ancestor(parents, e, k)]
                k < n ==> !marked.contains(ancestor(parents, e, k)->0),
        None => forall|n: nat|
            #![trigger ancestor(parents, e, n)]
            ancestor(parents, e, n) matches Some(a) ==> !marked.contains(a),
    }
}

/// Finds the marked entity nearest above `start`, counting `start` itself.
pub fn find_marked_ancestor(
    start: u64,
    parents: &HashMap<u64, u64>,
    marked: &HashSet<u64>,
) -> (r: Option<u64>)
    requires
        is_forest(parents@),
    ensures
        is_nearest(parents@, marked@, start, r),
{
    broadcast use vstd::std_specs::hash::group_hash_axioms;

    let ghost rank = choose|rank: spec_fn(u64) -> nat| #[trigger] ranks(parents@, rank);
    let ghost mut n: nat = 0;
    let mut current: u64 = start;
    loop
        invariant
            ranks(parents@, rank),
            ancestor(parents@, start, n) == Some(current),
            forall|k: nat|
                #![trigger ancestor(parents@, start, k)]
                k < n ==> !marked@.contains(ancestor(parents@, start, k)->0),
            forall|k: nat|
                #![trigger ancestor(parents@, start, k)]
                k < n ==> ancestor(parents@, start, k) is Some,
        decreases rank(current),
    {
        if marked.contains(&current) {
            return Some(current);
        }
        match parents.get(&current) {
            Some(parent) => {
                proof {
                    n = n + 1;
                    assert(ancestor(parents@, start, n) == Some(*parent));
                }
                current = *parent;
            },
            None => {
                proof {
                    assert forall|m: nat|
                        #![trigger ancestor(parents@, start, m)]
                        ancestor(parents@, start, m) matches Some(a) implies !marked@.contains(
                        ancestor(parents@, start, m)->0,
                    ) by {
                        if m > n {
                            lemma_nothing_above_the_top(parents@, start, n, m);
                        }
                    }
                }
                return None;
            },
        }
    }
}

/// Above an entity without a parent there is nothing.
proof fn lemma_nothing_above_the_top(parents: Map<u64, u64>, e: u64, n: nat, m: nat)
    requires
        m > n,
        ancestor(parents, e, n) matches Some(a) && !parents.dom().contains(a),
    ensures
        ancestor(parents, e, m) is None,
    decreases m,
{
    if m > n + 1 {
        lemma_nothing_above_the_top(parents, e, n, (m - 1) as nat);
    }
}

/// Finds the body that an entity belongs to.
pub fn find_body_ancestor(
    start: u64,
    parents: &HashMap<u64, u64>,
    body_attached: &HashSet<u64>,
) -> (r: Option<u64>)
    requires
        is_forest(parents@),
    ensures
        is_nearest(parents@, body_attached@, start, r),
{
    find_marked_ancestor(start, parents, body_attached)
}

/// Finds the root of the articulation that an entity belongs to.
pub fn find_articulation_root_ancestor(
    start: u64,
    parents: &HashMap<u64, u64>,
    articulation_roots: &HashSet<u64>,
) -> (r: Option<u64>)
    requires
        is_forest(parents@),
    ensures
        is_nearest(parents@, articulation_roots@, start, r),
{
    find_marked_ancestor(start, parents, articulation_roots)
}

/// An entity has one nearest marked ancestor at most, so two walks from the
/// same entity end at the same one.
pub proof fn nearest_is_unique(
    parents: Map<u64, u64>,
    marked: Set<u64>,
    e: u64,
    a: Option<u64>,
    b: Option<u64>,
)
    requires
        is_nearest(parents, marked, e, a),
        is_nearest(parents, marked, e, b),
    ensures
        a == b,
{
    match (a, b) {
        (Some(x), Some(y)) => {
            let n = choose|n: nat|
                #![trigger ancestor(parents, e, n)]
                ancestor(parents, e, n) == Some(x) && marked.contains(x) && forall|k: nat|
                    #![trigger ancestor(parents, e, k)]
                    k < n ==> !marked.contains(ancestor(parents, e, k)->0);
            let m = choose|m: nat|
                #![trigger ancestor(parents, e, m)]
                ancestor(parents, e, m) == Some(y) && marked.contains(y) && forall|k: nat|
                    #![trigger ancestor(parents, e, k)]
                    k < m ==> !marked.contains(ancestor(parents, e, k)->0);
            if n < m {
                assert(!marked.contains(ancestor(parents, e, n)->0));
            } else if m < n {
                assert(!marked.contains(ancestor(parents, e, m)->0));
            }
        },
        _ => {},
    }
}

} // verus!
