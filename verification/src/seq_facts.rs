//! Facts about sequences shared by the sorting routines: inserting an
//! element adds it to the multiset of elements.

use vstd::prelude::*;

verus! {

/// Inserting `x` anywhere adds one `x` to the elements.
pub proof fn lemma_insert_to_multiset<A>(t: Seq<A>, p: int, x: A)
    requires
        0 <= p <= t.len(),
    ensures
        t.insert(p, x).to_multiset() =~= t.to_multiset().insert(x),
{
    broadcast use vstd::seq_lib::group_to_multiset_ensures, vstd::multiset::group_multiset_axioms;

    let u = t.insert(p, x);
    assert(u.remove(p) =~= t);
    assert(u[p] == x);
    u.to_multiset_ensures();
    assert(u.contains(x));
    assert(u.to_multiset().count(x) > 0);
}

/// Appending `x` adds one `x` to the elements.
pub proof fn lemma_push_to_multiset<A>(t: Seq<A>, x: A)
    ensures
        t.push(x).to_multiset() =~= t.to_multiset().insert(x),
{
    t.to_multiset_ensures();
}

} // verus!
