//! Bounded random sampling of candidates.

use vstd::prelude::*;
use vstd::seq_lib::{
    lemma_multiset_commutative, to_multiset_build, to_multiset_contains, to_multiset_insert,
    to_multiset_len, to_multiset_remove,
};
use rand::seq::SliceRandom;
use rand::thread_rng;
use crate::candidate::{proxy_views, Proxy};

verus! {

/// The number of candidates that a request for `amount` of them draws from a
/// supply of `available`.
pub open spec fn drawn(amount: int, available: int) -> int {
    if amount <= available {
        amount
    } else {
        available
    }
}

/// Trusted: `rand::seq::SliceRandom::shuffle`, driven by `rand::thread_rng()`,
/// reorders the slice in place by swapping pairs of its elements. So what the
/// vector holds afterwards is what it held before, each element as often as
/// before; nothing is said of the order, which differs from call to call.
/// The generator is seeded from the operating system on a thread's first use
/// and fails only where the system has no entropy to give.
#[verifier::external_body]
fn shuffle<T>(items: &mut Vec<T>)
    ensures
        final(items)@.to_multiset() == old(items)@.to_multiset(),
{
    items.shuffle(&mut thread_rng());
}

/// A prefix holds no element more often than the whole sequence does.
pub proof fn lemma_prefix_is_submultiset<A>(s: Seq<A>, k: int)
    requires
        0 <= k <= s.len(),
    ensures
        s.take(k).to_multiset().subset_of(s.to_multiset()),
{
    broadcast use vstd::multiset::group_multiset_axioms;

    lemma_multiset_commutative(s.take(k), s.skip(k));
    assert(s.take(k) + s.skip(k) == s);
}

/// Two sequences with the same elements, each as often, still have the same
/// elements after one function is applied to all of them.
pub proof fn lemma_map_keeps_multiset<A, B>(a: Seq<A>, b: Seq<A>, f: spec_fn(A) -> B)
    requires
        a.to_multiset() == b.to_multiset(),
    ensures
        a.map_values(f).to_multiset() == b.map_values(f).to_multiset(),
    decreases a.len(),
{
    broadcast use vstd::multiset::group_multiset_axioms;

    to_multiset_len(a);
    to_multiset_len(b);
    if a.len() == 0 {
        assert(a.map_values(f) == b.map_values(f));
    } else {
        let x = a.last();
        let front = a.drop_last();
        assert(a == front.push(x));
        to_multiset_build(front, x);
        to_multiset_contains(b, x);
        let i = choose|i: int| 0 <= i < b.len() && b[i] == x;
        let others = b.remove(i);
        to_multiset_remove(b, i);
        assert(front.to_multiset() == others.to_multiset());
        lemma_map_keeps_multiset(front, others, f);
        assert(a.map_values(f) == front.map_values(f).push(f(x)));
        to_multiset_build(front.map_values(f), f(x));
        assert(b.map_values(f) == others.map_values(f).insert(i, f(x)));
        to_multiset_insert(others.map_values(f), i, f(x));
    }
}

/// A sample drawn from a supply without repeats has no repeats either.
pub proof fn lemma_sample_has_no_repeats<A>(sample: Seq<A>, supply: Seq<A>)
    requires
        sample.to_multiset().subset_of(supply.to_multiset()),
        supply.no_duplicates(),
    ensures
        sample.no_duplicates(),
{
    broadcast use vstd::multiset::group_multiset_axioms;

    supply.lemma_multiset_has_no_duplicates();
    assert forall|x: A| sample.to_multiset().contains(x) implies sample.to_multiset().count(x)
        == 1 by {
        assert(sample.to_multiset().count(x) <= supply.to_multiset().count(x));
    }
    sample.lemma_multiset_has_no_duplicates_conv();
}

/// The first `amount` of `shuffled`, or all of it where it holds fewer.
pub fn take_prefix(shuffled: Vec<Proxy>, amount: usize) -> (selected: Vec<Proxy>)
    ensures
        selected@ == shuffled@.take(drawn(amount as int, shuffled@.len() as int)),
{
    let mut selected = shuffled;
    selected.truncate(amount);
    selected
}

/// Draws a random sample of at most `amount` candidates.
///
/// The candidates are put in a random order and the first `amount` of them
/// are returned, or all of them where fewer are on offer. The sample is made
/// of the given candidates only, none of them more often than it was given;
/// which of them are drawn, and in what order, differs from call to call.
pub fn select(candidates: Vec<Proxy>, amount: usize) -> (selected: Vec<Proxy>)
    ensures
        selected@.len() == drawn(amount as int, candidates@.len() as int),
        selected@.to_multiset().subset_of(candidates@.to_multiset()),
        proxy_views(selected@).to_multiset().subset_of(proxy_views(candidates@).to_multiset()),
        amount >= candidates@.len() ==> selected@.to_multiset() == candidates@.to_multiset(),
        amount >= candidates@.len() ==> proxy_views(selected@).to_multiset() == proxy_views(
            candidates@,
        ).to_multiset(),
{
    let mut shuffled = candidates;
    shuffle(&mut shuffled);
    proof {
        to_multiset_len(shuffled@);
        to_multiset_len(candidates@);
    }
    let selected = take_prefix(shuffled, amount);
    proof {
        let k = drawn(amount as int, candidates@.len() as int);
        let view_of = |p: Proxy| p@;
        lemma_prefix_is_submultiset(shuffled@, k);
        lemma_map_keeps_multiset(shuffled@, candidates@, view_of);
        assert(proxy_views(selected@) == proxy_views(shuffled@).take(k));
        lemma_prefix_is_submultiset(proxy_views(shuffled@), k);
        if amount >= candidates@.len() {
            assert(shuffled@.take(k) == shuffled@);
        }
    }
    selected
}

} // verus!
