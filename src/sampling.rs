//! Random draws from a list of images, through `rand`.
use vstd::prelude::*;
use rand::seq::{IteratorRandom, SliceRandom};

verus! {

/// `rand::rngs::ThreadRng`, the thread's random generator, held opaque.
#[verifier::external_type_specification]
#[verifier::external_body]
pub struct ExThreadRng(rand::rngs::ThreadRng);

/// Relies on `rand::thread_rng`: hands out the thread's generator; nothing is
/// known of what it will draw.
pub assume_specification[ rand::thread_rng ]() -> rand::rngs::ThreadRng;

/// Relies on `IteratorRandom::choose_multiple` (reservoir sampling): the result
/// holds `amount` of the items, each taken from a different position of
/// `items`, in no particular order. It reserves room for `amount` items first,
/// so `amount` is at most the number of items.
#[verifier::external_body]
pub(crate) fn choose_multiple(rng: &mut rand::rngs::ThreadRng, items: &Vec<String>, amount: usize) -> (r:
    Vec<String>)
    requires
        amount <= items@.len(),
    ensures
        r@.len() == amount,
        r@.to_multiset().subset_of(items@.to_multiset()),
{
    items.clone().into_iter().choose_multiple(rng, amount)
}

/// Relies on `SliceRandom::shuffle`: the items are permuted in place.
#[verifier::external_body]
pub(crate) fn shuffle(rng: &mut rand::rngs::ThreadRng, items: &mut Vec<String>)
    ensures
        final(items)@.len() == old(items)@.len(),
        final(items)@.to_multiset() == old(items)@.to_multiset(),
{
    items.shuffle(rng)
}

/// Every item of `t` is an item of `s` when `t` is a sub-multiset of `s`.
pub proof fn lemma_sub_multiset_items<A>(t: Seq<A>, s: Seq<A>)
    requires
        t.to_multiset().subset_of(s.to_multiset()),
    ensures
        forall|i: int| 0 <= i < t.len() ==> s.contains(#[trigger] t[i]),
{
    broadcast use vstd::seq_lib::group_to_multiset_ensures;

    assert forall|i: int| 0 <= i < t.len() implies s.contains(#[trigger] t[i]) by {
        assert(t.contains(t[i]));
        assert(t.to_multiset().count(t[i]) > 0);
        assert(s.to_multiset().count(t[i]) > 0);
    }
}

/// A sub-multiset of a sequence without duplicates has none either.
pub proof fn lemma_sub_multiset_no_duplicates<A>(t: Seq<A>, s: Seq<A>)
    requires
        t.to_multiset().subset_of(s.to_multiset()),
        s.no_duplicates(),
    ensures
        t.no_duplicates(),
{
    broadcast use vstd::seq_lib::group_to_multiset_ensures;

    s.lemma_multiset_has_no_duplicates();
    assert forall|x: A| t.to_multiset().contains(x) implies t.to_multiset().count(x) == 1 by {
        assert(t.to_multiset().count(x) <= s.to_multiset().count(x));
        assert(s.to_multiset().contains(x));
    }
    t.lemma_multiset_has_no_duplicates_conv();
}

/// `a / b` rounded up.
pub open spec fn ceil_div(a: nat, b: nat) -> nat {
    if b == 0 {
        0
    } else {
        ((a + b - 1) / b as int) as nat
    }
}

/// A prefix holds no item more often than the whole sequence.
pub proof fn lemma_prefix_sub_multiset<A>(s: Seq<A>, k: int)
    requires
        0 <= k <= s.len(),
    ensures
        s.subrange(0, k).to_multiset().subset_of(s.to_multiset()),
    decreases s.len(),
{
    broadcast use vstd::seq_lib::group_to_multiset_ensures;

    if k < s.len() {
        let rest = s.drop_last();
        lemma_prefix_sub_multiset(rest, k);
        assert(rest.subrange(0, k) =~= s.subrange(0, k));
        assert(rest.push(s.last()) =~= s);
    } else {
        assert(s.subrange(0, k) =~= s);
    }
}

/// One more round drawn from `w` adds at most one more of each item's
/// occurrences in `w`.
pub proof fn lemma_round_counts(pool: Seq<String>, add: Seq<String>, w: Seq<String>, rounds: nat)
    requires
        add.to_multiset().subset_of(w.to_multiset()),
        forall|x: String| #[trigger] pool.to_multiset().count(x) <= rounds * w.to_multiset().count(x),
    ensures
        forall|x: String|
            #[trigger] (pool + add).to_multiset().count(x) <= (rounds + 1) * w.to_multiset().count(x),
{
    vstd::seq_lib::lemma_multiset_commutative(pool, add);
    assert forall|x: String|
        #[trigger] (pool + add).to_multiset().count(x) <= (rounds + 1) * w.to_multiset().count(x) by {
        let c = w.to_multiset().count(x);
        assert((rounds + 1) * c == rounds * c + c) by (nonlinear_arith);
        assert(add.to_multiset().count(x) <= c);
        assert(pool.to_multiset().count(x) <= rounds * c);
    }
}

/// Rounds of `len` items that were started while fewer than `active` items
/// were drawn number at most `active / len`, rounded up.
pub proof fn lemma_rounds_bound(rounds: nat, len: nat, active: nat)
    requires
        len > 0,
        rounds > 0,
        (rounds - 1) * len < active,
    ensures
        rounds <= ceil_div(active, len),
{
    assert(rounds * len <= active + len - 1) by (nonlinear_arith)
        requires
            (rounds - 1) * len < active,
            rounds > 0,
    ;
    vstd::arithmetic::div_mod::lemma_div_is_ordered((rounds * len) as int, active + len - 1, len as int);
    vstd::arithmetic::div_mod::lemma_div_by_multiple(rounds as int, len as int);
}

/// Items taken, as a prefix of a draw from a pool, no more often than the
/// pool's bound allows.
pub proof fn lemma_repeat_bound(
    used: Seq<String>,
    chosen: Seq<String>,
    pool: Seq<String>,
    w: Seq<String>,
    rounds: nat,
    bound: nat,
)
    requires
        used.len() <= chosen.len(),
        used == chosen.subrange(0, used.len() as int),
        chosen.to_multiset().subset_of(pool.to_multiset()),
        forall|x: String| #[trigger] pool.to_multiset().count(x) <= rounds * w.to_multiset().count(x),
        used.len() > 0 ==> rounds <= bound,
    ensures
        forall|x: String| #[trigger] used.to_multiset().count(x) <= w.to_multiset().count(x) * bound,
{
    broadcast use vstd::seq_lib::group_to_multiset_ensures;

    lemma_prefix_sub_multiset(chosen, used.len() as int);
    assert forall|x: String| #[trigger] used.to_multiset().count(x) <= w.to_multiset().count(x) * bound by {
        if used.len() == 0 {
            assert(!used.contains(x));
        } else {
            let c = w.to_multiset().count(x);
            assert(rounds * c <= c * bound) by (nonlinear_arith)
                requires
                    rounds <= bound,
            ;
            assert(used.to_multiset().count(x) <= chosen.to_multiset().count(x));
            assert(chosen.to_multiset().count(x) <= pool.to_multiset().count(x));
        }
    }
}

} // verus!
