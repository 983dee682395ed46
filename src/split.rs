use vstd::prelude::*;
use rand::rngs::StdRng;
use rand::seq::SliceRandom;
use rand::SeedableRng;

verus! {

/// The positions that a shuffle seeded with `seed` moves to the front, for
/// a sequence of length `n`: element `k` of the result comes from position
/// `seeded_permutation(seed, n)[k]`.
pub uninterp spec fn seeded_permutation(seed: u64, n: nat) -> Seq<int>;

/// `s` reordered so that element `k` is `s[p[k]]`.
pub open spec fn permuted<T>(s: Seq<T>, p: Seq<int>) -> Seq<T> {
    Seq::new(s.len(), |k: int| s[p[k]])
}

/// Relies on rand's `SliceRandom::shuffle` over `StdRng::seed_from_u64`: the
/// shuffle only swaps elements, so it keeps the multiset, and the swaps it makes
/// are drawn from the generator with the length as the only input, so the
/// resulting order is fixed by the seed and the length.
#[verifier::external_body]
fn shuffle_seeded<T>(v: &mut Vec<T>, seed: u64)
    ensures
        final(v)@.to_multiset() == old(v)@.to_multiset(),
        final(v)@ == permuted(old(v)@, seeded_permutation(seed, old(v)@.len())),
{
    v.shuffle(&mut StdRng::seed_from_u64(seed));
}

/// Relies on rand's `SliceRandom::shuffle` over `thread_rng`: the shuffle only
/// swaps elements, so it keeps the multiset.
#[verifier::external_body]
fn shuffle_random<T>(v: &mut Vec<T>)
    ensures
        final(v)@.to_multiset() == old(v)@.to_multiset(),
{
    v.shuffle(&mut rand::thread_rng());
}

/// `numer / denom` of `len`, rounded to the nearest integer, halves away from zero.
pub open spec fn test_count_of(len: nat, numer: nat, denom: nat) -> nat
    recommends
        denom > 0,
{
    ((2 * numer * len + denom) / (2 * denom)) as nat
}

/// The number of records that go to the test set: `numer / denom` of `len`,
/// rounded to the nearest integer.
pub fn test_count(len: usize, numer: u32, denom: u32) -> (r: usize)
    requires
        0 < numer < denom,
    ensures
        r == test_count_of(len as nat, numer as nat, denom as nat),
        r <= len,
{
    let n: u128 = numer as u128;
    let d: u128 = denom as u128;
    let l: u128 = len as u128;
    assert(2 * n * l + d <= 2 * 0x1_0000_0000 * 0x1_0000_0000_0000_0000 + 0x1_0000_0000)
        by (nonlinear_arith)
        requires
            n < 0x1_0000_0000,
            d < 0x1_0000_0000,
            l < 0x1_0000_0000_0000_0000,
    ;
    let c = (2 * n * l + d) / (2 * d);
    assert(c <= l) by (nonlinear_arith)
        requires
            c == (2 * n * l + d) / (2 * d),
            0 < n < d,
            0 <= l,
    {
        assert(2 * n * l + d < 2 * d * (l + 1));
    }
    c as usize
}

/// The test and training sets that a split with this seed makes: the first
/// `test_count_of` records of the seeded shuffle, and the rest.
pub open spec fn seeded_split<T>(records: Seq<T>, numer: nat, denom: nat, seed: u64) -> (
    Seq<T>,
    Seq<T>,
) {
    let shuffled = permuted(records, seeded_permutation(seed, records.len()));
    let c = test_count_of(records.len(), numer, denom) as int;
    (shuffled.subrange(0, c), shuffled.subrange(c, records.len() as int))
}

/// Shuffles `records` and splits them into a test set and a training set.
/// The test set holds `numer / denom` of the records, rounded to the nearest
/// integer; together the two sets hold exactly the records given. With a seed
/// the shuffle is reproducible; without one it draws from the thread's
/// generator.
pub fn shuffle_and_split<T>(records: Vec<T>, numer: u32, denom: u32, seed: Option<u64>) -> (r: (
    Vec<T>,
    Vec<T>,
))
    requires
        0 < numer < denom,
    ensures
        r.0@.len() == test_count_of(records@.len(), numer as nat, denom as nat),
        r.0@.len() + r.1@.len() == records@.len(),
        (r.0@ + r.1@).to_multiset() == records@.to_multiset(),
        seed matches Some(s) ==> (r.0@, r.1@) == seeded_split(
            records@,
            numer as nat,
            denom as nat,
            s,
        ),
{
    let c = test_count(records.len(), numer, denom);
    let mut shuffled = records;
    match seed {
        Some(s) => shuffle_seeded(&mut shuffled, s),
        None => shuffle_random(&mut shuffled),
    }
    proof {
        shuffled@.to_multiset_ensures();
        records@.to_multiset_ensures();
    }
    let ghost all = shuffled@;
    let train = shuffled.split_off(c);
    assert(shuffled@ + train@ =~= all);
    (shuffled, train)
}

/// Two splits of the same records with the same fraction and seed are equal.
pub proof fn lemma_seeded_split_reproducible<T>(
    records: Seq<T>,
    numer: nat,
    denom: nat,
    seed: u64,
    first: (Seq<T>, Seq<T>),
    second: (Seq<T>, Seq<T>),
)
    requires
        first == seeded_split(records, numer, denom, seed),
        second == seeded_split(records, numer, denom, seed),
    ensures
        first == second,
{
}

} // verus!
