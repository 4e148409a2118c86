//! The weighted draw shared by every level of the loot tables.
//!
//! A table is a list of options with non-negative integer weights. A sample
//! taken uniformly from `[0, T)`, where `T` is the total weight, selects the
//! first option whose running total exceeds it, so option `i` owns the
//! half-open range `[prefix(i), prefix(i + 1))`.
use vstd::prelude::*;
use vstd::set_lib::{lemma_int_range, set_int_range};

verus! {

/// An option of a weighted table.
pub trait Weighted {
    /// The option's weight.
    spec fn weight(&self) -> int;

    fn odds(&self) -> (r: i32)
        ensures
            r as int == self.weight(),
    ;
}

/// The weights of a table, in order.
pub open spec fn weights_of<T: Weighted>(entries: Seq<T>) -> Seq<int> {
    Seq::new(entries.len(), |i: int| entries[i].weight())
}

/// The sum of the first `n` weights.
pub open spec fn prefix_sum(w: Seq<int>, n: int) -> int
    decreases n,
{
    if n <= 0 || w.len() < n {
        0
    } else {
        prefix_sum(w, n - 1) + w[n - 1]
    }
}

pub open spec fn total_weight(w: Seq<int>) -> int {
    prefix_sum(w, w.len() as int)
}

pub open spec fn nonnegative(w: Seq<int>) -> bool {
    forall|i: int| 0 <= i < w.len() ==> w[i] >= 0
}

/// Option `i` owns the sample: it lies in `[prefix(i), prefix(i + 1))`.
pub open spec fn claims(w: Seq<int>, sample: int, i: int) -> bool {
    0 <= i < w.len() && prefix_sum(w, i) <= sample < prefix_sum(w, i + 1)
}

/// The option that owns `sample`, if any.
pub open spec fn weighted_choice(w: Seq<int>, sample: int) -> Option<int> {
    if exists|i: int| claims(w, sample, i) {
        Some(choose|i: int| claims(w, sample, i))
    } else {
        None
    }
}

/// The option that owns a sample has a positive weight.
pub proof fn lemma_choice_positive(w: Seq<int>, sample: int)
    ensures
        weighted_choice(w, sample) matches Some(i) ==> claims(w, sample, i) && w[i] > 0,
{
    if exists|i: int| claims(w, sample, i) {
        let i = choose|i: int| claims(w, sample, i);
        assert(prefix_sum(w, i + 1) == prefix_sum(w, i) + w[i]);
    }
}

/// Every sample in `[0, T)` is owned by some option.
pub proof fn lemma_choice_exists(w: Seq<int>, sample: int)
    requires
        nonnegative(w),
        0 <= sample < total_weight(w),
    ensures
        weighted_choice(w, sample) is Some,
{
    lemma_owner_below(w, sample, w.len() as int);
}

proof fn lemma_owner_below(w: Seq<int>, sample: int, n: int)
    requires
        nonnegative(w),
        0 <= n <= w.len(),
        0 <= sample < prefix_sum(w, n),
    ensures
        exists|i: int| claims(w, sample, i),
    decreases n,
{
    if n > 0 {
        if sample < prefix_sum(w, n - 1) {
            lemma_owner_below(w, sample, n - 1);
        } else {
            assert(claims(w, sample, n - 1));
        }
    }
}

/// Running totals never decrease over non-negative weights.
pub proof fn lemma_prefix_monotone(w: Seq<int>, m: int, n: int)
    requires
        nonnegative(w),
        0 <= m <= n <= w.len(),
    ensures
        0 <= prefix_sum(w, m) <= prefix_sum(w, n),
    decreases n - m,
{
    if m < n {
        lemma_prefix_monotone(w, m, n - 1);
    } else {
        lemma_prefix_nonnegative(w, m);
    }
}

proof fn lemma_prefix_nonnegative(w: Seq<int>, n: int)
    requires
        nonnegative(w),
        0 <= n <= w.len(),
    ensures
        0 <= prefix_sum(w, n),
    decreases n,
{
    if n > 0 {
        lemma_prefix_nonnegative(w, n - 1);
    }
}

/// At most one option owns a sample.
pub proof fn lemma_claim_unique(w: Seq<int>, sample: int, i: int, j: int)
    requires
        nonnegative(w),
        claims(w, sample, i),
        claims(w, sample, j),
    ensures
        i == j,
{
    if i < j {
        lemma_prefix_monotone(w, i + 1, j);
    } else if j < i {
        lemma_prefix_monotone(w, j + 1, i);
    }
}

/// Of the `T` equally likely samples in `[0, T)`, exactly `w[i]` select
/// option `i`: a uniform sample selects each option with probability
/// `w[i] / T`.
pub proof fn lemma_selection_frequency(w: Seq<int>, i: int)
    requires
        nonnegative(w),
        0 <= i < w.len(),
    ensures
        Set::new(|s: int| 0 <= s < total_weight(w) && claims(w, s, i)).finite(),
        Set::new(|s: int| 0 <= s < total_weight(w) && claims(w, s, i)).len() == w[i],
{
    let lo = prefix_sum(w, i);
    let hi = prefix_sum(w, i + 1);
    lemma_prefix_monotone(w, 0, i);
    lemma_prefix_monotone(w, i + 1, w.len() as int);
    assert(Set::new(|s: int| 0 <= s < total_weight(w) && claims(w, s, i)) =~= set_int_range(
        lo,
        hi,
    ));
    lemma_int_range(lo, hi);
}

/// Selects the option that owns `sample`, or `None` when the sample lies at
/// or beyond the total weight of the table.
pub fn choose_weighted<T: Weighted>(entries: &Vec<T>, sample: i32) -> (r: Option<usize>)
    requires
        nonnegative(weights_of(entries@)),
        0 <= sample,
    ensures
        r is Some <==> sample < total_weight(weights_of(entries@)),
        r matches Some(i) ==> claims(weights_of(entries@), sample as int, i as int),
        match r {
            Some(i) => weighted_choice(weights_of(entries@), sample as int) == Some(i as int),
            None => weighted_choice(weights_of(entries@), sample as int) is None,
        },
{
    let ghost w = weights_of(entries@);
    let mut acc: i64 = 0;
    let mut i: usize = 0;
    while i < entries.len()
        invariant
            w == weights_of(entries@),
            nonnegative(w),
            0 <= sample,
            0 <= i <= entries.len(),
            acc as int == prefix_sum(w, i as int),
            acc <= sample,
        decreases entries.len() - i,
    {
        let o = entries[i].odds();
        assert(w[i as int] == o as int);
        acc = acc + o as i64;
        if (sample as i64) < acc {
            proof {
                lemma_prefix_monotone(w, (i + 1) as int, w.len() as int);
                assert(claims(w, sample as int, i as int));
                let j = choose|j: int| claims(w, sample as int, j);
                lemma_claim_unique(w, sample as int, i as int, j);
            }
            return Some(i);
        }
        i = i + 1;
    }
    proof {
        if exists|j: int| claims(w, sample as int, j) {
            let j = choose|j: int| claims(w, sample as int, j);
            lemma_prefix_monotone(w, j + 1, w.len() as int);
        }
    }
    None
}

/// Whether no weight of the table is negative.
pub fn all_nonnegative<T: Weighted>(entries: &Vec<T>) -> (r: bool)
    ensures
        r == nonnegative(weights_of(entries@)),
{
    let ghost w = weights_of(entries@);
    let mut i: usize = 0;
    while i < entries.len()
        invariant
            w == weights_of(entries@),
            0 <= i <= entries.len(),
            forall|j: int| 0 <= j < i ==> w[j] >= 0,
        decreases entries.len() - i,
    {
        let o = entries[i].odds();
        assert(w[i as int] == o as int);
        if o < 0 {
            return false;
        }
        i = i + 1;
    }
    true
}

/// The total weight of a table.
pub fn sum_odds<T: Weighted>(entries: &Vec<T>) -> (r: i32)
    requires
        nonnegative(weights_of(entries@)),
        total_weight(weights_of(entries@)) <= i32::MAX,
    ensures
        r as int == total_weight(weights_of(entries@)),
{
    let ghost w = weights_of(entries@);
    let mut total: i32 = 0;
    let mut i: usize = 0;
    while i < entries.len()
        invariant
            w == weights_of(entries@),
            nonnegative(w),
            total_weight(w) <= i32::MAX,
            0 <= i <= entries.len(),
            total as int == prefix_sum(w, i as int),
        decreases entries.len() - i,
    {
        proof {
            lemma_prefix_monotone(w, (i + 1) as int, w.len() as int);
        }
        let o = entries[i].odds();
        assert(w[i as int] == o as int);
        total = total + o;
        i = i + 1;
    }
    total
}

/// Relies on `rand::thread_rng` and `rand::Rng::gen_range`: a value drawn
/// uniformly from `[0, bound)`; `gen_range` panics on an empty range.
#[verifier::external_body]
pub(crate) fn sample_below(bound: i32) -> (r: i32)
    requires
        bound > 0,
    ensures
        0 <= r < bound,
{
    rand::Rng::gen_range(&mut rand::thread_rng(), 0..bound)
}

} // verus!
