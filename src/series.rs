//! A crate series: a weighted table of series entries.
use vstd::prelude::*;
use crate::catalog::Catalog;
use crate::item::{Item, ParticleEffect, Prototype};
use crate::series_entry::CrateSeriesEntry;
use crate::unlock::UnlockProblem;
use crate::weighted::{
    all_nonnegative,
    choose_weighted,
    lemma_choice_exists,
    nonnegative,
    sample_below,
    sum_odds,
    total_weight,
    weighted_choice,
    weights_of,
};

verus! {

pub struct CrateSeries {
    pub name: String,
    /// The series number; series are looked up by position, not by number.
    pub number: u32,
    pub entries: Vec<CrateSeriesEntry>,
    /// The total weight of the entries, from which samples are drawn.
    pub total_odds: i32,
}

impl CrateSeries {
    /// No weight is negative, in the series or in any of its entries.
    pub open spec fn wf(&self) -> bool {
        &&& nonnegative(weights_of(self.entries@))
        &&& forall|i: int| 0 <= i < self.entries@.len() ==> (#[trigger] self.entries@[i]).wf()
    }

    /// What holds of the result of unboxing with `sample`: the entry that
    /// owns the sample is unboxed, and a sample that no entry owns is an
    /// invalid choice.
    pub open spec fn sample_outcome(
        &self,
        prototypes: Catalog<Prototype>,
        particles: Catalog<ParticleEffect>,
        sample: int,
        r: Result<Item, UnlockProblem>,
    ) -> bool {
        match weighted_choice(weights_of(self.entries@), sample) {
            Some(i) => self.entries@[i].unbox_outcome(prototypes, particles, r),
            None => r matches Err(UnlockProblem::InvalidEntryChoice(s)) && s == sample,
        }
    }

    pub fn new(name: String, number: u32, entries: Vec<CrateSeriesEntry>) -> (r: CrateSeries)
        requires
            nonnegative(weights_of(entries@)),
            total_weight(weights_of(entries@)) <= i32::MAX,
        ensures
            r.name == name,
            r.number == number,
            r.entries == entries,
            r.total_odds == total_weight(weights_of(entries@)),
    {
        let total_odds = sum_odds(&entries);
        CrateSeries { name, number, entries, total_odds }
    }

    /// Whether the series can be drawn from: no weight is negative and the
    /// total is positive.
    pub fn can_draw(&self) -> (r: bool)
        ensures
            r == (self.wf() && self.total_odds > 0),
    {
        if self.total_odds <= 0 {
            return false;
        }
        let mut i: usize = 0;
        while i < self.entries.len()
            invariant
                0 <= i <= self.entries@.len(),
                forall|j: int|
                    0 <= j < i ==> (#[trigger] self.entries@[j]).wf() && self.entries@[j].odds >= 0,
            decreases self.entries.len() - i,
        {
            let entry = &self.entries[i];
            if entry.odds < 0 || !all_nonnegative(&entry.particle_effects) || !all_nonnegative(
                &entry.stat_trackers,
            ) {
                assert(weights_of(self.entries@)[i as int] == entry.odds);
                return false;
            }
            i = i + 1;
        }
        assert forall|j: int| 0 <= j < weights_of(self.entries@).len() implies weights_of(
            self.entries@,
        )[j] >= 0 by {
            assert(self.entries@[j].odds >= 0);
        }
        true
    }

    /// Unboxes the entry that owns `sample`.
    pub fn unbox_with(
        &self,
        prototypes: &Catalog<Prototype>,
        particles: &Catalog<ParticleEffect>,
        sample: i32,
    ) -> (r: Result<Item, UnlockProblem>)
        requires
            self.wf(),
            0 <= sample,
        ensures
            self.sample_outcome(*prototypes, *particles, sample as int, r),
    {
        match choose_weighted(&self.entries, sample) {
            Some(i) => self.entries[i].unbox_one(prototypes, particles),
            None => Err(UnlockProblem::InvalidEntryChoice(sample)),
        }
    }

    /// Draws a sample below the total weight and unboxes the entry that
    /// owns it. A total no larger than the entries' weights leaves no
    /// sample unowned.
    pub fn unbox_one(&self, prototypes: &Catalog<Prototype>, particles: &Catalog<ParticleEffect>) -> (r:
        Result<Item, UnlockProblem>)
        requires
            self.wf(),
            self.total_odds > 0,
        ensures
            self.total_odds <= total_weight(weights_of(self.entries@)) ==> !(r matches Err(
                UnlockProblem::InvalidEntryChoice(_),
            )),
            exists|s: int|
                0 <= s < self.total_odds && #[trigger] self.sample_outcome(
                    *prototypes,
                    *particles,
                    s,
                    r,
                ),
    {
        let sample = sample_below(self.total_odds);
        proof {
            if self.total_odds <= total_weight(weights_of(self.entries@)) {
                lemma_choice_exists(weights_of(self.entries@), sample as int);
            }
        }
        let r = self.unbox_with(prototypes, particles, sample);
        assert(self.sample_outcome(*prototypes, *particles, sample as int, r));
        r
    }
}

} // verus!
