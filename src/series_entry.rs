//! One weighted slot of a crate series: a prototype with its own lotteries
//! of particle effects and stat trackers, rolled again until the item
//! qualifies.
use std::sync::Arc;
use vstd::prelude::*;
use crate::catalog::Catalog;
use crate::entries::{ParticleEffectEntry, StatTrackerEntry};
use crate::item::{Item, ParticleEffect, Prototype, StatTracker};
use crate::unlock::UnlockProblem;
use crate::weighted::{
    choose_weighted,
    lemma_choice_exists,
    lemma_choice_positive,
    nonnegative,
    sample_below,
    sum_odds,
    total_weight,
    weighted_choice,
    weights_of,
    Weighted,
};

verus! {

pub struct CrateSeriesEntry {
    /// The key of the prototype, looked up when the entry is unboxed.
    pub prototype_key: String,
    pub particle_effects: Vec<ParticleEffectEntry>,
    pub total_particle_effect_odds: i32,
    pub stat_trackers: Vec<StatTrackerEntry>,
    pub total_stat_tracker_odds: i32,
    /// The entry's weight within its series.
    pub odds: i32,
    /// Whether an item with neither a particle effect nor a stat tracker
    /// may come out.
    pub allow_plain: bool,
}

impl Weighted for CrateSeriesEntry {
    open spec fn weight(&self) -> int {
        self.odds as int
    }

    fn odds(&self) -> (r: i32) {
        self.odds
    }
}

/// What the passes of the retry loop have locked in so far.
pub struct Roll {
    pub effect: Option<Arc<ParticleEffect>>,
    pub stat_tracker: Option<StatTracker>,
    /// The passes made.
    pub passes: u128,
}

impl Roll {
    pub fn new() -> (r: Roll)
        ensures
            r.effect is None,
            r.stat_tracker is None,
            r.passes == 0,
    {
        Roll { effect: None, stat_tracker: None, passes: 0 }
    }
}

/// How the retry loop goes on after a pass.
#[derive(PartialEq, Eq, Structural, Debug, Clone, Copy)]
pub enum RollStep {
    /// The item qualifies.
    Done,
    /// Roll again.
    Again,
    /// Plain items are refused, yet only particle effects are offered.
    NoQualities,
    /// The pass limit was reached without a qualifying item.
    TooManyPasses,
}

impl CrateSeriesEntry {
    /// No weight is negative.
    pub open spec fn wf(&self) -> bool {
        &&& nonnegative(weights_of(self.particle_effects@))
        &&& nonnegative(weights_of(self.stat_trackers@))
    }

    /// The totals are the sums of the weights.
    pub open spec fn totals_match(&self) -> bool {
        &&& self.total_particle_effect_odds == total_weight(weights_of(self.particle_effects@))
        &&& self.total_stat_tracker_odds == total_weight(weights_of(self.stat_trackers@))
    }

    /// Plain items are refused, yet particle effects are offered and stat
    /// trackers are not.
    pub open spec fn no_qualities(&self) -> bool {
        &&& !self.allow_plain
        &&& self.total_stat_tracker_odds == 0
        &&& self.total_particle_effect_odds > 0
    }

    pub open spec fn spec_loop_limit(&self) -> int {
        (10 * (self.particle_effects@.len() + self.stat_trackers@.len())) as int
    }

    /// The particle effect that `sample` draws from the table, if it names
    /// one that the catalog holds.
    pub open spec fn drawn_effect(&self, particles: Catalog<ParticleEffect>, sample: int) -> Option<
        Arc<ParticleEffect>,
    > {
        match weighted_choice(weights_of(self.particle_effects@), sample) {
            Some(i) => match self.particle_effects@[i].particle_effect_key {
                Some(k) => particles.spec_get(k@),
                None => None,
            },
            None => None,
        }
    }

    /// The stat tracker that `sample` draws from the table, if any.
    pub open spec fn drawn_tracker(&self, sample: int) -> Option<StatTracker> {
        match weighted_choice(weights_of(self.stat_trackers@), sample) {
            Some(i) => self.stat_trackers@[i].stat_tracker,
            None => None,
        }
    }

    /// The roll after one pass with the given samples: each table with a
    /// positive total is drawn from, and what a draw yields is kept only
    /// where nothing was kept before.
    pub open spec fn after_pass(
        &self,
        particles: Catalog<ParticleEffect>,
        roll: Roll,
        effect_sample: int,
        tracker_sample: int,
    ) -> Roll {
        Roll {
            effect: if roll.effect is None && self.total_particle_effect_odds > 0 {
                self.drawn_effect(particles, effect_sample)
            } else {
                roll.effect
            },
            stat_tracker: if roll.stat_tracker is None && self.total_stat_tracker_odds > 0 {
                self.drawn_tracker(tracker_sample)
            } else {
                roll.stat_tracker
            },
            passes: (roll.passes + 1) as u128,
        }
    }

    /// How the loop goes on from `roll`, the roll after a pass.
    pub open spec fn verdict(&self, roll: Roll) -> RollStep {
        if self.no_qualities() {
            RollStep::NoQualities
        } else if self.allow_plain || roll.effect is Some || roll.stat_tracker is Some {
            RollStep::Done
        } else if roll.passes >= self.spec_loop_limit() {
            RollStep::TooManyPasses
        } else {
            RollStep::Again
        }
    }

    /// Some option of the table names `effect` in the catalog and has a
    /// positive weight.
    pub open spec fn offers_effect(
        &self,
        particles: Catalog<ParticleEffect>,
        effect: Arc<ParticleEffect>,
    ) -> bool {
        exists|i: int|
            0 <= i < self.particle_effects@.len() && self.particle_effects@[i].odds > 0 && (
            match (#[trigger] self.particle_effects@[i]).particle_effect_key {
                Some(k) => particles.spec_get(k@) == Some(effect),
                None => false,
            })
    }

    /// Some option of the table holds `tracker` and has a positive weight.
    pub open spec fn offers_tracker(&self, tracker: StatTracker) -> bool {
        exists|i: int|
            0 <= i < self.stat_trackers@.len() && self.stat_trackers@[i].odds > 0
                && (#[trigger] self.stat_trackers@[i]).stat_tracker == Some(tracker)
    }

    /// The roll after one pass for each pair of samples, from a fresh roll.
    pub open spec fn roll_after(
        &self,
        particles: Catalog<ParticleEffect>,
        effect_samples: Seq<int>,
        tracker_samples: Seq<int>,
    ) -> Roll
        decreases effect_samples.len(),
    {
        if effect_samples.len() == 0 || tracker_samples.len() != effect_samples.len() {
            Roll { effect: None, stat_tracker: None, passes: 0 }
        } else {
            self.after_pass(
                particles,
                self.roll_after(particles, effect_samples.drop_last(), tracker_samples.drop_last()),
                effect_samples.last(),
                tracker_samples.last(),
            )
        }
    }

    /// Each pass has a sample of each table below the table's total, or 0
    /// where the total is not positive.
    pub open spec fn samples_fit(&self, effect_samples: Seq<int>, tracker_samples: Seq<int>) -> bool {
        &&& effect_samples.len() == tracker_samples.len()
        &&& forall|i: int|
            0 <= i < effect_samples.len() ==> {
                &&& 0 <= #[trigger] effect_samples[i]
                &&& self.total_particle_effect_odds > 0 ==> effect_samples[i]
                    < self.total_particle_effect_odds
                &&& self.total_particle_effect_odds <= 0 ==> effect_samples[i] == 0
                &&& 0 <= tracker_samples[i]
                &&& self.total_stat_tracker_odds > 0 ==> tracker_samples[i]
                    < self.total_stat_tracker_odds
                &&& self.total_stat_tracker_odds <= 0 ==> tracker_samples[i] == 0
            }
    }

    /// The samples make a whole run of the retry loop: at least one pass and
    /// at most `max(1, loop limit)` of them, every pass but the last saying
    /// to roll again.
    pub open spec fn is_run(
        &self,
        particles: Catalog<ParticleEffect>,
        effect_samples: Seq<int>,
        tracker_samples: Seq<int>,
    ) -> bool {
        &&& self.samples_fit(effect_samples, tracker_samples)
        &&& 1 <= effect_samples.len()
        &&& effect_samples.len() <= 1 || effect_samples.len() <= self.spec_loop_limit()
        &&& forall|k: int|
            1 <= k < effect_samples.len() ==> self.verdict(
                #[trigger] self.roll_after(particles, effect_samples.take(k), tracker_samples.take(k)),
            ) == RollStep::Again
    }

    /// What the last roll of a run gives: the item when it qualifies, the
    /// loop error when the pass limit was reached.
    pub open spec fn run_gives(&self, prototype: Arc<Prototype>, roll: Roll, r: Result<Item, UnlockProblem>) -> bool {
        match self.verdict(roll) {
            RollStep::Done => r matches Ok(item) && item.is_fresh(
                *prototype,
                roll.stat_tracker,
                roll.effect,
            ),
            RollStep::TooManyPasses => r matches Err(UnlockProblem::ItemCreationLoop),
            _ => false,
        }
    }

    /// What holds of every result of unboxing the entry.
    pub open spec fn unbox_outcome(
        &self,
        prototypes: Catalog<Prototype>,
        particles: Catalog<ParticleEffect>,
        r: Result<Item, UnlockProblem>,
    ) -> bool {
        match prototypes.spec_get(self.prototype_key@) {
            None => r matches Err(UnlockProblem::NoSuchPrototype(k)) && k@ == self.prototype_key@,
            Some(p) => if self.no_qualities() {
                r matches Err(UnlockProblem::NoQualities(k)) && k@ == self.prototype_key@
            } else {
                &&& exists|es: Seq<int>, ts: Seq<int>|
                    #[trigger] self.is_run(particles, es, ts) && self.run_gives(
                        p,
                        self.roll_after(particles, es, ts),
                        r,
                    )
                &&& match r {
                    Ok(item) => {
                        &&& item.is_fresh(*p, item.stat_tracker, item.particle_effect)
                        &&& self.allow_plain || item.particle_effect is Some
                            || item.stat_tracker is Some
                        &&& item.particle_effect matches Some(e) ==> self.offers_effect(
                            particles,
                            e,
                        )
                        &&& item.stat_tracker matches Some(t) ==> self.offers_tracker(t)
                        &&& self.total_particle_effect_odds <= 0 ==> item.particle_effect is None
                        &&& self.total_stat_tracker_odds <= 0 ==> item.stat_tracker is None
                    },
                    Err(e) => e is ItemCreationLoop && !self.allow_plain,
                }
            },
        }
    }

    /// An entry with empty tables that allows plain items.
    pub fn new(prototype_key: &str, odds: i32) -> (r: CrateSeriesEntry)
        ensures
            r.prototype_key@ == prototype_key@,
            r.odds == odds,
            r.allow_plain,
            r.particle_effects@.len() == 0,
            r.stat_trackers@.len() == 0,
            r.total_particle_effect_odds == 0,
            r.total_stat_tracker_odds == 0,
            r.wf(),
            r.totals_match(),
    {
        let r = CrateSeriesEntry {
            prototype_key: prototype_key.to_owned(),
            particle_effects: Vec::new(),
            stat_trackers: Vec::new(),
            odds,
            allow_plain: true,
            total_particle_effect_odds: 0,
            total_stat_tracker_odds: 0,
        };
        assert(weights_of(r.particle_effects@) =~= Seq::<int>::empty());
        assert(weights_of(r.stat_trackers@) =~= Seq::<int>::empty());
        r
    }

    /// An entry with the given tables and policy.
    pub fn new_with(
        prototype_key: &str,
        odds: i32,
        allow_plain: bool,
        particle_effects: Vec<ParticleEffectEntry>,
        stat_trackers: Vec<StatTrackerEntry>,
    ) -> (r: CrateSeriesEntry)
        requires
            nonnegative(weights_of(particle_effects@)),
            total_weight(weights_of(particle_effects@)) <= i32::MAX,
            nonnegative(weights_of(stat_trackers@)),
            total_weight(weights_of(stat_trackers@)) <= i32::MAX,
        ensures
            r.prototype_key@ == prototype_key@,
            r.odds == odds,
            r.allow_plain == allow_plain,
            r.particle_effects@ == particle_effects@,
            r.stat_trackers@ == stat_trackers@,
            r.wf(),
            r.totals_match(),
    {
        let mut entry = CrateSeriesEntry::new(prototype_key, odds);
        entry.allow_plain = allow_plain;
        entry.total_particle_effect_odds = sum_odds(&particle_effects);
        entry.total_stat_tracker_odds = sum_odds(&stat_trackers);
        entry.particle_effects = particle_effects;
        entry.stat_trackers = stat_trackers;
        entry
    }

    /// Adds an option to the particle-effect table and its weight to the
    /// table's total.
    pub fn add_particle_effect(&mut self, particle_effect: ParticleEffectEntry)
        requires
            old(self).total_particle_effect_odds + particle_effect.odds <= i32::MAX,
            old(self).total_particle_effect_odds + particle_effect.odds >= i32::MIN,
        ensures
            final(self).particle_effects@ == old(self).particle_effects@.push(particle_effect),
            final(self).total_particle_effect_odds == old(self).total_particle_effect_odds
                + particle_effect.odds,
            final(self).prototype_key == old(self).prototype_key,
            final(self).stat_trackers == old(self).stat_trackers,
            final(self).total_stat_tracker_odds == old(self).total_stat_tracker_odds,
            final(self).odds == old(self).odds,
            final(self).allow_plain == old(self).allow_plain,
    {
        self.total_particle_effect_odds = self.total_particle_effect_odds + particle_effect.odds;
        self.particle_effects.push(particle_effect);
    }

    /// Adds an option to the stat-tracker table and its weight to the
    /// table's total.
    pub fn add_stat_tracker(&mut self, stat_tracker: StatTrackerEntry)
        requires
            old(self).total_stat_tracker_odds + stat_tracker.odds <= i32::MAX,
            old(self).total_stat_tracker_odds + stat_tracker.odds >= i32::MIN,
        ensures
            final(self).stat_trackers@ == old(self).stat_trackers@.push(stat_tracker),
            final(self).total_stat_tracker_odds == old(self).total_stat_tracker_odds
                + stat_tracker.odds,
            final(self).prototype_key == old(self).prototype_key,
            final(self).particle_effects == old(self).particle_effects,
            final(self).total_particle_effect_odds == old(self).total_particle_effect_odds,
            final(self).odds == old(self).odds,
            final(self).allow_plain == old(self).allow_plain,
    {
        self.total_stat_tracker_odds = self.total_stat_tracker_odds + stat_tracker.odds;
        self.stat_trackers.push(stat_tracker);
    }

    /// The most passes the retry loop makes.
    pub fn loop_limit(&self) -> (r: u128)
        ensures
            r == self.spec_loop_limit(),
    {
        (self.particle_effects.len() as u128 + self.stat_trackers.len() as u128) * 10
    }

    /// One pass of the retry loop, with the samples drawn for it; a sample is
    /// read only where its table's total is positive.
    pub fn roll_pass(
        &self,
        particles: &Catalog<ParticleEffect>,
        roll: &mut Roll,
        effect_sample: i32,
        tracker_sample: i32,
    ) -> (step: RollStep)
        requires
            self.wf(),
            old(roll).passes < u128::MAX,
            0 <= effect_sample,
            0 <= tracker_sample,
        ensures
            *final(roll) == self.after_pass(
                *particles,
                *old(roll),
                effect_sample as int,
                tracker_sample as int,
            ),
            step == self.verdict(*final(roll)),
    {
        roll.passes = roll.passes + 1;
        if self.total_particle_effect_odds > 0 && roll.effect.is_none() {
            match choose_weighted(&self.particle_effects, effect_sample) {
                Some(i) => {
                    match &self.particle_effects[i].particle_effect_key {
                        Some(key) => {
                            roll.effect = particles.get(key.as_str());
                        },
                        None => {},
                    }
                },
                None => {},
            }
        }
        if self.total_stat_tracker_odds > 0 && roll.stat_tracker.is_none() {
            match choose_weighted(&self.stat_trackers, tracker_sample) {
                Some(i) => {
                    roll.stat_tracker = self.stat_trackers[i].stat_tracker;
                },
                None => {},
            }
        }
        if !self.allow_plain && self.total_stat_tracker_odds == 0
            && self.total_particle_effect_odds > 0 {
            return RollStep::NoQualities;
        }
        if self.allow_plain || roll.effect.is_some() || roll.stat_tracker.is_some() {
            return RollStep::Done;
        }
        if roll.passes >= self.loop_limit() {
            return RollStep::TooManyPasses;
        }
        RollStep::Again
    }

    proof fn lemma_pass_keeps_offers(
        &self,
        particles: Catalog<ParticleEffect>,
        roll: Roll,
        effect_sample: int,
        tracker_sample: int,
    )
        requires
            roll.effect matches Some(e) ==> self.offers_effect(particles, e),
            roll.stat_tracker matches Some(t) ==> self.offers_tracker(t),
        ensures
            ({
                let next = self.after_pass(particles, roll, effect_sample, tracker_sample);
                &&& next.effect matches Some(e) ==> self.offers_effect(particles, e)
                &&& next.stat_tracker matches Some(t) ==> self.offers_tracker(t)
            }),
    {
        lemma_choice_positive(weights_of(self.particle_effects@), effect_sample);
        lemma_choice_positive(weights_of(self.stat_trackers@), tracker_sample);
    }

    /// Draws an item: looks up the prototype, then rolls both tables pass
    /// after pass until the item qualifies, plain items are found refused
    /// with only particle effects offered, or the pass limit is reached.
    pub fn unbox_one(&self, prototypes: &Catalog<Prototype>, particles: &Catalog<
        ParticleEffect,
    >) -> (r: Result<Item, UnlockProblem>)
        requires
            self.wf(),
        ensures
            self.unbox_outcome(*prototypes, *particles, r),
    {
        let prototype = match prototypes.get(self.prototype_key.as_str()) {
            Some(p) => p,
            None => {
                return Err(UnlockProblem::NoSuchPrototype(self.prototype_key.clone()));
            },
        };
        let limit = self.loop_limit();
        let mut roll = Roll::new();
        let ghost mut es: Seq<int> = Seq::empty();
        let ghost mut ts: Seq<int> = Seq::empty();
        loop
            invariant
                self.wf(),
                prototypes.spec_get(self.prototype_key@) == Some(prototype),
                limit == self.spec_loop_limit(),
                roll.passes == 0 || roll.passes < limit,
                roll.passes == es.len(),
                roll == self.roll_after(*particles, es, ts),
                self.samples_fit(es, ts),
                forall|k: int|
                    1 <= k < es.len() ==> self.verdict(
                        #[trigger] self.roll_after(*particles, es.take(k), ts.take(k)),
                    ) == RollStep::Again,
                es.len() >= 1 ==> self.verdict(roll) == RollStep::Again,
                roll.effect matches Some(e) ==> self.offers_effect(*particles, e),
                roll.stat_tracker matches Some(t) ==> self.offers_tracker(t),
                self.total_particle_effect_odds <= 0 ==> roll.effect is None,
                self.total_stat_tracker_odds <= 0 ==> roll.stat_tracker is None,
            decreases limit - roll.passes,
        {
            let effect_sample = if self.total_particle_effect_odds > 0 {
                sample_below(self.total_particle_effect_odds)
            } else {
                0
            };
            let tracker_sample = if self.total_stat_tracker_odds > 0 {
                sample_below(self.total_stat_tracker_odds)
            } else {
                0
            };
            proof {
                self.lemma_pass_keeps_offers(
                    *particles,
                    roll,
                    effect_sample as int,
                    tracker_sample as int,
                );
            }
            let ghost before_es = es;
            let ghost before_ts = ts;
            let ghost before = roll;
            let step = self.roll_pass(particles, &mut roll, effect_sample, tracker_sample);
            proof {
                es = es.push(effect_sample as int);
                ts = ts.push(tracker_sample as int);
                assert(es.drop_last() =~= before_es);
                assert(ts.drop_last() =~= before_ts);
                assert(roll == self.roll_after(*particles, es, ts));
                assert forall|k: int| 1 <= k < es.len() implies self.verdict(
                    #[trigger] self.roll_after(*particles, es.take(k), ts.take(k)),
                ) == RollStep::Again by {
                    assert(es.take(k) =~= before_es.take(k));
                    assert(ts.take(k) =~= before_ts.take(k));
                    if k == before_es.len() {
                        assert(before_es.take(k) =~= before_es);
                        assert(before_ts.take(k) =~= before_ts);
                    }
                }
                assert(self.samples_fit(es, ts)) by {
                    assert(es[before_es.len() as int] == effect_sample as int);
                    assert(ts[before_es.len() as int] == tracker_sample as int);
                    assert forall|i: int| 0 <= i < es.len() implies ({
                        &&& 0 <= #[trigger] es[i]
                        &&& self.total_particle_effect_odds > 0 ==> es[i]
                            < self.total_particle_effect_odds
                        &&& self.total_particle_effect_odds <= 0 ==> es[i] == 0
                        &&& 0 <= ts[i]
                        &&& self.total_stat_tracker_odds > 0 ==> ts[i] < self.total_stat_tracker_odds
                        &&& self.total_stat_tracker_odds <= 0 ==> ts[i] == 0
                    }) by {
                        if i < before_es.len() {
                            assert(es[i] == before_es[i]);
                            assert(ts[i] == before_ts[i]);
                        }
                    }
                }
            }
            match step {
                RollStep::Done => {
                    assert(self.is_run(*particles, es, ts));
                    let item = Item::new_with(prototype, roll.stat_tracker, roll.effect);
                    assert(self.run_gives(prototype, self.roll_after(*particles, es, ts), Ok(item)));
                    return Ok(item);
                },
                RollStep::Again => {},
                RollStep::NoQualities => {
                    return Err(UnlockProblem::NoQualities(self.prototype_key.clone()));
                },
                RollStep::TooManyPasses => {
                    assert(self.is_run(*particles, es, ts));
                    return Err(UnlockProblem::ItemCreationLoop);
                },
            }
        }
    }
}

/// An entry that refuses plain items, whose particle-effect table has a
/// positive total and whose stat-tracker table is empty, ends every unbox of
/// a catalogued prototype in `NoQualities`: the very first pass says so,
/// whatever was drawn.
pub proof fn lemma_no_trackers_no_qualities(
    entry: CrateSeriesEntry,
    prototypes: Catalog<Prototype>,
    particles: Catalog<ParticleEffect>,
    roll: Roll,
    effect_sample: int,
    tracker_sample: int,
    r: Result<Item, UnlockProblem>,
)
    requires
        entry.totals_match(),
        !entry.allow_plain,
        total_weight(weights_of(entry.particle_effects@)) > 0,
        entry.stat_trackers@.len() == 0,
        prototypes.spec_get(entry.prototype_key@) is Some,
        entry.unbox_outcome(prototypes, particles, r),
    ensures
        r matches Err(UnlockProblem::NoQualities(k)) && k@ == entry.prototype_key@,
        entry.verdict(entry.after_pass(particles, roll, effect_sample, tracker_sample))
            == RollStep::NoQualities,
{
    assert(weights_of(entry.stat_trackers@) =~= Seq::<int>::empty());
}

/// An entry that allows plain items and has empty tables unboxes every
/// catalogued prototype into a plain item of it, done on the first pass.
pub proof fn lemma_plain_entry_succeeds(
    entry: CrateSeriesEntry,
    prototypes: Catalog<Prototype>,
    particles: Catalog<ParticleEffect>,
    effect_sample: int,
    tracker_sample: int,
    r: Result<Item, UnlockProblem>,
)
    requires
        entry.totals_match(),
        entry.allow_plain,
        entry.particle_effects@.len() == 0,
        entry.stat_trackers@.len() == 0,
        prototypes.spec_get(entry.prototype_key@) is Some,
        entry.unbox_outcome(prototypes, particles, r),
    ensures
        r matches Ok(item) && item.is_fresh(
            *prototypes.spec_get(entry.prototype_key@).unwrap(),
            None,
            None,
        ),
        ({
            let first = entry.after_pass(
                particles,
                Roll { effect: None, stat_tracker: None, passes: 0 },
                effect_sample,
                tracker_sample,
            );
            &&& entry.verdict(first) == RollStep::Done
            &&& first.effect is None
            &&& first.stat_tracker is None
        }),
{
    assert(weights_of(entry.particle_effects@) =~= Seq::<int>::empty());
    assert(weights_of(entry.stat_trackers@) =~= Seq::<int>::empty());
}

/// An entry whose stat-tracker table has a positive total, matching its
/// weights, and whose every option of positive weight holds a tracker,
/// unboxes every catalogued prototype into an item, on the first pass:
/// whatever is drawn qualifies.
pub proof fn lemma_qualifying_trackers_succeed(
    entry: CrateSeriesEntry,
    prototypes: Catalog<Prototype>,
    particles: Catalog<ParticleEffect>,
    r: Result<Item, UnlockProblem>,
)
    requires
        entry.wf(),
        entry.total_stat_tracker_odds > 0,
        entry.total_stat_tracker_odds == total_weight(weights_of(entry.stat_trackers@)),
        forall|i: int|
            0 <= i < entry.stat_trackers@.len() && (#[trigger] entry.stat_trackers@[i]).odds > 0
                ==> entry.stat_trackers@[i].stat_tracker is Some,
        prototypes.spec_get(entry.prototype_key@) is Some,
        entry.unbox_outcome(prototypes, particles, r),
    ensures
        r matches Ok(item) && item.stat_tracker is Some,
{
    let p = prototypes.spec_get(entry.prototype_key@).unwrap();
    assert(!entry.no_qualities());
    let (es, ts) = choose|es: Seq<int>, ts: Seq<int>|
        #[trigger] entry.is_run(particles, es, ts) && entry.run_gives(
            p,
            entry.roll_after(particles, es, ts),
            r,
        );
    let w = weights_of(entry.stat_trackers@);
    let first = entry.roll_after(particles, es.take(1), ts.take(1));
    assert(es.take(1).drop_last() =~= Seq::<int>::empty());
    assert(ts.take(1).drop_last() =~= Seq::<int>::empty());
    assert(0 <= ts[0] < entry.total_stat_tracker_odds);
    lemma_choice_exists(w, ts[0]);
    lemma_choice_positive(w, ts[0]);
    assert(first.stat_tracker is Some);
    assert(entry.verdict(first) == RollStep::Done);
    if es.len() > 1 {
        assert(entry.verdict(entry.roll_after(particles, es.take(1), ts.take(1))) == RollStep::Again);
    }
    assert(es.take(1) =~= es);
    assert(ts.take(1) =~= ts);
}

} // verus!
