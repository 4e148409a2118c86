//! The options of an entry's particle-effect and stat-tracker tables.
use vstd::prelude::*;
use crate::item::StatTracker;
use crate::weighted::Weighted;

verus! {

/// A particle effect, named by its catalog key, or none, with a weight.
pub struct ParticleEffectEntry {
    pub particle_effect_key: Option<String>,
    pub odds: i32,
}

impl ParticleEffectEntry {
    pub fn none(odds: i32) -> (r: ParticleEffectEntry)
        ensures
            r.particle_effect_key is None,
            r.odds == odds,
    {
        ParticleEffectEntry { particle_effect_key: None, odds }
    }

    pub fn some(odds: i32, particle_effect_key: String) -> (r: ParticleEffectEntry)
        ensures
            r.particle_effect_key == Some(particle_effect_key),
            r.odds == odds,
    {
        ParticleEffectEntry { particle_effect_key: Some(particle_effect_key), odds }
    }
}

impl Weighted for ParticleEffectEntry {
    open spec fn weight(&self) -> int {
        self.odds as int
    }

    fn odds(&self) -> (r: i32) {
        self.odds
    }
}

/// A stat tracker, or none, with a weight.
pub struct StatTrackerEntry {
    pub stat_tracker: Option<StatTracker>,
    pub odds: i32,
}

impl StatTrackerEntry {
    pub fn none(odds: i32) -> (r: StatTrackerEntry)
        ensures
            r.stat_tracker is None,
            r.odds == odds,
    {
        StatTrackerEntry { stat_tracker: None, odds }
    }

    /// A tracker of kills.
    pub fn kills(odds: i32) -> (r: StatTrackerEntry)
        ensures
            r.stat_tracker == Some(StatTracker::kills_only()),
            r.odds == odds,
    {
        StatTrackerEntry { stat_tracker: Some(StatTracker::default_kills()), odds }
    }

    /// A tracker of kills, assists, damage and points.
    pub fn max_weapon(odds: i32) -> (r: StatTrackerEntry)
        ensures
            r.stat_tracker == Some(StatTracker::weapon_max()),
            r.odds == odds,
    {
        StatTrackerEntry {
            stat_tracker: Some(
                StatTracker {
                    kills: Some(0),
                    assists: Some(0),
                    damage: Some(0),
                    points: Some(0),
                    healing: None,
                    invulns: None,
                },
            ),
            odds,
        }
    }

    /// A tracker of healing.
    pub fn healing(odds: i32) -> (r: StatTrackerEntry)
        ensures
            r.stat_tracker == Some(StatTracker::healing_only()),
            r.odds == odds,
    {
        StatTrackerEntry { stat_tracker: Some(StatTracker::default_healing()), odds }
    }

    /// A tracker of healing and invulnerabilities.
    pub fn max_medigun(odds: i32) -> (r: StatTrackerEntry)
        ensures
            r.stat_tracker == Some(StatTracker::medigun_max()),
            r.odds == odds,
    {
        StatTrackerEntry {
            stat_tracker: Some(
                StatTracker {
                    kills: None,
                    assists: None,
                    damage: None,
                    points: None,
                    healing: Some(0),
                    invulns: Some(0),
                },
            ),
            odds,
        }
    }

    /// A tracker of points.
    pub fn points(odds: i32) -> (r: StatTrackerEntry)
        ensures
            r.stat_tracker == Some(StatTracker::points_only()),
            r.odds == odds,
    {
        StatTrackerEntry { stat_tracker: Some(StatTracker::default_points()), odds }
    }
}

impl Weighted for StatTrackerEntry {
    open spec fn weight(&self) -> int {
        self.odds as int
    }

    fn odds(&self) -> (r: i32) {
        self.odds
    }
}

} // verus!
