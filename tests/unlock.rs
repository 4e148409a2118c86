use std::sync::Arc;

use grackle::catalog::Catalog;
use grackle::entries::{ParticleEffectEntry, StatTrackerEntry};
use grackle::item::{ParticleEffect, Prototype, StatTracker};
use grackle::lang::{LangEntry, LangValue};
use grackle::series::CrateSeries;
use grackle::series_entry::{CrateSeriesEntry, Roll, RollStep};
use grackle::unlock::{
    decimal_text, init_crate_series, init_particle_effects, init_prototype_map, unlock,
    LootTables, UnlockProblem,
};
use grackle::weighted::choose_weighted;

fn top_hat_entry(allow_plain: bool) -> CrateSeriesEntry {
    CrateSeriesEntry::new_with(
        "top_hat",
        100,
        allow_plain,
        vec![
            ParticleEffectEntry::none(1000),
            ParticleEffectEntry::some(100, "electric".to_string()),
            ParticleEffectEntry::some(100, "fire".to_string()),
            ParticleEffectEntry::some(100, "fire-blue".to_string()),
        ],
        vec![StatTrackerEntry::none(1000), StatTrackerEntry::points(100)],
    )
}

#[test]
fn weighted_choice_uses_half_open_ranges() {
    let entries = vec![
        StatTrackerEntry::none(2),
        StatTrackerEntry::none(0),
        StatTrackerEntry::none(3),
    ];
    assert_eq!(choose_weighted(&entries, 0), Some(0));
    assert_eq!(choose_weighted(&entries, 1), Some(0));
    assert_eq!(choose_weighted(&entries, 2), Some(2));
    assert_eq!(choose_weighted(&entries, 4), Some(2));
    assert_eq!(choose_weighted(&entries, 5), None);
    let empty: Vec<StatTrackerEntry> = Vec::new();
    assert_eq!(choose_weighted(&empty, 0), None);
}

#[test]
fn each_option_owns_as_many_samples_as_its_weight() {
    let entries = vec![
        StatTrackerEntry::none(7),
        StatTrackerEntry::none(0),
        StatTrackerEntry::none(5),
        StatTrackerEntry::none(1),
    ];
    let mut counts = [0usize; 4];
    for s in 0..13 {
        counts[choose_weighted(&entries, s).unwrap()] += 1;
    }
    assert_eq!(counts, [7, 0, 5, 1]);
}

#[test]
fn unlock_out_of_range_is_no_such_series() {
    let tables = LootTables::standard();
    assert!(matches!(unlock(&tables, 2), Err(UnlockProblem::NoSuchSeries(2))));
    assert!(matches!(unlock(&tables, u32::MAX), Err(UnlockProblem::NoSuchSeries(u32::MAX))));
    let empty = LootTables {
        prototypes: Catalog::new(),
        particles: Catalog::new(),
        series: Vec::new(),
    };
    assert!(matches!(unlock(&empty, 0), Err(UnlockProblem::NoSuchSeries(0))));
}

#[test]
fn stock_series_frequencies_follow_weights() {
    let tables = LootTables::standard();
    let mut shotgun = 0;
    let mut medigun = 0;
    let mut top_hat = 0;
    for _ in 0..10_000 {
        let item = match unlock(&tables, 0) {
            Ok(item) => item,
            Err(_) => panic!("stock series failed"),
        };
        assert!(item.particle_effect.is_none());
        assert!(item.stat_tracker.is_none());
        match item.prototype.name_key.as_str() {
            "shotgun" => shotgun += 1,
            "medigun" => medigun += 1,
            "top_hat" => top_hat += 1,
            other => panic!("unexpected prototype {}", other),
        }
    }
    let share = |n: i32| n as f64 / 10_000.0;
    assert!((share(shotgun) - 0.5).abs() <= 0.05);
    assert!((share(medigun) - 0.25).abs() <= 0.05);
    assert!((share(top_hat) - 0.25).abs() <= 0.05);
}

#[test]
fn no_trackers_without_plain_is_no_qualities() {
    let prototypes = init_prototype_map();
    let particles = init_particle_effects();
    let entry = CrateSeriesEntry::new_with(
        "top_hat",
        100,
        false,
        vec![ParticleEffectEntry::none(1000), ParticleEffectEntry::some(100, "fire".to_string())],
        vec![],
    );
    for _ in 0..50 {
        match entry.unbox_one(&prototypes, &particles) {
            Err(UnlockProblem::NoQualities(key)) => assert_eq!(key, "top_hat"),
            _ => panic!("expected NoQualities"),
        }
    }
    let mut roll = Roll::new();
    assert_eq!(entry.roll_pass(&particles, &mut roll, 1050, 0), RollStep::NoQualities);
    assert_eq!(roll.passes, 1);
}

#[test]
fn plain_entry_with_empty_tables_succeeds_at_once() {
    let prototypes = init_prototype_map();
    let particles = init_particle_effects();
    let entry = CrateSeriesEntry::new("medigun", 5);
    for _ in 0..50 {
        let item = match entry.unbox_one(&prototypes, &particles) {
            Ok(item) => item,
            Err(_) => panic!("expected an item"),
        };
        assert!(item.particle_effect.is_none());
        assert!(item.stat_tracker.is_none());
        assert_eq!(item.prototype.name_key, "medigun");
    }
    let mut roll = Roll::new();
    assert_eq!(entry.roll_pass(&particles, &mut roll, 0, 0), RollStep::Done);
    assert_eq!(roll.passes, 1);
}

#[test]
fn top_hat_sometimes_comes_out_plain() {
    let prototypes = init_prototype_map();
    let particles = init_particle_effects();
    let entry = top_hat_entry(true);
    let mut plain = 0;
    let mut fancy = 0;
    for _ in 0..2_000 {
        let item = match entry.unbox_one(&prototypes, &particles) {
            Ok(item) => item,
            Err(_) => panic!("expected an item"),
        };
        if item.particle_effect.is_none() && item.stat_tracker.is_none() {
            plain += 1;
        } else {
            fancy += 1;
        }
    }
    assert!(plain > 0);
    assert!(fancy > 0);
    let mut roll = Roll::new();
    assert_eq!(entry.roll_pass(&particles, &mut roll, 0, 0), RollStep::Done);
    assert!(roll.effect.is_none());
    assert!(roll.stat_tracker.is_none());
}

#[test]
fn roll_pass_locks_in_drawn_options() {
    let particles = init_particle_effects();
    let entry = top_hat_entry(false);
    assert_eq!(entry.loop_limit(), 60);
    let mut roll = Roll::new();
    assert_eq!(entry.roll_pass(&particles, &mut roll, 999, 999), RollStep::Again);
    assert!(roll.effect.is_none());
    assert!(roll.stat_tracker.is_none());
    assert_eq!(entry.roll_pass(&particles, &mut roll, 1150, 1000), RollStep::Done);
    assert_eq!(roll.effect.as_ref().unwrap().name_key, "fire");
    assert_eq!(roll.stat_tracker, Some(StatTracker::default_points()));
    assert_eq!(roll.passes, 2);
    assert_eq!(entry.roll_pass(&particles, &mut roll, 1250, 0), RollStep::Done);
    assert_eq!(roll.effect.as_ref().unwrap().name_key, "fire");
    assert_eq!(roll.stat_tracker, Some(StatTracker::default_points()));
}

#[test]
fn unknown_effect_key_is_skipped() {
    let particles = init_particle_effects();
    let entry = CrateSeriesEntry::new_with(
        "top_hat",
        1,
        false,
        vec![ParticleEffectEntry::some(10, "smoke".to_string())],
        vec![StatTrackerEntry::none(10)],
    );
    let mut roll = Roll::new();
    assert_eq!(entry.roll_pass(&particles, &mut roll, 3, 3), RollStep::Again);
    assert!(roll.effect.is_none());
}

#[test]
fn retry_loop_stops_at_its_limit() {
    let prototypes = init_prototype_map();
    let particles = init_particle_effects();
    let entry = CrateSeriesEntry::new_with(
        "shotgun",
        1,
        false,
        vec![],
        vec![StatTrackerEntry::none(10)],
    );
    assert_eq!(entry.loop_limit(), 10);
    assert!(matches!(entry.unbox_one(&prototypes, &particles), Err(UnlockProblem::ItemCreationLoop)));
    let mut roll = Roll::new();
    for _ in 0..9 {
        assert_eq!(entry.roll_pass(&particles, &mut roll, 0, 5), RollStep::Again);
    }
    assert_eq!(entry.roll_pass(&particles, &mut roll, 0, 5), RollStep::TooManyPasses);
}

#[test]
fn unknown_prototype_is_reported() {
    let prototypes = init_prototype_map();
    let particles = init_particle_effects();
    let entry = CrateSeriesEntry::new("rocket", 1);
    match entry.unbox_one(&prototypes, &particles) {
        Err(UnlockProblem::NoSuchPrototype(key)) => assert_eq!(key, "rocket"),
        _ => panic!("expected NoSuchPrototype"),
    }
}

#[test]
fn sample_beyond_entries_is_invalid_choice() {
    let prototypes = init_prototype_map();
    let particles = init_particle_effects();
    let mut series = CrateSeries::new(
        "Test".to_string(),
        9,
        vec![CrateSeriesEntry::new("shotgun", 3), CrateSeriesEntry::new("medigun", 2)],
    );
    assert_eq!(series.total_odds, 5);
    let item = series.unbox_with(&prototypes, &particles, 3).ok().unwrap();
    assert_eq!(item.prototype.name_key, "medigun");
    assert!(matches!(
        series.unbox_with(&prototypes, &particles, 5),
        Err(UnlockProblem::InvalidEntryChoice(5))
    ));
    series.total_odds = 50;
    let mut invalid = 0;
    for _ in 0..200 {
        if let Err(UnlockProblem::InvalidEntryChoice(s)) = series.unbox_one(&prototypes, &particles) {
            assert!((5..50).contains(&s));
            invalid += 1;
        }
    }
    assert!(invalid > 0);
}

#[test]
fn entry_totals_accumulate() {
    let mut entry = CrateSeriesEntry::new("top_hat", 4);
    assert!(entry.allow_plain);
    entry.add_particle_effect(ParticleEffectEntry::none(30));
    entry.add_particle_effect(ParticleEffectEntry::some(12, "fire".to_string()));
    entry.add_stat_tracker(StatTrackerEntry::max_weapon(7));
    assert_eq!(entry.total_particle_effect_odds, 42);
    assert_eq!(entry.total_stat_tracker_odds, 7);
    assert_eq!(entry.particle_effects.len(), 2);
    assert_eq!(top_hat_entry(true).total_particle_effect_odds, 1300);
    assert_eq!(top_hat_entry(true).total_stat_tracker_odds, 1100);
}

#[test]
fn tracker_entries_hold_presets() {
    let weapon = StatTrackerEntry::max_weapon(5).stat_tracker.unwrap();
    assert_eq!(
        (weapon.kills, weapon.assists, weapon.damage, weapon.points, weapon.healing),
        (Some(0), Some(0), Some(0), Some(0), None)
    );
    let medigun = StatTrackerEntry::max_medigun(5).stat_tracker.unwrap();
    assert_eq!((medigun.healing, medigun.invulns, medigun.kills), (Some(0), Some(0), None));
    assert_eq!(StatTrackerEntry::kills(1).stat_tracker, Some(StatTracker::default_kills()));
    assert_eq!(StatTrackerEntry::healing(1).stat_tracker, Some(StatTracker::default_healing()));
    assert_eq!(StatTrackerEntry::none(9).odds, 9);
}

#[test]
fn standard_catalogs_hold_their_entries() {
    let prototypes = init_prototype_map();
    let shotgun = prototypes.get("shotgun").unwrap();
    assert!(shotgun.stock);
    assert!(prototypes.get("rocket").is_none());
    let particles = init_particle_effects();
    assert_eq!(particles.get("fire-blue").unwrap().name_key, "fire-blue");
    let series = init_crate_series();
    assert_eq!(series.len(), 2);
    assert_eq!(series[0].total_odds, 400);
    assert_eq!(series[1].total_odds, 300);
    assert_eq!(series[1].entries[2].total_particle_effect_odds, 1300);
}

#[test]
fn catalog_insert_replaces_and_shares() {
    let mut catalog: Catalog<ParticleEffect> = Catalog::new();
    catalog.insert("a".to_string(), Arc::new(ParticleEffect { name_key: "one".to_string() }));
    catalog.insert("b".to_string(), Arc::new(ParticleEffect { name_key: "two".to_string() }));
    catalog.insert("a".to_string(), Arc::new(ParticleEffect { name_key: "three".to_string() }));
    let a = catalog.get("a").unwrap();
    let again = catalog.get("a").unwrap();
    assert_eq!(a.name_key, "three");
    assert!(Arc::ptr_eq(&a, &again));
    assert_eq!(catalog.get("b").unwrap().name_key, "two");
    let protos: Catalog<Prototype> = Catalog::new();
    assert!(protos.get("a").is_none());
}

fn text_entry(k: &str, v: &str) -> LangEntry {
    LangEntry { key: k.to_string(), value: LangValue::Text(v.to_string()) }
}

fn table_entry(k: &str, entries: Vec<LangEntry>) -> LangEntry {
    LangEntry { key: k.to_string(), value: LangValue::Table(entries) }
}

fn error_lang() -> LangValue {
    let errors = vec![
        text_entry("no_such_series", "No series {series}"),
        text_entry("quality_loop", "Gave up"),
        text_entry("invalid_entry_choice", "Bad entry {entry}"),
        text_entry("no_odds", "{item} has no odds"),
        text_entry("no_such_prototype", "No prototype {prototype}"),
    ];
    let crate_drop = table_entry("crate_drop", vec![table_entry("error", errors)]);
    LangValue::Table(vec![crate_drop])
}

#[test]
fn problems_have_localized_messages() {
    let lang = error_lang();
    assert_eq!(UnlockProblem::NoSuchSeries(12).message(&lang), "No series 12");
    assert_eq!(UnlockProblem::ItemCreationLoop.message(&lang), "Gave up");
    assert_eq!(UnlockProblem::InvalidEntryChoice(-5).message(&lang), "Bad entry -5");
    assert_eq!(UnlockProblem::NoQualities("hat".to_string()).message(&lang), "hat has no odds");
    assert_eq!(
        UnlockProblem::NoSuchPrototype("gun".to_string()).message(&lang),
        "No prototype gun"
    );
    let empty = LangValue::Table(Vec::new());
    assert_eq!(UnlockProblem::ItemCreationLoop.message(&empty), "<crate_drop.error.quality_loop>");
}

#[test]
fn decimal_text_writes_integers() {
    assert_eq!(decimal_text(0), "0");
    assert_eq!(decimal_text(9), "9");
    assert_eq!(decimal_text(10), "10");
    assert_eq!(decimal_text(-305), "-305");
    assert_eq!(decimal_text(i64::MAX), "9223372036854775807");
    assert_eq!(decimal_text(i64::MIN), "-9223372036854775808");
}

#[test]
fn entry_whose_trackers_all_qualify_never_loops() {
    let prototypes = init_prototype_map();
    let particles = init_particle_effects();
    let entry = CrateSeriesEntry::new_with("shotgun", 1, false, vec![], vec![StatTrackerEntry::kills(1)]);
    for _ in 0..50 {
        match entry.unbox_one(&prototypes, &particles) {
            Ok(item) => assert_eq!(item.stat_tracker, Some(StatTracker::default_kills())),
            Err(_) => panic!("expected an item"),
        }
    }
}

#[test]
fn special_series_follows_its_tables() {
    let series = init_crate_series();
    assert_eq!(series[0].name, "Stock Items");
    assert_eq!(series[0].number, 0);
    assert_eq!(series[1].name, "");
    assert_eq!(series[1].number, 1);
    let keys: Vec<&str> = series[1].entries.iter().map(|e| e.prototype_key.as_str()).collect();
    assert_eq!(keys, vec!["shotgun", "medigun", "top_hat"]);
    let plain: Vec<bool> = series[1].entries.iter().map(|e| e.allow_plain).collect();
    assert_eq!(plain, vec![false, false, true]);
    assert_eq!(series[1].entries[0].total_stat_tracker_odds, 1200);
    assert_eq!(series[1].entries[1].total_stat_tracker_odds, 1200);
    assert_eq!(series[1].entries[2].total_stat_tracker_odds, 1100);
    let tables = LootTables::standard();
    let weapon = [Some(StatTracker::default_kills()), Some(StatTrackerEntry::max_weapon(0).stat_tracker.unwrap())];
    let medigun = [Some(StatTracker::default_healing()), Some(StatTrackerEntry::max_medigun(0).stat_tracker.unwrap())];
    for _ in 0..300 {
        match unlock(&tables, 1) {
            Ok(item) => match item.prototype.name_key.as_str() {
                "shotgun" => {
                    assert!(item.particle_effect.is_none());
                    assert!(weapon.contains(&item.stat_tracker));
                }
                "medigun" => {
                    assert!(item.particle_effect.is_none());
                    assert!(medigun.contains(&item.stat_tracker));
                }
                "top_hat" => {}
                other => panic!("unexpected prototype {}", other),
            },
            Err(UnlockProblem::ItemCreationLoop) => {}
            Err(_) => panic!("unexpected problem"),
        }
    }
}
