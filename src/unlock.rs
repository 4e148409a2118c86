//! The unlock entry point, the standard catalogs and series, and the errors
//! an unlock can end in.
use std::sync::Arc;
use vstd::prelude::*;
use vstd::string::StringExecFns;
use crate::catalog::Catalog;
use crate::entries::{ParticleEffectEntry, StatTrackerEntry};
use crate::item::{Item, ParticleEffect, Prototype, StatTracker};
use crate::lang::{get_parsed, get_template_parsed, localized, pair_views, templated, LangValue};
use crate::series::CrateSeries;
use crate::series_entry::CrateSeriesEntry;
use crate::weighted::{nonnegative, prefix_sum, total_weight, weights_of};

verus! {

/// Why an unlock produced no item.
pub enum UnlockProblem {
    /// No series has this index.
    NoSuchSeries(u32),
    /// The retry loop reached its limit without a qualifying item.
    ItemCreationLoop,
    /// No entry owns the sampled value.
    InvalidEntryChoice(i32),
    /// The entry refuses plain items yet offers no stat trackers.
    NoQualities(String),
    /// The entry names a prototype that the catalog lacks.
    NoSuchPrototype(String),
}

/// The decimal digits of `n`.
pub open spec fn digits(n: nat) -> Seq<char>
    decreases n,
{
    let d = seq!['0', '1', '2', '3', '4', '5', '6', '7', '8', '9'][(n % 10) as int];
    if n < 10 {
        seq![d]
    } else {
        digits(n / 10).push(d)
    }
}

/// The decimal text of `n`, with a leading `-` when it is negative.
pub open spec fn decimal(n: int) -> Seq<char> {
    if n < 0 {
        seq!['-'] + digits((-n) as nat)
    } else {
        digits(n as nat)
    }
}

/// The one-character text of the digit `d`.
fn digit_text(d: u64) -> (r: &'static str)
    requires
        d < 10,
    ensures
        r@ == seq![seq!['0', '1', '2', '3', '4', '5', '6', '7', '8', '9'][d as int]],
{
    proof {
        reveal_strlit("0");
        reveal_strlit("1");
        reveal_strlit("2");
        reveal_strlit("3");
        reveal_strlit("4");
        reveal_strlit("5");
        reveal_strlit("6");
        reveal_strlit("7");
        reveal_strlit("8");
        reveal_strlit("9");
    }
    let r = if d == 0 {
        "0"
    } else if d == 1 {
        "1"
    } else if d == 2 {
        "2"
    } else if d == 3 {
        "3"
    } else if d == 4 {
        "4"
    } else if d == 5 {
        "5"
    } else if d == 6 {
        "6"
    } else if d == 7 {
        "7"
    } else if d == 8 {
        "8"
    } else {
        "9"
    };
    assert(r@ =~= seq![seq!['0', '1', '2', '3', '4', '5', '6', '7', '8', '9'][d as int]]);
    r
}

/// The decimal digits of `n`.
fn digits_text(n: u64) -> (r: String)
    ensures
        r@ == digits(n as nat),
    decreases n,
{
    let last = digit_text(n % 10);
    if n < 10 {
        String::from_str(last)
    } else {
        let mut text = digits_text(n / 10);
        text.append(last);
        assert(text@ =~= digits((n / 10) as nat).push(
            seq!['0', '1', '2', '3', '4', '5', '6', '7', '8', '9'][(n % 10) as int],
        ));
        text
    }
}

/// The decimal text of `n`.
pub fn decimal_text(n: i64) -> (r: String)
    ensures
        r@ == decimal(n as int),
{
    if n < 0 {
        let magnitude = (0i128 - n as i128) as u64;
        let text = digits_text(magnitude);
        proof {
            reveal_strlit("-");
        }
        let r = String::from_str("-").concat(text.as_str());
        assert(r@ =~= seq!['-'] + digits((-n) as nat));
        r
    } else {
        digits_text(n as u64)
    }
}

impl UnlockProblem {
    /// The localized message for the problem.
    pub open spec fn spec_message(&self, lang: LangValue) -> Seq<char> {
        match self {
            UnlockProblem::NoSuchSeries(series) => templated(
                lang,
                "crate_drop.error.no_such_series"@,
                seq![("series"@, decimal(*series as int))],
            ),
            UnlockProblem::ItemCreationLoop => localized(lang, "crate_drop.error.quality_loop"@),
            UnlockProblem::InvalidEntryChoice(entry) => templated(
                lang,
                "crate_drop.error.invalid_entry_choice"@,
                seq![("entry"@, decimal(*entry as int))],
            ),
            UnlockProblem::NoQualities(key) => templated(
                lang,
                "crate_drop.error.no_odds"@,
                seq![("item"@, key@)],
            ),
            UnlockProblem::NoSuchPrototype(key) => templated(
                lang,
                "crate_drop.error.no_such_prototype"@,
                seq![("prototype"@, key@)],
            ),
        }
    }

    /// The localized message for the problem.
    pub fn message(&self, lang: &LangValue) -> (r: String)
        ensures
            r@ == self.spec_message(*lang),
    {
        match self {
            UnlockProblem::NoSuchSeries(series) => {
                let text = decimal_text(*series as i64);
                let pairs = [("series", text.as_str())];
                assert(pair_views(pairs@) =~= seq![("series"@, text@)]);
                get_template_parsed(lang, "crate_drop.error.no_such_series", pairs.as_slice())
            },
            UnlockProblem::ItemCreationLoop => get_parsed(lang, "crate_drop.error.quality_loop"),
            UnlockProblem::InvalidEntryChoice(entry) => {
                let text = decimal_text(*entry as i64);
                let pairs = [("entry", text.as_str())];
                assert(pair_views(pairs@) =~= seq![("entry"@, text@)]);
                get_template_parsed(lang, "crate_drop.error.invalid_entry_choice", pairs.as_slice())
            },
            UnlockProblem::NoQualities(key) => {
                let pairs = [("item", key.as_str())];
                assert(pair_views(pairs@) =~= seq![("item"@, key@)]);
                get_template_parsed(lang, "crate_drop.error.no_odds", pairs.as_slice())
            },
            UnlockProblem::NoSuchPrototype(key) => {
                let pairs = [("prototype", key.as_str())];
                assert(pair_views(pairs@) =~= seq![("prototype"@, key@)]);
                get_template_parsed(lang, "crate_drop.error.no_such_prototype", pairs.as_slice())
            },
        }
    }
}

/// Everything an unlock reads: the prototype and particle-effect catalogs
/// and the series, indexed by position.
pub struct LootTables {
    pub prototypes: Catalog<Prototype>,
    pub particles: Catalog<ParticleEffect>,
    pub series: Vec<CrateSeries>,
}

/// A series can be drawn from: no weight is negative and the total is
/// positive.
pub open spec fn drawable(series: CrateSeries) -> bool {
    series.wf() && series.total_odds > 0
}

impl LootTables {
    /// The standard catalogs and series.
    pub fn standard() -> (r: LootTables)
        ensures
            standard_prototypes(r.prototypes),
            standard_particles(r.particles),
            standard_series(r.series@),
    {
        LootTables {
            prototypes: init_prototype_map(),
            particles: init_particle_effects(),
            series: init_crate_series(),
        }
    }
}

/// Unlocks an item from the series at position `series`.
pub fn unlock(tables: &LootTables, series: u32) -> (r: Result<Item, UnlockProblem>)
    requires
        (series as int) < tables.series@.len() ==> drawable(tables.series@[series as int]),
    ensures
        (series as int) >= tables.series@.len() ==> (r matches Err(UnlockProblem::NoSuchSeries(n))
            && n == series),
        (series as int) < tables.series@.len() ==> exists|s: int|
            0 <= s < tables.series@[series as int].total_odds
                && #[trigger] tables.series@[series as int].sample_outcome(
                tables.prototypes,
                tables.particles,
                s,
                r,
            ),
        (series as int) < tables.series@.len() && tables.series@[series as int].total_odds
            <= total_weight(weights_of(tables.series@[series as int].entries@)) ==> !(r matches Err(
            UnlockProblem::InvalidEntryChoice(_),
        )),
{
    if tables.series.len() <= series as usize {
        return Err(UnlockProblem::NoSuchSeries(series));
    }
    tables.series[series as usize].unbox_one(&tables.prototypes, &tables.particles)
}

/// A stock prototype named and keyed `key`, with no trade restriction.
pub open spec fn stock_prototype(prototypes: Catalog<Prototype>, key: Seq<char>) -> bool {
    prototypes.spec_get(key) matches Some(p) && p.name_key@ == key && p.stock
        && !p.trade_restriction
}

pub open spec fn standard_prototypes(prototypes: Catalog<Prototype>) -> bool {
    &&& stock_prototype(prototypes, "shotgun"@)
    &&& stock_prototype(prototypes, "medigun"@)
    &&& stock_prototype(prototypes, "top_hat"@)
    &&& forall|k: Seq<char>|
        k != "shotgun"@ && k != "medigun"@ && k != "top_hat"@ ==> #[trigger] prototypes.spec_get(
            k,
        ) is None
}

/// The prototypes `shotgun`, `medigun` and `top_hat`, all stock.
pub fn init_prototype_map() -> (r: Catalog<Prototype>)
    ensures
        standard_prototypes(r),
{
    proof {
        reveal_strlit("shotgun");
        reveal_strlit("medigun");
        reveal_strlit("top_hat");
    }
    let mut prototypes: Catalog<Prototype> = Catalog::new();
    prototypes.insert(
        "shotgun".to_owned(),
        Arc::new(Prototype { name_key: "shotgun".to_owned(), stock: true, trade_restriction: false }),
    );
    prototypes.insert(
        "medigun".to_owned(),
        Arc::new(Prototype { name_key: "medigun".to_owned(), stock: true, trade_restriction: false }),
    );
    prototypes.insert(
        "top_hat".to_owned(),
        Arc::new(Prototype { name_key: "top_hat".to_owned(), stock: true, trade_restriction: false }),
    );
    prototypes
}

/// A particle effect named and keyed `key`.
pub open spec fn named_effect(particles: Catalog<ParticleEffect>, key: Seq<char>) -> bool {
    particles.spec_get(key) matches Some(e) && e.name_key@ == key
}

pub open spec fn standard_particles(particles: Catalog<ParticleEffect>) -> bool {
    &&& named_effect(particles, "electric"@)
    &&& named_effect(particles, "fire"@)
    &&& named_effect(particles, "fire-blue"@)
    &&& forall|k: Seq<char>|
        k != "electric"@ && k != "fire"@ && k != "fire-blue"@ ==> #[trigger] particles.spec_get(
            k,
        ) is None
}

/// The particle effects `electric`, `fire` and `fire-blue`.
pub fn init_particle_effects() -> (r: Catalog<ParticleEffect>)
    ensures
        standard_particles(r),
{
    proof {
        reveal_strlit("electric");
        reveal_strlit("fire");
        reveal_strlit("fire-blue");
    }
    let mut effects: Catalog<ParticleEffect> = Catalog::new();
    effects.insert("electric".to_owned(), Arc::new(ParticleEffect { name_key: "electric".to_owned() }));
    effects.insert("fire".to_owned(), Arc::new(ParticleEffect { name_key: "fire".to_owned() }));
    effects.insert(
        "fire-blue".to_owned(),
        Arc::new(ParticleEffect { name_key: "fire-blue".to_owned() }),
    );
    effects
}

/// The particle-effect options hold, in order, the given keys (or none)
/// and weights.
pub open spec fn effects_are(
    options: Seq<ParticleEffectEntry>,
    expected: Seq<(Option<Seq<char>>, int)>,
) -> bool {
    &&& options.len() == expected.len()
    &&& forall|i: int|
        0 <= i < options.len() ==> (#[trigger] options[i]).odds == expected[i].1 && match (
            options[i].particle_effect_key,
            expected[i].0,
        ) {
            (None, None) => true,
            (Some(k), Some(e)) => k@ == e,
            _ => false,
        }
}

/// The stat-tracker options hold, in order, the given trackers (or none)
/// and weights.
pub open spec fn trackers_are(
    options: Seq<StatTrackerEntry>,
    expected: Seq<(Option<StatTracker>, int)>,
) -> bool {
    &&& options.len() == expected.len()
    &&& forall|i: int|
        0 <= i < options.len() ==> (#[trigger] options[i]).odds == expected[i].1
            && options[i].stat_tracker == expected[i].0
}

/// The entry makes the prototype `key` with weight `odds`, the given policy
/// and tables, and totals that match its tables.
pub open spec fn entry_is(
    entry: CrateSeriesEntry,
    key: Seq<char>,
    odds: int,
    allow_plain: bool,
    effects: Seq<(Option<Seq<char>>, int)>,
    trackers: Seq<(Option<StatTracker>, int)>,
) -> bool {
    &&& entry.prototype_key@ == key
    &&& entry.odds == odds
    &&& entry.allow_plain == allow_plain
    &&& effects_are(entry.particle_effects@, effects)
    &&& trackers_are(entry.stat_trackers@, trackers)
    &&& entry.wf()
    &&& entry.totals_match()
}

/// A plain entry: the prototype `key` with weight `odds`, empty tables, and
/// plain items allowed.
pub open spec fn plain_entry(entry: CrateSeriesEntry, key: Seq<char>, odds: int) -> bool {
    &&& entry_is(entry, key, odds, true, seq![], seq![])
    &&& entry.total_particle_effect_odds == 0
    &&& entry.total_stat_tracker_odds == 0
}

pub open spec fn standard_series(series: Seq<CrateSeries>) -> bool {
    &&& series.len() == 2
    &&& forall|i: int| 0 <= i < series.len() ==> drawable(#[trigger] series[i])
    &&& forall|i: int|
        0 <= i < series.len() ==> (#[trigger] series[i]).total_odds == total_weight(
            weights_of(series[i].entries@),
        )
    &&& series[0].name@ == "Stock Items"@
    &&& series[0].number == 0
    &&& series[0].total_odds == 400
    &&& series[0].entries@.len() == 3
    &&& plain_entry(series[0].entries@[0], "shotgun"@, 200)
    &&& plain_entry(series[0].entries@[1], "medigun"@, 100)
    &&& plain_entry(series[0].entries@[2], "top_hat"@, 100)
    &&& series[1].name@ == ""@
    &&& series[1].number == 1
    &&& series[1].total_odds == 300
    &&& series[1].entries@.len() == 3
    &&& entry_is(
        series[1].entries@[0],
        "shotgun"@,
        100,
        false,
        seq![],
        seq![
            (None, 1000),
            (Some(StatTracker::kills_only()), 100),
            (Some(StatTracker::weapon_max()), 100),
        ],
    )
    &&& entry_is(
        series[1].entries@[1],
        "medigun"@,
        100,
        false,
        seq![],
        seq![
            (None, 1000),
            (Some(StatTracker::healing_only()), 100),
            (Some(StatTracker::medigun_max()), 100),
        ],
    )
    &&& entry_is(
        series[1].entries@[2],
        "top_hat"@,
        100,
        true,
        seq![(None, 1000), (Some("electric"@), 100), (Some("fire"@), 100), (Some("fire-blue"@), 100)],
        seq![(None, 1000), (Some(StatTracker::points_only()), 100)],
    )
}

/// The standard series: stock items with weights 200, 100 and 100, then
/// items with stat trackers and particle effects.
pub fn init_crate_series() -> (r: Vec<CrateSeries>)
    ensures
        standard_series(r@),
{
    let mut series: Vec<CrateSeries> = Vec::new();

    let mut stock: Vec<CrateSeriesEntry> = Vec::new();
    stock.push(CrateSeriesEntry::new("shotgun", 200));
    stock.push(CrateSeriesEntry::new("medigun", 100));
    stock.push(CrateSeriesEntry::new("top_hat", 100));
    proof {
        reveal_with_fuel(prefix_sum, 4);
        assert(effects_are(stock@[0].particle_effects@, seq![]));
        assert(trackers_are(stock@[0].stat_trackers@, seq![]));
        assert(effects_are(stock@[1].particle_effects@, seq![]));
        assert(trackers_are(stock@[1].stat_trackers@, seq![]));
        assert(effects_are(stock@[2].particle_effects@, seq![]));
        assert(trackers_are(stock@[2].stat_trackers@, seq![]));
    }
    series.push(CrateSeries::new(String::from_str("Stock Items"), 0, stock));

    let mut weapon_trackers: Vec<StatTrackerEntry> = Vec::new();
    weapon_trackers.push(StatTrackerEntry::none(1000));
    weapon_trackers.push(StatTrackerEntry::kills(100));
    weapon_trackers.push(StatTrackerEntry::max_weapon(100));
    let mut medigun_trackers: Vec<StatTrackerEntry> = Vec::new();
    medigun_trackers.push(StatTrackerEntry::none(1000));
    medigun_trackers.push(StatTrackerEntry::healing(100));
    medigun_trackers.push(StatTrackerEntry::max_medigun(100));
    let mut hat_effects: Vec<ParticleEffectEntry> = Vec::new();
    hat_effects.push(ParticleEffectEntry::none(1000));
    hat_effects.push(ParticleEffectEntry::some(100, "electric".to_owned()));
    hat_effects.push(ParticleEffectEntry::some(100, "fire".to_owned()));
    hat_effects.push(ParticleEffectEntry::some(100, "fire-blue".to_owned()));
    let mut hat_trackers: Vec<StatTrackerEntry> = Vec::new();
    hat_trackers.push(StatTrackerEntry::none(1000));
    hat_trackers.push(StatTrackerEntry::points(100));
    proof {
        reveal_with_fuel(prefix_sum, 5);
    }
    let ghost weapon_expected = seq![
        (None, 1000int),
        (Some(StatTracker::kills_only()), 100int),
        (Some(StatTracker::weapon_max()), 100int),
    ];
    let ghost medigun_expected = seq![
        (None, 1000int),
        (Some(StatTracker::healing_only()), 100int),
        (Some(StatTracker::medigun_max()), 100int),
    ];
    let ghost hat_effects_expected = seq![
        (None, 1000int),
        (Some("electric"@), 100int),
        (Some("fire"@), 100int),
        (Some("fire-blue"@), 100int),
    ];
    let ghost hat_trackers_expected = seq![(None, 1000int), (Some(StatTracker::points_only()), 100int)];
    assert(trackers_are(weapon_trackers@, weapon_expected));
    assert(trackers_are(medigun_trackers@, medigun_expected));
    assert(effects_are(hat_effects@, hat_effects_expected));
    assert(trackers_are(hat_trackers@, hat_trackers_expected));
    let no_effects: Vec<ParticleEffectEntry> = Vec::new();
    let no_effects_either: Vec<ParticleEffectEntry> = Vec::new();
    assert(effects_are(no_effects@, seq![]));
    assert(effects_are(no_effects_either@, seq![]));
    assert(weights_of(no_effects@) =~= Seq::<int>::empty());
    assert(weights_of(no_effects_either@) =~= Seq::<int>::empty());
    let mut special: Vec<CrateSeriesEntry> = Vec::new();
    special.push(CrateSeriesEntry::new_with("shotgun", 100, false, no_effects, weapon_trackers));
    special.push(
        CrateSeriesEntry::new_with("medigun", 100, false, no_effects_either, medigun_trackers),
    );
    special.push(CrateSeriesEntry::new_with("top_hat", 100, true, hat_effects, hat_trackers));
    series.push(CrateSeries::new(String::new(), 1, special));
    proof {
        reveal_strlit("");
        let r = series@;
        assert(r.len() == 2);
        assert(r[0].name@ == "Stock Items"@);
        assert(r[1].name@ == ""@);
        assert(r[0].total_odds == 400);
        assert(r[1].total_odds == 300);
        assert(drawable(r[0]));
        assert(drawable(r[1]));
        assert(plain_entry(r[0].entries@[0], "shotgun"@, 200));
        assert(entry_is(r[1].entries@[0], "shotgun"@, 100, false, seq![], weapon_expected));
        assert(entry_is(r[1].entries@[1], "medigun"@, 100, false, seq![], medigun_expected));
        assert(entry_is(r[1].entries@[2], "top_hat"@, 100, true, hat_effects_expected, hat_trackers_expected));
    }
    series
}

} // verus!
