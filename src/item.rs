//! Items: instances of a prototype, with an optional stat tracker and
//! particle effect.
use std::sync::Arc;
use vstd::prelude::*;
use vstd::string::StringExecFns;
use crate::lang::{get_parsed, get_template_parsed, joined, localized, templated, LangValue};

verus! {

/// Relies on `Arc::clone`: a new handle to the same shared value.
#[verifier::external_body]
pub(crate) fn share<T>(value: &Arc<T>) -> (r: Arc<T>)
    ensures
        r == *value,
{
    Arc::clone(value)
}

/// A catalog entry from which items are made.
pub struct Prototype {
    /// The key under which the prototype's name is localized.
    pub name_key: String,
    /// Stock items cannot be renamed, described, destroyed, traded or crafted.
    pub stock: bool,
    pub trade_restriction: bool,
}

impl Prototype {
    pub fn tradeable(&self) -> (r: bool)
        ensures
            r == (!self.trade_restriction && !self.stock),
    {
        !self.trade_restriction && !self.stock
    }

    pub fn craftable(&self) -> (r: bool)
        ensures
            r == !self.stock,
    {
        !self.stock
    }

    /// A plain item of the prototype.
    pub fn as_item(prototype: Arc<Prototype>) -> (r: Item)
        ensures
            r.is_fresh(*prototype, None, None),
    {
        Item {
            prototype,
            name: None,
            display_name_cache: None,
            description: None,
            stat_tracker: None,
            particle_effect: None,
            trade_restriction: false,
            crafting_restriction: false,
            destroyed: false,
        }
    }
}

/// A catalog entry for a cosmetic particle effect.
pub struct ParticleEffect {
    /// The key under which the effect's name is localized.
    pub name_key: String,
}

impl ParticleEffect {
    /// The effect's localized name, found at `particle_effect.<name_key>`.
    pub fn name(&self, lang: &LangValue) -> (r: String)
        ensures
            r@ == localized(*lang, "particle_effect."@ + self.name_key@),
    {
        let key = String::from_str("particle_effect.").concat(self.name_key.as_str());
        get_parsed(lang, key.as_str())
    }
}

/// The counters an item tracks: `Some(count)` where tracked, `None` where not.
#[derive(Clone, Copy, PartialEq, Eq, Structural, Debug)]
pub struct StatTracker {
    pub kills: Option<u32>,
    pub assists: Option<u32>,
    pub damage: Option<u32>,
    pub points: Option<u32>,
    pub healing: Option<u32>,
    pub invulns: Option<u32>,
}

/// The names of the listed counters that `st` tracks, in order.
pub open spec fn tracked_keys(st: StatTracker) -> Seq<Seq<char>> {
    let k = if st.kills is Some { seq!["kills"@] } else { Seq::empty() };
    let a = if st.assists is Some { seq!["assists"@] } else { Seq::empty() };
    let d = if st.damage is Some { seq!["damage"@] } else { Seq::empty() };
    let p = if st.points is Some { seq!["points"@] } else { Seq::empty() };
    let h = if st.healing is Some { seq!["healing"@] } else { Seq::empty() };
    k + a + d + p + h
}

/// The localized names of counters, found at `stat_tracker.<name>`.
pub open spec fn counter_names(lang: LangValue, keys: Seq<Seq<char>>) -> Seq<Seq<char>> {
    keys.map_values(|k: Seq<char>| localized(lang, "stat_tracker."@ + k))
}

impl Default for StatTracker {
    fn default() -> (r: StatTracker)
        ensures
            r == StatTracker::kills_only(),
    {
        StatTracker {
            kills: Some(0),
            assists: None,
            damage: None,
            points: None,
            healing: None,
            invulns: None,
        }
    }
}

impl StatTracker {
    /// A tracker of kills alone, from zero.
    pub open spec fn kills_only() -> StatTracker {
        StatTracker {
            kills: Some(0),
            assists: None,
            damage: None,
            points: None,
            healing: None,
            invulns: None,
        }
    }

    /// A tracker of healing alone, from zero.
    pub open spec fn healing_only() -> StatTracker {
        StatTracker { healing: Some(0), kills: None, ..StatTracker::kills_only() }
    }

    /// A tracker of points alone, from zero.
    pub open spec fn points_only() -> StatTracker {
        StatTracker { points: Some(0), kills: None, ..StatTracker::kills_only() }
    }

    /// A tracker of kills, assists, damage and points, from zero.
    pub open spec fn weapon_max() -> StatTracker {
        StatTracker {
            kills: Some(0),
            assists: Some(0),
            damage: Some(0),
            points: Some(0),
            healing: None,
            invulns: None,
        }
    }

    /// A tracker of healing and invulnerabilities, from zero.
    pub open spec fn medigun_max() -> StatTracker {
        StatTracker {
            kills: None,
            assists: None,
            damage: None,
            points: None,
            healing: Some(0),
            invulns: Some(0),
        }
    }

    pub fn default_kills() -> (r: StatTracker)
        ensures
            r == StatTracker::kills_only(),
    {
        StatTracker::default()
    }

    pub fn default_healing() -> (r: StatTracker)
        ensures
            r == StatTracker::healing_only(),
    {
        StatTracker { kills: None, healing: Some(0), ..StatTracker::default() }
    }

    pub fn default_points() -> (r: StatTracker)
        ensures
            r == StatTracker::points_only(),
    {
        StatTracker { kills: None, points: Some(0), ..StatTracker::default() }
    }

    /// The localized names of the tracked kills, assists, damage, points and
    /// healing counters, joined with `, `.
    pub fn tracks_list(&self, lang: &LangValue) -> (r: String)
        ensures
            r@ == joined(counter_names(*lang, tracked_keys(*self)), ", "@),
    {
        let mut tracks: Vec<&str> = Vec::new();
        if self.kills.is_some() {
            tracks.push("kills");
        }
        if self.assists.is_some() {
            tracks.push("assists");
        }
        if self.damage.is_some() {
            tracks.push("damage");
        }
        if self.points.is_some() {
            tracks.push("points");
        }
        if self.healing.is_some() {
            tracks.push("healing");
        }
        let ghost keys = tracks@.map_values(|k: &str| k@);
        assert(keys =~= tracked_keys(*self));
        let ghost names = counter_names(*lang, keys);
        let mut list = String::new();
        let mut i: usize = 0;
        while i < tracks.len()
            invariant
                keys == tracks@.map_values(|k: &str| k@),
                names == counter_names(*lang, keys),
                0 <= i <= tracks@.len(),
                list@ == joined(names.subrange(0, i as int), ", "@),
            decreases tracks.len() - i,
        {
            let key = String::from_str("stat_tracker.").concat(tracks[i]);
            let name = get_parsed(lang, key.as_str());
            assert(names.subrange(0, i + 1).drop_last() == names.subrange(0, i as int));
            if i > 0 {
                list.append(", ");
            }
            list.append(name.as_str());
            i = i + 1;
        }
        assert(names.subrange(0, i as int) == names);
        list
    }
}

/// An item: a prototype with its own name, description, stat tracker and
/// particle effect.
#[derive(Clone)]
pub struct Item {
    pub prototype: Arc<Prototype>,
    /// A custom name, which replaces the localized one.
    pub name: Option<String>,
    pub display_name_cache: Option<String>,
    pub description: Option<String>,
    pub stat_tracker: Option<StatTracker>,
    pub particle_effect: Option<Arc<ParticleEffect>>,
    pub trade_restriction: bool,
    pub crafting_restriction: bool,
    pub destroyed: bool,
}

/// The localized base name of items of a prototype, at
/// `item.name.<name_key>`.
pub open spec fn base_name(lang: LangValue, prototype: Prototype) -> Seq<char> {
    localized(lang, "item.name."@ + prototype.name_key@)
}

/// `name` put into the template at `key` in place of `{item}`.
pub open spec fn wrap_name(lang: LangValue, key: Seq<char>, name: Seq<char>) -> Seq<char> {
    templated(lang, key, seq![("item"@, name)])
}

impl Item {
    /// An item of `prototype` with the given tracker and effect, and nothing
    /// else set.
    pub open spec fn is_fresh(
        &self,
        prototype: Prototype,
        stat_tracker: Option<StatTracker>,
        particle_effect: Option<Arc<ParticleEffect>>,
    ) -> bool {
        &&& *self.prototype == prototype
        &&& self.name is None
        &&& self.display_name_cache is None
        &&& self.description is None
        &&& self.stat_tracker == stat_tracker
        &&& self.particle_effect == particle_effect
        &&& !self.trade_restriction
        &&& !self.crafting_restriction
        &&& !self.destroyed
    }

    /// The localized name: the base name, wrapped by the particle-effect
    /// template when there is an effect, then by the stat-tracker template
    /// when there is a tracker.
    pub open spec fn default_name(&self, lang: LangValue) -> Seq<char> {
        let base = base_name(lang, *self.prototype);
        let with_effect = if self.particle_effect is Some {
            wrap_name(lang, "item.particle_effect"@, base)
        } else {
            base
        };
        if self.stat_tracker is Some {
            wrap_name(lang, "item.stat_tracker"@, with_effect)
        } else {
            with_effect
        }
    }

    /// The name shown: the custom name if there is one, else the localized one.
    pub open spec fn shown_name(&self, lang: LangValue) -> Seq<char> {
        match self.name {
            Some(n) => n@,
            None => self.default_name(lang),
        }
    }

    pub open spec fn stock(&self) -> bool {
        self.prototype.stock
    }

    pub fn new(prototype: Arc<Prototype>) -> (r: Item)
        ensures
            r.is_fresh(*prototype, None, None),
    {
        Item {
            prototype,
            name: None,
            display_name_cache: None,
            description: None,
            stat_tracker: None,
            particle_effect: None,
            trade_restriction: false,
            crafting_restriction: false,
            destroyed: false,
        }
    }

    pub fn new_with(
        prototype: Arc<Prototype>,
        stat_tracker: Option<StatTracker>,
        particle_effect: Option<Arc<ParticleEffect>>,
    ) -> (r: Item)
        ensures
            *r.prototype == *prototype,
            r.stat_tracker == stat_tracker,
            r.particle_effect == particle_effect,
            r.name is None,
            r.display_name_cache is None,
            r.description is None,
            !r.trade_restriction,
            !r.crafting_restriction,
            !r.destroyed,
    {
        Item {
            prototype,
            name: None,
            display_name_cache: None,
            description: None,
            stat_tracker,
            particle_effect,
            trade_restriction: false,
            crafting_restriction: false,
            destroyed: false,
        }
    }

    pub fn display_name(&self, lang: &LangValue) -> (r: String)
        ensures
            r@ == self.shown_name(*lang),
    {
        if let Some(name) = &self.name {
            return name.clone();
        }
        self.display_name_default(lang)
    }

    pub fn display_name_default(&self, lang: &LangValue) -> (r: String)
        ensures
            r@ == self.default_name(*lang),
    {
        let key = String::from_str("item.name.").concat(self.prototype.name_key.as_str());
        let mut name = get_parsed(lang, key.as_str());
        if self.particle_effect.is_some() {
            let pairs = [("item", name.as_str())];
            assert(crate::lang::pair_views(pairs@) =~= seq![("item"@, name@)]);
            name = get_template_parsed(lang, "item.particle_effect", pairs.as_slice());
        }
        if self.stat_tracker.is_some() {
            let pairs = [("item", name.as_str())];
            assert(crate::lang::pair_views(pairs@) =~= seq![("item"@, name@)]);
            name = get_template_parsed(lang, "item.stat_tracker", pairs.as_slice());
        }
        name
    }

    /// The name shown, computing and keeping the localized name when none is
    /// kept yet.
    pub fn display_name_cached(&mut self, lang: &LangValue) -> (r: &str)
        ensures
            final(self).display_name_cache is Some,
            old(self).display_name_cache is Some ==> final(self).display_name_cache == old(
                self,
            ).display_name_cache,
            old(self).display_name_cache is None ==> final(self).display_name_cache.unwrap()@
                == old(self).default_name(*lang),
            r@ == match old(self).name {
                Some(n) => n@,
                None => final(self).display_name_cache.unwrap()@,
            },
            final(self).prototype == old(self).prototype,
            final(self).name == old(self).name,
            final(self).description == old(self).description,
            final(self).stat_tracker == old(self).stat_tracker,
            final(self).particle_effect == old(self).particle_effect,
            final(self).trade_restriction == old(self).trade_restriction,
            final(self).crafting_restriction == old(self).crafting_restriction,
            final(self).destroyed == old(self).destroyed,
    {
        if self.display_name_cache.is_none() {
            let name = self.display_name_default(lang);
            self.display_name_cache = Some(name);
        }
        if let Some(name) = &self.name {
            return name.as_str();
        }
        match &self.display_name_cache {
            Some(cached) => cached.as_str(),
            None => "",
        }
    }

    pub fn tradeable(&self) -> (r: bool)
        ensures
            r == (!self.trade_restriction && !self.prototype.trade_restriction
                && !self.prototype.stock),
    {
        !self.trade_restriction && self.prototype.tradeable()
    }

    pub fn can_change_name(&self) -> (r: bool)
        ensures
            r == !self.stock(),
    {
        !self.prototype.stock
    }

    /// Gives the item a custom name, unless its prototype is stock. A new
    /// name drops the kept localized name.
    pub fn change_name(&mut self, name: String)
        ensures
            old(self).stock() ==> *final(self) == *old(self),
            !old(self).stock() ==> *final(self) == (Item {
                name: Some(name),
                display_name_cache: None,
                ..*old(self)
            }),
    {
        if !self.can_change_name() {
            return;
        }
        self.display_name_cache = None;
        self.name = Some(name);
    }

    pub fn can_change_description(&self) -> (r: bool)
        ensures
            r == !self.stock(),
    {
        !self.prototype.stock
    }

    /// Gives the item a description, unless its prototype is stock.
    pub fn change_description(&mut self, description: String)
        ensures
            old(self).stock() ==> *final(self) == *old(self),
            !old(self).stock() ==> *final(self) == (Item {
                description: Some(description),
                ..*old(self)
            }),
    {
        if !self.can_change_description() {
            return;
        }
        self.description = Some(description);
    }

    pub fn can_destroy(&self) -> (r: bool)
        ensures
            r == !self.stock(),
    {
        !self.prototype.stock
    }

    /// Marks the item destroyed, unless its prototype is stock.
    pub fn destroy(&mut self)
        ensures
            old(self).stock() ==> *final(self) == *old(self),
            !old(self).stock() ==> *final(self) == (Item { destroyed: true, ..*old(self) }),
    {
        if !self.can_destroy() {
            return;
        }
        self.destroyed = true;
    }

    pub fn can_craft(&self) -> (r: bool)
        ensures
            r == (!self.prototype.stock && !self.crafting_restriction),
    {
        self.prototype.craftable() && !self.crafting_restriction
    }
}

/// The parts of an item that travel between processes: keys in place of
/// shared catalog entries.
#[derive(Clone)]
pub struct ItemNetworkable {
    pub prototype_key: String,
    pub name: Option<String>,
    pub description: Option<String>,
    pub stat_tracker: Option<StatTracker>,
    pub particle_effect_key: Option<String>,
    pub trade_restriction: bool,
    pub destroyed: bool,
}

} // verus!
