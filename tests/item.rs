use std::sync::Arc;

use grackle::item::{Item, ItemNetworkable, ParticleEffect, Prototype, StatTracker};
use grackle::lang::{LangEntry, LangValue};

fn text(s: &str) -> LangValue {
    LangValue::Text(s.to_string())
}

fn table(entries: Vec<(&str, LangValue)>) -> LangValue {
    LangValue::Table(
        entries
            .into_iter()
            .map(|(k, v)| LangEntry { key: k.to_string(), value: v })
            .collect(),
    )
}

/// Templates that show what they were handed.
fn echo_lang() -> LangValue {
    table(vec![
        (
            "item",
            table(vec![
                ("name", table(vec![("top_hat", text("Top Hat"))])),
                ("particle_effect", text("PE({item})")),
                ("stat_tracker", text("ST({item})")),
            ]),
        ),
        (
            "stat_tracker",
            table(vec![
                ("kills", text("Kills")),
                ("assists", text("Assists")),
                ("damage", text("Damage")),
                ("points", text("Points")),
                ("healing", text("Healing")),
            ]),
        ),
        ("particle_effect", table(vec![("fire", text("Burning Flames"))])),
    ])
}

fn prototype(stock: bool) -> Arc<Prototype> {
    Arc::new(Prototype { name_key: "top_hat".to_string(), stock, trade_restriction: false })
}

fn fire() -> Arc<ParticleEffect> {
    Arc::new(ParticleEffect { name_key: "fire".to_string() })
}

#[test]
fn prototype_only_item_shows_base_name() {
    let lang = echo_lang();
    let item = Item::new(prototype(false));
    assert_eq!(item.display_name_default(&lang), "Top Hat");
    assert_eq!(item.display_name(&lang), "Top Hat");
}

#[test]
fn particle_effect_wraps_once() {
    let lang = echo_lang();
    let item = Item::new_with(prototype(false), None, Some(fire()));
    assert_eq!(item.display_name_default(&lang), "PE(Top Hat)");
}

#[test]
fn stat_tracker_wraps_after_particle_effect() {
    let lang = echo_lang();
    let both = Item::new_with(prototype(false), Some(StatTracker::default_points()), Some(fire()));
    assert_eq!(both.display_name_default(&lang), "ST(PE(Top Hat))");
    let tracker_only = Item::new_with(prototype(false), Some(StatTracker::default_kills()), None);
    assert_eq!(tracker_only.display_name_default(&lang), "ST(Top Hat)");
}

#[test]
fn missing_name_shows_key_path() {
    let lang = echo_lang();
    let proto = Arc::new(Prototype { name_key: "shotgun".to_string(), stock: true, trade_restriction: false });
    assert_eq!(Item::new(proto).display_name_default(&lang), "<item.name.shotgun>");
}

#[test]
fn stock_items_refuse_changes() {
    let lang = echo_lang();
    let mut item = Item::new(prototype(true));
    assert!(!item.can_change_name());
    assert!(!item.can_change_description());
    assert!(!item.can_destroy());
    assert!(!item.can_craft());
    assert!(!item.tradeable());
    assert_eq!(item.display_name_cached(&lang), "Top Hat");
    item.change_name("Lucky".to_string());
    assert_eq!(item.name, None);
    assert_eq!(item.display_name_cache, Some("Top Hat".to_string()));
    item.change_description("Old".to_string());
    assert_eq!(item.description, None);
    item.destroy();
    assert!(!item.destroyed);
}

#[test]
fn non_stock_items_accept_changes() {
    let lang = echo_lang();
    let mut item = Item::new(prototype(false));
    assert!(item.can_change_name());
    assert!(item.can_change_description());
    assert!(item.can_destroy());
    assert!(item.can_craft());
    assert!(item.tradeable());
    assert_eq!(item.display_name_cached(&lang), "Top Hat");
    item.change_name("Lucky".to_string());
    assert_eq!(item.name, Some("Lucky".to_string()));
    assert_eq!(item.display_name_cache, None);
    assert_eq!(item.display_name(&lang), "Lucky");
    assert_eq!(item.display_name_cached(&lang), "Lucky");
    assert_eq!(item.display_name_cache, Some("Top Hat".to_string()));
    item.change_description("Worn".to_string());
    assert_eq!(item.description, Some("Worn".to_string()));
    item.destroy();
    assert!(item.destroyed);
}

#[test]
fn restrictions_block_trade_and_craft() {
    let proto = Arc::new(Prototype { name_key: "cap".to_string(), stock: false, trade_restriction: true });
    assert!(!proto.tradeable());
    assert!(proto.craftable());
    let mut item = Prototype::as_item(proto);
    assert!(!item.tradeable());
    item.crafting_restriction = true;
    assert!(!item.can_craft());
    let open = Item::new(prototype(false));
    let mut restricted = open.clone();
    restricted.trade_restriction = true;
    assert!(open.tradeable());
    assert!(!restricted.tradeable());
}

#[test]
fn stat_tracker_presets() {
    let kills = StatTracker::default_kills();
    assert_eq!(kills.kills, Some(0));
    assert_eq!(kills.healing, None);
    assert_eq!(kills, StatTracker::default());
    let healing = StatTracker::default_healing();
    assert_eq!((healing.kills, healing.healing, healing.points), (None, Some(0), None));
    let points = StatTracker::default_points();
    assert_eq!((points.kills, points.points, points.assists), (None, Some(0), None));
}

#[test]
fn tracks_list_names_tracked_counters() {
    let lang = echo_lang();
    let weapon = StatTracker {
        kills: Some(3),
        assists: Some(0),
        damage: None,
        points: Some(0),
        healing: None,
        invulns: None,
    };
    assert_eq!(weapon.tracks_list(&lang), "Kills, Assists, Points");
    assert_eq!(StatTracker::default_healing().tracks_list(&lang), "Healing");
    let none = StatTracker { kills: None, ..StatTracker::default() };
    assert_eq!(none.tracks_list(&lang), "");
}

#[test]
fn particle_effect_name_is_localized() {
    let lang = echo_lang();
    assert_eq!(fire().name(&lang), "Burning Flames");
    let other = ParticleEffect { name_key: "electric".to_string() };
    assert_eq!(other.name(&lang), "<particle_effect.electric>");
}

#[test]
fn networkable_item_holds_keys() {
    let n = ItemNetworkable {
        prototype_key: "top_hat".to_string(),
        name: None,
        description: None,
        stat_tracker: Some(StatTracker::default_points()),
        particle_effect_key: Some("fire".to_string()),
        trade_restriction: false,
        destroyed: false,
    };
    let copy = n.clone();
    assert_eq!(copy.prototype_key, "top_hat");
    assert_eq!(copy.particle_effect_key.as_deref(), Some("fire"));
}
