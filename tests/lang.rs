use grackle::lang::{
    full_path, get_infallible, get_maybe, get_parsed, get_template, get_template_maybe,
    get_template_parsed, split_dots, text_eq, LangEntry, LangValue,
};
use grackle::lang_file::{add_missing_keys, extract_all_keys, key_exists, set_nested_key};

fn text(s: &str) -> LangValue {
    LangValue::Text(s.to_string())
}

fn table(entries: Vec<(&str, LangValue)>) -> LangValue {
    LangValue::Table(
        entries
            .into_iter()
            .map(|(k, v)| LangEntry { key: k.to_string(), value: v })
            .collect(),
    )
}

fn sample_lang() -> LangValue {
    table(vec![
        (
            "item",
            table(vec![
                ("name", table(vec![("top_hat", text("Top Hat"))])),
                ("particle_effect", text("Unusual {item}")),
                ("stat_tracker", text("Strange { item }")),
                ("count", LangValue::Other(toml::Value::Integer(3))),
            ]),
        ),
        ("greeting", text("Hello {name}, {name}! {other}")),
    ])
}

#[test]
fn lookup_follows_tables_to_text() {
    let lang = sample_lang();
    assert_eq!(get_maybe(&lang, &["item", "name", "top_hat"]), Some("Top Hat".to_string()));
    assert_eq!(get_maybe(&lang, &["item", "name"]), None);
    assert_eq!(get_maybe(&lang, &["item", "count"]), None);
    assert_eq!(get_maybe(&lang, &["item", "missing"]), None);
    assert_eq!(get_maybe(&lang, &[]), None);
}

#[test]
fn lookup_takes_first_of_equal_keys() {
    let lang = table(vec![("a", text("first")), ("a", text("second"))]);
    assert_eq!(get_maybe(&lang, &["a"]), Some("first".to_string()));
}

#[test]
fn infallible_lookup_shows_missing_path() {
    let lang = sample_lang();
    assert_eq!(get_infallible(&lang, &["item", "name", "top_hat"]), "Top Hat");
    assert_eq!(get_infallible(&lang, &["item", "name", "shotgun"]), "<item.name.shotgun>");
    assert_eq!(get_parsed(&lang, "item.name.top_hat"), "Top Hat");
    assert_eq!(get_parsed(&lang, "item.nope"), "<item.nope>");
    assert_eq!(get_parsed(&lang, ""), "<>");
}

#[test]
fn dotted_keys_split_like_str_split() {
    assert_eq!(split_dots("a.b.c"), vec!["a", "b", "c"]);
    assert_eq!(split_dots(""), vec![""]);
    assert_eq!(split_dots(".x."), vec!["", "x", ""]);
    assert_eq!(split_dots("fire-blue"), vec!["fire-blue"]);
}

#[test]
fn paths_join_with_dots() {
    assert_eq!(full_path(&["item", "name", "x"]), "item.name.x");
    assert_eq!(full_path(&["one"]), "one");
    assert_eq!(full_path(&[]), "");
}

#[test]
fn texts_compare_by_characters() {
    assert!(text_eq("fire", "fire"));
    assert!(!text_eq("fire", "fire-blue"));
    assert!(!text_eq("fire", "fira"));
    assert!(text_eq("", ""));
}

#[test]
fn templates_fill_placeholders() {
    let lang = sample_lang();
    assert_eq!(
        get_template(&lang, &["item", "particle_effect"], &[("item", "Top Hat")]),
        "Unusual Top Hat"
    );
    assert_eq!(
        get_template_parsed(&lang, "item.stat_tracker", &[("item", "Cap")]),
        "Strange Cap"
    );
    assert_eq!(
        get_template_parsed(&lang, "greeting", &[("name", "Ann"), ("other", "bye")]),
        "Hello Ann, Ann! bye"
    );
}

#[test]
fn later_pair_of_same_name_wins() {
    let lang = sample_lang();
    assert_eq!(
        get_template_parsed(&lang, "greeting", &[("name", "Ann"), ("name", "Bo")]),
        "Hello Bo, Bo! {other}"
    );
}

#[test]
fn missing_template_falls_back_to_path_and_pairs() {
    let lang = sample_lang();
    assert_eq!(
        get_template_parsed(&lang, "item.unknown", &[("item", "Cap")]),
        "<item.unknown; [(\"item\", \"Cap\")]>"
    );
    assert_eq!(
        get_template_maybe(&lang, &["a", "b"], &[]),
        Err("Failed to find value for key [\"a\", \"b\"]".to_string())
    );
}

#[test]
fn invalid_placeholder_name_fails_quickly_or_is_skipped() {
    let lang = sample_lang();
    assert_eq!(
        get_template_maybe(&lang, &["greeting"], &[("(", "x")]),
        Err("Replacement names must be valid regex: \"(\"".to_string())
    );
    assert_eq!(
        get_template(&lang, &["greeting"], &[("(", "x"), ("name", "Cy")]),
        "Hello Cy, Cy! {other}"
    );
    assert_eq!(
        get_template_maybe(&lang, &["greeting"], &[("other", "z")]),
        Ok("Hello {name}, {name}! z".to_string())
    );
}

#[test]
fn all_leaf_keys_depth_first() {
    let lang = sample_lang();
    assert_eq!(
        extract_all_keys(&lang, String::new()),
        vec![
            "item.name.top_hat",
            "item.particle_effect",
            "item.stat_tracker",
            "item.count",
            "greeting"
        ]
    );
    assert_eq!(extract_all_keys(&text("x"), String::new()), Vec::<String>::new());
    assert_eq!(
        extract_all_keys(&table(vec![("a", text("1"))]), "root".to_string()),
        vec!["root.a"]
    );
}

#[test]
fn key_existence_follows_tables() {
    let lang = sample_lang();
    assert!(key_exists(&lang, "item.name.top_hat"));
    assert!(key_exists(&lang, "item.name"));
    assert!(key_exists(&lang, "item.count"));
    assert!(!key_exists(&lang, "item.count.more"));
    assert!(!key_exists(&lang, "item.name.shotgun"));
    assert!(!key_exists(&lang, "nothing"));
}

#[test]
fn nested_set_makes_missing_tables() {
    let mut lang = sample_lang();
    set_nested_key(&mut lang, "item.name.shotgun", text("Shotgun"));
    assert_eq!(get_parsed(&lang, "item.name.shotgun"), "Shotgun");
    assert_eq!(get_parsed(&lang, "item.name.top_hat"), "Top Hat");
    set_nested_key(&mut lang, "menu.file.open", text("Open"));
    assert_eq!(get_parsed(&lang, "menu.file.open"), "Open");
    set_nested_key(&mut lang, "greeting", text("Hi"));
    assert_eq!(get_parsed(&lang, "greeting"), "Hi");
    set_nested_key(&mut lang, "greeting.more", text("x"));
    assert_eq!(get_parsed(&lang, "greeting"), "Hi");
    assert!(!key_exists(&lang, "greeting.more"));
    let mut leaf = text("plain");
    set_nested_key(&mut leaf, "a", text("b"));
    assert!(matches!(leaf, LangValue::Text(ref s) if s == "plain"));
}

#[test]
fn missing_reference_keys_are_marked() {
    let reference = sample_lang();
    let keys = extract_all_keys(&reference, String::new());
    let mut other = table(vec![
        ("greeting", text("Hola {name}")),
        ("item", table(vec![("count", LangValue::Other(toml::Value::Integer(1)))])),
    ]);
    let added = add_missing_keys(&mut other, &keys);
    assert_eq!(added, vec!["item.name.top_hat", "item.particle_effect", "item.stat_tracker"]);
    assert_eq!(get_parsed(&other, "item.name.top_hat"), "MISSING item.name.top_hat");
    assert_eq!(get_parsed(&other, "item.stat_tracker"), "MISSING item.stat_tracker");
    assert_eq!(get_parsed(&other, "greeting"), "Hola {name}");
    assert_eq!(add_missing_keys(&mut other, &keys), Vec::<String>::new());
}
