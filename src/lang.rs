//! Localized text: a tree of tables keyed by name, whose leaves are
//! templates with `{name}` placeholders.
use vstd::prelude::*;
use vstd::string::StrSliceExecFns;
use vstd::string::StringExecFns;

verus! {

/// `toml::Value`, carried through the tables unread.
#[verifier::external_type_specification]
#[verifier::external_body]
pub struct ExTomlValue(toml::Value);

/// A value of a language table.
pub enum LangValue {
    Text(String),
    Table(Vec<LangEntry>),
    /// A value that is neither text nor a table (a number, a date, a list),
    /// kept as it was read.
    Other(toml::Value),
}

/// One named value of a table.
pub struct LangEntry {
    pub key: String,
    pub value: LangValue,
}

/// The views of a list of keys.
pub open spec fn key_views(keys: Seq<&str>) -> Seq<Seq<char>> {
    keys.map_values(|k: &str| k@)
}

/// The index of the first entry named `key` among the first `n` entries.
pub open spec fn first_named(entries: Seq<LangEntry>, key: Seq<char>, n: int) -> Option<int>
    decreases n,
{
    if n <= 0 || entries.len() < n {
        None
    } else {
        match first_named(entries, key, n - 1) {
            Some(i) => Some(i),
            None => if entries[n - 1].key@ == key {
                Some(n - 1)
            } else {
                None
            },
        }
    }
}

pub(crate) proof fn lemma_first_named_stable(entries: Seq<LangEntry>, key: Seq<char>, m: int, n: int)
    requires
        0 <= m <= n <= entries.len(),
        first_named(entries, key, m) is Some,
    ensures
        first_named(entries, key, n) == first_named(entries, key, m),
    decreases n - m,
{
    if m < n {
        lemma_first_named_stable(entries, key, m, n - 1);
    }
}

/// The value named `key` in a table: its first entry of that name.
pub open spec fn child(v: LangValue, key: Seq<char>) -> Option<LangValue> {
    match v {
        LangValue::Table(entries) => match first_named(entries@, key, entries@.len() as int) {
            Some(i) => Some(entries@[i].value),
            None => None,
        },
        _ => None,
    }
}

/// The text found by following a path of keys from `v`: each key names a
/// value of the current table, and the last value must be text.
pub open spec fn lookup(v: LangValue, keys: Seq<Seq<char>>) -> Option<Seq<char>>
    decreases keys.len(),
{
    if keys.len() == 0 {
        match v {
            LangValue::Text(s) => Some(s@),
            _ => None,
        }
    } else {
        match child(v, keys[0]) {
            Some(c) => lookup(c, keys.drop_first()),
            None => None,
        }
    }
}

/// The keys joined with `sep` between them.
pub open spec fn joined(parts: Seq<Seq<char>>, sep: Seq<char>) -> Seq<char>
    decreases parts.len(),
{
    if parts.len() == 0 {
        Seq::empty()
    } else if parts.len() == 1 {
        parts[0]
    } else {
        joined(parts.drop_last(), sep) + sep + parts.last()
    }
}

/// The pieces of `s` between the occurrences of `sep`; an empty text gives
/// one empty piece.
pub open spec fn split_on(s: Seq<char>, sep: char) -> Seq<Seq<char>>
    decreases s.len(),
{
    if s.len() == 0 {
        seq![Seq::empty()]
    } else {
        let rest = split_on(s.drop_last(), sep);
        if s.last() == sep {
            rest.push(Seq::empty())
        } else {
            rest.update(rest.len() - 1, rest.last().push(s.last()))
        }
    }
}

pub(crate) proof fn lemma_split_nonempty(s: Seq<char>, sep: char)
    ensures
        split_on(s, sep).len() >= 1,
    decreases s.len(),
{
    if s.len() > 0 {
        lemma_split_nonempty(s.drop_last(), sep);
    }
}

/// Whether two texts hold the same characters.
pub fn text_eq(a: &str, b: &str) -> (r: bool)
    ensures
        r == (a@ == b@),
{
    let n = a.unicode_len();
    if n != b.unicode_len() {
        return false;
    }
    let mut i: usize = 0;
    while i < n
        invariant
            n == a@.len(),
            n == b@.len(),
            0 <= i <= n,
            a@.subrange(0, i as int) == b@.subrange(0, i as int),
        decreases n - i,
    {
        if a.get_char(i) != b.get_char(i) {
            return false;
        }
        assert(a@.subrange(0, i + 1) == a@.subrange(0, i as int).push(a@[i as int]));
        assert(b@.subrange(0, i + 1) == b@.subrange(0, i as int).push(b@[i as int]));
        i = i + 1;
    }
    assert(a@ == a@.subrange(0, n as int));
    assert(b@ == b@.subrange(0, n as int));
    true
}

/// The value named `key` in the table `v`, if `v` is a table holding one.
pub fn get_child<'a>(v: &'a LangValue, key: &str) -> (r: Option<&'a LangValue>)
    ensures
        match r {
            Some(c) => child(*v, key@) == Some(*c),
            None => child(*v, key@) is None,
        },
{
    match v {
        LangValue::Table(entries) => {
            let mut i: usize = 0;
            while i < entries.len()
                invariant
                    *v == LangValue::Table(*entries),
                    0 <= i <= entries@.len(),
                    first_named(entries@, key@, i as int) is None,
                decreases entries.len() - i,
            {
                if text_eq(entries[i].key.as_str(), key) {
                    assert(first_named(entries@, key@, i + 1) == Some(i as int));
                    proof {
                        lemma_first_named_stable(entries@, key@, i + 1, entries@.len() as int);
                    }
                    return Some(&entries[i].value);
                }
                assert(first_named(entries@, key@, i + 1) is None);
                i = i + 1;
            }
            None
        },
        _ => None,
    }
}

/// The text at a path of keys, if there is text there.
pub fn get_maybe(lang: &LangValue, keys: &[&str]) -> (r: Option<String>)
    ensures
        match r {
            Some(s) => lookup(*lang, key_views(keys@)) == Some(s@),
            None => lookup(*lang, key_views(keys@)) is None,
        },
{
    let ghost kv = key_views(keys@);
    let mut current: &LangValue = lang;
    let mut i: usize = 0;
    assert(kv.subrange(0, kv.len() as int) == kv);
    while i < keys.len()
        invariant
            kv == key_views(keys@),
            0 <= i <= keys@.len(),
            lookup(*lang, kv) == lookup(*current, kv.subrange(i as int, kv.len() as int)),
        decreases keys.len() - i,
    {
        let ghost rest = kv.subrange(i as int, kv.len() as int);
        assert(rest.drop_first() == kv.subrange(i + 1, kv.len() as int));
        assert(rest[0] == keys@[i as int]@);
        match get_child(current, keys[i]) {
            Some(c) => {
                current = c;
            },
            None => {
                return None;
            },
        }
        i = i + 1;
    }
    assert(kv.subrange(i as int, kv.len() as int).len() == 0);
    match current {
        LangValue::Text(s) => Some(s.clone()),
        _ => None,
    }
}

/// The keys joined with `.` between them.
pub fn full_path(keys: &[&str]) -> (r: String)
    ensures
        r@ == joined(key_views(keys@), "."@),
{
    let ghost kv = key_views(keys@);
    let mut path = String::new();
    let mut i: usize = 0;
    while i < keys.len()
        invariant
            kv == key_views(keys@),
            0 <= i <= keys@.len(),
            path@ == joined(kv.subrange(0, i as int), "."@),
        decreases keys.len() - i,
    {
        assert(kv.subrange(0, i + 1).drop_last() == kv.subrange(0, i as int));
        if i > 0 {
            path.append(".");
        }
        path.append(keys[i]);
        i = i + 1;
    }
    assert(kv.subrange(0, kv.len() as int) == kv);
    path
}

/// The pieces of `key` between its dots.
pub fn split_dots(key: &str) -> (r: Vec<&str>)
    ensures
        key_views(r@) == split_on(key@, '.'),
{
    let n = key.unicode_len();
    let mut pieces: Vec<&str> = Vec::new();
    let mut start: usize = 0;
    let mut i: usize = 0;
    assert(key@.subrange(0, 0) =~= Seq::<char>::empty());
    assert(key_views(pieces@).push(key@.subrange(0, 0)) =~= split_on(key@.subrange(0, 0), '.'));
    while i < n
        invariant
            n == key@.len(),
            0 <= start <= i <= n,
            key_views(pieces@).push(key@.subrange(start as int, i as int)) == split_on(
                key@.subrange(0, i as int),
                '.',
            ),
        decreases n - i,
    {
        let c = key.get_char(i);
        let ghost prefix = key@.subrange(0, i + 1);
        assert(prefix.drop_last() == key@.subrange(0, i as int));
        assert(prefix.last() == c);
        if c == '.' {
            let piece = key.substring_char(start, i);
            let ghost before = pieces@;
            pieces.push(piece);
            assert(key_views(pieces@) =~= key_views(before).push(piece@));
            start = i + 1;
            assert(key@.subrange(start as int, i + 1) =~= Seq::<char>::empty());
            assert(key_views(pieces@).push(key@.subrange(start as int, i + 1)) =~= split_on(
                prefix,
                '.',
            ));
        } else {
            assert(key@.subrange(start as int, i + 1) =~= key@.subrange(start as int, i as int).push(c));
            let ghost rest = split_on(key@.subrange(0, i as int), '.');
            assert(key_views(pieces@).push(key@.subrange(start as int, i + 1)) =~= rest.update(
                rest.len() - 1,
                rest.last().push(c),
            ));
        }
        i = i + 1;
    }
    let last = key.substring_char(start, n);
    let ghost before = pieces@;
    pieces.push(last);
    assert(key_views(pieces@) =~= key_views(before).push(last@));
    assert(key@.subrange(0, n as int) == key@);
    pieces
}

/// The text at a path of keys, or `<path>` where there is none.
pub fn get_infallible(lang: &LangValue, keys: &[&str]) -> (r: String)
    ensures
        r@ == match lookup(*lang, key_views(keys@)) {
            Some(s) => s,
            None => "<"@ + joined(key_views(keys@), "."@) + ">"@,
        },
{
    match get_maybe(lang, keys) {
        Some(s) => s,
        None => {
            let path = full_path(keys);
            String::from_str("<").concat(path.as_str()).concat(">")
        },
    }
}

/// The localized text for a dotted key such as `item.name.shotgun`.
pub open spec fn localized(lang: LangValue, key: Seq<char>) -> Seq<char> {
    let keys = split_on(key, '.');
    match lookup(lang, keys) {
        Some(s) => s,
        None => "<"@ + joined(keys, "."@) + ">"@,
    }
}

/// The text at a dotted key, or `<key>` where there is none.
pub fn get_parsed(lang: &LangValue, key: &str) -> (r: String)
    ensures
        r@ == localized(*lang, key@),
{
    let keys = split_dots(key);
    get_infallible(lang, keys.as_slice())
}

/// The views of a list of name/value pairs.
pub open spec fn pair_views(pairs: Seq<(&str, &str)>) -> Seq<(Seq<char>, Seq<char>)> {
    pairs.map_values(|p: (&str, &str)| (p.0@, p.1@))
}

/// Whether `Regex::new` accepts a pattern.
pub uninterp spec fn pattern_compiles(pattern: Seq<char>) -> bool;

/// What replacing every non-overlapping match of the compiled `pattern` in
/// `text` by `replacement` gives, with `$` references in `replacement`
/// expanded to the groups they name.
pub uninterp spec fn regex_replaced(
    pattern: Seq<char>,
    text: Seq<char>,
    replacement: Seq<char>,
) -> Seq<char>;

/// The debug form of a list of keys, as `["a", "b"]`.
pub uninterp spec fn debug_keys(keys: Seq<Seq<char>>) -> Seq<char>;

/// The debug form of a list of pairs, as `[("a", "b")]`.
pub uninterp spec fn debug_pairs(pairs: Seq<(Seq<char>, Seq<char>)>) -> Seq<char>;

/// Relies on `regex::Regex::new`, which compiles a pattern or fails, and on
/// `Regex::replace_all`, which puts `replacement`, its `$` references
/// expanded, in place of every non-overlapping match in `text`.
#[verifier::external_body]
fn replace_matches(pattern: &str, text: &str, replacement: &str) -> (r: Option<String>)
    ensures
        r is Some <==> pattern_compiles(pattern@),
        r matches Some(s) ==> s@ == regex_replaced(pattern@, text@, replacement@),
{
    match regex::Regex::new(pattern) {
        Ok(re) => Some(re.replace_all(text, replacement).into_owned()),
        Err(_) => None,
    }
}

/// Relies on the `Debug` formatting of a slice of `&str`.
#[verifier::external_body]
fn format_keys(keys: &[&str]) -> (r: String)
    ensures
        r@ == debug_keys(key_views(keys@)),
{
    format!("{:?}", keys)
}

/// Relies on the `Debug` formatting of a slice of `(&str, &str)`.
#[verifier::external_body]
fn format_pairs(pairs: &[(&str, &str)]) -> (r: String)
    ensures
        r@ == debug_pairs(pair_views(pairs@)),
{
    format!("{:?}", pairs)
}

/// The pattern matching the placeholder `{name}`, with blanks allowed
/// inside the braces.
pub open spec fn placeholder_pattern(name: Seq<char>) -> Seq<char> {
    "\\{\\s*"@ + name + "\\s*\\}"@
}

pub open spec fn bad_name_message(name: Seq<char>) -> Seq<char> {
    "Replacement names must be valid regex: \""@ + name + "\""@
}

pub open spec fn missing_key_message(keys: Seq<Seq<char>>) -> Seq<char> {
    "Failed to find value for key "@ + debug_keys(keys)
}

/// A later pair gives the same name a value: the later one is used.
pub open spec fn superseded(pairs: Seq<(Seq<char>, Seq<char>)>, i: int) -> bool {
    exists|j: int| i < j < pairs.len() && pairs[j].0 == pairs[i].0
}

/// Fills the placeholders of `product` from the pairs at `i` and after, in
/// order. A name that makes no valid pattern fails the fill when
/// `fail_quickly` holds and is skipped otherwise.
pub open spec fn fill_from(
    product: Seq<char>,
    pairs: Seq<(Seq<char>, Seq<char>)>,
    i: int,
    fail_quickly: bool,
) -> Result<Seq<char>, Seq<char>>
    decreases pairs.len() - i,
{
    if i < 0 || i >= pairs.len() {
        Ok(product)
    } else if superseded(pairs, i) {
        fill_from(product, pairs, i + 1, fail_quickly)
    } else {
        let pattern = placeholder_pattern(pairs[i].0);
        if pattern_compiles(pattern) {
            fill_from(regex_replaced(pattern, product, pairs[i].1), pairs, i + 1, fail_quickly)
        } else if fail_quickly {
            Err(bad_name_message(pairs[i].0))
        } else {
            fill_from(product, pairs, i + 1, fail_quickly)
        }
    }
}

/// The template at a path of keys with its placeholders filled.
pub open spec fn filled(
    lang: LangValue,
    keys: Seq<Seq<char>>,
    pairs: Seq<(Seq<char>, Seq<char>)>,
    fail_quickly: bool,
) -> Result<Seq<char>, Seq<char>> {
    match lookup(lang, keys) {
        Some(template) => fill_from(template, pairs, 0, fail_quickly),
        None => Err(missing_key_message(keys)),
    }
}

fn is_superseded(pairs: &[(&str, &str)], i: usize) -> (r: bool)
    requires
        i < pairs@.len(),
    ensures
        r == superseded(pair_views(pairs@), i as int),
{
    let ghost pv = pair_views(pairs@);
    let n = pairs.len();
    let mut j: usize = i + 1;
    while j < n
        invariant
            pv == pair_views(pairs@),
            n == pairs@.len(),
            i < j <= n,
            forall|k: int| i < k < j ==> pv[k].0 != pv[i as int].0,
        decreases n - j,
    {
        if text_eq(pairs[j].0, pairs[i].0) {
            assert(pv[j as int].0 == pv[i as int].0);
            return true;
        }
        j = j + 1;
    }
    false
}

fn fill_template(lang: &LangValue, keys: &[&str], pairs: &[(&str, &str)], fail_quickly: bool) -> (r:
    Result<String, String>)
    ensures
        match r {
            Ok(s) => filled(*lang, key_views(keys@), pair_views(pairs@), fail_quickly) == Ok::<
                Seq<char>,
                Seq<char>,
            >(s@),
            Err(e) => filled(*lang, key_views(keys@), pair_views(pairs@), fail_quickly) == Err::<
                Seq<char>,
                Seq<char>,
            >(e@),
        },
{
    let template = match get_maybe(lang, keys) {
        Some(t) => t,
        None => {
            let shown = format_keys(keys);
            return Err(String::from_str("Failed to find value for key ").concat(shown.as_str()));
        },
    };
    let ghost pv = pair_views(pairs@);
    let mut product = template;
    let mut i: usize = 0;
    while i < pairs.len()
        invariant
            pv == pair_views(pairs@),
            0 <= i <= pairs@.len(),
            filled(*lang, key_views(keys@), pv, fail_quickly) == fill_from(
                product@,
                pv,
                i as int,
                fail_quickly,
            ),
        decreases pairs.len() - i,
    {
        if !is_superseded(pairs, i) {
            let name = pairs[i].0;
            let pattern = String::from_str("\\{\\s*").concat(name).concat("\\s*\\}");
            assert(pattern@ == placeholder_pattern(pv[i as int].0));
            match replace_matches(pattern.as_str(), product.as_str(), pairs[i].1) {
                Some(replaced) => {
                    product = replaced;
                },
                None => {
                    if fail_quickly {
                        return Err(
                            String::from_str("Replacement names must be valid regex: \"").concat(
                                name,
                            ).concat("\""),
                        );
                    }
                },
            }
        }
        i = i + 1;
    }
    Ok(product)
}

/// The template at a path of keys with its placeholders filled; fails on a
/// missing template or on a name that makes no valid pattern.
pub fn get_template_maybe(lang: &LangValue, keys: &[&str], pairs: &[(&str, &str)]) -> (r: Result<
    String,
    String,
>)
    ensures
        match r {
            Ok(s) => filled(*lang, key_views(keys@), pair_views(pairs@), true) == Ok::<
                Seq<char>,
                Seq<char>,
            >(s@),
            Err(e) => filled(*lang, key_views(keys@), pair_views(pairs@), true) == Err::<
                Seq<char>,
                Seq<char>,
            >(e@),
        },
{
    fill_template(lang, keys, pairs, true)
}

/// The filled template at a path of keys, or `<path; pairs>` where there is
/// no template.
pub open spec fn template_text(
    lang: LangValue,
    keys: Seq<Seq<char>>,
    pairs: Seq<(Seq<char>, Seq<char>)>,
) -> Seq<char> {
    match filled(lang, keys, pairs, false) {
        Ok(s) => s,
        Err(_) => "<"@ + joined(keys, "."@) + "; "@ + debug_pairs(pairs) + ">"@,
    }
}

/// The filled template at a path of keys, or `<path; pairs>` where there is
/// no template; names that make no valid pattern are skipped.
pub fn get_template(lang: &LangValue, keys: &[&str], pairs: &[(&str, &str)]) -> (r: String)
    ensures
        r@ == template_text(*lang, key_views(keys@), pair_views(pairs@)),
{
    match fill_template(lang, keys, pairs, false) {
        Ok(s) => s,
        Err(_) => {
            let path = full_path(keys);
            let shown = format_pairs(pairs);
            String::from_str("<").concat(path.as_str()).concat("; ").concat(shown.as_str()).concat(
                ">",
            )
        },
    }
}

/// The filled template at a dotted key.
pub open spec fn templated(
    lang: LangValue,
    key: Seq<char>,
    pairs: Seq<(Seq<char>, Seq<char>)>,
) -> Seq<char> {
    template_text(lang, split_on(key, '.'), pairs)
}

/// The filled template at a dotted key such as `item.stat_tracker`.
pub fn get_template_parsed(lang: &LangValue, key: &str, pairs: &[(&str, &str)]) -> (r: String)
    ensures
        r@ == templated(*lang, key@, pair_views(pairs@)),
{
    let keys = split_dots(key);
    get_template(lang, keys.as_slice(), pairs)
}

} // verus!
