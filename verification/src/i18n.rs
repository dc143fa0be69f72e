//! Translation lookup: the active locale's table, an English fallback
//! table, and `{name}` placeholder interpolation.

use vstd::prelude::*;
use crate::text::{chars_of, replaced, replace_all, string_from_chars};

verus! {

/// Supported application locales.
#[derive(Clone, Copy, Debug, PartialEq, Eq, Structural)]
pub enum Locale {
    English,
    French,
}

impl Default for Locale {
    fn default() -> (l: Self)
        ensures
            l == Locale::English,
    {
        Locale::English
    }
}

impl Locale {
    /// Name of the JSON file holding this locale's translations.
    pub fn filename(self) -> (name: &'static str)
        ensures
            self == Locale::English ==> name@ == "en.json"@,
            self == Locale::French ==> name@ == "fr.json"@,
    {
        match self {
            Locale::English => "en.json",
            Locale::French => "fr.json",
        }
    }

    /// The locale's own name for itself.
    pub fn display_name(self) -> (name: &'static str)
        ensures
            self == Locale::English ==> name@ == "English"@,
            self == Locale::French ==> name@ == "Français"@,
    {
        match self {
            Locale::English => "English",
            Locale::French => "Français",
        }
    }

    /// All available locales, English first.
    pub fn all() -> (all: &'static [Locale])
        ensures
            all@ == seq![Locale::English, Locale::French],
    {
        let all: &'static [Locale] = &[Locale::English, Locale::French];
        assert(all@ =~= seq![Locale::English, Locale::French]);
        all
    }
}

/// A translation table: (key, translated text) pairs.
pub type Table = Vec<(String, String)>;

/// The text the table holds for `key`: that of the first entry with this key.
pub open spec fn lookup(t: Seq<(String, String)>, key: Seq<char>) -> Option<Seq<char>>
    decreases t.len(),
{
    if t.len() == 0 {
        None
    } else if t[0].0@ == key {
        Some(t[0].1@)
    } else {
        lookup(t.skip(1), key)
    }
}

/// The text shown for `key`: the active table's entry, else the English
/// entry, else the key itself.
pub open spec fn resolve(translations: Seq<(String, String)>, fallback: Seq<(String, String)>, key: Seq<char>) -> Seq<char> {
    match lookup(translations, key) {
        Some(text) => text,
        None => match lookup(fallback, key) {
            Some(text) => text,
            None => key,
        },
    }
}

/// A table read as a map: the text of each key is that of its first entry.
pub open spec fn table_map(t: Seq<(String, String)>) -> Map<Seq<char>, Seq<char>>
    decreases t.len(),
{
    if t.len() == 0 {
        Map::empty()
    } else {
        table_map(t.skip(1)).insert(t[0].0@, t[0].1@)
    }
}

/// Whether no key occurs twice in the table.
pub open spec fn distinct_keys(t: Seq<(String, String)>) -> bool {
    forall|i: int, j: int| 0 <= i < j < t.len() ==> #[trigger] t[i].0@ != #[trigger] t[j].0@
}

/// Looking a key up in a table agrees with the table read as a map.
pub proof fn lemma_lookup_is_map_lookup(t: Seq<(String, String)>, key: Seq<char>)
    ensures
        lookup(t, key) == (if table_map(t).contains_key(key) {
            Some(table_map(t)[key])
        } else {
            None
        }),
    decreases t.len(),
{
    if t.len() > 0 {
        lemma_lookup_is_map_lookup(t.skip(1), key);
    }
}

/// The map that `serde_json::from_str::<HashMap<String, String>>` reads
/// from a text, or `None` when the text is not a JSON object whose values
/// are all strings.
pub uninterp spec fn json_string_object(text: Seq<char>) -> Option<Map<Seq<char>, Seq<char>>>;

/// Parses a JSON object of strings with `serde_json` into a table, one
/// entry per key, in the map's (unspecified) iteration order.
#[verifier::external_body]
fn parse_string_object(text: &str) -> (t: Option<Table>)
    ensures
        t is Some <==> json_string_object(text@) is Some,
        t matches Some(entries) ==> distinct_keys(entries@) && table_map(entries@)
            == json_string_object(text@).unwrap(),
{
    match serde_json::from_str::<std::collections::HashMap<String, String>>(text) {
        Ok(m) => Some(m.into_iter().collect()),
        Err(_) => None,
    }
}

/// The translation table of a locale file: its key/text pairs when the file
/// was found and is a JSON object of strings, and an empty table otherwise.
pub fn load_locale_table(content: Option<&str>) -> (t: Table)
    ensures
        distinct_keys(t@),
        content is None ==> t@.len() == 0,
        content matches Some(c) ==> match json_string_object(c@) {
            Some(m) => table_map(t@) == m,
            None => t@.len() == 0,
        },
{
    match content {
        Some(c) => match parse_string_object(c) {
            Some(t) => t,
            None => Vec::new(),
        },
        None => Vec::new(),
    }
}

/// The placeholder `{name}`.
pub open spec fn placeholder(name: Seq<char>) -> Seq<char> {
    seq!['{'] + name + seq!['}']
}

/// `text` with the placeholders of `args` substituted in order: first every
/// `{args[0].0}` by `args[0].1`, then in that result every `{args[1].0}`, and so on.
pub open spec fn interpolated(text: Seq<char>, args: Seq<(Seq<char>, Seq<char>)>) -> Seq<char>
    decreases args.len(),
{
    if args.len() == 0 {
        text
    } else {
        replaced(interpolated(text, args.drop_last()), placeholder(args.last().0), args.last().1)
    }
}

/// The active locale and its translations, with English as the fallback.
pub struct I18n {
    locale: Locale,
    translations: Table,
    fallback: Table,
}

impl I18n {
    /// The active locale.
    pub closed spec fn active_locale(&self) -> Locale {
        self.locale
    }

    /// Entries of the active locale's table.
    pub closed spec fn active_table(&self) -> Seq<(String, String)> {
        self.translations@
    }

    /// Entries of the English fallback table.
    pub closed spec fn fallback_table(&self) -> Seq<(String, String)> {
        self.fallback@
    }

    /// Builds the translation state for `locale` from the English table and
    /// the table loaded for `locale` (ignored when `locale` is English,
    /// whose table is the fallback itself).
    pub fn new(locale: Locale, english: Table, localized: Table) -> (i: I18n)
        ensures
            i.active_locale() == locale,
            i.fallback_table() == english@,
            i.active_table() == (if locale == Locale::English {
                english@
            } else {
                localized@
            }),
    {
        let translations = if locale == Locale::English {
            clone_table(&english)
        } else {
            localized
        };
        I18n { locale, translations, fallback: english }
    }

    /// The text for `key`: the active locale's entry, else the English
    /// entry, else the key itself.
    pub fn get(&self, key: &str) -> (text: String)
        ensures
            text@ == resolve(self.active_table(), self.fallback_table(), key@),
    {
        let k = key.to_owned();
        match find(&self.translations, &k) {
            Some(text) => text,
            None => match find(&self.fallback, &k) {
                Some(text) => text,
                None => k,
            },
        }
    }
}

fn clone_table(t: &Table) -> (c: Table)
    ensures
        c@ == t@,
{
    let mut c: Table = Vec::new();
    let mut i: usize = 0;
    while i < t.len()
        invariant
            i <= t@.len(),
            c@ == t@.take(i as int),
        decreases t@.len() - i,
    {
        let (k, v) = &t[i];
        c.push((k.clone(), v.clone()));
        i = i + 1;
        assert(c@ =~= t@.take(i as int));
    }
    assert(t@.take(t@.len() as int) =~= t@);
    c
}

fn find(t: &Table, key: &String) -> (text: Option<String>)
    ensures
        text matches Some(s) ==> lookup(t@, key@) == Some(s@),
        text is None ==> lookup(t@, key@) is None,
{
    let mut i: usize = 0;
    assert(t@.skip(0) =~= t@);
    while i < t.len()
        invariant
            i <= t@.len(),
            lookup(t@, key@) == lookup(t@.skip(i as int), key@),
        decreases t@.len() - i,
    {
        assert(t@.skip(i as int).skip(1) =~= t@.skip(i + 1));
        if t[i].0 == *key {
            return Some(t[i].1.clone());
        }
        i = i + 1;
    }
    None
}

/// The active locale.
pub fn current_locale(i18n: &I18n) -> (l: Locale)
    ensures
        l == i18n.active_locale(),
{
    i18n.locale
}

/// Switches to `locale`, whose table is `localized`. Nothing changes when
/// `locale` is already active; otherwise the active table becomes
/// `localized` (the English table itself for English) and the fallback
/// stays English.
pub fn set_locale(i18n: &mut I18n, locale: Locale, localized: Table)
    ensures
        old(i18n).active_locale() == locale ==> final(i18n).active_locale() == old(i18n).active_locale()
            && final(i18n).active_table() == old(i18n).active_table()
            && final(i18n).fallback_table() == old(i18n).fallback_table(),
        old(i18n).active_locale() != locale ==> final(i18n).active_locale() == locale
            && final(i18n).fallback_table() == old(i18n).fallback_table()
            && final(i18n).active_table() == (if locale == Locale::English {
                old(i18n).fallback_table()
            } else {
                localized@
            }),
{
    if i18n.locale == locale {
        return;
    }
    let translations = if locale == Locale::English {
        clone_table(&i18n.fallback)
    } else {
        localized
    };
    i18n.translations = translations;
    i18n.locale = locale;
}

/// Looks up the translation of `key` (see [`I18n::get`]).
pub fn translate(i18n: &I18n, key: &str) -> (text: String)
    ensures
        text@ == resolve(i18n.active_table(), i18n.fallback_table(), key@),
{
    i18n.get(key)
}

/// Pairs of (placeholder name, value) as character sequences.
pub open spec fn args_view(args: Seq<(&str, &str)>) -> Seq<(Seq<char>, Seq<char>)> {
    args.map_values(|a: (&str, &str)| (a.0@, a.1@))
}

/// Translates `key`, then replaces each `{name}` placeholder with its value,
/// argument by argument in order.
pub fn translate_with(i18n: &I18n, key: &str, args: &[(&str, &str)]) -> (text: String)
    ensures
        text@ == interpolated(resolve(i18n.active_table(), i18n.fallback_table(), key@), args_view(args@)),
{
    let base = translate(i18n, key);
    let mut result = chars_of(base.as_str());
    let mut i: usize = 0;
    while i < args.len()
        invariant
            i <= args@.len(),
            result@ == interpolated(base@, args_view(args@).take(i as int)),
        decreases args@.len() - i,
    {
        let (name, value) = args[i];
        let mut pat: Vec<char> = Vec::new();
        pat.push('{');
        let name_chars = chars_of(name);
        crate::text::push_all(&mut pat, name_chars.as_slice());
        pat.push('}');
        assert(pat@ =~= placeholder(name@));
        let value_chars = chars_of(value);
        result = replace_all(result.as_slice(), pat.as_slice(), value_chars.as_slice());
        proof {
            let v = args_view(args@);
            assert(v.take(i + 1).drop_last() =~= v.take(i as int));
            assert(v.take(i + 1).last() == (name@, value@));
        }
        i = i + 1;
    }
    assert(args_view(args@).take(args@.len() as int) =~= args_view(args@));
    string_from_chars(result.as_slice())
}

} // verus!
