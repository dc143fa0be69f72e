use next_tablet_driver::i18n::load_locale_table;
use next_tablet_driver::i18n::{current_locale, set_locale, translate, translate_with, I18n, Locale};

fn table(pairs: &[(&str, &str)]) -> Vec<(String, String)> {
    pairs.iter().map(|(k, v)| (k.to_string(), v.to_string())).collect()
}

fn english() -> Vec<(String, String)> {
    table(&[
        ("tabs.output", "Output"),
        ("toast.profile_loaded", "Loaded {name}"),
        ("only.english", "English only"),
    ])
}

fn french() -> Vec<(String, String)> {
    table(&[("tabs.output", "Sortie"), ("toast.profile_loaded", "{name} chargé")])
}

#[test]
fn locale_metadata() {
    assert_eq!(Locale::English.filename(), "en.json");
    assert_eq!(Locale::French.filename(), "fr.json");
    assert_eq!(Locale::English.display_name(), "English");
    assert_eq!(Locale::French.display_name(), "Français");
    assert_eq!(Locale::all(), &[Locale::English, Locale::French][..]);
    assert_eq!(Locale::default(), Locale::English);
}

#[test]
fn lookup_falls_back_to_english_then_key() {
    let i18n = I18n::new(Locale::French, english(), french());
    assert_eq!(translate(&i18n, "tabs.output"), "Sortie");
    assert_eq!(translate(&i18n, "only.english"), "English only");
    assert_eq!(translate(&i18n, "missing.key"), "missing.key");
    assert_eq!(current_locale(&i18n), Locale::French);
}

#[test]
fn english_ignores_the_localized_table() {
    let i18n = I18n::new(Locale::English, english(), french());
    assert_eq!(translate(&i18n, "tabs.output"), "Output");
}

#[test]
fn set_locale_switches_and_same_locale_is_a_no_op() {
    let mut i18n = I18n::new(Locale::English, english(), vec![]);
    set_locale(&mut i18n, Locale::English, french());
    assert_eq!(translate(&i18n, "tabs.output"), "Output");
    set_locale(&mut i18n, Locale::French, french());
    assert_eq!(current_locale(&i18n), Locale::French);
    assert_eq!(translate(&i18n, "tabs.output"), "Sortie");
    set_locale(&mut i18n, Locale::English, vec![]);
    assert_eq!(translate(&i18n, "tabs.output"), "Output");
}

#[test]
fn interpolation_replaces_every_placeholder() {
    let i18n = I18n::new(Locale::French, english(), french());
    assert_eq!(
        translate_with(&i18n, "toast.profile_loaded", &[("name", "MyProfile")]),
        "MyProfile chargé"
    );
    let t = I18n::new(
        Locale::English,
        table(&[("k", "{a}-{b}-{a}{c}")]),
        vec![],
    );
    assert_eq!(translate_with(&t, "k", &[("a", "1"), ("b", "{a}")]), "1-{a}-1{c}");
    assert_eq!(translate_with(&t, "k", &[("b", "{a}"), ("a", "x")]), "x-x-x{c}");
    assert_eq!(translate_with(&t, "k", &[]), "{a}-{b}-{a}{c}");
}

#[test]
fn locale_files_load_as_tables() {
    let t = load_locale_table(Some(r#"{"tabs.output": "Sortie", "a": "b"}"#));
    assert_eq!(t.len(), 2);
    let i18n = I18n::new(Locale::French, english(), t);
    assert_eq!(translate(&i18n, "tabs.output"), "Sortie");
    assert_eq!(translate(&i18n, "a"), "b");
    assert!(load_locale_table(None).is_empty());
    assert!(load_locale_table(Some("{ invalid }")).is_empty());
    assert!(load_locale_table(Some(r#"{"n": 1}"#)).is_empty());
    assert!(load_locale_table(Some("[]")).is_empty());
    let dup = load_locale_table(Some(r#"{"k": "first", "k": "second"}"#));
    assert_eq!(dup, vec![("k".to_string(), "second".to_string())]);
}

#[test]
fn absent_placeholders_leave_text_unchanged() {
    let i18n = I18n::new(Locale::French, english(), french());
    assert_eq!(translate_with(&i18n, "tabs.output", &[("name", "x")]), "Sortie");
    assert_eq!(translate_with(&i18n, "missing", &[("missing", "x")]), "missing");
}
