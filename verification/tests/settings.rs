use next_tablet_driver::i18n::Locale;
use next_tablet_driver::settings::{
    default_telemetry_enabled, default_telemetry_id, sanitize_profile_name, should_migrate_profile,
    validate_theme, AppPreferences, ThemePreference,
};

#[test]
fn test_sanitize_profile_name() {
    assert_eq!(sanitize_profile_name("my_profile"), "my_profile");
    assert_eq!(sanitize_profile_name("my/profile\\name"), "myprofilename");
    assert_eq!(sanitize_profile_name("profile:test?*"), "profiletest");
    assert_eq!(sanitize_profile_name("../../../etc/passwd"), "etcpasswd");
    assert_eq!(sanitize_profile_name("..\\invalid"), "invalid");
    assert_eq!(sanitize_profile_name(".hidden"), "hidden");
    assert_eq!(sanitize_profile_name("/\\:*?\"<>|"), "unnamed_profile");
}

#[test]
fn sanitize_keeps_spaces_and_unicode_and_is_idempotent() {
    assert_eq!(sanitize_profile_name("Test Theme"), "Test Theme");
    assert_eq!(sanitize_profile_name("Profil é<1>"), "Profil é1");
    assert_eq!(sanitize_profile_name(""), "unnamed_profile");
    assert_eq!(sanitize_profile_name("..."), "unnamed_profile");
    let once = sanitize_profile_name("./a:b.c");
    assert_eq!(once, "a:b.c".replace(':', ""));
    assert_eq!(sanitize_profile_name(&once), once);
}

fn is_uuid_v4(s: &str) -> bool {
    let b: Vec<char> = s.chars().collect();
    b.len() == 36
        && b.iter().enumerate().all(|(i, c)| {
            if [8, 13, 18, 23].contains(&i) {
                *c == '-'
            } else {
                c.is_ascii_hexdigit() && !c.is_ascii_uppercase()
            }
        })
        && b[14] == '4'
        && "89ab".contains(b[19])
}

#[test]
fn preferences_default() {
    let p = AppPreferences::default();
    assert_eq!(p.theme, ThemePreference::System);
    assert_eq!(p.language, Locale::English);
    assert!(p.telemetry_enabled);
    assert!(is_uuid_v4(&p.telemetry_id));
    assert!(default_telemetry_enabled());
    let a = default_telemetry_id();
    let b = default_telemetry_id();
    assert!(is_uuid_v4(&a) && is_uuid_v4(&b));
    assert_ne!(a, b);
}

#[test]
fn validate_theme_reverts_missing_custom_theme() {
    let mut p = AppPreferences::default();
    p.theme = ThemePreference::Custom("Gone".to_string());
    let id = p.telemetry_id.clone();
    validate_theme(&mut p, &vec!["Other".to_string()]);
    assert_eq!(p.theme, ThemePreference::System);
    assert_eq!(p.telemetry_id, id);

    p.theme = ThemePreference::Custom("Mine".to_string());
    validate_theme(&mut p, &vec!["Other".to_string(), "Mine".to_string()]);
    assert_eq!(p.theme, ThemePreference::Custom("Mine".to_string()));

    p.theme = ThemePreference::Dark;
    validate_theme(&mut p, &vec![]);
    assert_eq!(p.theme, ThemePreference::Dark);
}

#[test]
fn legacy_profiles_are_migrated_but_system_files_are_not() {
    assert!(should_migrate_profile(true, Some("json"), Some("Game Profile"), false));
    assert!(!should_migrate_profile(true, Some("json"), Some("last_session"), false));
    assert!(!should_migrate_profile(true, Some("json"), Some("session_meta"), false));
    assert!(!should_migrate_profile(true, Some("json"), Some("app_preferences"), false));
    assert!(!should_migrate_profile(true, Some("json"), Some("cache_releases"), false));
    assert!(!should_migrate_profile(true, Some("txt"), Some("notes"), false));
    assert!(!should_migrate_profile(false, Some("json"), Some("dir"), false));
    assert!(!should_migrate_profile(true, Some("json"), Some("Game Profile"), true));
    assert!(!should_migrate_profile(true, None, Some("x"), false));
    assert!(!should_migrate_profile(true, Some("json"), None, false));
}
