//! Settings rules: safe profile/theme folder names, application
//! preferences, the active-session record and legacy profile migration.

use vstd::prelude::*;
use crate::i18n::Locale;
use crate::protocol::DriverMode;
use crate::text::{chars_of, contains, has_substring, same_text, string_from_chars};

verus! {

/// Characters that may not appear in a profile or theme file name.
pub open spec fn forbidden_in_name(c: char) -> bool {
    c == '/' || c == '\\' || c == ':' || c == '*' || c == '?' || c == '"' || c == '<' || c == '>'
        || c == '|'
}

/// `s` without its forbidden characters, the others kept in order.
pub open spec fn without_forbidden(s: Seq<char>) -> Seq<char>
    decreases s.len(),
{
    if s.len() == 0 {
        s
    } else if forbidden_in_name(s.last()) {
        without_forbidden(s.drop_last())
    } else {
        without_forbidden(s.drop_last()).push(s.last())
    }
}

/// `s` without its leading dots.
pub open spec fn without_leading_dots(s: Seq<char>) -> Seq<char>
    decreases s.len(),
{
    if s.len() > 0 && s[0] == '.' {
        without_leading_dots(s.skip(1))
    } else {
        s
    }
}

/// Name used when nothing of the requested name survives sanitizing.
pub open spec fn unnamed_profile() -> Seq<char> {
    "unnamed_profile"@
}

/// The file-system-safe form of a profile name: forbidden characters
/// removed, then leading dots removed; "unnamed_profile" if nothing is left.
pub open spec fn sanitized(name: Seq<char>) -> Seq<char> {
    let s = without_leading_dots(without_forbidden(name));
    if s.len() == 0 {
        unnamed_profile()
    } else {
        s
    }
}

/// Turns a user-supplied profile (or theme) name into a safe folder/file
/// name: drops `/ \ : * ? " < > |`, strips leading dots so the name can
/// neither climb out of its directory nor be hidden, and falls back to
/// "unnamed_profile" when nothing is left.
pub fn sanitize_profile_name(name: &str) -> (safe: String)
    ensures
        safe@ == sanitized(name@),
{
    let chars = chars_of(name);
    let mut kept: Vec<char> = Vec::new();
    let mut i: usize = 0;
    while i < chars.len()
        invariant
            chars@ == name@,
            i <= chars@.len(),
            kept@ == without_forbidden(name@.take(i as int)),
        decreases chars@.len() - i,
    {
        let c = chars[i];
        assert(name@.take(i + 1).drop_last() =~= name@.take(i as int));
        if !(c == '/' || c == '\\' || c == ':' || c == '*' || c == '?' || c == '"' || c == '<'
            || c == '>' || c == '|') {
            kept.push(c);
        }
        i = i + 1;
    }
    assert(name@.take(chars@.len() as int) =~= name@);
    let mut start: usize = 0;
    assert(kept@.skip(0) =~= kept@);
    while start < kept.len() && kept[start] == '.'
        invariant
            start <= kept@.len(),
            without_leading_dots(kept@) == without_leading_dots(kept@.skip(start as int)),
        decreases kept@.len() - start,
    {
        assert(kept@.skip(start as int).skip(1) =~= kept@.skip(start + 1));
        start = start + 1;
    }
    let mut rest: Vec<char> = Vec::new();
    let mut j: usize = start;
    while j < kept.len()
        invariant
            start <= j <= kept@.len(),
            rest@ == kept@.subrange(start as int, j as int),
        decreases kept@.len() - j,
    {
        rest.push(kept[j]);
        j = j + 1;
        assert(rest@ =~= kept@.subrange(start as int, j as int));
    }
    assert(rest@ =~= kept@.skip(start as int));
    if rest.len() == 0 {
        return "unnamed_profile".to_owned();
    }
    string_from_chars(rest.as_slice())
}

/// Sanitizing is idempotent, and a sanitized name never holds a forbidden
/// character nor starts with a dot.
pub proof fn lemma_sanitized_is_safe(name: Seq<char>)
    ensures
        forall|i: int| 0 <= i < sanitized(name).len() ==> !forbidden_in_name(#[trigger] sanitized(name)[i]),
        sanitized(name).len() > 0,
        sanitized(name)[0] != '.',
        sanitized(sanitized(name)) == sanitized(name),
{
    lemma_without_forbidden_clean(name);
    let k = without_forbidden(name);
    lemma_leading_dots_suffix(k);
    let s = without_leading_dots(k);
    reveal_strlit("unnamed_profile");
    if s.len() == 0 {
        let u = unnamed_profile();
        assert(u.len() == 15);
        assert(forall|i: int| 0 <= i < u.len() ==> !forbidden_in_name(#[trigger] u[i]));
        lemma_clean_fixed(u);
    } else {
        assert forall|i: int| 0 <= i < s.len() implies !forbidden_in_name(#[trigger] s[i]) by {
            assert(s[i] == k[k.len() - s.len() + i]);
        }
        lemma_clean_fixed(s);
    }
}

/// Sanitizing only removes what makes a name unsafe: a non-empty name with
/// none of `/ \ : * ? " < > |` that does not start with a dot is kept as is,
/// every other character (letters, digits, `-`, `_`, spaces, ...) included.
pub proof fn lemma_safe_name_unchanged(name: Seq<char>)
    requires
        name.len() > 0,
        name[0] != '.',
        forall|i: int|
            0 <= i < name.len() ==> {
                let c = #[trigger] name[i];
                c != '/' && c != '\\' && c != ':' && c != '*' && c != '?' && c != '"' && c != '<'
                    && c != '>' && c != '|'
            },
    ensures
        sanitized(name) == name,
{
    assert forall|i: int| 0 <= i < name.len() implies !forbidden_in_name(#[trigger] name[i]) by {
        let c = name[i];
        assert(c != '/' && c != '\\' && c != ':' && c != '*' && c != '?' && c != '"' && c != '<'
            && c != '>' && c != '|');
    }
    lemma_clean_fixed(name);
}

proof fn lemma_without_forbidden_clean(s: Seq<char>)
    ensures
        forall|i: int| 0 <= i < without_forbidden(s).len() ==> !forbidden_in_name(#[trigger] without_forbidden(s)[i]),
    decreases s.len(),
{
    if s.len() > 0 {
        lemma_without_forbidden_clean(s.drop_last());
        let rest = without_forbidden(s.drop_last());
        if !forbidden_in_name(s.last()) {
            assert forall|i: int| 0 <= i < rest.push(s.last()).len() implies !forbidden_in_name(
                #[trigger] rest.push(s.last())[i],
            ) by {
                if i < rest.len() {
                    assert(rest.push(s.last())[i] == rest[i]);
                }
            }
        }
    }
}

proof fn lemma_leading_dots_suffix(s: Seq<char>)
    ensures
        without_leading_dots(s).len() <= s.len(),
        without_leading_dots(s) == s.skip(s.len() - without_leading_dots(s).len()),
        without_leading_dots(s).len() > 0 ==> without_leading_dots(s)[0] != '.',
    decreases s.len(),
{
    if s.len() > 0 && s[0] == '.' {
        lemma_leading_dots_suffix(s.skip(1));
        let t = without_leading_dots(s.skip(1));
        assert(s.skip(1).skip(s.skip(1).len() - t.len()) =~= s.skip(s.len() - t.len()));
    } else {
        assert(s.skip(0) =~= s);
    }
}

proof fn lemma_keeps_clean(s: Seq<char>)
    requires
        forall|i: int| 0 <= i < s.len() ==> !forbidden_in_name(#[trigger] s[i]),
    ensures
        without_forbidden(s) == s,
    decreases s.len(),
{
    if s.len() > 0 {
        lemma_keeps_clean(s.drop_last());
        assert(s.drop_last().push(s.last()) =~= s);
    }
}

proof fn lemma_clean_fixed(s: Seq<char>)
    requires
        s.len() > 0,
        s[0] != '.',
        forall|i: int| 0 <= i < s.len() ==> !forbidden_in_name(#[trigger] s[i]),
    ensures
        sanitized(s) == s,
{
    lemma_keeps_clean(s);
}

/// UI theme choice.
#[derive(Clone, Debug, PartialEq, Eq)]
pub enum ThemePreference {
    /// Follow the operating system.
    System,
    Light,
    Dark,
    /// A user theme, by the name of its folder in the themes directory.
    Custom(String),
}

impl Default for ThemePreference {
    fn default() -> (t: Self)
        ensures
            t is System,
    {
        ThemePreference::System
    }
}

/// Whether `c` is a lowercase hexadecimal digit.
pub open spec fn is_lower_hex(c: char) -> bool {
    ('0' <= c && c <= '9') || ('a' <= c && c <= 'f')
}

/// Whether `s` is a random (version 4) UUID in lowercase hyphenated form:
/// 36 characters, hyphens at 8, 13, 18 and 23, lowercase hex digits
/// elsewhere, version digit `4` at 14 and variant digit 8, 9, a or b at 19.
pub open spec fn is_uuid_v4_text(s: Seq<char>) -> bool {
    &&& s.len() == 36
    &&& forall|i: int|
        0 <= i < 36 ==> if i == 8 || i == 13 || i == 18 || i == 23 {
            s[i] == '-'
        } else {
            is_lower_hex(#[trigger] s[i])
        }
    &&& s[14] == '4'
    &&& (s[19] == '8' || s[19] == '9' || s[19] == 'a' || s[19] == 'b')
}

/// A fresh random identifier: `uuid::Uuid::new_v4()` rendered by its
/// `Display` impl, which writes the lowercase hyphenated form; `new_v4`
/// forces the version nibble to 4 and the variant bits to `10`. Which
/// identifier comes out is left open.
#[verifier::external_body]
fn new_telemetry_id() -> (id: String)
    ensures
        is_uuid_v4_text(id@),
{
    uuid::Uuid::new_v4().to_string()
}

/// Telemetry is on unless the user turned it off.
pub fn default_telemetry_enabled() -> (on: bool)
    ensures
        on,
{
    true
}

/// A new anonymous telemetry identifier.
pub fn default_telemetry_id() -> (id: String)
    ensures
        is_uuid_v4_text(id@),
{
    new_telemetry_id()
}

/// Application-level preferences, not tied to a mapping profile.
#[derive(Clone, Debug)]
pub struct AppPreferences {
    /// The preferred UI theme.
    pub theme: ThemePreference,
    /// The preferred UI language.
    pub language: Locale,
    /// Whether anonymous telemetry is enabled.
    pub telemetry_enabled: bool,
    /// Anonymous distinct id for telemetry.
    pub telemetry_id: String,
}

impl Default for AppPreferences {
    fn default() -> (p: Self)
        ensures
            p.theme is System,
            p.language == Locale::English,
            p.telemetry_enabled,
            is_uuid_v4_text(p.telemetry_id@),
    {
        AppPreferences {
            theme: ThemePreference::System,
            language: Locale::English,
            telemetry_enabled: default_telemetry_enabled(),
            telemetry_id: default_telemetry_id(),
        }
    }
}

/// Whether `names` holds `name`.
pub open spec fn names_contain(names: Seq<String>, name: Seq<char>) -> bool {
    exists|i: int| 0 <= i < names.len() && #[trigger] names[i]@ == name
}

fn contains_name(names: &Vec<String>, name: &String) -> (found: bool)
    ensures
        found == names_contain(names@, name@),
{
    let mut i: usize = 0;
    while i < names.len()
        invariant
            i <= names@.len(),
            forall|j: int| 0 <= j < i ==> names@[j]@ != name@,
        decreases names@.len() - i,
    {
        if names[i] == *name {
            return true;
        }
        i = i + 1;
    }
    false
}

/// The preferences after checking the chosen theme against the themes on
/// disk: a custom theme that no longer exists reverts to `System`.
pub open spec fn theme_after_validation(theme: ThemePreference, available: Seq<String>) -> ThemePreference {
    match theme {
        ThemePreference::Custom(name) => if names_contain(available, name@) {
            theme
        } else {
            ThemePreference::System
        },
        _ => theme,
    }
}

/// Reverts a custom theme that is not among `available` (the theme folders
/// found on disk) to `System`; every other field is left as it was.
pub fn validate_theme(prefs: &mut AppPreferences, available: &Vec<String>)
    ensures
        final(prefs).theme == theme_after_validation(old(prefs).theme, available@),
        final(prefs).language == old(prefs).language,
        final(prefs).telemetry_enabled == old(prefs).telemetry_enabled,
        final(prefs).telemetry_id == old(prefs).telemetry_id,
{
    let missing = match &prefs.theme {
        ThemePreference::Custom(name) => !contains_name(available, name),
        _ => false,
    };
    if missing {
        prefs.theme = ThemePreference::System;
    }
}

/// Identity of the active profile, restored silently on the next start.
#[derive(Clone, Debug)]
pub struct SessionMeta {
    /// Display name of the active profile.
    pub profile_name: String,
    /// Path of the profile file on disk, if any.
    pub profile_path: Option<String>,
}

/// Whether a settings file stem names one of the driver's own files
/// rather than a profile.
pub open spec fn is_system_stem(stem: Seq<char>) -> bool {
    stem == "last_session"@ || stem == "session_meta"@ || stem == "app_preferences"@ || stem
        == "cache_releases"@
}

/// Migration rule (see [`should_migrate_profile`]).
pub open spec fn migrates(is_file: bool, extension: Option<&str>, stem: Option<&str>, dest_exists: bool) -> bool {
    &&& is_file
    &&& !dest_exists
    &&& extension matches Some(e) && e@ == "json"@
    &&& stem matches Some(s) && !is_system_stem(s@)
}

/// Whether an entry of the settings root is a legacy profile to move into
/// the profiles folder: a file with extension `json` whose stem is not one
/// of the driver's own files, and whose destination does not exist yet.
pub fn should_migrate_profile(
    is_file: bool,
    extension: Option<&str>,
    stem: Option<&str>,
    dest_exists: bool,
) -> (migrate: bool)
    ensures
        migrate == migrates(is_file, extension, stem, dest_exists),
{
    if !is_file || dest_exists {
        return false;
    }
    let is_json = match extension {
        Some(e) => same_text(e, "json"),
        None => false,
    };
    if !is_json {
        return false;
    }
    match stem {
        Some(s) => !(same_text(s, "last_session") || same_text(s, "session_meta") || same_text(
            s,
            "app_preferences",
        ) || same_text(s, "cache_releases")),
        None => false,
    }
}

/// Driver mode named by an OpenTabletDriver output-mode plugin path:
/// absolute when the path mentions `AbsoluteMode`, otherwise relative when
/// it mentions `RelativeMode`, otherwise none (the imported profile keeps
/// its default mode).
pub open spec fn otd_mode(path: Seq<char>) -> Option<DriverMode> {
    if has_substring(path, "AbsoluteMode"@) {
        Some(DriverMode::Absolute)
    } else if has_substring(path, "RelativeMode"@) {
        Some(DriverMode::Relative)
    } else {
        None
    }
}

/// Driver mode an OpenTabletDriver profile's output-mode path selects (see [`otd_mode`]).
pub fn otd_mode_from_path(path: &str) -> (mode: Option<DriverMode>)
    ensures
        mode == otd_mode(path@),
{
    let p = chars_of(path);
    let abs = chars_of("AbsoluteMode");
    if contains(p.as_slice(), abs.as_slice()) {
        return Some(DriverMode::Absolute);
    }
    let rel = chars_of("RelativeMode");
    if contains(p.as_slice(), rel.as_slice()) {
        return Some(DriverMode::Relative);
    }
    None
}

/// The output mode of an imported profile follows the words in its path:
/// any path mentioning `AbsoluteMode` is absolute, whatever else it says; a
/// path mentioning `RelativeMode` but not `AbsoluteMode` is relative; only a
/// path mentioning neither leaves the mode unset.
pub proof fn lemma_otd_mode_by_mention(path: Seq<char>)
    ensures
        (exists|i: int| 0 <= i && i + 12 <= path.len() && #[trigger] path.subrange(i, i + 12) == "AbsoluteMode"@)
            ==> otd_mode(path) == Some(DriverMode::Absolute),
        !(exists|i: int| 0 <= i && i + 12 <= path.len() && #[trigger] path.subrange(i, i + 12) == "AbsoluteMode"@)
            && (exists|i: int| 0 <= i && i + 12 <= path.len() && #[trigger] path.subrange(i, i + 12) == "RelativeMode"@)
            ==> otd_mode(path) == Some(DriverMode::Relative),
        !(exists|i: int| 0 <= i && i + 12 <= path.len() && #[trigger] path.subrange(i, i + 12) == "AbsoluteMode"@)
            && !(exists|i: int| 0 <= i && i + 12 <= path.len() && #[trigger] path.subrange(i, i + 12) == "RelativeMode"@)
            ==> otd_mode(path) is None,
{
    reveal_strlit("AbsoluteMode");
    reveal_strlit("RelativeMode");
    let abs = "AbsoluteMode"@;
    let rel = "RelativeMode"@;
    assert(abs.len() == 12 && rel.len() == 12);
    if exists|i: int| 0 <= i && i + 12 <= path.len() && #[trigger] path.subrange(i, i + 12) == abs {
        let i = choose|i: int| 0 <= i && i + 12 <= path.len() && #[trigger] path.subrange(i, i + 12) == abs;
        assert(path.subrange(i, i + abs.len()) == abs);
        assert(crate::text::has_substring(path, abs));
    } else {
        assert(!crate::text::has_substring(path, abs)) by {
            if crate::text::has_substring(path, abs) {
                let i = choose|i: int| 0 <= i && i + abs.len() <= path.len() && #[trigger] path.subrange(i, i + abs.len()) == abs;
                assert(path.subrange(i, i + 12) == abs);
            }
        }
        if exists|i: int| 0 <= i && i + 12 <= path.len() && #[trigger] path.subrange(i, i + 12) == rel {
            let i = choose|i: int| 0 <= i && i + 12 <= path.len() && #[trigger] path.subrange(i, i + 12) == rel;
            assert(path.subrange(i, i + rel.len()) == rel);
            assert(crate::text::has_substring(path, rel));
        } else {
            assert(!crate::text::has_substring(path, rel)) by {
                if crate::text::has_substring(path, rel) {
                    let i = choose|i: int| 0 <= i && i + rel.len() <= path.len() && #[trigger] path.subrange(i, i + rel.len()) == rel;
                    assert(path.subrange(i, i + 12) == rel);
                }
            }
        }
    }
}

} // verus!
