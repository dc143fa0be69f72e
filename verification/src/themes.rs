//! Community theme store: which repository entries are themes, and where
//! a theme's `theme.json` is downloaded from.

use vstd::prelude::*;
use vstd::string::StringExecFns;
use crate::text::{chars_of, replaced, replace_all, same_text, string_from_chars};

verus! {

/// Base of the raw-file URLs of the theme repository's main branch.
pub open spec fn raw_theme_base() -> Seq<char> {
    "https://raw.githubusercontent.com/Next-Tablet-Driver/NextTabletDriver-Themes/refs/heads/main/"@
}

/// Whether a repository listing entry is an installable theme: a directory
/// other than the example theme and the `.github` folder.
pub open spec fn store_entry(kind: Seq<char>, name: Seq<char>) -> bool {
    kind == "dir"@ && name != "00 EXAMPLE"@ && name != ".github"@
}

/// Whether a repository listing entry (its `type` and `name`) is a theme
/// offered in the store.
pub fn is_store_theme_entry(kind: &str, name: &str) -> (offered: bool)
    ensures
        offered == store_entry(kind@, name@),
{
    same_text(kind, "dir") && !same_text(name, "00 EXAMPLE") && !same_text(name, ".github")
}

/// A theme folder name with each space written as `%20` for use in a URL.
pub fn url_encoded_name(name: &str) -> (encoded: String)
    ensures
        encoded@ == replaced(name@, " "@, "%20"@),
{
    let s = chars_of(name);
    let space = chars_of(" ");
    let escape = chars_of("%20");
    let out = replace_all(s.as_slice(), space.as_slice(), escape.as_slice());
    string_from_chars(out.as_slice())
}

/// URL of a theme's `theme.json` in the repository.
pub fn theme_json_url(name: &str) -> (url: String)
    ensures
        url@ == raw_theme_base() + replaced(name@, " "@, "%20"@) + "/theme.json"@,
{
    let encoded = url_encoded_name(name);
    let mut url = String::from_str(
        "https://raw.githubusercontent.com/Next-Tablet-Driver/NextTabletDriver-Themes/refs/heads/main/",
    );
    url.append(encoded.as_str());
    url.append("/theme.json");
    url
}

/// A repository listing element: its `type` and `name` fields, each when it is a string.
pub type ListingItem = (Option<String>, Option<String>);

/// Character view of a listing element.
pub open spec fn item_view(item: ListingItem) -> (Option<Seq<char>>, Option<Seq<char>>) {
    (
        match item.0 {
            Some(k) => Some(k@),
            None => None,
        },
        match item.1 {
            Some(n) => Some(n@),
            None => None,
        },
    )
}

/// What `serde_json` reads from a repository listing text: `None` when it
/// is not JSON, `Some(None)` when it is JSON but not an array, and
/// otherwise the `type` and `name` string fields of each array element.
pub uninterp spec fn json_listing(text: Seq<char>) -> Option<Option<Seq<(Option<Seq<char>>, Option<Seq<char>>)>>>;

/// Parses a repository listing with `serde_json` (see [`json_listing`]).
#[verifier::external_body]
fn parse_listing(text: &str) -> (l: Option<Option<Vec<ListingItem>>>)
    ensures
        match l {
            None => json_listing(text@) is None,
            Some(None) => json_listing(text@) == Some(None::<Seq<(Option<Seq<char>>, Option<Seq<char>>)>>),
            Some(Some(items)) => json_listing(text@) == Some(Some(items@.map_values(|i: ListingItem| item_view(i)))),
        },
{
    let Ok(value) = serde_json::from_str::<serde_json::Value>(text) else { return None };
    let Some(array) = value.as_array() else { return Some(None) };
    let mut items = Vec::new();
    for item in array {
        items.push((item["type"].as_str().map(str::to_owned), item["name"].as_str().map(str::to_owned)));
    }
    Some(Some(items))
}

/// Why a repository listing yields no themes.
#[derive(Clone, Copy, Debug, PartialEq, Eq, Structural)]
pub enum StoreError {
    /// The listing is not JSON.
    ParseFailed,
    /// The listing is JSON but not an array.
    InvalidResponse,
}

/// Names of the themes offered by listing elements, in listing order.
pub open spec fn offered_names(items: Seq<(Option<Seq<char>>, Option<Seq<char>>)>) -> Seq<Seq<char>>
    decreases items.len(),
{
    if items.len() == 0 {
        Seq::empty()
    } else {
        let rest = offered_names(items.drop_last());
        match items.last() {
            (Some(kind), Some(name)) => if store_entry(kind, name) {
                rest.push(name)
            } else {
                rest
            },
            _ => rest,
        }
    }
}

/// Names of the themes a repository listing offers (see [`is_store_theme_entry`]).
pub fn store_theme_names(listing: &str) -> (r: Result<Vec<String>, StoreError>)
    ensures
        json_listing(listing@) is None ==> r == Err::<Vec<String>, StoreError>(StoreError::ParseFailed),
        json_listing(listing@) == Some(None::<Seq<(Option<Seq<char>>, Option<Seq<char>>)>>) ==> r
            == Err::<Vec<String>, StoreError>(StoreError::InvalidResponse),
        json_listing(listing@) matches Some(Some(items)) ==> r matches Ok(names) && names@.map_values(
            |n: String| n@,
        ) == offered_names(items),
{
    let items = match parse_listing(listing) {
        None => return Err(StoreError::ParseFailed),
        Some(None) => return Err(StoreError::InvalidResponse),
        Some(Some(items)) => items,
    };
    let ghost view = items@.map_values(|i: ListingItem| item_view(i));
    let mut names: Vec<String> = Vec::new();
    let mut i: usize = 0;
    while i < items.len()
        invariant
            i <= items@.len(),
            view == items@.map_values(|i: ListingItem| item_view(i)),
            names@.map_values(|n: String| n@) == offered_names(view.take(i as int)),
        decreases items@.len() - i,
    {
        assert(view.take(i + 1).drop_last() =~= view.take(i as int));
        assert(view.take(i + 1).last() == item_view(items@[i as int]));
        let (kind, name) = &items[i];
        match (kind, name) {
            (Some(k), Some(n)) => {
                if is_store_theme_entry(k.as_str(), n.as_str()) {
                    let ghost before = names@;
                    names.push(n.clone());
                    assert(names@.map_values(|n: String| n@) =~= before.map_values(|n: String| n@).push(n@));
                }
            },
            _ => {},
        }
        i = i + 1;
    }
    assert(view.take(items@.len() as int) =~= view);
    Ok(names)
}

/// Descriptive fields of a theme, the `metadata` object of its `theme.json`.
#[derive(Clone, Debug, PartialEq, Eq)]
pub struct ThemeMetadata {
    pub name: String,
    pub author: String,
    pub version: String,
    pub update_url: Option<String>,
}

/// A theme offered in the store: its metadata and whether it is dark.
#[derive(Clone, Debug, PartialEq, Eq)]
pub struct ThemeStoreItem {
    pub metadata: ThemeMetadata,
    pub dark_mode: bool,
}

/// The metadata shown for a store theme whose `theme.json` does not parse:
/// the folder name, an unknown author, version 1.0 and no update URL.
pub open spec fn is_fallback_metadata(m: ThemeMetadata, folder: Seq<char>) -> bool {
    &&& m.name@ == folder
    &&& m.author@ == "Unknown"@
    &&& m.version@ == "1.0"@
    &&& m.update_url is None
}

/// The store entry of the theme in folder `name`, from its parsed
/// `theme.json` (metadata and dark-mode flag) when it parsed. A theme whose
/// file did not parse is still offered, dark, under its folder name.
pub fn store_item(name: &str, parsed: Option<(ThemeMetadata, bool)>) -> (item: ThemeStoreItem)
    ensures
        parsed matches Some((m, d)) ==> item.metadata == m && item.dark_mode == d,
        parsed is None ==> is_fallback_metadata(item.metadata, name@) && item.dark_mode,
{
    match parsed {
        Some((metadata, dark_mode)) => ThemeStoreItem { metadata, dark_mode },
        None => ThemeStoreItem {
            metadata: ThemeMetadata {
                name: name.to_owned(),
                author: String::from_str("Unknown"),
                version: String::from_str("1.0"),
                update_url: None,
            },
            dark_mode: true,
        },
    }
}

} // verus!
