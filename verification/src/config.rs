//! Run configuration and the per-store dispatch table: which stores exist,
//! how a store identifier becomes a listing URL, and where a badge file goes.

use vstd::prelude::*;
use vstd::string::StringExecFns;
use crate::chrome::{
    chrome_fatal, chrome_users_of_html, extract_chrome_webstore_users, ExtractFatal,
};
use crate::mozilla::{extract_mozilla_addon_users, mozilla_rows_of, users_from_mozilla_rows_spec};

verus! {

/// Process-wide, read-only settings for one run.
pub struct RunConfig {
    /// Delay before each outbound request, in milliseconds.
    pub delay: u64,
    /// Directory the badge SVG files are written to.
    pub dest_path: String,
    /// Path of the entries file.
    pub badges_toml_path: String,
}

/// Builds the run configuration from optional overrides, applying the
/// defaults: a delay of 1000 ms, the current directory, `./badges.toml`.
pub fn resolve_config(delay: Option<u64>, dest_path: Option<String>, badges_toml_path: Option<
    String,
>) -> (c: RunConfig)
    ensures
        c.delay == (match delay {
            Some(d) => d,
            None => 1000u64,
        }),
        c.dest_path@ == (match dest_path {
            Some(s) => s@,
            None => "."@,
        }),
        c.badges_toml_path@ == (match badges_toml_path {
            Some(s) => s@,
            None => "./badges.toml"@,
        }),
{
    RunConfig {
        delay: match delay {
            Some(d) => d,
            None => 1000,
        },
        dest_path: match dest_path {
            Some(s) => s,
            None => ".".to_owned(),
        },
        badges_toml_path: match badges_toml_path {
            Some(s) => s,
            None => "./badges.toml".to_owned(),
        },
    }
}

/// One logical extension to track: optional identifiers, one per store.
/// An absent identifier means the store is skipped for this entry.
pub struct ExtensionEntry {
    pub chrome: Option<String>,
    pub mozilla: Option<String>,
}

/// The extension stores a count can be scraped from.
#[derive(Clone, Copy, PartialEq, Eq, Structural)]
pub enum StoreKind {
    Chrome,
    Mozilla,
}

/// The listing URL for an identifier at a store: the store's fixed URL
/// template with the identifier interpolated.
pub open spec fn store_url_spec(kind: StoreKind, id: Seq<char>) -> Seq<char> {
    match kind {
        StoreKind::Chrome => "https://chrome.google.com/webstore/detail/"@ + id,
        StoreKind::Mozilla => "https://addons.mozilla.org/en-US/firefox/addon/"@ + id + "/"@,
    }
}

/// Builds the listing URL for `id` at `kind`.
pub fn store_url(kind: StoreKind, id: &str) -> (u: String)
    ensures
        u@ == store_url_spec(kind, id@),
{
    match kind {
        StoreKind::Chrome => "https://chrome.google.com/webstore/detail/".to_owned().concat(id),
        StoreKind::Mozilla => {
            let u = "https://addons.mozilla.org/en-US/firefox/addon/".to_owned().concat(id).concat(
                "/",
            );
            u
        },
    }
}

/// The output path for an entry's badge: `<dest>/<name>.svg`.
pub fn svg_output_path(dest_path: &str, name: &str) -> (p: String)
    ensures
        p@ == dest_path@ + "/"@ + name@ + ".svg"@,
{
    let p = dest_path.to_owned().concat("/").concat(name).concat(".svg");
    proof {
        assert(p@ =~= dest_path@ + "/"@ + name@ + ".svg"@);
    }
    p
}

/// What extraction yields at a store for a fetched page. Only the Chrome
/// extractor has a fatal case.
pub open spec fn store_users_spec(kind: StoreKind, page: Seq<char>) -> Result<
    Option<u32>,
    ExtractFatal,
> {
    match kind {
        StoreKind::Chrome => {
            if chrome_fatal(page) {
                Err(ExtractFatal::NoscriptMissing)
            } else {
                Ok(chrome_users_of_html(page))
            }
        },
        StoreKind::Mozilla => Ok(users_from_mozilla_rows_spec(mozilla_rows_of(page))),
    }
}

/// Extracts the user count from a fetched page with the extractor of `kind`.
pub fn extract_store_users(kind: StoreKind, page_contents: &str) -> (r: Result<
    Option<u32>,
    ExtractFatal,
>)
    ensures
        r == store_users_spec(kind, page_contents@),
{
    match kind {
        StoreKind::Chrome => extract_chrome_webstore_users(page_contents),
        StoreKind::Mozilla => Ok(extract_mozilla_addon_users(page_contents)),
    }
}

} // verus!
