//! Per-entry aggregation: combine the fetched store pages of one extension
//! entry into a badge, summing the per-store counts.
//!
//! Fetching is outside work; the caller hands each configured store's fetch
//! outcome in. A store whose identifier is absent contributes nothing; a
//! fetched page without a count contributes zero; a failed fetch fails the
//! entry; the Chrome extractor's missing-markup condition is the one fatal
//! error, distinguished so a driver can abort the whole batch on it.

use vstd::prelude::*;
use crate::badge::{render_users_badge, users_badge_svg};
use crate::chrome::{chrome_fatal, chrome_users_of_html, extract_chrome_webstore_users};
use crate::config::ExtensionEntry;
use crate::mozilla::{extract_mozilla_addon_users, mozilla_rows_of, users_from_mozilla_rows_spec};
use crate::text::dec_str;

verus! {

/// A failed page fetch, with the transport's own message.
#[derive(Debug)]
pub struct FetchError {
    pub message: String,
}

/// Why one entry produced no badge. `Fetch` is the per-entry failure;
/// `MissingNoscript` is the fatal, batch-aborting condition; `Render` is the
/// reportable render-failure class, unreachable under the render contract
/// and fatal to a driver that sees it anyway.
#[derive(Debug)]
pub enum BuildError {
    Fetch(FetchError),
    MissingNoscript,
    Render,
}

/// The page text of a fetch outcome, when one was handed in and succeeded.
pub open spec fn page_ok(page: Option<Result<String, FetchError>>) -> Option<Seq<char>> {
    match page {
        Some(Ok(s)) => Some(s@),
        _ => None,
    }
}

/// A present page's text.
pub open spec fn page_seq(page: Option<Seq<char>>) -> Seq<char> {
    match page {
        Some(s) => s,
        None => Seq::empty(),
    }
}

/// The contribution of an extracted count: the count, or zero for none.
pub open spec fn count_or_zero(count: Option<u32>) -> int {
    match count {
        Some(n) => n as int,
        None => 0,
    }
}

/// The badge total: the sum over the configured stores of each store's
/// extracted count, a store with no identifier or no count contributing zero.
pub open spec fn spec_badge_total(
    chrome_on: bool,
    chrome_page: Option<Seq<char>>,
    mozilla_on: bool,
    mozilla_page: Option<Seq<char>>,
) -> int {
    (if chrome_on {
        count_or_zero(chrome_users_of_html(page_seq(chrome_page)))
    } else {
        0
    }) + (if mozilla_on {
        count_or_zero(users_from_mozilla_rows_spec(mozilla_rows_of(page_seq(mozilla_page))))
    } else {
        0
    })
}

/// Builds the badge for one entry from the fetched pages of its configured
/// stores. Store order is fixed: Chrome first, then Mozilla; the first
/// failure decides the error.
pub fn generate_users_badge(
    entry: &ExtensionEntry,
    chrome_page: Option<Result<String, FetchError>>,
    mozilla_page: Option<Result<String, FetchError>>,
) -> (r: Result<String, BuildError>)
    ensures
        ({
            let chrome_on = entry.chrome is Some;
            let mozilla_on = entry.mozilla is Some;
            let cpage = page_ok(chrome_page);
            let mpage = page_ok(mozilla_page);
            if chrome_on && cpage is None {
                &&& r matches Err(e) && e matches BuildError::Fetch(f) && (chrome_page matches Some(
                    Err(g),
                ) ==> f == g)
            } else if chrome_on && chrome_fatal(page_seq(cpage)) {
                r == Err::<String, BuildError>(BuildError::MissingNoscript)
            } else if mozilla_on && mpage is None {
                &&& r matches Err(e) && e matches BuildError::Fetch(f) && (mozilla_page matches Some(
                    Err(g),
                ) ==> f == g)
            } else {
                let total = spec_badge_total(chrome_on, cpage, mozilla_on, mpage);
                r matches Ok(svg) && svg@ == users_badge_svg(dec_str(total))
            }
        }),
{
    let mut total: u64 = 0;
    let ghost cpage = page_ok(chrome_page);
    let ghost mpage = page_ok(mozilla_page);
    if entry.chrome.is_some() {
        match chrome_page {
            None => {
                return Err(BuildError::Fetch(FetchError { message: String::new() }));
            },
            Some(Err(e)) => {
                return Err(BuildError::Fetch(e));
            },
            Some(Ok(page)) => {
                match extract_chrome_webstore_users(page.as_str()) {
                    Err(_) => {
                        return Err(BuildError::MissingNoscript);
                    },
                    Ok(count) => {
                        total = match count {
                            Some(n) => n as u64,
                            None => 0,
                        };
                    },
                }
            },
        }
    }
    if entry.mozilla.is_some() {
        match mozilla_page {
            None => {
                return Err(BuildError::Fetch(FetchError { message: String::new() }));
            },
            Some(Err(e)) => {
                return Err(BuildError::Fetch(e));
            },
            Some(Ok(page)) => {
                let count = extract_mozilla_addon_users(page.as_str());
                let add: u64 = match count {
                    Some(n) => n as u64,
                    None => 0,
                };
                total = total + add;
            },
        }
    }
    match render_users_badge(total) {
        Ok(svg) => Ok(svg),
        Err(_) => Err(BuildError::Render),
    }
}

/// Law: when both stores are configured and both pages are at hand, the badge
/// total is the sum of the two stores' extracted counts; a store whose
/// identifier is absent, or whose extraction finds no count, contributes
/// zero to the total.
pub proof fn lemma_badge_total_sums(
    chrome_on: bool,
    chrome_page: Option<Seq<char>>,
    mozilla_on: bool,
    mozilla_page: Option<Seq<char>>,
)
    ensures
        chrome_on && mozilla_on ==> spec_badge_total(chrome_on, chrome_page, mozilla_on, mozilla_page)
            == count_or_zero(chrome_users_of_html(page_seq(chrome_page))) + count_or_zero(
            users_from_mozilla_rows_spec(mozilla_rows_of(page_seq(mozilla_page))),
        ),
        !chrome_on ==> spec_badge_total(chrome_on, chrome_page, mozilla_on, mozilla_page)
            == spec_badge_total(false, None, mozilla_on, mozilla_page),
        !mozilla_on ==> spec_badge_total(chrome_on, chrome_page, mozilla_on, mozilla_page)
            == spec_badge_total(chrome_on, chrome_page, false, None),
        !chrome_on && !mozilla_on ==> spec_badge_total(
            chrome_on,
            chrome_page,
            mozilla_on,
            mozilla_page,
        ) == 0,
        chrome_on && chrome_users_of_html(page_seq(chrome_page)) is None ==> spec_badge_total(
            chrome_on,
            chrome_page,
            mozilla_on,
            mozilla_page,
        ) == spec_badge_total(false, None, mozilla_on, mozilla_page),
{
}

} // verus!
