use extobadges::aggregate::{generate_users_badge, BuildError, FetchError};
use extobadges::badge::render_users_badge;
use extobadges::config::ExtensionEntry;

const CHROME_42: &str = "<html><body>\
    <noscript><span title=\"42 users\">42 users</span></noscript>\
    </body></html>";

const MOZILLA_123: &str = "<html><body><dl class=\"MetadataCard-list\">\
    <dt class=\"MetadataCard-title\">Users</dt><dd>123</dd>\
    </dl></body></html>";

fn fetched(page: &str) -> Option<Result<String, FetchError>> {
    Some(Ok(page.to_string()))
}

fn failed_fetch() -> Option<Result<String, FetchError>> {
    Some(Err(FetchError {
        message: "connection refused".to_string(),
    }))
}

#[test]
fn badge_sums_both_configured_stores() {
    let entry = ExtensionEntry {
        chrome: Some("abc123".to_string()),
        mozilla: Some("my-addon".to_string()),
    };
    let svg = generate_users_badge(&entry, fetched(CHROME_42), fetched(MOZILLA_123)).unwrap();
    assert_eq!(svg, render_users_badge(165).unwrap());
    assert!(svg.contains("165"));
    assert!(svg.contains("users"));
    assert!(svg.contains("<svg"));
}

#[test]
fn badge_omits_unconfigured_store() {
    let entry = ExtensionEntry {
        chrome: None,
        mozilla: Some("my-addon".to_string()),
    };
    let svg = generate_users_badge(&entry, None, fetched(MOZILLA_123)).unwrap();
    assert_eq!(svg, render_users_badge(123).unwrap());
}

#[test]
fn badge_counts_missing_extraction_as_zero() {
    let entry = ExtensionEntry {
        chrome: Some("abc123".to_string()),
        mozilla: Some("my-addon".to_string()),
    };
    let no_count_page = "<noscript><p>no spans here</p></noscript>";
    let svg = generate_users_badge(&entry, fetched(no_count_page), fetched(MOZILLA_123)).unwrap();
    assert_eq!(svg, render_users_badge(123).unwrap());
}

#[test]
fn single_store_entry_yields_that_count() {
    let entry = ExtensionEntry {
        chrome: Some("abc123".to_string()),
        mozilla: None,
    };
    let svg = generate_users_badge(&entry, fetched(CHROME_42), None).unwrap();
    assert_eq!(svg, render_users_badge(42).unwrap());
    assert!(svg.contains("42"));
}

#[test]
fn entry_with_no_stores_yields_zero_badge() {
    let entry = ExtensionEntry {
        chrome: None,
        mozilla: None,
    };
    let svg = generate_users_badge(&entry, None, None).unwrap();
    assert_eq!(svg, render_users_badge(0).unwrap());
    assert!(svg.contains(">0<"));
}

#[test]
fn fetch_failure_fails_the_entry() {
    let entry = ExtensionEntry {
        chrome: Some("abc123".to_string()),
        mozilla: None,
    };
    let r = generate_users_badge(&entry, failed_fetch(), None);
    assert!(matches!(r, Err(BuildError::Fetch(_))));
}

#[test]
fn missing_noscript_markup_is_the_fatal_error() {
    let entry = ExtensionEntry {
        chrome: Some("abc123".to_string()),
        mozilla: None,
    };
    let r = generate_users_badge(&entry, fetched("<html><body>nothing</body></html>"), None);
    assert!(matches!(r, Err(BuildError::MissingNoscript)));
}

#[test]
fn batch_continues_past_a_failing_entry() {
    let failing = ExtensionEntry {
        chrome: Some("broken".to_string()),
        mozilla: None,
    };
    let succeeding = ExtensionEntry {
        chrome: Some("abc123".to_string()),
        mozilla: None,
    };
    let mut written: Vec<(String, String)> = Vec::new();
    for (name, entry, page) in [
        ("bad", &failing, failed_fetch()),
        ("good", &succeeding, fetched(CHROME_42)),
    ] {
        match generate_users_badge(entry, page, None) {
            Ok(svg) => written.push((name.to_string(), svg)),
            Err(e) => assert!(matches!(e, BuildError::Fetch(_))),
        }
    }
    assert_eq!(written.len(), 1);
    assert_eq!(written[0].0, "good");
    assert_eq!(written[0].1, render_users_badge(42).unwrap());
}
