use extobadges::chrome::{extract_chrome_webstore_users, users_from_chrome_spans, ExtractFatal};
use extobadges::config::{extract_store_users, StoreKind};
use extobadges::mozilla::{extract_mozilla_addon_users, users_from_mozilla_rows};

#[test]
fn chrome_count_inside_noscript() {
    let page = "<html><body>\
        <noscript><span title=\"42 users\">42 users</span></noscript>\
        </body></html>";
    assert_eq!(extract_chrome_webstore_users(page), Ok(Some(42)));
}

#[test]
fn chrome_missing_noscript_is_fatal() {
    let page = "<html><body><span title=\"42 users\">42 users</span></body></html>";
    assert_eq!(
        extract_chrome_webstore_users(page),
        Err(ExtractFatal::NoscriptMissing)
    );
    let only_open = "<noscript><span title=\"42 users\">42 users</span>";
    assert_eq!(
        extract_chrome_webstore_users(only_open),
        Err(ExtractFatal::NoscriptMissing)
    );
}

#[test]
fn chrome_count_split_by_nonbreaking_space() {
    let page = "<noscript><span title=\"42\u{a0}users\">42\u{a0}users</span></noscript>";
    assert_eq!(extract_chrome_webstore_users(page), Ok(Some(42)));
}

#[test]
fn chrome_title_must_equal_text() {
    let page = "<noscript><span title=\"42 users\">42 users today</span></noscript>";
    assert_eq!(extract_chrome_webstore_users(page), Ok(None));
}

#[test]
fn chrome_skips_spans_with_other_token_counts() {
    let page = "<noscript>\
        <span title=\"too many tokens here\">too many tokens here</span>\
        <span title=\"901 users\">901 users</span>\
        </noscript>";
    assert_eq!(extract_chrome_webstore_users(page), Ok(Some(901)));
}

#[test]
fn chrome_unparsable_first_token_yields_no_count() {
    let page = "<noscript><span title=\"many users\">many users</span></noscript>";
    assert_eq!(extract_chrome_webstore_users(page), Ok(None));
}

#[test]
fn chrome_ignores_spans_outside_the_noscript_region() {
    let page = "<span title=\"7 users\">7 users</span>\
        <noscript><p>enable scripts</p></noscript>\
        <span title=\"9 users\">9 users</span>";
    assert_eq!(extract_chrome_webstore_users(page), Ok(None));
}

#[test]
fn chrome_span_scan_takes_first_deciding_span() {
    let spans = vec![
        (None, "3 users".to_string()),
        (Some("x users".to_string()), "other".to_string()),
        (Some("88 users".to_string()), "88 users".to_string()),
        (Some("99 users".to_string()), "99 users".to_string()),
    ];
    assert_eq!(users_from_chrome_spans(&spans), Some(88));
    assert_eq!(users_from_chrome_spans(&Vec::new()), None);
}

#[test]
fn mozilla_count_in_metadata_card() {
    let page = "<html><body><dl class=\"MetadataCard-list\">\
        <dt class=\"MetadataCard-title\">Users</dt><dd>123</dd>\
        </dl></body></html>";
    assert_eq!(extract_mozilla_addon_users(page), Some(123));
}

#[test]
fn mozilla_label_whitespace_is_tolerated() {
    let page = "<dl class=\"MetadataCard-list\">\
        <dt class=\"MetadataCard-title\">\n  Users  </dt><dd>55</dd>\
        </dl>";
    assert_eq!(extract_mozilla_addon_users(page), Some(55));
}

#[test]
fn mozilla_label_nonbreaking_space_is_tolerated() {
    let page = "<dl class=\"MetadataCard-list\">\
        <dt class=\"MetadataCard-title\">\u{a0}Users\u{a0}</dt><dd>9</dd>\
        </dl>";
    assert_eq!(extract_mozilla_addon_users(page), Some(9));
}

#[test]
fn mozilla_users_label_without_value_cell_is_no_count() {
    let page = "<dl class=\"MetadataCard-list\">\
        <dt class=\"MetadataCard-title\">Users</dt>\
        </dl>";
    assert_eq!(extract_mozilla_addon_users(page), None);
}

#[test]
fn mozilla_unparsable_value_is_no_count() {
    let page = "<dl class=\"MetadataCard-list\">\
        <dt class=\"MetadataCard-title\">Users</dt><dd>1,234</dd>\
        </dl>";
    assert_eq!(extract_mozilla_addon_users(page), None);
}

#[test]
fn mozilla_without_label_is_no_count() {
    let page = "<dl class=\"MetadataCard-list\">\
        <dt class=\"MetadataCard-title\">Reviews</dt><dd>9</dd>\
        </dl>";
    assert_eq!(extract_mozilla_addon_users(page), None);
    assert_eq!(extract_mozilla_addon_users("<p>nothing here</p>"), None);
}

#[test]
fn mozilla_list_must_be_a_metadata_card() {
    let page = "<dl class=\"OtherCard-list\">\
        <dt class=\"MetadataCard-title\">Users</dt><dd>9</dd>\
        </dl>";
    assert_eq!(extract_mozilla_addon_users(page), None);
}

#[test]
fn mozilla_row_scan_takes_first_dd_sibling() {
    let rows = vec![
        (
            " Users ".to_string(),
            vec![
                (None, "text".to_string()),
                (Some("dt".to_string()), "Users".to_string()),
                (Some("dd".to_string()), "77".to_string()),
                (Some("dd".to_string()), "88".to_string()),
            ],
        ),
    ];
    assert_eq!(users_from_mozilla_rows(&rows), Some(77));
    assert_eq!(users_from_mozilla_rows(&Vec::new()), None);
}

#[test]
fn store_dispatch_uses_the_matching_extractor() {
    let chrome_page = "<noscript><span title=\"5 users\">5 users</span></noscript>";
    assert_eq!(
        extract_store_users(StoreKind::Chrome, chrome_page),
        Ok(Some(5))
    );
    let mozilla_page = "<dl class=\"MetadataCard-list\">\
        <dt class=\"MetadataCard-title\">Users</dt><dd>6</dd></dl>";
    assert_eq!(
        extract_store_users(StoreKind::Mozilla, mozilla_page),
        Ok(Some(6))
    );
}
