use extobadges::config::{resolve_config, store_url, svg_output_path, StoreKind};
use extobadges::text::{
    find_first, find_last, parse_u32_chars, split_ws_tokens, str_eq, trimmed_eq, u64_to_dec_string,
};

fn chars(s: &str) -> Vec<char> {
    s.chars().collect()
}

#[test]
fn splits_count_text_into_two_tokens() {
    let toks = split_ws_tokens("3021 users");
    assert_eq!(toks, vec![chars("3021"), chars("users")]);
}

#[test]
fn splitting_collapses_whitespace_runs() {
    let toks = split_ws_tokens("  a \t\n bb  c ");
    assert_eq!(toks, vec![chars("a"), chars("bb"), chars("c")]);
    assert_eq!(split_ws_tokens("   "), Vec::<Vec<char>>::new());
    assert_eq!(split_ws_tokens(""), Vec::<Vec<char>>::new());
}

#[test]
fn splitting_follows_unicode_whitespace() {
    let toks = split_ws_tokens("42\u{a0}users");
    assert_eq!(toks, vec![chars("42"), chars("users")]);
    let toks = split_ws_tokens("7\u{2009}users\u{3000}");
    assert_eq!(toks, vec![chars("7"), chars("users")]);
}

#[test]
fn parses_plain_counts() {
    assert_eq!(parse_u32_chars(&chars("42")), Some(42));
    assert_eq!(parse_u32_chars(&chars("0")), Some(0));
    assert_eq!(parse_u32_chars(&chars("+42")), Some(42));
    assert_eq!(parse_u32_chars(&chars("4294967295")), Some(u32::MAX));
}

#[test]
fn rejects_malformed_counts() {
    assert_eq!(parse_u32_chars(&chars("")), None);
    assert_eq!(parse_u32_chars(&chars("+")), None);
    assert_eq!(parse_u32_chars(&chars("-1")), None);
    assert_eq!(parse_u32_chars(&chars("12a")), None);
    assert_eq!(parse_u32_chars(&chars("1,234")), None);
    assert_eq!(parse_u32_chars(&chars("4294967296")), None);
    assert_eq!(parse_u32_chars(&chars("99999999999999999999")), None);
}

#[test]
fn renders_decimals() {
    assert_eq!(u64_to_dec_string(0), "0");
    assert_eq!(u64_to_dec_string(7), "7");
    assert_eq!(u64_to_dec_string(12345), "12345");
    assert_eq!(u64_to_dec_string(u64::MAX), "18446744073709551615");
}

#[test]
fn trims_before_comparing() {
    assert!(trimmed_eq("Users", "Users"));
    assert!(trimmed_eq("  Users \n", "Users"));
    assert!(!trimmed_eq("Use rs", "Users"));
    assert!(!trimmed_eq("users", "Users"));
    assert!(!trimmed_eq("", "Users"));
    assert!(trimmed_eq("\u{a0}Users\u{2009}", "Users"));
}

#[test]
fn string_equality_is_exact() {
    assert!(str_eq("dd", "dd"));
    assert!(!str_eq("dd", "dt"));
    assert!(!str_eq("dd", "ddd"));
    assert!(str_eq("", ""));
}

#[test]
fn finds_first_and_last_occurrences() {
    assert_eq!(find_first("abcabc", "bc"), Some(1));
    assert_eq!(find_last("abcabc", "bc"), Some(4));
    assert_eq!(find_first("abcabc", "zz"), None);
    assert_eq!(find_last("abcabc", "zz"), None);
    assert_eq!(find_first("<noscript>x</noscript>", "<noscript>"), Some(0));
    assert_eq!(find_last("<noscript>x</noscript>", "</noscript>"), Some(11));
}

#[test]
fn config_defaults_apply() {
    let c = resolve_config(None, None, None);
    assert_eq!(c.delay, 1000);
    assert_eq!(c.dest_path, ".");
    assert_eq!(c.badges_toml_path, "./badges.toml");
    let c = resolve_config(Some(250), Some("out".to_string()), Some("b.toml".to_string()));
    assert_eq!(c.delay, 250);
    assert_eq!(c.dest_path, "out");
    assert_eq!(c.badges_toml_path, "b.toml");
}

#[test]
fn store_urls_interpolate_the_identifier() {
    assert_eq!(
        store_url(StoreKind::Chrome, "abc123"),
        "https://chrome.google.com/webstore/detail/abc123"
    );
    assert_eq!(
        store_url(StoreKind::Mozilla, "my-addon"),
        "https://addons.mozilla.org/en-US/firefox/addon/my-addon/"
    );
}

#[test]
fn svg_paths_join_dest_and_name() {
    assert_eq!(svg_output_path(".", "foo"), "./foo.svg");
    assert_eq!(svg_output_path("/tmp/badges", "bar"), "/tmp/badges/bar.svg");
}
