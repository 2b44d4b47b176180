use devflow::config::{parse_lookback_days, parse_repo_list, ConfigError, DEFAULT_LOOKBACK_DAYS};
use devflow::text::{decimal, hex4, parse_comma_list, parse_u32, text_eq};
use devflow::types::Config;

fn s(v: &str) -> Option<String> {
    Some(v.to_string())
}

#[test]
fn config_needs_a_token() {
    let r = Config::from_values(None, s("acme"), None, None);
    assert!(matches!(r, Err(ConfigError::TokenNotSet)));
    let r = Config::from_values(None, None, None, None);
    assert!(matches!(r, Err(ConfigError::TokenNotSet)));
}

#[test]
fn config_needs_an_owner() {
    let r = Config::from_values(s("ghp_x"), None, s("a,b"), s("14"));
    assert!(matches!(r, Err(ConfigError::OwnerNotSet)));
}

#[test]
fn config_with_defaults() {
    let c = Config::from_values(s("ghp_x"), s("acme"), None, None).unwrap();
    assert_eq!(c.token, "ghp_x");
    assert_eq!(c.owner, "acme");
    assert!(c.repos.is_empty());
    assert_eq!(c.lookback_days, 90);
    assert_eq!(DEFAULT_LOOKBACK_DAYS, 90);
}

#[test]
fn config_with_scoped_repos_and_window() {
    let c = Config::from_values(s("tok"), s("CreditGenie"), s(" api-service , ,frontend,, infra "), s("14"))
        .unwrap();
    assert_eq!(c.repos, vec!["api-service".to_string(), "frontend".to_string(), "infra".to_string()]);
    assert_eq!(c.lookback_days, 14);
}

#[test]
fn config_empty_repo_list_and_bad_window() {
    let c = Config::from_values(s("tok"), s("acme"), s(""), s("two weeks")).unwrap();
    assert!(c.repos.is_empty());
    assert_eq!(c.lookback_days, 90);
}

#[test]
fn lookback_parsing() {
    assert_eq!(parse_lookback_days(None), 90);
    assert_eq!(parse_lookback_days(Some("30")), 30);
    assert_eq!(parse_lookback_days(Some("+7")), 7);
    assert_eq!(parse_lookback_days(Some("0")), 0);
    assert_eq!(parse_lookback_days(Some("")), 90);
    assert_eq!(parse_lookback_days(Some(" 30")), 90);
    assert_eq!(parse_lookback_days(Some("-1")), 90);
    assert_eq!(parse_lookback_days(Some("4294967295")), 4294967295);
    assert_eq!(parse_lookback_days(Some("4294967296")), 90);
}

#[test]
fn repo_list_parsing() {
    assert!(parse_repo_list(None).is_empty());
    assert!(parse_repo_list(Some("")).is_empty());
    assert!(parse_repo_list(Some(" , ,")).is_empty());
    assert_eq!(parse_repo_list(Some("one")), vec!["one".to_string()]);
    assert_eq!(
        parse_repo_list(Some("\tone two ,three\n")),
        vec!["one two".to_string(), "three".to_string()]
    );
}

#[test]
fn comma_list_matches_split_trim_filter() {
    let input = "  a,b ,, c\u{3000},\u{a0}";
    let expected: Vec<String> = input
        .split(',')
        .map(|p| p.trim().to_string())
        .filter(|p| !p.is_empty())
        .collect();
    assert_eq!(parse_comma_list(input), expected);
    assert_eq!(expected, vec!["a".to_string(), "b".to_string(), "c".to_string()]);
}

#[test]
fn u32_parsing_matches_std() {
    for t in ["0", "7", "+7", "007", "4294967295", "4294967296", "", "+", "-3", "1 ", "12a", "99999999999999999999"] {
        assert_eq!(parse_u32(t), t.parse::<u32>().ok(), "input {:?}", t);
    }
}

#[test]
fn text_equality() {
    assert!(text_eq("main", "main"));
    assert!(!text_eq("main", "master"));
    assert!(!text_eq("main", "mai"));
    assert!(text_eq("", ""));
}

#[test]
fn decimal_and_hex_text() {
    assert_eq!(decimal(0), "0");
    assert_eq!(decimal(7), "7");
    assert_eq!(decimal(100), "100");
    assert_eq!(decimal(18446744073709551615), "18446744073709551615");
    assert_eq!(hex4(0), "0000");
    assert_eq!(hex4(10), "000a");
    assert_eq!(hex4(0xbeef), "beef");
    assert_eq!(hex4(65535), format!("{:04x}", 65535));
}
