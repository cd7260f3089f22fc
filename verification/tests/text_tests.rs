use hcm::backend::tmux::parse_session_list;
use hcm::text::{split_whitespace, trim_str, u64_to_string};

fn created(field: &str) -> Option<u64> {
    let out = format!("$0|s|{}|/\n", field);
    parse_session_list(&out).first().map(|s| s.created_at)
}

#[test]
fn decimal_of_numbers() {
    assert_eq!(u64_to_string(0), "0");
    assert_eq!(u64_to_string(1725029869), "1725029869");
    assert_eq!(u64_to_string(u64::MAX), "18446744073709551615");
    for n in [0u64, 9, 10, 99, 100, 4096, u64::MAX - 1, u64::MAX] {
        assert_eq!(created(&u64_to_string(n)), Some(n));
    }
}

#[test]
fn parse_numbers() {
    assert_eq!(created("1725029869"), Some(1725029869));
    assert_eq!(created("+7"), Some(7));
    assert_eq!(created("+"), None);
    assert_eq!(created(""), None);
    assert_eq!(created("-1"), None);
    assert_eq!(created("18446744073709551616"), None);
    assert_eq!(created("18446744073709551615"), Some(u64::MAX));
    assert_eq!(created("12a"), None);
}

#[test]
fn words_and_trim() {
    assert_eq!(
        split_whitespace("  vim   --clean \t"),
        vec!["vim".to_string(), "--clean".to_string()]
    );
    assert_eq!(trim_str("  /home/a/repo\n"), "/home/a/repo");
}
