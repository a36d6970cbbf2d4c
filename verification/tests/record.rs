use fuzzy_history::record::indexable_command;
use fuzzy_history::record::parse_record;

fn rc_chars(s: &str) -> Vec<char> {
    s.chars().collect()
}

#[test]
fn payloads_with_digits_and_colon_are_indexable() {
    assert!(indexable_command(&rc_chars("0:ls")));
    assert!(indexable_command(&rc_chars("127:echo hi")));
    assert!(indexable_command(&rc_chars("1:")));
    assert!(indexable_command(&rc_chars("2:a:b")));
}

#[test]
fn malformed_payloads_are_rejected() {
    assert!(!indexable_command(&rc_chars("")));
    assert!(!indexable_command(&rc_chars(":ls")));
    assert!(!indexable_command(&rc_chars("12")));
    assert!(!indexable_command(&rc_chars("abc")));
    assert!(!indexable_command(&rc_chars("a1:x")));
    assert!(!indexable_command(&rc_chars(" 1:x")));
}

#[test]
fn parse_splits_exit_code_and_command() {
    let p = parse_record(&rc_chars("12:echo hi")).unwrap();
    assert_eq!(p.exit_code, 12);
    let text: String = p.command.iter().collect();
    assert_eq!(text, "echo hi");
}

#[test]
fn parse_keeps_later_colons_in_the_command() {
    let p = parse_record(&rc_chars("0:a:b:c")).unwrap();
    assert_eq!(p.exit_code, 0);
    let text: String = p.command.iter().collect();
    assert_eq!(text, "a:b:c");
}

#[test]
fn parse_allows_an_empty_command() {
    let p = parse_record(&rc_chars("7:")).unwrap();
    assert_eq!(p.exit_code, 7);
    assert_eq!(p.command.len(), 0);
}

#[test]
fn parse_rejects_an_exit_code_that_overflows() {
    assert!(parse_record(&rc_chars("18446744073709551615:x")).is_some());
    assert!(parse_record(&rc_chars("18446744073709551616:x")).is_none());
    assert!(parse_record(&rc_chars("99999999999999999999999:x")).is_none());
}
