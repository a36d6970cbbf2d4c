use fuzzy_history::keys::decode_key;
use fuzzy_history::keys::is_control;
use fuzzy_history::keys::KeyEvent;

fn dec(bytes: &[u8]) -> Option<(KeyEvent, usize)> {
    decode_key(&bytes.to_vec())
}

#[test]
fn arrow_sequences_decode() {
    assert_eq!(dec(&[0x1b, b'[', b'A']), Some((KeyEvent::ArrowUp, 3)));
    assert_eq!(dec(&[0x1b, b'[', b'B']), Some((KeyEvent::ArrowDown, 3)));
    assert_eq!(dec(&[0x1b, b'[', b'C']), Some((KeyEvent::ArrowRight, 3)));
    assert_eq!(dec(&[0x1b, b'[', b'D']), Some((KeyEvent::ArrowLeft, 3)));
    assert_eq!(dec(&[0x1b, b'[', b'Z']), Some((KeyEvent::BackTab, 3)));
    assert_eq!(dec(&[0x1b, b'[', b'H']), Some((KeyEvent::Other, 3)));
}

#[test]
fn lone_escape_is_escape() {
    assert_eq!(dec(&[0x1b]), Some((KeyEvent::Escape, 1)));
    assert_eq!(dec(&[0x1b, b'x']), Some((KeyEvent::Escape, 1)));
}

#[test]
fn escape_bracket_awaits_its_final_byte() {
    assert_eq!(dec(&[0x1b, b'[']), None);
    assert_eq!(dec(&[]), None);
}

#[test]
fn control_bytes_map_to_structured_events() {
    assert_eq!(dec(&[b'\r']), Some((KeyEvent::Enter, 1)));
    assert_eq!(dec(&[b'\n']), Some((KeyEvent::Enter, 1)));
    assert_eq!(dec(&[b'\t']), Some((KeyEvent::Tab, 1)));
    assert_eq!(dec(&[0x7f]), Some((KeyEvent::Backspace, 1)));
    assert_eq!(dec(&[0x08]), Some((KeyEvent::Backspace, 1)));
    assert_eq!(dec(&[0x01]), Some((KeyEvent::Other, 1)));
}

#[test]
fn printable_ascii_decodes_to_char() {
    assert_eq!(dec(&[b'a']), Some((KeyEvent::Char('a'), 1)));
    assert_eq!(dec(&[b' ']), Some((KeyEvent::Char(' '), 1)));
    assert_eq!(dec(&[b'~']), Some((KeyEvent::Char('~'), 1)));
}

#[test]
fn multi_byte_characters_decode() {
    assert_eq!(dec("\u{e9}".as_bytes()), Some((KeyEvent::Char('\u{e9}'), 2)));
    assert_eq!(dec("\u{20ac}".as_bytes()), Some((KeyEvent::Char('\u{20ac}'), 3)));
    assert_eq!(dec("\u{1f600}".as_bytes()), Some((KeyEvent::Char('\u{1f600}'), 4)));
}

#[test]
fn partial_multi_byte_awaits_the_rest() {
    assert_eq!(dec(&[0xc3]), None);
    assert_eq!(dec(&[0xe2, 0x82]), None);
    assert_eq!(dec(&[0xf0, 0x9f, 0x98]), None);
}

#[test]
fn malformed_encodings_consume_one_byte_as_other() {
    assert_eq!(dec(&[0xc3, 0x20]), Some((KeyEvent::Other, 1)));
    assert_eq!(dec(&[0x80]), Some((KeyEvent::Other, 1)));
    assert_eq!(dec(&[0xf8, 0x80, 0x80, 0x80]), Some((KeyEvent::Other, 1)));
    assert_eq!(dec(&[0xc0, 0x80]), Some((KeyEvent::Other, 1)));
    assert_eq!(dec(&[0xed, 0xa0, 0x80]), Some((KeyEvent::Other, 1)));
}

#[test]
fn control_predicate_matches_ascii_control_range() {
    assert!(is_control('\u{0}'));
    assert!(is_control('\u{1f}'));
    assert!(is_control('\u{7f}'));
    assert!(!is_control(' '));
    assert!(!is_control('a'));
    assert!(!is_control('\u{e9}'));
}
