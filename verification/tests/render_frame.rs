use fuzzy_history::frame::extra_rows;
use fuzzy_history::frame::Frame;
use fuzzy_history::render::display_widths;
use fuzzy_history::render::format_item_line;
use fuzzy_history::render::format_prompt_line;
use fuzzy_history::render::highlight_mask_for;
use fuzzy_history::render::Theme;

fn rf_chars(s: &str) -> Vec<char> {
    s.chars().collect()
}

fn rf_text(v: &Vec<char>) -> String {
    v.iter().collect()
}

#[test]
fn prompt_line_places_the_cursor_marker() {
    let line = format_prompt_line(&rf_chars("run:"), &rf_chars("abc"), 1);
    assert_eq!(rf_text(&line), "run: a|bc");
    let line = format_prompt_line(&rf_chars(""), &rf_chars("abc"), 3);
    assert_eq!(rf_text(&line), "abc|");
    let line = format_prompt_line(&rf_chars(""), &rf_chars(""), 0);
    assert_eq!(rf_text(&line), "|");
}

#[test]
fn item_lines_carry_the_selection_marker() {
    assert_eq!(rf_text(&format_item_line(&rf_chars("ls -la"), true)), "> ls -la");
    assert_eq!(rf_text(&format_item_line(&rf_chars("ls -la"), false)), "  ls -la");
}

#[test]
fn theme_decides_highlighting() {
    assert!(Theme::Colorful.wants_highlight());
    assert!(!Theme::Simple.wants_highlight());
}

#[test]
fn highlight_marks_matched_characters() {
    let mask = highlight_mask_for(&rf_chars("abc"), &rf_chars("b"));
    assert_eq!(mask, vec![false, true, false]);
}

#[test]
fn highlight_is_empty_without_a_match() {
    let mask = highlight_mask_for(&rf_chars("abc"), &rf_chars("zz"));
    assert_eq!(mask, vec![false, false, false]);
    let mask = highlight_mask_for(&rf_chars("abc"), &rf_chars(""));
    assert_eq!(mask, vec![false, false, false]);
}

#[test]
fn widths_measure_displayed_text() {
    let widths = display_widths(&vec![rf_chars("ab"), rf_chars(""), rf_chars("hello")]);
    assert_eq!(widths, vec![2, 0, 5]);
}

#[test]
fn wide_items_add_wrapped_rows() {
    assert_eq!(extra_rows(&vec![5], 10), 0);
    assert_eq!(extra_rows(&vec![10], 10), 0);
    assert_eq!(extra_rows(&vec![15], 10), 1);
    assert_eq!(extra_rows(&vec![25], 10), 2);
    assert_eq!(extra_rows(&vec![15, 5, 25], 10), 3);
    assert_eq!(extra_rows(&Vec::new(), 10), 0);
}

#[test]
fn frame_accounts_for_prompt_and_body() {
    let mut f = Frame::new();
    f.record_prompt(0);
    assert_eq!(f.prompt_height, 1);
    assert_eq!(f.height, 0);
    f.record_line(0);
    f.record_line(1);
    assert_eq!(f.height, 3);
    let cleared = f.clear_rows();
    assert_eq!(cleared, 4);
    assert_eq!(f.height, 0);
    assert_eq!(f.prompt_height, 0);
}

#[test]
fn clear_preserve_prompt_counts_wrapped_rows() {
    let mut f = Frame::new();
    f.record_prompt(0);
    f.record_line(0);
    f.record_line(0);
    let cleared = f.clear_preserve_prompt_rows(&vec![15, 3], 10);
    assert_eq!(cleared, 3);
    assert_eq!(f.height, 0);
    assert_eq!(f.prompt_height, 1);
}

#[test]
fn record_str_counts_only_line_breaks() {
    let mut f = Frame::new();
    f.record_str(2);
    assert_eq!(f.height, 2);
    f.add_line();
    assert_eq!(f.height, 3);
}
