use fuzzy_history::config::FuzzyHistorySelect;
use fuzzy_history::render::Theme;
use fuzzy_history::selector::SelectorState;
use fuzzy_history::selector::Step;
use fuzzy_history::keys::KeyEvent;

fn sel_chars(s: &str) -> Vec<char> {
    s.chars().collect()
}

fn sel_state(items: &[&str], height: usize) -> SelectorState {
    let mut st = SelectorState::new(Vec::new(), height);
    let list: Vec<Vec<char>> = items.iter().map(|s| sel_chars(s)).collect();
    st.seed_results(list, None);
    st
}

fn sel_invariant_holds(st: &SelectorState) -> bool {
    let len = st.candidates.len();
    match st.selected {
        Some(i) => {
            i < len && st.viewport_start <= i && i < st.viewport_start + st.viewport_height
        }
        None => st.viewport_start == 0,
    }
}

#[test]
fn arrow_down_twice_from_no_selection() {
    let mut st = sel_state(&["echo hi", "echo bye", "ls -la"], 5);
    assert_eq!(st.selected, None);
    st.apply_key(KeyEvent::ArrowDown, true);
    assert_eq!(st.selected, Some(0));
    st.apply_key(KeyEvent::ArrowDown, true);
    assert_eq!(st.selected, Some(1));
}

#[test]
fn enter_on_empty_list_changes_nothing() {
    let mut st = sel_state(&[], 5);
    let step = st.apply_key(KeyEvent::Enter, true);
    assert!(matches!(step, Step::Continue));
    assert_eq!(st.selected, None);
    assert_eq!(st.candidates.len(), 0);
    assert_eq!(st.viewport_start, 0);
}

#[test]
fn enter_confirms_exact_candidate_text() {
    let mut st = sel_state(&["echo hi", "echo bye", "ls -la"], 5);
    st.apply_key(KeyEvent::ArrowDown, true);
    st.apply_key(KeyEvent::ArrowDown, true);
    let step = st.apply_key(KeyEvent::Enter, true);
    match step {
        Step::Confirmed(text) => {
            let got: String = text.into_iter().collect();
            assert_eq!(got, "echo bye");
            assert_eq!(got.as_bytes(), "echo bye".as_bytes());
        }
        _ => panic!("expected a confirmation"),
    }
}

#[test]
fn down_from_last_wraps_to_zero() {
    let mut st = sel_state(&["a", "b", "c"], 5);
    for _ in 0..3 {
        st.apply_key(KeyEvent::ArrowDown, true);
        assert!(sel_invariant_holds(&st));
    }
    assert_eq!(st.selected, Some(2));
    st.apply_key(KeyEvent::ArrowDown, true);
    assert_eq!(st.selected, Some(0));
    assert_eq!(st.viewport_start, 0);
    assert!(sel_invariant_holds(&st));
}

#[test]
fn up_from_zero_wraps_to_last() {
    let mut st = sel_state(&["a", "b", "c"], 5);
    st.apply_key(KeyEvent::ArrowDown, true);
    assert_eq!(st.selected, Some(0));
    st.apply_key(KeyEvent::ArrowUp, true);
    assert_eq!(st.selected, Some(2));
    assert!(sel_invariant_holds(&st));
}

#[test]
fn viewport_scrolls_down_and_up() {
    let mut st = sel_state(&["a", "b", "c", "d", "e"], 2);
    st.apply_key(KeyEvent::ArrowDown, true);
    st.apply_key(KeyEvent::ArrowDown, true);
    assert_eq!(st.selected, Some(1));
    assert_eq!(st.viewport_start, 0);
    st.apply_key(KeyEvent::Tab, true);
    assert_eq!(st.selected, Some(2));
    assert_eq!(st.viewport_start, 1);
    assert!(sel_invariant_holds(&st));
    st.apply_key(KeyEvent::ArrowUp, true);
    assert_eq!(st.selected, Some(1));
    assert_eq!(st.viewport_start, 1);
    st.apply_key(KeyEvent::BackTab, true);
    assert_eq!(st.selected, Some(0));
    assert_eq!(st.viewport_start, 0);
    assert!(sel_invariant_holds(&st));
}

#[test]
fn up_from_zero_shows_tail_window() {
    let mut st = sel_state(&["a", "b", "c", "d", "e"], 2);
    st.apply_key(KeyEvent::ArrowDown, true);
    assert_eq!(st.selected, Some(0));
    st.apply_key(KeyEvent::ArrowUp, true);
    assert_eq!(st.selected, Some(4));
    assert_eq!(st.viewport_start, 3);
    assert!(sel_invariant_holds(&st));
}

#[test]
fn insert_resets_selection_and_viewport() {
    let mut st = sel_state(&["a", "b", "c", "d", "e"], 2);
    for _ in 0..4 {
        st.apply_key(KeyEvent::ArrowDown, true);
    }
    assert_eq!(st.selected, Some(3));
    assert_eq!(st.viewport_start, 2);
    let step = st.apply_key(KeyEvent::Char('x'), true);
    assert!(matches!(step, Step::Requery));
    st.apply_results(vec![sel_chars("x one"), sel_chars("x two")]);
    assert_eq!(st.selected, Some(0));
    assert_eq!(st.viewport_start, 0);
}

#[test]
fn requery_with_no_results_clears_selection() {
    let mut st = sel_state(&["a"], 2);
    let step = st.apply_key(KeyEvent::Char('q'), true);
    assert!(matches!(step, Step::Requery));
    st.apply_results(Vec::new());
    assert_eq!(st.selected, None);
    assert_eq!(st.candidates.len(), 0);
    assert_eq!(st.viewport_start, 0);
}

#[test]
fn backspace_at_start_is_a_no_op() {
    let mut st = SelectorState::new(sel_chars("ab"), 3);
    st.seed_results(vec![sel_chars("abc")], Some(0));
    st.apply_key(KeyEvent::ArrowLeft, true);
    st.apply_key(KeyEvent::ArrowLeft, true);
    assert_eq!(st.buffer.cursor, 0);
    let step = st.apply_key(KeyEvent::Backspace, true);
    assert!(matches!(step, Step::Continue));
    let text: String = st.buffer.chars.iter().collect();
    assert_eq!(text, "ab");
    assert_eq!(st.buffer.cursor, 0);
}

#[test]
fn backspace_removes_before_cursor_and_requeries() {
    let mut st = SelectorState::new(sel_chars("ab"), 3);
    st.seed_results(vec![sel_chars("abc")], Some(0));
    let step = st.apply_key(KeyEvent::Backspace, true);
    assert!(matches!(step, Step::Requery));
    let text: String = st.buffer.chars.iter().collect();
    assert_eq!(text, "a");
    assert_eq!(st.buffer.cursor, 1);
}

#[test]
fn cursor_moves_stay_inside_the_text() {
    let mut st = SelectorState::new(sel_chars("ab"), 3);
    st.seed_results(Vec::new(), None);
    assert_eq!(st.buffer.cursor, 2);
    st.apply_key(KeyEvent::ArrowRight, true);
    assert_eq!(st.buffer.cursor, 2);
    st.apply_key(KeyEvent::ArrowLeft, true);
    assert_eq!(st.buffer.cursor, 1);
    st.apply_key(KeyEvent::ArrowLeft, true);
    st.apply_key(KeyEvent::ArrowLeft, true);
    assert_eq!(st.buffer.cursor, 0);
}

#[test]
fn escape_cancels_when_allowed() {
    let mut st = sel_state(&["a"], 2);
    let step = st.apply_key(KeyEvent::Escape, true);
    assert!(matches!(step, Step::Cancelled));
    let step = st.apply_key(KeyEvent::Escape, false);
    assert!(matches!(step, Step::Continue));
}

#[test]
fn control_char_changes_nothing() {
    let mut st = sel_state(&["a"], 2);
    let step = st.apply_key(KeyEvent::Char('\u{7}'), true);
    assert!(matches!(step, Step::Continue));
    assert_eq!(st.buffer.chars.len(), 0);
}

#[test]
fn selection_stays_in_range_over_any_key_sequence() {
    let keys = [
        KeyEvent::ArrowDown,
        KeyEvent::ArrowUp,
        KeyEvent::Tab,
        KeyEvent::BackTab,
        KeyEvent::ArrowLeft,
        KeyEvent::ArrowRight,
        KeyEvent::Other,
        KeyEvent::Enter,
    ];
    let mut st = sel_state(&["a", "b", "c", "d"], 2);
    st.apply_key(KeyEvent::ArrowDown, true);
    for round in 0..4 {
        for (n, key) in keys.iter().enumerate() {
            st.apply_key(*key, true);
            assert!(sel_invariant_holds(&st), "round {round}, key {n}");
            assert_eq!(st.selected.is_none(), st.candidates.is_empty());
        }
    }
}

#[test]
fn seed_results_clamps_the_default() {
    let mut st = SelectorState::new(Vec::new(), 2);
    st.seed_results(vec![sel_chars("a"), sel_chars("b")], Some(9));
    assert_eq!(st.selected, Some(1));
    assert!(sel_invariant_holds(&st));

    let mut st2 = SelectorState::new(Vec::new(), 2);
    st2.seed_results(Vec::new(), Some(0));
    assert_eq!(st2.selected, None);
}

#[test]
fn builders_assemble_the_configuration() {
    let cfg = FuzzyHistorySelect::with_theme(Theme::Colorful)
        .with_initial_text(sel_chars("git"))
        .with_prompt(sel_chars("run:"))
        .default(0)
        .report(false)
        .highlight_matches(false)
        .clear(false)
        .max_length(4)
        .item(sel_chars("git status"))
        .items(vec![sel_chars("git log"), sel_chars("git diff")]);
    assert_eq!(cfg.theme, Theme::Colorful);
    let text: String = cfg.initial_text.iter().collect();
    assert_eq!(text, "git");
    assert_eq!(cfg.default, Some(0));
    assert!(!cfg.report);
    assert!(!cfg.highlight_matches);
    assert!(!cfg.clear);
    assert_eq!(cfg.max_length, Some(4));
    assert_eq!(cfg.items.len(), 3);
    let last: String = cfg.items[2].iter().collect();
    assert_eq!(last, "git diff");

    let fresh = FuzzyHistorySelect::new();
    assert_eq!(fresh.theme, Theme::Simple);
    assert!(fresh.report && fresh.clear && fresh.highlight_matches);
    assert_eq!(fresh.default, None);
}

#[test]
fn viewport_rows_follow_terminal_and_cap() {
    assert_eq!(fuzzy_history::visible_rows(10, None), 8);
    assert_eq!(fuzzy_history::visible_rows(2, None), 1);
    assert_eq!(fuzzy_history::visible_rows(0, None), 1);
    assert_eq!(fuzzy_history::visible_rows(10, Some(3)), 3);
    assert_eq!(fuzzy_history::visible_rows(10, Some(99)), 8);
    assert_eq!(fuzzy_history::visible_rows(10, Some(0)), 1);
}

#[test]
fn visible_end_bounds_the_window() {
    let st = sel_state(&["a", "b", "c"], 2);
    assert_eq!(st.visible_end(), 2);
    let st2 = sel_state(&["a"], 5);
    assert_eq!(st2.visible_end(), 1);
}
