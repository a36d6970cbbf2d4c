use fuzzy_history::keys::decode_key;
use fuzzy_history::ranking::rank_commands;
use fuzzy_history::ranking::Record;
use fuzzy_history::ranking::PERIOD_MS;
use fuzzy_history::render::format_prompt_line;
use fuzzy_history::selector::SelectorState;
use fuzzy_history::selector::Step;

fn ss_chars(s: &str) -> Vec<char> {
    s.chars().collect()
}

fn ss_text(v: &Vec<char>) -> String {
    v.iter().collect()
}

fn ss_records() -> Vec<Record> {
    let now = 10 * PERIOD_MS;
    let mut records = Vec::new();
    for (age, command) in [(30u64, "git status"), (20, "git push"), (10, "echo done")] {
        records.push(Record {
            created_ms: now - age,
            times_selected: 0,
            exit_code: 0,
            directory: ss_chars("/work"),
            command: ss_chars(command),
        });
    }
    records
}

fn ss_query_backend(state: &SelectorState) -> Vec<Vec<char>> {
    let records = ss_records();
    let relevance = vec![0; records.len()];
    let now = 10 * PERIOD_MS;
    rank_commands(&records, &relevance, &state.query_text(), &ss_chars("/work"), now)
}

#[test]
fn a_session_from_bytes_to_confirmation() {
    let mut state = SelectorState::new(Vec::new(), 4);
    let initial = ss_query_backend(&state);
    state.seed_results(initial, Some(0));
    assert_eq!(state.candidates.len(), 3);
    assert_eq!(ss_text(&state.candidates[0]), "echo done");

    let mut outcome: Option<String> = None;
    let mut pending: Vec<u8> = Vec::new();
    for chunk in [b"g".as_slice(), b"\x1b[B", b"\r"] {
        pending.extend_from_slice(chunk);
        while let Some((key, consumed)) = decode_key(&pending) {
            pending.drain(..consumed);
            match state.apply_key(key, true) {
                Step::Continue => {}
                Step::Requery => {
                    let fresh = ss_query_backend(&state);
                    state.apply_results(fresh);
                }
                Step::Confirmed(text) => outcome = Some(ss_text(&text)),
                Step::Cancelled => panic!("not cancelled in this scenario"),
            }
        }
    }
    // After typing "g" only the two git commands match; the arrow moves to
    // the second of them, which Enter confirms.
    assert_eq!(outcome, Some("git status".to_string()));
}

#[test]
fn an_escape_chunk_cancels_the_session() {
    let mut state = SelectorState::new(Vec::new(), 4);
    state.seed_results(ss_query_backend(&state), Some(0));
    let (key, consumed) = decode_key(&vec![0x1b]).unwrap();
    assert_eq!(consumed, 1);
    let step = state.apply_key(key, true);
    assert!(matches!(step, Step::Cancelled));
}

#[test]
fn the_query_text_follows_edits() {
    let mut state = SelectorState::new(ss_chars("gt"), 4);
    state.seed_results(Vec::new(), None);
    let (key, _) = decode_key(&vec![0x7f]).unwrap();
    state.apply_key(key, true);
    assert_eq!(ss_text(&state.query_text()), "g");
}

#[test]
fn the_cursor_marker_sits_between_characters_not_bytes() {
    // The accented character is two bytes long; the cursor counts
    // characters, so the marker lands after it, never inside it.
    let line = format_prompt_line(&ss_chars(""), &ss_chars("h\u{e9}llo"), 2);
    assert_eq!(ss_text(&line), "h\u{e9}|llo");
}
