//! Session configuration: a plain value assembled once before the
//! interactive loop starts.
//!
//! The setters are consuming builders; each one pins down exactly the
//! field it sets.  The theme is one of the closed
//! set of variants, picked here and fixed for the session.

use vstd::prelude::*;

use crate::render::Theme;
use crate::selector::SelectorState;
use crate::visible_rows;

verus! {

/// Configuration of one interactive fuzzy-history session.
pub struct FuzzyHistorySelect {
    /// Position selected when the first results arrive, if any.
    pub default: Option<usize>,
    /// Candidates supplied up front, before any query ran.
    pub items: Vec<Vec<char>>,
    /// Prompt label drawn in front of the query text.
    pub prompt: Vec<char>,
    /// Whether the selection is reported after the interaction.
    pub report: bool,
    /// Whether the menu is cleared when the interaction ends.
    pub clear: bool,
    /// Whether matched characters are emphasised in candidate rows.
    pub highlight_matches: bool,
    /// Cap on the number of visible candidate rows, if any.
    pub max_length: Option<usize>,
    /// The rendering style of the session.
    pub theme: Theme,
    /// Query text the session starts with.
    pub initial_text: Vec<char>,
}

/// What a fresh configuration under `theme` holds: nothing set, every
/// other field at its default.
pub open spec fn spec_fresh_config(r: FuzzyHistorySelect, theme: Theme) -> bool {
    &&& r.default is None
    &&& r.items@.len() == 0
    &&& r.prompt@.len() == 0
    &&& r.report
    &&& r.clear
    &&& r.highlight_matches
    &&& r.max_length is None
    &&& r.theme == theme
    &&& r.initial_text@.len() == 0
}

impl FuzzyHistorySelect {
    /// A plain-styled configuration with nothing set.
    pub fn new() -> (r: FuzzyHistorySelect)
        ensures
            spec_fresh_config(r, Theme::Simple),
    {
        FuzzyHistorySelect::with_theme(Theme::Simple)
    }

    /// A fresh configuration rendered under `theme`.
    pub fn with_theme(theme: Theme) -> (r: FuzzyHistorySelect)
        ensures
            spec_fresh_config(r, theme),
    {
        FuzzyHistorySelect {
            default: None,
            items: Vec::new(),
            prompt: Vec::new(),
            report: true,
            clear: true,
            highlight_matches: true,
            max_length: None,
            theme,
            initial_text: Vec::new(),
        }
    }

    /// Sets whether the menu is cleared when the interaction ends.
    pub fn clear(self, val: bool) -> (r: FuzzyHistorySelect)
        ensures
            r == (FuzzyHistorySelect { clear: val, ..self }),
    {
        FuzzyHistorySelect { clear: val, ..self }
    }

    /// Sets the position selected when the first results arrive.
    pub fn default(self, val: usize) -> (r: FuzzyHistorySelect)
        ensures
            r == (FuzzyHistorySelect { default: Some(val), ..self }),
    {
        FuzzyHistorySelect { default: Some(val), ..self }
    }

    /// Adds one candidate to the up-front list.
    pub fn item(self, item: Vec<char>) -> (r: FuzzyHistorySelect)
        ensures
            r.items@ == self.items@.push(item),
            r == (FuzzyHistorySelect { items: r.items, ..self }),
    {
        let mut s = self;
        s.items.push(item);
        s
    }

    /// Adds several candidates to the up-front list, in order.
    pub fn items(self, items: Vec<Vec<char>>) -> (r: FuzzyHistorySelect)
        ensures
            r.items@ == self.items@ + items@,
            r == (FuzzyHistorySelect { items: r.items, ..self }),
    {
        let mut s = self;
        let mut rest = items;
        s.items.append(&mut rest);
        s
    }

    /// Sets the query text the session starts with.
    pub fn with_initial_text(self, initial_text: Vec<char>) -> (r: FuzzyHistorySelect)
        ensures
            r == (FuzzyHistorySelect { initial_text, ..self }),
    {
        FuzzyHistorySelect { initial_text, ..self }
    }

    /// Sets the prompt label drawn in front of the query text.
    pub fn with_prompt(self, prompt: Vec<char>) -> (r: FuzzyHistorySelect)
        ensures
            r == (FuzzyHistorySelect { prompt, ..self }),
    {
        FuzzyHistorySelect { prompt, ..self }
    }

    /// Sets whether the selection is reported after the interaction.
    pub fn report(self, val: bool) -> (r: FuzzyHistorySelect)
        ensures
            r == (FuzzyHistorySelect { report: val, ..self }),
    {
        FuzzyHistorySelect { report: val, ..self }
    }

    /// Sets whether matched characters are emphasised.
    pub fn highlight_matches(self, val: bool) -> (r: FuzzyHistorySelect)
        ensures
            r == (FuzzyHistorySelect { highlight_matches: val, ..self }),
    {
        FuzzyHistorySelect { highlight_matches: val, ..self }
    }

    /// Caps the number of visible candidate rows.
    pub fn max_length(self, rows: usize) -> (r: FuzzyHistorySelect)
        ensures
            r == (FuzzyHistorySelect { max_length: Some(rows), ..self }),
    {
        FuzzyHistorySelect { max_length: Some(rows), ..self }
    }

    /// The candidate rows a terminal with `term_rows` rows shows under
    /// this configuration.
    pub fn viewport_rows(&self, term_rows: usize) -> (r: usize)
        ensures
            r as int == crate::spec_visible_rows(term_rows, self.max_length),
            r >= 1,
    {
        visible_rows(term_rows, self.max_length)
    }

    /// The session state this configuration starts with: the seeded query
    /// with the cursor at its end, and a viewport sized to the terminal.
    pub fn start_state(&self, term_rows: usize) -> (r: SelectorState)
        ensures
            r.inv(),
            r.buffer.chars@ == self.initial_text@,
            r.buffer.cursor == self.initial_text@.len(),
            r.candidates@.len() == 0,
            r.selected is None,
            r.viewport_start == 0,
            r.viewport_height as int == crate::spec_visible_rows(term_rows, self.max_length),
    {
        let rows = self.viewport_rows(term_rows);
        SelectorState::new(crate::ranking::clone_chars(&self.initial_text), rows)
    }
}

} // verus!
