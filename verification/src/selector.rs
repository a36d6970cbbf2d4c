//! The selector state machine.
//!
//! One state carries the edit buffer, the current candidate list, the
//! selection, and the viewport window over the list.  Every key event is
//! one transition; edits that change the query ask the caller to requery
//! the search backend and hand the fresh list back in.

use vstd::prelude::*;

use crate::editor::EditBuffer;
use crate::keys::KeyEvent;
use crate::keys::spec_is_control;
use crate::keys::is_control;
use crate::ranking::clone_chars;

verus! {

/// The live state of one interactive session.
pub struct SelectorState {
    /// The query text under edit.
    pub buffer: EditBuffer,
    /// The candidate list the backend returned for the current query.
    pub candidates: Vec<Vec<char>>,
    /// Position of the selected candidate, if any.
    pub selected: Option<usize>,
    /// First candidate row that is visible.
    pub viewport_start: usize,
    /// How many candidate rows are visible; fixed for the session.
    pub viewport_height: usize,
}

/// What the session loop must do after a key event.
pub enum Step {
    /// Redraw and read the next key.
    Continue,
    /// The edit changed the query: requery the backend with the buffer
    /// text and hand the fresh list to [`SelectorState::apply_results`].
    Requery,
    /// The user confirmed this candidate text; the session is over.
    Confirmed(Vec<char>),
    /// The user cancelled the session.
    Cancelled,
}

impl SelectorState {
    /// Structural invariant: the viewport can hold a row, a selection is a
    /// valid position and sits inside the viewport, and without a
    /// selection the viewport rests at the top.
    pub open spec fn inv(&self) -> bool {
        &&& self.buffer.wf()
        &&& self.viewport_height >= 1
        &&& match self.selected {
            Some(i) => i < self.candidates@.len() && self.viewport_start <= i
                && i < self.viewport_start + self.viewport_height,
            None => self.viewport_start == 0,
        }
    }

    /// The selection is `None` exactly when the candidate list is empty.
    pub open spec fn selection_consistent(&self) -> bool {
        self.selected is None <==> self.candidates@.len() == 0
    }

    /// A fresh session state: the seeded query with the cursor at its end,
    /// no candidates yet.  The caller runs the initial query and seeds the
    /// list with [`SelectorState::seed_results`].
    pub fn new(initial: Vec<char>, viewport_height: usize) -> (r: SelectorState)
        requires
            viewport_height >= 1,
        ensures
            r.inv(),
            r.buffer.chars@ == initial@,
            r.buffer.cursor == initial@.len(),
            r.candidates@.len() == 0,
            r.selected is None,
            r.viewport_start == 0,
            r.viewport_height == viewport_height,
    {
        SelectorState {
            buffer: EditBuffer::new(initial),
            candidates: Vec::new(),
            selected: None,
            viewport_start: 0,
            viewport_height,
        }
    }

    /// Installs the results of the initial query and seeds the selection:
    /// the configured default position, clamped into the list, or no
    /// selection when none is configured or the list is empty.
    pub fn seed_results(&mut self, results: Vec<Vec<char>>, default: Option<usize>)
        requires
            old(self).inv(),
        ensures
            final(self).inv(),
            final(self).buffer == old(self).buffer,
            final(self).viewport_height == old(self).viewport_height,
            final(self).candidates == results,
            final(self).selected == match default {
                Some(d) => if results@.len() > 0 {
                    Some(if (d as int) < results@.len() {
                        d
                    } else {
                        (results@.len() - 1) as usize
                    })
                } else {
                    None::<usize>
                },
                None => None::<usize>,
            },
            final(self).selected matches Some(i) ==> final(self).viewport_start == if (i as int)
                < final(self).viewport_height {
                0int
            } else {
                i - final(self).viewport_height + 1
            },
            final(self).selected is None ==> final(self).viewport_start == 0,
    {
        let len = results.len();
        self.candidates = results;
        match default {
            Some(d) => {
                if len > 0 {
                    let i = if d < len {
                        d
                    } else {
                        len - 1
                    };
                    self.selected = Some(i);
                    self.viewport_start = if i < self.viewport_height {
                        0
                    } else {
                        i - self.viewport_height + 1
                    };
                } else {
                    self.selected = None;
                    self.viewport_start = 0;
                }
            },
            None => {
                self.selected = None;
                self.viewport_start = 0;
            },
        }
    }

    /// Installs a fresh candidate list after an edit changed the query.
    ///
    /// Policy, chosen once for both edits: every requery-triggering edit
    /// (inserting and deleting alike) resets the selection to the top and
    /// the viewport to the start, so the best match for the new text is
    /// always what a bare Enter confirms.
    pub fn apply_results(&mut self, results: Vec<Vec<char>>)
        requires
            old(self).inv(),
        ensures
            final(self).inv(),
            final(self).selection_consistent(),
            final(self).buffer == old(self).buffer,
            final(self).viewport_height == old(self).viewport_height,
            final(self).candidates == results,
            final(self).selected == if results@.len() > 0 {
                Some(0usize)
            } else {
                None::<usize>
            },
            final(self).viewport_start == 0,
            spec_apply_results(*old(self), results, *final(self)),
    {
        let has_any = results.len() > 0;
        self.candidates = results;
        self.selected = if has_any {
            Some(0)
        } else {
            None
        };
        self.viewport_start = 0;
    }
}

/// Selection after one step down: the next position, wrapping from the
/// last back to `0`; with no selection the first candidate is taken.
pub open spec fn spec_down_sel(sel: Option<usize>, len: int) -> int
    recommends
        len > 0,
{
    match sel {
        None => 0,
        Some(s) => if s + 1 == len {
            0int
        } else {
            s + 1
        },
    }
}

/// Viewport after one step down: scrolls one row when the selection walks
/// past the last visible row, and rewinds to the top when the selection
/// wraps to `0`.
pub open spec fn spec_down_start(start: int, height: int, new_sel: int) -> int {
    if new_sel == start + height {
        start + 1
    } else if new_sel == 0 {
        0int
    } else {
        start
    }
}

/// Selection after one step up: the previous position, wrapping from `0`
/// to the last; with no selection the last candidate is taken.
pub open spec fn spec_up_sel(sel: Option<usize>, len: int) -> int
    recommends
        len > 0,
{
    match sel {
        None => len - 1,
        Some(s) => if s == 0 {
            len - 1
        } else {
            s - 1
        },
    }
}

/// Viewport after one step up: scrolls one row when the selection leaves
/// the first visible row, and shows the tail window when the selection
/// wraps to the last candidate.
pub open spec fn spec_up_start(sel: Option<usize>, start: int, height: int, len: int) -> int
    recommends
        len > 0,
{
    let tail = if len >= height {
        len - height
    } else {
        0int
    };
    match sel {
        None => tail,
        Some(s) => if s == 0 {
            tail
        } else if s == start {
            start - 1
        } else {
            start
        },
    }
}

/// Everything but the selection and the viewport is untouched.
pub open spec fn spec_same_but_view(pre: SelectorState, post: SelectorState) -> bool {
    &&& post.buffer == pre.buffer
    &&& post.candidates == pre.candidates
    &&& post.viewport_height == pre.viewport_height
}

/// Everything but the edit buffer is untouched.
pub open spec fn spec_same_but_buffer(pre: SelectorState, post: SelectorState) -> bool {
    &&& post.candidates == pre.candidates
    &&& post.selected == pre.selected
    &&& post.viewport_start == pre.viewport_start
    &&& post.viewport_height == pre.viewport_height
}

/// The transition table of the selector, one arm per key, relating the
/// state before a key to the state and the step after it.
pub open spec fn spec_apply_key(
    pre: SelectorState,
    key: KeyEvent,
    allow_quit: bool,
    post: SelectorState,
    step: Step,
) -> bool {
    let len = pre.candidates@.len() as int;
    match key {
        KeyEvent::Escape => if allow_quit {
            post == pre && step is Cancelled
        } else {
            post == pre && step is Continue
        },
        KeyEvent::ArrowUp | KeyEvent::BackTab => if len > 0 {
            &&& spec_same_but_view(pre, post)
            &&& post.selected matches Some(s) && s as int == spec_up_sel(pre.selected, len)
            &&& post.viewport_start as int == spec_up_start(
                pre.selected,
                pre.viewport_start as int,
                pre.viewport_height as int,
                len,
            )
            &&& step is Continue
        } else {
            post == pre && step is Continue
        },
        KeyEvent::ArrowDown | KeyEvent::Tab => if len > 0 {
            &&& spec_same_but_view(pre, post)
            &&& post.selected matches Some(s) && s as int == spec_down_sel(pre.selected, len)
            &&& post.viewport_start as int == spec_down_start(
                pre.viewport_start as int,
                pre.viewport_height as int,
                spec_down_sel(pre.selected, len),
            )
            &&& step is Continue
        } else {
            post == pre && step is Continue
        },
        KeyEvent::ArrowLeft => {
            &&& spec_same_but_buffer(pre, post)
            &&& post.buffer.chars@ == pre.buffer.chars@
            &&& post.buffer.cursor == if pre.buffer.cursor > 0 {
                (pre.buffer.cursor - 1) as usize
            } else {
                0usize
            }
            &&& step is Continue
        },
        KeyEvent::ArrowRight => {
            &&& spec_same_but_buffer(pre, post)
            &&& post.buffer.chars@ == pre.buffer.chars@
            &&& post.buffer.cursor == if pre.buffer.cursor < pre.buffer.chars@.len() {
                (pre.buffer.cursor + 1) as usize
            } else {
                pre.buffer.cursor
            }
            &&& step is Continue
        },
        KeyEvent::Enter => match pre.selected {
            Some(i) => if len > 0 {
                &&& post == pre
                &&& step matches Step::Confirmed(text) && text@ == pre.candidates@[i as int]@
            } else {
                post == pre && step is Continue
            },
            None => post == pre && step is Continue,
        },
        KeyEvent::Backspace => if pre.buffer.cursor > 0 {
            &&& spec_same_but_buffer(pre, post)
            &&& post.buffer.chars@ == pre.buffer.chars@.remove(pre.buffer.cursor - 1)
            &&& post.buffer.cursor == pre.buffer.cursor - 1
            &&& step is Requery
        } else {
            post == pre && step is Continue
        },
        KeyEvent::Char(c) => if !spec_is_control(c) {
            &&& spec_same_but_buffer(pre, post)
            &&& post.buffer.chars@ == pre.buffer.chars@.insert(pre.buffer.cursor as int, c)
            &&& post.buffer.cursor == pre.buffer.cursor + 1
            &&& step is Requery
        } else {
            post == pre && step is Continue
        },
        KeyEvent::Other => post == pre && step is Continue,
    }
}

/// What installing a fresh result list does to the state, as
/// [`SelectorState::apply_results`] promises it: the list replaces the
/// candidates, the top entry is selected when there is one, and the
/// viewport rewinds to the start.
pub open spec fn spec_apply_results(
    pre: SelectorState,
    results: Vec<Vec<char>>,
    post: SelectorState,
) -> bool {
    &&& post.buffer == pre.buffer
    &&& post.viewport_height == pre.viewport_height
    &&& post.candidates == results
    &&& post.selected == if results@.len() > 0 {
        Some(0usize)
    } else {
        None::<usize>
    }
    &&& post.viewport_start == 0
}

/// One step of a session: either some key event was applied, or a requery
/// installed some result list.
pub open spec fn spec_session_step(pre: SelectorState, post: SelectorState) -> bool {
    ||| exists|key: KeyEvent, allow_quit: bool, step: Step|
        spec_apply_key(pre, key, allow_quit, post, step)
    ||| exists|results: Vec<Vec<char>>| spec_apply_results(pre, results, post)
}

/// Over every sequence of session steps — any keys in any order, with any
/// result lists installed between them — a session that starts well formed
/// and consistent stays so: the selection is `None` exactly while the
/// candidate list is empty, and otherwise stays inside both the list and
/// the viewport.
pub proof fn lemma_session_preserves_invariants(trace: Seq<SelectorState>)
    requires
        trace.len() > 0,
        trace[0].inv(),
        trace[0].selection_consistent(),
        forall|i: int|
            0 <= i < trace.len() - 1 ==> spec_session_step(#[trigger] trace[i], trace[i + 1]),
    ensures
        forall|i: int|
            0 <= i < trace.len() ==> (#[trigger] trace[i]).inv() && trace[i].selection_consistent(),
    decreases trace.len(),
{
    if trace.len() > 1 {
        let pre = trace[0];
        let post = trace[1];
        assert(spec_session_step(pre, post));
        if exists|key: KeyEvent, allow_quit: bool, step: Step|
            spec_apply_key(pre, key, allow_quit, post, step) {
            let (key, allow_quit, step) = choose|key: KeyEvent, allow_quit: bool, step: Step|
                spec_apply_key(pre, key, allow_quit, post, step);
            lemma_apply_key_preserves_invariants(pre, key, allow_quit, post, step);
        } else {
            let results = choose|results: Vec<Vec<char>>| spec_apply_results(pre, results, post);
            assert(post.inv());
        }
        let rest = trace.drop_first();
        assert(rest[0] == trace[1]);
        assert forall|i: int|
            0 <= i < rest.len() - 1 implies spec_session_step(#[trigger] rest[i], rest[i + 1]) by {
            assert(rest[i] == trace[i + 1]);
            assert(rest[i + 1] == trace[i + 2]);
        }
        lemma_session_preserves_invariants(rest);
        assert forall|i: int|
            0 <= i < trace.len() implies (#[trigger] trace[i]).inv()
            && trace[i].selection_consistent() by {
            if i > 0 {
                assert(trace[i] == rest[i - 1]);
            }
        }
    }
}

/// Every transition of the table preserves the structural invariant, and
/// a state whose selection is `None` exactly on an empty list keeps that
/// property.  By induction this holds over every key sequence: from a
/// consistent well-formed state, the selection stays `None` exactly while
/// the candidate list is empty, and otherwise stays inside both the list
/// and the viewport.
pub proof fn lemma_apply_key_preserves_invariants(
    pre: SelectorState,
    key: KeyEvent,
    allow_quit: bool,
    post: SelectorState,
    step: Step,
)
    requires
        pre.inv(),
        spec_apply_key(pre, key, allow_quit, post, step),
    ensures
        post.inv(),
        pre.selection_consistent() ==> post.selection_consistent(),
{
    let len = pre.candidates@.len() as int;
    match key {
        KeyEvent::ArrowUp | KeyEvent::BackTab => {
            if len > 0 {
                let s = spec_up_sel(pre.selected, len);
                assert(0 <= s < len);
                assert(post.viewport_start <= s < post.viewport_start + post.viewport_height);
            }
        },
        KeyEvent::ArrowDown | KeyEvent::Tab => {
            if len > 0 {
                let s = spec_down_sel(pre.selected, len);
                assert(0 <= s < len);
                assert(post.viewport_start <= s < post.viewport_start + post.viewport_height);
            }
        },
        _ => {},
    }
}

/// A confirmed text is always one of the candidates of the state the key
/// was applied to: what the session emits is byte-identical to an element
/// of the last-rendered list, never a mutated or partial string.
pub proof fn lemma_confirmed_is_a_candidate(
    pre: SelectorState,
    key: KeyEvent,
    allow_quit: bool,
    post: SelectorState,
    step: Step,
)
    requires
        pre.inv(),
        spec_apply_key(pre, key, allow_quit, post, step),
        step matches Step::Confirmed(text),
    ensures
        step matches Step::Confirmed(text) ==> exists|i: int|
            0 <= i < pre.candidates@.len() && text@ == #[trigger] pre.candidates@[i]@,
{
    match key {
        KeyEvent::Enter => {
            if let Some(i) = pre.selected {
                if pre.candidates@.len() > 0 {
                    if let Step::Confirmed(text) = step {
                        assert(text@ == pre.candidates@[i as int]@);
                    }
                }
            }
        },
        _ => {},
    }
}

impl SelectorState {
    /// Applies one key event, as the transition table of
    /// [`spec_apply_key`] lays it out.  Navigation wraps around both ends
    /// of the list and keeps the selection inside the viewport; edits move
    /// or change the buffer, and an edit that changes the text asks for a
    /// requery; Enter confirms the selected candidate, byte for byte as
    /// the list holds it; Escape cancels when quitting is allowed.
    pub fn apply_key(&mut self, key: KeyEvent, allow_quit: bool) -> (step: Step)
        requires
            old(self).inv(),
        ensures
            final(self).inv(),
            spec_apply_key(*old(self), key, allow_quit, *final(self), step),
            old(self).selection_consistent() ==> final(self).selection_consistent(),
    {
        match key {
            KeyEvent::Escape => {
                if allow_quit {
                    Step::Cancelled
                } else {
                    Step::Continue
                }
            },
            KeyEvent::ArrowUp | KeyEvent::BackTab => {
                if self.candidates.len() > 0 {
                    self.nav_up();
                }
                Step::Continue
            },
            KeyEvent::ArrowDown | KeyEvent::Tab => {
                if self.candidates.len() > 0 {
                    self.nav_down();
                }
                Step::Continue
            },
            KeyEvent::ArrowLeft => {
                self.buffer.move_left();
                Step::Continue
            },
            KeyEvent::ArrowRight => {
                self.buffer.move_right();
                Step::Continue
            },
            KeyEvent::Enter => {
                match self.selected {
                    Some(i) => {
                        if self.candidates.len() > 0 {
                            Step::Confirmed(clone_chars(&self.candidates[i]))
                        } else {
                            Step::Continue
                        }
                    },
                    None => Step::Continue,
                }
            },
            KeyEvent::Backspace => {
                if self.buffer.delete_before_cursor() {
                    Step::Requery
                } else {
                    Step::Continue
                }
            },
            KeyEvent::Char(c) => {
                if !is_control(c) {
                    self.buffer.insert_char(c);
                    Step::Requery
                } else {
                    Step::Continue
                }
            },
            KeyEvent::Other => Step::Continue,
        }
    }

    /// One past the last visible candidate row: the viewport's window is
    /// `[viewport_start, visible_end())`.
    pub fn visible_end(&self) -> (r: usize)
        requires
            self.inv(),
        ensures
            r as int == vstd::math::min(
                self.viewport_start + self.viewport_height,
                self.candidates@.len() as int,
            ),
    {
        let len = self.candidates.len();
        if self.viewport_start >= len {
            len
        } else if self.viewport_height < len - self.viewport_start {
            self.viewport_start + self.viewport_height
        } else {
            len
        }
    }

    /// A copy of the query text under edit, for handing to the backend.
    pub fn query_text(&self) -> (r: Vec<char>)
        ensures
            r@ == self.buffer.chars@,
    {
        clone_chars(&self.buffer.chars)
    }

    /// One step up through the candidates, wrapping at the top.
    fn nav_up(&mut self)
        requires
            old(self).inv(),
            old(self).candidates@.len() > 0,
        ensures
            final(self).inv(),
            spec_same_but_view(*old(self), *final(self)),
            final(self).selected matches Some(s) && s as int == spec_up_sel(
                old(self).selected,
                old(self).candidates@.len() as int,
            ),
            final(self).viewport_start as int == spec_up_start(
                old(self).selected,
                old(self).viewport_start as int,
                old(self).viewport_height as int,
                old(self).candidates@.len() as int,
            ),
    {
        let len = self.candidates.len();
        let tail: usize = if len >= self.viewport_height {
            len - self.viewport_height
        } else {
            0
        };
        match self.selected {
            None => {
                self.viewport_start = tail;
                self.selected = Some(len - 1);
            },
            Some(s) => {
                if s == 0 {
                    self.viewport_start = tail;
                    self.selected = Some(len - 1);
                } else {
                    if s == self.viewport_start {
                        self.viewport_start = self.viewport_start - 1;
                    }
                    self.selected = Some(s - 1);
                }
            },
        }
    }

    /// One step down through the candidates, wrapping at the bottom.
    fn nav_down(&mut self)
        requires
            old(self).inv(),
            old(self).candidates@.len() > 0,
        ensures
            final(self).inv(),
            spec_same_but_view(*old(self), *final(self)),
            final(self).selected matches Some(s) && s as int == spec_down_sel(
                old(self).selected,
                old(self).candidates@.len() as int,
            ),
            final(self).viewport_start as int == spec_down_start(
                old(self).viewport_start as int,
                old(self).viewport_height as int,
                spec_down_sel(old(self).selected, old(self).candidates@.len() as int),
            ),
    {
        let len = self.candidates.len();
        let new_sel: usize = match self.selected {
            None => 0,
            Some(s) => {
                if s + 1 == len {
                    0
                } else {
                    s + 1
                }
            },
        };
        if new_sel >= self.viewport_start && new_sel - self.viewport_start == self.viewport_height {
            self.viewport_start = self.viewport_start + 1;
        } else if new_sel == 0 {
            self.viewport_start = 0;
        }
        self.selected = Some(new_sel);
    }
}

} // verus!
