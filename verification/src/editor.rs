//! The edit buffer: the query text under edit and the cursor inside it.
//!
//! The text is held as a sequence of characters, so every cursor position
//! is a character boundary by construction and edits can never split an
//! encoded character.

use vstd::prelude::*;

verus! {

/// The query text under edit, with the cursor position in character units.
pub struct EditBuffer {
    /// The characters of the text.
    pub chars: Vec<char>,
    /// Cursor offset in characters, between `0` and `chars.len()`.
    pub cursor: usize,
}

impl EditBuffer {
    /// The cursor always sits on a character boundary of the text.
    pub open spec fn wf(&self) -> bool {
        self.cursor <= self.chars@.len()
    }

    /// A buffer holding `initial` with the cursor at the end of it.
    pub fn new(initial: Vec<char>) -> (r: EditBuffer)
        ensures
            r.wf(),
            r.chars@ == initial@,
            r.cursor == initial@.len(),
    {
        let end = initial.len();
        EditBuffer { chars: initial, cursor: end }
    }

    /// Moves the cursor one character left; at the start it stays put.
    pub fn move_left(&mut self)
        requires
            old(self).wf(),
        ensures
            final(self).wf(),
            final(self).chars@ == old(self).chars@,
            final(self).cursor == if old(self).cursor > 0 {
                (old(self).cursor - 1) as usize
            } else {
                0usize
            },
    {
        if self.cursor > 0 {
            self.cursor = self.cursor - 1;
        }
    }

    /// Moves the cursor one character right; at the end it stays put.
    pub fn move_right(&mut self)
        requires
            old(self).wf(),
        ensures
            final(self).wf(),
            final(self).chars@ == old(self).chars@,
            final(self).cursor == if old(self).cursor < old(self).chars@.len() {
                (old(self).cursor + 1) as usize
            } else {
                old(self).cursor
            },
    {
        if self.cursor < self.chars.len() {
            self.cursor = self.cursor + 1;
        }
    }

    /// Inserts `c` at the cursor and leaves the cursor just after it.
    pub fn insert_char(&mut self, c: char)
        requires
            old(self).wf(),
        ensures
            final(self).wf(),
            final(self).chars@ == old(self).chars@.insert(old(self).cursor as int, c),
            final(self).cursor == old(self).cursor + 1,
    {
        self.chars.insert(self.cursor, c);
        let end = self.chars.len();
        self.cursor = if self.cursor < end {
            self.cursor + 1
        } else {
            end
        };
    }

    /// Removes the character just before the cursor and moves the cursor
    /// onto its place.  At the start of the text this is a no-op; the
    /// result says whether a character was removed.
    pub fn delete_before_cursor(&mut self) -> (removed: bool)
        requires
            old(self).wf(),
        ensures
            final(self).wf(),
            removed == (old(self).cursor > 0),
            old(self).cursor > 0 ==> final(self).chars@ == old(self).chars@.remove(
                old(self).cursor - 1,
            ) && final(self).cursor == old(self).cursor - 1,
            old(self).cursor == 0 ==> *final(self) == *old(self),
    {
        if self.cursor > 0 {
            self.chars.remove(self.cursor - 1);
            self.cursor = self.cursor - 1;
            true
        } else {
            false
        }
    }
}

} // verus!
