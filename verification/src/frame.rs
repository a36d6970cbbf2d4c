//! Frame height accounting for flicker-free redrawing.
//!
//! The renderer must clear exactly the rows the previous frame occupied:
//! clearing fewer leaves artifacts, clearing more eats unrelated terminal
//! content above the prompt.  A frame's height is one row per written
//! line, except that a candidate line wider than the terminal wraps and
//! occupies `ceil((width + prefix) / columns)` rows; the prompt's rows are
//! tracked apart so the prompt can be kept while the body is cleared.

use vstd::prelude::*;

verus! {

/// Width of the selection marker written in front of every candidate row.
pub const PREFIX_WIDTH: usize = 2;

/// Rows a candidate of display width `width` occupies on a terminal
/// `cols` columns wide: one row, unless it is wider than the terminal and
/// wraps.
pub open spec fn spec_item_rows(width: int, cols: int) -> int
    recommends
        cols >= 1,
{
    if width > cols {
        (width + PREFIX_WIDTH + cols - 1) / cols
    } else {
        1
    }
}

/// Rows beyond the first that the candidate widths in `sizes` occupy.
pub open spec fn spec_extra_rows(sizes: Seq<usize>, cols: int) -> int
    decreases sizes.len(),
{
    if sizes.len() == 0 {
        0
    } else {
        spec_extra_rows(sizes.drop_last(), cols) + (spec_item_rows(sizes.last() as int, cols) - 1)
    }
}

proof fn lemma_extra_rows_bounds(sizes: Seq<usize>, cols: int)
    requires
        cols >= 1,
    ensures
        0 <= spec_extra_rows(sizes, cols),
    decreases sizes.len(),
{
    if sizes.len() != 0 {
        lemma_extra_rows_bounds(sizes.drop_last(), cols);
        let w = sizes.last() as int;
        if w > cols {
            assert((w + PREFIX_WIDTH + cols - 1) / cols >= 1) by (nonlinear_arith)
                requires
                    cols >= 1,
                    w > cols,
            ;
        }
    }
}

proof fn lemma_extra_rows_step(sizes: Seq<usize>, cols: int, n: int)
    requires
        0 <= n < sizes.len(),
    ensures
        spec_extra_rows(sizes.take(n + 1), cols) == spec_extra_rows(sizes.take(n), cols) + (
        spec_item_rows(sizes[n] as int, cols) - 1),
{
    assert(sizes.take(n + 1).drop_last() =~= sizes.take(n));
    assert(sizes.take(n + 1).last() == sizes[n]);
}

/// Rows beyond one-per-item that the previous frame's candidates, of the
/// given display widths, occupied on a terminal `cols` columns wide.
/// Saturates at `usize::MAX`, which no real frame reaches.
pub fn extra_rows(sizes: &Vec<usize>, cols: usize) -> (r: usize)
    requires
        cols >= 1,
    ensures
        r as int == vstd::math::min(spec_extra_rows(sizes@, cols as int), usize::MAX as int),
{
    let n: usize = sizes.len();
    let mut total: u128 = 0;
    let mut i: usize = 0;
    proof {
        assert(sizes@.take(0) =~= Seq::<usize>::empty());
    }
    while i < n
        invariant
            cols >= 1,
            sizes@.len() == n,
            i <= n,
            total as int == spec_extra_rows(sizes@.take(i as int), cols as int),
            total as int <= (i as int) * 0x1_0000_0000_0000_0000,
        decreases n - i,
    {
        let w = sizes[i];
        let add: u128 = if w > cols {
            let rows = (w as u128 + PREFIX_WIDTH as u128 + cols as u128 - 1) / (cols as u128);
            proof {
                assert(rows == (w + PREFIX_WIDTH + cols - 1) as int / cols as int);
                assert(rows >= 1) by (nonlinear_arith)
                    requires
                        rows == (w + PREFIX_WIDTH + cols - 1) as int / cols as int,
                        cols >= 1,
                        w > cols,
                ;
                assert(rows as int <= w + PREFIX_WIDTH) by (nonlinear_arith)
                    requires
                        rows == (w + PREFIX_WIDTH + cols - 1) as int / cols as int,
                        cols >= 1,
                        w > cols,
                ;
            }
            rows - 1
        } else {
            0
        };
        proof {
            lemma_extra_rows_step(sizes@, cols as int, i as int);
            assert(add as int <= 0x1_0000_0000_0000_0000);
        }
        total = total + add;
        i = i + 1;
    }
    proof {
        assert(sizes@.take(sizes@.len() as int) =~= sizes@);
        lemma_extra_rows_bounds(sizes@, cols as int);
    }
    if total > usize::MAX as u128 {
        usize::MAX
    } else {
        total as usize
    }
}

/// Height bookkeeping for one frame, mirroring what was written since the
/// last clear.  `height` counts body rows; `prompt_height` counts the
/// prompt's rows, kept apart so the prompt can survive a body clear.
pub struct Frame {
    /// Rows of the body written since the last clear.
    pub height: usize,
    /// Rows of the prompt written since the last clear.
    pub prompt_height: usize,
    /// Whether a written prompt moves the accumulated rows into
    /// `prompt_height`; fixed at construction.
    pub prompts_reset_height: bool,
}

impl Frame {
    /// A frame with nothing drawn yet.
    pub fn new() -> (r: Frame)
        ensures
            r.height == 0,
            r.prompt_height == 0,
            r.prompts_reset_height,
    {
        Frame { height: 0, prompt_height: 0, prompts_reset_height: true }
    }

    /// Records one extra row written outside the usual helpers.
    pub fn add_line(&mut self)
        requires
            old(self).height < usize::MAX,
        ensures
            *final(self) == (Frame { height: (old(self).height + 1) as usize, ..*old(self) }),
    {
        self.height = self.height + 1;
    }

    /// Records a write without a trailing line break: only its embedded
    /// line breaks add rows.
    pub fn record_str(&mut self, newlines: usize)
        requires
            old(self).height + newlines <= usize::MAX,
        ensures
            *final(self) == (Frame { height: (old(self).height + newlines) as usize, ..*old(self) }),
    {
        self.height = self.height + newlines;
    }

    /// Records a written line: its embedded line breaks plus the final
    /// one.
    pub fn record_line(&mut self, newlines: usize)
        requires
            old(self).height + newlines + 1 <= usize::MAX,
        ensures
            *final(self) == (Frame {
                height: (old(self).height + newlines + 1) as usize,
                ..*old(self)
            }),
    {
        self.height = self.height + newlines + 1;
    }

    /// Records a written prompt line: like [`Frame::record_line`], but the
    /// rows gathered so far then count as prompt rows, starting the body
    /// at zero again.
    pub fn record_prompt(&mut self, newlines: usize)
        requires
            old(self).height + newlines + 1 <= usize::MAX,
        ensures
            old(self).prompts_reset_height ==> *final(self) == (Frame {
                height: 0,
                prompt_height: (old(self).height + newlines + 1) as usize,
                ..*old(self)
            }),
            !old(self).prompts_reset_height ==> *final(self) == (Frame {
                height: (old(self).height + newlines + 1) as usize,
                ..*old(self)
            }),
    {
        self.height = self.height + newlines + 1;
        if self.prompts_reset_height {
            self.prompt_height = self.height;
            self.height = 0;
        }
    }

    /// Rows to clear to remove everything drawn, prompt included; the
    /// accounting then starts over.
    pub fn clear_rows(&mut self) -> (r: usize)
        requires
            old(self).height + old(self).prompt_height <= usize::MAX,
        ensures
            r == old(self).height + old(self).prompt_height,
            *final(self) == (Frame { height: 0, prompt_height: 0, ..*old(self) }),
    {
        let r = self.height + self.prompt_height;
        self.height = 0;
        self.prompt_height = 0;
        r
    }

    /// Rows to clear to remove the body drawn for the previous frame while
    /// keeping the prompt: the recorded body rows plus the wrap
    /// corrections for the candidate widths drawn in that frame.  Never
    /// more than what the accounting says that frame occupied.
    pub fn clear_preserve_prompt_rows(&mut self, sizes: &Vec<usize>, cols: usize) -> (r: usize)
        requires
            cols >= 1,
        ensures
            r as int == vstd::math::min(
                old(self).height + spec_extra_rows(sizes@, cols as int),
                usize::MAX as int,
            ),
            *final(self) == (Frame { height: 0, ..*old(self) }),
    {
        let extra = extra_rows(sizes, cols);
        proof {
            lemma_extra_rows_bounds(sizes@, cols as int);
        }
        let r = if self.height <= usize::MAX - extra {
            self.height + extra
        } else {
            usize::MAX
        };
        self.height = 0;
        r
    }
}

} // verus!
