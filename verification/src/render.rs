//! Building the lines of one frame.
//!
//! The renderer's content is assembled here: the prompt line with the
//! cursor marker inside the query text, and one line per visible
//! candidate with its selection marker.  The closed set of themes decides
//! presentation choices; colours themselves are terminal presentation and
//! stay with the terminal code.  Match highlighting relies on the fuzzy
//! matcher's character positions, which a verified function turns into a
//! mask over the candidate's characters.

use vstd::prelude::*;

verus! {

/// The closed set of rendering styles; picked once at session start.
#[derive(PartialEq, Eq, Structural, Clone, Copy, Debug)]
pub enum Theme {
    /// Styled rendering: matched characters are emphasised.
    Colorful,
    /// Plain rendering: no emphasis.
    Simple,
}

impl Theme {
    /// Whether candidate lines carry match emphasis under this theme.
    pub fn wants_highlight(&self) -> (r: bool)
        ensures
            r == (*self is Colorful),
    {
        match self {
            Theme::Colorful => true,
            Theme::Simple => false,
        }
    }
}

/// The prompt line: the prompt label, a space after it when it is not
/// empty, then the query text with the cursor marker between the
/// characters before and after the cursor.
pub open spec fn spec_prompt_line(prompt: Seq<char>, text: Seq<char>, cursor: int) -> Seq<char> {
    let head = if prompt.len() > 0 {
        prompt + seq![' ']
    } else {
        prompt
    };
    head + text.take(cursor) + seq!['|'] + text.skip(cursor)
}

/// One candidate line: the selection marker in front of the text.
pub open spec fn spec_item_line(text: Seq<char>, active: bool) -> Seq<char> {
    (if active {
        seq!['>', ' ']
    } else {
        seq![' ', ' ']
    }) + text
}

/// Appends all of `src` to `dst`.
fn push_all(dst: &mut Vec<char>, src: &Vec<char>)
    ensures
        final(dst)@ == old(dst)@ + src@,
{
    let mut i: usize = 0;
    proof {
        assert(old(dst)@ + src@.take(0) =~= old(dst)@);
    }
    while i < src.len()
        invariant
            i <= src@.len(),
            dst@ == old(dst)@ + src@.take(i as int),
        decreases src@.len() - i,
    {
        dst.push(src[i]);
        assert(dst@ =~= old(dst)@ + src@.take(i as int + 1));
        i = i + 1;
    }
    proof {
        assert(old(dst)@ + src@.take(src@.len() as int) =~= old(dst)@ + src@);
    }
}

/// Builds the prompt line for the query under edit.
pub fn format_prompt_line(prompt: &Vec<char>, text: &Vec<char>, cursor: usize) -> (r: Vec<char>)
    requires
        cursor <= text@.len(),
    ensures
        r@ == spec_prompt_line(prompt@, text@, cursor as int),
{
    let mut r: Vec<char> = Vec::new();
    let ghost head = if prompt@.len() > 0 {
        prompt@ + seq![' ']
    } else {
        prompt@
    };
    push_all(&mut r, prompt);
    if prompt.len() > 0 {
        r.push(' ');
    }
    proof {
        assert(r@ =~= head);
    }
    let mut i: usize = 0;
    while i < cursor
        invariant
            cursor <= text@.len(),
            i <= cursor,
            r@ == head + text@.take(i as int),
            head == (if prompt@.len() > 0 {
                prompt@ + seq![' ']
            } else {
                prompt@
            }),
        decreases cursor - i,
    {
        r.push(text[i]);
        assert(r@ =~= head + text@.take(i as int + 1));
        i = i + 1;
    }
    r.push('|');
    proof {
        assert(r@ =~= head + text@.take(cursor as int) + seq!['|']);
    }
    let mut j: usize = cursor;
    while j < text.len()
        invariant
            cursor <= j <= text@.len(),
            r@ == head + text@.take(cursor as int) + seq!['|'] + text@.subrange(
                cursor as int,
                j as int,
            ),
            head == (if prompt@.len() > 0 {
                prompt@ + seq![' ']
            } else {
                prompt@
            }),
        decreases text@.len() - j,
    {
        r.push(text[j]);
        assert(r@ =~= head + text@.take(cursor as int) + seq!['|'] + text@.subrange(
            cursor as int,
            j as int + 1,
        ));
        j = j + 1;
    }
    proof {
        assert(text@.subrange(cursor as int, text@.len() as int) =~= text@.skip(cursor as int));
        assert(r@ =~= spec_prompt_line(prompt@, text@, cursor as int));
    }
    r
}

/// Builds one candidate line with its selection marker.
pub fn format_item_line(text: &Vec<char>, active: bool) -> (r: Vec<char>)
    ensures
        r@ == spec_item_line(text@, active),
{
    let mut r: Vec<char> = Vec::new();
    if active {
        r.push('>');
        r.push(' ');
    } else {
        r.push(' ');
        r.push(' ');
    }
    push_all(&mut r, text);
    proof {
        assert(r@ =~= spec_item_line(text@, active));
    }
    r
}

/// The character positions of `choice` that the fuzzy matcher reports as
/// matching `pattern`, or nothing when `choice` does not fuzzily match.
pub uninterp spec fn fuzzy_indices_of(choice: Seq<char>, pattern: Seq<char>) -> Option<Seq<usize>>;

/// Relies on fuzzy_matcher's `SkimMatcherV2::fuzzy_indices` with default
/// settings: the matched character positions, computed from the choice
/// and pattern texts alone.
#[verifier::external_body]
fn fuzzy_indices(choice: &Vec<char>, pattern: &Vec<char>) -> (r: Option<Vec<usize>>)
    ensures
        r.deep_view() == fuzzy_indices_of(choice@, pattern@),
{
    let choice_text: String = choice.iter().collect();
    let pattern_text: String = pattern.iter().collect();
    let matcher = fuzzy_matcher::skim::SkimMatcherV2::default();
    fuzzy_matcher::FuzzyMatcher::fuzzy_indices(&matcher, &choice_text, &pattern_text)
        .map(|(_, indices)| indices)
}

/// Turns reported match positions into a mask over the text's characters:
/// the mask is true exactly at the reported positions, positions past the
/// end ignored.
pub fn highlight_mask(text: &Vec<char>, indices: &Vec<usize>) -> (mask: Vec<bool>)
    ensures
        mask@.len() == text@.len(),
        forall|j: int| 0 <= j < mask@.len() ==> mask@[j] == indices@.contains(j as usize),
{
    let mut mask: Vec<bool> = Vec::new();
    let mut i: usize = 0;
    while i < text.len()
        invariant
            i <= text@.len(),
            mask@.len() == i,
            forall|j: int| 0 <= j < i ==> mask@[j] == false,
        decreases text@.len() - i,
    {
        mask.push(false);
        i = i + 1;
    }
    let mut k: usize = 0;
    while k < indices.len()
        invariant
            mask@.len() == text@.len(),
            k <= indices@.len(),
            forall|j: int|
                0 <= j < mask@.len() ==> mask@[j] == (exists|m: int|
                    0 <= m < k && indices@[m] == j as usize),
        decreases indices@.len() - k,
    {
        let idx = indices[k];
        if idx < mask.len() {
            mask[idx] = true;
            proof {
                assert(indices@[k as int] == idx);
            }
        }
        proof {
            assert forall|j: int| 0 <= j < mask@.len() implies mask@[j] == (exists|m: int|
                0 <= m < k + 1 && indices@[m] == j as usize) by {
                if j == idx as int && (idx as int) < mask@.len() {
                    assert(indices@[k as int] == j as usize);
                } else if exists|m: int| 0 <= m < k + 1 && indices@[m] == j as usize {
                    let m0 = choose|m: int| 0 <= m < k + 1 && indices@[m] == j as usize;
                    if m0 < k {
                        assert(exists|m: int| 0 <= m < k && indices@[m] == j as usize);
                    } else {
                        assert(j == idx as int);
                    }
                }
            }
        }
        k = k + 1;
    }
    proof {
        assert forall|j: int| 0 <= j < mask@.len() implies mask@[j] == indices@.contains(
            j as usize,
        ) by {
            if indices@.contains(j as usize) {
                let m0 = choose|m: int| 0 <= m < indices@.len() && indices@[m] == j as usize;
                assert(exists|m: int| 0 <= m < indices@.len() && indices@[m] == j as usize);
            }
        }
    }
    mask
}

/// The emphasis mask for one candidate under the current query: true at
/// the characters the fuzzy matcher reports as matching, everywhere false
/// when it reports no match.
pub fn highlight_mask_for(text: &Vec<char>, pattern: &Vec<char>) -> (mask: Vec<bool>)
    ensures
        mask@.len() == text@.len(),
        forall|j: int|
            0 <= j < mask@.len() ==> mask@[j] == match fuzzy_indices_of(text@, pattern@) {
                Some(idx) => idx.contains(j as usize),
                None => false,
            },
{
    match fuzzy_indices(text, pattern) {
        Some(indices) => {
            let mask = highlight_mask(text, &indices);
            proof {
                assert(fuzzy_indices_of(text@, pattern@) matches Some(idx) && idx
                    =~= indices.deep_view());
                assert(forall|j: int|
                    0 <= j < indices@.len() ==> indices.deep_view()[j] == #[trigger] indices@[j]);
                assert forall|j: int| 0 <= j < mask@.len() implies mask@[j]
                    == match fuzzy_indices_of(text@, pattern@) {
                    Some(idx) => idx.contains(j as usize),
                    None => false,
                } by {
                    let idx = fuzzy_indices_of(text@, pattern@).unwrap();
                    if indices@.contains(j as usize) {
                        let m0 = choose|m: int|
                            0 <= m < indices@.len() && indices@[m] == j as usize;
                        assert(idx[m0] == j as usize);
                    }
                    if idx.contains(j as usize) {
                        let m0 = choose|m: int| 0 <= m < idx.len() && idx[m] == j as usize;
                        assert(indices@[m0] == j as usize);
                    }
                }
            }
            mask
        },
        None => {
            let mut mask: Vec<bool> = Vec::new();
            let mut i: usize = 0;
            while i < text.len()
                invariant
                    i <= text@.len(),
                    mask@.len() == i,
                    forall|j: int| 0 <= j < i ==> mask@[j] == false,
                decreases text@.len() - i,
            {
                mask.push(false);
                i = i + 1;
            }
            mask
        },
    }
}

/// The display width each candidate occupies on the terminal.
pub uninterp spec fn display_width_of(s: Seq<char>) -> usize;

/// Relies on console::measure_text_width: the displayed width of a text,
/// ANSI escape sequences ignored, computed from the text alone.
#[verifier::external_body]
fn measure_width(s: &Vec<char>) -> (r: usize)
    ensures
        r == display_width_of(s@),
{
    let text: String = s.iter().collect();
    console::measure_text_width(&text)
}

/// The display widths of the candidates, for the frame accounting's wrap
/// corrections.
pub fn display_widths(items: &Vec<Vec<char>>) -> (r: Vec<usize>)
    ensures
        r@.len() == items@.len(),
        forall|k: int| 0 <= k < r@.len() ==> r@[k] == display_width_of(items@[k]@),
{
    let mut r: Vec<usize> = Vec::new();
    let mut i: usize = 0;
    while i < items.len()
        invariant
            i <= items@.len(),
            r@.len() == i,
            forall|k: int| 0 <= k < i ==> r@[k] == display_width_of(items@[k]@),
        decreases items@.len() - i,
    {
        r.push(measure_width(&items[i]));
        i = i + 1;
    }
    r
}

} // verus!
