//! The search backend's matching policy.
//!
//! A query is split on whitespace into tokens; a candidate text matches when
//! it contains every token, in order, as substrings that need not be
//! contiguous.  The same tokens also yield the pattern handed to the
//! backend's regex engine: `.*tok1.*tok2.*`.

use vstd::prelude::*;

verus! {

/// Whitespace for query tokenization.
pub open spec fn is_space(c: char) -> bool {
    c == ' ' || c == '\t' || c == '\n' || c == '\r'
}

/// Length of the leading run of non-whitespace characters.
pub open spec fn run_len(q: Seq<char>) -> nat
    decreases q.len(),
{
    if q.len() == 0 || is_space(q[0]) {
        0
    } else {
        1 + run_len(q.drop_first())
    }
}

pub proof fn lemma_run_len_le(q: Seq<char>)
    ensures
        run_len(q) <= q.len(),
    decreases q.len(),
{
    if q.len() != 0 && !is_space(q[0]) {
        lemma_run_len_le(q.drop_first());
    }
}

/// The query tokens: the maximal runs of non-whitespace characters, in order.
pub open spec fn spec_tokens(q: Seq<char>) -> Seq<Seq<char>>
    decreases q.len(),
    via spec_tokens_decreases
{
    if q.len() == 0 {
        seq![]
    } else if is_space(q[0]) {
        spec_tokens(q.drop_first())
    } else {
        seq![q.take(run_len(q) as int)] + spec_tokens(q.skip(run_len(q) as int))
    }
}

#[via_fn]
proof fn spec_tokens_decreases(q: Seq<char>) {
    if q.len() != 0 && !is_space(q[0]) {
        lemma_run_len_le(q);
    }
}

/// The token `s` occurs in `t` starting at position `i`.
pub open spec fn is_sub_at(t: Seq<char>, s: Seq<char>, i: int) -> bool {
    &&& 0 <= i
    &&& i + s.len() <= t.len()
    &&& t.subrange(i, i + s.len() as int) == s
}

/// The token `s` occurs somewhere in `t` at or after position `from`.
pub open spec fn contains_from(t: Seq<char>, s: Seq<char>, from: int) -> bool {
    exists|i: int| from <= i && is_sub_at(t, s, i)
}

/// The tokens occur in `t`, in order, each one beginning no earlier than the
/// end of the one before it, the first no earlier than `from`.
pub open spec fn tokens_match_from(toks: Seq<Seq<char>>, t: Seq<char>, from: int) -> bool
    decreases toks.len(),
{
    if toks.len() == 0 {
        true
    } else {
        exists|i: int|
            from <= i && #[trigger] is_sub_at(t, toks[0], i) && tokens_match_from(
                toks.drop_first(),
                t,
                i + toks[0].len(),
            )
    }
}

/// The matching policy: `t` matches query `q` when `t` contains all of `q`'s
/// tokens in order as substrings, not necessarily contiguous.
pub open spec fn spec_matches(q: Seq<char>, t: Seq<char>) -> bool {
    tokens_match_from(spec_tokens(q), t, 0)
}

/// The empty query has no tokens, so every text matches it: an empty
/// search shows the whole ranked history.
pub proof fn lemma_empty_query_matches_all(q: Seq<char>, t: Seq<char>)
    requires
        forall|k: int| 0 <= k < q.len() ==> is_space(#[trigger] q[k]),
    ensures
        spec_matches(q, t),
    decreases q.len(),
{
    if q.len() == 0 {
    } else {
        assert(is_space(q[0]));
        assert(forall|k: int|
            0 <= k < q.drop_first().len() ==> is_space(#[trigger] q.drop_first()[k]));
        lemma_empty_query_matches_all(q.drop_first(), t);
    }
}

/// Matching from a later starting point is never easier.
pub proof fn lemma_match_from_weaken(toks: Seq<Seq<char>>, t: Seq<char>, from1: int, from2: int)
    requires
        from1 <= from2,
        tokens_match_from(toks, t, from2),
    ensures
        tokens_match_from(toks, t, from1),
    decreases toks.len(),
{
    if toks.len() != 0 {
        let i = choose|i: int|
            from2 <= i && #[trigger] is_sub_at(t, toks[0], i) && tokens_match_from(
                toks.drop_first(),
                t,
                i + toks[0].len(),
            );
        assert(from1 <= i && is_sub_at(t, toks[0], i) && tokens_match_from(
            toks.drop_first(),
            t,
            i + toks[0].len(),
        ));
    }
}

/// `run_len` is the distance to the first whitespace character.
proof fn lemma_run_len_is_first_space(s: Seq<char>, n: int)
    requires
        0 <= n <= s.len(),
        forall|k: int| 0 <= k < n ==> !is_space(#[trigger] s[k]),
        n == s.len() || is_space(s[n]),
    ensures
        run_len(s) == n,
    decreases s.len(),
{
    if n == 0 {
    } else {
        assert(!is_space(s[0]));
        lemma_run_len_is_first_space(s.drop_first(), n - 1);
    }
}

/// Splits a query into its whitespace-separated tokens.
pub fn tokens(q: &Vec<char>) -> (r: Vec<Vec<char>>)
    ensures
        r.deep_view() == spec_tokens(q@),
{
    let mut r: Vec<Vec<char>> = Vec::new();
    let mut pos: usize = 0;
    proof {
        assert(q@.skip(0) =~= q@);
        assert(r.deep_view() + spec_tokens(q@) =~= spec_tokens(q@));
    }
    while pos < q.len()
        invariant
            pos <= q.len(),
            r.deep_view() + spec_tokens(q@.skip(pos as int)) == spec_tokens(q@),
        decreases q.len() - pos,
    {
        if is_space_exec(q[pos]) {
            proof {
                assert(q@.skip(pos as int)[0] == q@[pos as int]);
                assert(q@.skip(pos as int).drop_first() =~= q@.skip(pos as int + 1));
            }
            pos = pos + 1;
        } else {
            let start: usize = pos;
            let ghost rest = q@.skip(start as int);
            pos = pos + 1;
            while pos < q.len() && !is_space_exec(q[pos])
                invariant
                    start < pos <= q.len(),
                    forall|k: int| start <= k < pos ==> !is_space(#[trigger] q@[k]),
                decreases q.len() - pos,
            {
                pos = pos + 1;
            }
            let mut tok: Vec<char> = Vec::new();
            let mut k: usize = start;
            while k < pos
                invariant
                    start <= k <= pos <= q.len(),
                    tok@ =~= q@.subrange(start as int, k as int),
                decreases pos - k,
            {
                tok.push(q[k]);
                assert(tok@ =~= q@.subrange(start as int, k as int + 1));
                k = k + 1;
            }
            let ghost prev = r.deep_view();
            r.push(tok);
            proof {
                assert(forall|j: int|
                    0 <= j < rest.len() ==> rest[j] == q@[start as int + j]);
                if pos < q.len() {
                    assert(is_space(rest[pos - start as int]));
                }
                lemma_run_len_is_first_space(rest, pos - start as int);
                assert(rest.take(pos - start as int) =~= q@.subrange(start as int, pos as int));
                assert(rest.skip(pos - start as int) =~= q@.skip(pos as int));
                assert(tok.deep_view() =~= tok@);
                assert(r.deep_view() =~= prev.push(tok@));
                assert(spec_tokens(rest) == seq![tok@] + spec_tokens(q@.skip(pos as int)));
                assert(prev.push(tok@) + spec_tokens(q@.skip(pos as int)) =~= prev + spec_tokens(
                    rest,
                ));
            }
        }
    }
    proof {
        assert(q@.skip(q@.len() as int) =~= Seq::<char>::empty());
        assert(spec_tokens(Seq::<char>::empty()) =~= Seq::<Seq<char>>::empty());
        assert(r.deep_view() + Seq::<Seq<char>>::empty() =~= r.deep_view());
    }
    r
}

/// Executable mirror of [`is_space`].
pub fn is_space_exec(c: char) -> (r: bool)
    ensures
        r == is_space(c),
{
    c == ' ' || c == '\t' || c == '\n' || c == '\r'
}

/// Leftmost occurrence of `s` in `t` at or after `from`, if any.
pub fn find_from(t: &Vec<char>, s: &Vec<char>, from: usize) -> (r: Option<usize>)
    ensures
        match r {
            Some(i) => from <= i && is_sub_at(t@, s@, i as int) && forall|j: int|
                from <= j < i ==> !is_sub_at(t@, s@, j),
            None => !contains_from(t@, s@, from as int),
        },
{
    if s.len() > t.len() {
        return None;
    }
    let last: usize = t.len() - s.len();
    let mut i: usize = from;
    while i <= last
        invariant
            s.len() <= t.len(),
            last == t.len() - s.len(),
            from <= i,
            forall|j: int| from <= j < i ==> !is_sub_at(t@, s@, j),
        decreases last + 1 - i,
    {
        let mut k: usize = 0;
        let mut hit: bool = true;
        while k < s.len()
            invariant
                i + s.len() <= t.len(),
                k <= s.len(),
                hit == (t@.subrange(i as int, i as int + k as int) =~= s@.subrange(0, k as int)),
            decreases s.len() - k,
        {
            if t[i + k] != s[k] {
                hit = false;
                proof {
                    assert(t@.subrange(i as int, i as int + k as int + 1)[k as int] != s@.subrange(
                        0,
                        k as int + 1,
                    )[k as int]);
                }
                k = s.len();
            } else {
                proof {
                    if t@.subrange(i as int, i as int + k as int) =~= s@.subrange(0, k as int) {
                        assert(t@.subrange(i as int, i as int + k as int + 1) =~= s@.subrange(
                            0,
                            k as int + 1,
                        ));
                    } else {
                        let bad = choose|b: int|
                            0 <= b < k && t@.subrange(i as int, i as int + k as int)[b]
                                != s@.subrange(0, k as int)[b];
                        assert(t@.subrange(i as int, i as int + k as int + 1)[bad] != s@.subrange(
                            0,
                            k as int + 1,
                        )[bad]);
                    }
                }
                k = k + 1;
            }
        }
        if hit {
            proof {
                assert(s@.subrange(0, s@.len() as int) =~= s@);
                assert(is_sub_at(t@, s@, i as int));
            }
            return Some(i);
        }
        proof {
            assert(!is_sub_at(t@, s@, i as int)) by {
                assert(s@.subrange(0, s@.len() as int) =~= s@);
            }
        }
        i = i + 1;
    }
    proof {
        assert(forall|j: int| is_sub_at(t@, s@, j) ==> j + s@.len() <= t@.len());
    }
    None
}

/// Whether `t` matches the query whose tokens are `toks`, scanning greedily
/// from the left.  Greedy scanning is complete: taking the leftmost
/// occurrence of each token never rules out a match that some other choice
/// of occurrences would have found.
pub fn tokens_match(toks: &Vec<Vec<char>>, t: &Vec<char>) -> (r: bool)
    ensures
        r == tokens_match_from(toks.deep_view(), t@, 0),
{
    let ghost all = toks.deep_view();
    let t_len: usize = t.len();
    let mut k: usize = 0;
    let mut pos: usize = 0;
    proof {
        assert(all.skip(0) =~= all);
    }
    while k < toks.len()
        invariant
            t@.len() == t_len,
            k <= toks@.len(),
            all == toks.deep_view(),
            tokens_match_from(all, t@, 0) == tokens_match_from(
                all.skip(k as int),
                t@,
                pos as int,
            ),
            pos <= t@.len(),
        decreases toks@.len() - k,
    {
        let ghost remaining = all.skip(k as int);
        proof {
            assert(remaining[0] == toks@[k as int].deep_view());
            assert(toks@[k as int].deep_view() =~= toks@[k as int]@);
        }
        match find_from(t, &toks[k], pos) {
            None => {
                proof {
                    assert(!tokens_match_from(remaining, t@, pos as int)) by {
                        if tokens_match_from(remaining, t@, pos as int) {
                            let i = choose|i: int|
                                pos <= i && #[trigger] is_sub_at(t@, remaining[0], i)
                                    && tokens_match_from(
                                    remaining.drop_first(),
                                    t@,
                                    i + remaining[0].len(),
                                );
                            assert(contains_from(t@, remaining[0], pos as int));
                        }
                    }
                }
                return false;
            },
            Some(i) => {
                proof {
                    assert(is_sub_at(t@, toks@[k as int]@, i as int));
                    assert(i + toks@[k as int]@.len() <= t@.len());
                }
                let next: usize = i + toks[k].len();
                proof {
                    let tok = remaining[0];
                    assert(next as int == i + tok.len());
                    assert(tokens_match_from(remaining, t@, pos as int) == tokens_match_from(
                        remaining.drop_first(),
                        t@,
                        next as int,
                    )) by {
                        if tokens_match_from(remaining.drop_first(), t@, next as int) {
                            assert(is_sub_at(t@, tok, i as int));
                            assert(tokens_match_from(remaining, t@, pos as int));
                        }
                        if tokens_match_from(remaining, t@, pos as int) {
                            let w = choose|w: int|
                                pos <= w && #[trigger] is_sub_at(t@, tok, w)
                                    && tokens_match_from(
                                    remaining.drop_first(),
                                    t@,
                                    w + tok.len(),
                                );
                            assert(i <= w);
                            lemma_match_from_weaken(
                                remaining.drop_first(),
                                t@,
                                next as int,
                                w + tok.len(),
                            );
                        }
                    }
                    assert(remaining.drop_first() =~= all.skip(k as int + 1));
                }
                pos = next;
                k = k + 1;
            },
        }
    }
    proof {
        assert(all.skip(all.len() as int) =~= Seq::<Seq<char>>::empty());
    }
    true
}

/// Whether `t` matches the query `q` under the matching policy.
pub fn matches_query(q: &Vec<char>, t: &Vec<char>) -> (r: bool)
    ensures
        r == spec_matches(q@, t@),
{
    let toks = tokens(q);
    tokens_match(&toks, t)
}

/// What follows the leading `.*` of the regex pattern: each token followed
/// by `.*`.
pub open spec fn spec_pattern_tail(toks: Seq<Seq<char>>) -> Seq<char>
    decreases toks.len(),
{
    if toks.len() == 0 {
        seq![]
    } else {
        toks[0] + seq!['.', '*'] + spec_pattern_tail(toks.drop_first())
    }
}

/// The regex pattern equivalent to the matching policy for query `q`:
/// `.*tok1.*tok2.*` and so on, one `.*` between and around the tokens.
pub open spec fn spec_pattern(q: Seq<char>) -> Seq<char> {
    seq!['.', '*'] + spec_pattern_tail(spec_tokens(q))
}

/// Builds the regex pattern handed to the search backend for query `q`.
pub fn regex_pattern(q: &Vec<char>) -> (r: Vec<char>)
    ensures
        r@ == spec_pattern(q@),
{
    let toks = tokens(q);
    let ghost all = toks.deep_view();
    let mut r: Vec<char> = Vec::new();
    r.push('.');
    r.push('*');
    proof {
        assert(all.skip(0) =~= all);
        assert(r@ =~= seq!['.', '*']);
    }
    let mut k: usize = 0;
    while k < toks.len()
        invariant
            k <= toks@.len(),
            all == toks.deep_view(),
            r@ + spec_pattern_tail(all.skip(k as int)) == spec_pattern(q@),
        decreases toks@.len() - k,
    {
        let ghost tok = all.skip(k as int)[0];
        proof {
            assert(tok =~= toks@[k as int]@);
        }
        let mut j: usize = 0;
        let ghost r_before = r@;
        while j < toks[k].len()
            invariant
                k < toks@.len(),
                j <= toks@[k as int]@.len(),
                r@ =~= r_before + toks@[k as int]@.subrange(0, j as int),
            decreases toks@[k as int]@.len() - j,
        {
            r.push(toks[k][j]);
            assert(r@ =~= r_before + toks@[k as int]@.subrange(0, j as int + 1));
            j = j + 1;
        }
        r.push('.');
        r.push('*');
        proof {
            assert(toks@[k as int]@.subrange(0, toks@[k as int]@.len() as int) =~= toks@[
                k as int
            ]@);
            assert(r@ =~= r_before + (tok + seq!['.', '*']));
            assert(all.skip(k as int).drop_first() =~= all.skip(k as int + 1));
            assert(r_before + (tok + seq!['.', '*']) + spec_pattern_tail(all.skip(k as int + 1))
                =~= r_before + spec_pattern_tail(all.skip(k as int)));
        }
        k = k + 1;
    }
    proof {
        assert(all.skip(all.len() as int) =~= Seq::<Seq<char>>::empty());
        assert(r@ + Seq::<char>::empty() =~= r@);
    }
    r
}

} // verus!
