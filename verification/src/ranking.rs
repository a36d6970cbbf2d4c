//! The search backend's ranking policy at its boundary.
//!
//! A stored command record carries its creation timestamp, the directory it
//! ran in, and its text.  For a query, the matching records are ordered
//! descending by a combined score: a one-point boost when the record's
//! directory equals the caller's working directory, plus the backend's
//! intrinsic text-relevance points, plus a recency boost that decays
//! linearly from one to zero over one month.  Scores are compared exactly,
//! as integer numerators over the common denominator [`PERIOD_MS`]; ties
//! keep the backend's own stable record order.

use vstd::prelude::*;

use crate::matching::spec_matches;
use crate::matching::matches_query;

verus! {

/// One month in milliseconds: the window over which the recency boost
/// decays from one to zero.
pub const PERIOD_MS: u64 = 2629800000;

/// Most results a query returns.
pub const MAX_RESULTS: usize = 10;

/// One indexed command record, as the store's schema has it.
pub struct Record {
    /// Monotonic creation timestamp in milliseconds.
    pub created_ms: u64,
    /// How often the record was picked; reserved for future ranking and
    /// never read by any ranking rule.
    pub times_selected: u64,
    /// Exit code the command finished with.
    pub exit_code: u64,
    /// Working directory the command ran in.
    pub directory: Vec<char>,
    /// The command text itself.
    pub command: Vec<char>,
}

/// Mathematical image of a [`Record`].
pub struct RecordModel {
    pub created_ms: u64,
    pub times_selected: u64,
    pub exit_code: u64,
    pub directory: Seq<char>,
    pub command: Seq<char>,
}

impl View for Record {
    type V = RecordModel;

    open spec fn view(&self) -> RecordModel {
        RecordModel {
            created_ms: self.created_ms,
            times_selected: self.times_selected,
            exit_code: self.exit_code,
            directory: self.directory@,
            command: self.command@,
        }
    }
}

impl DeepView for Record {
    type V = RecordModel;

    open spec fn deep_view(&self) -> RecordModel {
        self@
    }
}

/// Age of a record in milliseconds; a record from the future counts as
/// brand new.
pub open spec fn spec_age_ms(created_ms: u64, now_ms: u64) -> int {
    if now_ms >= created_ms {
        now_ms - created_ms
    } else {
        0
    }
}

/// Numerator of the recency boost `max(0, 1 - age_ms / PERIOD_MS)`, over
/// the denominator [`PERIOD_MS`]: the boost is `1.0` at age zero and falls
/// linearly to `0` at one month.
pub open spec fn spec_recency_num(age_ms: int) -> int {
    if age_ms >= PERIOD_MS {
        0
    } else {
        PERIOD_MS - age_ms
    }
}

/// Numerator of a record's combined score over the denominator
/// [`PERIOD_MS`]: one point when its directory equals the caller's, plus
/// the backend's intrinsic text-relevance points, plus the recency boost.
pub open spec fn spec_score(dir_matches: bool, relevance: u64, age_ms: int) -> int {
    ((if dir_matches {
        1int
    } else {
        0int
    }) + relevance) * PERIOD_MS + spec_recency_num(age_ms)
}

/// Combined score of record `r` given its intrinsic relevance.
pub open spec fn spec_record_score(r: RecordModel, relevance: u64, cwd: Seq<char>, now_ms: u64) -> int {
    spec_score(r.directory == cwd, relevance, spec_age_ms(r.created_ms, now_ms))
}

/// The recency boost is one at age zero, zero from one month on, and never
/// increases with age.
pub proof fn lemma_recency_boost_decays(age1: int, age2: int)
    requires
        0 <= age1 <= age2,
    ensures
        spec_recency_num(0) == PERIOD_MS,
        age1 >= PERIOD_MS ==> spec_recency_num(age1) == 0,
        spec_recency_num(age1) >= spec_recency_num(age2),
        0 <= spec_recency_num(age1) <= PERIOD_MS,
{
}

/// With directory status and relevance equal, a younger record never scores
/// below an older one, and scores strictly above it while the younger one
/// is under a month old.
pub proof fn lemma_score_favours_recent(
    r1: RecordModel,
    r2: RecordModel,
    relevance: u64,
    cwd: Seq<char>,
    now_ms: u64,
)
    requires
        r1.created_ms <= r2.created_ms,
        (r1.directory == cwd) == (r2.directory == cwd),
    ensures
        spec_record_score(r2, relevance, cwd, now_ms) >= spec_record_score(
            r1,
            relevance,
            cwd,
            now_ms,
        ),
        spec_age_ms(r2.created_ms, now_ms) < PERIOD_MS && r1.created_ms < r2.created_ms
            && now_ms >= r2.created_ms ==> spec_record_score(r2, relevance, cwd, now_ms)
            > spec_record_score(r1, relevance, cwd, now_ms),
{
}

/// Age of a record in milliseconds at time `now_ms`.
pub fn age_ms(created_ms: u64, now_ms: u64) -> (r: u64)
    ensures
        r as int == spec_age_ms(created_ms, now_ms),
{
    if now_ms >= created_ms {
        now_ms - created_ms
    } else {
        0
    }
}

/// Numerator of the recency boost for a record of the given age; the
/// denominator is [`PERIOD_MS`].
pub fn recency_boost_num(age_ms: u64) -> (r: u64)
    ensures
        r as int == spec_recency_num(age_ms as int),
{
    if age_ms >= PERIOD_MS {
        0
    } else {
        PERIOD_MS - age_ms
    }
}

/// Whether two character sequences are equal.
pub fn chars_eq(a: &Vec<char>, b: &Vec<char>) -> (r: bool)
    ensures
        r == (a@ == b@),
{
    if a.len() != b.len() {
        return false;
    }
    let mut i: usize = 0;
    while i < a.len()
        invariant
            a@.len() == b@.len(),
            i <= a@.len(),
            forall|j: int| 0 <= j < i ==> a@[j] == b@[j],
        decreases a@.len() - i,
    {
        if a[i] != b[i] {
            return false;
        }
        i = i + 1;
    }
    proof {
        assert(a@ =~= b@);
    }
    true
}

/// Combined score of the record at index `x` of `recs`, with `rels[x]` its
/// intrinsic relevance.
pub open spec fn spec_score_at(
    recs: Seq<RecordModel>,
    rels: Seq<u64>,
    cwd: Seq<char>,
    now_ms: u64,
    x: int,
) -> int {
    spec_record_score(recs[x], rels[x], cwd, now_ms)
}

/// Strict priority order between two record indices: the higher combined
/// score first; equal scores keep the store's own stable record order.
pub open spec fn spec_ranks_before(
    recs: Seq<RecordModel>,
    rels: Seq<u64>,
    cwd: Seq<char>,
    now_ms: u64,
    a: int,
    b: int,
) -> bool {
    let sa = spec_score_at(recs, rels, cwd, now_ms, a);
    let sb = spec_score_at(recs, rels, cwd, now_ms, b);
    sa > sb || (sa == sb && a < b)
}

/// How many records match the query.
pub open spec fn spec_match_count(recs: Seq<RecordModel>, q: Seq<char>) -> int
    decreases recs.len(),
{
    if recs.len() == 0 {
        0
    } else {
        spec_match_count(recs.drop_last(), q) + if spec_matches(q, recs.last().command) {
            1int
        } else {
            0int
        }
    }
}

proof fn lemma_match_count_step(recs: Seq<RecordModel>, q: Seq<char>, n: int)
    requires
        0 <= n < recs.len(),
    ensures
        spec_match_count(recs.take(n + 1), q) == spec_match_count(recs.take(n), q) + if spec_matches(
            q,
            recs[n].command,
        ) {
            1int
        } else {
            0int
        },
{
    assert(recs.take(n + 1).drop_last() =~= recs.take(n));
    assert(recs.take(n + 1).last() == recs[n]);
}

proof fn lemma_match_count_bounds(recs: Seq<RecordModel>, q: Seq<char>)
    ensures
        0 <= spec_match_count(recs, q) <= recs.len(),
    decreases recs.len(),
{
    if recs.len() != 0 {
        lemma_match_count_bounds(recs.drop_last(), q);
    }
}

/// Numerator of the combined score of `records[i]`, over the denominator
/// [`PERIOD_MS`].
pub fn score_of(
    records: &Vec<Record>,
    relevance: &Vec<u64>,
    i: usize,
    cwd: &Vec<char>,
    now_ms: u64,
) -> (s: u128)
    requires
        records@.len() == relevance@.len(),
        i < records@.len(),
    ensures
        s as int == spec_record_score(records@[i as int]@, relevance@[i as int], cwd@, now_ms),
{
    let r = &records[i];
    let dir_bonus: u128 = if chars_eq(&r.directory, cwd) {
        1
    } else {
        0
    };
    let rel: u128 = relevance[i] as u128;
    let recency: u128 = recency_boost_num(age_ms(r.created_ms, now_ms)) as u128;
    let points: u128 = dir_bonus + rel;
    proof {
        assert(points * (PERIOD_MS as u128) <= 0x1_0000_0000_0000_0000u128 * (
        PERIOD_MS as u128)) by (nonlinear_arith)
            requires
                points <= 0x1_0000_0000_0000_0000u128,
        ;
    }
    points * (PERIOD_MS as u128) + recency
}

/// What the query returns, stated of the index sequence `idx`: every
/// entry is the position of a matching record, entries descend in priority
/// order, there are `min(MAX_RESULTS, number of matching records)` of them,
/// and every matching record left out ranks at or below all of them.
pub open spec fn spec_ranking_output(
    recs: Seq<RecordModel>,
    rels: Seq<u64>,
    q: Seq<char>,
    cwd: Seq<char>,
    now_ms: u64,
    idx: Seq<usize>,
) -> bool {
    &&& idx.len() == vstd::math::min(MAX_RESULTS as int, spec_match_count(recs, q))
    &&& forall|k: int|
        0 <= k < idx.len() ==> idx[k] < recs.len() && spec_matches(
            q,
            recs[#[trigger] idx[k] as int].command,
        )
    &&& forall|a: int, b: int|
        0 <= a < b < idx.len() ==> spec_ranks_before(
            recs,
            rels,
            cwd,
            now_ms,
            idx[a] as int,
            idx[b] as int,
        )
    &&& forall|j: int|
        0 <= j < recs.len() && spec_matches(q, recs[j].command) && (forall|k: int|
            0 <= k < idx.len() ==> idx[k] != j) ==> forall|k: int|
            0 <= k < idx.len() ==> spec_ranks_before(recs, rels, cwd, now_ms, idx[k] as int, j)
}

/// The texts at positions `idx` of `recs` are exactly `out`, in order.
pub open spec fn spec_commands_of(recs: Seq<RecordModel>, idx: Seq<usize>, out: Seq<Seq<char>>) -> bool {
    &&& out.len() == idx.len()
    &&& forall|k: int| 0 <= k < idx.len() ==> #[trigger] out[k] == recs[idx[k] as int].command
}

/// Positions, in `records`, of the records the query returns: every record
/// whose text matches the query, ordered descending by combined score with
/// ties in stable record order, cut to the best [`MAX_RESULTS`].
pub fn rank(
    records: &Vec<Record>,
    relevance: &Vec<u64>,
    query: &Vec<char>,
    cwd: &Vec<char>,
    now_ms: u64,
) -> (out: Vec<usize>)
    requires
        records@.len() == relevance@.len(),
    ensures
        spec_ranking_output(records.deep_view(), relevance@, query@, cwd@, now_ms, out@),
{
    let ghost recs = records.deep_view();
    let ghost rels = relevance@;
    let ghost q = query@;
    let n: usize = records.len();
    let mut sorted: Vec<usize> = Vec::new();
    let mut i: usize = 0;
    proof {
        assert(recs.take(0) =~= Seq::<RecordModel>::empty());
    }
    while i < n
        invariant
            records@.len() == relevance@.len(),
            records@.len() == n,
            recs == records.deep_view(),
            rels == relevance@,
            q == query@,
            i <= n,
            forall|k: int|
                0 <= k < sorted@.len() ==> sorted@[k] < i && spec_matches(
                    q,
                    recs[#[trigger] sorted@[k] as int].command,
                ),
            forall|j: int|
                0 <= j < i && spec_matches(q, recs[j].command) ==> exists|k: int|
                    0 <= k < sorted@.len() && sorted@[k] == j,
            forall|a: int, b: int|
                0 <= a < b < sorted@.len() ==> spec_ranks_before(
                    recs,
                    rels,
                    cwd@,
                    now_ms,
                    sorted@[a] as int,
                    sorted@[b] as int,
                ),
            sorted@.len() == spec_match_count(recs.take(i as int), q),
        decreases n - i,
    {
        proof {
            lemma_match_count_step(recs, q, i as int);
            assert(recs[i as int].command =~= records@[i as int].command@);
        }
        if matches_query(query, &records[i].command) {
            let s_new: u128 = score_of(records, relevance, i, cwd, now_ms);
            let mut p: usize = 0;
            while p < sorted.len() && score_of(records, relevance, sorted[p], cwd, now_ms) >= s_new
                invariant
                    records@.len() == relevance@.len(),
                    records@.len() == n,
                    recs == records.deep_view(),
                    rels == relevance@,
                    i < n,
                    p <= sorted@.len(),
                    forall|k: int| 0 <= k < sorted@.len() ==> #[trigger] sorted@[k] < n,
                    s_new as int == spec_score_at(recs, rels, cwd@, now_ms, i as int),
                    forall|k: int|
                        0 <= k < p ==> spec_score_at(
                            recs,
                            rels,
                            cwd@,
                            now_ms,
                            #[trigger] sorted@[k] as int,
                        ) >= s_new as int,
                decreases sorted@.len() - p,
            {
                p = p + 1;
            }
            let ghost before = sorted@;
            sorted.insert(p, i);
            proof {
                before.insert_ensures(p as int, i as usize);
                assert(sorted@ == before.insert(p as int, i as usize));
                assert forall|j: int|
                    0 <= j < i + 1 && spec_matches(q, recs[j].command) implies exists|k: int|
                    0 <= k < sorted@.len() && sorted@[k] == j by {
                    if j == i {
                        assert(sorted@[p as int] == i as usize);
                    } else {
                        let k0 = choose|k: int| 0 <= k < before.len() && before[k] == j;
                        if k0 < p {
                            assert(sorted@[k0] == j);
                        } else {
                            assert(sorted@[k0 + 1] == j);
                        }
                    }
                }
                assert forall|a: int, b: int|
                    0 <= a < b < sorted@.len() implies spec_ranks_before(
                    recs,
                    rels,
                    cwd@,
                    now_ms,
                    sorted@[a] as int,
                    sorted@[b] as int,
                ) by {
                    if a == p && b > p {
                        assert(sorted@[b] == before[b - 1]);
                        if b - 1 == p {
                        } else {
                            assert(spec_ranks_before(
                                recs,
                                rels,
                                cwd@,
                                now_ms,
                                before[p as int] as int,
                                before[b - 1] as int,
                            ));
                        }
                    } else if b == p && a < p {
                        assert(sorted@[a] == before[a]);
                    } else if a < p && b > p {
                        assert(sorted@[a] == before[a]);
                        assert(sorted@[b] == before[b - 1]);
                        if a == b - 1 {
                        } else {
                            assert(spec_ranks_before(
                                recs,
                                rels,
                                cwd@,
                                now_ms,
                                before[a] as int,
                                before[b - 1] as int,
                            ));
                        }
                    } else if a < p && b < p {
                        assert(sorted@[a] == before[a]);
                        assert(sorted@[b] == before[b]);
                    } else {
                        assert(sorted@[a] == before[a - 1]);
                        assert(sorted@[b] == before[b - 1]);
                    }
                }
            }
        }
        i = i + 1;
    }
    proof {
        assert(recs.take(n as int) =~= recs);
        lemma_match_count_bounds(recs, q);
    }
    let ghost full = sorted@;
    if sorted.len() > MAX_RESULTS {
        sorted.truncate(MAX_RESULTS);
        proof {
            assert(sorted@ =~= full.subrange(0, MAX_RESULTS as int));
        }
    }
    proof {
        assert forall|j: int|
            0 <= j < recs.len() && spec_matches(q, recs[j].command) && (forall|k: int|
                0 <= k < sorted@.len() ==> sorted@[k] != j) implies forall|k: int|
            0 <= k < sorted@.len() ==> spec_ranks_before(
                recs,
                rels,
                cwd@,
                now_ms,
                sorted@[k] as int,
                j,
            ) by {
            assert(forall|m: int| 0 <= m < sorted@.len() ==> sorted@[m] == full[m]);
            assert(exists|k: int| 0 <= k < full.len() && full[k] == j);
            let k0 = choose|k: int| 0 <= k < full.len() && full[k] == j;
            assert(k0 >= sorted@.len());
            assert forall|k: int| 0 <= k < sorted@.len() implies spec_ranks_before(
                recs,
                rels,
                cwd@,
                now_ms,
                sorted@[k] as int,
                j,
            ) by {
                assert(spec_ranks_before(recs, rels, cwd@, now_ms, full[k] as int, full[k0] as int));
            }
        }
    }
    sorted
}

/// The texts of the records the query returns, in rank order: the verified
/// image of the backend's `query(text, cwd)` contract.
pub fn rank_commands(
    records: &Vec<Record>,
    relevance: &Vec<u64>,
    query: &Vec<char>,
    cwd: &Vec<char>,
    now_ms: u64,
) -> (out: Vec<Vec<char>>)
    requires
        records@.len() == relevance@.len(),
    ensures
        exists|idx: Seq<usize>|
            {
                &&& #[trigger] spec_ranking_output(
                    records.deep_view(),
                    relevance@,
                    query@,
                    cwd@,
                    now_ms,
                    idx,
                )
                &&& spec_commands_of(records.deep_view(), idx, out.deep_view())
            },
{
    let picks = rank(records, relevance, query, cwd, now_ms);
    let mut out: Vec<Vec<char>> = Vec::new();
    let mut k: usize = 0;
    while k < picks.len()
        invariant
            records@.len() == relevance@.len(),
            k <= picks@.len(),
            out@.len() == k,
            forall|j: int| 0 <= j < picks@.len() ==> #[trigger] picks@[j] < records@.len(),
            forall|j: int|
                0 <= j < k ==> #[trigger] out@[j]@ == records.deep_view()[picks@[j] as int].command,
        decreases picks@.len() - k,
    {
        let text = clone_chars(&records[picks[k]].command);
        out.push(text);
        k = k + 1;
    }
    proof {
        assert(out.deep_view().len() == out@.len());
        assert forall|j: int| 0 <= j < out@.len() implies #[trigger] out.deep_view()[j]
            == records.deep_view()[picks@[j] as int].command by {
            assert(out.deep_view()[j] =~= out@[j]@);
        }
        assert(spec_commands_of(records.deep_view(), picks@, out.deep_view()));
    }
    out
}

/// Of two stored records with equal text relevance and the same standing
/// toward the caller's directory, the younger one is returned first,
/// provided it is under a month old (at a month or more, both recency
/// boosts have decayed to zero and only the store's stable order decides).
pub proof fn lemma_newer_record_ranks_first(
    r1: RecordModel,
    r2: RecordModel,
    rel: u64,
    q: Seq<char>,
    cwd: Seq<char>,
    now_ms: u64,
    idx: Seq<usize>,
)
    requires
        spec_matches(q, r1.command),
        spec_matches(q, r2.command),
        (r1.directory == cwd) == (r2.directory == cwd),
        r1.created_ms < r2.created_ms <= now_ms,
        now_ms - r2.created_ms < PERIOD_MS,
        spec_ranking_output(seq![r1, r2], seq![rel, rel], q, cwd, now_ms, idx),
    ensures
        idx =~= seq![1usize, 0usize],
{
    let recs = seq![r1, r2];
    let rels = seq![rel, rel];
    assert(spec_match_count(Seq::<RecordModel>::empty(), q) == 0);
    assert(seq![r1].drop_last() =~= Seq::<RecordModel>::empty());
    assert(seq![r1].last() == r1);
    assert(spec_match_count(seq![r1], q) == 1);
    assert(recs.drop_last() =~= seq![r1]);
    assert(recs.last() == r2);
    assert(spec_match_count(recs, q) == spec_match_count(recs.drop_last(), q) + 1);
    assert(spec_match_count(recs, q) == 2);
    assert(idx.len() == 2);
    lemma_score_favours_recent(r1, r2, rel, cwd, now_ms);
    assert(spec_score_at(recs, rels, cwd, now_ms, 1) > spec_score_at(recs, rels, cwd, now_ms, 0));
    assert(spec_ranks_before(recs, rels, cwd, now_ms, idx[0] as int, idx[1] as int));
    assert(idx[0] < 2 && idx[1] < 2);
    assert(!spec_ranks_before(recs, rels, cwd, now_ms, 0, 1));
    assert(idx[0] == 1usize && idx[1] == 0usize);
}

/// A copy of a character sequence, equal to the one given.
pub fn clone_chars(v: &Vec<char>) -> (r: Vec<char>)
    ensures
        r@ == v@,
{
    let mut r: Vec<char> = Vec::new();
    let mut i: usize = 0;
    while i < v.len()
        invariant
            i <= v@.len(),
            r@ =~= v@.subrange(0, i as int),
        decreases v@.len() - i,
    {
        r.push(v[i]);
        assert(r@ =~= v@.subrange(0, i as int + 1));
        i = i + 1;
    }
    proof {
        assert(v@.subrange(0, v@.len() as int) =~= v@);
    }
    r
}

} // verus!
