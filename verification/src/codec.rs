//! Shared codec machinery: sentinel-terminated score lists inside a
//! cell row, and sums and maxima over score lists.
//!
//! A variable-length score list is laid out as one cell per score
//! followed by a sentinel cell (an in-band marker such as `reportEnd`
//! that is never a valid score).

use vstd::prelude::*;

use crate::score::{spec_parse_score, spec_render_score, lemma_score_round_trip, parse_score,
    render_score};

verus! {

/// Outcome of scanning a sentinel-terminated score list: the scores
/// and the position after the sentinel, a cell that is neither score
/// nor sentinel, or a missing sentinel.
pub enum ScanOut {
    Found { scores: Seq<u64>, next: int },
    BadCell,
    NoEnd,
}

/// Scan of `cells[i..]`: scores are collected until the sentinel cell.
pub open spec fn spec_scan(cells: Seq<Seq<char>>, i: int, sent: Seq<char>) -> ScanOut
    decreases cells.len() - i,
    when 0 <= i <= cells.len()
{
    if i >= cells.len() {
        ScanOut::NoEnd
    } else if cells[i] == sent {
        ScanOut::Found { scores: Seq::empty(), next: i + 1 }
    } else {
        match spec_parse_score(cells[i]) {
            None => ScanOut::BadCell,
            Some(v) => match spec_scan(cells, i + 1, sent) {
                ScanOut::Found { scores, next } => ScanOut::Found {
                    scores: seq![v] + scores,
                    next,
                },
                out => out,
            },
        }
    }
}

/// The cell row of a score list: each score rendered, then the
/// sentinel.
pub open spec fn spec_score_cells(scores: Seq<u64>) -> Seq<Seq<char>> {
    scores.map_values(|v: u64| spec_render_score(v))
}

/// Scanning a rendered score list finds exactly those scores.
pub proof fn lemma_scan_encoded(cells: Seq<Seq<char>>, i: int, scores: Seq<u64>, sent: Seq<char>)
    requires
        spec_parse_score(sent) is None,
        0 <= i,
        i + scores.len() < cells.len(),
        forall|k: int| 0 <= k < scores.len() ==> cells[i + k] == spec_render_score(#[trigger] scores[k]),
        cells[i + scores.len()] == sent,
    ensures
        spec_scan(cells, i, sent) == (ScanOut::Found { scores, next: i + scores.len() + 1 }),
    decreases scores.len(),
{
    if scores.len() == 0 {
        assert(cells[i] == sent);
        assert(spec_scan(cells, i, sent) == (ScanOut::Found {
            scores: Seq::<u64>::empty(),
            next: i + 1,
        }));
        assert(Seq::<u64>::empty() =~= scores);
    } else {
        assert(cells[i] == spec_render_score(scores[0]));
        lemma_score_round_trip(scores[0]);
        assert(cells[i] != sent);
        let tail = scores.subrange(1, scores.len() as int);
        assert forall|k: int| 0 <= k < tail.len() implies cells[i + 1 + k] == spec_render_score(
            #[trigger] tail[k],
        ) by {
            assert(tail[k] == scores[k + 1]);
        }
        assert(cells[i + 1 + tail.len()] == sent);
        lemma_scan_encoded(cells, i + 1, tail, sent);
        assert(seq![scores[0]] + tail =~= scores);
    }
}

/// Whether two string slices hold the same characters.
pub fn str_eq(a: &str, b: &str) -> (r: bool)
    ensures
        r == (a@ == b@),
{
    let na = a.unicode_len();
    let nb = b.unicode_len();
    if na != nb {
        return false;
    }
    let mut i: usize = 0;
    while i < na
        invariant
            i <= na,
            na == a@.len(),
            na == b@.len(),
            forall|j: int| 0 <= j < i ==> a@[j] == b@[j],
        decreases na - i,
    {
        if !(a.get_char(i) == b.get_char(i)) {
            return false;
        }
        i = i + 1;
    }
    proof {
        assert(a@ =~= b@);
    }
    true
}

/// Failure of a list scan: a cell that is neither a score nor the
/// sentinel, or a row that ends before the sentinel.
pub enum ScanError {
    BadCell,
    NoEnd,
}

/// What a scan outcome becomes once already-collected scores are put
/// in front of it.
pub open spec fn prepend_scan(pre: Seq<u64>, o: ScanOut) -> ScanOut {
    match o {
        ScanOut::Found { scores, next } => ScanOut::Found { scores: pre + scores, next },
        out => out,
    }
}

/// Collects the score list that starts at `start` and ends at the
/// sentinel cell.
pub fn scan_scores(cells: &Vec<String>, start: usize, sent: &str) -> (r: Result<
    (Vec<u64>, usize),
    ScanError,
>)
    requires
        start <= cells@.len(),
    ensures
        match r {
            Ok(p) => {
                &&& spec_scan(cells.deep_view(), start as int, sent@) == (ScanOut::Found {
                    scores: p.0@,
                    next: p.1 as int,
                })
                &&& start < p.1 <= cells@.len()
            },
            Err(e) => match e {
                ScanError::BadCell => spec_scan(cells.deep_view(), start as int, sent@)
                    is BadCell,
                ScanError::NoEnd => spec_scan(cells.deep_view(), start as int, sent@) is NoEnd,
            },
        },
{
    let ghost dc = cells.deep_view();
    let mut acc: Vec<u64> = Vec::new();
    let mut i = start;
    while i < cells.len()
        invariant
            start <= i <= cells@.len(),
            dc == cells.deep_view(),
            spec_scan(dc, start as int, sent@) == prepend_scan(
                acc@,
                spec_scan(dc, i as int, sent@),
            ),
        decreases cells@.len() - i,
    {
        proof {
            assert(dc[i as int] == cells@[i as int]@);
        }
        if str_eq(cells[i].as_str(), sent) {
            proof {
                assert(spec_scan(dc, i as int, sent@) == (ScanOut::Found {
                    scores: Seq::<u64>::empty(),
                    next: i + 1,
                }));
                assert(acc@ + Seq::<u64>::empty() =~= acc@);
            }
            return Ok((acc, i + 1));
        }
        match parse_score(cells[i].as_str()) {
            Some(v) => {
                let ghost before = acc@;
                acc.push(v);
                proof {
                    match spec_scan(dc, i + 1, sent@) {
                        ScanOut::Found { scores, next } => {
                            assert(before + (seq![v] + scores) =~= acc@ + scores);
                        },
                        _ => {},
                    }
                }
                i = i + 1;
            },
            None => {
                return Err(ScanError::BadCell);
            },
        }
    }
    Err(ScanError::NoEnd)
}

/// Appends a score list to a cell row: each score rendered, then the
/// sentinel.
pub fn push_score_cells(out: &mut Vec<String>, scores: &Vec<u64>, sent: &str)
    ensures
        final(out).deep_view() == old(out).deep_view() + spec_score_cells(scores@) + seq![sent@],
{
    let ghost base = out.deep_view();
    let mut i: usize = 0;
    while i < scores.len()
        invariant
            i <= scores@.len(),
            out.deep_view() == base + spec_score_cells(scores@).subrange(0, i as int),
        decreases scores@.len() - i,
    {
        let ghost before = out.deep_view();
        out.push(render_score(scores[i]));
        proof {
            assert(spec_score_cells(scores@)[i as int] == spec_render_score(scores@[i as int]));
            assert(out.deep_view() =~= before.push(spec_render_score(scores@[i as int])));
            assert(out.deep_view() =~= base + spec_score_cells(scores@).subrange(0, i + 1));
        }
        i = i + 1;
    }
    let ghost before = out.deep_view();
    out.push(String::from_str(sent));
    proof {
        assert(spec_score_cells(scores@).subrange(0, scores@.len() as int) =~= spec_score_cells(
            scores@,
        ));
        assert(out.deep_view() =~= before.push(sent@));
        assert(out.deep_view() =~= base + spec_score_cells(scores@) + seq![sent@]);
    }
}

/// Largest raw input the grading formulas accept: every raw score
/// sum must stay below it so that no formula overflows.
pub const RAW_BOUND: u64 = 1000000000000000;

/// Three zero scores, the default length of every score list.
pub fn zero_scores3() -> (r: Vec<u64>)
    ensures
        r@ == seq![0u64, 0u64, 0u64],
{
    let mut r: Vec<u64> = Vec::new();
    r.push(0);
    r.push(0);
    r.push(0);
    proof {
        assert(r@ =~= seq![0u64, 0u64, 0u64]);
    }
    r
}

/// Sum of a score list.
pub open spec fn spec_sum(s: Seq<u64>) -> int
    decreases s.len(),
{
    if s.len() == 0 {
        0
    } else {
        spec_sum(s.drop_last()) + s.last()
    }
}

/// Largest entry of a score list outside position `skip`, or zero
/// when every entry is skipped or below zero entries exist.
pub open spec fn spec_max_except(s: Seq<u64>, skip: int) -> int
    decreases s.len(),
{
    if s.len() == 0 {
        0
    } else {
        let m = spec_max_except(s.drop_last(), skip);
        if s.len() - 1 != skip && s.last() > m {
            s.last() as int
        } else {
            m
        }
    }
}

/// Sum of the entries of a score list outside position `skip`.
pub open spec fn spec_sum_except(s: Seq<u64>, skip: int) -> int
    decreases s.len(),
{
    if s.len() == 0 {
        0
    } else {
        let m = spec_sum_except(s.drop_last(), skip);
        if s.len() - 1 != skip {
            m + s.last()
        } else {
            m
        }
    }
}

pub proof fn lemma_sum_snoc(s: Seq<u64>, i: int)
    requires
        0 <= i < s.len(),
    ensures
        spec_sum(s.subrange(0, i + 1)) == spec_sum(s.subrange(0, i)) + s[i],
{
    let t = s.subrange(0, i + 1);
    assert(t.drop_last() =~= s.subrange(0, i));
    assert(t.last() == s[i]);
}

pub proof fn lemma_sum_prefix_le(s: Seq<u64>, i: int)
    requires
        0 <= i <= s.len(),
    ensures
        0 <= spec_sum(s.subrange(0, i)) <= spec_sum(s),
    decreases s.len() - i,
{
    if i == s.len() {
        assert(s.subrange(0, i) =~= s);
        lemma_sum_nonneg(s);
    } else {
        lemma_sum_snoc(s, i);
        lemma_sum_prefix_le(s, i + 1);
        lemma_sum_nonneg(s.subrange(0, i));
    }
}

pub proof fn lemma_sum_nonneg(s: Seq<u64>)
    ensures
        spec_sum(s) >= 0,
    decreases s.len(),
{
    if s.len() > 0 {
        lemma_sum_nonneg(s.drop_last());
    }
}

/// The largest remaining entry is at most the sum of the remaining
/// entries, and both are non-negative.
pub proof fn lemma_max_le_sum_except(s: Seq<u64>, skip: int)
    ensures
        0 <= spec_max_except(s, skip) <= spec_sum_except(s, skip),
    decreases s.len(),
{
    if s.len() > 0 {
        lemma_max_le_sum_except(s.drop_last(), skip);
    }
}

/// Leaving an entry out never raises the sum.
pub proof fn lemma_sum_except_le_sum(s: Seq<u64>, skip: int)
    ensures
        0 <= spec_sum_except(s, skip) <= spec_sum(s),
    decreases s.len(),
{
    if s.len() > 0 {
        lemma_sum_except_le_sum(s.drop_last(), skip);
    }
}

pub proof fn lemma_except_snoc(s: Seq<u64>, skip: int, i: int)
    requires
        0 <= i < s.len(),
    ensures
        spec_sum_except(s.subrange(0, i + 1), skip) == if i != skip {
            spec_sum_except(s.subrange(0, i), skip) + s[i]
        } else {
            spec_sum_except(s.subrange(0, i), skip)
        },
        spec_max_except(s.subrange(0, i + 1), skip) == if i != skip && s[i]
            > spec_max_except(s.subrange(0, i), skip) {
            s[i] as int
        } else {
            spec_max_except(s.subrange(0, i), skip)
        },
{
    let t = s.subrange(0, i + 1);
    assert(t.drop_last() =~= s.subrange(0, i));
    assert(t.last() == s[i]);
}

/// No entry exceeds the sum of its list.
pub proof fn lemma_elem_le_sum(s: Seq<u64>, k: int)
    requires
        0 <= k < s.len(),
    ensures
        s[k] <= spec_sum(s),
{
    lemma_sum_snoc(s, k);
    lemma_sum_nonneg(s.subrange(0, k));
    lemma_sum_prefix_le(s, k + 1);
}

/// Sum of a score list, `None` when it does not fit in a `u64`.
pub fn sum_scores_checked(s: &Vec<u64>) -> (r: Option<u64>)
    ensures
        match r {
            Some(v) => v == spec_sum(s@),
            None => spec_sum(s@) > u64::MAX,
        },
{
    let mut total: u64 = 0;
    let mut i: usize = 0;
    while i < s.len()
        invariant
            i <= s@.len(),
            total == spec_sum(s@.subrange(0, i as int)),
        decreases s@.len() - i,
    {
        proof {
            lemma_sum_snoc(s@, i as int);
        }
        total = match total.checked_add(s[i]) {
            Some(t) => t,
            None => {
                proof {
                    lemma_sum_prefix_le(s@, i + 1);
                }
                return None;
            },
        };
        i = i + 1;
    }
    proof {
        assert(s@.subrange(0, i as int) =~= s@);
    }
    Some(total)
}

/// Sum of a score list, as run by the caller-facing formulas.
pub fn sum_scores(s: &Vec<u64>, bound: u64) -> (r: u64)
    requires
        spec_sum(s@) <= bound,
    ensures
        r == spec_sum(s@),
{
    let mut total: u64 = 0;
    let mut i: usize = 0;
    while i < s.len()
        invariant
            i <= s@.len(),
            total == spec_sum(s@.subrange(0, i as int)),
            spec_sum(s@) <= bound <= u64::MAX,
        decreases s@.len() - i,
    {
        proof {
            lemma_sum_snoc(s@, i as int);
            lemma_sum_prefix_le(s@, i + 1);
        }
        total = total + s[i];
        i = i + 1;
    }
    proof {
        assert(s@.subrange(0, i as int) =~= s@);
    }
    total
}

} // verus!
