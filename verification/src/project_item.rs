//! Project grade records: per-group scores, their codec, and the
//! formula that recomputes the derived fields.
//!
//! A project row is `group_id, total_score, presentation_score,
//! bonus_score, report_score_sum, pr_score_sum, presentation_id`,
//! then the report scores ended by `reportEnd`, then the peer-review
//! scores ended by `prEnd`.

use vstd::prelude::*;

use crate::codec::{ScanOut, ScanError, spec_scan, spec_score_cells, lemma_scan_encoded,
    scan_scores, push_score_cells, spec_sum, spec_sum_except,
    spec_max_except, lemma_sum_snoc, lemma_sum_prefix_le, lemma_sum_nonneg, lemma_except_snoc, sum_scores_checked,
    lemma_max_le_sum_except, lemma_sum_except_le_sum, lemma_elem_le_sum, sum_scores, zero_scores3,
    RAW_BOUND};
use crate::score::{spec_parse_index, spec_parse_score, spec_render_index, spec_render_score,
    lemma_index_round_trip, lemma_score_round_trip, lemma_nondigit_start_no_score, is_digit,
    parse_index, parse_score, render_index, render_score};

verus! {

#[derive(PartialEq, Debug)]
pub struct ProjectItem {
    pub group_id: usize,
    pub total_score: u64,
    pub presentation_score: u64,
    pub bonus_score: u64,
    pub report_score_sum: u64,
    pub pr_score_sum: u64,
    pub presentation_id: usize,
    pub report_score: Vec<u64>,
    pub pr_score: Vec<u64>,
}

pub struct ProjectView {
    pub group_id: usize,
    pub total_score: u64,
    pub presentation_score: u64,
    pub bonus_score: u64,
    pub report_score_sum: u64,
    pub pr_score_sum: u64,
    pub presentation_id: usize,
    pub report_score: Seq<u64>,
    pub pr_score: Seq<u64>,
}

impl View for ProjectItem {
    type V = ProjectView;

    open spec fn view(&self) -> ProjectView {
        ProjectView {
            group_id: self.group_id,
            total_score: self.total_score,
            presentation_score: self.presentation_score,
            bonus_score: self.bonus_score,
            report_score_sum: self.report_score_sum,
            pr_score_sum: self.pr_score_sum,
            presentation_id: self.presentation_id,
            report_score: self.report_score@,
            pr_score: self.pr_score@,
        }
    }
}

/// The default record: group zero, every score zero, score lists of
/// length three.
pub open spec fn spec_project_default() -> ProjectView {
    ProjectView {
        group_id: 0,
        total_score: 0,
        presentation_score: 0,
        bonus_score: 0,
        report_score_sum: 0,
        pr_score_sum: 0,
        presentation_id: 0,
        report_score: seq![0u64, 0u64, 0u64],
        pr_score: seq![0u64, 0u64, 0u64],
    }
}

/// Cell row of a project record.
pub open spec fn spec_project_to_cells(v: ProjectView) -> Seq<Seq<char>> {
    seq![
        spec_render_index(v.group_id),
        spec_render_score(v.total_score),
        spec_render_score(v.presentation_score),
        spec_render_score(v.bonus_score),
        spec_render_score(v.report_score_sum),
        spec_render_score(v.pr_score_sum),
        spec_render_index(v.presentation_id),
    ] + spec_score_cells(v.report_score) + seq!["reportEnd"@] + spec_score_cells(v.pr_score)
        + seq!["prEnd"@]
}

/// Project record read from a cell row; an error carries its message.
pub open spec fn spec_project_from_cells(cells: Seq<Seq<char>>) -> Result<ProjectView, Seq<char>> {
    if cells.len() < 8 {
        Err("Input vector is too short"@)
    } else {
        match spec_parse_index(cells[0]) {
            None => Err("invalid number"@),
            Some(group_id) => match spec_parse_score(cells[1]) {
                None => Err("invalid number"@),
                Some(total_score) => match spec_parse_score(cells[2]) {
                    None => Err("invalid number"@),
                    Some(presentation_score) => match spec_parse_score(cells[3]) {
                        None => Err("invalid number"@),
                        Some(bonus_score) => match spec_parse_score(cells[4]) {
                            None => Err("invalid number"@),
                            Some(report_score_sum) => match spec_parse_score(cells[5]) {
                                None => Err("invalid number"@),
                                Some(pr_score_sum) => match spec_parse_index(cells[6]) {
                                    None => Err("invalid number"@),
                                    Some(presentation_id) => match spec_scan(
                                        cells,
                                        7,
                                        "reportEnd"@,
                                    ) {
                                        ScanOut::BadCell => Err("invalid number"@),
                                        ScanOut::NoEnd => Err("Missing 'reportEnd' marker"@),
                                        ScanOut::Found { scores: report_score, next } => match
                                            spec_scan(cells, next, "prEnd"@) {
                                            ScanOut::BadCell => Err("invalid number"@),
                                            ScanOut::NoEnd => Err("Missing 'prEnd' marker"@),
                                            ScanOut::Found { scores: pr_score, .. } => Ok(
                                                ProjectView {
                                                    group_id,
                                                    total_score,
                                                    presentation_score,
                                                    bonus_score,
                                                    report_score_sum,
                                                    pr_score_sum,
                                                    presentation_id,
                                                    report_score,
                                                    pr_score,
                                                },
                                            ),
                                        },
                                    },
                                },
                            },
                        },
                    },
                },
            },
        }
    }
}

/// Every encoded project record decodes back to itself.
pub proof fn lemma_project_round_trip(v: ProjectView)
    ensures
        spec_project_from_cells(spec_project_to_cells(v)) == Ok::<ProjectView, Seq<char>>(v),
{
    let cells = spec_project_to_cells(v);
    let r = v.report_score.len() as int;
    let p = v.pr_score.len() as int;
    assert(cells.len() == 9 + r + p);
    lemma_index_round_trip(v.group_id);
    lemma_score_round_trip(v.total_score);
    lemma_score_round_trip(v.presentation_score);
    lemma_score_round_trip(v.bonus_score);
    lemma_score_round_trip(v.report_score_sum);
    lemma_score_round_trip(v.pr_score_sum);
    lemma_index_round_trip(v.presentation_id);
    assert(cells[0] == spec_render_index(v.group_id));
    assert(cells[6] == spec_render_index(v.presentation_id));
    reveal_strlit("reportEnd");
    reveal_strlit("prEnd");
    assert(!is_digit('r') && !is_digit('p'));
    assert("reportEnd"@[0] == 'r' && "prEnd"@[0] == 'p');
    lemma_nondigit_start_no_score("reportEnd"@);
    lemma_nondigit_start_no_score("prEnd"@);
    assert forall|k: int| 0 <= k < r implies cells[7 + k] == spec_render_score(
        #[trigger] v.report_score[k],
    ) by {
        assert(spec_score_cells(v.report_score)[k] == spec_render_score(v.report_score[k]));
    }
    assert(cells[7 + r] == "reportEnd"@);
    lemma_scan_encoded(cells, 7, v.report_score, "reportEnd"@);
    assert forall|k: int| 0 <= k < p implies cells[8 + r + k] == spec_render_score(
        #[trigger] v.pr_score[k],
    ) by {
        assert(spec_score_cells(v.pr_score)[k] == spec_render_score(v.pr_score[k]));
    }
    assert(cells[8 + r + p] == "prEnd"@);
    lemma_scan_encoded(cells, 8 + r, v.pr_score, "prEnd"@);
}

/// Whether the raw inputs are small enough for the formulas: no sum
/// of a score list, nor the presentation score, beyond `RAW_BOUND`.
pub open spec fn spec_project_fits(v: ProjectView) -> bool {
    &&& spec_sum(v.report_score) <= RAW_BOUND
    &&& spec_sum(v.pr_score) <= RAW_BOUND
    &&& v.presentation_score <= RAW_BOUND
}

/// What the presentation entry adds to the report sum: half the entry
/// that `presentation_id` selects (one-based), nothing when the
/// identifier is out of range.
pub open spec fn spec_pres_contrib(v: ProjectView) -> int {
    if 1 <= v.presentation_id <= v.report_score.len() {
        v.report_score[v.presentation_id - 1] as int / 2
    } else {
        0
    }
}

/// The record after its derived fields are recomputed: the peer-review
/// sum is a thirtieth of the list total, the presentation entry and
/// the best remaining report entry each contribute half their value,
/// the other report entries make the bonus, and the total adds the
/// three parts.
pub open spec fn spec_project_calaculate(v: ProjectView) -> ProjectView {
    let skip = v.presentation_id - 1;
    let pr_sum = spec_sum(v.pr_score) / 30;
    let mx = spec_max_except(v.report_score, skip);
    let sm = spec_sum_except(v.report_score, skip);
    let report_sum = spec_pres_contrib(v) + mx / 2;
    ProjectView {
        group_id: v.group_id,
        total_score: (report_sum + pr_sum + v.presentation_score) as u64,
        presentation_score: v.presentation_score,
        bonus_score: ((sm - mx) / 20) as u64,
        report_score_sum: report_sum as u64,
        pr_score_sum: pr_sum as u64,
        presentation_id: v.presentation_id,
        report_score: v.report_score,
        pr_score: v.pr_score,
    }
}

/// Recomputing twice gives what recomputing once gives: the formulas
/// read only raw fields, which they never change.
pub proof fn lemma_project_calaculate_idempotent(v: ProjectView)
    ensures
        spec_project_calaculate(spec_project_calaculate(v)) == spec_project_calaculate(v),
{
}

impl ProjectItem {
    /// Whether the raw inputs are small enough for `calaculate`.
    pub fn fits(&self) -> (r: bool)
        ensures
            r == spec_project_fits(self@),
    {
        let rep = match sum_scores_checked(&self.report_score) {
            Some(v) => v,
            None => {
                return false;
            },
        };
        let pr = match sum_scores_checked(&self.pr_score) {
            Some(v) => v,
            None => {
                return false;
            },
        };
        rep <= RAW_BOUND && pr <= RAW_BOUND && self.presentation_score <= RAW_BOUND
    }

    /// Recomputes the derived fields from the raw scores.
    pub fn calaculate(&mut self)
        requires
            spec_project_fits(old(self)@),
        ensures
            final(self)@ == spec_project_calaculate(old(self)@),
    {
        let ghost v = self@;
        let ghost skip = v.presentation_id - 1;
        let ghost report = v.report_score;
        let pr_total = sum_scores(&self.pr_score, RAW_BOUND);
        let pr_sum = pr_total / 30;
        let mut mx: u64 = 0;
        let mut sm: u64 = 0;
        let mut pres: u64 = 0;
        let mut i: usize = 0;
        while i < self.report_score.len()
            invariant
                i <= report.len(),
                self == old(self),
                report == self@.report_score,
                spec_sum(report) <= RAW_BOUND,
                skip == self@.presentation_id - 1,
                mx == spec_max_except(report.subrange(0, i as int), skip),
                sm == spec_sum_except(report.subrange(0, i as int), skip),
                pres == if 1 <= self@.presentation_id <= i {
                    report[self@.presentation_id - 1] / 2
                } else {
                    0
                },
            decreases report.len() - i,
        {
            let score = self.report_score[i];
            proof {
                lemma_except_snoc(report, skip, i as int);
                lemma_sum_except_le_sum(report.subrange(0, i + 1), skip);
                lemma_sum_prefix_le(report, i + 1);
            }
            if i + 1 == self.presentation_id {
                pres = score / 2;
            } else {
                if score > mx {
                    mx = score;
                }
                sm = sm + score;
            }
            i = i + 1;
        }
        proof {
            assert(report.subrange(0, report.len() as int) =~= report);
            lemma_max_le_sum_except(report, skip);
            lemma_sum_except_le_sum(report, skip);
            if 1 <= v.presentation_id <= report.len() {
                lemma_elem_le_sum(report, v.presentation_id - 1);
            }
            assert(pres == spec_pres_contrib(v));
        }
        let bonus = (sm - mx) / 20;
        let report_sum = pres + mx / 2;
        let total = report_sum + pr_sum + self.presentation_score;
        self.total_score = total;
        self.bonus_score = bonus;
        self.report_score_sum = report_sum;
        self.pr_score_sum = pr_sum;
    }

    /// The cell row of this record.
    pub fn to_vec(&self) -> (r: Vec<String>)
        ensures
            r.deep_view() == spec_project_to_cells(self@),
    {
        let mut r: Vec<String> = Vec::new();
        r.push(render_index(self.group_id));
        r.push(render_score(self.total_score));
        r.push(render_score(self.presentation_score));
        r.push(render_score(self.bonus_score));
        r.push(render_score(self.report_score_sum));
        r.push(render_score(self.pr_score_sum));
        r.push(render_index(self.presentation_id));
        proof {
            assert(r.deep_view() =~= seq![
                spec_render_index(self@.group_id),
                spec_render_score(self@.total_score),
                spec_render_score(self@.presentation_score),
                spec_render_score(self@.bonus_score),
                spec_render_score(self@.report_score_sum),
                spec_render_score(self@.pr_score_sum),
                spec_render_index(self@.presentation_id),
            ]);
        }
        let ghost head = r.deep_view();
        push_score_cells(&mut r, &self.report_score, "reportEnd");
        let ghost mid = r.deep_view();
        push_score_cells(&mut r, &self.pr_score, "prEnd");
        proof {
            assert(r.deep_view() =~= spec_project_to_cells(self@));
        }
        r
    }

    /// Reads a project record from a cell row; an error names what was
    /// wrong with the row.
    pub fn from_vec(vec: &Vec<String>) -> (r: Result<Self, String>)
        ensures
            match r {
                Ok(p) => spec_project_from_cells(vec.deep_view()) == Ok::<ProjectView, Seq<char>>(
                    p@,
                ),
                Err(m) => spec_project_from_cells(vec.deep_view()) == Err::<
                    ProjectView,
                    Seq<char>,
                >(m@),
            },
    {
        let ghost cells = vec.deep_view();
        if vec.len() < 8 {
            return Err(String::from_str("Input vector is too short"));
        }
        proof {
            assert(cells[0] == vec@[0]@);
            assert(cells[1] == vec@[1]@);
            assert(cells[2] == vec@[2]@);
            assert(cells[3] == vec@[3]@);
            assert(cells[4] == vec@[4]@);
            assert(cells[5] == vec@[5]@);
            assert(cells[6] == vec@[6]@);
        }
        let group_id = match parse_index(vec[0].as_str()) {
            Some(x) => x,
            None => {
                return Err(String::from_str("invalid number"));
            },
        };
        let total_score = match parse_score(vec[1].as_str()) {
            Some(x) => x,
            None => {
                return Err(String::from_str("invalid number"));
            },
        };
        let presentation_score = match parse_score(vec[2].as_str()) {
            Some(x) => x,
            None => {
                return Err(String::from_str("invalid number"));
            },
        };
        let bonus_score = match parse_score(vec[3].as_str()) {
            Some(x) => x,
            None => {
                return Err(String::from_str("invalid number"));
            },
        };
        let report_score_sum = match parse_score(vec[4].as_str()) {
            Some(x) => x,
            None => {
                return Err(String::from_str("invalid number"));
            },
        };
        let pr_score_sum = match parse_score(vec[5].as_str()) {
            Some(x) => x,
            None => {
                return Err(String::from_str("invalid number"));
            },
        };
        let presentation_id = match parse_index(vec[6].as_str()) {
            Some(x) => x,
            None => {
                return Err(String::from_str("invalid number"));
            },
        };
        let (report_score, after_report) = match scan_scores(vec, 7, "reportEnd") {
            Ok(p) => p,
            Err(ScanError::BadCell) => {
                return Err(String::from_str("invalid number"));
            },
            Err(ScanError::NoEnd) => {
                return Err(String::from_str("Missing 'reportEnd' marker"));
            },
        };
        let (pr_score, _after_pr) = match scan_scores(vec, after_report, "prEnd") {
            Ok(p) => p,
            Err(ScanError::BadCell) => {
                return Err(String::from_str("invalid number"));
            },
            Err(ScanError::NoEnd) => {
                return Err(String::from_str("Missing 'prEnd' marker"));
            },
        };
        Ok(
            ProjectItem {
                group_id,
                total_score,
                presentation_score,
                bonus_score,
                report_score_sum,
                pr_score_sum,
                presentation_id,
                report_score,
                pr_score,
            },
        )
    }
}

impl Default for ProjectItem {
    /// The default record: group zero, every score zero, score lists
    /// of length three.
    fn default() -> (r: Self)
        ensures
            r@ == spec_project_default(),
    {
        ProjectItem {
            group_id: 0,
            total_score: 0,
            presentation_score: 0,
            bonus_score: 0,
            report_score_sum: 0,
            pr_score_sum: 0,
            presentation_id: 0,
            report_score: zero_scores3(),
            pr_score: zero_scores3(),
        }
    }
}

} // verus!
