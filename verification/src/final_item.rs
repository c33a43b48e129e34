//! Final grade records: per-student scores, their codec, and the
//! formula that recomputes the derived fields.
//!
//! A final row is `student_id, student_name, final_score,
//! general_score, final_exam_score, project_score_sum, midterm_score,
//! homework_score_sum, discussion_score_sum, bonus_score`, then the
//! discussion scores ended by `discussionEnd`, then the homework
//! scores ended by `homeworkEnd`.

use vstd::prelude::*;

use crate::codec::{ScanOut, ScanError, spec_scan, spec_score_cells, lemma_scan_encoded,
    scan_scores, push_score_cells, spec_sum, lemma_sum_nonneg, sum_scores, sum_scores_checked, zero_scores3,
    RAW_BOUND};
use crate::group_item::{StudentItem, StudentView};
use crate::score::{spec_parse_score, spec_render_score, lemma_score_round_trip,
    lemma_nondigit_start_no_score, is_digit, parse_score, render_score};

verus! {

/// Cap of the term-work score, in hundredths of a point.
pub const GENERAL_CAP: u64 = 6000;

/// Final-exam score below which the final score is zero, in
/// hundredths of a point.
pub const EXAM_GATE: u64 = 4000;

#[derive(PartialEq, Debug)]
pub struct FinalItem {
    pub student_info: StudentItem,
    pub final_score: u64,
    pub general_score: u64,
    pub final_exam_score: u64,
    pub project_score_sum: u64,
    pub midterm_score: u64,
    pub homework_score_sum: u64,
    pub discussion_score_sum: u64,
    pub bonus_score: u64,
    pub discussion_score: Vec<u64>,
    pub homework_score: Vec<u64>,
}

pub struct FinalView {
    pub student_info: StudentView,
    pub final_score: u64,
    pub general_score: u64,
    pub final_exam_score: u64,
    pub project_score_sum: u64,
    pub midterm_score: u64,
    pub homework_score_sum: u64,
    pub discussion_score_sum: u64,
    pub bonus_score: u64,
    pub discussion_score: Seq<u64>,
    pub homework_score: Seq<u64>,
}

impl View for FinalItem {
    type V = FinalView;

    open spec fn view(&self) -> FinalView {
        FinalView {
            student_info: self.student_info@,
            final_score: self.final_score,
            general_score: self.general_score,
            final_exam_score: self.final_exam_score,
            project_score_sum: self.project_score_sum,
            midterm_score: self.midterm_score,
            homework_score_sum: self.homework_score_sum,
            discussion_score_sum: self.discussion_score_sum,
            bonus_score: self.bonus_score,
            discussion_score: self.discussion_score@,
            homework_score: self.homework_score@,
        }
    }
}

/// The default record: blank student, every score zero, score lists
/// of length three.
pub open spec fn spec_final_default() -> FinalView {
    FinalView {
        student_info: StudentView { student_id: ""@, student_name: "default"@ },
        final_score: 0,
        general_score: 0,
        final_exam_score: 0,
        project_score_sum: 0,
        midterm_score: 0,
        homework_score_sum: 0,
        discussion_score_sum: 0,
        bonus_score: 0,
        discussion_score: seq![0u64, 0u64, 0u64],
        homework_score: seq![0u64, 0u64, 0u64],
    }
}

/// Cell row of a final grade record.
pub open spec fn spec_final_to_cells(v: FinalView) -> Seq<Seq<char>> {
    seq![
        v.student_info.student_id,
        v.student_info.student_name,
        spec_render_score(v.final_score),
        spec_render_score(v.general_score),
        spec_render_score(v.final_exam_score),
        spec_render_score(v.project_score_sum),
        spec_render_score(v.midterm_score),
        spec_render_score(v.homework_score_sum),
        spec_render_score(v.discussion_score_sum),
        spec_render_score(v.bonus_score),
    ] + spec_score_cells(v.discussion_score) + seq!["discussionEnd"@] + spec_score_cells(
        v.homework_score,
    ) + seq!["homeworkEnd"@]
}

/// Final grade record read from a cell row; an error carries its
/// message.
pub open spec fn spec_final_from_cells(cells: Seq<Seq<char>>) -> Result<FinalView, Seq<char>> {
    if cells.len() < 10 {
        Err("数据不完整"@)
    } else {
        let student_info = StudentView { student_id: cells[0], student_name: cells[1] };
        match spec_parse_score(cells[2]) {
            None => Err("invalid number"@),
            Some(final_score) => match spec_parse_score(cells[3]) {
                None => Err("invalid number"@),
                Some(general_score) => match spec_parse_score(cells[4]) {
                    None => Err("invalid number"@),
                    Some(final_exam_score) => match spec_parse_score(cells[5]) {
                        None => Err("invalid number"@),
                        Some(project_score_sum) => match spec_parse_score(cells[6]) {
                            None => Err("invalid number"@),
                            Some(midterm_score) => match spec_parse_score(cells[7]) {
                                None => Err("invalid number"@),
                                Some(homework_score_sum) => match spec_parse_score(cells[8]) {
                                    None => Err("invalid number"@),
                                    Some(discussion_score_sum) => match spec_parse_score(
                                        cells[9],
                                    ) {
                                        None => Err("invalid number"@),
                                        Some(bonus_score) => match spec_scan(
                                            cells,
                                            10,
                                            "discussionEnd"@,
                                        ) {
                                            ScanOut::BadCell => Err("invalid number"@),
                                            ScanOut::NoEnd => Err(
                                                "Missing 'discussionEnd' marker"@,
                                            ),
                                            ScanOut::Found { scores: discussion_score, next } =>
                                                match spec_scan(cells, next, "homeworkEnd"@) {
                                                ScanOut::BadCell => Err("invalid number"@),
                                                ScanOut::NoEnd => Err(
                                                    "Missing 'homeworkEnd' marker"@,
                                                ),
                                                ScanOut::Found { scores: homework_score, .. } =>
                                                    Ok(
                                                    FinalView {
                                                        student_info,
                                                        final_score,
                                                        general_score,
                                                        final_exam_score,
                                                        project_score_sum,
                                                        midterm_score,
                                                        homework_score_sum,
                                                        discussion_score_sum,
                                                        bonus_score,
                                                        discussion_score,
                                                        homework_score,
                                                    },
                                                ),
                                            },
                                        },
                                    },
                                },
                            },
                        },
                    },
                },
            },
        }
    }
}

/// The record the roster-only constructor builds from a raw row:
/// identity from the first two cells (blank where the row is short),
/// every other field as in the default record.
pub open spec fn spec_final_from_id_name(cells: Seq<Seq<char>>) -> FinalView {
    FinalView {
        student_info: StudentView {
            student_id: if cells.len() >= 1 {
                cells[0]
            } else {
                ""@
            },
            student_name: if cells.len() >= 2 {
                cells[1]
            } else {
                ""@
            },
        },
        ..spec_final_default()
    }
}

/// Every encoded final grade record decodes back to itself.
pub proof fn lemma_final_round_trip(v: FinalView)
    ensures
        spec_final_from_cells(spec_final_to_cells(v)) == Ok::<FinalView, Seq<char>>(v),
{
    let cells = spec_final_to_cells(v);
    let d = v.discussion_score.len() as int;
    let h = v.homework_score.len() as int;
    assert(cells.len() == 12 + d + h);
    lemma_score_round_trip(v.final_score);
    lemma_score_round_trip(v.general_score);
    lemma_score_round_trip(v.final_exam_score);
    lemma_score_round_trip(v.project_score_sum);
    lemma_score_round_trip(v.midterm_score);
    lemma_score_round_trip(v.homework_score_sum);
    lemma_score_round_trip(v.discussion_score_sum);
    lemma_score_round_trip(v.bonus_score);
    reveal_strlit("discussionEnd");
    reveal_strlit("homeworkEnd");
    assert(!is_digit('d') && !is_digit('h'));
    assert("discussionEnd"@[0] == 'd' && "homeworkEnd"@[0] == 'h');
    lemma_nondigit_start_no_score("discussionEnd"@);
    lemma_nondigit_start_no_score("homeworkEnd"@);
    assert forall|k: int| 0 <= k < d implies cells[10 + k] == spec_render_score(
        #[trigger] v.discussion_score[k],
    ) by {
        assert(spec_score_cells(v.discussion_score)[k] == spec_render_score(
            v.discussion_score[k],
        ));
    }
    assert(cells[10 + d] == "discussionEnd"@);
    lemma_scan_encoded(cells, 10, v.discussion_score, "discussionEnd"@);
    assert forall|k: int| 0 <= k < h implies cells[11 + d + k] == spec_render_score(
        #[trigger] v.homework_score[k],
    ) by {
        assert(spec_score_cells(v.homework_score)[k] == spec_render_score(v.homework_score[k]));
    }
    assert(cells[11 + d + h] == "homeworkEnd"@);
    lemma_scan_encoded(cells, 11 + d, v.homework_score, "homeworkEnd"@);
}

/// Whether the raw inputs are small enough for the formulas: no sum
/// of a score list, nor a raw scalar score, beyond `RAW_BOUND`.
pub open spec fn spec_final_fits(v: FinalView) -> bool {
    &&& spec_sum(v.discussion_score) <= RAW_BOUND
    &&& spec_sum(v.homework_score) <= RAW_BOUND
    &&& v.final_exam_score <= RAW_BOUND
    &&& v.midterm_score <= RAW_BOUND
    &&& v.project_score_sum <= RAW_BOUND
    &&& v.bonus_score <= RAW_BOUND
}

/// The term-work score before the cap: a tenth of the discussion
/// average, a twenty-fifth of the homework sum, a tenth of the better
/// of exam and midterm, the project sum, and the bonus.
pub open spec fn spec_general_uncapped(v: FinalView) -> int {
    let disc = spec_sum(v.discussion_score) * 10 / 3;
    let hw = spec_sum(v.homework_score) / 25;
    let best = if v.final_exam_score >= v.midterm_score {
        v.final_exam_score
    } else {
        v.midterm_score
    };
    disc + hw + best as int / 10 + v.project_score_sum + v.bonus_score
}

/// The record after its derived fields are recomputed: the discussion
/// and homework sums, the capped term-work score, and the final score,
/// which is zero below the exam gate and otherwise adds two fifths of
/// the exam score to the term work.
pub open spec fn spec_final_calaculate(v: FinalView) -> FinalView {
    let disc = spec_sum(v.discussion_score) * 10 / 3;
    let hw = spec_sum(v.homework_score) / 25;
    let general0 = spec_general_uncapped(v);
    let general = if general0 > GENERAL_CAP {
        GENERAL_CAP as int
    } else {
        general0
    };
    let fin = if v.final_exam_score < EXAM_GATE {
        0
    } else {
        general + v.final_exam_score * 2 / 5
    };
    FinalView {
        student_info: v.student_info,
        final_score: fin as u64,
        general_score: general as u64,
        final_exam_score: v.final_exam_score,
        project_score_sum: v.project_score_sum,
        midterm_score: v.midterm_score,
        homework_score_sum: hw as u64,
        discussion_score_sum: disc as u64,
        bonus_score: v.bonus_score,
        discussion_score: v.discussion_score,
        homework_score: v.homework_score,
    }
}

/// Recomputing twice gives what recomputing once gives: the formulas
/// read only raw fields, which they never change.
pub proof fn lemma_final_calaculate_idempotent(v: FinalView)
    ensures
        spec_final_calaculate(spec_final_calaculate(v)) == spec_final_calaculate(v),
{
}

/// The final score is zero exactly below the exam threshold; from
/// the threshold up it is the capped term work plus two fifths of
/// the exam.
pub proof fn lemma_final_score_gate(v: FinalView)
    ensures
        v.final_exam_score < EXAM_GATE ==> spec_final_calaculate(v).final_score == 0,
        v.final_exam_score >= EXAM_GATE ==> spec_final_calaculate(v).final_score
            == spec_final_calaculate(v).general_score + v.final_exam_score * 2 / 5,
{
    lemma_sum_nonneg(v.discussion_score);
    lemma_sum_nonneg(v.homework_score);
}

/// The term-work score never exceeds the cap, and uncapped term work
/// at the cap or beyond lands exactly on the cap.
pub proof fn lemma_general_score_cap(v: FinalView)
    ensures
        spec_final_calaculate(v).general_score <= GENERAL_CAP,
        spec_general_uncapped(v) >= GENERAL_CAP ==> spec_final_calaculate(v).general_score
            == GENERAL_CAP,
{
    lemma_sum_nonneg(v.discussion_score);
    lemma_sum_nonneg(v.homework_score);
}

impl FinalItem {
    /// Whether the raw inputs are small enough for `calaculate`.
    pub fn fits(&self) -> (r: bool)
        ensures
            r == spec_final_fits(self@),
    {
        let d = match sum_scores_checked(&self.discussion_score) {
            Some(v) => v,
            None => {
                return false;
            },
        };
        let h = match sum_scores_checked(&self.homework_score) {
            Some(v) => v,
            None => {
                return false;
            },
        };
        d <= RAW_BOUND && h <= RAW_BOUND && self.final_exam_score <= RAW_BOUND
            && self.midterm_score <= RAW_BOUND && self.project_score_sum <= RAW_BOUND
            && self.bonus_score <= RAW_BOUND
    }

    /// Recomputes the derived fields from the raw scores.
    pub fn calaculate(&mut self)
        requires
            spec_final_fits(old(self)@),
        ensures
            final(self)@ == spec_final_calaculate(old(self)@),
    {
        proof {
            lemma_sum_nonneg(self@.discussion_score);
            lemma_sum_nonneg(self@.homework_score);
        }
        let disc_total = sum_scores(&self.discussion_score, RAW_BOUND);
        let hw_total = sum_scores(&self.homework_score, RAW_BOUND);
        let disc = disc_total * 10 / 3;
        let hw = hw_total / 25;
        let best = if self.final_exam_score >= self.midterm_score {
            self.final_exam_score
        } else {
            self.midterm_score
        };
        let general0 = disc + hw + best / 10 + self.project_score_sum + self.bonus_score;
        let general = if general0 > GENERAL_CAP {
            GENERAL_CAP
        } else {
            general0
        };
        let fin = if self.final_exam_score < EXAM_GATE {
            0
        } else {
            general + self.final_exam_score * 2 / 5
        };
        self.discussion_score_sum = disc;
        self.homework_score_sum = hw;
        self.general_score = general;
        self.final_score = fin;
    }

    /// The cell row of this record.
    pub fn to_vec(&self) -> (r: Vec<String>)
        ensures
            r.deep_view() == spec_final_to_cells(self@),
    {
        let mut r: Vec<String> = Vec::new();
        r.push(self.student_info.student_id.clone());
        r.push(self.student_info.student_name.clone());
        r.push(render_score(self.final_score));
        r.push(render_score(self.general_score));
        r.push(render_score(self.final_exam_score));
        r.push(render_score(self.project_score_sum));
        r.push(render_score(self.midterm_score));
        r.push(render_score(self.homework_score_sum));
        r.push(render_score(self.discussion_score_sum));
        r.push(render_score(self.bonus_score));
        proof {
            assert(r.deep_view() =~= seq![
                self@.student_info.student_id,
                self@.student_info.student_name,
                spec_render_score(self@.final_score),
                spec_render_score(self@.general_score),
                spec_render_score(self@.final_exam_score),
                spec_render_score(self@.project_score_sum),
                spec_render_score(self@.midterm_score),
                spec_render_score(self@.homework_score_sum),
                spec_render_score(self@.discussion_score_sum),
                spec_render_score(self@.bonus_score),
            ]);
        }
        push_score_cells(&mut r, &self.discussion_score, "discussionEnd");
        push_score_cells(&mut r, &self.homework_score, "homeworkEnd");
        proof {
            assert(r.deep_view() =~= spec_final_to_cells(self@));
        }
        r
    }

    /// Reads a final grade record from a cell row; an error names what
    /// was wrong with the row.
    pub fn from_vec(vec: &Vec<String>) -> (r: Result<Self, String>)
        ensures
            match r {
                Ok(f) => spec_final_from_cells(vec.deep_view()) == Ok::<FinalView, Seq<char>>(f@),
                Err(m) => spec_final_from_cells(vec.deep_view()) == Err::<FinalView, Seq<char>>(
                    m@,
                ),
            },
    {
        let ghost cells = vec.deep_view();
        if vec.len() < 10 {
            return Err(String::from_str("数据不完整"));
        }
        proof {
            assert(cells[0] == vec@[0]@);
            assert(cells[1] == vec@[1]@);
            assert(cells[2] == vec@[2]@);
            assert(cells[3] == vec@[3]@);
            assert(cells[4] == vec@[4]@);
            assert(cells[5] == vec@[5]@);
            assert(cells[6] == vec@[6]@);
            assert(cells[7] == vec@[7]@);
            assert(cells[8] == vec@[8]@);
            assert(cells[9] == vec@[9]@);
        }
        let student_info = StudentItem {
            student_id: vec[0].clone(),
            student_name: vec[1].clone(),
        };
        let final_score = match parse_score(vec[2].as_str()) {
            Some(x) => x,
            None => {
                return Err(String::from_str("invalid number"));
            },
        };
        let general_score = match parse_score(vec[3].as_str()) {
            Some(x) => x,
            None => {
                return Err(String::from_str("invalid number"));
            },
        };
        let final_exam_score = match parse_score(vec[4].as_str()) {
            Some(x) => x,
            None => {
                return Err(String::from_str("invalid number"));
            },
        };
        let project_score_sum = match parse_score(vec[5].as_str()) {
            Some(x) => x,
            None => {
                return Err(String::from_str("invalid number"));
            },
        };
        let midterm_score = match parse_score(vec[6].as_str()) {
            Some(x) => x,
            None => {
                return Err(String::from_str("invalid number"));
            },
        };
        let homework_score_sum = match parse_score(vec[7].as_str()) {
            Some(x) => x,
            None => {
                return Err(String::from_str("invalid number"));
            },
        };
        let discussion_score_sum = match parse_score(vec[8].as_str()) {
            Some(x) => x,
            None => {
                return Err(String::from_str("invalid number"));
            },
        };
        let bonus_score = match parse_score(vec[9].as_str()) {
            Some(x) => x,
            None => {
                return Err(String::from_str("invalid number"));
            },
        };
        let (discussion_score, after_discussion) = match scan_scores(vec, 10, "discussionEnd") {
            Ok(p) => p,
            Err(ScanError::BadCell) => {
                return Err(String::from_str("invalid number"));
            },
            Err(ScanError::NoEnd) => {
                return Err(String::from_str("Missing 'discussionEnd' marker"));
            },
        };
        let (homework_score, _after_homework) = match scan_scores(vec, after_discussion,
            "homeworkEnd") {
            Ok(p) => p,
            Err(ScanError::BadCell) => {
                return Err(String::from_str("invalid number"));
            },
            Err(ScanError::NoEnd) => {
                return Err(String::from_str("Missing 'homeworkEnd' marker"));
            },
        };
        Ok(
            FinalItem {
                student_info,
                final_score,
                general_score,
                final_exam_score,
                project_score_sum,
                midterm_score,
                homework_score_sum,
                discussion_score_sum,
                bonus_score,
                discussion_score,
                homework_score,
            },
        )
    }

    /// The roster-only constructor: identifier and name from the first
    /// two cells of the row, every score zero, score lists of length
    /// three.
    pub fn from_id_name(row: &Vec<String>) -> (r: Self)
        ensures
            r@ == spec_final_from_id_name(row.deep_view()),
    {
        let student_id = if row.len() >= 1 {
            row[0].clone()
        } else {
            let s = String::new();
            proof {
                reveal_strlit("");
                assert(s@ =~= ""@);
            }
            s
        };
        let student_name = if row.len() >= 2 {
            row[1].clone()
        } else {
            let s = String::new();
            proof {
                reveal_strlit("");
                assert(s@ =~= ""@);
            }
            s
        };
        let r = FinalItem {
            student_info: StudentItem { student_id, student_name },
            final_score: 0,
            general_score: 0,
            final_exam_score: 0,
            project_score_sum: 0,
            midterm_score: 0,
            homework_score_sum: 0,
            discussion_score_sum: 0,
            bonus_score: 0,
            discussion_score: zero_scores3(),
            homework_score: zero_scores3(),
        };
        proof {
            assert(row.deep_view().len() == row@.len());
            if row@.len() >= 1 {
                assert(row.deep_view()[0] == row@[0]@);
            }
            if row@.len() >= 2 {
                assert(row.deep_view()[1] == row@[1]@);
            }
        }
        r
    }
}

impl Default for FinalItem {
    /// The default record: blank student, every score zero, score
    /// lists of length three.
    fn default() -> (r: Self)
        ensures
            r@ == spec_final_default(),
    {
        let empty_id = String::new();
        proof {
            reveal_strlit("");
            assert(empty_id@ =~= ""@);
        }
        FinalItem {
            student_info: StudentItem {
                student_id: empty_id,
                student_name: String::from_str("default"),
            },
            final_score: 0,
            general_score: 0,
            final_exam_score: 0,
            project_score_sum: 0,
            midterm_score: 0,
            homework_score_sum: 0,
            discussion_score_sum: 0,
            bonus_score: 0,
            discussion_score: zero_scores3(),
            homework_score: zero_scores3(),
        }
    }
}

} // verus!
