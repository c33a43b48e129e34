//! Record codecs and grading formulas on concrete values.

use gradebook::final_item::FinalItem;
use gradebook::group_item::{GroupItem, StudentItem};
use gradebook::project_item::ProjectItem;

fn s(text: &str) -> String {
    text.to_string()
}

fn row(cells: &[&str]) -> Vec<String> {
    cells.iter().map(|c| c.to_string()).collect()
}

fn sample_final() -> FinalItem {
    FinalItem {
        student_info: StudentItem {
            student_id: s("s1"),
            student_name: s("Alice"),
        },
        final_score: 9600,
        general_score: 6000,
        final_exam_score: 9000,
        project_score_sum: 500,
        midterm_score: 7000,
        homework_score_sum: 240,
        discussion_score_sum: 8000,
        bonus_score: 0,
        discussion_score: vec![800, 900, 700],
        homework_score: vec![2000, 2000, 2000],
    }
}

fn sample_project() -> ProjectItem {
    ProjectItem {
        group_id: 4,
        total_score: 1490,
        presentation_score: 500,
        bonus_score: 30,
        report_score_sum: 900,
        pr_score_sum: 90,
        presentation_id: 1,
        report_score: vec![1000, 800, 600],
        pr_score: vec![900, 900, 900],
    }
}

#[test]
fn final_round_trip() {
    let item = sample_final();
    let cells = item.to_vec();
    assert_eq!(
        cells,
        row(&[
            "s1",
            "Alice",
            "96",
            "60",
            "90",
            "5",
            "70",
            "2.4",
            "80",
            "0",
            "8",
            "9",
            "7",
            "discussionEnd",
            "20",
            "20",
            "20",
            "homeworkEnd",
        ])
    );
    let back = FinalItem::from_vec(&cells).unwrap();
    assert!(back == sample_final());
}

#[test]
fn final_from_vec_too_short() {
    let err = FinalItem::from_vec(&row(&["s1", "Alice", "1.00"])).unwrap_err();
    assert_eq!(err, "数据不完整");
}

#[test]
fn final_missing_discussion_end() {
    let mut cells = sample_final().to_vec();
    cells.truncate(13);
    let err = FinalItem::from_vec(&cells).unwrap_err();
    assert_eq!(err, "Missing 'discussionEnd' marker");
    // a sentinel of the wrong kind in its place is a number error
    let mut cells = sample_final().to_vec();
    cells.retain(|c| c != "discussionEnd");
    let err = FinalItem::from_vec(&cells).unwrap_err();
    assert_eq!(err, "invalid number");
}

#[test]
fn final_missing_homework_end() {
    let mut cells = sample_final().to_vec();
    cells.pop();
    let err = FinalItem::from_vec(&cells).unwrap_err();
    assert_eq!(err, "Missing 'homeworkEnd' marker");
}

#[test]
fn final_bad_number() {
    let mut cells = sample_final().to_vec();
    cells[2] = s("ninety");
    let err = FinalItem::from_vec(&cells).unwrap_err();
    assert_eq!(err, "invalid number");
}

#[test]
fn final_scenario_capped_general() {
    // discussion average 8 gives 80 before the cap; homework 60/25
    // gives 2.4; the capped term work is exactly 60 and the final
    // score 60 + 90 * 0.4 = 96.
    let mut item = sample_final();
    item.final_score = 0;
    item.general_score = 0;
    item.homework_score_sum = 0;
    item.discussion_score_sum = 0;
    item.calaculate();
    assert_eq!(item.discussion_score_sum, 8000);
    assert_eq!(item.homework_score_sum, 240);
    assert_eq!(item.general_score, 6000);
    assert_eq!(item.final_score, 9600);
}

#[test]
fn final_gate_below_forty() {
    // an exam score of 39.9 forces a zero final score whatever the
    // other fields hold
    let mut item = sample_final();
    item.final_exam_score = 3990;
    item.calaculate();
    assert_eq!(item.final_score, 0);
    assert_eq!(item.general_score, 6000);
}

#[test]
fn final_gate_at_exactly_forty() {
    let mut item = FinalItem::default();
    item.final_exam_score = 4000;
    item.calaculate();
    // a score of exactly 40 keeps its final score: 40 / 10 term
    // work, plus 40 * 0.4
    assert_eq!(item.general_score, 400);
    assert_eq!(item.final_score, 2000);
}

#[test]
fn general_cap_is_exact() {
    let mut item = FinalItem::default();
    item.discussion_score = vec![700, 700, 700];
    item.calaculate();
    assert_eq!(item.general_score, 6000);
}

#[test]
fn final_calaculate_idempotent() {
    let mut once = sample_final();
    once.calaculate();
    let mut twice = sample_final();
    twice.calaculate();
    twice.calaculate();
    assert!(once == twice);
}

#[test]
fn final_from_id_name_zero_fills() {
    let item = FinalItem::from_id_name(&row(&["s9", "Nia", "extra"]));
    assert_eq!(item.student_info.student_id, "s9");
    assert_eq!(item.student_info.student_name, "Nia");
    assert_eq!(item.final_score, 0);
    assert_eq!(item.discussion_score, vec![0, 0, 0]);
    assert_eq!(item.homework_score, vec![0, 0, 0]);
    let short = FinalItem::from_id_name(&row(&["s9"]));
    assert_eq!(short.student_info.student_id, "s9");
    assert_eq!(short.student_info.student_name, "");
}

#[test]
fn project_round_trip() {
    let item = sample_project();
    let cells = item.to_vec();
    assert_eq!(
        cells,
        row(&[
            "4",
            "14.9",
            "5",
            "0.3",
            "9",
            "0.9",
            "1",
            "10",
            "8",
            "6",
            "reportEnd",
            "9",
            "9",
            "9",
            "prEnd",
        ])
    );
    let back = ProjectItem::from_vec(&cells).unwrap();
    assert!(back == sample_project());
}

#[test]
fn project_from_vec_too_short() {
    let err = ProjectItem::from_vec(&row(&["1", "2.00"])).unwrap_err();
    assert_eq!(err, "Input vector is too short");
}

#[test]
fn project_missing_report_end() {
    let mut cells = sample_project().to_vec();
    cells.truncate(10);
    let err = ProjectItem::from_vec(&cells).unwrap_err();
    assert_eq!(err, "Missing 'reportEnd' marker");
}

#[test]
fn project_missing_pr_end() {
    let mut cells = sample_project().to_vec();
    cells.pop();
    let err = ProjectItem::from_vec(&cells).unwrap_err();
    assert_eq!(err, "Missing 'prEnd' marker");
}

#[test]
fn project_bad_number() {
    let mut cells = sample_project().to_vec();
    cells[6] = s("first");
    let err = ProjectItem::from_vec(&cells).unwrap_err();
    assert_eq!(err, "invalid number");
}

#[test]
fn project_scenario_report_weighting() {
    // reports 10, 8, 6 with the first presented: 10 * 0.5 plus the
    // best remaining 8 * 0.5 gives 9; bonus (8 + 6 - 8) / 20 gives
    // 0.3; peer review 27 / 3 / 10 gives 0.9; total 14.9
    let mut item = sample_project();
    item.total_score = 0;
    item.bonus_score = 0;
    item.report_score_sum = 0;
    item.pr_score_sum = 0;
    item.calaculate();
    assert_eq!(item.report_score_sum, 900);
    assert_eq!(item.bonus_score, 30);
    assert_eq!(item.pr_score_sum, 90);
    assert_eq!(item.total_score, 1490);
}

#[test]
fn project_out_of_range_presentation_id() {
    // no entry matches, so every report entry is a bonus candidate
    let mut item = sample_project();
    item.presentation_id = 0;
    item.pr_score = vec![0, 0, 0];
    item.presentation_score = 0;
    item.calaculate();
    assert_eq!(item.report_score_sum, 500);
    assert_eq!(item.bonus_score, 70);
    assert_eq!(item.total_score, 500);
}

#[test]
fn project_calaculate_idempotent() {
    let mut once = sample_project();
    once.calaculate();
    let mut twice = sample_project();
    twice.calaculate();
    twice.calaculate();
    assert!(once == twice);
}

#[test]
fn group_round_trip() {
    let item = GroupItem {
        group_id: 3,
        group_members: vec![
            StudentItem { student_id: s("s1"), student_name: s("Alice") },
            StudentItem { student_id: s("s2"), student_name: s("Bob") },
        ],
    };
    let cells = item.to_vec();
    assert_eq!(cells, row(&["3", "s1", "Alice", "s2", "Bob"]));
    let back = GroupItem::from_vec(&cells).unwrap();
    assert!(back == item);
}

#[test]
fn group_from_vec_invalid_length() {
    let err = GroupItem::from_vec(&row(&["3", "s1"])).unwrap_err();
    assert_eq!(err, "Input vector length is invalid");
    let empty: Vec<String> = Vec::new();
    let err = GroupItem::from_vec(&empty).unwrap_err();
    assert_eq!(err, "Input vector length is invalid");
}

#[test]
fn group_from_vec_bad_id() {
    let err = GroupItem::from_vec(&row(&["three", "s1", "Alice"])).unwrap_err();
    assert_eq!(err, "invalid number");
}

#[test]
fn group_from_raw_defaults_on_error() {
    let good = GroupItem::from_raw(&row(&["7", "s1", "Alice"]));
    assert_eq!(good.group_id, 7);
    assert_eq!(good.group_members.len(), 1);
    let bad = GroupItem::from_raw(&row(&["x", "s1", "Alice"]));
    assert!(bad == GroupItem::default());
}

#[test]
fn default_rows_render_like_fresh_tables() {
    assert_eq!(
        FinalItem::default().to_vec(),
        row(&[
            "", "default", "0", "0", "0", "0", "0", "0", "0", "0", "0", "0", "0",
            "discussionEnd", "0", "0", "0", "homeworkEnd",
        ])
    );
    assert_eq!(
        ProjectItem::default().to_vec(),
        row(&[
            "0", "0", "0", "0", "0", "0", "0", "0", "0", "0", "reportEnd", "0", "0", "0",
            "prEnd",
        ])
    );
}

#[test]
fn group_default_members() {
    let item = GroupItem::default();
    assert_eq!(item.group_id, 0);
    assert_eq!(item.group_members.len(), 3);
    assert_eq!(item.group_members[0].student_id, "");
    assert_eq!(item.group_members[0].student_name, "default");
}
