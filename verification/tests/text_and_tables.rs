//! Field parser, score text, table serializer and whole-table flows.

use gradebook::final_item::FinalItem;
use gradebook::group_item::{GroupItem, StudentItem};
use gradebook::log::Log;
use gradebook::parser::split_to_table;
use gradebook::project_item::ProjectItem;
use gradebook::score::{parse_score, render_score, parse_index, render_index};
use gradebook::table_text::{encode_table, join_row, final_table_text, group_table_text,
    project_table_text, build_final_text, build_group_text, build_project_text,
    ungrouped_students, ungrouped_text};
use gradebook::tables::{TableType, final_table_from_rows, group_table_from_rows,
    project_table_from_rows, calaculate_final_table, calaculate_project_table};

fn s(text: &str) -> String {
    text.to_string()
}

fn row(cells: &[&str]) -> Vec<String> {
    cells.iter().map(|c| c.to_string()).collect()
}

#[test]
fn parse_rows_empty_input() {
    let rows = split_to_table(s(""));
    assert!(rows.is_empty());
}

#[test]
fn parse_rows_trims_and_splits() {
    let rows = split_to_table(s(" a ,b\tc \n x , y "));
    assert_eq!(rows, vec![row(&["a", "b", "c"]), row(&["x", "y"])]);
}

#[test]
fn parse_rows_trims_unicode_whitespace() {
    let rows = split_to_table(s("\u{a0}a\u{a0},\u{3000}b\u{2003}"));
    assert_eq!(rows, vec![row(&["a", "b"])]);
}

#[test]
fn parse_rows_only_delimiters() {
    let rows = split_to_table(s(",,"));
    assert_eq!(rows, vec![row(&["", "", ""])]);
}

#[test]
fn parse_rows_blank_lines() {
    let rows = split_to_table(s("\n\n"));
    assert_eq!(rows, vec![row(&[""]), row(&[""])]);
    let rows = split_to_table(s("a\n"));
    assert_eq!(rows, vec![row(&["a"])]);
}

#[test]
fn render_score_forms() {
    assert_eq!(render_score(1490), "14.9");
    assert_eq!(render_score(1495), "14.95");
    assert_eq!(render_score(5), "0.05");
    assert_eq!(render_score(130), "1.3");
    assert_eq!(render_score(0), "0");
    assert_eq!(render_score(10000), "100");
    assert_eq!(render_index(12), "12");
    assert_eq!(render_index(0), "0");
}

#[test]
fn parse_score_accepts_fraction_forms() {
    assert_eq!(parse_score("39.9"), Some(3990));
    assert_eq!(parse_score("39.90"), Some(3990));
    assert_eq!(parse_score("40"), Some(4000));
    assert_eq!(parse_score("0.05"), Some(5));
    assert_eq!(parse_index("12"), Some(12));
    assert_eq!(parse_index("+12"), Some(12));
}

#[test]
fn parse_score_rejects_bad_cells() {
    assert_eq!(parse_score(""), None);
    assert_eq!(parse_score("abc"), None);
    assert_eq!(parse_score("-5"), None);
    assert_eq!(parse_score("1.234"), None);
    assert_eq!(parse_score("1."), None);
    assert_eq!(parse_score(".5"), None);
    assert_eq!(parse_score("1.2.3"), None);
    assert_eq!(parse_score("99999999999999999999999999"), None);
    assert_eq!(parse_index("1.0"), None);
    assert_eq!(parse_index(""), None);
    assert_eq!(parse_index("+"), None);
    assert_eq!(parse_index("++1"), None);
}

#[test]
fn score_round_trip_concrete() {
    for v in [0u64, 1, 99, 100, 1490, 3990, 123456789] {
        assert_eq!(parse_score(&render_score(v)), Some(v));
    }
}

#[test]
fn encode_table_joins() {
    let rows = vec![row(&["a", "b"]), row(&["c"])];
    assert_eq!(encode_table(&rows, ","), "a,b\nc");
    assert_eq!(encode_table(&rows, ", "), "a, b\nc");
    assert_eq!(join_row(&row(&["a", "b", "c"]), "-"), "a-b-c");
    let empty: Vec<Vec<String>> = Vec::new();
    assert_eq!(encode_table(&empty, ","), "");
}

#[test]
fn table_texts_use_their_separators() {
    let group = GroupItem {
        group_id: 1,
        group_members: vec![StudentItem { student_id: s("s1"), student_name: s("Alice") }],
    };
    assert_eq!(group_table_text(&vec![group]), "1, s1, Alice");
    let project = ProjectItem::default();
    let text = project_table_text(&vec![project]);
    assert_eq!(text, "0, 0, 0, 0, 0, 0, 0, 0, 0, 0, reportEnd, 0, 0, 0, prEnd");
    let fin = FinalItem::from_id_name(&row(&["s1", "Alice"]));
    assert_eq!(
        final_table_text(&vec![fin]),
        "s1,Alice,0,0,0,0,0,0,0,0,0,0,0,discussionEnd,0,0,0,homeworkEnd"
    );
    let blank = FinalItem::default();
    assert_eq!(
        final_table_text(&vec![blank]),
        ",default,0,0,0,0,0,0,0,0,0,0,0,discussionEnd,0,0,0,homeworkEnd"
    );
}

#[test]
fn swap_partial_failure_keeps_the_rest() {
    // one malformed row among two valid rows: two records decode, the
    // bad row becomes the default record, and exactly one entry is
    // logged
    let valid = final_table_text(&vec![
        FinalItem::from_id_name(&row(&["s1", "Alice"])),
    ]);
    let text = format!("{}\nbad\n{}", valid, valid);
    let rows = split_to_table(text);
    let (items, logs) = final_table_from_rows(&rows);
    assert_eq!(items.len(), 3);
    assert_eq!(items[0].student_info.student_id, "s1");
    assert!(items[1] == FinalItem::default());
    assert_eq!(items[2].student_info.student_name, "Alice");
    assert_eq!(logs.len(), 1);
    assert_eq!(logs[0].message(), "数据不完整");
    assert_eq!(logs[0].function_info(), "Swap Info");
}

#[test]
fn swap_partial_failure_project_and_group() {
    let rows = vec![row(&["1", "2"]), ProjectItem::default().to_vec()];
    let (items, logs) = project_table_from_rows(&rows);
    assert_eq!(items.len(), 2);
    assert!(items[0] == ProjectItem::default());
    assert_eq!(logs.len(), 1);
    assert_eq!(logs[0].message(), "Input vector is too short");

    let rows = vec![row(&["5", "s1", "Alice"]), row(&["5", "s1"])];
    let (items, logs) = group_table_from_rows(&rows);
    assert_eq!(items.len(), 2);
    assert_eq!(items[0].group_id, 5);
    assert!(items[1] == GroupItem::default());
    assert_eq!(logs.len(), 1);
    assert_eq!(logs[0].message(), "Input vector length is invalid");
}

#[test]
fn calaculate_tables_recompute_each_row() {
    let mut finals = vec![FinalItem::default(), FinalItem::default()];
    finals[1].final_exam_score = 9000;
    finals[1].discussion_score = vec![800, 900, 700];
    let all_fit = calaculate_final_table(&mut finals);
    assert!(all_fit);
    assert_eq!(finals[0].final_score, 0);
    assert_eq!(finals[1].discussion_score_sum, 8000);

    let mut projects = vec![ProjectItem::default()];
    projects[0].report_score = vec![1000, 800, 600];
    projects[0].presentation_id = 1;
    let all_fit = calaculate_project_table(&mut projects);
    assert!(all_fit);
    assert_eq!(projects[0].report_score_sum, 900);
}

#[test]
fn calaculate_table_skips_oversized_row() {
    // a row whose raw inputs exceed the formula bound stays unchanged
    let mut finals = vec![FinalItem::default()];
    finals[0].final_exam_score = u64::MAX;
    let all_fit = calaculate_final_table(&mut finals);
    assert!(!all_fit);
    assert_eq!(finals[0].final_exam_score, u64::MAX);
    assert_eq!(finals[0].final_score, 0);
}

#[test]
fn table_type_default_is_final() {
    assert!(TableType::default() == TableType::FinalScore);
}

#[test]
fn build_final_text_from_roster() {
    let text = build_final_text(&s("s1,Alice\ns2,Bob"));
    let expected_one =
        "s1,Alice,0,0,0,0,0,0,0,0,0,0,0,discussionEnd,0,0,0,homeworkEnd";
    let expected_two = "s2,Bob,0,0,0,0,0,0,0,0,0,0,0,discussionEnd,0,0,0,homeworkEnd";
    assert_eq!(text, format!("{}\n{}", expected_one, expected_two));
}

#[test]
fn build_group_text_normalizes() {
    let text = build_group_text(&s("2,s1,Alice\nnonsense"));
    assert_eq!(text, "2,s1,Alice\n0,,default,,default,,default");
}

#[test]
fn build_project_text_numbers_groups() {
    let text = build_project_text(2);
    let one = "1,0,0,0,0,0,0,0,0,0,reportEnd,0,0,0,prEnd";
    let two = "2,0,0,0,0,0,0,0,0,0,reportEnd,0,0,0,prEnd";
    assert_eq!(text, format!("{}\n{}", one, two));
}

#[test]
fn ungrouped_students_and_text() {
    let groups = vec![GroupItem {
        group_id: 1,
        group_members: vec![StudentItem { student_id: s("s1"), student_name: s("Alice") }],
    }];
    let finals = vec![
        FinalItem::from_id_name(&row(&["s1", "Alice"])),
        FinalItem::from_id_name(&row(&["s2", "Bob"])),
    ];
    let loose = ungrouped_students(&groups, &finals);
    assert_eq!(loose.len(), 1);
    assert_eq!(loose[0].student_id, "s2");
    assert_eq!(ungrouped_text(&loose), "s2 Bob");
    let no_groups: Vec<GroupItem> = Vec::new();
    let two = ungrouped_students(&no_groups, &finals);
    assert_eq!(ungrouped_text(&two), "s1 Alice,s2 Bob");
}

#[test]
fn table_text_round_trips_through_parser() {
    // the whole swap path: encode the table to text, split the text,
    // decode the rows back
    let make = || ProjectItem {
        group_id: 4,
        total_score: 1490,
        presentation_score: 500,
        bonus_score: 30,
        report_score_sum: 900,
        pr_score_sum: 90,
        presentation_id: 1,
        report_score: vec![1000, 800, 600],
        pr_score: vec![900, 900, 900],
    };
    let text = project_table_text(&vec![make()]);
    let rows = split_to_table(text);
    let (items, logs) = project_table_from_rows(&rows);
    assert_eq!(items.len(), 1);
    assert!(items[0] == make());
    assert!(logs.is_empty());
}

#[test]
fn log_renders_operation_and_message() {
    let log = Log::new(s("Swap Info"), s("something went wrong"));
    let rendered = log.to_string();
    assert!(rendered.ends_with(" - Swap Info \nsomething went wrong"));
    let fixed = Log::from_parts(s("2024-01-01 00:00:00"), s("op"), s("msg"));
    assert_eq!(fixed.to_string(), "2024-01-01 00:00:00 - op \nmsg");
    assert_eq!(fixed.time(), "2024-01-01 00:00:00");
}
