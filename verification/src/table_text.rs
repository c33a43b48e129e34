//! Table serializer and table builders: joining cell rows back into a
//! round-trip text blob, building fresh tables from raw input, and
//! finding students absent from every group.

use vstd::prelude::*;

use crate::final_item::{FinalItem, FinalView, spec_final_to_cells, spec_final_from_id_name};
use crate::group_item::{GroupItem, GroupView, StudentItem, StudentView, spec_group_to_cells,
    spec_group_or_default, student_eq};
use crate::parser::{split_to_table, spec_parse_rows};
use crate::project_item::{ProjectItem, ProjectView, spec_project_to_cells, spec_project_default};

verus! {

/// One row joined into text: the cells in order, the separator
/// between every two.
pub open spec fn spec_join_row(cells: Seq<Seq<char>>, sep: Seq<char>) -> Seq<char>
    decreases cells.len(),
{
    if cells.len() == 0 {
        Seq::empty()
    } else if cells.len() == 1 {
        cells[0]
    } else {
        spec_join_row(cells.drop_last(), sep) + sep + cells.last()
    }
}

/// A whole table joined into text: cells joined by `sep`, rows joined
/// by newlines.
pub open spec fn spec_encode_table(rows: Seq<Seq<Seq<char>>>, sep: Seq<char>) -> Seq<char> {
    spec_join_row(rows.map_values(|r: Seq<Seq<char>>| spec_join_row(r, sep)), "\n"@)
}

/// Joins the cells of one row with the separator.
pub fn join_row(cells: &Vec<String>, sep: &str) -> (r: String)
    ensures
        r@ == spec_join_row(cells.deep_view(), sep@),
{
    let ghost dc = cells.deep_view();
    let mut r = String::new();
    let mut i: usize = 0;
    while i < cells.len()
        invariant
            i <= dc.len(),
            dc == cells.deep_view(),
            r@ == spec_join_row(dc.subrange(0, i as int), sep@),
        decreases dc.len() - i,
    {
        if i > 0 {
            r.append(sep);
        }
        r.append(cells[i].as_str());
        proof {
            let t = dc.subrange(0, i + 1);
            assert(t.drop_last() =~= dc.subrange(0, i as int));
            assert(t.last() == dc[i as int]);
            assert(dc[i as int] == cells@[i as int]@);
            if i == 0 {
                assert(Seq::<char>::empty() + dc[0] =~= dc[0]);
            }
        }
        i = i + 1;
    }
    proof {
        assert(dc.subrange(0, i as int) =~= dc);
    }
    r
}

/// Joins a table of cell rows into the round-trip text blob.
pub fn encode_table(rows: &Vec<Vec<String>>, sep: &str) -> (r: String)
    ensures
        r@ == spec_encode_table(rows.deep_view(), sep@),
{
    let ghost lines = rows.deep_view().map_values(|c: Seq<Seq<char>>| spec_join_row(c, sep@));
    let mut r = String::new();
    let mut i: usize = 0;
    while i < rows.len()
        invariant
            i <= lines.len(),
            lines == rows.deep_view().map_values(|c: Seq<Seq<char>>| spec_join_row(c, sep@)),
            lines.len() == rows@.len(),
            r@ == spec_join_row(lines.subrange(0, i as int), "\n"@),
        decreases lines.len() - i,
    {
        if i > 0 {
            r.append("\n");
        }
        let line = join_row(&rows[i], sep);
        r.append(line.as_str());
        proof {
            assert(rows.deep_view()[i as int] == rows@[i as int].deep_view());
            assert(lines[i as int] == spec_join_row(rows@[i as int].deep_view(), sep@));
            let t = lines.subrange(0, i + 1);
            assert(t.drop_last() =~= lines.subrange(0, i as int));
            assert(t.last() == lines[i as int]);
            if i == 0 {
                assert(Seq::<char>::empty() + lines[0] =~= lines[0]);
            }
        }
        i = i + 1;
    }
    proof {
        assert(lines.subrange(0, i as int) =~= lines);
    }
    r
}

/// Text of a final grade table, cells joined by commas.
pub fn final_table_text(table: &Vec<FinalItem>) -> (r: String)
    ensures
        r@ == spec_encode_table(
            table@.map_values(|it: FinalItem| spec_final_to_cells(it@)),
            ","@,
        ),
{
    let ghost target = table@.map_values(|it: FinalItem| spec_final_to_cells(it@));
    let mut rows: Vec<Vec<String>> = Vec::new();
    let mut i: usize = 0;
    while i < table.len()
        invariant
            i <= table@.len(),
            target == table@.map_values(|it: FinalItem| spec_final_to_cells(it@)),
            rows.deep_view() == target.subrange(0, i as int),
        decreases table@.len() - i,
    {
        let ghost before = rows.deep_view();
        let row = table[i].to_vec();
        rows.push(row);
        proof {
            assert(rows.deep_view() =~= before.push(spec_final_to_cells(table@[i as int]@)));
            assert(rows.deep_view() =~= target.subrange(0, i + 1));
        }
        i = i + 1;
    }
    proof {
        assert(rows.deep_view() =~= target);
    }
    encode_table(&rows, ",")
}

/// Text of a project table, cells joined by comma and space.
pub fn project_table_text(table: &Vec<ProjectItem>) -> (r: String)
    ensures
        r@ == spec_encode_table(
            table@.map_values(|it: ProjectItem| spec_project_to_cells(it@)),
            ", "@,
        ),
{
    let ghost target = table@.map_values(|it: ProjectItem| spec_project_to_cells(it@));
    let mut rows: Vec<Vec<String>> = Vec::new();
    let mut i: usize = 0;
    while i < table.len()
        invariant
            i <= table@.len(),
            target == table@.map_values(|it: ProjectItem| spec_project_to_cells(it@)),
            rows.deep_view() == target.subrange(0, i as int),
        decreases table@.len() - i,
    {
        let ghost before = rows.deep_view();
        let row = table[i].to_vec();
        rows.push(row);
        proof {
            assert(rows.deep_view() =~= before.push(spec_project_to_cells(table@[i as int]@)));
            assert(rows.deep_view() =~= target.subrange(0, i + 1));
        }
        i = i + 1;
    }
    proof {
        assert(rows.deep_view() =~= target);
    }
    encode_table(&rows, ", ")
}

/// Text of a roster table, cells joined by comma and space.
pub fn group_table_text(table: &Vec<GroupItem>) -> (r: String)
    ensures
        r@ == spec_encode_table(
            table@.map_values(|it: GroupItem| spec_group_to_cells(it@)),
            ", "@,
        ),
{
    let ghost target = table@.map_values(|it: GroupItem| spec_group_to_cells(it@));
    let mut rows: Vec<Vec<String>> = Vec::new();
    let mut i: usize = 0;
    while i < table.len()
        invariant
            i <= table@.len(),
            target == table@.map_values(|it: GroupItem| spec_group_to_cells(it@)),
            rows.deep_view() == target.subrange(0, i as int),
        decreases table@.len() - i,
    {
        let ghost before = rows.deep_view();
        let row = table[i].to_vec();
        rows.push(row);
        proof {
            assert(rows.deep_view() =~= before.push(spec_group_to_cells(table@[i as int]@)));
            assert(rows.deep_view() =~= target.subrange(0, i + 1));
        }
        i = i + 1;
    }
    proof {
        assert(rows.deep_view() =~= target);
    }
    encode_table(&rows, ", ")
}

/// Builds the text of a fresh final grade table from a raw roster
/// text: one zero-filled record per input row, identity from its
/// first two cells.
pub fn build_final_text(input_text: &String) -> (r: String)
    ensures
        r@ == spec_encode_table(
            spec_parse_rows(input_text@).map_values(
                |row: Seq<Seq<char>>| spec_final_to_cells(spec_final_from_id_name(row)),
            ),
            ","@,
        ),
{
    let table = split_to_table(input_text.clone());
    let ghost target = spec_parse_rows(input_text@).map_values(
        |row: Seq<Seq<char>>| spec_final_to_cells(spec_final_from_id_name(row)),
    );
    let mut rows: Vec<Vec<String>> = Vec::new();
    let mut i: usize = 0;
    while i < table.len()
        invariant
            i <= table@.len(),
            table.deep_view() == spec_parse_rows(input_text@),
            target == spec_parse_rows(input_text@).map_values(
                |row: Seq<Seq<char>>| spec_final_to_cells(spec_final_from_id_name(row)),
            ),
            rows.deep_view() == target.subrange(0, i as int),
        decreases table@.len() - i,
    {
        let ghost before = rows.deep_view();
        let item = FinalItem::from_id_name(&table[i]);
        let row = item.to_vec();
        rows.push(row);
        proof {
            assert(table@[i as int].deep_view() == table.deep_view()[i as int]);
            assert(rows.deep_view() =~= before.push(
                spec_final_to_cells(spec_final_from_id_name(table.deep_view()[i as int])),
            ));
            assert(rows.deep_view() =~= target.subrange(0, i + 1));
        }
        i = i + 1;
    }
    proof {
        assert(rows.deep_view() =~= target);
    }
    encode_table(&rows, ",")
}

/// Builds the text of a roster table from a raw roster text: each row
/// decoded, a row that does not decode replaced by the default
/// roster.
pub fn build_group_text(input_text: &String) -> (r: String)
    ensures
        r@ == spec_encode_table(
            spec_parse_rows(input_text@).map_values(
                |row: Seq<Seq<char>>| spec_group_to_cells(spec_group_or_default(row)),
            ),
            ","@,
        ),
{
    let table = split_to_table(input_text.clone());
    let ghost target = spec_parse_rows(input_text@).map_values(
        |row: Seq<Seq<char>>| spec_group_to_cells(spec_group_or_default(row)),
    );
    let mut rows: Vec<Vec<String>> = Vec::new();
    let mut i: usize = 0;
    while i < table.len()
        invariant
            i <= table@.len(),
            table.deep_view() == spec_parse_rows(input_text@),
            target == spec_parse_rows(input_text@).map_values(
                |row: Seq<Seq<char>>| spec_group_to_cells(spec_group_or_default(row)),
            ),
            rows.deep_view() == target.subrange(0, i as int),
        decreases table@.len() - i,
    {
        let ghost before = rows.deep_view();
        let item = GroupItem::from_raw(&table[i]);
        let row = item.to_vec();
        rows.push(row);
        proof {
            assert(table@[i as int].deep_view() == table.deep_view()[i as int]);
            assert(rows.deep_view() =~= before.push(
                spec_group_to_cells(spec_group_or_default(table.deep_view()[i as int])),
            ));
            assert(rows.deep_view() =~= target.subrange(0, i + 1));
        }
        i = i + 1;
    }
    proof {
        assert(rows.deep_view() =~= target);
    }
    encode_table(&rows, ",")
}

/// Builds the text of a fresh project table: one default record per
/// group, group identifiers counting from one.
pub fn build_project_text(group_num: usize) -> (r: String)
    ensures
        r@ == spec_encode_table(
            Seq::new(
                group_num as nat,
                |i: int|
                    spec_project_to_cells(
                        ProjectView { group_id: (i + 1) as usize, ..spec_project_default() },
                    ),
            ),
            ","@,
        ),
{
    let ghost target = Seq::new(
        group_num as nat,
        |i: int|
            spec_project_to_cells(
                ProjectView { group_id: (i + 1) as usize, ..spec_project_default() },
            ),
    );
    let mut rows: Vec<Vec<String>> = Vec::new();
    let mut i: usize = 0;
    while i < group_num
        invariant
            i <= group_num,
            target == Seq::new(
                group_num as nat,
                |k: int|
                    spec_project_to_cells(
                        ProjectView { group_id: (k + 1) as usize, ..spec_project_default() },
                    ),
            ),
            rows.deep_view() == target.subrange(0, i as int),
        decreases group_num - i,
    {
        let ghost before = rows.deep_view();
        let mut item = ProjectItem::default();
        item.group_id = i + 1;
        let row = item.to_vec();
        rows.push(row);
        proof {
            assert(item@ == (ProjectView { group_id: (i + 1) as usize, ..spec_project_default() }));
            assert(rows.deep_view() =~= before.push(spec_project_to_cells(item@)));
            assert(rows.deep_view() =~= target.subrange(0, i + 1));
        }
        i = i + 1;
    }
    proof {
        assert(rows.deep_view() =~= target);
    }
    encode_table(&rows, ",")
}

/// Whether a student appears in any group of the roster table.
pub open spec fn spec_in_groups(groups: Seq<GroupView>, s: StudentView) -> bool {
    exists|i: int, j: int|
        0 <= i < groups.len() && 0 <= j < groups[i].group_members.len()
            && groups[i].group_members[j] == s
}

/// The students of the final grade table that appear in no group, in
/// table order.
pub open spec fn spec_ungrouped(groups: Seq<GroupView>, finals: Seq<FinalView>) -> Seq<StudentView>
    decreases finals.len(),
{
    if finals.len() == 0 {
        Seq::empty()
    } else {
        spec_ungrouped(groups, finals.drop_last()) + if spec_in_groups(
            groups,
            finals.last().student_info,
        ) {
            Seq::<StudentView>::empty()
        } else {
            seq![finals.last().student_info]
        }
    }
}

/// Whether the student appears in any group of the roster table.
fn student_in_groups(groups: &Vec<GroupItem>, s: &StudentItem) -> (r: bool)
    ensures
        r == spec_in_groups(groups@.map_values(|g: GroupItem| g@), s@),
{
    let ghost gv = groups@.map_values(|g: GroupItem| g@);
    let mut i: usize = 0;
    while i < groups.len()
        invariant
            i <= groups@.len(),
            gv == groups@.map_values(|g: GroupItem| g@),
            forall|a: int, b: int|
                0 <= a < i && 0 <= b < gv[a].group_members.len() ==> #[trigger] gv[a].group_members[b]
                    != s@,
        decreases groups@.len() - i,
    {
        let members = &groups[i].group_members;
        let mut j: usize = 0;
        while j < members.len()
            invariant
                i < groups@.len(),
                j <= members@.len(),
                gv == groups@.map_values(|g: GroupItem| g@),
                members == &groups@[i as int].group_members,
                gv[i as int].group_members.len() == members@.len(),
                forall|b: int| 0 <= b < j ==> #[trigger] gv[i as int].group_members[b] != s@,
            decreases members@.len() - j,
        {
            proof {
                assert(gv[i as int].group_members[j as int] == members@[j as int]@);
            }
            if student_eq(&members[j], s) {
                return true;
            }
            j = j + 1;
        }
        i = i + 1;
    }
    false
}

/// The students of the final grade table that appear in no group.
pub fn ungrouped_students(groups: &Vec<GroupItem>, finals: &Vec<FinalItem>) -> (r: Vec<
    StudentItem,
>)
    ensures
        r@.map_values(|s: StudentItem| s@) == spec_ungrouped(
            groups@.map_values(|g: GroupItem| g@),
            finals@.map_values(|f: FinalItem| f@),
        ),
{
    let ghost gv = groups@.map_values(|g: GroupItem| g@);
    let ghost fv = finals@.map_values(|f: FinalItem| f@);
    let mut r: Vec<StudentItem> = Vec::new();
    let mut i: usize = 0;
    while i < finals.len()
        invariant
            i <= finals@.len(),
            gv == groups@.map_values(|g: GroupItem| g@),
            fv == finals@.map_values(|f: FinalItem| f@),
            r@.map_values(|s: StudentItem| s@) == spec_ungrouped(gv, fv.subrange(0, i as int)),
        decreases finals@.len() - i,
    {
        let ghost before = r@.map_values(|s: StudentItem| s@);
        proof {
            assert(fv.subrange(0, i + 1).drop_last() =~= fv.subrange(0, i as int));
            assert(fv.subrange(0, i + 1).last() == fv[i as int]);
            assert(fv[i as int] == finals@[i as int]@);
        }
        if !student_in_groups(groups, &finals[i].student_info) {
            r.push(finals[i].student_info.clone());
            proof {
                assert(r@.map_values(|s: StudentItem| s@) =~= before.push(
                    fv[i as int].student_info,
                ));
                assert(r@.map_values(|s: StudentItem| s@) =~= spec_ungrouped(
                    gv,
                    fv.subrange(0, i + 1),
                ));
            }
        } else {
            proof {
                assert(before =~= spec_ungrouped(gv, fv.subrange(0, i + 1)));
            }
        }
        i = i + 1;
    }
    proof {
        assert(fv.subrange(0, i as int) =~= fv);
    }
    r
}

/// The message listing ungrouped students: identifier and name parted
/// by a space, students parted by commas.
pub fn ungrouped_text(students: &Vec<StudentItem>) -> (r: String)
    ensures
        r@ == spec_join_row(
            students@.map_values(|s: StudentItem| s@.student_id + " "@ + s@.student_name),
            ","@,
        ),
{
    let ghost target = students@.map_values(
        |s: StudentItem| s@.student_id + " "@ + s@.student_name,
    );
    let mut r = String::new();
    let mut i: usize = 0;
    while i < students.len()
        invariant
            i <= students@.len(),
            target == students@.map_values(
                |s: StudentItem| s@.student_id + " "@ + s@.student_name,
            ),
            r@ == spec_join_row(target.subrange(0, i as int), ","@),
        decreases students@.len() - i,
    {
        if i > 0 {
            r.append(",");
        }
        r.append(students[i].student_id.as_str());
        r.append(" ");
        r.append(students[i].student_name.as_str());
        proof {
            let t = target.subrange(0, i + 1);
            assert(t.drop_last() =~= target.subrange(0, i as int));
            assert(t.last() == target[i as int]);
            if i == 0 {
                assert(Seq::<char>::empty() + target[0] =~= target[0]);
            }
        }
        i = i + 1;
    }
    proof {
        assert(target.subrange(0, i as int) =~= target);
    }
    r
}

} // verus!
