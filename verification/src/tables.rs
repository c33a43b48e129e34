//! Whole-table operations: decoding a table of rows into records with
//! row-scoped error handling, and recomputing every record's derived
//! fields.
//!
//! A row that fails to decode never blocks the rest of the table: it
//! is replaced by the kind's default record and the error message is
//! logged, one entry per failed row.

use vstd::prelude::*;

use crate::final_item::{FinalItem, spec_final_from_cells, spec_final_default, spec_final_fits,
    spec_final_calaculate};
use crate::group_item::{GroupItem, spec_group_from_cells, spec_group_default};
use crate::log::Log;
use crate::project_item::{ProjectItem, spec_project_from_cells, spec_project_default,
    spec_project_fits, spec_project_calaculate};

verus! {

/// Which record kind a table holds.
#[derive(Clone, Copy, PartialEq, Eq, Structural, Debug)]
pub enum TableType {
    FinalScore,
    ProjectScore,
    GroupList,
}

impl Default for TableType {
    /// The kind a fresh table starts with.
    fn default() -> (r: Self)
        ensures
            r == TableType::FinalScore,
    {
        TableType::FinalScore
    }
}

/// Messages of the final-grade rows that fail to decode, in row
/// order.
pub open spec fn spec_final_row_logs(rows: Seq<Seq<Seq<char>>>) -> Seq<Seq<char>>
    decreases rows.len(),
{
    if rows.len() == 0 {
        Seq::empty()
    } else {
        spec_final_row_logs(rows.drop_last()) + match spec_final_from_cells(rows.last()) {
            Ok(_) => Seq::<Seq<char>>::empty(),
            Err(m) => seq![m],
        }
    }
}

/// Messages of the project rows that fail to decode, in row order.
pub open spec fn spec_project_row_logs(rows: Seq<Seq<Seq<char>>>) -> Seq<Seq<char>>
    decreases rows.len(),
{
    if rows.len() == 0 {
        Seq::empty()
    } else {
        spec_project_row_logs(rows.drop_last()) + match spec_project_from_cells(rows.last()) {
            Ok(_) => Seq::<Seq<char>>::empty(),
            Err(m) => seq![m],
        }
    }
}

/// Messages of the roster rows that fail to decode, in row order.
pub open spec fn spec_group_row_logs(rows: Seq<Seq<Seq<char>>>) -> Seq<Seq<char>>
    decreases rows.len(),
{
    if rows.len() == 0 {
        Seq::empty()
    } else {
        spec_group_row_logs(rows.drop_last()) + match spec_group_from_cells(rows.last()) {
            Ok(_) => Seq::<Seq<char>>::empty(),
            Err(m) => seq![m],
        }
    }
}

/// Decodes a table of rows into final grade records. A failed row
/// becomes the default record and one log entry with its message.
pub fn final_table_from_rows(rows: &Vec<Vec<String>>) -> (r: (Vec<FinalItem>, Vec<Log>))
    ensures
        r.0@.len() == rows@.len(),
        forall|i: int|
            0 <= i < rows@.len() ==> #[trigger] r.0@[i]@ == match spec_final_from_cells(
                rows.deep_view()[i],
            ) {
                Ok(v) => v,
                Err(_) => spec_final_default(),
            },
        r.1@.map_values(|l: Log| l@.message) == spec_final_row_logs(rows.deep_view()),
        forall|j: int|
            0 <= j < r.1@.len() ==> (#[trigger] r.1@[j]@).function_info == "Swap Info"@,
{
    let ghost dc = rows.deep_view();
    let mut items: Vec<FinalItem> = Vec::new();
    let mut logs: Vec<Log> = Vec::new();
    let mut i: usize = 0;
    while i < rows.len()
        invariant
            i <= rows@.len(),
            dc == rows.deep_view(),
            items@.len() == i,
            forall|k: int|
                0 <= k < i ==> #[trigger] items@[k]@ == match spec_final_from_cells(dc[k]) {
                    Ok(v) => v,
                    Err(_) => spec_final_default(),
                },
            logs@.map_values(|l: Log| l@.message) == spec_final_row_logs(dc.subrange(0, i as int)),
            forall|j: int|
                0 <= j < logs@.len() ==> (#[trigger] logs@[j]@).function_info == "Swap Info"@,
        decreases rows@.len() - i,
    {
        proof {
            assert(dc[i as int] == rows@[i as int].deep_view());
            assert(dc.subrange(0, i + 1).drop_last() =~= dc.subrange(0, i as int));
            assert(dc.subrange(0, i + 1).last() == dc[i as int]);
        }
        let ghost lm = logs@.map_values(|l: Log| l@.message);
        match FinalItem::from_vec(&rows[i]) {
            Ok(item) => {
                items.push(item);
                proof {
                    assert(lm =~= spec_final_row_logs(dc.subrange(0, i + 1)));
                }
            },
            Err(m) => {
                let ghost mv = m@;
                logs.push(Log::new(String::from_str("Swap Info"), m));
                items.push(FinalItem::default());
                proof {
                    assert(logs@.map_values(|l: Log| l@.message) =~= lm.push(mv));
                    assert(lm.push(mv) =~= spec_final_row_logs(dc.subrange(0, i + 1)));
                }
            },
        }
        i = i + 1;
    }
    proof {
        assert(dc.subrange(0, i as int) =~= dc);
    }
    (items, logs)
}

/// Decodes a table of rows into project records. A failed row becomes
/// the default record and one log entry with its message.
pub fn project_table_from_rows(rows: &Vec<Vec<String>>) -> (r: (Vec<ProjectItem>, Vec<Log>))
    ensures
        r.0@.len() == rows@.len(),
        forall|i: int|
            0 <= i < rows@.len() ==> #[trigger] r.0@[i]@ == match spec_project_from_cells(
                rows.deep_view()[i],
            ) {
                Ok(v) => v,
                Err(_) => spec_project_default(),
            },
        r.1@.map_values(|l: Log| l@.message) == spec_project_row_logs(rows.deep_view()),
        forall|j: int|
            0 <= j < r.1@.len() ==> (#[trigger] r.1@[j]@).function_info == "Swap Info"@,
{
    let ghost dc = rows.deep_view();
    let mut items: Vec<ProjectItem> = Vec::new();
    let mut logs: Vec<Log> = Vec::new();
    let mut i: usize = 0;
    while i < rows.len()
        invariant
            i <= rows@.len(),
            dc == rows.deep_view(),
            items@.len() == i,
            forall|k: int|
                0 <= k < i ==> #[trigger] items@[k]@ == match spec_project_from_cells(dc[k]) {
                    Ok(v) => v,
                    Err(_) => spec_project_default(),
                },
            logs@.map_values(|l: Log| l@.message) == spec_project_row_logs(
                dc.subrange(0, i as int),
            ),
            forall|j: int|
                0 <= j < logs@.len() ==> (#[trigger] logs@[j]@).function_info == "Swap Info"@,
        decreases rows@.len() - i,
    {
        proof {
            assert(dc[i as int] == rows@[i as int].deep_view());
            assert(dc.subrange(0, i + 1).drop_last() =~= dc.subrange(0, i as int));
            assert(dc.subrange(0, i + 1).last() == dc[i as int]);
        }
        let ghost lm = logs@.map_values(|l: Log| l@.message);
        match ProjectItem::from_vec(&rows[i]) {
            Ok(item) => {
                items.push(item);
                proof {
                    assert(lm =~= spec_project_row_logs(dc.subrange(0, i + 1)));
                }
            },
            Err(m) => {
                let ghost mv = m@;
                logs.push(Log::new(String::from_str("Swap Info"), m));
                items.push(ProjectItem::default());
                proof {
                    assert(logs@.map_values(|l: Log| l@.message) =~= lm.push(mv));
                    assert(lm.push(mv) =~= spec_project_row_logs(dc.subrange(0, i + 1)));
                }
            },
        }
        i = i + 1;
    }
    proof {
        assert(dc.subrange(0, i as int) =~= dc);
    }
    (items, logs)
}

/// Decodes a table of rows into group rosters. A failed row becomes
/// the default roster and one log entry with its message.
pub fn group_table_from_rows(rows: &Vec<Vec<String>>) -> (r: (Vec<GroupItem>, Vec<Log>))
    ensures
        r.0@.len() == rows@.len(),
        forall|i: int|
            0 <= i < rows@.len() ==> #[trigger] r.0@[i]@ == match spec_group_from_cells(
                rows.deep_view()[i],
            ) {
                Ok(v) => v,
                Err(_) => spec_group_default(),
            },
        r.1@.map_values(|l: Log| l@.message) == spec_group_row_logs(rows.deep_view()),
        forall|j: int|
            0 <= j < r.1@.len() ==> (#[trigger] r.1@[j]@).function_info == "Swap Info"@,
{
    let ghost dc = rows.deep_view();
    let mut items: Vec<GroupItem> = Vec::new();
    let mut logs: Vec<Log> = Vec::new();
    let mut i: usize = 0;
    while i < rows.len()
        invariant
            i <= rows@.len(),
            dc == rows.deep_view(),
            items@.len() == i,
            forall|k: int|
                0 <= k < i ==> #[trigger] items@[k]@ == match spec_group_from_cells(dc[k]) {
                    Ok(v) => v,
                    Err(_) => spec_group_default(),
                },
            logs@.map_values(|l: Log| l@.message) == spec_group_row_logs(dc.subrange(0, i as int)),
            forall|j: int|
                0 <= j < logs@.len() ==> (#[trigger] logs@[j]@).function_info == "Swap Info"@,
        decreases rows@.len() - i,
    {
        proof {
            assert(dc[i as int] == rows@[i as int].deep_view());
            assert(dc.subrange(0, i + 1).drop_last() =~= dc.subrange(0, i as int));
            assert(dc.subrange(0, i + 1).last() == dc[i as int]);
        }
        let ghost lm = logs@.map_values(|l: Log| l@.message);
        match GroupItem::from_vec(&rows[i]) {
            Ok(item) => {
                items.push(item);
                proof {
                    assert(lm =~= spec_group_row_logs(dc.subrange(0, i + 1)));
                }
            },
            Err(m) => {
                let ghost mv = m@;
                logs.push(Log::new(String::from_str("Swap Info"), m));
                items.push(GroupItem::default());
                proof {
                    assert(logs@.map_values(|l: Log| l@.message) =~= lm.push(mv));
                    assert(lm.push(mv) =~= spec_group_row_logs(dc.subrange(0, i + 1)));
                }
            },
        }
        i = i + 1;
    }
    proof {
        assert(dc.subrange(0, i as int) =~= dc);
    }
    (items, logs)
}

/// Recomputes every final grade record whose raw inputs fit the
/// formulas; the rest stay unchanged. Returns whether every record
/// fit.
pub fn calaculate_final_table(table: &mut Vec<FinalItem>) -> (all_fit: bool)
    ensures
        final(table)@.len() == old(table)@.len(),
        forall|i: int|
            0 <= i < old(table)@.len() ==> #[trigger] final(table)@[i]@ == if spec_final_fits(
                old(table)@[i]@,
            ) {
                spec_final_calaculate(old(table)@[i]@)
            } else {
                old(table)@[i]@
            },
        all_fit == forall|i: int|
            0 <= i < old(table)@.len() ==> spec_final_fits(#[trigger] old(table)@[i]@),
{
    let mut all_fit = true;
    let mut i: usize = 0;
    while i < table.len()
        invariant
            i <= old(table)@.len(),
            table@.len() == old(table)@.len(),
            forall|k: int| i <= k < table@.len() ==> #[trigger] table@[k] == old(table)@[k],
            forall|k: int|
                0 <= k < i ==> #[trigger] table@[k]@ == if spec_final_fits(old(table)@[k]@) {
                    spec_final_calaculate(old(table)@[k]@)
                } else {
                    old(table)@[k]@
                },
            all_fit == forall|k: int|
                0 <= k < i ==> spec_final_fits(#[trigger] old(table)@[k]@),
        decreases table@.len() - i,
    {
        if table[i].fits() {
            table[i].calaculate();
        } else {
            all_fit = false;
        }
        i = i + 1;
    }
    all_fit
}

/// Recomputes every project record whose raw inputs fit the formulas;
/// the rest stay unchanged. Returns whether every record fit.
pub fn calaculate_project_table(table: &mut Vec<ProjectItem>) -> (all_fit: bool)
    ensures
        final(table)@.len() == old(table)@.len(),
        forall|i: int|
            0 <= i < old(table)@.len() ==> #[trigger] final(table)@[i]@ == if spec_project_fits(
                old(table)@[i]@,
            ) {
                spec_project_calaculate(old(table)@[i]@)
            } else {
                old(table)@[i]@
            },
        all_fit == forall|i: int|
            0 <= i < old(table)@.len() ==> spec_project_fits(#[trigger] old(table)@[i]@),
{
    let mut all_fit = true;
    let mut i: usize = 0;
    while i < table.len()
        invariant
            i <= old(table)@.len(),
            table@.len() == old(table)@.len(),
            forall|k: int| i <= k < table@.len() ==> #[trigger] table@[k] == old(table)@[k],
            forall|k: int|
                0 <= k < i ==> #[trigger] table@[k]@ == if spec_project_fits(old(table)@[k]@) {
                    spec_project_calaculate(old(table)@[k]@)
                } else {
                    old(table)@[k]@
                },
            all_fit == forall|k: int|
                0 <= k < i ==> spec_project_fits(#[trigger] old(table)@[k]@),
        decreases table@.len() - i,
    {
        if table[i].fits() {
            table[i].calaculate();
        } else {
            all_fit = false;
        }
        i = i + 1;
    }
    all_fit
}

} // verus!
