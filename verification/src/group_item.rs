//! Group rosters: a group identifier and its ordered list of members,
//! with the codec between a roster and a row of cells.
//!
//! A roster row is the group identifier followed by one pair of cells
//! per member: student identifier, then student name.

use vstd::prelude::*;

use crate::score::{spec_parse_index, spec_render_index, lemma_index_round_trip, parse_index,
    render_index};

verus! {

#[derive(PartialEq, Debug)]
pub struct StudentItem {
    pub student_id: String,
    pub student_name: String,
}

pub struct StudentView {
    pub student_id: Seq<char>,
    pub student_name: Seq<char>,
}

impl View for StudentItem {
    type V = StudentView;

    open spec fn view(&self) -> StudentView {
        StudentView { student_id: self.student_id@, student_name: self.student_name@ }
    }
}

impl Clone for StudentItem {
    fn clone(&self) -> (r: Self)
        ensures
            r@ == self@,
    {
        StudentItem { student_id: self.student_id.clone(), student_name: self.student_name.clone() }
    }
}

/// Whether two students are the same: equal identifier and equal name.
pub fn student_eq(a: &StudentItem, b: &StudentItem) -> (r: bool)
    ensures
        r == (a@ == b@),
{
    let same = a.student_id == b.student_id && a.student_name == b.student_name;
    proof {
        if same {
            assert(a@ == b@);
        }
    }
    same
}

#[derive(PartialEq, Debug)]
pub struct GroupItem {
    pub group_id: usize,
    pub group_members: Vec<StudentItem>,
}

pub struct GroupView {
    pub group_id: usize,
    pub group_members: Seq<StudentView>,
}

impl View for GroupItem {
    type V = GroupView;

    open spec fn view(&self) -> GroupView {
        GroupView {
            group_id: self.group_id,
            group_members: self.group_members@.map_values(|m: StudentItem| m@),
        }
    }
}

/// The default roster: group zero with three blank members.
pub open spec fn spec_group_default() -> GroupView {
    GroupView {
        group_id: 0,
        group_members: seq![
            StudentView { student_id: ""@, student_name: "default"@ },
            StudentView { student_id: ""@, student_name: "default"@ },
            StudentView { student_id: ""@, student_name: "default"@ },
        ],
    }
}

/// Cell row of a roster: the group identifier, then identifier and
/// name of each member in order.
pub open spec fn spec_group_to_cells(v: GroupView) -> Seq<Seq<char>> {
    seq![spec_render_index(v.group_id)] + Seq::new(
        2 * v.group_members.len(),
        |i: int|
            if i % 2 == 0 {
                v.group_members[i / 2].student_id
            } else {
                v.group_members[i / 2].student_name
            },
    )
}

/// Roster read from a cell row; an error carries its message. The row
/// must hold an identifier cell followed by whole pairs.
pub open spec fn spec_group_from_cells(cells: Seq<Seq<char>>) -> Result<GroupView, Seq<char>> {
    if cells.len() < 1 || (cells.len() - 1) % 2 != 0 {
        Err("Input vector length is invalid"@)
    } else {
        match spec_parse_index(cells[0]) {
            None => Err("invalid number"@),
            Some(id) => Ok(
                GroupView {
                    group_id: id,
                    group_members: Seq::new(
                        ((cells.len() - 1) / 2) as nat,
                        |i: int|
                            StudentView {
                                student_id: cells[1 + 2 * i],
                                student_name: cells[2 + 2 * i],
                            },
                    ),
                },
            ),
        }
    }
}

/// The roster a raw row stands for: its decoded roster, or the
/// default roster where the row does not decode.
pub open spec fn spec_group_or_default(cells: Seq<Seq<char>>) -> GroupView {
    match spec_group_from_cells(cells) {
        Ok(v) => v,
        Err(_) => spec_group_default(),
    }
}

/// Every encoded roster decodes back to itself.
pub proof fn lemma_group_round_trip(v: GroupView)
    ensures
        spec_group_from_cells(spec_group_to_cells(v)) == Ok::<GroupView, Seq<char>>(v),
{
    let cells = spec_group_to_cells(v);
    let m = v.group_members.len();
    assert(cells.len() == 1 + 2 * m);
    assert((cells.len() - 1) % 2 == 0);
    assert(cells[0] == spec_render_index(v.group_id));
    lemma_index_round_trip(v.group_id);
    let ms = Seq::new(
        ((cells.len() - 1) / 2) as nat,
        |i: int| StudentView { student_id: cells[1 + 2 * i], student_name: cells[2 + 2 * i] },
    );
    assert forall|i: int| 0 <= i < m implies ms[i] == v.group_members[i] by {
        assert(cells[1 + 2 * i] == v.group_members[i].student_id);
        assert(cells[2 + 2 * i] == v.group_members[i].student_name);
    }
    assert(ms =~= v.group_members);
}

impl GroupItem {
    /// The cell row of this roster.
    pub fn to_vec(&self) -> (r: Vec<String>)
        ensures
            r.deep_view() == spec_group_to_cells(self@),
    {
        let mut r: Vec<String> = Vec::new();
        r.push(render_index(self.group_id));
        let mut i: usize = 0;
        while i < self.group_members.len()
            invariant
                i <= self.group_members@.len(),
                r.deep_view() == spec_group_to_cells(self@).subrange(0, 1 + 2 * i),
            decreases self.group_members@.len() - i,
        {
            let ghost target = spec_group_to_cells(self@);
            let ghost before = r.deep_view();
            r.push(self.group_members[i].student_id.clone());
            proof {
                assert(r.deep_view() =~= before.push(self@.group_members[i as int].student_id));
            }
            let ghost mid = r.deep_view();
            r.push(self.group_members[i].student_name.clone());
            proof {
                assert(r.deep_view() =~= mid.push(self@.group_members[i as int].student_name));
                assert(target[1 + 2 * i] == self@.group_members[i as int].student_id);
                assert(target[2 + 2 * i] == self@.group_members[i as int].student_name);
                assert(r.deep_view() =~= target.subrange(0, 1 + 2 * (i + 1)));
            }
            i = i + 1;
        }
        proof {
            assert(r.deep_view() =~= spec_group_to_cells(self@));
        }
        r
    }

    /// Reads a roster from a cell row; an error names what was wrong
    /// with the row.
    pub fn from_vec(vec: &Vec<String>) -> (r: Result<Self, String>)
        ensures
            match r {
                Ok(g) => spec_group_from_cells(vec.deep_view()) == Ok::<GroupView, Seq<char>>(g@),
                Err(m) => spec_group_from_cells(vec.deep_view()) == Err::<GroupView, Seq<char>>(
                    m@,
                ),
            },
    {
        let ghost cells = vec.deep_view();
        if vec.len() < 1 || (vec.len() - 1) % 2 != 0 {
            return Err(String::from_str("Input vector length is invalid"));
        }
        proof {
            assert(cells[0] == vec@[0]@);
        }
        let id = match parse_index(vec[0].as_str()) {
            Some(id) => id,
            None => {
                return Err(String::from_str("invalid number"));
            },
        };
        let ghost target = Seq::new(
            ((cells.len() - 1) / 2) as nat,
            |i: int| StudentView { student_id: cells[1 + 2 * i], student_name: cells[2 + 2 * i] },
        );
        let mut group_members: Vec<StudentItem> = Vec::new();
        let mut i: usize = 1;
        while i < vec.len() - 1
            invariant
                cells == vec.deep_view(),
                vec@.len() >= 1,
                (vec@.len() - 1) % 2 == 0,
                i % 2 == 1,
                1 <= i <= vec@.len(),
                target == Seq::new(
                    ((cells.len() - 1) / 2) as nat,
                    |k: int|
                        StudentView {
                            student_id: cells[1 + 2 * k],
                            student_name: cells[2 + 2 * k],
                        },
                ),
                group_members@.map_values(|m: StudentItem| m@) == target.subrange(
                    0,
                    (i - 1) / 2,
                ),
            decreases vec@.len() - i,
        {
            let ghost before = group_members@.map_values(|m: StudentItem| m@);
            group_members.push(
                StudentItem {
                    student_id: vec[i].clone(),
                    student_name: vec[i + 1].clone(),
                },
            );
            proof {
                let k = (i - 1) / 2;
                assert(cells[1 + 2 * k] == vec@[i as int]@);
                assert(cells[2 + 2 * k] == vec@[i + 1]@);
                assert(group_members@.map_values(|m: StudentItem| m@) =~= before.push(target[k]));
                assert(group_members@.map_values(|m: StudentItem| m@) =~= target.subrange(
                    0,
                    k + 1,
                ));
            }
            i = i + 2;
        }
        proof {
            assert(i == vec@.len());
            assert(group_members@.map_values(|m: StudentItem| m@) =~= target);
        }
        Ok(GroupItem { group_id: id, group_members })
    }

    /// Reads a roster from a raw row, falling back to the default
    /// roster when the row does not decode.
    pub fn from_raw(row: &Vec<String>) -> (r: Self)
        ensures
            match spec_group_from_cells(row.deep_view()) {
                Ok(v) => r@ == v,
                Err(_) => r@ == spec_group_default(),
            },
    {
        match Self::from_vec(row) {
            Ok(g) => g,
            Err(_) => Self::default(),
        }
    }
}

impl Default for GroupItem {
    /// The default roster: group zero with three blank members.
    fn default() -> (r: Self)
        ensures
            r@ == spec_group_default(),
    {
        let empty_id = String::new();
        proof {
            reveal_strlit("");
            assert(empty_id@ =~= ""@);
        }
        let member0 = StudentItem {
            student_id: empty_id,
            student_name: String::from_str("default"),
        };
        let member1 = member0.clone();
        let member2 = member0.clone();
        let mut group_members: Vec<StudentItem> = Vec::new();
        group_members.push(member0);
        group_members.push(member1);
        group_members.push(member2);
        let r = GroupItem { group_id: 0, group_members };
        proof {
            assert(r@.group_members =~= spec_group_default().group_members);
        }
        r
    }
}

} // verus!
