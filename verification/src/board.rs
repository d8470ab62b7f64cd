//! Projects and their Kanban columns.

use vstd::prelude::*;

use crate::model::{Column, Project, ProjectMember, Task};
use crate::outside::{is_clock_text, is_uuid_v4_text, new_id, now_rfc3339};
use crate::rows::{
    delete_rows_where, edit_rows, field_is, field_is_not, find_first_least, find_next_position,
    find_row, has_key, insert_row, is_first_least, is_first_match, keys_unique,
    lemma_filter_keeps_distinct, lemma_first_least_unique, lemma_first_match_unique,
    lemma_same_keys_keep_distinct, next_position, no_match, pair_key, primary_key, rows_sorted,
    rows_where, sort_rows, unique_violation, Edit, Field, Row,
};
use crate::store::{Store, StoreView};

verus! {

/// The name of the `i`-th column that every new project gets.
pub open spec fn default_column_name(i: int) -> Seq<char> {
    if i == 0 {
        "To Do"@
    } else if i == 1 {
        "In Progress"@
    } else if i == 2 {
        "In Review"@
    } else {
        "Done"@
    }
}

/// The color of the `i`-th column that every new project gets.
pub open spec fn default_column_color(i: int) -> Seq<char> {
    if i == 0 {
        "#95a5a6"@
    } else if i == 1 {
        "#3498db"@
    } else if i == 2 {
        "#9b59b6"@
    } else {
        "#27ae60"@
    }
}

/// `c` is the `i`-th default column of project `project_id`, with key `id`.
pub open spec fn is_default_column(c: Column, project_id: Seq<char>, id: Seq<char>, i: int) -> bool {
    &&& c.id@ == id
    &&& c.project_id@ == project_id
    &&& c.name@ == default_column_name(i)
    &&& c.position == i
    &&& c.color matches Some(col) && col@ == default_column_color(i)
}

/// `cols` is `before` followed by the first `k` default columns of project
/// `project_id`, keyed by `ids`.
pub open spec fn adds_default_columns(
    before: Seq<Column>,
    cols: Seq<Column>,
    project_id: Seq<char>,
    ids: Seq<String>,
    k: int,
) -> bool {
    &&& cols.len() == before.len() + k
    &&& cols.take(before.len() as int) == before
    &&& forall|i: int|
        0 <= i < k ==> is_default_column(#[trigger] cols[before.len() + i], project_id, ids[i]@, i)
}

/// Default column `k` cannot be added: its key is taken, or an earlier
/// default column has it.
pub open spec fn column_id_clashes(before: Seq<Column>, ids: Seq<String>, k: int) -> bool {
    has_key(before, ids[k]@) || exists|j: int| 0 <= j < k && #[trigger] ids[j]@ == ids[k]@
}

/// `p` is the project that `create_project` records.
pub open spec fn is_new_project(
    p: Project,
    id: String,
    now: String,
    team_id: String,
    name: String,
    description: String,
    color: String,
) -> bool {
    &&& p.id == id
    &&& p.team_id == team_id
    &&& p.name == name
    &&& p.description == Some(description)
    &&& p.color == color
    &&& p.status@ == "active"@
    &&& p.created_at == now
    &&& p.updated_at == now
}

/// Project `p` after an edit of project `id`.
pub open spec fn project_edited(
    p: Project,
    id: Seq<char>,
    name: String,
    description: String,
    color: String,
    now: String,
) -> Project {
    if p.id@ == id {
        Project { name, description: Some(description), color, updated_at: now, ..p }
    } else {
        p
    }
}

/// The projects after an edit of project `id` stamped with `now`.
pub open spec fn projects_after_edit(
    ps: Seq<Project>,
    id: Seq<char>,
    name: String,
    description: String,
    color: String,
    now: String,
) -> Seq<Project> {
    ps.map_values(|p: Project| project_edited(p, id, name, description, color, now))
}

/// Column `c` after an edit of column `id`.
pub open spec fn column_edited(c: Column, id: Seq<char>, name: String, color: String, position: i32) -> Column {
    if c.id@ == id {
        Column { name, color: Some(color), position, ..c }
    } else {
        c
    }
}

/// Task `t`, with the tasks of column `from` moved to column `to`.
pub open spec fn moved_to_column(t: Task, from: Seq<char>, to: String) -> Task {
    if t.column_id@ == from {
        Task { column_id: to, ..t }
    } else {
        t
    }
}

/// The tasks after the tasks of column `from` moved to column `to`.
pub open spec fn tasks_moved_to_column(ts: Seq<Task>, from: Seq<char>, to: String) -> Seq<Task> {
    ts.map_values(|t: Task| moved_to_column(t, from, to))
}

/// The columns after an edit of column `id`.
pub open spec fn columns_after_edit(cs: Seq<Column>, id: Seq<char>, name: String, color: String, position: i32) -> Seq<Column> {
    cs.map_values(|c: Column| column_edited(c, id, name, color, position))
}

fn default_column(k: usize) -> (r: (String, String))
    requires
        k < 4,
    ensures
        r.0@ == default_column_name(k as int),
        r.1@ == default_column_color(k as int),
{
    if k == 0 {
        ("To Do".to_owned(), "#95a5a6".to_owned())
    } else if k == 1 {
        ("In Progress".to_owned(), "#3498db".to_owned())
    } else if k == 2 {
        ("In Review".to_owned(), "#9b59b6".to_owned())
    } else {
        ("Done".to_owned(), "#27ae60".to_owned())
    }
}

struct ProjectEdit<'a> {
    id: &'a String,
    name: String,
    description: String,
    color: String,
    now: String,
}

impl<'a> Edit<Project> for ProjectEdit<'a> {
    closed spec fn edited(&self, p: Project) -> Project {
        project_edited(p, self.id@, self.name, self.description, self.color, self.now)
    }

    fn apply(&self, p: &Project) -> (q: Project) {
        if String::eq(&p.id, self.id) {
            Project {
                id: p.id.clone(),
                team_id: p.team_id.clone(),
                name: self.name.clone(),
                description: Some(self.description.clone()),
                color: self.color.clone(),
                status: p.status.clone(),
                created_at: p.created_at.clone(),
                updated_at: self.now.clone(),
            }
        } else {
            p.duplicate()
        }
    }
}

struct ColumnEdit<'a> {
    id: &'a String,
    name: String,
    color: String,
    position: i32,
}

impl<'a> Edit<Column> for ColumnEdit<'a> {
    closed spec fn edited(&self, c: Column) -> Column {
        column_edited(c, self.id@, self.name, self.color, self.position)
    }

    fn apply(&self, c: &Column) -> (r: Column) {
        let mut r = c.duplicate();
        if String::eq(&c.id, self.id) {
            r.name = self.name.clone();
            r.color = Some(self.color.clone());
            r.position = self.position;
        }
        r
    }
}

struct ColumnMove<'a> {
    from: &'a String,
    to: String,
}

impl<'a> Edit<Task> for ColumnMove<'a> {
    closed spec fn edited(&self, t: Task) -> Task {
        moved_to_column(t, self.from@, self.to)
    }

    fn apply(&self, t: &Task) -> (r: Task) {
        let mut r = t.duplicate();
        if String::eq(&t.column_id, self.from) {
            r.column_id = self.to.clone();
        }
        r
    }
}

impl Store {
    // ------------------------------------------------------------ projects
    /// The projects of team `team_id`, ordered by name.
    pub fn get_projects(&self, team_id: &String) -> (r: Vec<Project>)
        ensures
            r@.to_multiset() == self@.projects.filter(field_is(Field::TeamId, team_id@)).to_multiset(),
            rows_sorted(r@),
    {
        sort_rows(rows_where(&self.projects, Field::TeamId, team_id))
    }

    /// Adds the project `id` created at `now`, then its four default columns
    /// ("To Do", "In Progress", "In Review", "Done" at positions 0 to 3),
    /// keyed by `column_ids`, one after the other. Where the project's key is
    /// taken nothing changes; where a column's key is taken, the project and
    /// the columns added before it stay.
    pub fn insert_project(
        &mut self,
        id: String,
        column_ids: Vec<String>,
        now: String,
        team_id: String,
        name: String,
        description: String,
        color: String,
    ) -> (r: Result<Project, String>)
        requires
            old(self)@.wf(),
            column_ids@.len() == 4,
        ensures
            final(self)@.wf(),
            match r {
                Ok(p) => {
                    &&& !has_key(old(self)@.projects, id@)
                    &&& forall|k: int| 0 <= k < 4 ==> !column_id_clashes(old(self)@.columns, column_ids@, k)
                    &&& is_new_project(p, id, now, team_id, name, description, color)
                    &&& final(self)@ == (StoreView {
                        projects: old(self)@.projects.push(p),
                        columns: final(self)@.columns,
                        ..old(self)@
                    })
                    &&& adds_default_columns(old(self)@.columns, final(self)@.columns, id@, column_ids@, 4)
                },
                Err(e) => {
                    ||| {
                        &&& has_key(old(self)@.projects, id@)
                        &&& e@ == unique_violation("projects"@)
                        &&& final(self)@ == old(self)@
                    }
                    ||| {
                        &&& !has_key(old(self)@.projects, id@)
                        &&& e@ == unique_violation("columns"@)
                        &&& final(self)@.projects.len() == old(self)@.projects.len() + 1
                        &&& final(self)@.projects.drop_last() == old(self)@.projects
                        &&& is_new_project(final(self)@.projects.last(), id, now, team_id, name, description, color)
                        &&& final(self)@ == (StoreView {
                            projects: final(self)@.projects,
                            columns: final(self)@.columns,
                            ..old(self)@
                        })
                        &&& exists|k: int|
                            0 <= k < 4 && column_id_clashes(old(self)@.columns, column_ids@, k)
                                && (forall|j: int| 0 <= j < k ==> !column_id_clashes(old(self)@.columns, column_ids@, j))
                                && adds_default_columns(old(self)@.columns, final(self)@.columns, id@, column_ids@, k)
                    }
                },
            },
    {
        let ghost (g_now, g_team, g_name, g_desc, g_color) = (now, team_id, name, description, color);
        let project = Project {
            id: id.clone(),
            team_id,
            name,
            description: Some(description),
            color,
            status: "active".to_owned(),
            created_at: now.clone(),
            updated_at: now,
        };
        let row = project.duplicate();
        match insert_row(&mut self.projects, row, &id, "projects") {
            Ok(()) => {},
            Err(e) => {
                return Err(e);
            },
        }
        let ghost with_project = self@;
        let ghost before = old(self)@.columns;
        let mut k: usize = 0;
        assert(self.columns@.take(before.len() as int) =~= before);
        while k < 4
            invariant
                k <= 4,
                column_ids@.len() == 4,
                with_project == (StoreView { projects: old(self)@.projects.push(project), ..old(self)@ }),
                with_project.wf(),
                self@ == (StoreView { columns: self@.columns, ..with_project }),
                keys_unique(self@.columns),
                before == old(self)@.columns,
                !has_key(old(self)@.projects, id@),
                is_new_project(project, id, g_now, g_team, g_name, g_desc, g_color),
                g_now == now && g_team == team_id && g_name == name,
                g_desc == description && g_color == color,
                adds_default_columns(before, self@.columns, id@, column_ids@, k as int),
                forall|j: int| 0 <= j < k ==> !column_id_clashes(before, column_ids@, j),
            decreases 4 - k,
        {
            let (cname, ccolor) = default_column(k);
            let col = Column {
                id: column_ids[k].clone(),
                project_id: id.clone(),
                name: cname,
                position: k as i32,
                color: Some(ccolor),
            };
            let ghost cur = self@.columns;
            let ghost kk = k as int;
            proof {
                assert(has_key(cur, column_ids@[kk]@) == column_id_clashes(before, column_ids@, kk)) by {
                    if has_key(cur, column_ids@[kk]@) {
                        let m = choose|m: int|
                            0 <= m < cur.len() && #[trigger] cur[m].field_spec(Field::Id) == Some(
                                column_ids@[kk]@,
                            );
                        if m < before.len() {
                            assert(cur.take(before.len() as int)[m] == cur[m]);
                            assert(has_key(before, column_ids@[kk]@));
                        } else {
                            let j = m - before.len();
                            assert(is_default_column(cur[before.len() + j], id@, column_ids@[j]@, j));
                            assert(column_ids@[j]@ == column_ids@[kk]@);
                        }
                    }
                    if column_id_clashes(before, column_ids@, kk) {
                        if has_key(before, column_ids@[kk]@) {
                            let m = choose|m: int|
                                0 <= m < before.len() && #[trigger] before[m].field_spec(Field::Id)
                                    == Some(column_ids@[kk]@);
                            assert(cur.take(before.len() as int)[m] == before[m]);
                            assert(cur[m].field_spec(Field::Id) == Some(column_ids@[kk]@));
                        } else {
                            let j = choose|j: int| 0 <= j < kk && #[trigger] column_ids@[j]@ == column_ids@[kk]@;
                            assert(is_default_column(cur[before.len() + j], id@, column_ids@[j]@, j));
                            assert(cur[before.len() + j].field_spec(Field::Id) == Some(column_ids@[kk]@));
                        }
                    }
                }
            }
            match insert_row(&mut self.columns, col, &column_ids[k], "columns") {
                Ok(()) => {},
                Err(e) => {
                    proof {
                        assert(column_id_clashes(before, column_ids@, kk));
                        assert(self@.projects.drop_last() =~= old(self)@.projects);
                        assert(0 <= kk < 4 && column_id_clashes(before, column_ids@, kk)
                            && (forall|j: int| 0 <= j < kk ==> !column_id_clashes(before, column_ids@, j))
                            && adds_default_columns(before, self@.columns, id@, column_ids@, kk));
                        assert(!has_key(old(self)@.projects, id@));
                        assert(e@ == unique_violation("columns"@));
                        assert(self@.projects.len() == old(self)@.projects.len() + 1);
                        assert(self@.projects.last() == project);
                        assert(exists|k: int|
                            0 <= k < 4 && column_id_clashes(old(self)@.columns, column_ids@, k)
                                && (forall|j: int| 0 <= j < k ==> !column_id_clashes(old(self)@.columns, column_ids@, j))
                                && adds_default_columns(old(self)@.columns, self@.columns, id@, column_ids@, k));
                        assert(self@ == (StoreView {
                            projects: self@.projects,
                            columns: self@.columns,
                            ..old(self)@
                        }));
                    }
                    return Err(e);
                },
            }
            proof {
                assert(self@.columns.take(before.len() as int) =~= before) by {
                    assert(self@.columns =~= cur.push(col));
                    assert forall|m: int| 0 <= m < before.len() implies self@.columns[m] == before[m] by {
                        assert(cur.take(before.len() as int)[m] == cur[m]);
                    }
                }
                assert forall|i: int| 0 <= i < kk + 1 implies is_default_column(
                    #[trigger] self@.columns[before.len() + i],
                    id@,
                    column_ids@[i]@,
                    i,
                ) by {
                    if i < kk {
                        assert(self@.columns[before.len() + i] == cur[before.len() + i]);
                    }
                }
            }
            k = k + 1;
        }
        Ok(project)
    }

    /// Creates a project with a fresh identifier, stamped with the current
    /// time, together with its four default columns.
    pub fn create_project(&mut self, team_id: String, name: String, description: String, color: String) -> (r:
        Result<Project, String>)
        requires
            old(self)@.wf(),
        ensures
            final(self)@.wf(),
            match r {
                Ok(p) => {
                    &&& is_uuid_v4_text(p.id@)
                    &&& p.team_id == team_id && p.name == name && p.description == Some(description)
                    &&& p.color == color && p.status@ == "active"@ && p.created_at == p.updated_at
                    &&& is_clock_text(p.created_at@)
                    &&& final(self)@ == (StoreView {
                        projects: old(self)@.projects.push(p),
                        columns: final(self)@.columns,
                        ..old(self)@
                    })
                    &&& final(self)@.columns.len() == old(self)@.columns.len() + 4
                    &&& final(self)@.columns.take(old(self)@.columns.len() as int) == old(self)@.columns
                    &&& forall|i: int|
                        0 <= i < 4 ==> {
                            let c = #[trigger] final(self)@.columns[old(self)@.columns.len() + i];
                            &&& is_uuid_v4_text(c.id@)
                            &&& is_default_column(c, p.id@, c.id@, i)
                        }
                },
                Err(e) => {
                    ||| {
                        &&& e@ == unique_violation("projects"@)
                        &&& final(self)@ == old(self)@
                        &&& exists|id: String| #[trigger] is_uuid_v4_text(id@) && has_key(old(self)@.projects, id@)
                    }
                    ||| {
                        let p = final(self)@.projects.last();
                        &&& e@ == unique_violation("columns"@)
                        &&& final(self)@ == (StoreView {
                            projects: final(self)@.projects,
                            columns: final(self)@.columns,
                            ..old(self)@
                        })
                        &&& final(self)@.projects.len() == old(self)@.projects.len() + 1
                        &&& final(self)@.projects.drop_last() == old(self)@.projects
                        &&& is_uuid_v4_text(p.id@)
                        &&& p.team_id == team_id && p.name == name && p.description == Some(description)
                        &&& p.color == color && p.status@ == "active"@ && p.created_at == p.updated_at
                        &&& is_clock_text(p.created_at@)
                        &&& exists|id: String|
                            #[trigger] is_uuid_v4_text(id@) && (has_key(old(self)@.columns, id@) || has_key(
                                final(self)@.columns.skip(old(self)@.columns.len() as int),
                                id@,
                            ))
                        &&& final(self)@.columns.len() < old(self)@.columns.len() + 4
                        &&& final(self)@.columns.take(old(self)@.columns.len() as int) == old(self)@.columns
                        &&& forall|i: int|
                            0 <= i < final(self)@.columns.len() - old(self)@.columns.len() ==> {
                                let c = #[trigger] final(self)@.columns[old(self)@.columns.len() + i];
                                &&& is_uuid_v4_text(c.id@)
                                &&& is_default_column(c, p.id@, c.id@, i)
                            }
                    }
                },
            },
    {
        let id = new_id();
        let mut column_ids: Vec<String> = Vec::new();
        let mut k: usize = 0;
        while k < 4
            invariant
                k <= 4,
                column_ids@.len() == k,
                forall|i: int| 0 <= i < k ==> is_uuid_v4_text(#[trigger] column_ids@[i]@),
            decreases 4 - k,
        {
            column_ids.push(new_id());
            k = k + 1;
        }
        let ghost ids = column_ids@;
        let ghost pid = id;
        let now = now_rfc3339();
        let r = self.insert_project(id, column_ids, now, team_id, name, description, color);
        proof {
            if r is Err && self@.projects.len() == old(self)@.projects.len() + 1 {
                let k = choose|k: int|
                    0 <= k < 4 && column_id_clashes(old(self)@.columns, ids, k)
                        && (forall|j: int| 0 <= j < k ==> !column_id_clashes(old(self)@.columns, ids, j))
                        && adds_default_columns(old(self)@.columns, self@.columns, id@, ids, k);
                assert forall|i: int| 0 <= i < self@.columns.len() - old(self)@.columns.len() implies {
                    let c = #[trigger] self@.columns[old(self)@.columns.len() + i];
                    &&& is_uuid_v4_text(c.id@)
                    &&& is_default_column(c, self@.projects.last().id@, c.id@, i)
                } by {
                    assert(is_default_column(self@.columns[old(self)@.columns.len() + i], id@, ids[i]@, i));
                }
                let b = old(self)@.columns.len() as int;
                let added = self@.columns.skip(b);
                if !has_key(old(self)@.columns, ids[k]@) {
                    let j = choose|j: int| 0 <= j < k && #[trigger] ids[j]@ == ids[k]@;
                    assert(is_default_column(self@.columns[b + j], id@, ids[j]@, j));
                    assert(added[j] == self@.columns[b + j]);
                    assert(added[j].field_spec(Field::Id) == Some(ids[k]@));
                    assert(has_key(added, ids[k]@));
                }
                assert(is_uuid_v4_text(ids[k]@));
            }
            if r is Err && self@.projects.len() == old(self)@.projects.len() {
                assert(is_uuid_v4_text(pid@) && has_key(old(self)@.projects, pid@));
            }
            if r is Ok {
                assert forall|i: int| 0 <= i < 4 implies {
                    let c = #[trigger] self@.columns[old(self)@.columns.len() + i];
                    &&& is_uuid_v4_text(c.id@)
                    &&& is_default_column(c, r->Ok_0.id@, c.id@, i)
                } by {
                    assert(is_default_column(
                        self@.columns[old(self)@.columns.len() + i],
                        r->Ok_0.id@,
                        ids[i]@,
                        i,
                    ));
                }
            }
        }
        r
    }

    /// Edits project `id`, stamping it with `now`; other projects are left as
    /// they are.
    pub fn update_project_at(
        &mut self,
        now: String,
        id: &String,
        name: String,
        description: String,
        color: String,
    )
        requires
            old(self)@.wf(),
        ensures
            final(self)@.wf(),
            final(self)@ == (StoreView {
                projects: projects_after_edit(old(self)@.projects, id@, name, description, color, now),
                ..old(self)@
            }),
    {
        let edit = ProjectEdit { id, name, description, color, now };
        let rows = edit_rows(&self.projects, &edit);
        proof {
            assert(rows@ =~= projects_after_edit(old(self)@.projects, id@, name, description, color, now));
            lemma_same_keys_keep_distinct(old(self)@.projects, rows@, primary_key::<Project>());
        }
        self.projects = rows;
    }

    /// Edits project `id`, stamping it with the current time.
    pub fn update_project(&mut self, id: &String, name: String, description: String, color: String)
        requires
            old(self)@.wf(),
        ensures
            final(self)@.wf(),
            final(self)@ == (StoreView { projects: final(self)@.projects, ..old(self)@ }),
            exists|now: String|
                #[trigger] projects_after_edit(old(self)@.projects, id@, name, description, color, now)
                    == final(self)@.projects && is_clock_text(now@),
    {
        let now = now_rfc3339();
        let ghost n = now;
        self.update_project_at(now, id, name, description, color);
        assert(projects_after_edit(old(self)@.projects, id@, name, description, color, n)
            == self@.projects);
    }

    /// Deletes project `id` with its tasks, its columns and its memberships.
    /// What is attached to the deleted tasks stays.
    pub fn delete_project(&mut self, id: &String)
        requires
            old(self)@.wf(),
        ensures
            final(self)@.wf(),
            final(self)@ == (StoreView {
                tasks: old(self)@.tasks.filter(field_is_not(Field::ProjectId, id@)),
                columns: old(self)@.columns.filter(field_is_not(Field::ProjectId, id@)),
                project_members: old(self)@.project_members.filter(field_is_not(Field::ProjectId, id@)),
                projects: old(self)@.projects.filter(field_is_not(Field::Id, id@)),
                ..old(self)@
            }),
    {
        delete_rows_where(&mut self.tasks, Field::ProjectId, id);
        delete_rows_where(&mut self.columns, Field::ProjectId, id);
        delete_rows_where(&mut self.project_members, Field::ProjectId, id);
        delete_rows_where(&mut self.projects, Field::Id, id);
        proof {
            lemma_filter_keeps_distinct(old(self)@.tasks, primary_key::<Task>(), field_is_not::<Task>(Field::ProjectId, id@));
            lemma_filter_keeps_distinct(old(self)@.columns, primary_key::<Column>(), field_is_not::<Column>(Field::ProjectId, id@));
            lemma_filter_keeps_distinct(
                old(self)@.project_members,
                pair_key::<ProjectMember>(Field::ProjectId, Field::UserId),
                field_is_not::<ProjectMember>(Field::ProjectId, id@),
            );
            lemma_filter_keeps_distinct(old(self)@.projects, primary_key::<Project>(), field_is_not::<Project>(Field::Id, id@));
        }
    }

    // ------------------------------------------------------------ columns
    /// The columns of project `project_id`, ordered by position.
    pub fn get_columns(&self, project_id: &String) -> (r: Vec<Column>)
        ensures
            r@.to_multiset() == self@.columns.filter(field_is(Field::ProjectId, project_id@)).to_multiset(),
            rows_sorted(r@),
    {
        sort_rows(rows_where(&self.columns, Field::ProjectId, project_id))
    }

    /// The position that a new column of project `project_id` gets, or
    /// `None` where it would lie beyond the range of positions.
    pub fn next_column_position(&self, project_id: &String) -> (r: Option<i32>)
        ensures
            match r {
                Some(p) => p == next_position(self@.columns, Field::ProjectId, project_id@),
                None => next_position(self@.columns, Field::ProjectId, project_id@) > i32::MAX,
            },
    {
        find_next_position(&self.columns, Field::ProjectId, project_id)
    }

    /// Adds column `id` at the end of project `project_id`. Fails, changing
    /// nothing, where the key is taken.
    pub fn insert_column(&mut self, id: String, project_id: String, name: String, color: String) -> (r:
        Result<Column, String>)
        requires
            old(self)@.wf(),
            next_position(old(self)@.columns, Field::ProjectId, project_id@) <= i32::MAX,
        ensures
            final(self)@.wf(),
            match r {
                Ok(c) => {
                    &&& !has_key(old(self)@.columns, id@)
                    &&& c.id == id && c.project_id == project_id && c.name == name
                    &&& c.position == next_position(old(self)@.columns, Field::ProjectId, project_id@)
                    &&& c.color == Some(color)
                    &&& final(self)@ == (StoreView { columns: old(self)@.columns.push(c), ..old(self)@ })
                },
                Err(e) => {
                    &&& has_key(old(self)@.columns, id@)
                    &&& e@ == unique_violation("columns"@)
                    &&& final(self)@ == old(self)@
                },
            },
    {
        let position = match find_next_position(&self.columns, Field::ProjectId, &project_id) {
            Some(p) => p,
            None => {
                assert(false);
                0
            },
        };
        let column = Column { id: id.clone(), project_id, name, position, color: Some(color) };
        let row = column.duplicate();
        match insert_row(&mut self.columns, row, &id, "columns") {
            Ok(()) => Ok(column),
            Err(e) => Err(e),
        }
    }

    /// Creates a column with a fresh identifier at the end of project
    /// `project_id`.
    pub fn create_column(&mut self, project_id: String, name: String, color: String) -> (r: Result<
        Column,
        String,
    >)
        requires
            old(self)@.wf(),
            next_position(old(self)@.columns, Field::ProjectId, project_id@) <= i32::MAX,
        ensures
            final(self)@.wf(),
            match r {
                Ok(c) => {
                    &&& is_uuid_v4_text(c.id@)
                    &&& c.project_id == project_id && c.name == name && c.color == Some(color)
                    &&& c.position == next_position(old(self)@.columns, Field::ProjectId, project_id@)
                    &&& final(self)@ == (StoreView { columns: old(self)@.columns.push(c), ..old(self)@ })
                },
                Err(e) => {
                    &&& e@ == unique_violation("columns"@)
                    &&& final(self)@ == old(self)@
                    &&& exists|id: String| #[trigger] is_uuid_v4_text(id@) && has_key(old(self)@.columns, id@)
                },
            },
    {
        let id = new_id();
        let ghost fresh = id;
        let r = self.insert_column(id, project_id, name, color);
        proof {
            if r is Err {
                assert(is_uuid_v4_text(fresh@) && has_key(old(self)@.columns, fresh@));
            }
        }
        r
    }

    /// Edits column `id`; other columns are left as they are.
    pub fn update_column(&mut self, id: &String, name: String, color: String, position: i32)
        requires
            old(self)@.wf(),
        ensures
            final(self)@.wf(),
            final(self)@ == (StoreView {
                columns: columns_after_edit(old(self)@.columns, id@, name, color, position),
                ..old(self)@
            }),
    {
        let edit = ColumnEdit { id, name, color, position };
        let rows = edit_rows(&self.columns, &edit);
        proof {
            assert(rows@ =~= columns_after_edit(old(self)@.columns, id@, name, color, position));
            lemma_same_keys_keep_distinct(old(self)@.columns, rows@, primary_key::<Column>());
        }
        self.columns = rows;
    }

    /// Deletes column `id`. Its tasks move to the column of the same project
    /// with the least position (the first such column), which may be the
    /// deleted column itself; where column `id` does not exist, the tasks
    /// that name it are deleted.
    pub fn delete_column(&mut self, id: &String)
        requires
            old(self)@.wf(),
        ensures
            final(self)@.wf(),
            final(self)@ == (StoreView {
                columns: old(self)@.columns.filter(field_is_not(Field::Id, id@)),
                tasks: final(self)@.tasks,
                ..old(self)@
            }),
            no_match(old(self)@.columns, Field::Id, id@) ==> final(self)@.tasks == old(self)@.tasks.filter(
                field_is_not(Field::ColumnId, id@),
            ),
            !no_match(old(self)@.columns, Field::Id, id@) ==> exists|c: int, k: int|
                #[trigger] is_first_match(old(self)@.columns, Field::Id, id@, c) && #[trigger] is_first_least(
                    old(self)@.columns,
                    Field::ProjectId,
                    old(self)@.columns[c].project_id@,
                    k,
                ),
            forall|c: int, k: int|
                #[trigger] is_first_match(old(self)@.columns, Field::Id, id@, c) && #[trigger] is_first_least(
                    old(self)@.columns,
                    Field::ProjectId,
                    old(self)@.columns[c].project_id@,
                    k,
                ) ==> final(self)@.tasks == tasks_moved_to_column(old(self)@.tasks, id@, old(self)@.columns[k].id),
    {
        let ghost cols = self@.columns;
        match find_row(&self.columns, Field::Id, id) {
            Some(c) => {
                let project_id = self.columns[c].project_id.clone();
                match find_first_least(&self.columns, Field::ProjectId, &project_id) {
                    Some(k) => {
                        let to = self.columns[k].id.clone();
                        let edit = ColumnMove { from: id, to };
                        let rows = edit_rows(&self.tasks, &edit);
                        proof {
                            assert(rows@ =~= tasks_moved_to_column(old(self)@.tasks, id@, cols[k as int].id));
                            lemma_same_keys_keep_distinct(old(self)@.tasks, rows@, primary_key::<Task>());
                            assert forall|c2: int, k2: int|
                                #[trigger] is_first_match(cols, Field::Id, id@, c2) && #[trigger] is_first_least(
                                    cols,
                                    Field::ProjectId,
                                    cols[c2].project_id@,
                                    k2,
                                ) implies c2 == c && k2 == k by {
                                lemma_first_match_unique(cols, Field::Id, id@, c2, c as int);
                                lemma_first_least_unique(cols, Field::ProjectId, project_id@, k2, k as int);
                            }
                        }
                        self.tasks = rows;
                    },
                    None => {
                        assert(cols[c as int].field_spec(Field::ProjectId) == Some(project_id@));
                    },
                }
            },
            None => {
                delete_rows_where(&mut self.tasks, Field::ColumnId, id);
                proof {
                    lemma_filter_keeps_distinct(
                        old(self)@.tasks,
                        primary_key::<Task>(),
                        field_is_not::<Task>(Field::ColumnId, id@),
                    );
                }
            },
        }
        delete_rows_where(&mut self.columns, Field::Id, id);
        proof {
            lemma_filter_keeps_distinct(cols, primary_key::<Column>(), field_is_not::<Column>(Field::Id, id@));
        }
    }
}

} // verus!
