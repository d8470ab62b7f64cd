//! What hangs off a task: assigned users, tags, subtasks and milestones.

use vstd::prelude::*;

use crate::model::{Milestone, Subtask, TaskAssignee, TaskTag};
use crate::outside::{is_uuid_v4_text, new_id};
use crate::rows::{
    delete_rows_where, delete_rows_where_both, edit_rows, field_is, field_is_not,
    fields_are_not, find_next_position, find_row, has_key, has_pair, has_row_with_both, insert_row,
    is_first_match, lemma_filter_keeps_distinct, lemma_push_keeps_distinct,
    lemma_same_keys_keep_distinct, next_position, no_match, pair_key, primary_key, rows_sorted,
    rows_where, sort_rows, unique_violation, Edit, Field, Row,
};
use crate::store::{Store, StoreView};

verus! {

/// Subtask `s` with subtask `id` marked `done`.
pub open spec fn subtask_marked(s: Subtask, id: Seq<char>, done: bool) -> Subtask {
    if s.id@ == id {
        Subtask { completed: done, ..s }
    } else {
        s
    }
}

/// The subtasks with subtask `id` marked `done`.
pub open spec fn subtasks_marked(ss: Seq<Subtask>, id: Seq<char>, done: bool) -> Seq<Subtask> {
    ss.map_values(|s: Subtask| subtask_marked(s, id, done))
}

/// Milestone `m` with milestone `id` marked `done`.
pub open spec fn milestone_marked(m: Milestone, id: Seq<char>, done: bool) -> Milestone {
    if m.id@ == id {
        Milestone { completed: done, ..m }
    } else {
        m
    }
}

/// The milestones with milestone `id` marked `done`.
pub open spec fn milestones_marked(ms: Seq<Milestone>, id: Seq<char>, done: bool) -> Seq<Milestone> {
    ms.map_values(|m: Milestone| milestone_marked(m, id, done))
}

struct SubtaskMark<'a> {
    id: &'a String,
    done: bool,
}

impl<'a> Edit<Subtask> for SubtaskMark<'a> {
    closed spec fn edited(&self, s: Subtask) -> Subtask {
        subtask_marked(s, self.id@, self.done)
    }

    fn apply(&self, s: &Subtask) -> (r: Subtask) {
        let mut r = s.duplicate();
        if String::eq(&s.id, self.id) {
            r.completed = self.done;
        }
        r
    }
}

struct MilestoneMark<'a> {
    id: &'a String,
    done: bool,
}

impl<'a> Edit<Milestone> for MilestoneMark<'a> {
    closed spec fn edited(&self, m: Milestone) -> Milestone {
        milestone_marked(m, self.id@, self.done)
    }

    fn apply(&self, m: &Milestone) -> (r: Milestone) {
        let mut r = m.duplicate();
        if String::eq(&m.id, self.id) {
            r.completed = self.done;
        }
        r
    }
}

impl Store {
    // ------------------------------------------------------------ assignees
    /// Assigns user `user_id` to task `task_id`; nothing changes where the
    /// user is assigned already.
    pub fn assign_user(&mut self, task_id: String, user_id: String)
        requires
            old(self)@.wf(),
        ensures
            final(self)@.wf(),
            final(self)@ == (StoreView {
                task_assignees: if has_pair(
                    old(self)@.task_assignees,
                    Field::TaskId,
                    task_id@,
                    Field::UserId,
                    user_id@,
                ) {
                    old(self)@.task_assignees
                } else {
                    old(self)@.task_assignees.push(TaskAssignee { task_id, user_id })
                },
                ..old(self)@
            }),
    {
        if !has_row_with_both(&self.task_assignees, Field::TaskId, &task_id, Field::UserId, &user_id) {
            let link = TaskAssignee { task_id, user_id };
            proof {
                assert forall|i: int| 0 <= i < old(self)@.task_assignees.len() implies pair_key::<
                    TaskAssignee,
                >(Field::TaskId, Field::UserId)(#[trigger] old(self)@.task_assignees[i]) != pair_key::<
                    TaskAssignee,
                >(Field::TaskId, Field::UserId)(link) by {
                    if old(self)@.task_assignees[i].field_spec(Field::TaskId) == Some(link.task_id@)
                        && old(self)@.task_assignees[i].field_spec(Field::UserId) == Some(link.user_id@) {
                        assert(has_pair(old(self)@.task_assignees, Field::TaskId, link.task_id@, Field::UserId, link.user_id@));
                    }
                }
                lemma_push_keeps_distinct(
                    old(self)@.task_assignees,
                    pair_key::<TaskAssignee>(Field::TaskId, Field::UserId),
                    link,
                );
            }
            self.task_assignees.push(link);
        }
    }

    /// Removes user `user_id` from task `task_id`.
    pub fn unassign_user(&mut self, task_id: &String, user_id: &String)
        requires
            old(self)@.wf(),
        ensures
            final(self)@.wf(),
            final(self)@ == (StoreView {
                task_assignees: old(self)@.task_assignees.filter(
                    fields_are_not(Field::TaskId, task_id@, Field::UserId, user_id@),
                ),
                ..old(self)@
            }),
    {
        delete_rows_where_both(&mut self.task_assignees, Field::TaskId, task_id, Field::UserId, user_id);
        proof {
            lemma_filter_keeps_distinct(
                old(self)@.task_assignees,
                pair_key::<TaskAssignee>(Field::TaskId, Field::UserId),
                fields_are_not::<TaskAssignee>(Field::TaskId, task_id@, Field::UserId, user_id@),
            );
        }
    }

    // ------------------------------------------------------------ task tags
    /// Puts tag `tag_id` on task `task_id`; nothing changes where it is on
    /// it already.
    pub fn add_tag(&mut self, task_id: String, tag_id: String)
        requires
            old(self)@.wf(),
        ensures
            final(self)@.wf(),
            final(self)@ == (StoreView {
                task_tags: if has_pair(old(self)@.task_tags, Field::TaskId, task_id@, Field::TagId, tag_id@) {
                    old(self)@.task_tags
                } else {
                    old(self)@.task_tags.push(TaskTag { task_id, tag_id })
                },
                ..old(self)@
            }),
    {
        if !has_row_with_both(&self.task_tags, Field::TaskId, &task_id, Field::TagId, &tag_id) {
            let link = TaskTag { task_id, tag_id };
            proof {
                assert forall|i: int| 0 <= i < old(self)@.task_tags.len() implies pair_key::<TaskTag>(
                    Field::TaskId,
                    Field::TagId,
                )(#[trigger] old(self)@.task_tags[i]) != pair_key::<TaskTag>(Field::TaskId, Field::TagId)(
                    link,
                ) by {
                    if old(self)@.task_tags[i].field_spec(Field::TaskId) == Some(link.task_id@)
                        && old(self)@.task_tags[i].field_spec(Field::TagId) == Some(link.tag_id@) {
                        assert(has_pair(old(self)@.task_tags, Field::TaskId, link.task_id@, Field::TagId, link.tag_id@));
                    }
                }
                lemma_push_keeps_distinct(
                    old(self)@.task_tags,
                    pair_key::<TaskTag>(Field::TaskId, Field::TagId),
                    link,
                );
            }
            self.task_tags.push(link);
        }
    }

    /// Takes tag `tag_id` off task `task_id`.
    pub fn remove_tag(&mut self, task_id: &String, tag_id: &String)
        requires
            old(self)@.wf(),
        ensures
            final(self)@.wf(),
            final(self)@ == (StoreView {
                task_tags: old(self)@.task_tags.filter(fields_are_not(Field::TaskId, task_id@, Field::TagId, tag_id@)),
                ..old(self)@
            }),
    {
        delete_rows_where_both(&mut self.task_tags, Field::TaskId, task_id, Field::TagId, tag_id);
        proof {
            lemma_filter_keeps_distinct(
                old(self)@.task_tags,
                pair_key::<TaskTag>(Field::TaskId, Field::TagId),
                fields_are_not::<TaskTag>(Field::TaskId, task_id@, Field::TagId, tag_id@),
            );
        }
    }

    // ------------------------------------------------------------ subtasks
    /// The subtasks of task `task_id`, ordered by position.
    pub fn get_subtasks(&self, task_id: &String) -> (r: Vec<Subtask>)
        ensures
            r@.to_multiset() == self@.subtasks.filter(field_is(Field::TaskId, task_id@)).to_multiset(),
            rows_sorted(r@),
    {
        sort_rows(rows_where(&self.subtasks, Field::TaskId, task_id))
    }

    /// The position that a new subtask of task `task_id` gets, or `None`
    /// where it would lie beyond the range of positions.
    pub fn next_subtask_position(&self, task_id: &String) -> (r: Option<i32>)
        ensures
            match r {
                Some(p) => p == next_position(self@.subtasks, Field::TaskId, task_id@),
                None => next_position(self@.subtasks, Field::TaskId, task_id@) > i32::MAX,
            },
    {
        find_next_position(&self.subtasks, Field::TaskId, task_id)
    }

    /// Adds the open subtask `id` at the end of task `task_id`. Fails,
    /// changing nothing, where the key is taken.
    pub fn insert_subtask(&mut self, id: String, task_id: String, title: String) -> (r: Result<
        Subtask,
        String,
    >)
        requires
            old(self)@.wf(),
            next_position(old(self)@.subtasks, Field::TaskId, task_id@) <= i32::MAX,
        ensures
            final(self)@.wf(),
            match r {
                Ok(s) => {
                    &&& !has_key(old(self)@.subtasks, id@)
                    &&& s == (Subtask { id, task_id, title, completed: false, position: s.position })
                    &&& s.position == next_position(old(self)@.subtasks, Field::TaskId, task_id@)
                    &&& final(self)@ == (StoreView { subtasks: old(self)@.subtasks.push(s), ..old(self)@ })
                },
                Err(e) => {
                    &&& has_key(old(self)@.subtasks, id@)
                    &&& e@ == unique_violation("subtasks"@)
                    &&& final(self)@ == old(self)@
                },
            },
    {
        let position = match find_next_position(&self.subtasks, Field::TaskId, &task_id) {
            Some(p) => p,
            None => {
                assert(false);
                0
            },
        };
        let subtask = Subtask { id: id.clone(), task_id, title, completed: false, position };
        let row = subtask.duplicate();
        match insert_row(&mut self.subtasks, row, &id, "subtasks") {
            Ok(()) => Ok(subtask),
            Err(e) => Err(e),
        }
    }

    /// Creates an open subtask with a fresh identifier at the end of task
    /// `task_id`.
    pub fn create_subtask(&mut self, task_id: String, title: String) -> (r: Result<Subtask, String>)
        requires
            old(self)@.wf(),
            next_position(old(self)@.subtasks, Field::TaskId, task_id@) <= i32::MAX,
        ensures
            final(self)@.wf(),
            match r {
                Ok(s) => {
                    &&& is_uuid_v4_text(s.id@)
                    &&& s.task_id == task_id && s.title == title && !s.completed
                    &&& s.position == next_position(old(self)@.subtasks, Field::TaskId, task_id@)
                    &&& final(self)@ == (StoreView { subtasks: old(self)@.subtasks.push(s), ..old(self)@ })
                },
                Err(e) => {
                    &&& e@ == unique_violation("subtasks"@)
                    &&& final(self)@ == old(self)@
                    &&& exists|id: String| #[trigger] is_uuid_v4_text(id@) && has_key(old(self)@.subtasks, id@)
                },
            },
    {
        let id = new_id();
        let ghost fresh = id;
        let r = self.insert_subtask(id, task_id, title);
        proof {
            if r is Err {
                assert(is_uuid_v4_text(fresh@) && has_key(old(self)@.subtasks, fresh@));
            }
        }
        r
    }

    /// Flips subtask `id` between done and open and returns its new state;
    /// fails, changing nothing, where there is no such subtask.
    pub fn toggle_subtask(&mut self, id: &String) -> (r: Result<bool, String>)
        requires
            old(self)@.wf(),
        ensures
            final(self)@.wf(),
            match r {
                Ok(done) => {
                    &&& exists|i: int|
                        #[trigger] is_first_match(old(self)@.subtasks, Field::Id, id@, i) && done
                            == !old(self)@.subtasks[i].completed
                    &&& final(self)@ == (StoreView {
                        subtasks: subtasks_marked(old(self)@.subtasks, id@, done),
                        ..old(self)@
                    })
                },
                Err(e) => {
                    &&& no_match(old(self)@.subtasks, Field::Id, id@)
                    &&& e@ == "Query returned no rows"@
                    &&& final(self)@ == old(self)@
                },
            },
    {
        let i = match find_row(&self.subtasks, Field::Id, id) {
            Some(i) => i,
            None => {
                return Err("Query returned no rows".to_owned());
            },
        };
        let done = !self.subtasks[i].completed;
        let edit = SubtaskMark { id, done };
        let rows = edit_rows(&self.subtasks, &edit);
        proof {
            assert(rows@ =~= subtasks_marked(old(self)@.subtasks, id@, done));
            lemma_same_keys_keep_distinct(old(self)@.subtasks, rows@, primary_key::<Subtask>());
            assert(is_first_match(old(self)@.subtasks, Field::Id, id@, i as int));
        }
        self.subtasks = rows;
        Ok(done)
    }

    /// Deletes subtask `id`.
    pub fn delete_subtask(&mut self, id: &String)
        requires
            old(self)@.wf(),
        ensures
            final(self)@.wf(),
            final(self)@ == (StoreView {
                subtasks: old(self)@.subtasks.filter(field_is_not(Field::Id, id@)),
                ..old(self)@
            }),
    {
        delete_rows_where(&mut self.subtasks, Field::Id, id);
        proof {
            lemma_filter_keeps_distinct(old(self)@.subtasks, primary_key::<Subtask>(), field_is_not::<Subtask>(Field::Id, id@));
        }
    }

    // ------------------------------------------------------------ milestones
    /// The milestones of task `task_id`, ordered by position.
    pub fn get_milestones(&self, task_id: &String) -> (r: Vec<Milestone>)
        ensures
            r@.to_multiset() == self@.milestones.filter(field_is(Field::TaskId, task_id@)).to_multiset(),
            rows_sorted(r@),
    {
        sort_rows(rows_where(&self.milestones, Field::TaskId, task_id))
    }

    /// The position that a new milestone of task `task_id` gets, or `None`
    /// where it would lie beyond the range of positions.
    pub fn next_milestone_position(&self, task_id: &String) -> (r: Option<i32>)
        ensures
            match r {
                Some(p) => p == next_position(self@.milestones, Field::TaskId, task_id@),
                None => next_position(self@.milestones, Field::TaskId, task_id@) > i32::MAX,
            },
    {
        find_next_position(&self.milestones, Field::TaskId, task_id)
    }

    /// Adds the open milestone `id` at the end of task `task_id`. Fails,
    /// changing nothing, where the key is taken.
    pub fn insert_milestone(&mut self, id: String, task_id: String, title: String, due_date: Option<String>) -> (r:
        Result<Milestone, String>)
        requires
            old(self)@.wf(),
            next_position(old(self)@.milestones, Field::TaskId, task_id@) <= i32::MAX,
        ensures
            final(self)@.wf(),
            match r {
                Ok(m) => {
                    &&& !has_key(old(self)@.milestones, id@)
                    &&& m == (Milestone { id, task_id, title, completed: false, position: m.position, due_date })
                    &&& m.position == next_position(old(self)@.milestones, Field::TaskId, task_id@)
                    &&& final(self)@ == (StoreView { milestones: old(self)@.milestones.push(m), ..old(self)@ })
                },
                Err(e) => {
                    &&& has_key(old(self)@.milestones, id@)
                    &&& e@ == unique_violation("milestones"@)
                    &&& final(self)@ == old(self)@
                },
            },
    {
        let position = match find_next_position(&self.milestones, Field::TaskId, &task_id) {
            Some(p) => p,
            None => {
                assert(false);
                0
            },
        };
        let milestone = Milestone { id: id.clone(), task_id, title, completed: false, position, due_date };
        let row = milestone.duplicate();
        match insert_row(&mut self.milestones, row, &id, "milestones") {
            Ok(()) => Ok(milestone),
            Err(e) => Err(e),
        }
    }

    /// Creates an open milestone with a fresh identifier at the end of task
    /// `task_id`.
    pub fn create_milestone(&mut self, task_id: String, title: String, due_date: Option<String>) -> (r: Result<
        Milestone,
        String,
    >)
        requires
            old(self)@.wf(),
            next_position(old(self)@.milestones, Field::TaskId, task_id@) <= i32::MAX,
        ensures
            final(self)@.wf(),
            match r {
                Ok(m) => {
                    &&& is_uuid_v4_text(m.id@)
                    &&& m.task_id == task_id && m.title == title && !m.completed && m.due_date == due_date
                    &&& m.position == next_position(old(self)@.milestones, Field::TaskId, task_id@)
                    &&& final(self)@ == (StoreView { milestones: old(self)@.milestones.push(m), ..old(self)@ })
                },
                Err(e) => {
                    &&& e@ == unique_violation("milestones"@)
                    &&& final(self)@ == old(self)@
                    &&& exists|id: String| #[trigger] is_uuid_v4_text(id@) && has_key(old(self)@.milestones, id@)
                },
            },
    {
        let id = new_id();
        let ghost fresh = id;
        let r = self.insert_milestone(id, task_id, title, due_date);
        proof {
            if r is Err {
                assert(is_uuid_v4_text(fresh@) && has_key(old(self)@.milestones, fresh@));
            }
        }
        r
    }

    /// Flips milestone `id` between done and open and returns its new state;
    /// fails, changing nothing, where there is no such milestone.
    pub fn toggle_milestone(&mut self, id: &String) -> (r: Result<bool, String>)
        requires
            old(self)@.wf(),
        ensures
            final(self)@.wf(),
            match r {
                Ok(done) => {
                    &&& exists|i: int|
                        #[trigger] is_first_match(old(self)@.milestones, Field::Id, id@, i) && done
                            == !old(self)@.milestones[i].completed
                    &&& final(self)@ == (StoreView {
                        milestones: milestones_marked(old(self)@.milestones, id@, done),
                        ..old(self)@
                    })
                },
                Err(e) => {
                    &&& no_match(old(self)@.milestones, Field::Id, id@)
                    &&& e@ == "Query returned no rows"@
                    &&& final(self)@ == old(self)@
                },
            },
    {
        let i = match find_row(&self.milestones, Field::Id, id) {
            Some(i) => i,
            None => {
                return Err("Query returned no rows".to_owned());
            },
        };
        let done = !self.milestones[i].completed;
        let edit = MilestoneMark { id, done };
        let rows = edit_rows(&self.milestones, &edit);
        proof {
            assert(rows@ =~= milestones_marked(old(self)@.milestones, id@, done));
            lemma_same_keys_keep_distinct(old(self)@.milestones, rows@, primary_key::<Milestone>());
            assert(is_first_match(old(self)@.milestones, Field::Id, id@, i as int));
        }
        self.milestones = rows;
        Ok(done)
    }

    /// Deletes milestone `id`.
    pub fn delete_milestone(&mut self, id: &String)
        requires
            old(self)@.wf(),
        ensures
            final(self)@.wf(),
            final(self)@ == (StoreView {
                milestones: old(self)@.milestones.filter(field_is_not(Field::Id, id@)),
                ..old(self)@
            }),
    {
        delete_rows_where(&mut self.milestones, Field::Id, id);
        proof {
            lemma_filter_keeps_distinct(old(self)@.milestones, primary_key::<Milestone>(), field_is_not::<Milestone>(Field::Id, id@));
        }
    }
}

} // verus!
