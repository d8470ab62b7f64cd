//! Tasks: listing, details, creation, edits, moves, completion and deletion.

use vstd::prelude::*;

use crate::model::{
    copy_opt, ActivityRecord, CommentRecord, Milestone, Subtask, Tag, Task, TaskAssignee, TaskTag,
    TaskWithDetails, TimeEntryRecord, User,
};
use crate::outside::{is_clock_text, is_uuid_v4_text, new_id, now_rfc3339};
use crate::rows::{
    delete_rows_where, edit_rows, field_is, field_is_not, find_next_position, find_row, has_key,
    insert_row, is_first_match, lemma_filter_keeps_distinct, lemma_same_keys_keep_distinct,
    linked_to, next_position, no_match, pair_key, primary_key, rows_linked, rows_sorted, rows_where,
    sort_rows, unique_violation, Edit, Field, Row,
};
use crate::store::{Store, StoreView};

verus! {

/// Task `t` after an edit of task `id` stamped with `now`.
pub open spec fn task_edited(
    t: Task,
    id: Seq<char>,
    title: String,
    description: String,
    priority: String,
    due_date: Option<String>,
    start_date: Option<String>,
    estimated_hours_bits: u64,
    recurring: Option<String>,
    recurring_interval: Option<i32>,
    now: String,
) -> Task {
    if t.id@ == id {
        Task {
            title,
            description: Some(description),
            priority,
            due_date,
            start_date,
            estimated_hours_bits,
            recurring,
            recurring_interval,
            updated_at: now,
            ..t
        }
    } else {
        t
    }
}

/// The tasks after an edit of task `id` stamped with `now`.
pub open spec fn tasks_after_edit(
    ts: Seq<Task>,
    id: Seq<char>,
    title: String,
    description: String,
    priority: String,
    due_date: Option<String>,
    start_date: Option<String>,
    estimated_hours_bits: u64,
    recurring: Option<String>,
    recurring_interval: Option<i32>,
    now: String,
) -> Seq<Task> {
    ts.map_values(
        |t: Task|
            task_edited(
                t,
                id,
                title,
                description,
                priority,
                due_date,
                start_date,
                estimated_hours_bits,
                recurring,
                recurring_interval,
                now,
            ),
    )
}

/// Task `t` after task `id` is moved to `position` of column `column_id`.
pub open spec fn task_moved(t: Task, id: Seq<char>, column_id: String, position: i32, now: String) -> Task {
    if t.id@ == id {
        Task { column_id, position, updated_at: now, ..t }
    } else {
        t
    }
}

/// The tasks after task `id` is moved to `position` of column `column_id`.
pub open spec fn tasks_after_move(
    ts: Seq<Task>,
    id: Seq<char>,
    column_id: String,
    position: i32,
    now: String,
) -> Seq<Task> {
    ts.map_values(|t: Task| task_moved(t, id, column_id, position, now))
}

/// Task `t` after task `id` is completed at `now`.
pub open spec fn task_completed(t: Task, id: Seq<char>, now: String) -> Task {
    if t.id@ == id {
        Task { completed_at: Some(now), updated_at: now, ..t }
    } else {
        t
    }
}

/// The tasks after task `id` is completed at `now`.
pub open spec fn tasks_after_completion(ts: Seq<Task>, id: Seq<char>, now: String) -> Seq<Task> {
    ts.map_values(|t: Task| task_completed(t, id, now))
}

/// `d` describes task `id` of store `s`: the task, the users assigned to it
/// and the tags on it (in table order), and its subtasks and milestones
/// ordered by position.
pub open spec fn describes_task(d: TaskWithDetails, s: StoreView, id: Seq<char>) -> bool {
    &&& exists|i: int| is_first_match(s.tasks, Field::Id, id, i) && d.task == s.tasks[i]
    &&& d.assignees@ == s.users.filter(linked_to::<User, TaskAssignee>(s.task_assignees, Field::TaskId, id, Field::UserId))
    &&& d.subtasks@.to_multiset() == s.subtasks.filter(field_is(Field::TaskId, id)).to_multiset()
    &&& rows_sorted(d.subtasks@)
    &&& d.milestones@.to_multiset() == s.milestones.filter(field_is(Field::TaskId, id)).to_multiset()
    &&& rows_sorted(d.milestones@)
    &&& d.tags@ == s.tags.filter(linked_to::<Tag, TaskTag>(s.task_tags, Field::TaskId, id, Field::TagId))
}

struct TaskEdit<'a> {
    id: &'a String,
    title: String,
    description: String,
    priority: String,
    due_date: Option<String>,
    start_date: Option<String>,
    estimated_hours_bits: u64,
    recurring: Option<String>,
    recurring_interval: Option<i32>,
    now: String,
}

impl<'a> Edit<Task> for TaskEdit<'a> {
    closed spec fn edited(&self, t: Task) -> Task {
        task_edited(
            t,
            self.id@,
            self.title,
            self.description,
            self.priority,
            self.due_date,
            self.start_date,
            self.estimated_hours_bits,
            self.recurring,
            self.recurring_interval,
            self.now,
        )
    }

    fn apply(&self, t: &Task) -> (r: Task) {
        let mut r = t.duplicate();
        if String::eq(&t.id, self.id) {
            r.title = self.title.clone();
            r.description = Some(self.description.clone());
            r.priority = self.priority.clone();
            r.due_date = copy_opt(&self.due_date);
            r.start_date = copy_opt(&self.start_date);
            r.estimated_hours_bits = self.estimated_hours_bits;
            r.recurring = copy_opt(&self.recurring);
            r.recurring_interval = self.recurring_interval;
            r.updated_at = self.now.clone();
        }
        r
    }
}

struct TaskMove<'a> {
    id: &'a String,
    column_id: String,
    position: i32,
    now: String,
}

impl<'a> Edit<Task> for TaskMove<'a> {
    closed spec fn edited(&self, t: Task) -> Task {
        task_moved(t, self.id@, self.column_id, self.position, self.now)
    }

    fn apply(&self, t: &Task) -> (r: Task) {
        let mut r = t.duplicate();
        if String::eq(&t.id, self.id) {
            r.column_id = self.column_id.clone();
            r.position = self.position;
            r.updated_at = self.now.clone();
        }
        r
    }
}

struct TaskCompletion<'a> {
    id: &'a String,
    now: String,
}

impl<'a> Edit<Task> for TaskCompletion<'a> {
    closed spec fn edited(&self, t: Task) -> Task {
        task_completed(t, self.id@, self.now)
    }

    fn apply(&self, t: &Task) -> (r: Task) {
        let mut r = t.duplicate();
        if String::eq(&t.id, self.id) {
            r.completed_at = Some(self.now.clone());
            r.updated_at = self.now.clone();
        }
        r
    }
}

impl Store {
    /// The tasks of project `project_id`, ordered by position.
    pub fn get_tasks(&self, project_id: &String) -> (r: Vec<Task>)
        ensures
            r@.to_multiset() == self@.tasks.filter(field_is(Field::ProjectId, project_id@)).to_multiset(),
            rows_sorted(r@),
    {
        sort_rows(rows_where(&self.tasks, Field::ProjectId, project_id))
    }

    /// Task `id` with what is attached to it; fails where there is no such
    /// task.
    pub fn get_task(&self, id: &String) -> (r: Result<TaskWithDetails, String>)
        ensures
            match r {
                Ok(d) => describes_task(d, self@, id@),
                Err(e) => no_match(self@.tasks, Field::Id, id@) && e@ == "Query returned no rows"@,
            },
    {
        let i = match find_row(&self.tasks, Field::Id, id) {
            Some(i) => i,
            None => {
                return Err("Query returned no rows".to_owned());
            },
        };
        let task = self.tasks[i].duplicate();
        let assignees = rows_linked(&self.users, &self.task_assignees, Field::TaskId, id, Field::UserId);
        let subtasks = sort_rows(rows_where(&self.subtasks, Field::TaskId, id));
        let milestones = sort_rows(rows_where(&self.milestones, Field::TaskId, id));
        let tags = rows_linked(&self.tags, &self.task_tags, Field::TaskId, id, Field::TagId);
        Ok(TaskWithDetails { task, assignees, subtasks, milestones, tags })
    }

    /// The position that a new task of column `column_id` gets, or `None`
    /// where it would lie beyond the range of positions.
    pub fn next_task_position(&self, column_id: &String) -> (r: Option<i32>)
        ensures
            match r {
                Some(p) => p == next_position(self@.tasks, Field::ColumnId, column_id@),
                None => next_position(self@.tasks, Field::ColumnId, column_id@) > i32::MAX,
            },
    {
        find_next_position(&self.tasks, Field::ColumnId, column_id)
    }

    /// Adds task `id`, created at `now`, at the end of column `column_id`,
    /// with no hours, no start date and no completion. Fails, changing
    /// nothing, where the key is taken.
    pub fn insert_task(
        &mut self,
        id: String,
        now: String,
        project_id: String,
        column_id: String,
        title: String,
        description: String,
        priority: String,
        due_date: Option<String>,
    ) -> (r: Result<Task, String>)
        requires
            old(self)@.wf(),
            next_position(old(self)@.tasks, Field::ColumnId, column_id@) <= i32::MAX,
        ensures
            final(self)@.wf(),
            match r {
                Ok(t) => {
                    &&& !has_key(old(self)@.tasks, id@)
                    &&& t == (Task {
                        id,
                        project_id,
                        column_id,
                        title,
                        description: Some(description),
                        priority,
                        due_date,
                        start_date: None,
                        completed_at: None,
                        estimated_hours_bits: 0,
                        actual_hours_bits: 0,
                        recurring: None,
                        recurring_interval: None,
                        position: t.position,
                        created_by: None,
                        created_at: now,
                        updated_at: now,
                    })
                    &&& t.position == next_position(old(self)@.tasks, Field::ColumnId, column_id@)
                    &&& final(self)@ == (StoreView { tasks: old(self)@.tasks.push(t), ..old(self)@ })
                },
                Err(e) => {
                    &&& has_key(old(self)@.tasks, id@)
                    &&& e@ == unique_violation("tasks"@)
                    &&& final(self)@ == old(self)@
                },
            },
    {
        let position = match find_next_position(&self.tasks, Field::ColumnId, &column_id) {
            Some(p) => p,
            None => {
                assert(false);
                0
            },
        };
        let task = Task {
            id: id.clone(),
            project_id,
            column_id,
            title,
            description: Some(description),
            priority,
            due_date,
            start_date: None,
            completed_at: None,
            estimated_hours_bits: 0,
            actual_hours_bits: 0,
            recurring: None,
            recurring_interval: None,
            position,
            created_by: None,
            created_at: now.clone(),
            updated_at: now,
        };
        let row = task.duplicate();
        match insert_row(&mut self.tasks, row, &id, "tasks") {
            Ok(()) => Ok(task),
            Err(e) => Err(e),
        }
    }

    /// Creates a task with a fresh identifier, stamped with the current time,
    /// at the end of column `column_id`.
    pub fn create_task(
        &mut self,
        project_id: String,
        column_id: String,
        title: String,
        description: String,
        priority: String,
        due_date: Option<String>,
    ) -> (r: Result<Task, String>)
        requires
            old(self)@.wf(),
            next_position(old(self)@.tasks, Field::ColumnId, column_id@) <= i32::MAX,
        ensures
            final(self)@.wf(),
            match r {
                Ok(t) => {
                    &&& is_uuid_v4_text(t.id@)
                    &&& t.project_id == project_id && t.column_id == column_id && t.title == title
                    &&& t.description == Some(description) && t.priority == priority
                    &&& t.due_date == due_date && t.start_date is None && t.completed_at is None
                    &&& t.estimated_hours_bits == 0 && t.actual_hours_bits == 0
                    &&& t.recurring is None && t.recurring_interval is None && t.created_by is None
                    &&& t.position == next_position(old(self)@.tasks, Field::ColumnId, column_id@)
                    &&& t.updated_at == t.created_at && is_clock_text(t.created_at@)
                    &&& final(self)@ == (StoreView { tasks: old(self)@.tasks.push(t), ..old(self)@ })
                },
                Err(e) => {
                    &&& e@ == unique_violation("tasks"@)
                    &&& final(self)@ == old(self)@
                    &&& exists|id: String| #[trigger] is_uuid_v4_text(id@) && has_key(old(self)@.tasks, id@)
                },
            },
    {
        let id = new_id();
        let now = now_rfc3339();
        let ghost fresh = id;
        let r = self.insert_task(id, now, project_id, column_id, title, description, priority, due_date);
        proof {
            if r is Err {
                assert(is_uuid_v4_text(fresh@) && has_key(old(self)@.tasks, fresh@));
            }
        }
        r
    }

    /// Edits task `id`, stamping it with `now`; other tasks are left as they
    /// are.
    pub fn update_task_at(
        &mut self,
        now: String,
        id: &String,
        title: String,
        description: String,
        priority: String,
        due_date: Option<String>,
        start_date: Option<String>,
        estimated_hours_bits: u64,
        recurring: Option<String>,
        recurring_interval: Option<i32>,
    )
        requires
            old(self)@.wf(),
        ensures
            final(self)@.wf(),
            final(self)@ == (StoreView {
                tasks: tasks_after_edit(
                    old(self)@.tasks,
                    id@,
                    title,
                    description,
                    priority,
                    due_date,
                    start_date,
                    estimated_hours_bits,
                    recurring,
                    recurring_interval,
                    now,
                ),
                ..old(self)@
            }),
    {
        let edit = TaskEdit {
            id,
            title,
            description,
            priority,
            due_date,
            start_date,
            estimated_hours_bits,
            recurring,
            recurring_interval,
            now,
        };
        let rows = edit_rows(&self.tasks, &edit);
        proof {
            assert(rows@ =~= tasks_after_edit(
                old(self)@.tasks,
                id@,
                edit.title,
                edit.description,
                edit.priority,
                edit.due_date,
                edit.start_date,
                estimated_hours_bits,
                edit.recurring,
                recurring_interval,
                edit.now,
            ));
            lemma_same_keys_keep_distinct(old(self)@.tasks, rows@, primary_key::<Task>());
        }
        self.tasks = rows;
    }

    /// Edits task `id`, stamping it with the current time.
    pub fn update_task(
        &mut self,
        id: &String,
        title: String,
        description: String,
        priority: String,
        due_date: Option<String>,
        start_date: Option<String>,
        estimated_hours_bits: u64,
        recurring: Option<String>,
        recurring_interval: Option<i32>,
    )
        requires
            old(self)@.wf(),
        ensures
            final(self)@.wf(),
            final(self)@ == (StoreView { tasks: final(self)@.tasks, ..old(self)@ }),
            exists|now: String|
                #[trigger] tasks_after_edit(
                    old(self)@.tasks,
                    id@,
                    title,
                    description,
                    priority,
                    due_date,
                    start_date,
                    estimated_hours_bits,
                    recurring,
                    recurring_interval,
                    now,
                ) == final(self)@.tasks && is_clock_text(now@),
    {
        let now = now_rfc3339();
        let ghost n = now;
        self.update_task_at(
            now,
            id,
            title,
            description,
            priority,
            due_date,
            start_date,
            estimated_hours_bits,
            recurring,
            recurring_interval,
        );
        assert(tasks_after_edit(
            old(self)@.tasks,
            id@,
            title,
            description,
            priority,
            due_date,
            start_date,
            estimated_hours_bits,
            recurring,
            recurring_interval,
            n,
        ) == self@.tasks);
    }

    /// Moves task `id` to `position` of column `column_id`, stamping it with
    /// `now`.
    pub fn move_task_at(&mut self, now: String, id: &String, column_id: String, position: i32)
        requires
            old(self)@.wf(),
        ensures
            final(self)@.wf(),
            final(self)@ == (StoreView {
                tasks: tasks_after_move(old(self)@.tasks, id@, column_id, position, now),
                ..old(self)@
            }),
    {
        let edit = TaskMove { id, column_id, position, now };
        let rows = edit_rows(&self.tasks, &edit);
        proof {
            assert(rows@ =~= tasks_after_move(old(self)@.tasks, id@, edit.column_id, position, edit.now));
            lemma_same_keys_keep_distinct(old(self)@.tasks, rows@, primary_key::<Task>());
        }
        self.tasks = rows;
    }

    /// Moves task `id` to `position` of column `column_id`, stamping it with
    /// the current time.
    pub fn move_task(&mut self, id: &String, column_id: String, position: i32)
        requires
            old(self)@.wf(),
        ensures
            final(self)@.wf(),
            final(self)@ == (StoreView { tasks: final(self)@.tasks, ..old(self)@ }),
            exists|now: String|
                #[trigger] tasks_after_move(old(self)@.tasks, id@, column_id, position, now)
                    == final(self)@.tasks && is_clock_text(now@),
    {
        let now = now_rfc3339();
        let ghost n = now;
        self.move_task_at(now, id, column_id, position);
        assert(tasks_after_move(old(self)@.tasks, id@, column_id, position, n) == self@.tasks);
    }

    /// Marks task `id` completed at `now`.
    pub fn complete_task_at(&mut self, now: String, id: &String)
        requires
            old(self)@.wf(),
        ensures
            final(self)@.wf(),
            final(self)@ == (StoreView {
                tasks: tasks_after_completion(old(self)@.tasks, id@, now),
                ..old(self)@
            }),
    {
        let edit = TaskCompletion { id, now };
        let rows = edit_rows(&self.tasks, &edit);
        proof {
            assert(rows@ =~= tasks_after_completion(old(self)@.tasks, id@, edit.now));
            lemma_same_keys_keep_distinct(old(self)@.tasks, rows@, primary_key::<Task>());
        }
        self.tasks = rows;
    }

    /// Marks task `id` completed at the current time.
    pub fn complete_task(&mut self, id: &String)
        requires
            old(self)@.wf(),
        ensures
            final(self)@.wf(),
            final(self)@ == (StoreView { tasks: final(self)@.tasks, ..old(self)@ }),
            exists|now: String|
                #[trigger] tasks_after_completion(old(self)@.tasks, id@, now) == final(self)@.tasks
                    && is_clock_text(now@),
    {
        let now = now_rfc3339();
        let ghost n = now;
        self.complete_task_at(now, id);
        assert(tasks_after_completion(old(self)@.tasks, id@, n) == self@.tasks);
    }

    /// Deletes task `id` together with its assignments, subtasks, milestones,
    /// tags, comments, time entries and activity log.
    pub fn delete_task(&mut self, id: &String)
        requires
            old(self)@.wf(),
        ensures
            final(self)@.wf(),
            final(self)@ == (StoreView {
                task_assignees: old(self)@.task_assignees.filter(field_is_not(Field::TaskId, id@)),
                subtasks: old(self)@.subtasks.filter(field_is_not(Field::TaskId, id@)),
                milestones: old(self)@.milestones.filter(field_is_not(Field::TaskId, id@)),
                task_tags: old(self)@.task_tags.filter(field_is_not(Field::TaskId, id@)),
                comments: old(self)@.comments.filter(field_is_not(Field::TaskId, id@)),
                time_entries: old(self)@.time_entries.filter(field_is_not(Field::TaskId, id@)),
                activities: old(self)@.activities.filter(field_is_not(Field::TaskId, id@)),
                tasks: old(self)@.tasks.filter(field_is_not(Field::Id, id@)),
                ..old(self)@
            }),
    {
        delete_rows_where(&mut self.task_assignees, Field::TaskId, id);
        delete_rows_where(&mut self.subtasks, Field::TaskId, id);
        delete_rows_where(&mut self.milestones, Field::TaskId, id);
        delete_rows_where(&mut self.task_tags, Field::TaskId, id);
        delete_rows_where(&mut self.comments, Field::TaskId, id);
        delete_rows_where(&mut self.time_entries, Field::TaskId, id);
        delete_rows_where(&mut self.activities, Field::TaskId, id);
        delete_rows_where(&mut self.tasks, Field::Id, id);
        proof {
            lemma_filter_keeps_distinct(
                old(self)@.task_assignees,
                pair_key::<TaskAssignee>(Field::TaskId, Field::UserId),
                field_is_not::<TaskAssignee>(Field::TaskId, id@),
            );
            lemma_filter_keeps_distinct(old(self)@.subtasks, primary_key::<Subtask>(), field_is_not::<Subtask>(Field::TaskId, id@));
            lemma_filter_keeps_distinct(old(self)@.milestones, primary_key::<Milestone>(), field_is_not::<Milestone>(Field::TaskId, id@));
            lemma_filter_keeps_distinct(
                old(self)@.task_tags,
                pair_key::<TaskTag>(Field::TaskId, Field::TagId),
                field_is_not::<TaskTag>(Field::TaskId, id@),
            );
            lemma_filter_keeps_distinct(old(self)@.comments, primary_key::<CommentRecord>(), field_is_not::<CommentRecord>(Field::TaskId, id@));
            lemma_filter_keeps_distinct(
                old(self)@.time_entries,
                primary_key::<TimeEntryRecord>(),
                field_is_not::<TimeEntryRecord>(Field::TaskId, id@),
            );
            lemma_filter_keeps_distinct(
                old(self)@.activities,
                primary_key::<ActivityRecord>(),
                field_is_not::<ActivityRecord>(Field::TaskId, id@),
            );
            lemma_filter_keeps_distinct(old(self)@.tasks, primary_key::<Task>(), field_is_not::<Task>(Field::Id, id@));
        }
    }
}

} // verus!
