//! What each edit does to the rows it touches, field by field, and that it
//! leaves every other row as it was.

use vstd::prelude::*;

use crate::board::{columns_after_edit, projects_after_edit, tasks_moved_to_column};
use crate::items::{milestones_marked, subtasks_marked};
use crate::like::like;
use crate::model::{Column, Milestone, Project, Subtask, Task, TimeEntryRecord};
use crate::tasks::{tasks_after_completion, tasks_after_edit, tasks_after_move};
use crate::tracking::{elapsed_seconds, running_timers_stopped, timers_stopped};
use crate::voice::tasks_done_if_like;

verus! {

/// Moving task `id` puts it in column `column_id` at `position`, stamped
/// `now`, with every other field kept; every other task stays as it was.
pub proof fn law_move_task_places_task(
    ts: Seq<Task>,
    id: Seq<char>,
    column_id: String,
    position: i32,
    now: String,
)
    ensures
        ({
            let r = tasks_after_move(ts, id, column_id, position, now);
            &&& r.len() == ts.len()
            &&& forall|i: int|
                0 <= i < ts.len() ==> {
                    let t = ts[i];
                    let u = #[trigger] r[i];
                    if t.id@ == id {
                        &&& u.column_id == column_id && u.position == position && u.updated_at == now
                        &&& u.id == t.id && u.project_id == t.project_id && u.title == t.title
                        &&& u.description == t.description && u.priority == t.priority
                        &&& u.due_date == t.due_date && u.start_date == t.start_date
                        &&& u.completed_at == t.completed_at
                        &&& u.estimated_hours_bits == t.estimated_hours_bits
                        &&& u.actual_hours_bits == t.actual_hours_bits
                        &&& u.recurring == t.recurring && u.recurring_interval == t.recurring_interval
                        &&& u.created_by == t.created_by && u.created_at == t.created_at
                    } else {
                        u == t
                    }
                }
        }),
{
}

/// Editing task `id` writes each edited field with its argument (the
/// description as present) and the stamp `now`, and keeps the key, project,
/// column, position, completion, spent hours, creator and creation time;
/// every other task stays as it was.
pub proof fn law_update_task_writes_fields(
    ts: Seq<Task>,
    id: Seq<char>,
    title: String,
    description: String,
    priority: String,
    due_date: Option<String>,
    start_date: Option<String>,
    estimated_hours_bits: u64,
    recurring: Option<String>,
    recurring_interval: Option<i32>,
    now: String,
)
    ensures
        ({
            let r = tasks_after_edit(
                ts,
                id,
                title,
                description,
                priority,
                due_date,
                start_date,
                estimated_hours_bits,
                recurring,
                recurring_interval,
                now,
            );
            &&& r.len() == ts.len()
            &&& forall|i: int|
                0 <= i < ts.len() ==> {
                    let t = ts[i];
                    let u = #[trigger] r[i];
                    if t.id@ == id {
                        &&& u.title == title && u.description == Some(description)
                        &&& u.priority == priority && u.due_date == due_date
                        &&& u.start_date == start_date
                        &&& u.estimated_hours_bits == estimated_hours_bits
                        &&& u.recurring == recurring && u.recurring_interval == recurring_interval
                        &&& u.updated_at == now
                        &&& u.id == t.id && u.project_id == t.project_id && u.column_id == t.column_id
                        &&& u.completed_at == t.completed_at && u.actual_hours_bits == t.actual_hours_bits
                        &&& u.position == t.position && u.created_by == t.created_by
                        &&& u.created_at == t.created_at
                    } else {
                        u == t
                    }
                }
        }),
{
}

/// Completing task `id` records it completed at `now` and stamped `now`,
/// with every other field kept; every other task stays as it was.
pub proof fn law_complete_task_records_completion(ts: Seq<Task>, id: Seq<char>, now: String)
    ensures
        ({
            let r = tasks_after_completion(ts, id, now);
            &&& r.len() == ts.len()
            &&& forall|i: int|
                0 <= i < ts.len() ==> {
                    let t = ts[i];
                    let u = #[trigger] r[i];
                    if t.id@ == id {
                        &&& u.completed_at == Some(now) && u.updated_at == now
                        &&& u.id == t.id && u.project_id == t.project_id && u.column_id == t.column_id
                        &&& u.title == t.title && u.description == t.description
                        &&& u.priority == t.priority && u.due_date == t.due_date
                        &&& u.start_date == t.start_date
                        &&& u.estimated_hours_bits == t.estimated_hours_bits
                        &&& u.actual_hours_bits == t.actual_hours_bits && u.recurring == t.recurring
                        &&& u.recurring_interval == t.recurring_interval && u.position == t.position
                        &&& u.created_by == t.created_by && u.created_at == t.created_at
                    } else {
                        u == t
                    }
                }
        }),
{
}

/// A "mark" command completes, at `now`, exactly the tasks whose title
/// matches the pattern, keeping their other fields; the others stay as they
/// were.
pub proof fn law_mark_completes_matching_tasks(ts: Seq<Task>, pattern: Seq<char>, now: String)
    ensures
        ({
            let r = tasks_done_if_like(ts, pattern, now);
            &&& r.len() == ts.len()
            &&& forall|i: int|
                0 <= i < ts.len() ==> {
                    let t = ts[i];
                    let u = #[trigger] r[i];
                    if like(pattern, t.title@) {
                        &&& u.completed_at == Some(now) && u.updated_at == now
                        &&& u.id == t.id && u.project_id == t.project_id && u.column_id == t.column_id
                        &&& u.title == t.title && u.description == t.description
                        &&& u.priority == t.priority && u.due_date == t.due_date
                        &&& u.start_date == t.start_date
                        &&& u.estimated_hours_bits == t.estimated_hours_bits
                        &&& u.actual_hours_bits == t.actual_hours_bits && u.recurring == t.recurring
                        &&& u.recurring_interval == t.recurring_interval && u.position == t.position
                        &&& u.created_by == t.created_by && u.created_at == t.created_at
                    } else {
                        u == t
                    }
                }
        }),
{
}

/// Deleting column `from` moves its tasks to column `to`, keeping their
/// other fields; tasks of other columns stay as they were.
pub proof fn law_column_tasks_move(ts: Seq<Task>, from: Seq<char>, to: String)
    ensures
        ({
            let r = tasks_moved_to_column(ts, from, to);
            &&& r.len() == ts.len()
            &&& forall|i: int|
                0 <= i < ts.len() ==> {
                    let t = ts[i];
                    let u = #[trigger] r[i];
                    if t.column_id@ == from {
                        &&& u.column_id == to
                        &&& u.id == t.id && u.project_id == t.project_id && u.title == t.title
                        &&& u.description == t.description && u.priority == t.priority
                        &&& u.due_date == t.due_date && u.start_date == t.start_date
                        &&& u.completed_at == t.completed_at
                        &&& u.estimated_hours_bits == t.estimated_hours_bits
                        &&& u.actual_hours_bits == t.actual_hours_bits && u.recurring == t.recurring
                        &&& u.recurring_interval == t.recurring_interval && u.position == t.position
                        &&& u.created_by == t.created_by && u.created_at == t.created_at
                        &&& u.updated_at == t.updated_at
                    } else {
                        u == t
                    }
                }
        }),
{
}

/// Editing project `id` writes its name, description (as present), color
/// and the stamp `now`, keeping its key, team, status and creation time;
/// every other project stays as it was.
pub proof fn law_update_project_writes_fields(
    ps: Seq<Project>,
    id: Seq<char>,
    name: String,
    description: String,
    color: String,
    now: String,
)
    ensures
        ({
            let r = projects_after_edit(ps, id, name, description, color, now);
            &&& r.len() == ps.len()
            &&& forall|i: int|
                0 <= i < ps.len() ==> {
                    let p = ps[i];
                    let q = #[trigger] r[i];
                    if p.id@ == id {
                        &&& q.name == name && q.description == Some(description) && q.color == color
                        &&& q.updated_at == now
                        &&& q.id == p.id && q.team_id == p.team_id && q.status == p.status
                        &&& q.created_at == p.created_at
                    } else {
                        q == p
                    }
                }
        }),
{
}

/// Editing column `id` writes its name, color (as present) and position,
/// keeping its key and project; every other column stays as it was.
pub proof fn law_update_column_writes_fields(
    cs: Seq<Column>,
    id: Seq<char>,
    name: String,
    color: String,
    position: i32,
)
    ensures
        ({
            let r = columns_after_edit(cs, id, name, color, position);
            &&& r.len() == cs.len()
            &&& forall|i: int|
                0 <= i < cs.len() ==> {
                    let c = cs[i];
                    let d = #[trigger] r[i];
                    if c.id@ == id {
                        &&& d.name == name && d.color == Some(color) && d.position == position
                        &&& d.id == c.id && d.project_id == c.project_id
                    } else {
                        d == c
                    }
                }
        }),
{
}

/// Marking subtask `id` sets its completion to `done` and keeps its key,
/// task, title and position; every other subtask stays as it was.
pub proof fn law_subtask_mark_sets_completion(ss: Seq<Subtask>, id: Seq<char>, done: bool)
    ensures
        ({
            let r = subtasks_marked(ss, id, done);
            &&& r.len() == ss.len()
            &&& forall|i: int|
                0 <= i < ss.len() ==> {
                    let s = ss[i];
                    let u = #[trigger] r[i];
                    if s.id@ == id {
                        &&& u.completed == done
                        &&& u.id == s.id && u.task_id == s.task_id && u.title == s.title
                        &&& u.position == s.position
                    } else {
                        u == s
                    }
                }
        }),
{
}

/// Marking milestone `id` sets its completion to `done` and keeps its key,
/// task, title, position and due date; every other milestone stays as it
/// was.
pub proof fn law_milestone_mark_sets_completion(ms: Seq<Milestone>, id: Seq<char>, done: bool)
    ensures
        ({
            let r = milestones_marked(ms, id, done);
            &&& r.len() == ms.len()
            &&& forall|i: int|
                0 <= i < ms.len() ==> {
                    let m = ms[i];
                    let u = #[trigger] r[i];
                    if m.id@ == id {
                        &&& u.completed == done
                        &&& u.id == m.id && u.task_id == m.task_id && u.title == m.title
                        &&& u.position == m.position && u.due_date == m.due_date
                    } else {
                        u == m
                    }
                }
        }),
{
}

/// Stopping timer `id` at `now` records `now` as its end and the whole
/// seconds from its start to `now` as its duration, keeping its key, task,
/// user and start; every other entry stays as it was.
pub proof fn law_stop_timer_records_end(es: Seq<TimeEntryRecord>, id: Seq<char>, now: String)
    ensures
        ({
            let r = timers_stopped(es, id, now);
            &&& r.len() == es.len()
            &&& forall|i: int|
                0 <= i < es.len() ==> {
                    let e = es[i];
                    let u = #[trigger] r[i];
                    if e.id@ == id {
                        &&& u.end_time == Some(now)
                        &&& u.duration == elapsed_seconds(e.start_time@, now@)
                        &&& u.id == e.id && u.task_id == e.task_id && u.user_id == e.user_id
                        &&& u.start_time == e.start_time
                    } else {
                        u == e
                    }
                }
        }),
{
}

/// Starting a timer first stops, at `now`, the running entries of the user
/// on the task (recording `now` as their end and the whole seconds since
/// their start as their duration) and leaves every other entry as it was.
pub proof fn law_running_timers_stop(es: Seq<TimeEntryRecord>, task_id: Seq<char>, user_id: Seq<char>, now: String)
    ensures
        ({
            let r = running_timers_stopped(es, task_id, user_id, now);
            &&& r.len() == es.len()
            &&& forall|i: int|
                0 <= i < es.len() ==> {
                    let e = es[i];
                    let u = #[trigger] r[i];
                    if e.task_id@ == task_id && e.user_id@ == user_id && e.end_time is None {
                        &&& u.end_time == Some(now)
                        &&& u.duration == elapsed_seconds(e.start_time@, now@)
                        &&& u.id == e.id && u.task_id == e.task_id && u.user_id == e.user_id
                        &&& u.start_time == e.start_time
                    } else {
                        u == e
                    }
                }
        }),
{
}

/// The duration of a timer is the whole seconds, rounded toward zero,
/// between the moments its start and end stand for, where both are
/// timestamps.
pub proof fn law_elapsed_seconds_between(start: Seq<char>, end: Seq<char>, a: i64, b: i64)
    requires
        crate::outside::rfc3339_millis(start) == Some(a),
        crate::outside::rfc3339_millis(end) == Some(b),
        -10_000_000_000_000_000 < a < 10_000_000_000_000_000,
        -10_000_000_000_000_000 < b < 10_000_000_000_000_000,
    ensures
        elapsed_seconds(start, end) matches Some(d) && d * 1000 <= b - a + 999 && b - a - 999 <= d * 1000
            && (b >= a ==> d >= 0 && d * 1000 <= b - a) && (b <= a ==> d <= 0 && b - a <= d * 1000),
{
}

} // verus!
