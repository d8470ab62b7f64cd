//! Properties that span operations: what one call leaves for the next.

use vstd::prelude::*;

use crate::board::{adds_default_columns, is_default_column, tasks_moved_to_column};
use crate::items::{milestones_marked, subtasks_marked};
use crate::journal::{comments_of, user_name};
use crate::like::{chars_match, containing_pattern, like};
use crate::model::{
    Column, Comment, CommentRecord, Milestone, Setting, Subtask, Tag, Task, TaskAssignee, TaskTag,
    TaskWithDetails, TimeEntryRecord, User,
};
use crate::rows::{
    field_is, field_is_not, fields_are_not, has_key, linked_to, has_pair, is_first_least, is_first_match, keys_unique,
    lemma_filter_keeps_distinct, lemma_filter_not_field, lemma_first_match_unique,
    lemma_push_keeps_distinct, max_position, next_position, no_match, primary_key, rows_sorted,
    Field, Ordered, Positioned, Row,
};
use crate::store::StoreView;
use crate::tasks::describes_task;
use crate::tracking::{elapsed_seconds, running_timers_stopped, timers_stopped};

verus! {

/// In a table with distinct keys, the row with key `v` is the first match.
pub proof fn lemma_unique_key_is_first<T: Row>(s: Seq<T>, v: Seq<char>, i: int)
    requires
        keys_unique(s),
        0 <= i < s.len(),
        s[i].field_spec(Field::Id) == Some(v),
    ensures
        is_first_match(s, Field::Id, v, i),
{
    assert forall|j: int| 0 <= j < i implies #[trigger] s[j].field_spec(Field::Id) != Some(v) by {
        assert(primary_key::<T>()(s[i]) != primary_key::<T>()(s[j]));
    }
}

/// A row added under a fresh key is the row that a lookup by that key finds.
pub proof fn law_inserted_row_is_found<T: Row>(s: Seq<T>, x: T, v: Seq<char>)
    requires
        !has_key(s, v),
        x.field_spec(Field::Id) == Some(v),
    ensures
        is_first_match(s.push(x), Field::Id, v, s.len() as int),
        forall|i: int| #[trigger] is_first_match(s.push(x), Field::Id, v, i) ==> i == s.len(),
{
    assert forall|j: int| 0 <= j < s.len() implies #[trigger] s.push(x)[j].field_spec(Field::Id) != Some(v) by {
        assert(s.push(x)[j] == s[j]);
        assert(s[j].field_spec(Field::Id) != Some(v));
    }
    assert forall|i: int| #[trigger] is_first_match(s.push(x), Field::Id, v, i) implies i == s.len() by {
        lemma_first_match_unique(s.push(x), Field::Id, v, i, s.len() as int);
    }
}

/// Reading a task right after it was added gives the task that was added.
pub proof fn law_created_task_is_read_back(s: StoreView, t: Task, d: TaskWithDetails)
    requires
        !has_key(s.tasks, t.id@),
        describes_task(d, StoreView { tasks: s.tasks.push(t), ..s }, t.id@),
    ensures
        d.task == t,
{
    law_inserted_row_is_found(s.tasks, t, t.id@);
}

/// Reading a task right after it was added gives the task with no assignee,
/// subtask, milestone or tag, where no such row named its key before.
pub proof fn law_created_task_has_nothing_attached(s: StoreView, t: Task, d: TaskWithDetails)
    requires
        !has_key(s.tasks, t.id@),
        no_match(s.task_assignees, Field::TaskId, t.id@),
        no_match(s.subtasks, Field::TaskId, t.id@),
        no_match(s.milestones, Field::TaskId, t.id@),
        no_match(s.task_tags, Field::TaskId, t.id@),
        describes_task(d, StoreView { tasks: s.tasks.push(t), ..s }, t.id@),
    ensures
        d.task == t,
        d.assignees@.len() == 0,
        d.subtasks@.len() == 0,
        d.milestones@.len() == 0,
        d.tags@.len() == 0,
{
    let id = t.id@;
    law_created_task_is_read_back(s, t, d);
    let pa = linked_to::<User, TaskAssignee>(s.task_assignees, Field::TaskId, id, Field::UserId);
    assert forall|i: int| 0 <= i < s.users.len() implies !pa(#[trigger] s.users[i]) by {
        if pa(s.users[i]) {
            let j = choose|j: int|
                0 <= j < s.task_assignees.len() && #[trigger] s.task_assignees[j].field_spec(Field::TaskId)
                    == Some(id) && s.task_assignees[j].field_spec(Field::UserId) == s.users[i].field_spec(
                    Field::Id,
                );
        }
    }
    lemma_filter_keeps_none(s.users, pa);
    let pt = linked_to::<Tag, TaskTag>(s.task_tags, Field::TaskId, id, Field::TagId);
    assert forall|i: int| 0 <= i < s.tags.len() implies !pt(#[trigger] s.tags[i]) by {
        if pt(s.tags[i]) {
            let j = choose|j: int|
                0 <= j < s.task_tags.len() && #[trigger] s.task_tags[j].field_spec(Field::TaskId) == Some(id)
                    && s.task_tags[j].field_spec(Field::TagId) == s.tags[i].field_spec(Field::Id);
        }
    }
    lemma_filter_keeps_none(s.tags, pt);
    let ps = field_is::<Subtask>(Field::TaskId, id);
    assert forall|i: int| 0 <= i < s.subtasks.len() implies !ps(#[trigger] s.subtasks[i]) by {}
    lemma_filter_keeps_none(s.subtasks, ps);
    assert(s.subtasks.filter(ps) =~= Seq::<Subtask>::empty());
    vstd::seq_lib::to_multiset_len(d.subtasks@);
    vstd::seq_lib::to_multiset_len(s.subtasks.filter(ps));
    let pm = field_is::<Milestone>(Field::TaskId, id);
    assert forall|i: int| 0 <= i < s.milestones.len() implies !pm(#[trigger] s.milestones[i]) by {}
    lemma_filter_keeps_none(s.milestones, pm);
    assert(s.milestones.filter(pm) =~= Seq::<Milestone>::empty());
    vstd::seq_lib::to_multiset_len(d.milestones@);
    vstd::seq_lib::to_multiset_len(s.milestones.filter(pm));
}

/// Stopping a timer right after it was started gives the whole seconds from
/// the start to the stop: the started entry is the one that a lookup by its
/// key finds, it starts at the moment of the start, and stopping it records
/// the stop and that duration.
pub proof fn law_stop_after_start(
    es: Seq<TimeEntryRecord>,
    id: String,
    now: String,
    task_id: String,
    user_id: String,
    later: String,
)
    requires
        !has_key(running_timers_stopped(es, task_id@, user_id@, now), id@),
    ensures
        ({
            let e = TimeEntryRecord { id, task_id, user_id, start_time: now, end_time: None, duration: Some(0) };
            let started = running_timers_stopped(es, task_id@, user_id@, now).push(e);
            &&& is_first_match(started, Field::Id, id@, es.len() as int)
            &&& forall|i: int| #[trigger] is_first_match(started, Field::Id, id@, i) ==> started[i].start_time == now
            &&& timers_stopped(started, id@, later).last() == (TimeEntryRecord {
                end_time: Some(later),
                duration: elapsed_seconds(now@, later@),
                ..e
            })
        }),
{
    let e = TimeEntryRecord { id, task_id, user_id, start_time: now, end_time: None, duration: Some(0) };
    let stopped = running_timers_stopped(es, task_id@, user_id@, now);
    law_inserted_row_is_found(stopped, e, id@);
    let started = stopped.push(e);
    assert(timers_stopped(started, id@, later)[started.len() - 1] == crate::tracking::timer_stopped(e, id@, later));
}

/// A comment that an existing user writes on a task is listed for the task,
/// after the comments it had, with the user's name.
pub proof fn law_created_comment_is_listed(s: StoreView, c: CommentRecord)
    requires
        user_name(s.users, c.user_id@) is Some,
    ensures
        comments_of(StoreView { comments: s.comments.push(c), ..s }, c.task_id@) == comments_of(s, c.task_id@).push(
            Comment {
                id: c.id,
                task_id: c.task_id,
                user_id: c.user_id,
                user_name: user_name(s.users, c.user_id@).unwrap(),
                content: c.content,
                created_at: c.created_at,
            },
        ),
{
    let t = s.comments.push(c);
    assert(t.drop_last() =~= s.comments);
    assert(t.last() == c);
    let listed = Comment {
        id: c.id,
        task_id: c.task_id,
        user_id: c.user_id,
        user_name: user_name(s.users, c.user_id@).unwrap(),
        content: c.content,
        created_at: c.created_at,
    };
    assert(comments_of(s, c.task_id@) + seq![listed] =~= comments_of(s, c.task_id@).push(listed));
}

/// Reading a setting right after writing it gives the written value, and
/// writing one setting leaves every other setting as it was.
pub proof fn law_setting_read_after_write(s: StoreView, key: String, value: String, other: Seq<char>)
    requires
        s.wf(),
    ensures
        ({
            let t = StoreView {
                settings: s.settings.filter(field_is_not(Field::Id, key@)).push(Setting { key, value }),
                ..s
            };
            &&& t.setting(key@) == Some(value@)
            &&& other != key@ ==> t.setting(other) == s.setting(other)
        }),
{
    let f = s.settings.filter(field_is_not::<Setting>(Field::Id, key@));
    let x = Setting { key, value };
    let t = f.push(x);
    lemma_filter_not_field(s.settings, Field::Id, key@);
    lemma_filter_keeps_distinct(s.settings, primary_key::<Setting>(), field_is_not::<Setting>(Field::Id, key@));
    lemma_push_keeps_distinct(f, primary_key::<Setting>(), x);
    lemma_unique_key_is_first(t, key@, f.len() as int);
    let tv = StoreView { settings: t, ..s };
    let j = choose|j: int| is_first_match(t, Field::Id, key@, j);
    lemma_first_match_unique(t, Field::Id, key@, j, f.len() as int);
    assert(tv.settings == t);
    assert(is_first_match(tv.settings, Field::Id, key@, f.len() as int));
    assert(t[f.len() as int].value@ == value@);
    assert(tv.setting(key@) == Some(value@));
    if other != key@ {
        if exists|i: int| is_first_match(s.settings, Field::Id, other, i) {
            let i = choose|i: int| is_first_match(s.settings, Field::Id, other, i);
            s.settings.lemma_filter_contains(field_is_not::<Setting>(Field::Id, key@), i);
            let m = choose|m: int| 0 <= m < f.len() && f[m] == s.settings[i];
            assert(t[m] == s.settings[i]);
            lemma_unique_key_is_first(t, other, m);
            let m2 = choose|m2: int| is_first_match(t, Field::Id, other, m2);
            lemma_first_match_unique(t, Field::Id, other, m, m2);
        } else {
            assert forall|m: int| 0 <= m < t.len() implies !is_first_match(t, Field::Id, other, m) by {
                if m < f.len() && t[m].field_spec(Field::Id) == Some(other) {
                    assert(f.contains(t[m]));
                    s.settings.lemma_filter_contains_rev(field_is_not::<Setting>(Field::Id, key@), t[m]);
                    let i = choose|i: int| 0 <= i < s.settings.len() && s.settings[i] == t[m];
                    lemma_unique_key_is_first(s.settings, other, i);
                }
            }
        }
    }
}

/// Toggling a subtask twice leaves the subtasks as they were.
pub proof fn law_toggle_subtask_twice(ss: Seq<Subtask>, id: Seq<char>, i: int)
    requires
        keys_unique(ss),
        is_first_match(ss, Field::Id, id, i),
    ensures
        ({
            let once = subtasks_marked(ss, id, !ss[i].completed);
            &&& is_first_match(once, Field::Id, id, i)
            &&& once[i].completed == !ss[i].completed
            &&& subtasks_marked(once, id, !once[i].completed) == ss
        }),
{
    let once = subtasks_marked(ss, id, !ss[i].completed);
    let twice = subtasks_marked(once, id, !once[i].completed);
    assert forall|j: int| 0 <= j < ss.len() && j != i implies #[trigger] ss[j].id@ != id by {
        assert(primary_key::<Subtask>()(ss[i]) != primary_key::<Subtask>()(ss[j]));
    }
    assert(twice =~= ss);
}

/// Toggling a milestone twice leaves the milestones as they were.
pub proof fn law_toggle_milestone_twice(ms: Seq<Milestone>, id: Seq<char>, i: int)
    requires
        keys_unique(ms),
        is_first_match(ms, Field::Id, id, i),
    ensures
        ({
            let once = milestones_marked(ms, id, !ms[i].completed);
            &&& is_first_match(once, Field::Id, id, i)
            &&& once[i].completed == !ms[i].completed
            &&& milestones_marked(once, id, !once[i].completed) == ms
        }),
{
    let once = milestones_marked(ms, id, !ms[i].completed);
    let twice = milestones_marked(once, id, !once[i].completed);
    assert forall|j: int| 0 <= j < ms.len() && j != i implies #[trigger] ms[j].id@ != id by {
        assert(primary_key::<Milestone>()(ms[i]) != primary_key::<Milestone>()(ms[j]));
    }
    assert(twice =~= ms);
}

/// Assigning a user makes the assignment present; assigning again changes
/// nothing; removing it then leaves no such assignment.
pub proof fn law_assignment_round_trip(links: Seq<TaskAssignee>, task_id: String, user_id: String)
    ensures
        ({
            let after = if has_pair(links, Field::TaskId, task_id@, Field::UserId, user_id@) {
                links
            } else {
                links.push(TaskAssignee { task_id, user_id })
            };
            &&& has_pair(after, Field::TaskId, task_id@, Field::UserId, user_id@)
            &&& (if has_pair(after, Field::TaskId, task_id@, Field::UserId, user_id@) {
                after
            } else {
                after.push(TaskAssignee { task_id, user_id })
            }) == after
            &&& !has_pair(
                after.filter(fields_are_not(Field::TaskId, task_id@, Field::UserId, user_id@)),
                Field::TaskId,
                task_id@,
                Field::UserId,
                user_id@,
            )
        }),
{
    let after = if has_pair(links, Field::TaskId, task_id@, Field::UserId, user_id@) {
        links
    } else {
        links.push(TaskAssignee { task_id, user_id })
    };
    if !has_pair(links, Field::TaskId, task_id@, Field::UserId, user_id@) {
        assert(after[links.len() as int] == TaskAssignee { task_id, user_id });
        assert(after[links.len() as int].field_spec(Field::TaskId) == Some(task_id@));
    }
    let p = fields_are_not::<TaskAssignee>(Field::TaskId, task_id@, Field::UserId, user_id@);
    let rest = after.filter(p);
    assert forall|i: int| 0 <= i < rest.len() implies !(#[trigger] rest[i].field_spec(Field::TaskId) == Some(task_id@)
        && rest[i].field_spec(Field::UserId) == Some(user_id@)) by {
        after.lemma_filter_pred(p, i);
    }
}

/// Putting a tag on a task makes it present; putting it again changes
/// nothing; taking it off then leaves no such tag on the task.
pub proof fn law_task_tag_round_trip(links: Seq<TaskTag>, task_id: String, tag_id: String)
    ensures
        ({
            let after = if has_pair(links, Field::TaskId, task_id@, Field::TagId, tag_id@) {
                links
            } else {
                links.push(TaskTag { task_id, tag_id })
            };
            &&& has_pair(after, Field::TaskId, task_id@, Field::TagId, tag_id@)
            &&& (if has_pair(after, Field::TaskId, task_id@, Field::TagId, tag_id@) {
                after
            } else {
                after.push(TaskTag { task_id, tag_id })
            }) == after
            &&& !has_pair(
                after.filter(fields_are_not(Field::TaskId, task_id@, Field::TagId, tag_id@)),
                Field::TaskId,
                task_id@,
                Field::TagId,
                tag_id@,
            )
        }),
{
    let after = if has_pair(links, Field::TaskId, task_id@, Field::TagId, tag_id@) {
        links
    } else {
        links.push(TaskTag { task_id, tag_id })
    };
    if !has_pair(links, Field::TaskId, task_id@, Field::TagId, tag_id@) {
        assert(after[links.len() as int] == TaskTag { task_id, tag_id });
        assert(after[links.len() as int].field_spec(Field::TaskId) == Some(task_id@));
    }
    let p = fields_are_not::<TaskTag>(Field::TaskId, task_id@, Field::TagId, tag_id@);
    let rest = after.filter(p);
    assert forall|i: int| 0 <= i < rest.len() implies !(#[trigger] rest[i].field_spec(Field::TaskId) == Some(task_id@)
        && rest[i].field_spec(Field::TagId) == Some(tag_id@)) by {
        after.lemma_filter_pred(p, i);
    }
}

/// After a task is deleted, neither it nor anything attached to it remains.
pub proof fn law_deleted_task_leaves_nothing(s: StoreView, id: Seq<char>)
    ensures
        no_match(s.tasks.filter(field_is_not(Field::Id, id)), Field::Id, id),
        no_match(s.task_assignees.filter(field_is_not(Field::TaskId, id)), Field::TaskId, id),
        no_match(s.subtasks.filter(field_is_not(Field::TaskId, id)), Field::TaskId, id),
        no_match(s.milestones.filter(field_is_not(Field::TaskId, id)), Field::TaskId, id),
        no_match(s.task_tags.filter(field_is_not(Field::TaskId, id)), Field::TaskId, id),
        no_match(s.comments.filter(field_is_not(Field::TaskId, id)), Field::TaskId, id),
        no_match(s.time_entries.filter(field_is_not(Field::TaskId, id)), Field::TaskId, id),
        no_match(s.activities.filter(field_is_not(Field::TaskId, id)), Field::TaskId, id),
{
    lemma_filter_not_field(s.tasks, Field::Id, id);
    lemma_filter_not_field(s.task_assignees, Field::TaskId, id);
    lemma_filter_not_field(s.subtasks, Field::TaskId, id);
    lemma_filter_not_field(s.milestones, Field::TaskId, id);
    lemma_filter_not_field(s.task_tags, Field::TaskId, id);
    lemma_filter_not_field(s.comments, Field::TaskId, id);
    lemma_filter_not_field(s.time_entries, Field::TaskId, id);
    lemma_filter_not_field(s.activities, Field::TaskId, id);
}

/// After a project is deleted, neither it nor its columns, tasks and
/// memberships remain.
pub proof fn law_deleted_project_leaves_no_board(s: StoreView, id: Seq<char>)
    ensures
        no_match(s.projects.filter(field_is_not(Field::Id, id)), Field::Id, id),
        no_match(s.columns.filter(field_is_not(Field::ProjectId, id)), Field::ProjectId, id),
        no_match(s.tasks.filter(field_is_not(Field::ProjectId, id)), Field::ProjectId, id),
        no_match(s.project_members.filter(field_is_not(Field::ProjectId, id)), Field::ProjectId, id),
{
    lemma_filter_not_field(s.projects, Field::Id, id);
    lemma_filter_not_field(s.columns, Field::ProjectId, id);
    lemma_filter_not_field(s.tasks, Field::ProjectId, id);
    lemma_filter_not_field(s.project_members, Field::ProjectId, id);
}

proof fn lemma_max_position_bounds<T: Row + Positioned>(s: Seq<T>, f: Field, v: Seq<char>)
    ensures
        max_position(s, f, v) is None <==> no_match(s, f, v),
        max_position(s, f, v) matches Some(m) ==> forall|i: int|
            0 <= i < s.len() && #[trigger] s[i].field_spec(f) == Some(v) ==> s[i].pos() <= m,
    decreases s.len(),
{
    if s.len() > 0 {
        let init = s.drop_last();
        let last = s[s.len() - 1];
        lemma_max_position_bounds(init, f, v);
        assert forall|i: int| 0 <= i < init.len() implies #[trigger] init[i] == s[i] by {}
        if no_match(s, f, v) {
            assert(no_match(init, f, v)) by {
                assert forall|j: int| 0 <= j < init.len() implies #[trigger] init[j].field_spec(f) != Some(v) by {
                    assert(init[j] == s[j]);
                }
            }
            assert(last.field_spec(f) != Some(v));
        } else {
            let j = choose|j: int| 0 <= j < s.len() && #[trigger] s[j].field_spec(f) == Some(v);
            if j < init.len() {
                assert(init[j] == s[j]);
                assert(!no_match(init, f, v));
            }
        }
        match max_position(s, f, v) {
            Some(m) => {
                assert forall|i: int| 0 <= i < s.len() && #[trigger] s[i].field_spec(f) == Some(v) implies s[i].pos()
                    <= m by {
                    if i < init.len() {
                        assert(init[i] == s[i]);
                        assert(init[i].field_spec(f) == Some(v));
                    } else {
                        assert(s[i] == last);
                    }
                }
            },
            None => {},
        }
    } else {
        assert(no_match(s, f, v));
    }
}

/// A new column, task, subtask or milestone is placed after every existing
/// one of its group.
pub proof fn law_next_position_after_all<T: Row + Positioned>(s: Seq<T>, f: Field, v: Seq<char>)
    ensures
        forall|i: int|
            0 <= i < s.len() && #[trigger] s[i].field_spec(f) == Some(v) ==> s[i].pos() < next_position(
                s,
                f,
                v,
            ),
{
    lemma_max_position_bounds(s, f, v);
}

proof fn lemma_filter_keeps_all<A>(s: Seq<A>, p: spec_fn(A) -> bool)
    requires
        forall|i: int| 0 <= i < s.len() ==> p(#[trigger] s[i]),
    ensures
        s.filter(p) == s,
    decreases s.len(),
{
    broadcast use vstd::seq_lib::group_filter_ensures;

    if s.len() > 0 {
        let init = s.drop_last();
        assert forall|i: int| 0 <= i < init.len() implies p(#[trigger] init[i]) by {
            assert(init[i] == s[i]);
        }
        lemma_filter_keeps_all(init, p);
        init.lemma_filter_push(s.last(), p);
        assert(init.push(s.last()) =~= s);
    } else {
        assert(s.filter(p) =~= s);
    }
}

proof fn lemma_filter_keeps_none<A>(s: Seq<A>, p: spec_fn(A) -> bool)
    requires
        forall|i: int| 0 <= i < s.len() ==> !p(#[trigger] s[i]),
    ensures
        s.filter(p).len() == 0,
    decreases s.len(),
{
    broadcast use vstd::seq_lib::group_filter_ensures;

    if s.len() > 0 {
        let init = s.drop_last();
        assert forall|i: int| 0 <= i < init.len() implies !p(#[trigger] init[i]) by {
            assert(init[i] == s[i]);
        }
        lemma_filter_keeps_none(init, p);
        init.lemma_filter_push(s.last(), p);
        assert(init.push(s.last()) =~= s);
    }
}

/// The columns of the project whose four default columns were just added
/// after `before`, which named no column of it, are those four.
proof fn lemma_new_board_columns(before: Seq<Column>, cols: Seq<Column>, project_id: Seq<char>, ids: Seq<String>)
    requires
        adds_default_columns(before, cols, project_id, ids, 4),
        no_match(before, Field::ProjectId, project_id),
    ensures
        cols.filter(field_is(Field::ProjectId, project_id)) == cols.subrange(before.len() as int, cols.len() as int),
{
    let b = before.len() as int;
    let n = cols.subrange(b, b + 4);
    let pred = field_is::<Column>(Field::ProjectId, project_id);
    assert forall|i: int| 0 <= i < 4 implies pred(#[trigger] n[i]) by {
        assert(n[i] == cols[b + i]);
        assert(is_default_column(cols[b + i], project_id, ids[i]@, i));
    }
    assert(cols =~= before + n) by {
        assert forall|i: int| 0 <= i < b implies cols[i] == before[i] by {
            assert(cols.take(b)[i] == cols[i]);
        }
    }
    Seq::filter_distributes_over_add(before, n, pred);
    lemma_filter_keeps_none(before, pred);
    lemma_filter_keeps_all(n, pred);
    assert(cols.filter(pred) =~= n);
}

/// A listing sorted by position that holds the same columns as `n`, whose
/// columns sit at positions 0, 1, 2 and 3 in that order, is `n`.
proof fn lemma_sorted_listing_of_positions(n: Seq<Column>, listed: Seq<Column>)
    requires
        n.len() == 4,
        forall|i: int| 0 <= i < 4 ==> (#[trigger] n[i]).position == i,
        listed.to_multiset() == n.to_multiset(),
        rows_sorted(listed),
    ensures
        listed == n,
{
    assert(n.no_duplicates());
    n.lemma_multiset_has_no_duplicates();
    assert forall|x: Column| listed.to_multiset().contains(x) implies listed.to_multiset().count(x) == 1 by {}
    listed.lemma_multiset_has_no_duplicates_conv();
    vstd::seq_lib::to_multiset_len(listed);
    vstd::seq_lib::to_multiset_len(n);
    assert forall|i: int| 0 <= i < 4 implies 0 <= (#[trigger] listed[i]).position < 4 && listed[i]
        == n[listed[i].position as int] by {
        vstd::seq_lib::to_multiset_contains(listed, listed[i]);
        vstd::seq_lib::to_multiset_contains(n, listed[i]);
        assert(listed.contains(listed[i]));
        let k = choose|k: int| 0 <= k < n.len() && n[k] == listed[i];
        assert(n[k].position == k);
    }
    assert forall|i: int, j: int| 0 <= i < j < 4 implies listed[i].position < listed[j].position by {
        assert(listed[i].ord_le(&listed[j]));
        assert(listed[i] != listed[j]);
    }
    assert(listed[0].position == 0 && listed[1].position == 1);
    assert(listed[2].position == 2 && listed[3].position == 3);
    assert(listed =~= n);
}

/// A new project's board lists its four default columns, "To Do", "In
/// Progress", "In Review" and "Done", in that order, where no earlier column
/// named the project.
pub proof fn law_new_board_lists_default_columns(
    before: Seq<Column>,
    cols: Seq<Column>,
    project_id: Seq<char>,
    ids: Seq<String>,
    listed: Seq<Column>,
)
    requires
        adds_default_columns(before, cols, project_id, ids, 4),
        no_match(before, Field::ProjectId, project_id),
        listed.to_multiset() == cols.filter(field_is(Field::ProjectId, project_id)).to_multiset(),
        rows_sorted(listed),
    ensures
        listed.len() == 4,
        forall|i: int| 0 <= i < 4 ==> is_default_column(#[trigger] listed[i], project_id, ids[i]@, i),
{
    let b = before.len() as int;
    let n = cols.subrange(b, b + 4);
    lemma_new_board_columns(before, cols, project_id, ids);
    assert forall|i: int| 0 <= i < 4 implies is_default_column(#[trigger] n[i], project_id, ids[i]@, i)
        && n[i].position == i by {
        assert(n[i] == cols[b + i]);
    }
    lemma_sorted_listing_of_positions(n, listed);
}

/// Deleting a column that is not the first of its project leaves no task in
/// it: its tasks move to the first column.
pub proof fn law_deleted_column_keeps_no_tasks(s: StoreView, id: Seq<char>, c: int, k: int)
    requires
        s.wf(),
        is_first_match(s.columns, Field::Id, id, c),
        is_first_least(s.columns, Field::ProjectId, s.columns[c].project_id@, k),
        k != c,
    ensures
        forall|j: int|
            0 <= j < s.tasks.len() ==> (#[trigger] tasks_moved_to_column(s.tasks, id, s.columns[k].id)[j]).column_id@
                != id,
{
    assert(primary_key::<crate::model::Column>()(s.columns[c]) != primary_key::<crate::model::Column>()(
        s.columns[k],
    ));
}

/// Starting a timer leaves the user no other running timer on the task.
pub proof fn law_start_timer_stops_running(
    es: Seq<crate::model::TimeEntryRecord>,
    task_id: Seq<char>,
    user_id: Seq<char>,
    now: String,
)
    ensures
        forall|j: int|
            0 <= j < es.len() ==> !({
                let e = #[trigger] running_timers_stopped(es, task_id, user_id, now)[j];
                e.task_id@ == task_id && e.user_id@ == user_id && e.end_time is None
            }),
{
}

proof fn lemma_percent_matches_all(b: Seq<char>)
    ensures
        like(seq!['%'], b),
    decreases b.len(),
{
    reveal_with_fuel(like, 2);
    let p = seq!['%'];
    assert(p[0] == '%');
    assert(p.drop_first() =~= Seq::<char>::empty());
    if b.len() > 0 {
        lemma_percent_matches_all(b.drop_first());
    }
}

proof fn lemma_literal_prefix(n: Seq<char>, q: Seq<char>, b: Seq<char>)
    requires
        like(q, b),
    ensures
        like(n + q, n + b),
    decreases n.len(),
{
    if n.len() > 0 {
        lemma_literal_prefix(n.drop_first(), q, b);
        let p = n + q;
        let t = n + b;
        assert(p.drop_first() =~= n.drop_first() + q);
        assert(t.drop_first() =~= n.drop_first() + b);
        assert(p[0] == n[0]);
        assert(t[0] == n[0]);
        if n[0] == '%' {
            assert(like(p, t.drop_first()));
        }
    } else {
        assert(n + q =~= q);
        assert(n + b =~= b);
    }
}

proof fn lemma_percent_skips(r: Seq<char>, a: Seq<char>, t: Seq<char>)
    requires
        like(r, t),
    ensures
        like(seq!['%'] + r, a + t),
    decreases a.len(),
{
    let p = seq!['%'] + r;
    assert(p[0] == '%');
    assert(p.drop_first() =~= r);
    if a.len() > 0 {
        lemma_percent_skips(r, a.drop_first(), t);
        assert((a + t).drop_first() =~= a.drop_first() + t);
    } else {
        assert(a + t =~= t);
    }
}

/// A text that contains `n` matches the pattern that a "mark" command
/// builds from `n`.
pub proof fn law_containing_pattern_matches(n: Seq<char>, a: Seq<char>, b: Seq<char>)
    ensures
        like(containing_pattern(n), a + n + b),
{
    lemma_percent_matches_all(b);
    lemma_literal_prefix(n, seq!['%'], b);
    lemma_percent_skips(n + seq!['%'], a, n + b);
    assert(containing_pattern(n) =~= seq!['%'] + (n + seq!['%']));
    assert(a + n + b =~= a + (n + b));
}

/// Pattern character `p` stands for text character `c`: `_` stands for any
/// character, any other for itself regardless of ASCII case.
pub open spec fn char_fits(p: char, c: char) -> bool {
    p == '_' || chars_match(p, c)
}

/// Text `w`, of the length of `n`, is what the characters of `n` stand for.
pub open spec fn fits(n: Seq<char>, w: Seq<char>) -> bool {
    &&& w.len() == n.len()
    &&& forall|k: int| 0 <= k < n.len() ==> char_fits(n[k], #[trigger] w[k])
}

proof fn lemma_literal_prefix_conv(n: Seq<char>, q: Seq<char>, t: Seq<char>)
    requires
        forall|i: int| 0 <= i < n.len() ==> n[i] != '%',
        like(n + q, t),
    ensures
        n.len() <= t.len(),
        fits(n, t.take(n.len() as int)),
        like(q, t.skip(n.len() as int)),
    decreases n.len(),
{
    if n.len() == 0 {
        assert(n + q =~= q);
        assert(t.skip(0) =~= t);
        assert(t.take(0) =~= Seq::<char>::empty());
    } else {
        let p = n + q;
        assert(p[0] == n[0]);
        assert(p.drop_first() =~= n.drop_first() + q);
        assert(t.len() > 0 && char_fits(n[0], t[0]));
        let n1 = n.drop_first();
        let t1 = t.drop_first();
        assert forall|i: int| 0 <= i < n1.len() implies n1[i] != '%' by {
            assert(n1[i] == n[i + 1]);
        }
        lemma_literal_prefix_conv(n1, q, t1);
        assert(t.skip(n.len() as int) =~= t1.skip(n1.len() as int));
        let w = t.take(n.len() as int);
        let w1 = t1.take(n1.len() as int);
        assert forall|k: int| 0 <= k < n.len() implies char_fits(n[k], #[trigger] w[k]) by {
            if k > 0 {
                assert(w[k] == w1[k - 1]);
                assert(n[k] == n1[k - 1]);
            }
        }
    }
}

/// A text matches the pattern that a "mark" command builds from `n` only
/// where it holds, somewhere, a run of characters that `n` stands for (`_`
/// for any character, letters without regard to ASCII case), where `n` holds
/// no `%`.
pub proof fn law_containing_pattern_matches_only_containing(n: Seq<char>, t: Seq<char>)
    requires
        forall|i: int| 0 <= i < n.len() ==> n[i] != '%',
        like(containing_pattern(n), t),
    ensures
        exists|i: int| 0 <= i && i + n.len() <= t.len() && #[trigger] fits(n, t.subrange(i, i + n.len())),
    decreases t.len(),
{
    let p = containing_pattern(n);
    assert(p[0] == '%');
    assert(p.drop_first() =~= n + seq!['%']);
    if like(p.drop_first(), t) {
        lemma_literal_prefix_conv(n, seq!['%'], t);
        assert(t.subrange(0, n.len() as int) =~= t.take(n.len() as int));
        assert(fits(n, t.subrange(0int, 0int + n.len())));
    } else {
        let t1 = t.drop_first();
        law_containing_pattern_matches_only_containing(n, t1);
        let i = choose|i: int| 0 <= i && i + n.len() <= t1.len() && #[trigger] fits(n, t1.subrange(i, i + n.len()));
        assert(t.subrange(i + 1, i + 1 + n.len()) =~= t1.subrange(i, i + n.len()));
    }
}

} // verus!
