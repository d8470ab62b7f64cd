//! What the listings hold and in which order: each listed row comes from a
//! stored record whose fields it carries, each stored record that belongs is
//! listed, and the rows come in the order their listing promises.

use vstd::prelude::*;

use crate::journal::{activities_of, activity_listed, comment_listed, comments_of, user_name};
use crate::model::{
    Activity, ActivityRecord, Column, Comment, CommentRecord, Milestone, Project, Subtask, Tag, Task,
    TaskAssignee, TaskTag, Team, TaskWithDetails, TimeEntry, TimeEntryRecord, User,
};
use crate::rows::{field_is, is_first_match, linked_to, rows_sorted, Field, Ordered, Row};
use crate::store::StoreView;
use crate::text::text_le;
use crate::tasks::describes_task;
use crate::tracking::{entries_of, entry_listed};

verus! {

// ------------------------------------------------------------ order

/// Columns are listed by ascending position.
pub proof fn law_columns_listed_by_position(s: Seq<Column>)
    requires
        rows_sorted(s),
    ensures
        forall|i: int, j: int| 0 <= i < j < s.len() ==> #[trigger] s[i].position <= #[trigger] s[j].position,
{
    assert forall|i: int, j: int| 0 <= i < j < s.len() implies #[trigger] s[i].position <= #[trigger] s[j].position by {
        assert(s[i].ord_le(&s[j]));
    }
}

/// Tasks are listed by ascending position.
pub proof fn law_tasks_listed_by_position(s: Seq<Task>)
    requires
        rows_sorted(s),
    ensures
        forall|i: int, j: int| 0 <= i < j < s.len() ==> #[trigger] s[i].position <= #[trigger] s[j].position,
{
    assert forall|i: int, j: int| 0 <= i < j < s.len() implies #[trigger] s[i].position <= #[trigger] s[j].position by {
        assert(s[i].ord_le(&s[j]));
    }
}

/// Subtasks are listed by ascending position.
pub proof fn law_subtasks_listed_by_position(s: Seq<Subtask>)
    requires
        rows_sorted(s),
    ensures
        forall|i: int, j: int| 0 <= i < j < s.len() ==> #[trigger] s[i].position <= #[trigger] s[j].position,
{
    assert forall|i: int, j: int| 0 <= i < j < s.len() implies #[trigger] s[i].position <= #[trigger] s[j].position by {
        assert(s[i].ord_le(&s[j]));
    }
}

/// Milestones are listed by ascending position.
pub proof fn law_milestones_listed_by_position(s: Seq<Milestone>)
    requires
        rows_sorted(s),
    ensures
        forall|i: int, j: int| 0 <= i < j < s.len() ==> #[trigger] s[i].position <= #[trigger] s[j].position,
{
    assert forall|i: int, j: int| 0 <= i < j < s.len() implies #[trigger] s[i].position <= #[trigger] s[j].position by {
        assert(s[i].ord_le(&s[j]));
    }
}

/// Teams are listed by name, in code-point order.
pub proof fn law_teams_listed_by_name(s: Seq<Team>)
    requires
        rows_sorted(s),
    ensures
        forall|i: int, j: int| 0 <= i < j < s.len() ==> text_le(#[trigger] s[i].name@, #[trigger] s[j].name@),
{
    assert forall|i: int, j: int| 0 <= i < j < s.len() implies text_le(#[trigger] s[i].name@, #[trigger] s[j].name@) by {
        assert(s[i].ord_le(&s[j]));
    }
}

/// Projects are listed by name, in code-point order.
pub proof fn law_projects_listed_by_name(s: Seq<Project>)
    requires
        rows_sorted(s),
    ensures
        forall|i: int, j: int| 0 <= i < j < s.len() ==> text_le(#[trigger] s[i].name@, #[trigger] s[j].name@),
{
    assert forall|i: int, j: int| 0 <= i < j < s.len() implies text_le(#[trigger] s[i].name@, #[trigger] s[j].name@) by {
        assert(s[i].ord_le(&s[j]));
    }
}

/// Tags are listed by name, in code-point order.
pub proof fn law_tags_listed_by_name(s: Seq<Tag>)
    requires
        rows_sorted(s),
    ensures
        forall|i: int, j: int| 0 <= i < j < s.len() ==> text_le(#[trigger] s[i].name@, #[trigger] s[j].name@),
{
    assert forall|i: int, j: int| 0 <= i < j < s.len() implies text_le(#[trigger] s[i].name@, #[trigger] s[j].name@) by {
        assert(s[i].ord_le(&s[j]));
    }
}

/// Time entries are listed newest start first.
pub proof fn law_time_entries_listed_newest_first(s: Seq<TimeEntry>)
    requires
        rows_sorted(s),
    ensures
        forall|i: int, j: int|
            0 <= i < j < s.len() ==> text_le(#[trigger] s[j].start_time@, #[trigger] s[i].start_time@),
{
    assert forall|i: int, j: int| 0 <= i < j < s.len() implies text_le(
        #[trigger] s[j].start_time@,
        #[trigger] s[i].start_time@,
    ) by {
        assert(s[i].ord_le(&s[j]));
    }
}

/// Comments are listed newest first.
pub proof fn law_comments_listed_newest_first(s: Seq<Comment>)
    requires
        rows_sorted(s),
    ensures
        forall|i: int, j: int|
            0 <= i < j < s.len() ==> text_le(#[trigger] s[j].created_at@, #[trigger] s[i].created_at@),
{
    assert forall|i: int, j: int| 0 <= i < j < s.len() implies text_le(
        #[trigger] s[j].created_at@,
        #[trigger] s[i].created_at@,
    ) by {
        assert(s[i].ord_le(&s[j]));
    }
}

/// Activities are listed newest first.
pub proof fn law_activities_listed_newest_first(s: Seq<Activity>)
    requires
        rows_sorted(s),
    ensures
        forall|i: int, j: int|
            0 <= i < j < s.len() ==> text_le(#[trigger] s[j].created_at@, #[trigger] s[i].created_at@),
{
    assert forall|i: int, j: int| 0 <= i < j < s.len() implies text_le(
        #[trigger] s[j].created_at@,
        #[trigger] s[i].created_at@,
    ) by {
        assert(s[i].ord_le(&s[j]));
    }
}

// ------------------------------------------------------------ contents

proof fn lemma_filter_map_keeps<A, B>(s: Seq<A>, f: spec_fn(A) -> Option<B>, j: int)
    requires
        0 <= j < s.len(),
        f(s[j]) is Some,
    ensures
        s.filter_map(f).contains(f(s[j])->0),
    decreases s.len(),
{
    let init = s.drop_last();
    if j < s.len() - 1 {
        assert(init[j] == s[j]);
        lemma_filter_map_keeps(init, f, j);
        let k = choose|k: int| 0 <= k < init.filter_map(f).len() && init.filter_map(f)[k] == f(s[j])->0;
        match f(s.last()) {
            Some(y) => {
                assert(s.filter_map(f) == init.filter_map(f) + seq![y]);
                assert(s.filter_map(f)[k] == init.filter_map(f)[k]);
            },
            None => {},
        }
    } else {
        assert(s.filter_map(f) == init.filter_map(f) + seq![f(s[j])->0]);
        assert(s.filter_map(f)[init.filter_map(f).len() as int] == f(s[j])->0);
    }
}

/// `a` and `b` hold the same rows, each as often, in any order.
pub open spec fn same_rows<T>(a: Seq<T>, b: Seq<T>) -> bool {
    a.to_multiset() == b.to_multiset()
}

proof fn lemma_same_rows_contains<T>(a: Seq<T>, b: Seq<T>, x: T)
    requires
        same_rows(a, b),
    ensures
        a.contains(x) <==> b.contains(x),
{
    vstd::seq_lib::to_multiset_contains(a, x);
    vstd::seq_lib::to_multiset_contains(b, x);
}

/// Activity record `a` belongs to task `task_id`.
pub open spec fn activity_on(a: ActivityRecord, task_id: Seq<char>) -> bool {
    a.task_id@ == task_id
}

/// Listed activity `x` carries the key, task, user, action, details and
/// time of activity record `a`, and the name of its user.
pub open spec fn activity_carries(x: Activity, a: ActivityRecord, users: Seq<User>) -> bool {
    &&& x.id == a.id && x.task_id == a.task_id && x.user_id == a.user_id
    &&& x.action == a.action && x.details == a.details && x.created_at == a.created_at
    &&& user_name(users, a.user_id@) == Some(x.user_name)
}

/// A listing of the activity log of task `task_id` (holding the same rows as
/// `activities_of`; `get_activities` lists the newest fifty of them) holds
/// only activities that carry an activity record of the task; and each
/// activity record of the task whose user exists is carried by a listed
/// activity.
pub proof fn law_activities_carry_their_records(s: StoreView, task_id: Seq<char>, listed: Seq<Activity>)
    requires
        same_rows(listed, activities_of(s, task_id)),
    ensures
        forall|x: Activity|
            #[trigger] listed.contains(x) ==> exists|a: ActivityRecord|
                #[trigger] s.activities.contains(a) && activity_on(a, task_id) && activity_carries(x, a, s.users),
        forall|a: ActivityRecord|
            #[trigger] s.activities.contains(a) && activity_on(a, task_id) && user_name(s.users, a.user_id@) is Some
                ==> exists|x: Activity| #[trigger] listed.contains(x) && activity_carries(x, a, s.users),
{
    let f = |r: ActivityRecord| activity_listed(r, s.users, task_id);
    let all = activities_of(s, task_id);
    assert(all == s.activities.filter_map(f));
    assert forall|x: Activity| #[trigger] listed.contains(x) implies exists|a: ActivityRecord|
        #[trigger] s.activities.contains(a) && activity_on(a, task_id) && activity_carries(x, a, s.users) by {
        lemma_same_rows_contains(listed, all, x);
        s.activities.lemma_filter_map_contains(f, x);
        let a = choose|a: ActivityRecord| #[trigger] s.activities.contains(a) && f(a) == Some(x);
        assert(activity_listed(a, s.users, task_id) == Some(x));
        assert(activity_on(a, task_id) && activity_carries(x, a, s.users));
    }
    assert forall|a: ActivityRecord|
        #[trigger] s.activities.contains(a) && activity_on(a, task_id) && user_name(s.users, a.user_id@) is Some
            implies exists|x: Activity| #[trigger] listed.contains(x) && activity_carries(x, a, s.users) by {
        let j = choose|j: int| 0 <= j < s.activities.len() && s.activities[j] == a;
        assert(f(s.activities[j]) is Some);
        lemma_filter_map_keeps(s.activities, f, j);
        let x = f(s.activities[j])->0;
        lemma_same_rows_contains(listed, all, x);
        assert(activity_carries(x, a, s.users));
    }
}

/// Comment record `c` belongs to task `task_id`.
pub open spec fn comment_on(c: CommentRecord, task_id: Seq<char>) -> bool {
    c.task_id@ == task_id
}

/// Listed comment `x` carries the key, task, author, content and time of
/// comment record `c`, and the name of its author.
pub open spec fn comment_carries(x: Comment, c: CommentRecord, users: Seq<User>) -> bool {
    &&& x.id == c.id && x.task_id == c.task_id && x.user_id == c.user_id
    &&& x.content == c.content && x.created_at == c.created_at
    &&& user_name(users, c.user_id@) == Some(x.user_name)
}

/// A listing of the comments of task `task_id` (holding the same rows as
/// `comments_of`, as `get_comments` sorts them) holds only comments that
/// carry a comment record of the task; and each comment record of the task
/// whose author exists is carried by a listed comment.
pub proof fn law_comments_carry_their_records(s: StoreView, task_id: Seq<char>, listed: Seq<Comment>)
    requires
        same_rows(listed, comments_of(s, task_id)),
    ensures
        forall|x: Comment|
            #[trigger] listed.contains(x) ==> exists|c: CommentRecord|
                #[trigger] s.comments.contains(c) && comment_on(c, task_id) && comment_carries(x, c, s.users),
        forall|c: CommentRecord|
            #[trigger] s.comments.contains(c) && comment_on(c, task_id) && user_name(s.users, c.user_id@) is Some
                ==> exists|x: Comment| #[trigger] listed.contains(x) && comment_carries(x, c, s.users),
{
    let f = |r: CommentRecord| comment_listed(r, s.users, task_id);
    let all = comments_of(s, task_id);
    assert(all == s.comments.filter_map(f));
    assert forall|x: Comment| #[trigger] listed.contains(x) implies exists|c: CommentRecord|
        #[trigger] s.comments.contains(c) && comment_on(c, task_id) && comment_carries(x, c, s.users) by {
        lemma_same_rows_contains(listed, all, x);
        s.comments.lemma_filter_map_contains(f, x);
        let c = choose|c: CommentRecord| #[trigger] s.comments.contains(c) && f(c) == Some(x);
        assert(comment_listed(c, s.users, task_id) == Some(x));
        assert(comment_on(c, task_id) && comment_carries(x, c, s.users));
    }
    assert forall|c: CommentRecord|
        #[trigger] s.comments.contains(c) && comment_on(c, task_id) && user_name(s.users, c.user_id@) is Some
            implies exists|x: Comment| #[trigger] listed.contains(x) && comment_carries(x, c, s.users) by {
        let j = choose|j: int| 0 <= j < s.comments.len() && s.comments[j] == c;
        assert(f(s.comments[j]) is Some);
        lemma_filter_map_keeps(s.comments, f, j);
        let x = f(s.comments[j])->0;
        lemma_same_rows_contains(listed, all, x);
        assert(comment_carries(x, c, s.users));
    }
}

/// Time entry record `e` belongs to task `task_id`.
pub open spec fn entry_on(e: TimeEntryRecord, task_id: Seq<char>) -> bool {
    e.task_id@ == task_id
}

/// Listed time entry `x` carries the key, task, user, start, end and
/// duration of time entry record `e`.
pub open spec fn entry_carries(x: TimeEntry, e: TimeEntryRecord) -> bool {
    &&& x.id == e.id && x.task_id == e.task_id && x.user_id == e.user_id
    &&& x.start_time == e.start_time && x.end_time == e.end_time
    &&& e.duration == Some(x.duration)
}

/// A listing of the time entries of task `task_id` (holding the same rows as
/// `entries_of`, as `get_time_entries` sorts them) holds only entries that
/// carry a time entry record of the task; and each time entry record of the
/// task that has a duration is carried by a listed entry.
pub proof fn law_time_entries_carry_their_records(s: StoreView, task_id: Seq<char>, listed: Seq<TimeEntry>)
    requires
        same_rows(listed, entries_of(s, task_id)),
    ensures
        forall|x: TimeEntry|
            #[trigger] listed.contains(x) ==> exists|e: TimeEntryRecord|
                #[trigger] s.time_entries.contains(e) && entry_on(e, task_id) && entry_carries(x, e),
        forall|e: TimeEntryRecord|
            #[trigger] s.time_entries.contains(e) && entry_on(e, task_id) && e.duration is Some ==> exists|
                x: TimeEntry,
            | #[trigger] listed.contains(x) && entry_carries(x, e),
{
    let f = |r: TimeEntryRecord| entry_listed(r, task_id);
    let all = entries_of(s, task_id);
    assert(all == s.time_entries.filter_map(f));
    assert forall|x: TimeEntry| #[trigger] listed.contains(x) implies exists|e: TimeEntryRecord|
        #[trigger] s.time_entries.contains(e) && entry_on(e, task_id) && entry_carries(x, e) by {
        lemma_same_rows_contains(listed, all, x);
        s.time_entries.lemma_filter_map_contains(f, x);
        let e = choose|e: TimeEntryRecord| #[trigger] s.time_entries.contains(e) && f(e) == Some(x);
        assert(entry_listed(e, task_id) == Some(x));
        assert(entry_on(e, task_id) && entry_carries(x, e));
    }
    assert forall|e: TimeEntryRecord|
        #[trigger] s.time_entries.contains(e) && entry_on(e, task_id) && e.duration is Some implies exists|
        x: TimeEntry,
    | #[trigger] listed.contains(x) && entry_carries(x, e) by {
        let j = choose|j: int| 0 <= j < s.time_entries.len() && s.time_entries[j] == e;
        assert(f(s.time_entries[j]) is Some);
        lemma_filter_map_keeps(s.time_entries, f, j);
        let x = f(s.time_entries[j])->0;
        lemma_same_rows_contains(listed, all, x);
        assert(entry_carries(x, e));
    }
}

// ------------------------------------------------------------ membership

proof fn lemma_listing_members<T>(s: Seq<T>, p: spec_fn(T) -> bool, r: Seq<T>)
    requires
        same_rows(r, s.filter(p)),
    ensures
        forall|x: T| #[trigger] r.contains(x) <==> s.contains(x) && p(x),
{
    broadcast use vstd::seq_lib::group_filter_ensures;

    assert forall|x: T| #[trigger] r.contains(x) <==> s.contains(x) && p(x) by {
        lemma_same_rows_contains(r, s.filter(p), x);
        if s.filter(p).contains(x) {
            s.lemma_filter_contains_rev(p, x);
        }
        if s.contains(x) && p(x) {
            let i = choose|i: int| 0 <= i < s.len() && s[i] == x;
            s.lemma_filter_contains(p, i);
        }
    }
}

/// The projects listed for team `team_id` are exactly its projects.
pub proof fn law_projects_of_team(s: Seq<Project>, team_id: Seq<char>, r: Seq<Project>)
    requires
        same_rows(r, s.filter(field_is(Field::TeamId, team_id))),
    ensures
        forall|x: Project| #[trigger] r.contains(x) <==> s.contains(x) && x.team_id@ == team_id,
{
    lemma_listing_members(s, field_is(Field::TeamId, team_id), r);
}

/// The users listed for team `team_id` are exactly its users.
pub proof fn law_users_of_team(s: Seq<User>, team_id: Seq<char>, r: Seq<User>)
    requires
        r == s.filter(field_is(Field::TeamId, team_id)),
    ensures
        forall|x: User| #[trigger] r.contains(x) <==> s.contains(x) && x.team_id@ == team_id,
{
    lemma_listing_members(s, field_is(Field::TeamId, team_id), r);
}

/// The columns listed for project `project_id` are exactly its columns.
pub proof fn law_columns_of_project(s: Seq<Column>, project_id: Seq<char>, r: Seq<Column>)
    requires
        same_rows(r, s.filter(field_is(Field::ProjectId, project_id))),
    ensures
        forall|x: Column| #[trigger] r.contains(x) <==> s.contains(x) && x.project_id@ == project_id,
{
    lemma_listing_members(s, field_is(Field::ProjectId, project_id), r);
}

/// The tasks listed for project `project_id` are exactly its tasks.
pub proof fn law_tasks_of_project(s: Seq<Task>, project_id: Seq<char>, r: Seq<Task>)
    requires
        same_rows(r, s.filter(field_is(Field::ProjectId, project_id))),
    ensures
        forall|x: Task| #[trigger] r.contains(x) <==> s.contains(x) && x.project_id@ == project_id,
{
    lemma_listing_members(s, field_is(Field::ProjectId, project_id), r);
}

/// The subtasks listed for task `task_id` are exactly its subtasks.
pub proof fn law_subtasks_of_task(s: Seq<Subtask>, task_id: Seq<char>, r: Seq<Subtask>)
    requires
        same_rows(r, s.filter(field_is(Field::TaskId, task_id))),
    ensures
        forall|x: Subtask| #[trigger] r.contains(x) <==> s.contains(x) && x.task_id@ == task_id,
{
    lemma_listing_members(s, field_is(Field::TaskId, task_id), r);
}

/// The milestones listed for task `task_id` are exactly its milestones.
pub proof fn law_milestones_of_task(s: Seq<Milestone>, task_id: Seq<char>, r: Seq<Milestone>)
    requires
        same_rows(r, s.filter(field_is(Field::TaskId, task_id))),
    ensures
        forall|x: Milestone| #[trigger] r.contains(x) <==> s.contains(x) && x.task_id@ == task_id,
{
    lemma_listing_members(s, field_is(Field::TaskId, task_id), r);
}

/// The name found for user `user_id` is the name of a user with that key,
/// and one is found exactly where such a user exists.
pub proof fn law_user_name_is_the_users_name(users: Seq<User>, user_id: Seq<char>)
    ensures
        user_name(users, user_id) is Some <==> exists|i: int|
            0 <= i < users.len() && (#[trigger] users[i]).id@ == user_id,
        user_name(users, user_id) matches Some(n) ==> exists|i: int|
            0 <= i < users.len() && (#[trigger] users[i]).id@ == user_id && users[i].name == n,
{
    if exists|i: int| 0 <= i < users.len() && (#[trigger] users[i]).id@ == user_id {
        let k = choose|i: int| 0 <= i < users.len() && (#[trigger] users[i]).id@ == user_id;
        lemma_first_user_match(users, user_id, k);
    }
}

proof fn lemma_first_user_match(users: Seq<User>, user_id: Seq<char>, k: int)
    requires
        0 <= k < users.len(),
        users[k].id@ == user_id,
    ensures
        exists|i: int| is_first_match(users, Field::Id, user_id, i),
    decreases k,
{
    if exists|j: int| 0 <= j < k && (#[trigger] users[j]).id@ == user_id {
        let j = choose|j: int| 0 <= j < k && (#[trigger] users[j]).id@ == user_id;
        lemma_first_user_match(users, user_id, j);
    } else {
        assert forall|j: int| 0 <= j < k implies #[trigger] users[j].field_spec(Field::Id) != Some(user_id) by {
            assert(users[j].field_spec(Field::Id) == Some(users[j].id@));
        }
        assert(is_first_match(users, Field::Id, user_id, k));
    }
}

/// The details of task `id` read from a store: the task with that key, the
/// users assigned to it, its subtasks and milestones, and the tags on it,
/// each exactly, with subtasks and milestones by ascending position.
pub proof fn law_task_details_are_its_own(d: TaskWithDetails, s: StoreView, id: Seq<char>)
    requires
        describes_task(d, s, id),
    ensures
        d.task.id@ == id && s.tasks.contains(d.task),
        forall|u: User|
            #[trigger] d.assignees@.contains(u) <==> s.users.contains(u) && exists|l: TaskAssignee|
                #[trigger] s.task_assignees.contains(l) && l.task_id@ == id && l.user_id@ == u.id@,
        forall|t: Tag|
            #[trigger] d.tags@.contains(t) <==> s.tags.contains(t) && exists|l: TaskTag|
                #[trigger] s.task_tags.contains(l) && l.task_id@ == id && l.tag_id@ == t.id@,
        forall|x: Subtask| #[trigger] d.subtasks@.contains(x) <==> s.subtasks.contains(x) && x.task_id@ == id,
        forall|x: Milestone| #[trigger] d.milestones@.contains(x) <==> s.milestones.contains(x) && x.task_id@ == id,
        forall|i: int, j: int|
            0 <= i < j < d.subtasks@.len() ==> #[trigger] d.subtasks@[i].position <= #[trigger] d.subtasks@[j].position,
        forall|i: int, j: int|
            0 <= i < j < d.milestones@.len() ==> #[trigger] d.milestones@[i].position
                <= #[trigger] d.milestones@[j].position,
{
    let i = choose|i: int| is_first_match(s.tasks, Field::Id, id, i) && d.task == s.tasks[i];
    assert(s.tasks[i].field_spec(Field::Id) == Some(s.tasks[i].id@));
    assert(s.tasks.contains(s.tasks[i]));
    law_subtasks_of_task(s.subtasks, id, d.subtasks@);
    law_milestones_of_task(s.milestones, id, d.milestones@);
    law_subtasks_listed_by_position(d.subtasks@);
    law_milestones_listed_by_position(d.milestones@);
    let pa = linked_to::<User, TaskAssignee>(s.task_assignees, Field::TaskId, id, Field::UserId);
    assert(same_rows(d.assignees@, s.users.filter(pa)));
    lemma_listing_members(s.users, pa, d.assignees@);
    assert forall|u: User| #[trigger] d.assignees@.contains(u) <==> s.users.contains(u) && exists|l: TaskAssignee|
        #[trigger] s.task_assignees.contains(l) && l.task_id@ == id && l.user_id@ == u.id@ by {
        assert(u.field_spec(Field::Id) == Some(u.id@));
        if pa(u) {
            let k = choose|k: int|
                0 <= k < s.task_assignees.len() && #[trigger] s.task_assignees[k].field_spec(Field::TaskId) == Some(id)
                    && s.task_assignees[k].field_spec(Field::UserId) == u.field_spec(Field::Id);
            let l = s.task_assignees[k];
            assert(s.task_assignees.contains(l));
        }
        if exists|l: TaskAssignee| #[trigger] s.task_assignees.contains(l) && l.task_id@ == id && l.user_id@ == u.id@ {
            let l = choose|l: TaskAssignee| #[trigger] s.task_assignees.contains(l) && l.task_id@ == id && l.user_id@ == u.id@;
            let k = choose|k: int| 0 <= k < s.task_assignees.len() && s.task_assignees[k] == l;
            assert(s.task_assignees[k].field_spec(Field::TaskId) == Some(id));
            assert(pa(u));
        }
    }
    let pt = linked_to::<Tag, TaskTag>(s.task_tags, Field::TaskId, id, Field::TagId);
    assert(same_rows(d.tags@, s.tags.filter(pt)));
    lemma_listing_members(s.tags, pt, d.tags@);
    assert forall|t: Tag| #[trigger] d.tags@.contains(t) <==> s.tags.contains(t) && exists|l: TaskTag|
        #[trigger] s.task_tags.contains(l) && l.task_id@ == id && l.tag_id@ == t.id@ by {
        assert(t.field_spec(Field::Id) == Some(t.id@));
        if pt(t) {
            let k = choose|k: int|
                0 <= k < s.task_tags.len() && #[trigger] s.task_tags[k].field_spec(Field::TaskId) == Some(id)
                    && s.task_tags[k].field_spec(Field::TagId) == t.field_spec(Field::Id);
            let l = s.task_tags[k];
            assert(s.task_tags.contains(l));
        }
        if exists|l: TaskTag| #[trigger] s.task_tags.contains(l) && l.task_id@ == id && l.tag_id@ == t.id@ {
            let l = choose|l: TaskTag| #[trigger] s.task_tags.contains(l) && l.task_id@ == id && l.tag_id@ == t.id@;
            let k = choose|k: int| 0 <= k < s.task_tags.len() && s.task_tags[k] == l;
            assert(s.task_tags[k].field_spec(Field::TaskId) == Some(id));
            assert(pt(t));
        }
    }
}

} // verus!
