//! Comments on tasks and the activity log of tasks, both listed newest first
//! together with the name of the user who wrote them.

use vstd::prelude::*;

use crate::model::{copy_opt, Activity, ActivityRecord, Comment, CommentRecord, User};
use crate::outside::{is_clock_text, is_uuid_v4_text, new_id, now_rfc3339};
use crate::rows::{
    find_row, has_key, insert_row, is_first_match, lemma_first_match_unique, rows_sorted,
    sort_rows, unique_violation, Field,
};
use crate::store::{Store, StoreView};

verus! {

/// The greatest number of entries that a listing of a task's activity log
/// holds.
pub const ACTIVITY_LIMIT: usize = 50;

/// The name of user `user_id`, where there is such a user.
pub open spec fn user_name(users: Seq<User>, user_id: Seq<char>) -> Option<String> {
    if exists|i: int| is_first_match(users, Field::Id, user_id, i) {
        let i = choose|i: int| is_first_match(users, Field::Id, user_id, i);
        Some(users[i].name)
    } else {
        None
    }
}

/// Comment `c` as listed for task `task_id`: present where it belongs to the
/// task and its author exists.
pub open spec fn comment_listed(c: CommentRecord, users: Seq<User>, task_id: Seq<char>) -> Option<Comment> {
    if c.task_id@ == task_id {
        match user_name(users, c.user_id@) {
            Some(n) => Some(
                Comment {
                    id: c.id,
                    task_id: c.task_id,
                    user_id: c.user_id,
                    user_name: n,
                    content: c.content,
                    created_at: c.created_at,
                },
            ),
            None => None,
        }
    } else {
        None
    }
}

/// The comments of task `task_id` that have an existing author, with the
/// author's name, in table order.
pub open spec fn comments_of(s: StoreView, task_id: Seq<char>) -> Seq<Comment> {
    s.comments.filter_map(|c: CommentRecord| comment_listed(c, s.users, task_id))
}

/// Activity `a` as listed for task `task_id`: present where it belongs to the
/// task and its user exists.
pub open spec fn activity_listed(a: ActivityRecord, users: Seq<User>, task_id: Seq<char>) -> Option<Activity> {
    if a.task_id@ == task_id {
        match user_name(users, a.user_id@) {
            Some(n) => Some(
                Activity {
                    id: a.id,
                    task_id: a.task_id,
                    user_id: a.user_id,
                    user_name: n,
                    action: a.action,
                    details: a.details,
                    created_at: a.created_at,
                },
            ),
            None => None,
        }
    } else {
        None
    }
}

/// The activity log of task `task_id`, restricted to entries with an existing
/// user, with the user's name, in table order.
pub open spec fn activities_of(s: StoreView, task_id: Seq<char>) -> Seq<Activity> {
    s.activities.filter_map(|a: ActivityRecord| activity_listed(a, s.users, task_id))
}

/// `after` is `before` with activity `a` appended to the log, or, where the
/// key of `a` is taken, `before` unchanged.
pub open spec fn activity_logged(before: StoreView, after: StoreView, a: ActivityRecord) -> bool {
    if has_key(before.activities, a.id@) {
        after == before
    } else {
        after == (StoreView { activities: before.activities.push(a), ..before })
    }
}

impl Store {
    /// The name of user `user_id`, where there is such a user.
    pub fn user_name_of(&self, user_id: &String) -> (r: Option<String>)
        ensures
            r == user_name(self@.users, user_id@),
    {
        match find_row(&self.users, Field::Id, user_id) {
            Some(i) => {
                proof {
                    let j = choose|j: int| is_first_match(self@.users, Field::Id, user_id@, j);
                    lemma_first_match_unique(self@.users, Field::Id, user_id@, i as int, j);
                }
                Some(self.users[i].name.clone())
            },
            None => None,
        }
    }

    fn comment_row_listed(&self, c: &CommentRecord, task_id: &String) -> (r: Option<Comment>)
        ensures
            r == comment_listed(*c, self@.users, task_id@),
    {
        if String::eq(&c.task_id, task_id) {
            match self.user_name_of(&c.user_id) {
                Some(n) => Some(
                    Comment {
                        id: c.id.clone(),
                        task_id: c.task_id.clone(),
                        user_id: c.user_id.clone(),
                        user_name: n,
                        content: c.content.clone(),
                        created_at: c.created_at.clone(),
                    },
                ),
                None => None,
            }
        } else {
            None
        }
    }

    fn activity_row_listed(&self, a: &ActivityRecord, task_id: &String) -> (r: Option<Activity>)
        ensures
            r == activity_listed(*a, self@.users, task_id@),
    {
        if String::eq(&a.task_id, task_id) {
            match self.user_name_of(&a.user_id) {
                Some(n) => Some(
                    Activity {
                        id: a.id.clone(),
                        task_id: a.task_id.clone(),
                        user_id: a.user_id.clone(),
                        user_name: n,
                        action: a.action.clone(),
                        details: copy_opt(&a.details),
                        created_at: a.created_at.clone(),
                    },
                ),
                None => None,
            }
        } else {
            None
        }
    }

    /// The comments of task `task_id` whose author exists, with the author's
    /// name, newest first.
    pub fn get_comments(&self, task_id: &String) -> (r: Vec<Comment>)
        ensures
            r@.to_multiset() == comments_of(self@, task_id@).to_multiset(),
            rows_sorted(r@),
    {
        let ghost f = |c: CommentRecord| comment_listed(c, self@.users, task_id@);
        let mut out: Vec<Comment> = Vec::new();
        let mut i: usize = 0;
        while i < self.comments.len()
            invariant
                i <= self.comments.len(),
                f == (|c: CommentRecord| comment_listed(c, self@.users, task_id@)),
                out@ == self@.comments.take(i as int).filter_map(f),
            decreases self.comments.len() - i,
        {
            proof {
                self@.comments.lemma_filter_map_take_succ(f, i as int);
            }
            match self.comment_row_listed(&self.comments[i], task_id) {
                Some(c) => {
                    out.push(c);
                },
                None => {},
            }
            i = i + 1;
        }
        assert(self@.comments.take(self@.comments.len() as int) =~= self@.comments);
        sort_rows(out)
    }

    /// Adds comment `id` by user `user_id` on task `task_id`, written at
    /// `now`, and returns it with its author's name ("Unknown" where there is
    /// no such user). Fails, changing nothing, where the key is taken.
    pub fn insert_comment(&mut self, id: String, now: String, task_id: String, user_id: String, content: String) -> (r:
        Result<Comment, String>)
        requires
            old(self)@.wf(),
        ensures
            final(self)@.wf(),
            match r {
                Ok(c) => {
                    &&& !has_key(old(self)@.comments, id@)
                    &&& final(self)@ == (StoreView {
                        comments: old(self)@.comments.push(
                            CommentRecord { id, task_id, user_id, content, created_at: now },
                        ),
                        ..old(self)@
                    })
                    &&& c.id == id && c.task_id == task_id && c.user_id == user_id
                    &&& c.content == content && c.created_at == now
                    &&& match user_name(old(self)@.users, user_id@) {
                        Some(n) => c.user_name == n,
                        None => c.user_name@ == "Unknown"@,
                    }
                },
                Err(e) => {
                    &&& has_key(old(self)@.comments, id@)
                    &&& e@ == unique_violation("comments"@)
                    &&& final(self)@ == old(self)@
                },
            },
    {
        let row = CommentRecord {
            id: id.clone(),
            task_id: task_id.clone(),
            user_id: user_id.clone(),
            content: content.clone(),
            created_at: now.clone(),
        };
        match insert_row(&mut self.comments, row, &id, "comments") {
            Ok(()) => {},
            Err(e) => {
                return Err(e);
            },
        }
        let user_name = match self.user_name_of(&user_id) {
            Some(n) => n,
            None => "Unknown".to_owned(),
        };
        Ok(Comment { id, task_id, user_id, user_name, content, created_at: now })
    }

    /// Adds a comment with a fresh identifier, written now.
    pub fn create_comment(&mut self, task_id: String, user_id: String, content: String) -> (r: Result<
        Comment,
        String,
    >)
        requires
            old(self)@.wf(),
        ensures
            final(self)@.wf(),
            match r {
                Ok(c) => {
                    &&& is_uuid_v4_text(c.id@)
                    &&& final(self)@ == (StoreView {
                        comments: old(self)@.comments.push(
                            CommentRecord { id: c.id, task_id, user_id, content, created_at: c.created_at },
                        ),
                        ..old(self)@
                    })
                    &&& c.task_id == task_id && c.user_id == user_id && c.content == content
                    &&& is_clock_text(c.created_at@)
                    &&& match user_name(old(self)@.users, user_id@) {
                        Some(n) => c.user_name == n,
                        None => c.user_name@ == "Unknown"@,
                    }
                },
                Err(e) => {
                    &&& e@ == unique_violation("comments"@)
                    &&& final(self)@ == old(self)@
                    &&& exists|id: String| #[trigger] is_uuid_v4_text(id@) && has_key(old(self)@.comments, id@)
                },
            },
    {
        let id = new_id();
        let now = now_rfc3339();
        let ghost fresh = id;
        let r = self.insert_comment(id, now, task_id, user_id, content);
        proof {
            if r is Err {
                assert(is_uuid_v4_text(fresh@) && has_key(old(self)@.comments, fresh@));
            }
        }
        r
    }

    /// The activity log of task `task_id`, restricted to entries whose user
    /// exists, with the user's name, newest first, at most 50 entries.
    pub fn get_activities(&self, task_id: &String) -> (r: Vec<Activity>)
        ensures
            exists|all: Seq<Activity>|
                #[trigger] all.to_multiset() == activities_of(self@, task_id@).to_multiset()
                    && rows_sorted(all) && r@ == all.take(
                    if all.len() < 50 {
                        all.len() as int
                    } else {
                        50
                    },
                ),
    {
        let ghost f = |a: ActivityRecord| activity_listed(a, self@.users, task_id@);
        let mut out: Vec<Activity> = Vec::new();
        let mut i: usize = 0;
        while i < self.activities.len()
            invariant
                i <= self.activities.len(),
                f == (|a: ActivityRecord| activity_listed(a, self@.users, task_id@)),
                out@ == self@.activities.take(i as int).filter_map(f),
            decreases self.activities.len() - i,
        {
            proof {
                self@.activities.lemma_filter_map_take_succ(f, i as int);
            }
            match self.activity_row_listed(&self.activities[i], task_id) {
                Some(a) => {
                    out.push(a);
                },
                None => {},
            }
            i = i + 1;
        }
        assert(self@.activities.take(self@.activities.len() as int) =~= self@.activities);
        let mut sorted = sort_rows(out);
        let ghost all = sorted@;
        if sorted.len() > ACTIVITY_LIMIT {
            sorted.truncate(ACTIVITY_LIMIT);
        } else {
            assert(all.take(all.len() as int) =~= all);
        }
        sorted
    }

    /// Records activity `id` of user `user_id` on task `task_id` at `now`.
    /// Fails, changing nothing, where the key is taken.
    pub fn insert_activity(
        &mut self,
        id: String,
        now: String,
        task_id: String,
        user_id: String,
        action: String,
        details: Option<String>,
    ) -> (r: Result<(), String>)
        requires
            old(self)@.wf(),
        ensures
            final(self)@.wf(),
            match r {
                Ok(()) => {
                    &&& !has_key(old(self)@.activities, id@)
                    &&& final(self)@ == (StoreView {
                        activities: old(self)@.activities.push(
                            ActivityRecord { id, task_id, user_id, action, details, created_at: now },
                        ),
                        ..old(self)@
                    })
                },
                Err(e) => {
                    &&& has_key(old(self)@.activities, id@)
                    &&& e@ == unique_violation("activities"@)
                    &&& final(self)@ == old(self)@
                },
            },
    {
        let row = ActivityRecord { id: id.clone(), task_id, user_id, action, details, created_at: now };
        insert_row(&mut self.activities, row, &id, "activities")
    }

    /// Records an activity with a fresh identifier, now. A failure is
    /// dropped: the log is best effort. The activity is recorded unless its
    /// fresh identifier is already the key of an activity, in which case
    /// nothing changes.
    pub fn log_activity(&mut self, task_id: String, user_id: String, action: String, details: Option<String>)
        requires
            old(self)@.wf(),
        ensures
            final(self)@.wf(),
            exists|id: String, now: String|
                #[trigger] is_uuid_v4_text(id@) && is_clock_text(now@) && #[trigger] activity_logged(
                    old(self)@,
                    final(self)@,
                    ActivityRecord { id, task_id, user_id, action, details, created_at: now },
                ),
    {
        let id = new_id();
        let now = now_rfc3339();
        let ghost entry = ActivityRecord {
            id,
            task_id,
            user_id,
            action,
            details,
            created_at: now,
        };
        let _ = self.insert_activity(id, now, task_id, user_id, action, details);
        assert(activity_logged(old(self)@, self@, entry));
    }
}

} // verus!
