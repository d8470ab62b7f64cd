//! The store: one table per kind of record, with the rule that primary keys
//! are distinct. This file holds the tables, their model, and the operations
//! on teams, users, tags and settings; the board (projects, columns, tasks),
//! the items attached to tasks, and time tracking have files of their own.

use vstd::prelude::*;

use crate::model::{
    ActivityRecord, Column, CommentRecord, Milestone, Project, ProjectMember, Setting, Subtask, Tag, Task,
    TaskAssignee, TaskTag, Team, TimeEntryRecord, User,
};
use crate::outside::{is_clock_text, is_uuid_v4_text, new_id, now_rfc3339};
use crate::rows::{
    copy_rows, delete_rows_where, field_is, field_is_not, find_row, has_key, insert_row, is_first_match,
    keys_are_unique, keys_unique, lemma_filter_keeps_distinct, lemma_filter_not_field,
    lemma_push_keeps_distinct, pairs_are_unique, pairs_unique, primary_key, rows_sorted, rows_where,
    sort_rows, unique_violation, Field, Row,
};

verus! {

/// All tables, each in insertion order.
pub struct Store {
    pub teams: Vec<Team>,
    pub users: Vec<User>,
    pub projects: Vec<Project>,
    pub project_members: Vec<ProjectMember>,
    pub columns: Vec<Column>,
    pub tasks: Vec<Task>,
    pub task_assignees: Vec<TaskAssignee>,
    pub subtasks: Vec<Subtask>,
    pub milestones: Vec<Milestone>,
    pub tags: Vec<Tag>,
    pub task_tags: Vec<TaskTag>,
    pub comments: Vec<CommentRecord>,
    pub time_entries: Vec<TimeEntryRecord>,
    pub activities: Vec<ActivityRecord>,
    pub settings: Vec<Setting>,
}

/// The model of a store: each table as a sequence of records.
pub struct StoreView {
    pub teams: Seq<Team>,
    pub users: Seq<User>,
    pub projects: Seq<Project>,
    pub project_members: Seq<ProjectMember>,
    pub columns: Seq<Column>,
    pub tasks: Seq<Task>,
    pub task_assignees: Seq<TaskAssignee>,
    pub subtasks: Seq<Subtask>,
    pub milestones: Seq<Milestone>,
    pub tags: Seq<Tag>,
    pub task_tags: Seq<TaskTag>,
    pub comments: Seq<CommentRecord>,
    pub time_entries: Seq<TimeEntryRecord>,
    pub activities: Seq<ActivityRecord>,
    pub settings: Seq<Setting>,
}

impl View for Store {
    type V = StoreView;

    open spec fn view(&self) -> StoreView {
        StoreView {
            teams: self.teams@,
            users: self.users@,
            projects: self.projects@,
            project_members: self.project_members@,
            columns: self.columns@,
            tasks: self.tasks@,
            task_assignees: self.task_assignees@,
            subtasks: self.subtasks@,
            milestones: self.milestones@,
            tags: self.tags@,
            task_tags: self.task_tags@,
            comments: self.comments@,
            time_entries: self.time_entries@,
            activities: self.activities@,
            settings: self.settings@,
        }
    }
}

impl StoreView {
    /// Primary keys are distinct in every table, and no link (membership,
    /// assignment, tag) occurs twice.
    pub open spec fn wf(self) -> bool {
        &&& keys_unique(self.teams)
        &&& keys_unique(self.users)
        &&& keys_unique(self.projects)
        &&& pairs_unique(self.project_members, Field::ProjectId, Field::UserId)
        &&& keys_unique(self.columns)
        &&& keys_unique(self.tasks)
        &&& pairs_unique(self.task_assignees, Field::TaskId, Field::UserId)
        &&& keys_unique(self.subtasks)
        &&& keys_unique(self.milestones)
        &&& keys_unique(self.tags)
        &&& pairs_unique(self.task_tags, Field::TaskId, Field::TagId)
        &&& keys_unique(self.comments)
        &&& keys_unique(self.time_entries)
        &&& keys_unique(self.activities)
        &&& keys_unique(self.settings)
    }

    /// The value of setting `key`, if it is set.
    pub open spec fn setting(self, key: Seq<char>) -> Option<Seq<char>> {
        if exists|i: int| is_first_match(self.settings, Field::Id, key, i) {
            let i = choose|i: int| is_first_match(self.settings, Field::Id, key, i);
            Some(self.settings[i].value@)
        } else {
            None
        }
    }
}

impl Store {
    /// An empty store.
    pub fn new() -> (s: Store)
        ensures
            s@.wf(),
            s@.teams.len() == 0 && s@.users.len() == 0 && s@.projects.len() == 0,
            s@.project_members.len() == 0 && s@.columns.len() == 0 && s@.tasks.len() == 0,
            s@.task_assignees.len() == 0 && s@.subtasks.len() == 0 && s@.milestones.len() == 0,
            s@.tags.len() == 0 && s@.task_tags.len() == 0 && s@.comments.len() == 0,
            s@.time_entries.len() == 0 && s@.activities.len() == 0 && s@.settings.len() == 0,
    {
        Store {
            teams: Vec::new(),
            users: Vec::new(),
            projects: Vec::new(),
            project_members: Vec::new(),
            columns: Vec::new(),
            tasks: Vec::new(),
            task_assignees: Vec::new(),
            subtasks: Vec::new(),
            milestones: Vec::new(),
            tags: Vec::new(),
            task_tags: Vec::new(),
            comments: Vec::new(),
            time_entries: Vec::new(),
            activities: Vec::new(),
            settings: Vec::new(),
        }
    }

    /// Whether the tables keep the rule of distinct keys; a store loaded from
    /// elsewhere is checked with this before it is used.
    pub fn is_well_formed(&self) -> (r: bool)
        ensures
            r == self@.wf(),
    {
        keys_are_unique(&self.teams) && keys_are_unique(&self.users) && keys_are_unique(
            &self.projects,
        ) && pairs_are_unique(&self.project_members, Field::ProjectId, Field::UserId)
            && keys_are_unique(&self.columns) && keys_are_unique(&self.tasks) && pairs_are_unique(
            &self.task_assignees,
            Field::TaskId,
            Field::UserId,
        ) && keys_are_unique(&self.subtasks) && keys_are_unique(&self.milestones)
            && keys_are_unique(&self.tags) && pairs_are_unique(
            &self.task_tags,
            Field::TaskId,
            Field::TagId,
        ) && keys_are_unique(&self.comments) && keys_are_unique(&self.time_entries)
            && keys_are_unique(&self.activities) && keys_are_unique(&self.settings)
    }

    // ------------------------------------------------------------ teams
    /// All teams, ordered by name.
    pub fn get_teams(&self) -> (r: Vec<Team>)
        ensures
            r@.to_multiset() == self@.teams.to_multiset(),
            rows_sorted(r@),
    {
        sort_rows(copy_rows(&self.teams))
    }

    /// Adds the team `id` created at `now`. Fails, changing nothing, where
    /// the key is taken.
    pub fn insert_team(&mut self, id: String, now: String, name: String, color: String) -> (r:
        Result<Team, String>)
        requires
            old(self)@.wf(),
        ensures
            final(self)@.wf(),
            match r {
                Ok(t) => {
                    &&& !has_key(old(self)@.teams, id@)
                    &&& t == (Team { id, name, color, created_at: now, updated_at: now })
                    &&& final(self)@ == (StoreView { teams: old(self)@.teams.push(t), ..old(self)@ })
                },
                Err(e) => {
                    &&& has_key(old(self)@.teams, id@)
                    &&& e@ == unique_violation("teams"@)
                    &&& final(self)@ == old(self)@
                },
            },
    {
        let team = Team { id: id.clone(), name, color, created_at: now.clone(), updated_at: now };
        let row = team.duplicate();
        match insert_row(&mut self.teams, row, &id, "teams") {
            Ok(()) => Ok(team),
            Err(e) => Err(e),
        }
    }

    /// Creates a team with a fresh identifier, stamped with the current time.
    pub fn create_team(&mut self, name: String, color: String) -> (r: Result<Team, String>)
        requires
            old(self)@.wf(),
        ensures
            final(self)@.wf(),
            match r {
                Ok(t) => {
                    &&& is_uuid_v4_text(t.id@)
                    &&& t.name == name && t.color == color && t.updated_at == t.created_at
                    &&& is_clock_text(t.created_at@)
                    &&& final(self)@ == (StoreView { teams: old(self)@.teams.push(t), ..old(self)@ })
                },
                Err(e) => {
                    &&& e@ == unique_violation("teams"@)
                    &&& final(self)@ == old(self)@
                    &&& exists|id: String| #[trigger] is_uuid_v4_text(id@) && has_key(old(self)@.teams, id@)
                },
            },
    {
        let id = new_id();
        let now = now_rfc3339();
        let ghost fresh = id;
        let r = self.insert_team(id, now, name, color);
        proof {
            if r is Err {
                assert(is_uuid_v4_text(fresh@) && has_key(old(self)@.teams, fresh@));
            }
        }
        r
    }

    // ------------------------------------------------------------ users
    /// The users of team `team_id`, in the order they were added.
    pub fn get_users(&self, team_id: &String) -> (r: Vec<User>)
        ensures
            r@ == self@.users.filter(field_is(Field::TeamId, team_id@)),
    {
        rows_where(&self.users, Field::TeamId, team_id)
    }

    /// Adds the user `id` of team `team_id`, created at `now`, with role
    /// "member" and no avatar. Fails, changing nothing, where the key is taken.
    pub fn insert_user(
        &mut self,
        id: String,
        now: String,
        team_id: String,
        name: String,
        email: String,
    ) -> (r: Result<User, String>)
        requires
            old(self)@.wf(),
        ensures
            final(self)@.wf(),
            match r {
                Ok(u) => {
                    &&& !has_key(old(self)@.users, id@)
                    &&& u.id == id && u.team_id == team_id && u.name == name
                    &&& u.email == Some(email) && u.avatar is None
                    &&& u.role@ == "member"@ && u.created_at == now
                    &&& final(self)@ == (StoreView { users: old(self)@.users.push(u), ..old(self)@ })
                },
                Err(e) => {
                    &&& has_key(old(self)@.users, id@)
                    &&& e@ == unique_violation("users"@)
                    &&& final(self)@ == old(self)@
                },
            },
    {
        let user = User {
            id: id.clone(),
            team_id,
            name,
            email: Some(email),
            avatar: None,
            role: "member".to_owned(),
            created_at: now,
        };
        let row = user.duplicate();
        match insert_row(&mut self.users, row, &id, "users") {
            Ok(()) => Ok(user),
            Err(e) => Err(e),
        }
    }

    /// Creates a user with a fresh identifier, stamped with the current time.
    pub fn create_user(&mut self, team_id: String, name: String, email: String) -> (r: Result<
        User,
        String,
    >)
        requires
            old(self)@.wf(),
        ensures
            final(self)@.wf(),
            match r {
                Ok(u) => {
                    &&& is_uuid_v4_text(u.id@)
                    &&& u.team_id == team_id && u.name == name
                    &&& u.email == Some(email) && u.avatar is None && u.role@ == "member"@
                    &&& is_clock_text(u.created_at@)
                    &&& final(self)@ == (StoreView { users: old(self)@.users.push(u), ..old(self)@ })
                },
                Err(e) => {
                    &&& e@ == unique_violation("users"@)
                    &&& final(self)@ == old(self)@
                    &&& exists|id: String| #[trigger] is_uuid_v4_text(id@) && has_key(old(self)@.users, id@)
                },
            },
    {
        let id = new_id();
        let now = now_rfc3339();
        let ghost fresh = id;
        let r = self.insert_user(id, now, team_id, name, email);
        proof {
            if r is Err {
                assert(is_uuid_v4_text(fresh@) && has_key(old(self)@.users, fresh@));
            }
        }
        r
    }

    // ------------------------------------------------------------ tags
    /// All tags, ordered by name.
    pub fn get_tags(&self) -> (r: Vec<Tag>)
        ensures
            r@.to_multiset() == self@.tags.to_multiset(),
            rows_sorted(r@),
    {
        sort_rows(copy_rows(&self.tags))
    }

    /// Adds the tag `id`. Fails, changing nothing, where the key is taken.
    pub fn insert_tag(&mut self, id: String, name: String, color: String) -> (r: Result<
        Tag,
        String,
    >)
        requires
            old(self)@.wf(),
        ensures
            final(self)@.wf(),
            match r {
                Ok(t) => {
                    &&& !has_key(old(self)@.tags, id@)
                    &&& t == (Tag { id, name, color })
                    &&& final(self)@ == (StoreView { tags: old(self)@.tags.push(t), ..old(self)@ })
                },
                Err(e) => {
                    &&& has_key(old(self)@.tags, id@)
                    &&& e@ == unique_violation("tags"@)
                    &&& final(self)@ == old(self)@
                },
            },
    {
        let tag = Tag { id: id.clone(), name, color };
        let row = tag.duplicate();
        match insert_row(&mut self.tags, row, &id, "tags") {
            Ok(()) => Ok(tag),
            Err(e) => Err(e),
        }
    }

    /// Creates a tag with a fresh identifier.
    pub fn create_tag(&mut self, name: String, color: String) -> (r: Result<Tag, String>)
        requires
            old(self)@.wf(),
        ensures
            final(self)@.wf(),
            match r {
                Ok(t) => {
                    &&& is_uuid_v4_text(t.id@)
                    &&& t.name == name && t.color == color
                    &&& final(self)@ == (StoreView { tags: old(self)@.tags.push(t), ..old(self)@ })
                },
                Err(e) => {
                    &&& e@ == unique_violation("tags"@)
                    &&& final(self)@ == old(self)@
                    &&& exists|id: String| #[trigger] is_uuid_v4_text(id@) && has_key(old(self)@.tags, id@)
                },
            },
    {
        let id = new_id();
        let ghost fresh = id;
        let r = self.insert_tag(id, name, color);
        proof {
            if r is Err {
                assert(is_uuid_v4_text(fresh@) && has_key(old(self)@.tags, fresh@));
            }
        }
        r
    }

    // ------------------------------------------------------------ settings
    /// The value of setting `key`, if it is set.
    pub fn get_setting(&self, key: &String) -> (r: Option<String>)
        ensures
            match r {
                Some(v) => self@.setting(key@) == Some(v@),
                None => self@.setting(key@) is None,
            },
    {
        match find_row(&self.settings, Field::Id, key) {
            Some(i) => {
                proof {
                    let j = choose|j: int| is_first_match(self@.settings, Field::Id, key@, j);
                    assert(j == i as int) by {
                        if j < i {
                        } else if j > i {
                        }
                    }
                }
                Some(self.settings[i].value.clone())
            },
            None => None,
        }
    }

    /// Sets `key` to `value`, replacing any earlier value: the old row goes
    /// and the new one is appended.
    pub fn set_setting(&mut self, key: String, value: String)
        requires
            old(self)@.wf(),
        ensures
            final(self)@.wf(),
            final(self)@ == (StoreView {
                settings: old(self)@.settings.filter(field_is_not(Field::Id, key@)).push(
                    Setting { key, value },
                ),
                ..old(self)@
            }),
    {
        delete_rows_where(&mut self.settings, Field::Id, &key);
        proof {
            lemma_filter_keeps_distinct(
                old(self)@.settings,
                primary_key::<Setting>(),
                field_is_not::<Setting>(Field::Id, key@),
            );
            lemma_filter_not_field(old(self)@.settings, Field::Id, key@);
            lemma_push_keeps_distinct(self@.settings, primary_key::<Setting>(), Setting { key, value });
        }
        self.settings.push(Setting { key, value });
    }
}

} // verus!
