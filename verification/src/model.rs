//! The records held by the store, one struct per table, and the values that
//! the read operations hand out.

use vstd::prelude::*;

use crate::rows::{Field, Ordered, Positioned, Row};
use crate::text::{lemma_text_le_total, lemma_text_le_transitive, text_le, text_le_exec};

verus! {

/// A team.
#[derive(Debug, Clone, PartialEq, Eq)]
pub struct Team {
    pub id: String,
    pub name: String,
    pub color: String,
    pub created_at: String,
    pub updated_at: String,
}

/// A member of a team.
#[derive(Debug, Clone, PartialEq, Eq)]
pub struct User {
    pub id: String,
    pub team_id: String,
    pub name: String,
    pub email: Option<String>,
    pub avatar: Option<String>,
    pub role: String,
    pub created_at: String,
}

/// A project of a team.
#[derive(Debug, Clone, PartialEq, Eq)]
pub struct Project {
    pub id: String,
    pub team_id: String,
    pub name: String,
    pub description: Option<String>,
    pub color: String,
    pub status: String,
    pub created_at: String,
    pub updated_at: String,
}

/// Membership of a user in a project.
#[derive(Debug, Clone, PartialEq, Eq)]
pub struct ProjectMember {
    pub project_id: String,
    pub user_id: String,
    pub role: String,
}

/// A Kanban column of a project.
#[derive(Debug, Clone, PartialEq, Eq)]
pub struct Column {
    pub id: String,
    pub project_id: String,
    pub name: String,
    pub position: i32,
    pub color: Option<String>,
}

/// A task. The two hour counts are IEEE-754 binary64 values kept as their bit
/// patterns: the store only carries them, it never computes with them.
#[derive(Debug, Clone, PartialEq, Eq)]
pub struct Task {
    pub id: String,
    pub project_id: String,
    pub column_id: String,
    pub title: String,
    pub description: Option<String>,
    pub priority: String,
    pub due_date: Option<String>,
    pub start_date: Option<String>,
    pub completed_at: Option<String>,
    pub estimated_hours_bits: u64,
    pub actual_hours_bits: u64,
    pub recurring: Option<String>,
    pub recurring_interval: Option<i32>,
    pub position: i32,
    pub created_by: Option<String>,
    pub created_at: String,
    pub updated_at: String,
}

/// A user assigned to a task.
#[derive(Debug, Clone, PartialEq, Eq)]
pub struct TaskAssignee {
    pub task_id: String,
    pub user_id: String,
}

/// A checkbox item inside a task.
#[derive(Debug, Clone, PartialEq, Eq)]
pub struct Subtask {
    pub id: String,
    pub task_id: String,
    pub title: String,
    pub completed: bool,
    pub position: i32,
}

/// A progress step of a task.
#[derive(Debug, Clone, PartialEq, Eq)]
pub struct Milestone {
    pub id: String,
    pub task_id: String,
    pub title: String,
    pub completed: bool,
    pub position: i32,
    pub due_date: Option<String>,
}

/// A label.
#[derive(Debug, Clone, PartialEq, Eq)]
pub struct Tag {
    pub id: String,
    pub name: String,
    pub color: String,
}

/// A label attached to a task.
#[derive(Debug, Clone, PartialEq, Eq)]
pub struct TaskTag {
    pub task_id: String,
    pub tag_id: String,
}

/// A comment as it is stored.
#[derive(Debug, Clone, PartialEq, Eq)]
pub struct CommentRecord {
    pub id: String,
    pub task_id: String,
    pub user_id: String,
    pub content: String,
    pub created_at: String,
}

/// A comment together with the name of its author.
#[derive(Debug, Clone, PartialEq, Eq)]
pub struct Comment {
    pub id: String,
    pub task_id: String,
    pub user_id: String,
    pub user_name: String,
    pub content: String,
    pub created_at: String,
}

/// A time entry as it is stored; `duration` is `None` where the elapsed time
/// could not be computed from the two timestamps.
#[derive(Debug, Clone, PartialEq, Eq)]
pub struct TimeEntryRecord {
    pub id: String,
    pub task_id: String,
    pub user_id: String,
    pub start_time: String,
    pub end_time: Option<String>,
    pub duration: Option<i64>,
}

/// A time entry as it is listed.
#[derive(Debug, Clone, PartialEq, Eq)]
pub struct TimeEntry {
    pub id: String,
    pub task_id: String,
    pub user_id: String,
    pub start_time: String,
    pub end_time: Option<String>,
    pub duration: i64,
}

/// An entry of a task's activity log as it is stored.
#[derive(Debug, Clone, PartialEq, Eq)]
pub struct ActivityRecord {
    pub id: String,
    pub task_id: String,
    pub user_id: String,
    pub action: String,
    pub details: Option<String>,
    pub created_at: String,
}

/// An entry of a task's activity log together with the name of its user.
#[derive(Debug, Clone, PartialEq, Eq)]
pub struct Activity {
    pub id: String,
    pub task_id: String,
    pub user_id: String,
    pub user_name: String,
    pub action: String,
    pub details: Option<String>,
    pub created_at: String,
}

/// An application setting.
#[derive(Debug, Clone, PartialEq, Eq)]
pub struct Setting {
    pub key: String,
    pub value: String,
}

/// A task with the users, subtasks, milestones and tags attached to it.
#[derive(Debug, Clone, PartialEq, Eq)]
pub struct TaskWithDetails {
    pub task: Task,
    pub assignees: Vec<User>,
    pub subtasks: Vec<Subtask>,
    pub milestones: Vec<Milestone>,
    pub tags: Vec<Tag>,
}

/// A copy of an optional text.
pub fn copy_opt(o: &Option<String>) -> (r: Option<String>)
    ensures
        r == *o,
{
    match o {
        Some(s) => Some(s.clone()),
        None => None,
    }
}

impl Row for Team {
    open spec fn field_spec(&self, f: Field) -> Option<Seq<char>> {
        match f {
            Field::Id => Some(self.id@),
            _ => None,
        }
    }

    fn field(&self, f: Field) -> (r: Option<&String>) {
        match f {
            Field::Id => Some(&self.id),
            _ => None,
        }
    }

    fn duplicate(&self) -> (r: Self) {
        Team {
            id: self.id.clone(),
            name: self.name.clone(),
            color: self.color.clone(),
            created_at: self.created_at.clone(),
            updated_at: self.updated_at.clone(),
        }
    }
}

impl Row for User {
    open spec fn field_spec(&self, f: Field) -> Option<Seq<char>> {
        match f {
            Field::Id => Some(self.id@),
            Field::TeamId => Some(self.team_id@),
            _ => None,
        }
    }

    fn field(&self, f: Field) -> (r: Option<&String>) {
        match f {
            Field::Id => Some(&self.id),
            Field::TeamId => Some(&self.team_id),
            _ => None,
        }
    }

    fn duplicate(&self) -> (r: Self) {
        User {
            id: self.id.clone(),
            team_id: self.team_id.clone(),
            name: self.name.clone(),
            email: copy_opt(&self.email),
            avatar: copy_opt(&self.avatar),
            role: self.role.clone(),
            created_at: self.created_at.clone(),
        }
    }
}

impl Row for Project {
    open spec fn field_spec(&self, f: Field) -> Option<Seq<char>> {
        match f {
            Field::Id => Some(self.id@),
            Field::TeamId => Some(self.team_id@),
            _ => None,
        }
    }

    fn field(&self, f: Field) -> (r: Option<&String>) {
        match f {
            Field::Id => Some(&self.id),
            Field::TeamId => Some(&self.team_id),
            _ => None,
        }
    }

    fn duplicate(&self) -> (r: Self) {
        Project {
            id: self.id.clone(),
            team_id: self.team_id.clone(),
            name: self.name.clone(),
            description: copy_opt(&self.description),
            color: self.color.clone(),
            status: self.status.clone(),
            created_at: self.created_at.clone(),
            updated_at: self.updated_at.clone(),
        }
    }
}

impl Row for ProjectMember {
    open spec fn field_spec(&self, f: Field) -> Option<Seq<char>> {
        match f {
            Field::ProjectId => Some(self.project_id@),
            Field::UserId => Some(self.user_id@),
            _ => None,
        }
    }

    fn field(&self, f: Field) -> (r: Option<&String>) {
        match f {
            Field::ProjectId => Some(&self.project_id),
            Field::UserId => Some(&self.user_id),
            _ => None,
        }
    }

    fn duplicate(&self) -> (r: Self) {
        ProjectMember {
            project_id: self.project_id.clone(),
            user_id: self.user_id.clone(),
            role: self.role.clone(),
        }
    }
}

impl Row for Column {
    open spec fn field_spec(&self, f: Field) -> Option<Seq<char>> {
        match f {
            Field::Id => Some(self.id@),
            Field::ProjectId => Some(self.project_id@),
            _ => None,
        }
    }

    fn field(&self, f: Field) -> (r: Option<&String>) {
        match f {
            Field::Id => Some(&self.id),
            Field::ProjectId => Some(&self.project_id),
            _ => None,
        }
    }

    fn duplicate(&self) -> (r: Self) {
        Column {
            id: self.id.clone(),
            project_id: self.project_id.clone(),
            name: self.name.clone(),
            position: self.position,
            color: copy_opt(&self.color),
        }
    }
}

impl Row for Task {
    open spec fn field_spec(&self, f: Field) -> Option<Seq<char>> {
        match f {
            Field::Id => Some(self.id@),
            Field::ProjectId => Some(self.project_id@),
            Field::ColumnId => Some(self.column_id@),
            _ => None,
        }
    }

    fn field(&self, f: Field) -> (r: Option<&String>) {
        match f {
            Field::Id => Some(&self.id),
            Field::ProjectId => Some(&self.project_id),
            Field::ColumnId => Some(&self.column_id),
            _ => None,
        }
    }

    fn duplicate(&self) -> (r: Self) {
        Task {
            id: self.id.clone(),
            project_id: self.project_id.clone(),
            column_id: self.column_id.clone(),
            title: self.title.clone(),
            description: copy_opt(&self.description),
            priority: self.priority.clone(),
            due_date: copy_opt(&self.due_date),
            start_date: copy_opt(&self.start_date),
            completed_at: copy_opt(&self.completed_at),
            estimated_hours_bits: self.estimated_hours_bits,
            actual_hours_bits: self.actual_hours_bits,
            recurring: copy_opt(&self.recurring),
            recurring_interval: self.recurring_interval,
            position: self.position,
            created_by: copy_opt(&self.created_by),
            created_at: self.created_at.clone(),
            updated_at: self.updated_at.clone(),
        }
    }
}

impl Row for TaskAssignee {
    open spec fn field_spec(&self, f: Field) -> Option<Seq<char>> {
        match f {
            Field::TaskId => Some(self.task_id@),
            Field::UserId => Some(self.user_id@),
            _ => None,
        }
    }

    fn field(&self, f: Field) -> (r: Option<&String>) {
        match f {
            Field::TaskId => Some(&self.task_id),
            Field::UserId => Some(&self.user_id),
            _ => None,
        }
    }

    fn duplicate(&self) -> (r: Self) {
        TaskAssignee {
            task_id: self.task_id.clone(),
            user_id: self.user_id.clone(),
        }
    }
}

impl Row for Subtask {
    open spec fn field_spec(&self, f: Field) -> Option<Seq<char>> {
        match f {
            Field::Id => Some(self.id@),
            Field::TaskId => Some(self.task_id@),
            _ => None,
        }
    }

    fn field(&self, f: Field) -> (r: Option<&String>) {
        match f {
            Field::Id => Some(&self.id),
            Field::TaskId => Some(&self.task_id),
            _ => None,
        }
    }

    fn duplicate(&self) -> (r: Self) {
        Subtask {
            id: self.id.clone(),
            task_id: self.task_id.clone(),
            title: self.title.clone(),
            completed: self.completed,
            position: self.position,
        }
    }
}

impl Row for Milestone {
    open spec fn field_spec(&self, f: Field) -> Option<Seq<char>> {
        match f {
            Field::Id => Some(self.id@),
            Field::TaskId => Some(self.task_id@),
            _ => None,
        }
    }

    fn field(&self, f: Field) -> (r: Option<&String>) {
        match f {
            Field::Id => Some(&self.id),
            Field::TaskId => Some(&self.task_id),
            _ => None,
        }
    }

    fn duplicate(&self) -> (r: Self) {
        Milestone {
            id: self.id.clone(),
            task_id: self.task_id.clone(),
            title: self.title.clone(),
            completed: self.completed,
            position: self.position,
            due_date: copy_opt(&self.due_date),
        }
    }
}

impl Row for Tag {
    open spec fn field_spec(&self, f: Field) -> Option<Seq<char>> {
        match f {
            Field::Id => Some(self.id@),
            _ => None,
        }
    }

    fn field(&self, f: Field) -> (r: Option<&String>) {
        match f {
            Field::Id => Some(&self.id),
            _ => None,
        }
    }

    fn duplicate(&self) -> (r: Self) {
        Tag {
            id: self.id.clone(),
            name: self.name.clone(),
            color: self.color.clone(),
        }
    }
}

impl Row for TaskTag {
    open spec fn field_spec(&self, f: Field) -> Option<Seq<char>> {
        match f {
            Field::TaskId => Some(self.task_id@),
            Field::TagId => Some(self.tag_id@),
            _ => None,
        }
    }

    fn field(&self, f: Field) -> (r: Option<&String>) {
        match f {
            Field::TaskId => Some(&self.task_id),
            Field::TagId => Some(&self.tag_id),
            _ => None,
        }
    }

    fn duplicate(&self) -> (r: Self) {
        TaskTag {
            task_id: self.task_id.clone(),
            tag_id: self.tag_id.clone(),
        }
    }
}

impl Row for CommentRecord {
    open spec fn field_spec(&self, f: Field) -> Option<Seq<char>> {
        match f {
            Field::Id => Some(self.id@),
            Field::TaskId => Some(self.task_id@),
            Field::UserId => Some(self.user_id@),
            _ => None,
        }
    }

    fn field(&self, f: Field) -> (r: Option<&String>) {
        match f {
            Field::Id => Some(&self.id),
            Field::TaskId => Some(&self.task_id),
            Field::UserId => Some(&self.user_id),
            _ => None,
        }
    }

    fn duplicate(&self) -> (r: Self) {
        CommentRecord {
            id: self.id.clone(),
            task_id: self.task_id.clone(),
            user_id: self.user_id.clone(),
            content: self.content.clone(),
            created_at: self.created_at.clone(),
        }
    }
}

impl Row for Comment {
    open spec fn field_spec(&self, f: Field) -> Option<Seq<char>> {
        match f {
            Field::Id => Some(self.id@),
            Field::TaskId => Some(self.task_id@),
            Field::UserId => Some(self.user_id@),
            _ => None,
        }
    }

    fn field(&self, f: Field) -> (r: Option<&String>) {
        match f {
            Field::Id => Some(&self.id),
            Field::TaskId => Some(&self.task_id),
            Field::UserId => Some(&self.user_id),
            _ => None,
        }
    }

    fn duplicate(&self) -> (r: Self) {
        Comment {
            id: self.id.clone(),
            task_id: self.task_id.clone(),
            user_id: self.user_id.clone(),
            user_name: self.user_name.clone(),
            content: self.content.clone(),
            created_at: self.created_at.clone(),
        }
    }
}

impl Row for TimeEntryRecord {
    open spec fn field_spec(&self, f: Field) -> Option<Seq<char>> {
        match f {
            Field::Id => Some(self.id@),
            Field::TaskId => Some(self.task_id@),
            Field::UserId => Some(self.user_id@),
            _ => None,
        }
    }

    fn field(&self, f: Field) -> (r: Option<&String>) {
        match f {
            Field::Id => Some(&self.id),
            Field::TaskId => Some(&self.task_id),
            Field::UserId => Some(&self.user_id),
            _ => None,
        }
    }

    fn duplicate(&self) -> (r: Self) {
        TimeEntryRecord {
            id: self.id.clone(),
            task_id: self.task_id.clone(),
            user_id: self.user_id.clone(),
            start_time: self.start_time.clone(),
            end_time: copy_opt(&self.end_time),
            duration: self.duration,
        }
    }
}

impl Row for TimeEntry {
    open spec fn field_spec(&self, f: Field) -> Option<Seq<char>> {
        match f {
            Field::Id => Some(self.id@),
            Field::TaskId => Some(self.task_id@),
            Field::UserId => Some(self.user_id@),
            _ => None,
        }
    }

    fn field(&self, f: Field) -> (r: Option<&String>) {
        match f {
            Field::Id => Some(&self.id),
            Field::TaskId => Some(&self.task_id),
            Field::UserId => Some(&self.user_id),
            _ => None,
        }
    }

    fn duplicate(&self) -> (r: Self) {
        TimeEntry {
            id: self.id.clone(),
            task_id: self.task_id.clone(),
            user_id: self.user_id.clone(),
            start_time: self.start_time.clone(),
            end_time: copy_opt(&self.end_time),
            duration: self.duration,
        }
    }
}

impl Row for ActivityRecord {
    open spec fn field_spec(&self, f: Field) -> Option<Seq<char>> {
        match f {
            Field::Id => Some(self.id@),
            Field::TaskId => Some(self.task_id@),
            Field::UserId => Some(self.user_id@),
            _ => None,
        }
    }

    fn field(&self, f: Field) -> (r: Option<&String>) {
        match f {
            Field::Id => Some(&self.id),
            Field::TaskId => Some(&self.task_id),
            Field::UserId => Some(&self.user_id),
            _ => None,
        }
    }

    fn duplicate(&self) -> (r: Self) {
        ActivityRecord {
            id: self.id.clone(),
            task_id: self.task_id.clone(),
            user_id: self.user_id.clone(),
            action: self.action.clone(),
            details: copy_opt(&self.details),
            created_at: self.created_at.clone(),
        }
    }
}

impl Row for Activity {
    open spec fn field_spec(&self, f: Field) -> Option<Seq<char>> {
        match f {
            Field::Id => Some(self.id@),
            Field::TaskId => Some(self.task_id@),
            Field::UserId => Some(self.user_id@),
            _ => None,
        }
    }

    fn field(&self, f: Field) -> (r: Option<&String>) {
        match f {
            Field::Id => Some(&self.id),
            Field::TaskId => Some(&self.task_id),
            Field::UserId => Some(&self.user_id),
            _ => None,
        }
    }

    fn duplicate(&self) -> (r: Self) {
        Activity {
            id: self.id.clone(),
            task_id: self.task_id.clone(),
            user_id: self.user_id.clone(),
            user_name: self.user_name.clone(),
            action: self.action.clone(),
            details: copy_opt(&self.details),
            created_at: self.created_at.clone(),
        }
    }
}

impl Row for Setting {
    open spec fn field_spec(&self, f: Field) -> Option<Seq<char>> {
        match f {
            Field::Id => Some(self.key@),
            _ => None,
        }
    }

    fn field(&self, f: Field) -> (r: Option<&String>) {
        match f {
            Field::Id => Some(&self.key),
            _ => None,
        }
    }

    fn duplicate(&self) -> (r: Self) {
        Setting {
            key: self.key.clone(),
            value: self.value.clone(),
        }
    }
}

/// Listed by ascending position.
impl Ordered for Column {
    open spec fn ord_le(&self, other: &Self) -> bool {
        self.position <= other.position
    }

    fn ord_le_exec(&self, other: &Self) -> (r: bool) {
        self.position <= other.position
    }

    proof fn ord_le_total(a: &Self, b: &Self) {
    }

    proof fn ord_le_transitive(a: &Self, b: &Self, c: &Self) {
    }
}

/// Listed by ascending position.
impl Ordered for Task {
    open spec fn ord_le(&self, other: &Self) -> bool {
        self.position <= other.position
    }

    fn ord_le_exec(&self, other: &Self) -> (r: bool) {
        self.position <= other.position
    }

    proof fn ord_le_total(a: &Self, b: &Self) {
    }

    proof fn ord_le_transitive(a: &Self, b: &Self, c: &Self) {
    }
}

/// Listed by ascending position.
impl Ordered for Subtask {
    open spec fn ord_le(&self, other: &Self) -> bool {
        self.position <= other.position
    }

    fn ord_le_exec(&self, other: &Self) -> (r: bool) {
        self.position <= other.position
    }

    proof fn ord_le_total(a: &Self, b: &Self) {
    }

    proof fn ord_le_transitive(a: &Self, b: &Self, c: &Self) {
    }
}

/// Listed by ascending position.
impl Ordered for Milestone {
    open spec fn ord_le(&self, other: &Self) -> bool {
        self.position <= other.position
    }

    fn ord_le_exec(&self, other: &Self) -> (r: bool) {
        self.position <= other.position
    }

    proof fn ord_le_total(a: &Self, b: &Self) {
    }

    proof fn ord_le_transitive(a: &Self, b: &Self, c: &Self) {
    }
}

/// Listed by ascending `name`.
impl Ordered for Team {
    open spec fn ord_le(&self, other: &Self) -> bool {
        text_le(self.name@, other.name@)
    }

    fn ord_le_exec(&self, other: &Self) -> (r: bool) {
        text_le_exec(self.name.as_str(), other.name.as_str())
    }

    proof fn ord_le_total(a: &Self, b: &Self) {
        lemma_text_le_total(a.name@, b.name@);
    }

    proof fn ord_le_transitive(a: &Self, b: &Self, c: &Self) {
        lemma_text_le_transitive(a.name@, b.name@, c.name@);
    }
}

/// Listed by ascending `name`.
impl Ordered for Project {
    open spec fn ord_le(&self, other: &Self) -> bool {
        text_le(self.name@, other.name@)
    }

    fn ord_le_exec(&self, other: &Self) -> (r: bool) {
        text_le_exec(self.name.as_str(), other.name.as_str())
    }

    proof fn ord_le_total(a: &Self, b: &Self) {
        lemma_text_le_total(a.name@, b.name@);
    }

    proof fn ord_le_transitive(a: &Self, b: &Self, c: &Self) {
        lemma_text_le_transitive(a.name@, b.name@, c.name@);
    }
}

/// Listed by ascending `name`.
impl Ordered for Tag {
    open spec fn ord_le(&self, other: &Self) -> bool {
        text_le(self.name@, other.name@)
    }

    fn ord_le_exec(&self, other: &Self) -> (r: bool) {
        text_le_exec(self.name.as_str(), other.name.as_str())
    }

    proof fn ord_le_total(a: &Self, b: &Self) {
        lemma_text_le_total(a.name@, b.name@);
    }

    proof fn ord_le_transitive(a: &Self, b: &Self, c: &Self) {
        lemma_text_le_transitive(a.name@, b.name@, c.name@);
    }
}

/// Listed by descending `start_time`.
impl Ordered for TimeEntry {
    open spec fn ord_le(&self, other: &Self) -> bool {
        text_le(other.start_time@, self.start_time@)
    }

    fn ord_le_exec(&self, other: &Self) -> (r: bool) {
        text_le_exec(other.start_time.as_str(), self.start_time.as_str())
    }

    proof fn ord_le_total(a: &Self, b: &Self) {
        lemma_text_le_total(a.start_time@, b.start_time@);
    }

    proof fn ord_le_transitive(a: &Self, b: &Self, c: &Self) {
        lemma_text_le_transitive(c.start_time@, b.start_time@, a.start_time@);
    }
}

/// Listed by descending `created_at`.
impl Ordered for Comment {
    open spec fn ord_le(&self, other: &Self) -> bool {
        text_le(other.created_at@, self.created_at@)
    }

    fn ord_le_exec(&self, other: &Self) -> (r: bool) {
        text_le_exec(other.created_at.as_str(), self.created_at.as_str())
    }

    proof fn ord_le_total(a: &Self, b: &Self) {
        lemma_text_le_total(a.created_at@, b.created_at@);
    }

    proof fn ord_le_transitive(a: &Self, b: &Self, c: &Self) {
        lemma_text_le_transitive(c.created_at@, b.created_at@, a.created_at@);
    }
}

/// Listed by descending `created_at`.
impl Ordered for Activity {
    open spec fn ord_le(&self, other: &Self) -> bool {
        text_le(other.created_at@, self.created_at@)
    }

    fn ord_le_exec(&self, other: &Self) -> (r: bool) {
        text_le_exec(other.created_at.as_str(), self.created_at.as_str())
    }

    proof fn ord_le_total(a: &Self, b: &Self) {
        lemma_text_le_total(a.created_at@, b.created_at@);
    }

    proof fn ord_le_transitive(a: &Self, b: &Self, c: &Self) {
        lemma_text_le_transitive(c.created_at@, b.created_at@, a.created_at@);
    }
}

impl Positioned for Column {
    open spec fn pos(&self) -> i32 {
        self.position
    }

    fn position(&self) -> (r: i32) {
        self.position
    }
}

impl Positioned for Task {
    open spec fn pos(&self) -> i32 {
        self.position
    }

    fn position(&self) -> (r: i32) {
        self.position
    }
}

impl Positioned for Subtask {
    open spec fn pos(&self) -> i32 {
        self.position
    }

    fn position(&self) -> (r: i32) {
        self.position
    }
}

impl Positioned for Milestone {
    open spec fn pos(&self) -> i32 {
        self.position
    }

    fn position(&self) -> (r: i32) {
        self.position
    }
}

} // verus!
