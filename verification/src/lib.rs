//! TeamFlow: the task-tracking data model of a Kanban board (teams, users,
//! projects, columns, tasks and everything attached to tasks) together with
//! every operation the application offers on it, each stated and proved
//! against a mathematical model of the tables.

pub mod model;
pub mod rows;
pub mod outside;
pub mod text;
pub mod store;
pub mod board;
pub mod tasks;
pub mod items;
pub mod journal;
pub mod tracking;
pub mod like;
pub mod voice;
pub mod laws;
pub mod edits;
pub mod listings;
pub mod outcomes;
