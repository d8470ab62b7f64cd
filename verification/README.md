# TeamFlow

A desktop task tracker in the manner of Asana: teams, users, projects with
Kanban columns, tasks with assignees, tags, subtasks, milestones, comments,
an activity log, time tracking, settings, and spoken commands ("create task
Fix bug", "mark login as done").

## Layout

- `src/` is the library, verified with Verus. `Store` holds one table per
  kind of record; every operation of the application is a method on it whose
  contract states, over the tables as sequences of records, what it returns
  and how it changes them.
  - `model.rs`: the records; `rows.rs`: generic table operations (filters,
    lookups, sorting, insertion under a unique key, next positions);
    `text.rs`: code-point order of text and trimming of white space.
  - `store.rs`: the store, its well-formedness (distinct keys), teams, users,
    tags, settings.
  - `board.rs`: projects and columns; `tasks.rs`: tasks; `items.rs`:
    assignees, task tags, subtasks, milestones; `journal.rs`: comments and the
    activity log; `tracking.rs`: timers.
  - `like.rs`: SQL `LIKE` matching; `voice.rs`: spoken commands.
  - `laws.rs`: properties that span operations (a setting reads back what was
    written, a toggle done twice undoes itself, a deleted task leaves nothing
    behind, a new board lists its default columns in order, and more).
  - `outside.rs`: the calls into `uuid`, `chrono` and `str::to_lowercase`
    whose contracts are trusted.
- `tests/` runs the library on concrete values.
- `app/` is the Tauri shell: it keeps the store in a SQLite file, loads it for
  each command, runs the library's operation and writes it back; it also
  copies the file to and from a OneDrive folder.
