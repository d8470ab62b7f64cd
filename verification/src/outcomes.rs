//! What the creating operations record, field by field: a new project and
//! its default columns, the task a spoken "create task" command records, and
//! an entry of the activity log.

use vstd::prelude::*;

use crate::board::{is_default_column, is_new_project};
use crate::journal::activity_logged;
use crate::model::{ActivityRecord, Column, Project};
use crate::rows::{has_key, is_first_least, Field};
use crate::store::StoreView;
use crate::voice::{voice_outcome, VoiceCommand};

verus! {

/// The default columns of a project are "To Do", "In Progress", "In Review"
/// and "Done", at positions 0 to 3, colored grey, blue, purple and green.
pub proof fn law_default_columns(c: Column, project_id: Seq<char>, id: Seq<char>, i: int)
    requires
        is_default_column(c, project_id, id, i),
    ensures
        c.id@ == id && c.project_id@ == project_id && c.position == i,
        i == 0 ==> (c.name@ == "To Do"@ && (c.color matches Some(x) && x@ == "#95a5a6"@)),
        i == 1 ==> (c.name@ == "In Progress"@ && (c.color matches Some(x) && x@ == "#3498db"@)),
        i == 2 ==> (c.name@ == "In Review"@ && (c.color matches Some(x) && x@ == "#9b59b6"@)),
        i == 3 ==> (c.name@ == "Done"@ && (c.color matches Some(x) && x@ == "#27ae60"@)),
{
}

/// A new project carries the key, team, name, description (as present) and
/// color it was created with, is active, and is stamped with its creation
/// time.
pub proof fn law_new_project_fields(
    p: Project,
    id: String,
    now: String,
    team_id: String,
    name: String,
    description: String,
    color: String,
)
    requires
        is_new_project(p, id, now, team_id, name, description, color),
    ensures
        p.id == id && p.team_id == team_id && p.name == name,
        p.description == Some(description) && p.color == color,
        p.status@ == "active"@,
        p.created_at == now && p.updated_at == now,
{
}

/// A "create task" command that succeeds appends one task: keyed `id`,
/// titled as asked, in the first project, in that project's column with the
/// least position, at position 0, of medium priority, with no description,
/// dates, completion, hours, recurrence or creator, stamped `now`; it replies
/// "Created task: " and the title, and leaves every other table as it was.
pub proof fn law_voice_create_records_task(
    before: StoreView,
    title: String,
    id: String,
    now: String,
    after: StoreView,
    m: String,
)
    requires
        voice_outcome(before, VoiceCommand::CreateTask { title }, id, now, after, Ok(m)),
    ensures
        after == (StoreView { tasks: after.tasks, ..before }),
        after.tasks.len() == before.tasks.len() + 1,
        forall|i: int| 0 <= i < before.tasks.len() ==> #[trigger] after.tasks[i] == before.tasks[i],
        m@ == "Created task: "@ + title@,
        ({
            let t = after.tasks.last();
            &&& t.id == id && t.title == title
            &&& t.project_id == before.projects[0].id
            &&& exists|k: int|
                #[trigger] is_first_least(before.columns, Field::ProjectId, before.projects[0].id@, k)
                    && t.column_id == before.columns[k].id
            &&& t.position == 0 && t.priority@ == "medium"@
            &&& t.description is None && t.due_date is None && t.start_date is None
            &&& t.completed_at is None && t.estimated_hours_bits == 0 && t.actual_hours_bits == 0
            &&& t.recurring is None && t.recurring_interval is None && t.created_by is None
            &&& t.created_at == now && t.updated_at == now
        }),
{
    assert forall|i: int| 0 <= i < before.tasks.len() implies #[trigger] after.tasks[i] == before.tasks[i] by {
        assert(after.tasks.drop_last()[i] == after.tasks[i]);
    }
}

/// A "create task" command that fails changes nothing, and says why: there
/// is no project, or the first project has no column, or the key is taken.
pub proof fn law_voice_create_refusals(
    before: StoreView,
    title: String,
    id: String,
    now: String,
    after: StoreView,
    e: String,
)
    requires
        voice_outcome(before, VoiceCommand::CreateTask { title }, id, now, after, Err(e)),
    ensures
        after == before,
        before.projects.len() == 0 ==> e@ == "No projects found. Create a project first."@,
        before.projects.len() > 0 && (forall|k: int|
            !#[trigger] is_first_least(before.columns, Field::ProjectId, before.projects[0].id@, k))
            ==> e@ == "No columns found"@ || has_key(before.tasks, id@),
{
}

/// A command that is neither kind changes nothing and is refused with the
/// list of the commands there are.
pub proof fn law_voice_unknown_refused(
    before: StoreView,
    id: String,
    now: String,
    after: StoreView,
    r: Result<String, String>,
)
    requires
        voice_outcome(before, VoiceCommand::Unknown, id, now, after, r),
    ensures
        after == before,
        (r matches Err(e) && e@ == "Unknown command. Try 'create task [title]' or 'mark [task] as done'"@),
{
}

/// Logging an activity under a free key appends exactly that record to the
/// log and changes nothing else; under a taken key it changes nothing.
pub proof fn law_log_activity_appends(before: StoreView, after: StoreView, a: ActivityRecord)
    requires
        activity_logged(before, after, a),
    ensures
        !has_key(before.activities, a.id@) ==> {
            &&& after.activities.len() == before.activities.len() + 1
            &&& after.activities.last() == a
            &&& forall|i: int| 0 <= i < before.activities.len() ==> #[trigger] after.activities[i] == before.activities[i]
            &&& after == (StoreView { activities: after.activities, ..before })
        },
        has_key(before.activities, a.id@) ==> after == before,
{
}

} // verus!
