//! Spoken commands: "create task <title>" and "mark <task> as done".

use vstd::prelude::*;
use vstd::string::StringSliceAdditionalSpecFns;
use vstd::utf8::{
    decode_utf8, encode_utf8, encode_utf8_decode_utf8, encode_utf8_valid_utf8, is_char_boundary,
    is_char_boundary_iff_not_is_continuation_byte, is_char_boundary_start_end_of_seq, valid_utf8,
    valid_utf8_split,
};

use crate::like::{chars_of, containing_pattern, like, like_exec};
use crate::model::Task;
use crate::outside::{
    ascii_lower_char, ascii_lowered, is_ascii_text, is_clock_text, is_uuid_v4_text, lowercase, new_id, now_rfc3339,
    to_lower,
};
use crate::text::{trim_text, trimmed};
use crate::rows::{
    edit_rows, find_first_least, has_key, insert_row, is_first_least, lemma_first_least_unique,
    lemma_same_keys_keep_distinct,
    no_match, primary_key, unique_violation, Edit, Field, Row,
};
use crate::store::{Store, StoreView};

verus! {

/// What a spoken command asks for.
#[derive(Debug, Clone, PartialEq, Eq)]
pub enum VoiceCommand {
    CreateTask { title: String },
    MarkDone { task_name: String },
    Unknown,
}

/// `s` begins with `p`.
pub open spec fn has_prefix(s: Seq<char>, p: Seq<char>) -> bool {
    p.len() <= s.len() && s.take(p.len() as int) == p
}

/// `n` occurs in `h`.
pub open spec fn contains_text(h: Seq<char>, n: Seq<char>) -> bool {
    exists|i: int| 0 <= i && i + n.len() <= h.len() && #[trigger] h.subrange(i, i + n.len()) == n
}

/// The text held by bytes `from` to `to` of the UTF-8 encoding of `s`.
pub open spec fn byte_slice(s: Seq<char>, from: int, to: int) -> Seq<char> {
    decode_utf8(encode_utf8(s).subrange(from, to))
}

/// Lower-cased text `lower` begins with "create task ".
pub open spec fn is_create_text(lower: Seq<char>) -> bool {
    has_prefix(lower, "create task "@)
}

/// Lower-cased text `lower` begins with "mark " and contains " as done".
pub open spec fn is_mark_text(lower: Seq<char>) -> bool {
    has_prefix(lower, "mark "@) && contains_text(lower, " as done"@)
}

/// Where the task name of a "mark" command ends: eight bytes before the end
/// of its lower-cased text `lower`.
pub open spec fn mark_end_in(lower: Seq<char>) -> int {
    encode_utf8(lower).len() - 8
}

/// The command, lower-cased, begins with "create task ".
pub open spec fn is_create_command(cmd: Seq<char>) -> bool {
    is_create_text(lowercase(cmd))
}

/// The command, lower-cased, begins with "mark " and contains " as done".
pub open spec fn is_mark_command(cmd: Seq<char>) -> bool {
    is_mark_text(lowercase(cmd))
}

/// Where the task name of a "mark" command ends: eight bytes before the end
/// of the lower-cased command.
pub open spec fn mark_end(cmd: Seq<char>) -> int {
    mark_end_in(lowercase(cmd))
}

/// Command `cmd`, whose lower-cased text is `lower`, can be cut at the byte
/// offsets its reading uses, in order: the title starts at byte 12 of a
/// "create" command; the task name of a "mark" command runs from byte 5 to
/// `mark_end_in(lower)`.
pub open spec fn voice_command_sliceable_with(cmd: Seq<char>, lower: Seq<char>) -> bool {
    let bytes = encode_utf8(cmd);
    if is_create_text(lower) {
        is_char_boundary(bytes, 12)
    } else if is_mark_text(lower) {
        5 <= mark_end_in(lower) && is_char_boundary(bytes, 5) && is_char_boundary(bytes, mark_end_in(lower))
    } else {
        true
    }
}

/// The byte offsets at which the command is cut are character boundaries of
/// the command, in order.
pub open spec fn voice_command_sliceable(cmd: Seq<char>) -> bool {
    voice_command_sliceable_with(cmd, lowercase(cmd))
}

/// `r` is what command `cmd`, whose lower-cased text is `lower`, asks for.
pub open spec fn voice_command_parsed_with(cmd: Seq<char>, lower: Seq<char>, r: VoiceCommand) -> bool {
    match r {
        VoiceCommand::CreateTask { title } => is_create_text(lower) && title@ == trimmed(
            byte_slice(cmd, 12, encode_utf8(cmd).len() as int),
        ),
        VoiceCommand::MarkDone { task_name } => !is_create_text(lower) && is_mark_text(lower)
            && task_name@ == trimmed(byte_slice(cmd, 5, mark_end_in(lower))),
        VoiceCommand::Unknown => !is_create_text(lower) && !is_mark_text(lower),
    }
}

/// `r` is what command `cmd` asks for.
pub open spec fn voice_command_parsed(cmd: Seq<char>, r: VoiceCommand) -> bool {
    voice_command_parsed_with(cmd, lowercase(cmd), r)
}

/// `t` is the task that a "create task" command records.
pub open spec fn is_voice_task(
    t: Task,
    id: String,
    now: String,
    project_id: String,
    column_id: String,
    title: String,
) -> bool {
    &&& t.id == id
    &&& t.project_id == project_id
    &&& t.column_id == column_id
    &&& t.title == title
    &&& t.description is None
    &&& t.priority@ == "medium"@
    &&& t.due_date is None && t.start_date is None && t.completed_at is None
    &&& t.estimated_hours_bits == 0 && t.actual_hours_bits == 0
    &&& t.recurring is None && t.recurring_interval is None
    &&& t.position == 0
    &&& t.created_by is None
    &&& t.created_at == now && t.updated_at == now
}

/// Task `t`, completed at `now` where its title matches `pattern`.
pub open spec fn task_done_if_like(t: Task, pattern: Seq<char>, now: String) -> Task {
    if like(pattern, t.title@) {
        Task { completed_at: Some(now), updated_at: now, ..t }
    } else {
        t
    }
}

/// The tasks, those whose title matches `pattern` completed at `now`.
pub open spec fn tasks_done_if_like(ts: Seq<Task>, pattern: Seq<char>, now: String) -> Seq<Task> {
    ts.map_values(|t: Task| task_done_if_like(t, pattern, now))
}

/// Some task's title matches `pattern`.
pub open spec fn some_title_like(ts: Seq<Task>, pattern: Seq<char>) -> bool {
    exists|i: int| 0 <= i < ts.len() && like(pattern, #[trigger] ts[i].title@)
}

/// The reply to a command that is neither kind.
pub open spec fn unknown_command_message() -> Seq<char> {
    "Unknown command. Try 'create task [title]' or 'mark [task] as done'"@
}

/// The reply where there is no project to create a task in.
pub open spec fn no_projects_message() -> Seq<char> {
    "No projects found. Create a project first."@
}

/// The reply where the first project has no column.
pub open spec fn no_columns_message() -> Seq<char> {
    "No columns found"@
}

/// `after` and `r` are the store and the reply after command `cmd`, run on
/// `before` with `id` and `now` for a task it creates or completes.
pub open spec fn voice_outcome(
    before: StoreView,
    cmd: VoiceCommand,
    id: String,
    now: String,
    after: StoreView,
    r: Result<String, String>,
) -> bool {
    match cmd {
        VoiceCommand::CreateTask { title } => match r {
            Ok(m) => {
                &&& before.projects.len() > 0
                &&& !has_key(before.tasks, id@)
                &&& m@ == "Created task: "@ + title@
                &&& after == (StoreView { tasks: after.tasks, ..before })
                &&& after.tasks.drop_last() == before.tasks
                &&& after.tasks.len() == before.tasks.len() + 1
                &&& exists|k: int|
                    #[trigger] is_first_least(
                        before.columns,
                        Field::ProjectId,
                        before.projects[0].id@,
                        k,
                    ) && is_voice_task(
                        after.tasks.last(),
                        id,
                        now,
                        before.projects[0].id,
                        before.columns[k].id,
                        title,
                    )
            },
            Err(e) => {
                &&& after == before
                &&& {
                    ||| before.projects.len() == 0 && e@ == no_projects_message()
                    ||| before.projects.len() > 0 && no_match(
                        before.columns,
                        Field::ProjectId,
                        before.projects[0].id@,
                    ) && e@ == no_columns_message()
                    ||| before.projects.len() > 0 && !no_match(
                        before.columns,
                        Field::ProjectId,
                        before.projects[0].id@,
                    ) && has_key(before.tasks, id@) && e@ == unique_violation("tasks"@)
                }
            },
        },
        VoiceCommand::MarkDone { task_name } => {
            let pattern = containing_pattern(task_name@);
            &&& after == (StoreView {
                tasks: tasks_done_if_like(before.tasks, pattern, now),
                ..before
            })
            &&& match r {
                Ok(m) => some_title_like(before.tasks, pattern) && m@ == "Marked '"@
                    + task_name@ + "' as done"@,
                Err(e) => !some_title_like(before.tasks, pattern) && e@ == "Task '"@
                    + task_name@ + "' not found"@,
            }
        },
        VoiceCommand::Unknown => after == before && (r matches Err(e) && e@ == unknown_command_message()),
    }
}

proof fn lemma_boundary_within(bytes: Seq<u8>, i: int)
    requires
        valid_utf8(bytes),
        is_char_boundary(bytes, i),
    ensures
        0 <= i <= bytes.len(),
{
    if i > bytes.len() {
        assert(!is_char_boundary(bytes, i));
    }
}

proof fn lemma_boundary_in_prefix(bytes: Seq<u8>, end: int, i: int)
    requires
        valid_utf8(bytes),
        is_char_boundary(bytes, end),
        is_char_boundary(bytes, i),
        0 <= i <= end,
    ensures
        valid_utf8(bytes.subrange(0, end)),
        is_char_boundary(bytes.subrange(0, end), i),
{
    lemma_boundary_within(bytes, end);
    valid_utf8_split(bytes, end);
    let pre = bytes.subrange(0, end);
    if i == end {
        is_char_boundary_start_end_of_seq(pre);
    } else if i > 0 {
        is_char_boundary_iff_not_is_continuation_byte(bytes, i);
        is_char_boundary_iff_not_is_continuation_byte(pre, i);
        assert(pre[i] == bytes[i]);
    }
}

fn starts_with_chars(h: &Vec<char>, p: &Vec<char>) -> (r: bool)
    ensures
        r == has_prefix(h@, p@),
{
    if p.len() > h.len() {
        return false;
    }
    let mut i: usize = 0;
    while i < p.len()
        invariant
            p@.len() <= h@.len(),
            i <= p@.len(),
            forall|k: int| 0 <= k < i ==> h@[k] == p@[k],
        decreases p.len() - i,
    {
        if h[i] != p[i] {
            assert(h@.take(p@.len() as int)[i as int] != p@[i as int]);
            return false;
        }
        i = i + 1;
    }
    assert(h@.take(p@.len() as int) =~= p@);
    true
}

fn contains_chars(h: &Vec<char>, n: &Vec<char>) -> (r: bool)
    ensures
        r == contains_text(h@, n@),
{
    if n.len() == 0 {
        assert(h@.subrange(0int, 0int + n@.len()) =~= n@);
        return true;
    }
    if n.len() > h.len() {
        return false;
    }
    let hl = h.len();
    let count = hl - n.len() + 1;
    let mut i: usize = 0;
    while i < count
        invariant
            hl == h@.len(),
            1 <= n@.len() <= h@.len(),
            count == h@.len() - n@.len() + 1,
            i <= count,
            forall|k: int| 0 <= k < i ==> #[trigger] h@.subrange(k, k + n@.len()) != n@,
        decreases count - i,
    {
        let mut j: usize = 0;
        let mut same = true;
        assert(i + n@.len() <= h@.len());
        while j < n.len()
            invariant
                1 <= n@.len() <= h@.len(),
                hl == h@.len(),
                i + n@.len() <= h@.len(),
                j <= n@.len(),
                same == forall|k: int| 0 <= k < j ==> h@[i + k] == n@[k],
            decreases n.len() - j,
        {
            if h[i + j] != n[j] {
                same = false;
            }
            j = j + 1;
        }
        if same {
            assert(h@.subrange(i as int, i + n@.len()) =~= n@);
            return true;
        }
        assert(h@.subrange(i as int, i + n@.len()) != n@) by {
            let k = choose|k: int| 0 <= k < n@.len() && h@[i + k] != n@[k];
            assert(h@.subrange(i as int, i + n@.len())[k] == h@[i + k]);
        }
        i = i + 1;
    }
    false
}

/// Reads command `command` whose lower-cased text is `lower`. Defined where
/// the command can be cut at the offsets the reading uses.
pub fn read_lowered_command(command: &str, lower: &str) -> (r: VoiceCommand)
    requires
        voice_command_sliceable_with(command@, lower@),
    ensures
        voice_command_parsed_with(command@, lower@, r),
{
    let lc = chars_of(lower);
    let bytes = Ghost(encode_utf8(command@));
    proof {
        encode_utf8_valid_utf8(command@);
    }
    if starts_with_chars(&lc, &chars_of("create task ")) {
        let (_, rest) = command.split_at(12);
        proof {
            lemma_boundary_within(bytes@, 12);
            encode_utf8_decode_utf8(rest@);
        }
        let title = trim_text(rest).to_owned();
        return VoiceCommand::CreateTask { title };
    }
    if starts_with_chars(&lc, &chars_of("mark ")) && contains_chars(&lc, &chars_of(" as done")) {
        assert(is_mark_text(lower@) && !is_create_text(lower@));
        assert(lower.spec_bytes().len() == encode_utf8(lower@).len());
        let end = lower.as_bytes().len() - 8;
        let (left, _) = command.split_at(end);
        proof {
            lemma_boundary_in_prefix(bytes@, end as int, 5);
        }
        let (_, name) = left.split_at(5);
        proof {
            lemma_boundary_within(bytes@, end as int);
            assert(name.spec_bytes() =~= bytes@.subrange(5, end as int));
            encode_utf8_decode_utf8(name@);
        }
        let task_name = trim_text(name).to_owned();
        return VoiceCommand::MarkDone { task_name };
    }
    VoiceCommand::Unknown
}

/// Reads a spoken command. Defined where the command can be cut at the
/// offsets the reading uses (`voice_command_sliceable`). An ASCII command is
/// read with its ASCII lower-casing.
pub fn parse_voice_command(command: &str) -> (r: VoiceCommand)
    requires
        voice_command_sliceable(command@),
    ensures
        voice_command_parsed(command@, r),
        is_ascii_text(command@) ==> voice_command_parsed_with(command@, ascii_lowered(command@), r),
{
    let lower = to_lower(command);
    read_lowered_command(command, lower.as_str())
}

/// Whether command `command`, whose lower-cased text is `lower`, can be cut
/// at the offsets its reading uses.
pub fn lowered_command_is_sliceable(command: &str, lower: &str) -> (r: bool)
    ensures
        r == voice_command_sliceable_with(command@, lower@),
{
    let lc = chars_of(lower);
    if starts_with_chars(&lc, &chars_of("create task ")) {
        return command.is_char_boundary(12);
    }
    if starts_with_chars(&lc, &chars_of("mark ")) && contains_chars(&lc, &chars_of(" as done")) {
        assert(is_mark_text(lower@) && !is_create_text(lower@));
        assert(lower.spec_bytes().len() == encode_utf8(lower@).len());
        let len = lower.as_bytes().len();
        if len < 13 {
            return false;
        }
        return command.is_char_boundary(5) && command.is_char_boundary(len - 8);
    }
    true
}

/// Whether command `command` can be cut at the offsets its reading uses.
pub fn voice_command_is_sliceable(command: &str) -> (r: bool)
    ensures
        r == voice_command_sliceable(command@),
        is_ascii_text(command@) ==> r == voice_command_sliceable_with(command@, ascii_lowered(command@)),
{
    let lower = to_lower(command);
    lowered_command_is_sliceable(command, lower.as_str())
}

struct DoneIfLike<'a> {
    pattern: &'a Vec<char>,
    now: &'a String,
}

impl<'a> Edit<Task> for DoneIfLike<'a> {
    closed spec fn edited(&self, t: Task) -> Task {
        task_done_if_like(t, self.pattern@, *self.now)
    }

    fn apply(&self, t: &Task) -> (r: Task) {
        let mut r = t.duplicate();
        if like_exec(self.pattern, &chars_of(t.title.as_str())) {
            r.completed_at = Some(self.now.clone());
            r.updated_at = self.now.clone();
        }
        r
    }
}

fn any_title_like(tasks: &Vec<Task>, pattern: &Vec<char>) -> (r: bool)
    ensures
        r == some_title_like(tasks@, pattern@),
{
    let mut i: usize = 0;
    while i < tasks.len()
        invariant
            i <= tasks@.len(),
            forall|k: int| 0 <= k < i ==> !like(pattern@, #[trigger] tasks@[k].title@),
        decreases tasks.len() - i,
    {
        if like_exec(pattern, &chars_of(tasks[i].title.as_str())) {
            return true;
        }
        i = i + 1;
    }
    false
}

impl Store {
    /// Carries out a spoken command, with `id` and `now` for the task that a
    /// "create task" command records and `now` for the tasks that a "mark"
    /// command completes. A new task goes into the first project, in its
    /// column with the least position, at position 0. A "mark" command
    /// completes every task whose title contains the name, as a LIKE pattern.
    pub fn run_voice_command_at(&mut self, cmd: VoiceCommand, id: String, now: String) -> (r: Result<
        String,
        String,
    >)
        requires
            old(self)@.wf(),
        ensures
            final(self)@.wf(),
            voice_outcome(old(self)@, cmd, id, now, final(self)@, r),
    {
        match cmd {
            VoiceCommand::CreateTask { title } => {
                if self.projects.len() == 0 {
                    return Err("No projects found. Create a project first.".to_owned());
                }
                let project_id = self.projects[0].id.clone();
                let k = match find_first_least(&self.columns, Field::ProjectId, &project_id) {
                    Some(k) => k,
                    None => {
                        return Err("No columns found".to_owned());
                    },
                };
                let column_id = self.columns[k].id.clone();
                let mut message = "Created task: ".to_owned();
                message.append(title.as_str());
                let task = Task {
                    id: id.clone(),
                    project_id,
                    column_id,
                    title,
                    description: None,
                    priority: "medium".to_owned(),
                    due_date: None,
                    start_date: None,
                    completed_at: None,
                    estimated_hours_bits: 0,
                    actual_hours_bits: 0,
                    recurring: None,
                    recurring_interval: None,
                    position: 0,
                    created_by: None,
                    created_at: now.clone(),
                    updated_at: now,
                };
                proof {
                    assert(is_first_least(old(self)@.columns, Field::ProjectId, old(self)@.projects[0].id@, k as int));
                }
                match insert_row(&mut self.tasks, task, &id, "tasks") {
                    Ok(()) => {
                        assert(self@.tasks.drop_last() =~= old(self)@.tasks);
                        Ok(message)
                    },
                    Err(e) => Err(e),
                }
            },
            VoiceCommand::MarkDone { task_name } => {
                let mut pattern_text = "%".to_owned();
                pattern_text.append(task_name.as_str());
                pattern_text.append("%");
                let pattern = chars_of(pattern_text.as_str());
                proof {
                    reveal_strlit("%");
                    assert(pattern@ =~= containing_pattern(task_name@));
                }
                let found = any_title_like(&self.tasks, &pattern);
                let edit = DoneIfLike { pattern: &pattern, now: &now };
                let rows = edit_rows(&self.tasks, &edit);
                proof {
                    assert(rows@ =~= tasks_done_if_like(old(self)@.tasks, pattern@, now));
                    lemma_same_keys_keep_distinct(old(self)@.tasks, rows@, primary_key::<Task>());
                }
                self.tasks = rows;
                if found {
                    let mut message = "Marked '".to_owned();
                    message.append(task_name.as_str());
                    message.append("' as done");
                    Ok(message)
                } else {
                    let mut message = "Task '".to_owned();
                    message.append(task_name.as_str());
                    message.append("' not found");
                    Err(message)
                }
            },
            VoiceCommand::Unknown => Err(
                "Unknown command. Try 'create task [title]' or 'mark [task] as done'".to_owned(),
            ),
        }
    }

    /// Carries out spoken command `command`. The user is not consulted.
    /// Defined where the command can be cut at the offsets its reading uses.
    pub fn process_voice_command(&mut self, command: &str, user_id: &String) -> (r: Result<
        String,
        String,
    >)
        requires
            old(self)@.wf(),
            voice_command_sliceable(command@),
        ensures
            final(self)@.wf(),
            exists|cmd: VoiceCommand, id: String, now: String|
                #[trigger] voice_outcome(old(self)@, cmd, id, now, final(self)@, r)
                    && voice_command_parsed(command@, cmd) && is_uuid_v4_text(id@)
                    && is_clock_text(now@) && (is_ascii_text(command@) ==> voice_command_parsed_with(
                    command@,
                    ascii_lowered(command@),
                    cmd,
                )),
    {
        let cmd = parse_voice_command(command);
        let id = new_id();
        let now = now_rfc3339();
        let ghost (c, i, n) = (cmd, id, now);
        let r = self.run_voice_command_at(cmd, id, now);
        assert(voice_outcome(old(self)@, c, i, n, self@, r));
        r
    }

    /// Carries out spoken command `command` where it can be cut at the
    /// offsets its reading uses, and gives `None`, changing nothing, where it
    /// cannot.
    pub fn try_process_voice_command(&mut self, command: &str, user_id: &String) -> (r: Option<
        Result<String, String>,
    >)
        requires
            old(self)@.wf(),
        ensures
            final(self)@.wf(),
            r is None <==> !voice_command_sliceable(command@),
            is_ascii_text(command@) ==> (r is None <==> !voice_command_sliceable_with(
                command@,
                ascii_lowered(command@),
            )),
            r is None ==> final(self)@ == old(self)@,
            r matches Some(res) ==> exists|cmd: VoiceCommand, id: String, now: String|
                #[trigger] voice_outcome(old(self)@, cmd, id, now, final(self)@, res)
                    && voice_command_parsed(command@, cmd) && is_uuid_v4_text(id@)
                    && is_clock_text(now@) && (is_ascii_text(command@) ==> voice_command_parsed_with(
                    command@,
                    ascii_lowered(command@),
                    cmd,
                )),
    {
        if voice_command_is_sliceable(command) {
            Some(self.process_voice_command(command, user_id))
        } else {
            None
        }
    }
}

proof fn lemma_encode_concat(a: Seq<char>, b: Seq<char>)
    ensures
        encode_utf8(a + b) == encode_utf8(a) + encode_utf8(b),
    decreases a.len(),
{
    if a.len() > 0 {
        lemma_encode_concat(a.drop_first(), b);
        assert((a + b).drop_first() =~= a.drop_first() + b);
        assert((a + b)[0] == a[0]);
        assert(encode_utf8(a + b) =~= encode_utf8(a) + encode_utf8(b));
    } else {
        assert(a + b =~= b);
        assert(encode_utf8(a) =~= Seq::<u8>::empty());
        assert(encode_utf8(a) + encode_utf8(b) =~= encode_utf8(b));
    }
}

proof fn lemma_encode_ascii(t: Seq<char>)
    requires
        is_ascii_text(t),
    ensures
        encode_utf8(t).len() == t.len(),
        forall|i: int| 0 <= i < t.len() ==> #[trigger] encode_utf8(t)[i] < 128,
    decreases t.len(),
{
    if t.len() > 0 {
        let t1 = t.drop_first();
        assert forall|i: int| 0 <= i < t1.len() implies (#[trigger] t1[i] as u32) < 128 by {
            assert(t1[i] == t[i + 1]);
        }
        lemma_encode_ascii(t1);
        let v = t[0] as u32;
        assert(v < 128);
        assert(((v & 0x7F) as u8) < 128) by (bit_vector);
        let e = encode_utf8(t);
        assert(e =~= seq![(v & 0x7F) as u8] + encode_utf8(t1));
        assert forall|i: int| 0 <= i < t.len() implies #[trigger] e[i] < 128 by {
            if i > 0 {
                assert(e[i] == encode_utf8(t1)[i - 1]);
            }
        }
    }
}

/// A command made of an ASCII keyword that lower-cases to "create task "
/// followed by ASCII text `s` can be cut, and reads as creating the task
/// titled `s` without its surrounding white space, its case kept.
pub proof fn law_create_keyword_in_any_case(k: Seq<char>, s: Seq<char>)
    requires
        is_ascii_text(k),
        is_ascii_text(s),
        ascii_lowered(k) == "create task "@,
    ensures
        is_ascii_text(k + s),
        voice_command_sliceable_with(k + s, ascii_lowered(k + s)),
        forall|r: VoiceCommand|
            #[trigger] voice_command_parsed_with(k + s, ascii_lowered(k + s), r) <==> (r matches VoiceCommand::CreateTask {
                title,
            } && title@ == trimmed(s)),
{
    reveal_strlit("create task ");
    let c = k + s;
    assert forall|i: int| 0 <= i < c.len() implies (#[trigger] c[i] as u32) < 128 by {
        if i < k.len() {
            assert(c[i] == k[i]);
        } else {
            assert(c[i] == s[i - k.len()]);
        }
    }
    assert("create task "@.len() == 12);
    assert(ascii_lowered(k).len() == k.len());
    assert(k.len() == 12);
    let lower = ascii_lowered(c);
    assert(lower.take(12) =~= "create task "@) by {
        assert forall|i: int| 0 <= i < 12 implies lower.take(12)[i] == "create task "@[i] by {
            assert(c[i] == k[i]);
            assert(ascii_lowered(k)[i] == ascii_lower_char(k[i]));
        }
    }
    assert(is_create_text(lower));
    let bytes = encode_utf8(c);
    lemma_encode_concat(k, s);
    lemma_encode_ascii(k);
    lemma_encode_ascii(s);
    encode_utf8_valid_utf8(c);
    if bytes.len() == 12 {
        is_char_boundary_start_end_of_seq(bytes);
    } else {
        is_char_boundary_iff_not_is_continuation_byte(bytes, 12);
        assert(bytes[12] == encode_utf8(s)[0]);
    }
    assert(bytes.subrange(12, bytes.len() as int) =~= encode_utf8(s));
    encode_utf8_decode_utf8(s);
    assert(byte_slice(c, 12, bytes.len() as int) == s);
}

/// The "create task" keyword is read whatever its ASCII case: two commands
/// that differ only in the case of the keyword, followed by the same ASCII
/// text, read as the same command.
pub proof fn law_voice_keyword_any_case(k1: Seq<char>, k2: Seq<char>, s: Seq<char>, r: VoiceCommand)
    requires
        is_ascii_text(k1),
        is_ascii_text(k2),
        is_ascii_text(s),
        ascii_lowered(k1) == "create task "@,
        ascii_lowered(k2) == "create task "@,
    ensures
        voice_command_sliceable_with(k1 + s, ascii_lowered(k1 + s)) == voice_command_sliceable_with(
            k2 + s,
            ascii_lowered(k2 + s),
        ),
        voice_command_parsed_with(k1 + s, ascii_lowered(k1 + s), r) <==> voice_command_parsed_with(
            k2 + s,
            ascii_lowered(k2 + s),
            r,
        ),
{
    law_create_keyword_in_any_case(k1, s);
    law_create_keyword_in_any_case(k2, s);
}

/// Replies `a` and `b` are the same: both succeed or both fail, with the
/// same text.
pub open spec fn same_reply(a: Result<String, String>, b: Result<String, String>) -> bool {
    match (a, b) {
        (Ok(x), Ok(y)) => x@ == y@,
        (Err(x), Err(y)) => x@ == y@,
        _ => false,
    }
}

/// Tasks `a` and `b` are the same, their titles and priorities compared by
/// their text.
pub open spec fn same_task(a: Task, b: Task) -> bool {
    &&& a == (Task { title: a.title, priority: a.priority, ..b })
    &&& a.title@ == b.title@
    &&& a.priority@ == b.priority@
}

/// Stores `a` and `b` are the same, task titles and priorities compared by
/// their text.
pub open spec fn same_store(a: StoreView, b: StoreView) -> bool {
    &&& a == (StoreView { tasks: a.tasks, ..b })
    &&& a.tasks.len() == b.tasks.len()
    &&& forall|i: int| 0 <= i < a.tasks.len() ==> same_task(#[trigger] a.tasks[i], b.tasks[i])
}

/// Two commands that differ only in the ASCII case of the "create task"
/// keyword, followed by the same ASCII text, run on the same store with the
/// same identifier and time, give the same reply and the same store.
pub proof fn law_voice_outcome_keyword_any_case(
    before: StoreView,
    k1: Seq<char>,
    k2: Seq<char>,
    s: Seq<char>,
    cmd1: VoiceCommand,
    cmd2: VoiceCommand,
    id: String,
    now: String,
    after1: StoreView,
    r1: Result<String, String>,
    after2: StoreView,
    r2: Result<String, String>,
)
    requires
        is_ascii_text(k1),
        is_ascii_text(k2),
        is_ascii_text(s),
        ascii_lowered(k1) == "create task "@,
        ascii_lowered(k2) == "create task "@,
        voice_command_parsed_with(k1 + s, ascii_lowered(k1 + s), cmd1),
        voice_command_parsed_with(k2 + s, ascii_lowered(k2 + s), cmd2),
        voice_outcome(before, cmd1, id, now, after1, r1),
        voice_outcome(before, cmd2, id, now, after2, r2),
    ensures
        same_reply(r1, r2),
        same_store(after1, after2),
{
    law_create_keyword_in_any_case(k1, s);
    law_create_keyword_in_any_case(k2, s);
    let t1 = cmd1->CreateTask_title;
    let t2 = cmd2->CreateTask_title;
    assert(t1@ == t2@);
    let pid = before.projects[0].id@;
    match (r1, r2) {
        (Ok(m1), Ok(m2)) => {
            let a = choose|k: int|
                #[trigger] is_first_least(before.columns, Field::ProjectId, pid, k) && is_voice_task(
                    after1.tasks.last(),
                    id,
                    now,
                    before.projects[0].id,
                    before.columns[k].id,
                    t1,
                );
            let b = choose|k: int|
                #[trigger] is_first_least(before.columns, Field::ProjectId, pid, k) && is_voice_task(
                    after2.tasks.last(),
                    id,
                    now,
                    before.projects[0].id,
                    before.columns[k].id,
                    t2,
                );
            lemma_first_least_unique(before.columns, Field::ProjectId, pid, a, b);
            assert forall|i: int| 0 <= i < after1.tasks.len() implies same_task(
                #[trigger] after1.tasks[i],
                after2.tasks[i],
            ) by {
                if i < before.tasks.len() {
                    assert(after1.tasks[i] == after1.tasks.drop_last()[i]);
                    assert(after2.tasks[i] == after2.tasks.drop_last()[i]);
                } else {
                    assert(after1.tasks[i] == after1.tasks.last());
                    assert(after2.tasks[i] == after2.tasks.last());
                }
            }
        },
        (Ok(m1), Err(e2)) => {
            let a = choose|k: int|
                #[trigger] is_first_least(before.columns, Field::ProjectId, pid, k) && is_voice_task(
                    after1.tasks.last(),
                    id,
                    now,
                    before.projects[0].id,
                    before.columns[k].id,
                    t1,
                );
            assert(!no_match(before.columns, Field::ProjectId, pid)) by {
                assert(before.columns[a].field_spec(Field::ProjectId) == Some(pid));
            }
        },
        (Err(e1), Ok(m2)) => {
            let b = choose|k: int|
                #[trigger] is_first_least(before.columns, Field::ProjectId, pid, k) && is_voice_task(
                    after2.tasks.last(),
                    id,
                    now,
                    before.projects[0].id,
                    before.columns[k].id,
                    t2,
                );
            assert(!no_match(before.columns, Field::ProjectId, pid)) by {
                assert(before.columns[b].field_spec(Field::ProjectId) == Some(pid));
            }
        },
        (Err(e1), Err(e2)) => {},
    }
}

} // verus!
