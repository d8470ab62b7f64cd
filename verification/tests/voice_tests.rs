use teamflow::like::{chars_of, like_exec};
use teamflow::store::Store;
use teamflow::text::trim_text;
use teamflow::voice::{
    lowered_command_is_sliceable, parse_voice_command, read_lowered_command, voice_command_is_sliceable,
    VoiceCommand,
};

fn s(x: &str) -> String {
    x.to_string()
}

fn board() -> Store {
    let mut st = Store::new();
    st.insert_project(s("p1"), vec![s("c0"), s("c1"), s("c2"), s("c3")], s("t0"), s("t1"), s("B"), s(""), s("#0")).unwrap();
    st
}

fn matches(p: &str, t: &str) -> bool {
    like_exec(&chars_of(p), &chars_of(t))
}

#[test]
fn like_patterns() {
    assert!(matches("%fix%", "Fix bug"));
    assert!(matches("%BUG", "fix bug"));
    assert!(matches("f_x%", "fax it"));
    assert!(!matches("f_x", "fx"));
    assert!(!matches("%é%", "É"));
    assert!(matches("%%", ""));
    assert!(!matches("", "a"));
}

#[test]
fn parse_create_and_mark_commands() {
    assert_eq!(parse_voice_command("Create task  Fix bug "), VoiceCommand::CreateTask { title: s("Fix bug") });
    assert_eq!(parse_voice_command("MARK write docs AS DONE"), VoiceCommand::MarkDone { task_name: s("write docs") });
    assert_eq!(parse_voice_command("mark x as done now"), VoiceCommand::MarkDone { task_name: s("x as") });
    assert_eq!(parse_voice_command("show my tasks"), VoiceCommand::Unknown);
}

#[test]
fn titles_lose_unicode_white_space_at_both_ends() {
    assert_eq!(
        parse_voice_command("create task \u{a0}\u{3000}Fix\u{2003}bug\t\u{2029}"),
        VoiceCommand::CreateTask { title: s("Fix\u{2003}bug") }
    );
    assert_eq!(parse_voice_command("create task "), VoiceCommand::CreateTask { title: s("") });
    assert_eq!(parse_voice_command("mark \u{85}x\u{85} as done"), VoiceCommand::MarkDone { task_name: s("x") });
}

#[test]
fn commands_that_cannot_be_cut() {
    assert!(!voice_command_is_sliceable("mark as done"));
    assert!(!voice_command_is_sliceable("create tas\u{212A} x"));
    assert!(voice_command_is_sliceable("mark a as done"));
    assert!(voice_command_is_sliceable("hello"));
    let mut st = board();
    assert_eq!(st.try_process_voice_command("mark as done", &s("u1")), None);
}

#[test]
fn voice_creates_task_in_first_column_of_first_project() {
    let mut st = board();
    let r = st.run_voice_command_at(VoiceCommand::CreateTask { title: s("Fix bug") }, s("v1"), s("now"));
    assert_eq!(r, Ok(s("Created task: Fix bug")));
    let t = &st.tasks[0];
    assert_eq!(t.column_id, "c0");
    assert_eq!(t.project_id, "p1");
    assert_eq!(t.position, 0);
    assert_eq!(t.priority, "medium");
    assert_eq!(t.description, None);
}

#[test]
fn voice_create_without_project_or_column() {
    let mut st = Store::new();
    let r = st.run_voice_command_at(VoiceCommand::CreateTask { title: s("x") }, s("v1"), s("now"));
    assert_eq!(r, Err(s("No projects found. Create a project first.")));
    st.insert_project(s("p1"), vec![s("c0"), s("c1"), s("c2"), s("c3")], s("t0"), s("t1"), s("B"), s(""), s("#0")).unwrap();
    st.delete_column(&s("c0"));
    st.delete_column(&s("c1"));
    st.delete_column(&s("c2"));
    st.delete_column(&s("c3"));
    let r = st.run_voice_command_at(VoiceCommand::CreateTask { title: s("x") }, s("v1"), s("now"));
    assert_eq!(r, Err(s("No columns found")));
}

#[test]
fn voice_marks_matching_tasks_done() {
    let mut st = board();
    st.insert_task(s("a"), s("t0"), s("p1"), s("c0"), s("Fix login bug"), s(""), s("low"), None).unwrap();
    st.insert_task(s("b"), s("t0"), s("p1"), s("c0"), s("Write docs"), s(""), s("low"), None).unwrap();
    let r = st.run_voice_command_at(VoiceCommand::MarkDone { task_name: s("LOGIN") }, s("unused"), s("later"));
    assert_eq!(r, Ok(s("Marked 'LOGIN' as done")));
    assert_eq!(st.tasks[0].completed_at, Some(s("later")));
    assert_eq!(st.tasks[1].completed_at, None);
    let r = st.run_voice_command_at(VoiceCommand::MarkDone { task_name: s("deploy") }, s("unused"), s("later"));
    assert_eq!(r, Err(s("Task 'deploy' not found")));
}

#[test]
fn voice_unknown_command_and_full_path() {
    let mut st = board();
    let r = st.process_voice_command("open project B", &s("u1"));
    assert_eq!(r, Err(s("Unknown command. Try 'create task [title]' or 'mark [task] as done'")));
    let r = st.try_process_voice_command("create task Plan sprint", &s("u1"));
    assert_eq!(r, Some(Ok(s("Created task: Plan sprint"))));
    assert_eq!(st.tasks.len(), 1);
    assert_eq!(st.tasks[0].id.len(), 36);
}

#[test]
fn names_with_wildcards_still_match_texts_containing_them() {
    assert!(matches("%50%%", "cut 50% off"));
    assert!(matches("%a_b%", "xa_by"));
    let mut st = board();
    st.insert_task(s("a"), s("t0"), s("p1"), s("c0"), s("Raise to 100%"), s(""), s("low"), None).unwrap();
    let r = st.run_voice_command_at(VoiceCommand::MarkDone { task_name: s("100%") }, s("unused"), s("later"));
    assert_eq!(r, Ok(s("Marked '100%' as done")));
}

#[test]
fn keyword_case_does_not_matter_but_title_case_stays() {
    let a = parse_voice_command("CREATE Task Fix Bug ");
    let b = parse_voice_command("create TASK Fix Bug ");
    assert_eq!(a, VoiceCommand::CreateTask { title: s("Fix Bug") });
    assert_eq!(a, b);
}

#[test]
fn lowered_reading_needs_the_keyword_at_the_start() {
    assert_eq!(read_lowered_command("Please create task Fix bug", "please create task fix bug"), VoiceCommand::Unknown);
    assert_eq!(
        read_lowered_command("Create Task Fix bug", "create task fix bug"),
        VoiceCommand::CreateTask { title: s("Fix bug") }
    );
    assert!(!lowered_command_is_sliceable("MARK AS DONE", "mark as done"));
    assert!(lowered_command_is_sliceable("Mark x as done", "mark x as done"));
}

#[test]
fn matching_a_containing_pattern_needs_the_name_in_the_text() {
    assert!(!matches("%a_c%", "abd"));
    assert!(matches("%A_C%", "xabcx"));
    assert!(!matches("%login%", "log in"));
}

#[test]
fn trim_removes_unicode_white_space_at_both_ends_only() {
    assert_eq!(trim_text(" \t\u{3000}a b\u{a0}\n"), "a b");
    assert_eq!(trim_text("\u{2003}"), "");
    assert_eq!(trim_text("x\u{200b}"), "x\u{200b}");
}

#[test]
fn keyword_case_gives_the_same_reply_and_store() {
    let mut a = board();
    let mut b = board();
    let ca = parse_voice_command("create task Ship It ");
    let cb = parse_voice_command("CrEaTe TASK Ship It ");
    let ra = a.run_voice_command_at(ca, s("v1"), s("2024-01-01T00:00:00+00:00"));
    let rb = b.run_voice_command_at(cb, s("v1"), s("2024-01-01T00:00:00+00:00"));
    assert_eq!(ra, rb);
    assert_eq!(a.tasks, b.tasks);
    assert_eq!(a.tasks[0].title, "Ship It");
}
