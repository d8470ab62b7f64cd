use teamflow::store::Store;

fn s(x: &str) -> String {
    x.to_string()
}

const T0: &str = "2024-01-01T00:00:00+00:00";

fn board() -> Store {
    let mut st = Store::new();
    st.insert_project(s("p1"), vec![s("c0"), s("c1"), s("c2"), s("c3")], s(T0), s("t1"), s("B"), s(""), s("#0")).unwrap();
    st
}

fn task(st: &mut Store, id: &str, column: &str) {
    st.insert_task(s(id), s(T0), s("p1"), s(column), s(id), s("d"), s("high"), Some(s("2024-02-01"))).unwrap();
}

#[test]
fn tasks_get_increasing_positions_per_column() {
    let mut st = board();
    task(&mut st, "a", "c0");
    task(&mut st, "b", "c0");
    task(&mut st, "x", "c1");
    let pos: Vec<(String, i32)> = st.tasks.iter().map(|t| (t.id.clone(), t.position)).collect();
    assert_eq!(pos, vec![(s("a"), 0), (s("b"), 1), (s("x"), 0)]);
    let t = &st.tasks[0];
    assert_eq!(t.description, Some(s("d")));
    assert_eq!(t.estimated_hours_bits, 0);
    assert_eq!(t.completed_at, None);
    assert_eq!(t.due_date, Some(s("2024-02-01")));
}

#[test]
fn tasks_are_listed_by_position() {
    let mut st = board();
    task(&mut st, "a", "c0");
    task(&mut st, "b", "c0");
    st.move_task_at(s("t2"), &s("a"), s("c0"), 5);
    let ids: Vec<String> = st.get_tasks(&s("p1")).into_iter().map(|t| t.id).collect();
    assert_eq!(ids, vec![s("b"), s("a")]);
    assert_eq!(st.tasks[0].updated_at, "t2");
}

#[test]
fn duplicate_task_key_is_refused() {
    let mut st = board();
    task(&mut st, "a", "c0");
    let r = st.insert_task(s("a"), s(T0), s("p1"), s("c0"), s("again"), s(""), s("low"), None);
    assert_eq!(r, Err(s("UNIQUE constraint failed: tasks.id")));
    assert_eq!(st.tasks.len(), 1);
}

#[test]
fn update_and_complete_task() {
    let mut st = board();
    task(&mut st, "a", "c0");
    let hours = 2.5f64.to_bits();
    st.update_task_at(s("t3"), &s("a"), s("New"), s("nd"), s("low"), None, Some(s("2024-01-05")), hours, Some(s("weekly")), Some(2));
    st.complete_task_at(s("t4"), &s("a"));
    let t = &st.tasks[0];
    assert_eq!(t.title, "New");
    assert_eq!(f64::from_bits(t.estimated_hours_bits), 2.5);
    assert_eq!(t.recurring, Some(s("weekly")));
    assert_eq!(t.recurring_interval, Some(2));
    assert_eq!(t.completed_at, Some(s("t4")));
    assert_eq!(t.updated_at, "t4");
}

#[test]
fn get_task_collects_details() {
    let mut st = board();
    task(&mut st, "a", "c0");
    st.insert_user(s("u1"), s(T0), s("t1"), s("Ann"), s("ann@x")).unwrap();
    st.insert_user(s("u2"), s(T0), s("t1"), s("Bob"), s("bob@x")).unwrap();
    st.assign_user(s("a"), s("u2"));
    st.assign_user(s("a"), s("u2"));
    st.insert_subtask(s("s1"), s("a"), s("one")).unwrap();
    st.insert_subtask(s("s2"), s("a"), s("two")).unwrap();
    st.insert_milestone(s("m1"), s("a"), s("alpha"), None).unwrap();
    st.insert_tag(s("g1"), s("bug"), s("#f00")).unwrap();
    st.add_tag(s("a"), s("g1"));
    let d = st.get_task(&s("a")).unwrap();
    assert_eq!(d.task.id, "a");
    assert_eq!(d.assignees.len(), 1);
    assert_eq!(d.assignees[0].name, "Bob");
    assert_eq!(d.subtasks.iter().map(|x| x.position).collect::<Vec<_>>(), vec![0, 1]);
    assert_eq!(d.milestones.len(), 1);
    assert_eq!(d.tags[0].name, "bug");
    assert_eq!(st.task_assignees.len(), 1);
}

#[test]
fn get_missing_task_fails() {
    let st = board();
    assert_eq!(st.get_task(&s("nope")), Err(s("Query returned no rows")));
}

#[test]
fn delete_task_removes_everything_attached() {
    let mut st = board();
    task(&mut st, "a", "c0");
    task(&mut st, "b", "c0");
    st.assign_user(s("a"), s("u1"));
    st.insert_subtask(s("s1"), s("a"), s("one")).unwrap();
    st.insert_subtask(s("s2"), s("b"), s("two")).unwrap();
    st.insert_comment(s("k1"), s(T0), s("a"), s("u1"), s("hi")).unwrap();
    st.start_timer_at(s("e1"), s(T0), s("a"), s("u1")).unwrap();
    st.delete_task(&s("a"));
    assert_eq!(st.tasks.len(), 1);
    assert!(st.task_assignees.is_empty());
    assert_eq!(st.subtasks.len(), 1);
    assert_eq!(st.subtasks[0].task_id, "b");
    assert!(st.comments.is_empty());
    assert!(st.time_entries.is_empty());
}

#[test]
fn toggling_a_subtask_twice_restores_it() {
    let mut st = board();
    st.insert_subtask(s("s1"), s("a"), s("one")).unwrap();
    assert_eq!(st.toggle_subtask(&s("s1")), Ok(true));
    assert!(st.subtasks[0].completed);
    assert_eq!(st.toggle_subtask(&s("s1")), Ok(false));
    assert!(!st.subtasks[0].completed);
    assert_eq!(st.toggle_subtask(&s("zz")), Err(s("Query returned no rows")));
}

#[test]
fn milestones_toggle_and_delete() {
    let mut st = board();
    st.insert_milestone(s("m1"), s("a"), s("one"), Some(s("2024-03-01"))).unwrap();
    st.insert_milestone(s("m2"), s("a"), s("two"), None).unwrap();
    assert_eq!(st.toggle_milestone(&s("m2")), Ok(true));
    assert_eq!(st.milestones[1].position, 1);
    st.delete_milestone(&s("m1"));
    let left = st.get_milestones(&s("a"));
    assert_eq!(left.len(), 1);
    assert!(left[0].completed);
    assert_eq!(st.toggle_milestone(&s("m1")), Err(s("Query returned no rows")));
}

#[test]
fn unassign_and_untag() {
    let mut st = board();
    st.assign_user(s("a"), s("u1"));
    st.assign_user(s("a"), s("u2"));
    st.unassign_user(&s("a"), &s("u1"));
    assert_eq!(st.task_assignees.len(), 1);
    assert_eq!(st.task_assignees[0].user_id, "u2");
    st.add_tag(s("a"), s("g1"));
    st.add_tag(s("a"), s("g1"));
    assert_eq!(st.task_tags.len(), 1);
    st.remove_tag(&s("a"), &s("g1"));
    assert!(st.task_tags.is_empty());
}

#[test]
fn subtask_delete_and_listing() {
    let mut st = board();
    st.insert_subtask(s("s1"), s("a"), s("one")).unwrap();
    st.insert_subtask(s("s2"), s("a"), s("two")).unwrap();
    st.insert_subtask(s("s3"), s("b"), s("other")).unwrap();
    st.delete_subtask(&s("s1"));
    let l = st.get_subtasks(&s("a"));
    assert_eq!(l.len(), 1);
    assert_eq!(l[0].id, "s2");
    assert_eq!(l[0].position, 1);
    let n = st.insert_subtask(s("s4"), s("a"), s("three")).unwrap();
    assert_eq!(n.position, 2);
    assert_eq!(st.next_subtask_position(&s("b")), Some(1));
    assert_eq!(st.next_milestone_position(&s("b")), Some(0));
    assert_eq!(st.next_task_position(&s("c9")), Some(0));
}

#[test]
fn created_task_reads_back() {
    let mut st = board();
    task(&mut st, "z", "c0");
    let t = st.insert_task(s("a"), s(T0), s("p1"), s("c1"), s("Ship"), s("d"), s("low"), None).unwrap();
    let d = st.get_task(&s("a")).unwrap();
    assert_eq!(d.task, t);
    assert_eq!(d.task.position, 0);
    assert!(d.assignees.is_empty() && d.subtasks.is_empty() && d.milestones.is_empty() && d.tags.is_empty());
}
