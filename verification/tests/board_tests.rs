use teamflow::model::{Column, Task};
use teamflow::store::Store;

fn s(x: &str) -> String {
    x.to_string()
}

fn store_with_project() -> (Store, String) {
    let mut st = Store::new();
    st.insert_team(s("t1"), s("2024-01-01T00:00:00+00:00"), s("Core"), s("#fff")).unwrap();
    let ids = vec![s("c0"), s("c1"), s("c2"), s("c3")];
    st.insert_project(
        s("p1"),
        ids,
        s("2024-01-01T00:00:00+00:00"),
        s("t1"),
        s("Board"),
        s("desc"),
        s("#533483"),
    )
    .unwrap();
    (st, s("p1"))
}

#[test]
fn new_project_gets_four_default_columns() {
    let (st, pid) = store_with_project();
    let cols = st.get_columns(&pid);
    let names: Vec<&str> = cols.iter().map(|c| c.name.as_str()).collect();
    assert_eq!(names, vec!["To Do", "In Progress", "In Review", "Done"]);
    let positions: Vec<i32> = cols.iter().map(|c| c.position).collect();
    assert_eq!(positions, vec![0, 1, 2, 3]);
    let colors: Vec<Option<String>> = cols.iter().map(|c| c.color.clone()).collect();
    assert_eq!(
        colors,
        vec![Some(s("#95a5a6")), Some(s("#3498db")), Some(s("#9b59b6")), Some(s("#27ae60"))]
    );
    let p = &st.projects[0];
    assert_eq!(p.status, "active");
    assert_eq!(p.description, Some(s("desc")));
}

#[test]
fn project_with_taken_key_changes_nothing() {
    let (mut st, _) = store_with_project();
    let before = st.projects.len();
    let r = st.insert_project(
        s("p1"),
        vec![s("x0"), s("x1"), s("x2"), s("x3")],
        s("now"),
        s("t1"),
        s("Other"),
        s(""),
        s("#000"),
    );
    assert_eq!(r, Err(s("UNIQUE constraint failed: projects.id")));
    assert_eq!(st.projects.len(), before);
    assert_eq!(st.columns.len(), 4);
}

#[test]
fn column_key_clash_keeps_project_and_earlier_columns() {
    let (mut st, _) = store_with_project();
    let r = st.insert_project(
        s("p2"),
        vec![s("n0"), s("c1"), s("n2"), s("n3")],
        s("now"),
        s("t1"),
        s("Second"),
        s(""),
        s("#000"),
    );
    assert_eq!(r, Err(s("UNIQUE constraint failed: columns.id")));
    assert_eq!(st.projects.len(), 2);
    assert_eq!(st.columns.len(), 5);
    assert_eq!(st.columns[4].id, "n0");
}

#[test]
fn projects_are_listed_by_name_within_their_team() {
    let mut st = Store::new();
    for (id, team, name) in [("a", "t1", "beta"), ("b", "t2", "alpha"), ("c", "t1", "Alpha"), ("d", "t1", "alpha")] {
        let ids = vec![format!("{id}0"), format!("{id}1"), format!("{id}2"), format!("{id}3")];
        st.insert_project(s(id), ids, s("now"), s(team), s(name), s(""), s("#000")).unwrap();
    }
    let names: Vec<String> = st.get_projects(&s("t1")).into_iter().map(|p| p.name).collect();
    assert_eq!(names, vec![s("Alpha"), s("alpha"), s("beta")]);
}

#[test]
fn columns_are_appended_after_the_greatest_position() {
    let (mut st, pid) = store_with_project();
    st.update_column(&s("c2"), s("Review"), s("#111"), 10);
    let c = st.insert_column(s("c4"), pid.clone(), s("Later"), s("#222")).unwrap();
    assert_eq!(c.position, 11);
    assert_eq!(c.color, Some(s("#222")));
    let other = st.insert_column(s("c5"), s("p-empty"), s("First"), s("#333")).unwrap();
    assert_eq!(other.position, 0);
    assert_eq!(st.next_column_position(&pid), Some(12));
    st.update_column(&s("c4"), s("Later"), s("#222"), i32::MAX);
    assert_eq!(st.next_column_position(&pid), None);
}

#[test]
fn update_project_changes_only_that_project() {
    let (mut st, pid) = store_with_project();
    st.update_project_at(s("later"), &pid, s("Renamed"), s("new desc"), s("#123"));
    let p = &st.projects[0];
    assert_eq!(p.name, "Renamed");
    assert_eq!(p.description, Some(s("new desc")));
    assert_eq!(p.color, "#123");
    assert_eq!(p.updated_at, "later");
    assert_eq!(p.created_at, "2024-01-01T00:00:00+00:00");
}

fn add_task(st: &mut Store, id: &str, column: &str) -> Task {
    st.insert_task(
        s(id),
        s("2024-01-01T00:00:00+00:00"),
        s("p1"),
        s(column),
        s(id),
        s("d"),
        s("medium"),
        None,
    )
    .unwrap()
}

#[test]
fn delete_column_moves_tasks_to_the_first_column() {
    let (mut st, _) = store_with_project();
    add_task(&mut st, "k1", "c2");
    add_task(&mut st, "k2", "c2");
    st.delete_column(&s("c2"));
    assert!(st.columns.iter().all(|c: &Column| c.id != "c2"));
    assert!(st.tasks.iter().all(|t| t.column_id == "c0"));
}

#[test]
fn delete_first_column_leaves_its_tasks_pointing_at_it() {
    let (mut st, _) = store_with_project();
    add_task(&mut st, "k1", "c0");
    st.delete_column(&s("c0"));
    assert_eq!(st.columns.len(), 3);
    assert_eq!(st.tasks[0].column_id, "c0");
}

#[test]
fn delete_missing_column_deletes_tasks_that_name_it() {
    let (mut st, _) = store_with_project();
    add_task(&mut st, "k1", "ghost");
    add_task(&mut st, "k2", "c1");
    st.delete_column(&s("ghost"));
    assert_eq!(st.tasks.len(), 1);
    assert_eq!(st.tasks[0].id, "k2");
}

#[test]
fn delete_project_removes_its_board() {
    let (mut st, pid) = store_with_project();
    add_task(&mut st, "k1", "c0");
    st.delete_project(&pid);
    assert!(st.projects.is_empty());
    assert!(st.columns.is_empty());
    assert!(st.tasks.is_empty());
    assert_eq!(st.teams.len(), 1);
}

#[test]
fn created_project_has_uuid_keys() {
    let mut st = Store::new();
    let p = st.create_project(s("t1"), s("P"), s("D"), s("#000")).unwrap();
    assert_eq!(p.id.len(), 36);
    assert_eq!(&p.id[14..15], "4");
    assert_eq!(st.columns.len(), 4);
    assert!(st.columns.iter().all(|c| c.id.len() == 36 && c.project_id == p.id));
    assert_eq!(p.created_at, p.updated_at);
}
