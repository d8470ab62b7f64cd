use teamflow::store::Store;

fn s(x: &str) -> String {
    x.to_string()
}

#[test]
fn teams_are_listed_by_code_point_order() {
    let mut st = Store::new();
    st.insert_team(s("1"), s("n"), s("beta"), s("#1")).unwrap();
    st.insert_team(s("2"), s("n"), s("alpha"), s("#2")).unwrap();
    st.insert_team(s("3"), s("n"), s("Alpha"), s("#3")).unwrap();
    st.insert_team(s("4"), s("n"), s("Émile"), s("#4")).unwrap();
    let names: Vec<String> = st.get_teams().into_iter().map(|t| t.name).collect();
    assert_eq!(names, vec![s("Alpha"), s("alpha"), s("beta"), s("Émile")]);
}

#[test]
fn duplicate_team_key_is_refused() {
    let mut st = Store::new();
    st.insert_team(s("1"), s("n"), s("a"), s("#1")).unwrap();
    assert_eq!(
        st.insert_team(s("1"), s("n"), s("b"), s("#2")),
        Err(s("UNIQUE constraint failed: teams.id"))
    );
    assert_eq!(st.teams.len(), 1);
}

#[test]
fn created_team_has_a_v4_uuid_and_one_timestamp() {
    let mut st = Store::new();
    let t = st.create_team(s("Core"), s("#e94560")).unwrap();
    let b: Vec<char> = t.id.chars().collect();
    assert_eq!(b.len(), 36);
    for i in [8, 13, 18, 23] {
        assert_eq!(b[i], '-');
    }
    assert_eq!(b[14], '4');
    assert!(matches!(b[19], '8' | '9' | 'a' | 'b'));
    assert_eq!(t.created_at, t.updated_at);
    assert_eq!(st.get_teams().len(), 1);
    let t2 = st.create_team(s("Other"), s("#000")).unwrap();
    assert_ne!(t.id, t2.id);
}

#[test]
fn users_are_members_of_their_team() {
    let mut st = Store::new();
    let u = st.insert_user(s("u1"), s("now"), s("t1"), s("Ann"), s("ann@x")).unwrap();
    assert_eq!(u.role, "member");
    assert_eq!(u.email, Some(s("ann@x")));
    assert_eq!(u.avatar, None);
    st.insert_user(s("u2"), s("now"), s("t2"), s("Bob"), s("bob@x")).unwrap();
    st.insert_user(s("u3"), s("now"), s("t1"), s("Cid"), s("cid@x")).unwrap();
    let ids: Vec<String> = st.get_users(&s("t1")).into_iter().map(|u| u.id).collect();
    assert_eq!(ids, vec![s("u1"), s("u3")]);
    let created = st.create_user(s("t1"), s("Dee"), s("dee@x")).unwrap();
    assert_eq!(created.id.len(), 36);
    assert_eq!(st.user_name_of(&s("u2")), Some(s("Bob")));
    assert_eq!(st.user_name_of(&s("u9")), None);
}

#[test]
fn tags_are_listed_by_name() {
    let mut st = Store::new();
    st.insert_tag(s("g1"), s("urgent"), s("#f00")).unwrap();
    st.insert_tag(s("g2"), s("bug"), s("#0f0")).unwrap();
    let t = st.create_tag(s("docs"), s("#00f")).unwrap();
    assert_eq!(t.id.len(), 36);
    let names: Vec<String> = st.get_tags().into_iter().map(|t| t.name).collect();
    assert_eq!(names, vec![s("bug"), s("docs"), s("urgent")]);
    assert_eq!(st.insert_tag(s("g1"), s("x"), s("#1")), Err(s("UNIQUE constraint failed: tags.id")));
}

#[test]
fn settings_read_back_what_was_written() {
    let mut st = Store::new();
    assert_eq!(st.get_setting(&s("sync")), None);
    st.set_setting(s("sync"), s("on"));
    st.set_setting(s("theme"), s("dark"));
    st.set_setting(s("sync"), s("off"));
    assert_eq!(st.get_setting(&s("sync")), Some(s("off")));
    assert_eq!(st.get_setting(&s("theme")), Some(s("dark")));
    assert_eq!(st.settings.len(), 2);
    assert_eq!(st.settings[1].key, "sync");
}

#[test]
fn well_formedness_detects_duplicate_keys() {
    let mut st = Store::new();
    assert!(st.is_well_formed());
    st.insert_team(s("1"), s("n"), s("a"), s("#1")).unwrap();
    assert!(st.is_well_formed());
    let copy = st.teams[0].clone();
    st.teams.push(copy);
    assert!(!st.is_well_formed());
    st.teams.pop();
    st.assign_user(s("a"), s("u"));
    st.task_assignees.push(st.task_assignees[0].clone());
    assert!(!st.is_well_formed());
}

#[test]
fn comments_name_their_author_and_come_newest_first() {
    let mut st = Store::new();
    st.insert_user(s("u1"), s("now"), s("t1"), s("Ann"), s("a@x")).unwrap();
    let c = st.insert_comment(s("k1"), s("2024-01-01T10:00:00+00:00"), s("a"), s("u1"), s("first")).unwrap();
    assert_eq!(c.user_name, "Ann");
    let c2 = st.insert_comment(s("k2"), s("2024-01-01T11:00:00+00:00"), s("a"), s("ghost"), s("lost")).unwrap();
    assert_eq!(c2.user_name, "Unknown");
    st.insert_comment(s("k3"), s("2024-01-01T12:00:00+00:00"), s("a"), s("u1"), s("third")).unwrap();
    st.insert_comment(s("k4"), s("2024-01-01T13:00:00+00:00"), s("b"), s("u1"), s("elsewhere")).unwrap();
    let listed: Vec<String> = st.get_comments(&s("a")).into_iter().map(|c| c.id).collect();
    assert_eq!(listed, vec![s("k3"), s("k1")]);
    assert_eq!(
        st.insert_comment(s("k1"), s("x"), s("a"), s("u1"), s("dup")),
        Err(s("UNIQUE constraint failed: comments.id"))
    );
    let made = st.create_comment(s("a"), s("u1"), s("new")).unwrap();
    assert_eq!(made.user_name, "Ann");
}

#[test]
fn activity_listing_holds_at_most_fifty_newest() {
    let mut st = Store::new();
    st.insert_user(s("u1"), s("now"), s("t1"), s("Ann"), s("a@x")).unwrap();
    for i in 0..60 {
        let at = format!("2024-01-01T00:00:{:02}+00:00", i);
        st.insert_activity(format!("x{i}"), at, s("a"), s("u1"), s("edit"), None).unwrap();
    }
    st.insert_activity(s("y"), s("2030-01-01T00:00:00+00:00"), s("a"), s("nobody"), s("edit"), None).unwrap();
    let list = st.get_activities(&s("a"));
    assert_eq!(list.len(), 50);
    assert_eq!(list[0].id, "x59");
    assert_eq!(list[49].id, "x10");
    assert!(list.iter().all(|a| a.user_name == "Ann"));
    st.log_activity(s("a"), s("u1"), s("moved"), Some(s("to Done")));
    assert_eq!(st.activities.len(), 62);
    assert_eq!(st.activities[61].details, Some(s("to Done")));
}

#[test]
fn created_comment_is_listed_last_in_table_order() {
    let mut st = Store::new();
    st.insert_user(s("u1"), s("t"), s("team"), s("Ann"), s("a@x")).unwrap();
    st.insert_comment(s("c1"), s("2024-01-01"), s("task"), s("u1"), s("first")).unwrap();
    let c = st.insert_comment(s("c2"), s("2024-01-02"), s("task"), s("u1"), s("second")).unwrap();
    assert_eq!(c.user_name, "Ann");
    let listed = st.get_comments(&s("task"));
    assert_eq!(listed.len(), 2);
    assert_eq!(listed[0], c);
}
