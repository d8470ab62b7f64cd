use teamflow::store::Store;

fn s(x: &str) -> String {
    x.to_string()
}

#[test]
fn stopping_a_timer_gives_elapsed_whole_seconds() {
    let mut st = Store::new();
    let id = st.start_timer_at(s("e1"), s("2024-01-01T00:00:00+00:00"), s("a"), s("u1")).unwrap();
    assert_eq!(id, "e1");
    assert_eq!(st.time_entries[0].duration, Some(0));
    let d = st.stop_timer_at(s("2024-01-01T00:01:30.900+00:00"), &s("e1"));
    assert_eq!(d, Ok(90));
    assert_eq!(st.time_entries[0].end_time, Some(s("2024-01-01T00:01:30.900+00:00")));
}

#[test]
fn starting_a_timer_stops_the_running_one() {
    let mut st = Store::new();
    st.start_timer_at(s("e1"), s("2024-01-01T00:00:00+00:00"), s("a"), s("u1")).unwrap();
    st.start_timer_at(s("e2"), s("2024-01-01T00:00:10+00:00"), s("a"), s("u2")).unwrap();
    st.start_timer_at(s("e3"), s("2024-01-01T02:00:00+02:00"), s("a"), s("u1")).unwrap();
    assert_eq!(st.time_entries[0].end_time, Some(s("2024-01-01T02:00:00+02:00")));
    assert_eq!(st.time_entries[0].duration, Some(0));
    assert_eq!(st.time_entries[1].end_time, None);
    assert_eq!(st.time_entries[2].end_time, None);
}

#[test]
fn stop_timer_errors() {
    let mut st = Store::new();
    assert_eq!(st.stop_timer_at(s("2024-01-01T00:00:00Z"), &s("none")), Err(s("Query returned no rows")));
    st.start_timer_at(s("e1"), s("not a time"), s("a"), s("u1")).unwrap();
    assert_eq!(
        st.stop_timer_at(s("2024-01-01T00:00:00Z"), &s("e1")),
        Err(s("Invalid column type Null at index: 0, name: duration"))
    );
    assert_eq!(st.time_entries[0].end_time, Some(s("2024-01-01T00:00:00Z")));
    assert_eq!(
        st.start_timer_at(s("e1"), s("2024-01-01T00:00:00Z"), s("a"), s("u1")),
        Err(s("UNIQUE constraint failed: time_entries.id"))
    );
}

#[test]
fn negative_spans_round_toward_zero() {
    let mut st = Store::new();
    st.start_timer_at(s("e1"), s("2024-01-01T00:00:10+00:00"), s("a"), s("u1")).unwrap();
    assert_eq!(st.stop_timer_at(s("2024-01-01T00:00:08.500+00:00"), &s("e1")), Ok(-1));
}

#[test]
fn time_entries_are_listed_newest_first_without_unknown_durations() {
    let mut st = Store::new();
    st.start_timer_at(s("e1"), s("2024-01-01T00:00:00+00:00"), s("a"), s("u1")).unwrap();
    st.stop_timer_at(s("2024-01-01T00:00:05+00:00"), &s("e1")).unwrap();
    st.start_timer_at(s("e2"), s("2024-01-02T00:00:00+00:00"), s("a"), s("u1")).unwrap();
    st.start_timer_at(s("e3"), s("bad"), s("a"), s("u2")).unwrap();
    st.stop_timer_at(s("2024-01-03T00:00:00+00:00"), &s("e3")).unwrap_err();
    st.start_timer_at(s("e4"), s("2024-01-05T00:00:00+00:00"), s("b"), s("u1")).unwrap();
    let ids: Vec<(String, i64)> = st.get_time_entries(&s("a")).into_iter().map(|e| (e.id, e.duration)).collect();
    assert_eq!(ids, vec![(s("e2"), 0), (s("e1"), 5)]);
}

#[test]
fn clock_driven_timer_round_trip() {
    let mut st = Store::new();
    let id = st.start_timer(s("a"), s("u1")).unwrap();
    assert_eq!(id.len(), 36);
    let d = st.stop_timer(&id).unwrap();
    assert!(d >= 0 && d < 5);
}

#[test]
fn stop_right_after_start_reads_back_the_span() {
    let mut st = Store::new();
    st.start_timer_at(s("e0"), s("2024-03-01T08:00:00+00:00"), s("b"), s("u1")).unwrap();
    st.start_timer_at(s("e1"), s("2024-03-01T09:00:00+01:00"), s("a"), s("u1")).unwrap();
    assert_eq!(st.stop_timer_at(s("2024-03-01T08:02:05+00:00"), &s("e1")), Ok(125));
    assert_eq!(st.time_entries[1].duration, Some(125));
    assert_eq!(st.time_entries[0].end_time, None);
}

#[test]
fn clock_readings_parse_as_timestamps() {
    let mut st = Store::new();
    st.start_timer(s("a"), s("u1")).unwrap();
    let start = st.time_entries[0].start_time.clone();
    assert!(start.starts_with("20"));
    st.start_timer_at(s("e1"), start, s("b"), s("u1")).unwrap();
    assert!(st.stop_timer(&s("e1")).is_ok());
}
