//! Time tracking: timers that users start and stop on tasks.

use vstd::prelude::*;

use crate::model::{copy_opt, TimeEntry, TimeEntryRecord};
use crate::outside::{is_clock_text, is_uuid_v4_text, new_id, now_rfc3339, parse_rfc3339_millis, rfc3339_millis};
use crate::rows::{
    edit_rows, find_row, has_key, insert_row, is_first_match, lemma_same_keys_keep_distinct, no_match,
    primary_key, rows_sorted, sort_rows, unique_violation, Edit, Field, Row,
};
use crate::store::{Store, StoreView};

verus! {

/// Whole seconds from `start` to `end`, rounded toward zero, where both are
/// RFC 3339 timestamps.
pub open spec fn elapsed_seconds(start: Seq<char>, end: Seq<char>) -> Option<i64> {
    match (rfc3339_millis(start), rfc3339_millis(end)) {
        (Some(a), Some(b)) => Some(
            if b >= a {
                ((b - a) / 1000) as i64
            } else {
                (-((a - b) / 1000)) as i64
            },
        ),
        _ => None,
    }
}

/// Entry `e` stopped at `now`.
pub open spec fn entry_stopped(e: TimeEntryRecord, now: String) -> TimeEntryRecord {
    TimeEntryRecord { end_time: Some(now), duration: elapsed_seconds(e.start_time@, now@), ..e }
}

/// Entry `e` after the running timers of user `user_id` on task `task_id`
/// are stopped at `now`.
pub open spec fn running_timer_stopped(
    e: TimeEntryRecord,
    task_id: Seq<char>,
    user_id: Seq<char>,
    now: String,
) -> TimeEntryRecord {
    if e.task_id@ == task_id && e.user_id@ == user_id && e.end_time is None {
        entry_stopped(e, now)
    } else {
        e
    }
}

/// The entries after the running timers of user `user_id` on task `task_id`
/// are stopped at `now`.
pub open spec fn running_timers_stopped(
    es: Seq<TimeEntryRecord>,
    task_id: Seq<char>,
    user_id: Seq<char>,
    now: String,
) -> Seq<TimeEntryRecord> {
    es.map_values(|e: TimeEntryRecord| running_timer_stopped(e, task_id, user_id, now))
}

/// Entry `e` after entry `id` is stopped at `now`.
pub open spec fn timer_stopped(e: TimeEntryRecord, id: Seq<char>, now: String) -> TimeEntryRecord {
    if e.id@ == id {
        entry_stopped(e, now)
    } else {
        e
    }
}

/// The entries after entry `id` is stopped at `now`.
pub open spec fn timers_stopped(es: Seq<TimeEntryRecord>, id: Seq<char>, now: String) -> Seq<TimeEntryRecord> {
    es.map_values(|e: TimeEntryRecord| timer_stopped(e, id, now))
}

/// Entry `e` as listed for task `task_id`: present where it belongs to the
/// task and has a duration.
pub open spec fn entry_listed(e: TimeEntryRecord, task_id: Seq<char>) -> Option<TimeEntry> {
    if e.task_id@ == task_id {
        match e.duration {
            Some(d) => Some(
                TimeEntry {
                    id: e.id,
                    task_id: e.task_id,
                    user_id: e.user_id,
                    start_time: e.start_time,
                    end_time: e.end_time,
                    duration: d,
                },
            ),
            None => None,
        }
    } else {
        None
    }
}

/// The time entries of task `task_id` that have a duration, in table order.
pub open spec fn entries_of(s: StoreView, task_id: Seq<char>) -> Seq<TimeEntry> {
    s.time_entries.filter_map(|e: TimeEntryRecord| entry_listed(e, task_id))
}

/// The message of a stopped timer whose duration could not be computed.
pub open spec fn null_duration_message() -> Seq<char> {
    "Invalid column type Null at index: 0, name: duration"@
}

/// Whole seconds from `start` to `end`.
fn elapsed_between(start: &String, end: &String) -> (r: Option<i64>)
    ensures
        r == elapsed_seconds(start@, end@),
{
    match (parse_rfc3339_millis(start.as_str()), parse_rfc3339_millis(end.as_str())) {
        (Some(a), Some(b)) => {
            if b >= a {
                Some((b - a) / 1000)
            } else {
                Some(-((a - b) / 1000))
            }
        },
        _ => None,
    }
}

fn stop_entry(e: &TimeEntryRecord, now: &String) -> (r: TimeEntryRecord)
    ensures
        r == entry_stopped(*e, *now),
{
    let mut r = e.duplicate();
    r.end_time = Some(now.clone());
    r.duration = elapsed_between(&e.start_time, now);
    r
}

struct StopRunning<'a> {
    task_id: &'a String,
    user_id: &'a String,
    now: &'a String,
}

impl<'a> Edit<TimeEntryRecord> for StopRunning<'a> {
    closed spec fn edited(&self, e: TimeEntryRecord) -> TimeEntryRecord {
        running_timer_stopped(e, self.task_id@, self.user_id@, *self.now)
    }

    fn apply(&self, e: &TimeEntryRecord) -> (r: TimeEntryRecord) {
        if String::eq(&e.task_id, self.task_id) && String::eq(&e.user_id, self.user_id) && e.end_time.is_none() {
            stop_entry(e, self.now)
        } else {
            e.duplicate()
        }
    }
}

struct StopOne<'a> {
    id: &'a String,
    now: &'a String,
}

impl<'a> Edit<TimeEntryRecord> for StopOne<'a> {
    closed spec fn edited(&self, e: TimeEntryRecord) -> TimeEntryRecord {
        timer_stopped(e, self.id@, *self.now)
    }

    fn apply(&self, e: &TimeEntryRecord) -> (r: TimeEntryRecord) {
        if String::eq(&e.id, self.id) {
            stop_entry(e, self.now)
        } else {
            e.duplicate()
        }
    }
}

impl Store {
    /// At `now`, stops the running timers of user `user_id` on task
    /// `task_id`, then starts timer `id`. Where the key is taken, the running
    /// timers are stopped and the call fails.
    pub fn start_timer_at(&mut self, id: String, now: String, task_id: String, user_id: String) -> (r: Result<
        String,
        String,
    >)
        requires
            old(self)@.wf(),
        ensures
            final(self)@.wf(),
            final(self)@ == (StoreView { time_entries: final(self)@.time_entries, ..old(self)@ }),
            match r {
                Ok(started) => {
                    let stopped = running_timers_stopped(old(self)@.time_entries, task_id@, user_id@, now);
                    &&& started == id
                    &&& !has_key(stopped, id@)
                    &&& final(self)@.time_entries == stopped.push(
                        TimeEntryRecord {
                            id,
                            task_id,
                            user_id,
                            start_time: now,
                            end_time: None,
                            duration: Some(0),
                        },
                    )
                },
                Err(e) => {
                    let stopped = running_timers_stopped(old(self)@.time_entries, task_id@, user_id@, now);
                    &&& has_key(stopped, id@)
                    &&& e@ == unique_violation("time_entries"@)
                    &&& final(self)@.time_entries == stopped
                },
            },
    {
        let edit = StopRunning { task_id: &task_id, user_id: &user_id, now: &now };
        let rows = edit_rows(&self.time_entries, &edit);
        proof {
            assert(rows@ =~= running_timers_stopped(old(self)@.time_entries, task_id@, user_id@, now));
            lemma_same_keys_keep_distinct(old(self)@.time_entries, rows@, primary_key::<TimeEntryRecord>());
        }
        self.time_entries = rows;
        let entry = TimeEntryRecord {
            id: id.clone(),
            task_id,
            user_id,
            start_time: now,
            end_time: None,
            duration: Some(0),
        };
        match insert_row(&mut self.time_entries, entry, &id, "time_entries") {
            Ok(()) => Ok(id),
            Err(e) => Err(e),
        }
    }

    /// Starts a timer with a fresh identifier for user `user_id` on task
    /// `task_id`, first stopping the user's running timers on the task, and
    /// returns the new timer's identifier.
    pub fn start_timer(&mut self, task_id: String, user_id: String) -> (r: Result<String, String>)
        requires
            old(self)@.wf(),
        ensures
            final(self)@.wf(),
            final(self)@ == (StoreView { time_entries: final(self)@.time_entries, ..old(self)@ }),
            exists|now: String|
                {
                    let stopped = #[trigger] running_timers_stopped(
                        old(self)@.time_entries,
                        task_id@,
                        user_id@,
                        now,
                    );
                    &&& is_clock_text(now@)
                    &&& match r {
                        Ok(id) => is_uuid_v4_text(id@) && final(self)@.time_entries == stopped.push(
                            TimeEntryRecord {
                                id,
                                task_id,
                                user_id,
                                start_time: now,
                                end_time: None,
                                duration: Some(0),
                            },
                        ),
                        Err(e) => e@ == unique_violation("time_entries"@) && final(self)@.time_entries
                            == stopped,
                    }
                },
            r is Err ==> exists|id: String|
                #[trigger] is_uuid_v4_text(id@) && has_key(old(self)@.time_entries, id@),
    {
        let id = new_id();
        let now = now_rfc3339();
        let ghost n = now;
        let ghost fresh = id;
        let r = self.start_timer_at(id, now, task_id, user_id);
        proof {
            let stopped = running_timers_stopped(old(self)@.time_entries, task_id@, user_id@, n);
            if r is Err {
                let i = choose|i: int|
                    0 <= i < stopped.len() && #[trigger] stopped[i].field_spec(Field::Id) == Some(fresh@);
                assert(stopped[i].id == old(self)@.time_entries[i].id);
                assert(old(self)@.time_entries[i].field_spec(Field::Id) == Some(fresh@));
                assert(is_uuid_v4_text(fresh@) && has_key(old(self)@.time_entries, fresh@));
            }
        }
        r
    }

    /// Stops timer `entry_id` at `now` and returns its duration in seconds.
    /// Fails where there is no such timer, or where the duration cannot be
    /// computed from its start and `now` (the timer is stopped all the same).
    pub fn stop_timer_at(&mut self, now: String, entry_id: &String) -> (r: Result<i64, String>)
        requires
            old(self)@.wf(),
        ensures
            final(self)@.wf(),
            final(self)@ == (StoreView {
                time_entries: timers_stopped(old(self)@.time_entries, entry_id@, now),
                ..old(self)@
            }),
            match r {
                Ok(d) => exists|i: int|
                    #[trigger] is_first_match(old(self)@.time_entries, Field::Id, entry_id@, i)
                        && elapsed_seconds(old(self)@.time_entries[i].start_time@, now@) == Some(d),
                Err(e) => {
                    ||| no_match(old(self)@.time_entries, Field::Id, entry_id@) && e@ == "Query returned no rows"@
                    ||| exists|i: int|
                        #[trigger] is_first_match(old(self)@.time_entries, Field::Id, entry_id@, i)
                            && elapsed_seconds(old(self)@.time_entries[i].start_time@, now@) is None
                            && e@ == null_duration_message()
                },
            },
    {
        let edit = StopOne { id: entry_id, now: &now };
        let rows = edit_rows(&self.time_entries, &edit);
        proof {
            assert(rows@ =~= timers_stopped(old(self)@.time_entries, entry_id@, now));
            lemma_same_keys_keep_distinct(old(self)@.time_entries, rows@, primary_key::<TimeEntryRecord>());
        }
        self.time_entries = rows;
        match find_row(&self.time_entries, Field::Id, entry_id) {
            Some(i) => {
                proof {
                    assert(is_first_match(old(self)@.time_entries, Field::Id, entry_id@, i as int)) by {
                        assert forall|j: int| 0 <= j < i implies #[trigger] old(self)@.time_entries[j].field_spec(
                            Field::Id,
                        ) != Some(entry_id@) by {
                            assert(self@.time_entries[j].id == old(self)@.time_entries[j].id);
                        }
                        assert(self@.time_entries[i as int].id == old(self)@.time_entries[i as int].id);
                    }
                }
                match self.time_entries[i].duration {
                    Some(d) => Ok(d),
                    None => Err("Invalid column type Null at index: 0, name: duration".to_owned()),
                }
            },
            None => {
                proof {
                    assert forall|j: int| 0 <= j < old(self)@.time_entries.len() implies #[trigger] old(
                        self,
                    )@.time_entries[j].field_spec(Field::Id) != Some(entry_id@) by {
                        assert(self@.time_entries.len() == old(self)@.time_entries.len());
                        assert(self@.time_entries[j].field_spec(Field::Id) != Some(entry_id@));
                        assert(self@.time_entries[j].id == old(self)@.time_entries[j].id);
                    }
                }
                Err("Query returned no rows".to_owned())
            },
        }
    }

    /// Stops timer `entry_id` now and returns its duration in seconds.
    pub fn stop_timer(&mut self, entry_id: &String) -> (r: Result<i64, String>)
        requires
            old(self)@.wf(),
        ensures
            final(self)@.wf(),
            final(self)@ == (StoreView { time_entries: final(self)@.time_entries, ..old(self)@ }),
            exists|now: String|
                #[trigger] timers_stopped(old(self)@.time_entries, entry_id@, now) == final(self)@.time_entries
                    && is_clock_text(now@) && match r {
                    Ok(d) => exists|i: int|
                        #[trigger] is_first_match(old(self)@.time_entries, Field::Id, entry_id@, i)
                            && elapsed_seconds(old(self)@.time_entries[i].start_time@, now@) == Some(d),
                    Err(e) => {
                        ||| no_match(old(self)@.time_entries, Field::Id, entry_id@) && e@
                            == "Query returned no rows"@
                        ||| exists|i: int|
                            #[trigger] is_first_match(old(self)@.time_entries, Field::Id, entry_id@, i)
                                && elapsed_seconds(old(self)@.time_entries[i].start_time@, now@) is None
                                && e@ == null_duration_message()
                    },
                },
    {
        let now = now_rfc3339();
        let ghost n = now;
        let r = self.stop_timer_at(now, entry_id);
        assert(timers_stopped(old(self)@.time_entries, entry_id@, n) == self@.time_entries);
        r
    }

    /// The time entries of task `task_id` that have a duration, newest start
    /// first.
    pub fn get_time_entries(&self, task_id: &String) -> (r: Vec<TimeEntry>)
        ensures
            r@.to_multiset() == entries_of(self@, task_id@).to_multiset(),
            rows_sorted(r@),
    {
        let ghost f = |e: TimeEntryRecord| entry_listed(e, task_id@);
        let mut out: Vec<TimeEntry> = Vec::new();
        let mut i: usize = 0;
        while i < self.time_entries.len()
            invariant
                i <= self.time_entries.len(),
                f == (|e: TimeEntryRecord| entry_listed(e, task_id@)),
                out@ == self@.time_entries.take(i as int).filter_map(f),
            decreases self.time_entries.len() - i,
        {
            proof {
                self@.time_entries.lemma_filter_map_take_succ(f, i as int);
            }
            let e = &self.time_entries[i];
            if String::eq(&e.task_id, task_id) {
                match e.duration {
                    Some(d) => {
                        out.push(
                            TimeEntry {
                                id: e.id.clone(),
                                task_id: e.task_id.clone(),
                                user_id: e.user_id.clone(),
                                start_time: e.start_time.clone(),
                                end_time: copy_opt(&e.end_time),
                                duration: d,
                            },
                        );
                    },
                    None => {},
                }
            }
            i = i + 1;
        }
        assert(self@.time_entries.take(self@.time_entries.len() as int) =~= self@.time_entries);
        sort_rows(out)
    }
}

} // verus!
