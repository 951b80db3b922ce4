//! Window-switch bookkeeping of the activity hook. The hook polls the idle
//! detector and the foreground window; [`hook_step`] decides, for each poll,
//! which record is finished and must be persisted and which one is current.
use vstd::prelude::*;
use crate::idle::{elapsed, IdleStatus};
use std::time::{Duration, SystemTime, SystemTimeError};

verus! {

/// One stretch of time spent in one window.
#[derive(Debug, Clone)]
pub struct WindowRecord {
    /// Wall-clock start, milliseconds since the Unix epoch.
    pub timestamp: u64,
    pub app_name: String,
    pub window_title: String,
    /// Monotonic clock reading (nanoseconds) when the stretch began.
    pub start_time: u64,
    /// Length of the stretch in milliseconds, set when it ends.
    pub duration: u64,
}

/// A finished record to be written, and whether it ended by going idle.
#[derive(Debug)]
pub struct PersistRecord {
    pub record: WindowRecord,
    pub is_idle: bool,
}

/// Whole milliseconds elapsed between two monotonic readings in nanoseconds.
pub open spec fn elapsed_millis(start: u64, now: u64) -> u64 {
    (elapsed(start, now) / 1_000_000) as u64
}

/// `rec` with its duration set to the time elapsed since it started.
pub open spec fn finished(rec: WindowRecord, now: u64) -> WindowRecord {
    WindowRecord { duration: elapsed_millis(rec.start_time, now), ..rec }
}

/// Whether the foreground window `(app, title)` differs from the current record.
pub open spec fn window_changed(current: Option<WindowRecord>, app: Seq<char>, title: Seq<char>) -> bool {
    match current {
        None => true,
        Some(c) => c.app_name@ != app || c.window_title@ != title,
    }
}

/// The current record and the record to persist after one poll.
pub open spec fn step_result(
    current: Option<WindowRecord>,
    status: IdleStatus,
    active_window: Option<(String, String)>,
    now_epoch_ms: u64,
    now: u64,
) -> (Option<WindowRecord>, Option<PersistRecord>) {
    match status {
        IdleStatus::BecameIdle => match current {
            Some(rec) => (None, Some(PersistRecord { record: finished(rec, now), is_idle: true })),
            None => (None, None),
        },
        IdleStatus::StillIdle => (current, None),
        _ => match active_window {
            None => (current, None),
            Some((app, title)) => if window_changed(current, app@, title@) {
                (
                    Some(
                        WindowRecord {
                            timestamp: now_epoch_ms,
                            app_name: app,
                            window_title: title,
                            start_time: now,
                            duration: 0,
                        },
                    ),
                    match current {
                        Some(old_rec) => Some(
                            PersistRecord { record: finished(old_rec, now), is_idle: false },
                        ),
                        None => None,
                    },
                )
            } else {
                (current, None)
            },
        },
    }
}

fn finish(mut rec: WindowRecord, now: u64) -> (r: WindowRecord)
    ensures
        r == finished(rec, now),
{
    let e: u64 = if now >= rec.start_time {
        now - rec.start_time
    } else {
        0
    };
    rec.duration = e / 1_000_000;
    rec
}

/// One poll of the hook. `status` is the idle detector's verdict,
/// `active_window` the foreground window as `(app name, window title)`,
/// `now_epoch_ms` the wall clock and `now` the monotonic clock (ns).
/// Going idle finishes the current record (persisted as idle); while
/// active, a different foreground window finishes the current record
/// (persisted as not idle) and starts a new one.
pub fn hook_step(
    current: &mut Option<WindowRecord>,
    status: IdleStatus,
    active_window: Option<(String, String)>,
    now_epoch_ms: u64,
    now: u64,
) -> (r: Option<PersistRecord>)
    ensures
        (*final(current), r) == step_result(*old(current), status, active_window, now_epoch_ms, now),
{
    match status {
        IdleStatus::BecameIdle => {
            match current.take() {
                Some(rec) => Some(PersistRecord { record: finish(rec, now), is_idle: true }),
                None => None,
            }
        },
        IdleStatus::StillIdle => None,
        IdleStatus::ResumedActivity | IdleStatus::Active => {
            match active_window {
                Some((app_name, window_title)) => {
                    let should_switch = match current {
                        None => true,
                        Some(c) => c.app_name != app_name || c.window_title != window_title,
                    };
                    if should_switch {
                        let persisted = match current.take() {
                            Some(old_rec) => Some(
                                PersistRecord { record: finish(old_rec, now), is_idle: false },
                            ),
                            None => None,
                        };
                        *current = Some(
                            WindowRecord {
                                timestamp: now_epoch_ms,
                                app_name: app_name,
                                window_title: window_title,
                                start_time: now,
                                duration: 0,
                            },
                        );
                        persisted
                    } else {
                        None
                    }
                },
                None => None,
            }
        },
    }
}

/// Every persisted record is the previous current record, unchanged but
/// for its duration (the milliseconds elapsed since it started); it is
/// marked idle exactly when the poll reported `BecameIdle`.
pub proof fn lemma_persisted_is_previous(
    current: Option<WindowRecord>,
    status: IdleStatus,
    active_window: Option<(String, String)>,
    now_epoch_ms: u64,
    now: u64,
)
    ensures
        step_result(current, status, active_window, now_epoch_ms, now).1 matches Some(p) ==> (
        current matches Some(c) && p.record == finished(c, now) && p.is_idle == (status
            == IdleStatus::BecameIdle)),
{
}

/// No record is lost: after a poll the previous record is either still
/// current or has been handed out to be persisted.
pub proof fn lemma_no_record_lost(
    current: Option<WindowRecord>,
    status: IdleStatus,
    active_window: Option<(String, String)>,
    now_epoch_ms: u64,
    now: u64,
)
    requires
        current is Some,
    ensures
        ({
            let (next, persisted) = step_result(current, status, active_window, now_epoch_ms, now);
            next == current || persisted == Some(
                PersistRecord {
                    record: finished(current->0, now),
                    is_idle: status == IdleStatus::BecameIdle,
                },
            )
        }),
{
}

/// Going idle always leaves no current record.
pub proof fn lemma_idle_closes_record(
    current: Option<WindowRecord>,
    active_window: Option<(String, String)>,
    now_epoch_ms: u64,
    now: u64,
)
    ensures
        step_result(current, IdleStatus::BecameIdle, active_window, now_epoch_ms, now).0 is None,
{
}

/// While idle, or when no foreground window is known, a poll changes
/// nothing and persists nothing.
pub proof fn lemma_quiet_polls_change_nothing(
    current: Option<WindowRecord>,
    status: IdleStatus,
    active_window: Option<(String, String)>,
    now_epoch_ms: u64,
    now: u64,
)
    requires
        status == IdleStatus::StillIdle || (status != IdleStatus::BecameIdle
            && active_window is None),
    ensures
        step_result(current, status, active_window, now_epoch_ms, now) == (current, None::<
            PersistRecord,
        >),
{
}

/// Staying in the window that was just switched to persists nothing: after
/// a poll that starts a record for `(app, title)`, a later active poll that
/// sees the same window keeps that record.
pub proof fn lemma_same_window_keeps_record(
    current: Option<WindowRecord>,
    status1: IdleStatus,
    status2: IdleStatus,
    app: String,
    title: String,
    app2: String,
    title2: String,
    now_epoch_ms1: u64,
    now1: u64,
    now_epoch_ms2: u64,
    now2: u64,
)
    requires
        status1 == IdleStatus::Active || status1 == IdleStatus::ResumedActivity,
        status2 == IdleStatus::Active || status2 == IdleStatus::ResumedActivity,
        app2@ == app@,
        title2@ == title@,
    ensures
        ({
            let (next, _) = step_result(current, status1, Some((app, title)), now_epoch_ms1, now1);
            step_result(next, status2, Some((app2, title2)), now_epoch_ms2, now2) == (next, None::<
                PersistRecord,
            >)
        }),
{
}

/// A poll that sees a different window while the user is active opens a
/// new record for that window starting at this poll: its wall-clock start
/// is `now_epoch_ms`, its monotonic start is `now` and its duration is 0.
/// The record it replaces, if any, is persisted as not idle.
pub proof fn lemma_switch_opens_record_now(
    current: Option<WindowRecord>,
    status: IdleStatus,
    app: String,
    title: String,
    now_epoch_ms: u64,
    now: u64,
)
    requires
        status == IdleStatus::Active || status == IdleStatus::ResumedActivity,
        current is None || current->0.app_name@ != app@ || current->0.window_title@ != title@,
    ensures
        ({
            let (next, persisted) = step_result(
                current,
                status,
                Some((app, title)),
                now_epoch_ms,
                now,
            );
            &&& next is Some
            &&& next->0.timestamp == now_epoch_ms
            &&& next->0.start_time == now
            &&& next->0.duration == 0
            &&& next->0.app_name == app
            &&& next->0.window_title == title
            &&& (persisted is Some <==> current is Some)
            &&& (persisted matches Some(p) ==> !p.is_idle)
        }),
{
}

/// A persisted record is the record that was open, with every field kept
/// but the duration, which is the whole milliseconds from its monotonic
/// start to the closing poll's monotonic time (0 if the clock went back).
pub proof fn lemma_persisted_duration(
    current: Option<WindowRecord>,
    status: IdleStatus,
    active_window: Option<(String, String)>,
    now_epoch_ms: u64,
    now: u64,
)
    ensures
        step_result(current, status, active_window, now_epoch_ms, now).1 matches Some(p) ==> {
            let c = current->0;
            &&& current is Some
            &&& p.record.timestamp == c.timestamp
            &&& p.record.app_name == c.app_name
            &&& p.record.window_title == c.window_title
            &&& p.record.start_time == c.start_time
            &&& p.record.duration == (if now >= c.start_time {
                ((now - c.start_time) / 1_000_000) as u64
            } else {
                0u64
            })
        },
{
}

/// Over two polls, a record opened by the first and closed by the second
/// lasts exactly the time between the two polls: its duration is the whole
/// milliseconds from the first poll's monotonic time to the second's.
pub proof fn lemma_record_lasts_between_its_polls(
    current: Option<WindowRecord>,
    status1: IdleStatus,
    status2: IdleStatus,
    app: String,
    title: String,
    window2: Option<(String, String)>,
    now_epoch_ms1: u64,
    now1: u64,
    now_epoch_ms2: u64,
    now2: u64,
)
    requires
        status1 == IdleStatus::Active || status1 == IdleStatus::ResumedActivity,
        current is None || current->0.app_name@ != app@ || current->0.window_title@ != title@,
        now1 <= now2,
    ensures
        ({
            let (next, _) = step_result(current, status1, Some((app, title)), now_epoch_ms1, now1);
            step_result(next, status2, window2, now_epoch_ms2, now2).1 matches Some(p) ==> (
            p.record.window_title == title && p.record.duration == ((now2 - now1) / 1_000_000) as u64)
        }),
{
    lemma_switch_opens_record_now(current, status1, app, title, now_epoch_ms1, now1);
    let (next, _) = step_result(current, status1, Some((app, title)), now_epoch_ms1, now1);
    lemma_persisted_duration(next, status2, window2, now_epoch_ms2, now2);
}

/// One poll of the hook, as [`hook_step`] receives it.
pub struct Poll {
    pub status: IdleStatus,
    pub active_window: Option<(String, String)>,
    pub now_epoch_ms: u64,
    pub now: u64,
}

/// The current record after the polls and the records persisted along the
/// way, in order, starting from `current`.
pub open spec fn run(current: Option<WindowRecord>, polls: Seq<Poll>) -> (
    Option<WindowRecord>,
    Seq<PersistRecord>,
)
    decreases polls.len(),
{
    if polls.len() == 0 {
        (current, seq![])
    } else {
        let (c, ps) = run(current, polls.drop_last());
        let p = polls.last();
        let (next, out) = step_result(c, p.status, p.active_window, p.now_epoch_ms, p.now);
        (
            next,
            match out {
                Some(r) => ps.push(r),
                None => ps,
            },
        )
    }
}

/// Whether a poll starts a new record.
pub open spec fn opens_record(current: Option<WindowRecord>, p: Poll) -> bool {
    &&& (p.status == IdleStatus::Active || p.status == IdleStatus::ResumedActivity)
    &&& match p.active_window {
        Some((app, title)) => window_changed(current, app@, title@),
        None => false,
    }
}

/// The number of polls that start a new record.
pub open spec fn opened_count(current: Option<WindowRecord>, polls: Seq<Poll>) -> nat
    decreases polls.len(),
{
    if polls.len() == 0 {
        0
    } else {
        opened_count(current, polls.drop_last()) + if opens_record(
            run(current, polls.drop_last()).0,
            polls.last(),
        ) {
            1nat
        } else {
            0nat
        }
    }
}

/// 1 for an open record, 0 for none.
pub open spec fn open_count(current: Option<WindowRecord>) -> nat {
    if current is Some {
        1
    } else {
        0
    }
}

/// Every record of a run is persisted once: the records persisted plus the
/// one left open (at most one, the current record) are exactly the record
/// open at the start plus the records that polls opened.
pub proof fn lemma_run_persists_each_record_once(current: Option<WindowRecord>, polls: Seq<Poll>)
    ensures
        run(current, polls).1.len() + open_count(run(current, polls).0) == open_count(current)
            + opened_count(current, polls),
    decreases polls.len(),
{
    if polls.len() > 0 {
        lemma_run_persists_each_record_once(current, polls.drop_last());
    }
}

/// Each persisted record of a run was closed by one of its polls: it is the
/// record open before that poll, finished at the poll's monotonic time, and
/// it is marked idle exactly when that poll reported `BecameIdle` (a window
/// switch persists it as not idle).
pub proof fn lemma_run_persisted_origin(current: Option<WindowRecord>, polls: Seq<Poll>)
    ensures
        forall|k: int|
            0 <= k < run(current, polls).1.len() ==> exists|i: int|
                0 <= i < polls.len() && (#[trigger] run(current, polls).1[k]).is_idle == (
                polls[i].status == IdleStatus::BecameIdle) && run(current, polls.take(i)).0 is Some
                    && run(current, polls).1[k].record == finished(
                    run(current, polls.take(i)).0->0,
                    polls[i].now,
                ),
    decreases polls.len(),
{
    if polls.len() > 0 {
        let prev = polls.drop_last();
        lemma_run_persisted_origin(current, prev);
        let n = polls.len() - 1;
        assert(polls.take(n) =~= prev);
        let ps = run(current, polls).1;
        let pps = run(current, prev).1;
        assert forall|k: int| 0 <= k < ps.len() implies exists|i: int|
            0 <= i < polls.len() && (#[trigger] ps[k]).is_idle == (polls[i].status
                == IdleStatus::BecameIdle) && run(current, polls.take(i)).0 is Some && ps[k].record
                == finished(run(current, polls.take(i)).0->0, polls[i].now) by {
            if k < pps.len() {
                assert(ps[k] == pps[k]);
                let i = choose|i: int|
                    0 <= i < prev.len() && (#[trigger] pps[k]).is_idle == (prev[i].status
                        == IdleStatus::BecameIdle) && run(current, prev.take(i)).0 is Some
                        && pps[k].record == finished(run(current, prev.take(i)).0->0, prev[i].now);
                assert(prev.take(i) =~= polls.take(i));
                assert(prev[i] == polls[i]);
            } else {
                let p = polls.last();
                lemma_persisted_is_previous(
                    run(current, prev).0,
                    p.status,
                    p.active_window,
                    p.now_epoch_ms,
                    p.now,
                );
                assert(polls[n] == p);
            }
        }
    }
}

/// A timestamp that the run carries: that of the record open at the start,
/// or the wall-clock reading of one of its polls.
pub open spec fn carried_timestamp(current: Option<WindowRecord>, polls: Seq<Poll>, t: u64) -> bool {
    (current matches Some(c) && t == c.timestamp) || exists|i: int|
        0 <= i < polls.len() && t == #[trigger] polls[i].now_epoch_ms
}

/// The polls' wall-clock readings never go back, and none is earlier than
/// the start of the record open at the start.
pub open spec fn clock_ordered(current: Option<WindowRecord>, polls: Seq<Poll>) -> bool {
    &&& forall|i: int, j: int|
        0 <= i <= j < polls.len() ==> #[trigger] polls[i].now_epoch_ms <= #[trigger] polls[j].now_epoch_ms
    &&& current matches Some(c) ==> forall|i: int|
        0 <= i < polls.len() ==> c.timestamp <= #[trigger] polls[i].now_epoch_ms
}

proof fn lemma_run_timestamps_carried(current: Option<WindowRecord>, polls: Seq<Poll>)
    ensures
        forall|k: int|
            0 <= k < run(current, polls).1.len() ==> carried_timestamp(
                current,
                polls,
                (#[trigger] run(current, polls).1[k]).record.timestamp,
            ),
        run(current, polls).0 matches Some(r) ==> carried_timestamp(current, polls, r.timestamp),
    decreases polls.len(),
{
    if polls.len() > 0 {
        let prev = polls.drop_last();
        lemma_run_timestamps_carried(current, prev);
        let n = polls.len() - 1;
        assert forall|t: u64| carried_timestamp(current, prev, t) implies carried_timestamp(
            current,
            polls,
            t,
        ) by {
            if !(current matches Some(c) && t == c.timestamp) {
                let i = choose|i: int| 0 <= i < prev.len() && t == #[trigger] prev[i].now_epoch_ms;
                assert(polls[i] == prev[i]);
            }
        }
        assert(polls[n] == polls.last());
        let ps = run(current, polls).1;
        let pps = run(current, prev).1;
        assert forall|k: int| 0 <= k < ps.len() implies carried_timestamp(
            current,
            polls,
            (#[trigger] ps[k]).record.timestamp,
        ) by {
            if k < pps.len() {
                assert(ps[k] == pps[k]);
            }
        }
    }
}

/// Over a run whose clock readings never go back, persisted records come
/// out in order of their wall-clock start, and the record left open started
/// no earlier than any of them.
pub proof fn lemma_run_persisted_in_order(current: Option<WindowRecord>, polls: Seq<Poll>)
    requires
        clock_ordered(current, polls),
    ensures
        forall|a: int, b: int|
            0 <= a <= b < run(current, polls).1.len() ==> (#[trigger] run(current, polls).1[a]).record.timestamp
                <= (#[trigger] run(current, polls).1[b]).record.timestamp,
        run(current, polls).0 matches Some(r) ==> forall|k: int|
            0 <= k < run(current, polls).1.len() ==> (#[trigger] run(current, polls).1[k]).record.timestamp
                <= r.timestamp,
    decreases polls.len(),
{
    if polls.len() > 0 {
        let prev = polls.drop_last();
        let n = polls.len() - 1;
        assert(clock_ordered(current, prev)) by {
            assert forall|i: int, j: int| 0 <= i <= j < prev.len() implies #[trigger] prev[i].now_epoch_ms
                <= #[trigger] prev[j].now_epoch_ms by {
                assert(prev[i] == polls[i] && prev[j] == polls[j]);
            }
            if let Some(c) = current {
                assert forall|i: int| 0 <= i < prev.len() implies c.timestamp <= #[trigger] prev[i].now_epoch_ms by {
                    assert(prev[i] == polls[i]);
                }
            }
        }
        lemma_run_persisted_in_order(current, prev);
        lemma_run_timestamps_carried(current, prev);
        let p = polls.last();
        assert(polls[n] == p);
        // Every timestamp carried by the shorter run is no later than the last poll's.
        assert forall|t: u64| carried_timestamp(current, prev, t) implies t <= p.now_epoch_ms by {
            if !(current matches Some(c) && t == c.timestamp) {
                let i = choose|i: int| 0 <= i < prev.len() && t == #[trigger] prev[i].now_epoch_ms;
                assert(prev[i] == polls[i]);
            }
        }
        let ps = run(current, polls).1;
        let pps = run(current, prev).1;
        assert forall|k: int| 0 <= k < pps.len() implies (#[trigger] pps[k]).record.timestamp
            <= p.now_epoch_ms by {
            assert(carried_timestamp(current, prev, pps[k].record.timestamp));
        }
        if let Some(r0) = run(current, prev).0 {
            assert(carried_timestamp(current, prev, r0.timestamp));
        }
        assert forall|a: int, b: int| 0 <= a <= b < ps.len() implies (#[trigger] ps[a]).record.timestamp
            <= (#[trigger] ps[b]).record.timestamp by {
            if b < pps.len() {
                assert(ps[a] == pps[a] && ps[b] == pps[b]);
            } else if a < pps.len() {
                assert(ps[a] == pps[a]);
            }
        }
        if let Some(r) = run(current, polls).0 {
            assert forall|k: int| 0 <= k < ps.len() implies (#[trigger] ps[k]).record.timestamp
                <= r.timestamp by {
                if k < pps.len() {
                    assert(ps[k] == pps[k]);
                }
            }
        }
    }
}

/// Sets the record's duration to `now - start_time` (both in the same unit);
/// the other fields are unchanged.
pub fn flush_record(record: &mut WindowRecord, now: u64)
    requires
        now >= old(record).start_time,
    ensures
        *final(record) == (WindowRecord { duration: (now - old(record).start_time) as u64, ..*old(record) }),
{
    record.duration = now - record.start_time;
}

/// Declares `std::time::SystemTime`, held opaquely.
#[verifier::external_type_specification]
#[verifier::external_body]
pub struct ExSystemTime(SystemTime);

/// Declares `std::time::SystemTimeError`, held opaquely.
#[verifier::external_type_specification]
#[verifier::external_body]
pub struct ExSystemTimeError(SystemTimeError);

/// Calls `SystemTime::now`; the current wall-clock time, of which nothing is
/// stated.
#[verifier::external_body]
fn system_now() -> SystemTime {
    SystemTime::now()
}

/// Calls `SystemTime::duration_since` with the Unix epoch; an error when the
/// clock reads earlier than the epoch. Nothing more is stated.
#[verifier::external_body]
fn since_unix_epoch(t: &SystemTime) -> Result<Duration, SystemTimeError> {
    t.duration_since(std::time::UNIX_EPOCH)
}

/// Calls `Duration::as_secs`; nothing is stated of the value.
#[verifier::external_body]
fn whole_secs(d: &Duration) -> u64 {
    d.as_secs()
}

/// Whole seconds since the Unix epoch on the wall clock, or `None` when the
/// clock reads earlier than the epoch. Both the value and whether there is
/// one are decided by the clock, so no clause states them.
pub fn now_secs() -> Option<u64> {
    let t = system_now();
    match since_unix_epoch(&t) {
        Ok(d) => Some(whole_secs(&d)),
        Err(_) => None,
    }
}

} // verus!
