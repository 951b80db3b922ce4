use ghost_time::hook::{flush_record, hook_step, now_secs, WindowRecord};
use ghost_time::idle::IdleStatus;

const MS: u64 = 1_000_000;

fn win(app: &str, title: &str) -> Option<(String, String)> {
    Some((app.to_string(), title.to_string()))
}

#[test]
fn first_window_starts_a_record() {
    let mut cur: Option<WindowRecord> = None;
    let r = hook_step(&mut cur, IdleStatus::Active, win("Code.exe", "main.rs"), 1000, 5 * MS);
    assert!(r.is_none());
    let c = cur.as_ref().unwrap();
    assert_eq!(c.app_name, "Code.exe");
    assert_eq!(c.window_title, "main.rs");
    assert_eq!(c.timestamp, 1000);
    assert_eq!(c.start_time, 5 * MS);
    assert_eq!(c.duration, 0);
}

#[test]
fn switching_window_persists_previous() {
    let mut cur: Option<WindowRecord> = None;
    hook_step(&mut cur, IdleStatus::Active, win("a", "t1"), 1000, 0);
    let r = hook_step(&mut cur, IdleStatus::Active, win("a", "t1"), 1500, 500 * MS);
    assert!(r.is_none());
    let r = hook_step(&mut cur, IdleStatus::ResumedActivity, win("a", "t2"), 3000, 2_000 * MS + 999_999);
    let p = r.unwrap();
    assert!(!p.is_idle);
    assert_eq!(p.record.window_title, "t1");
    assert_eq!(p.record.timestamp, 1000);
    assert_eq!(p.record.duration, 2000);
    assert_eq!(cur.as_ref().unwrap().window_title, "t2");
    assert_eq!(cur.as_ref().unwrap().timestamp, 3000);
}

#[test]
fn going_idle_persists_as_idle() {
    let mut cur: Option<WindowRecord> = None;
    hook_step(&mut cur, IdleStatus::Active, win("a", "t"), 0, 0);
    let r = hook_step(&mut cur, IdleStatus::BecameIdle, win("b", "u"), 10, 7 * MS);
    let p = r.unwrap();
    assert!(p.is_idle);
    assert_eq!(p.record.duration, 7);
    assert!(cur.is_none());
    assert!(hook_step(&mut cur, IdleStatus::StillIdle, win("b", "u"), 20, 9 * MS).is_none());
    assert!(cur.is_none());
    assert!(hook_step(&mut cur, IdleStatus::BecameIdle, None, 20, 9 * MS).is_none());
}

#[test]
fn unknown_window_changes_nothing() {
    let mut cur: Option<WindowRecord> = None;
    hook_step(&mut cur, IdleStatus::Active, win("a", "t"), 0, 0);
    assert!(hook_step(&mut cur, IdleStatus::Active, None, 5, 5 * MS).is_none());
    assert_eq!(cur.as_ref().unwrap().app_name, "a");
}

#[test]
fn app_change_alone_switches() {
    let mut cur: Option<WindowRecord> = None;
    hook_step(&mut cur, IdleStatus::Active, win("a", "t"), 0, 0);
    let p = hook_step(&mut cur, IdleStatus::Active, win("b", "t"), 5, 5 * MS).unwrap();
    assert_eq!(p.record.app_name, "a");
    assert_eq!(cur.as_ref().unwrap().app_name, "b");
}

#[test]
fn flush_sets_duration() {
    let mut rec = WindowRecord {
        timestamp: 1,
        app_name: "a".to_string(),
        window_title: "t".to_string(),
        start_time: 100,
        duration: 0,
    };
    flush_record(&mut rec, 160);
    assert_eq!(rec.duration, 60);
    assert_eq!(rec.start_time, 100);
}

#[test]
fn now_secs_is_after_2020() {
    assert!(now_secs().unwrap() > 1_577_836_800);
}

#[test]
fn a_run_persists_each_record_once_in_order() {
    let mut cur: Option<WindowRecord> = None;
    let mut persisted = Vec::new();
    let polls: Vec<(IdleStatus, Option<(String, String)>)> = vec![
        (IdleStatus::Active, win("a", "1")),
        (IdleStatus::Active, win("a", "1")),
        (IdleStatus::Active, win("a", "2")),
        (IdleStatus::Active, None),
        (IdleStatus::BecameIdle, None),
        (IdleStatus::StillIdle, win("b", "3")),
        (IdleStatus::ResumedActivity, win("b", "3")),
        (IdleStatus::Active, win("c", "4")),
    ];
    let mut opened: usize = 0;
    for (i, (status, window)) in polls.into_iter().enumerate() {
        let t = i as u64;
        let before = cur.as_ref().map(|c| c.timestamp);
        if let Some(p) = hook_step(&mut cur, status, window, 1000 + t, t * MS) {
            persisted.push(p);
        }
        if cur.as_ref().map(|c| c.timestamp) != before && cur.is_some() {
            opened += 1;
        }
    }
    assert_eq!(opened, 4);
    assert_eq!(persisted.len() + 1, opened);
    let stamps: Vec<u64> = persisted.iter().map(|p| p.record.timestamp).collect();
    assert_eq!(stamps, vec![1000, 1002, 1006]);
    let idle: Vec<bool> = persisted.iter().map(|p| p.is_idle).collect();
    assert_eq!(idle, vec![false, true, false]);
    assert_eq!(cur.unwrap().timestamp, 1007);
}
