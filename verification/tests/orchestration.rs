use mcdebug_launcher::orchestration::{diff_schedules, snapshot_rows, watch_step, ScheduleEvent, ScheduleObservation, ScheduleSnapshot};

fn snap(count: u64, period: u64, next: u64) -> ScheduleSnapshot {
    ScheduleSnapshot { execution_count: count, period_ticks: period, next_run_in: next }
}

#[test]
fn test_diff_schedules_lifecycle() {
    let empty: Vec<(String, ScheduleSnapshot)> = Vec::new();
    let one = vec![("hb".to_string(), snap(0, 100, 100))];

    let evs = diff_schedules(&empty, &one);
    assert_eq!(evs, vec![ScheduleEvent::Registered { name: "hb".into(), period_ticks: 100 }]);

    let fired = vec![("hb".to_string(), snap(3, 100, 42))];
    let evs = diff_schedules(&one, &fired);
    assert_eq!(evs, vec![ScheduleEvent::Fired { name: "hb".into(), execution_count: 3, next_run_in: 42 }]);

    assert!(diff_schedules(&fired, &fired).is_empty());

    let evs = diff_schedules(&fired, &empty);
    assert_eq!(evs, vec![ScheduleEvent::Removed { name: "hb".into() }]);
}

#[test]
fn diff_orders_registrations_then_firings_then_removals() {
    let prev = vec![("old".to_string(), snap(1, 20, 5)), ("hb".to_string(), snap(1, 20, 5))];
    let cur = vec![("hb".to_string(), snap(2, 20, 20)), ("new".to_string(), snap(0, 40, 40))];
    let evs = diff_schedules(&prev, &cur);
    assert_eq!(
        evs,
        vec![
            ScheduleEvent::Registered { name: "new".into(), period_ticks: 40 },
            ScheduleEvent::Fired { name: "hb".into(), execution_count: 2, next_run_in: 20 },
            ScheduleEvent::Removed { name: "old".into() },
        ]
    );
}

#[test]
fn watcher_steps() {
    let sn = |c: u64| snap(c, 40, 10);
    let prev = vec![("hb".to_string(), sn(1))];
    let (kept, ev) = watch_step(prev.clone(), ScheduleObservation::StatusFailed);
    assert_eq!(kept, prev);
    assert!(ev.is_empty());
    let (kept, ev) = watch_step(prev.clone(), ScheduleObservation::Unsupported);
    assert_eq!(kept, prev);
    assert!(ev.is_empty());
    let (kept, ev) = watch_step(prev.clone(), ScheduleObservation::Unreachable);
    assert!(kept.is_empty() && ev.is_empty());
    // A new session re-registers its schedules.
    let cur = vec![("hb".to_string(), sn(0)), ("tick".to_string(), sn(0))];
    let (kept, ev) = watch_step(kept, ScheduleObservation::Reported(cur.clone()));
    assert_eq!(kept, cur);
    assert_eq!(
        ev,
        vec![
            ScheduleEvent::Registered { name: "hb".to_string(), period_ticks: 40 },
            ScheduleEvent::Registered { name: "tick".to_string(), period_ticks: 40 },
        ]
    );
    let (_, ev) = watch_step(cur, ScheduleObservation::Reported(vec![("hb".to_string(), sn(1))]));
    assert_eq!(
        ev,
        vec![
            ScheduleEvent::Fired { name: "hb".to_string(), execution_count: 1, next_run_in: 10 },
            ScheduleEvent::Removed { name: "tick".to_string() },
        ]
    );
}

#[test]
fn snapshot_rows_skip_unnamed_and_keep_latest_state() {
    let entries = vec![
        (Some("a".to_string()), snap(1, 20, 5)),
        (None, snap(9, 9, 9)),
        (Some("b".to_string()), snap(0, 40, 40)),
        (Some("a".to_string()), snap(2, 20, 20)),
    ];
    let rows = snapshot_rows(entries);
    assert_eq!(rows.len(), 2);
    assert_eq!(rows[0], ("a".to_string(), snap(2, 20, 20)));
    assert_eq!(rows[1], ("b".to_string(), snap(0, 40, 40)));
    assert!(snapshot_rows(Vec::new()).is_empty());
}
