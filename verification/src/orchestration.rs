//! Schedule orchestration: diffing two snapshots of a game's schedules into
//! registration, firing and removal events.
use vstd::prelude::*;
use crate::text;

verus! {

/// State of one schedule as last reported by the game.
#[derive(Debug, Clone, Copy, PartialEq, Eq, Structural)]
pub struct ScheduleSnapshot {
    pub execution_count: u64,
    pub period_ticks: u64,
    pub next_run_in: u64,
}

/// A lifecycle or firing event of one schedule.
#[derive(Debug, Clone, PartialEq)]
pub enum ScheduleEvent {
    Registered { name: String, period_ticks: u64 },
    Removed { name: String },
    Fired { name: String, execution_count: u64, next_run_in: u64 },
}

/// Model of an event.
pub enum EventView {
    Registered { name: Seq<char>, period_ticks: u64 },
    Removed { name: Seq<char> },
    Fired { name: Seq<char>, execution_count: u64, next_run_in: u64 },
}

impl View for ScheduleEvent {
    type V = EventView;

    open spec fn view(&self) -> EventView {
        match self {
            ScheduleEvent::Registered { name, period_ticks } => EventView::Registered {
                name: name@,
                period_ticks: *period_ticks,
            },
            ScheduleEvent::Removed { name } => EventView::Removed { name: name@ },
            ScheduleEvent::Fired { name, execution_count, next_run_in } => EventView::Fired {
                name: name@,
                execution_count: *execution_count,
                next_run_in: *next_run_in,
            },
        }
    }
}

/// Model of a snapshot set: (schedule name, state) rows.
pub type Snapshots = Seq<(Seq<char>, ScheduleSnapshot)>;

pub open spec fn snapshots_view(v: Seq<(String, ScheduleSnapshot)>) -> Snapshots {
    v.map_values(|p: (String, ScheduleSnapshot)| (p.0@, p.1))
}

pub open spec fn events_view(v: Seq<ScheduleEvent>) -> Seq<EventView> {
    v.map_values(|e: ScheduleEvent| e@)
}

/// The state recorded for `name` (its first row).
pub open spec fn state_of(s: Snapshots, name: Seq<char>) -> Option<ScheduleSnapshot>
    decreases s.len(),
{
    if s.len() == 0 {
        None
    } else if s[0].0 == name {
        Some(s[0].1)
    } else {
        state_of(s.drop_first(), name)
    }
}

/// Registrations: the schedules of `cur` that `prev` lacks, in `cur` order.
pub open spec fn registrations(prev: Snapshots, cur: Snapshots) -> Seq<EventView>
    decreases cur.len(),
{
    if cur.len() == 0 {
        Seq::empty()
    } else {
        let r = cur.last();
        registrations(prev, cur.drop_last()) + if state_of(prev, r.0) is None {
            seq![EventView::Registered { name: r.0, period_ticks: r.1.period_ticks }]
        } else {
            Seq::empty()
        }
    }
}

/// Firings: the schedules of `cur` whose execution count grew since `prev`.
pub open spec fn firings(prev: Snapshots, cur: Snapshots) -> Seq<EventView>
    decreases cur.len(),
{
    if cur.len() == 0 {
        Seq::empty()
    } else {
        let r = cur.last();
        firings(prev, cur.drop_last()) + match state_of(prev, r.0) {
            Some(old) => if r.1.execution_count > old.execution_count {
                seq![
                    EventView::Fired {
                        name: r.0,
                        execution_count: r.1.execution_count,
                        next_run_in: r.1.next_run_in,
                    },
                ]
            } else {
                Seq::empty()
            },
            None => Seq::empty(),
        }
    }
}

/// Removals: the schedules of `prev` that `cur` lacks, in `prev` order.
pub open spec fn removals(prev: Snapshots, cur: Snapshots) -> Seq<EventView>
    decreases prev.len(),
{
    if prev.len() == 0 {
        Seq::empty()
    } else {
        let r = prev.last();
        removals(prev.drop_last(), cur) + if state_of(cur, r.0) is None {
            seq![EventView::Removed { name: r.0 }]
        } else {
            Seq::empty()
        }
    }
}

/// The events between two snapshots: registrations, then firings, then
/// removals, so that consumers see setup, activity, then teardown.
pub open spec fn schedule_diff(prev: Snapshots, cur: Snapshots) -> Seq<EventView> {
    registrations(prev, cur) + firings(prev, cur) + removals(prev, cur)
}

fn find_state(s: &Vec<(String, ScheduleSnapshot)>, name: &String) -> (r: Option<ScheduleSnapshot>)
    ensures
        r == state_of(snapshots_view(s@), name@),
{
    let ghost v = snapshots_view(s@);
    let mut i: usize = 0;
    assert(v.skip(0) =~= v);
    while i < s.len()
        invariant
            i <= s@.len(),
            v == snapshots_view(s@),
            state_of(v, name@) == state_of(v.skip(i as int), name@),
        decreases s@.len() - i,
    {
        assert(v.skip(i as int)[0] == (s@[i as int].0@, s@[i as int].1));
        assert(v.skip(i as int).drop_first() =~= v.skip(i + 1));
        if text::str_eq(s[i].0.as_str(), name.as_str()) {
            return Some(s[i].1);
        }
        i += 1;
    }
    None
}

/// Diffs two schedule snapshots (rows in report order, each schedule named
/// once) into events: registrations, then firings, then removals.
pub fn diff_schedules(
    prev: &Vec<(String, ScheduleSnapshot)>,
    current: &Vec<(String, ScheduleSnapshot)>,
) -> (events: Vec<ScheduleEvent>)
    requires
        names_unique(snapshots_view(prev@)),
        names_unique(snapshots_view(current@)),
    ensures
        events_view(events@) == schedule_diff(snapshots_view(prev@), snapshots_view(current@)),
{
    let ghost pv = snapshots_view(prev@);
    let ghost cv = snapshots_view(current@);
    let mut events: Vec<ScheduleEvent> = Vec::new();
    let mut i: usize = 0;
    assert(cv.take(0) =~= Seq::<(Seq<char>, ScheduleSnapshot)>::empty());
    assert(events_view(events@) =~= Seq::<EventView>::empty());
    while i < current.len()
        invariant
            i <= current@.len(),
            pv == snapshots_view(prev@),
            cv == snapshots_view(current@),
            events_view(events@) == registrations(pv, cv.take(i as int)),
        decreases current@.len() - i,
    {
        assert(cv.take(i + 1).drop_last() =~= cv.take(i as int));
        assert(cv.take(i + 1).last() == (current@[i as int].0@, current@[i as int].1));
        let ghost before = events_view(events@);
        if find_state(prev, &current[i].0).is_none() {
            events.push(ScheduleEvent::Registered { name: current[i].0.clone(), period_ticks: current[i].1.period_ticks });
            assert(events_view(events@) =~= before + seq![
                EventView::Registered { name: current@[i as int].0@, period_ticks: current@[i as int].1.period_ticks },
            ]);
        } else {
            assert(events_view(events@) =~= before + Seq::<EventView>::empty());
        }
        i += 1;
    }
    assert(cv.take(i as int) =~= cv);
    let ghost regs = events_view(events@);
    let mut j: usize = 0;
    assert(regs + firings(pv, cv.take(0)) =~= regs);
    while j < current.len()
        invariant
            j <= current@.len(),
            pv == snapshots_view(prev@),
            cv == snapshots_view(current@),
            events_view(events@) == regs + firings(pv, cv.take(j as int)),
        decreases current@.len() - j,
    {
        assert(cv.take(j + 1).drop_last() =~= cv.take(j as int));
        assert(cv.take(j + 1).last() == (current@[j as int].0@, current@[j as int].1));
        let ghost before = events_view(events@);
        let cur = current[j].1;
        match find_state(prev, &current[j].0) {
            Some(old) => {
                if cur.execution_count > old.execution_count {
                    events.push(
                        ScheduleEvent::Fired {
                            name: current[j].0.clone(),
                            execution_count: cur.execution_count,
                            next_run_in: cur.next_run_in,
                        },
                    );
                    assert(events_view(events@) =~= before + seq![
                        EventView::Fired {
                            name: current@[j as int].0@,
                            execution_count: cur.execution_count,
                            next_run_in: cur.next_run_in,
                        },
                    ]);
                } else {
                    assert(events_view(events@) =~= before + Seq::<EventView>::empty());
                }
            },
            None => {
                assert(events_view(events@) =~= before + Seq::<EventView>::empty());
            },
        }
        j += 1;
    }
    assert(cv.take(j as int) =~= cv);
    let ghost acts = events_view(events@);
    let mut k: usize = 0;
    assert(pv.take(0) =~= Seq::<(Seq<char>, ScheduleSnapshot)>::empty());
    assert(acts + removals(pv.take(0), cv) =~= acts);
    while k < prev.len()
        invariant
            k <= prev@.len(),
            pv == snapshots_view(prev@),
            cv == snapshots_view(current@),
            events_view(events@) == acts + removals(pv.take(k as int), cv),
        decreases prev@.len() - k,
    {
        assert(pv.take(k + 1).drop_last() =~= pv.take(k as int));
        assert(pv.take(k + 1).last() == (prev@[k as int].0@, prev@[k as int].1));
        let ghost before = events_view(events@);
        if find_state(current, &prev[k].0).is_none() {
            events.push(ScheduleEvent::Removed { name: prev[k].0.clone() });
            assert(events_view(events@) =~= before + seq![EventView::Removed { name: prev@[k as int].0@ }]);
        } else {
            assert(events_view(events@) =~= before + Seq::<EventView>::empty());
        }
        k += 1;
    }
    assert(pv.take(k as int) =~= pv);
    events
}

// ---------------------------------------------------------------------------
// Laws
// ---------------------------------------------------------------------------

proof fn lemma_state_of_mem(s: Snapshots, i: int)
    requires
        0 <= i < s.len(),
    ensures
        state_of(s, s[i].0) is Some,
    decreases i,
{
    if i > 0 && s[0].0 != s[i].0 {
        lemma_state_of_mem(s.drop_first(), i - 1);
    }
}

proof fn lemma_no_registrations(s: Snapshots, t: Snapshots)
    requires
        forall|i: int| 0 <= i < t.len() ==> state_of(s, #[trigger] t[i].0) is Some,
    ensures
        registrations(s, t) == Seq::<EventView>::empty(),
    decreases t.len(),
{
    if t.len() > 0 {
        assert(t.last() == t[t.len() - 1]);
        lemma_no_registrations(s, t.drop_last());
    }
}

proof fn lemma_no_removals(s: Snapshots, t: Snapshots)
    requires
        forall|i: int| 0 <= i < s.len() ==> state_of(t, #[trigger] s[i].0) is Some,
    ensures
        removals(s, t) == Seq::<EventView>::empty(),
    decreases s.len(),
{
    if s.len() > 0 {
        assert(s.last() == s[s.len() - 1]);
        lemma_no_removals(s.drop_last(), t);
    }
}

proof fn lemma_state_of_first(s: Snapshots, i: int)
    requires
        0 <= i < s.len(),
        forall|a: int, b: int| 0 <= a < b < s.len() ==> s[a].0 != s[b].0,
    ensures
        state_of(s, s[i].0) == Some(s[i].1),
    decreases i,
{
    if i > 0 {
        assert(s[0].0 != s[i].0);
        lemma_state_of_first(s.drop_first(), i - 1);
    }
}

proof fn lemma_no_firings(s: Snapshots, t: Snapshots)
    requires
        forall|i: int| 0 <= i < t.len() ==> (state_of(s, #[trigger] t[i].0) matches Some(o) && t[i].1.execution_count <= o.execution_count),
    ensures
        firings(s, t) == Seq::<EventView>::empty(),
    decreases t.len(),
{
    if t.len() > 0 {
        assert(t.last() == t[t.len() - 1]);
        lemma_no_firings(s, t.drop_last());
    }
}

/// Two equal snapshots (each schedule named once) produce no event.
pub proof fn law_unchanged_snapshot_is_quiet(s: Snapshots)
    requires
        forall|a: int, b: int| 0 <= a < b < s.len() ==> s[a].0 != s[b].0,
    ensures
        schedule_diff(s, s) == Seq::<EventView>::empty(),
{
    assert forall|i: int| 0 <= i < s.len() implies state_of(s, #[trigger] s[i].0) is Some by {
        lemma_state_of_mem(s, i);
    }
    assert forall|i: int| 0 <= i < s.len() implies (state_of(s, #[trigger] s[i].0) matches Some(o)
        && s[i].1.execution_count <= o.execution_count) by {
        lemma_state_of_first(s, i);
    }
    lemma_no_registrations(s, s);
    lemma_no_removals(s, s);
    lemma_no_firings(s, s);
    assert(Seq::<EventView>::empty() + Seq::<EventView>::empty() + Seq::<EventView>::empty() =~= Seq::<
        EventView,
    >::empty());
}

/// `e` announces the registration of a schedule of `cur` that `prev` lacks.
pub open spec fn registers(prev: Snapshots, cur: Snapshots, e: EventView) -> bool {
    exists|i: int|
        0 <= i < cur.len() && state_of(prev, cur[i].0) is None && e == (EventView::Registered {
            name: #[trigger] cur[i].0,
            period_ticks: cur[i].1.period_ticks,
        })
}

/// `e` announces that a schedule of `cur` ran since `prev`.
pub open spec fn fires(prev: Snapshots, cur: Snapshots, e: EventView) -> bool {
    exists|i: int|
        0 <= i < cur.len() && (state_of(prev, cur[i].0) matches Some(o) && cur[i].1.execution_count
            > o.execution_count) && e == (EventView::Fired {
            name: #[trigger] cur[i].0,
            execution_count: cur[i].1.execution_count,
            next_run_in: cur[i].1.next_run_in,
        })
}

/// `e` announces the removal of a schedule of `prev` that `cur` lacks.
pub open spec fn removes(prev: Snapshots, cur: Snapshots, e: EventView) -> bool {
    exists|i: int| 0 <= i < prev.len() && state_of(cur, prev[i].0) is None && e == (EventView::Removed { name: #[trigger] prev[i].0 })
}

/// Rank of an event kind in the diff order.
pub open spec fn kind_rank(e: EventView) -> int {
    match e {
        EventView::Registered { .. } => 0,
        EventView::Fired { .. } => 1,
        EventView::Removed { .. } => 2,
    }
}

proof fn lemma_registrations_exact(prev: Snapshots, cur: Snapshots)
    ensures
        forall|e: EventView|
            #![trigger registrations(prev, cur).contains(e)]
            #![trigger registers(prev, cur, e)]
            registrations(prev, cur).contains(e) <==> registers(prev, cur, e),
        forall|k: int| 0 <= k < registrations(prev, cur).len() ==> kind_rank(#[trigger] registrations(prev, cur)[k]) == 0,
    decreases cur.len(),
{
    broadcast use vstd::seq_lib::group_seq_properties;
    if cur.len() > 0 {
        let c = cur.drop_last();
        lemma_registrations_exact(prev, c);
        let r = cur.last();
        let tail = if state_of(prev, r.0) is None {
            seq![EventView::Registered { name: r.0, period_ticks: r.1.period_ticks }]
        } else {
            Seq::empty()
        };
        assert(registrations(prev, cur) == registrations(prev, c) + tail);
        assert forall|e: EventView| registrations(prev, cur).contains(e) implies registers(prev, cur, e) by {
            if registrations(prev, c).contains(e) {
                assert(registers(prev, c, e));
                let i = choose|i: int| 0 <= i < c.len() && state_of(prev, c[i].0) is None && e == (EventView::Registered {
                    name: #[trigger] c[i].0,
                    period_ticks: c[i].1.period_ticks,
                });
                assert(cur[i] == c[i]);
            } else {
                assert(tail.contains(e));
                assert(cur[cur.len() - 1] == r);
            }
        }
        assert forall|e: EventView| registers(prev, cur, e) implies registrations(prev, cur).contains(e) by {
            let i = choose|i: int| 0 <= i < cur.len() && state_of(prev, cur[i].0) is None && e == (EventView::Registered {
                name: #[trigger] cur[i].0,
                period_ticks: cur[i].1.period_ticks,
            });
            if i < c.len() {
                assert(c[i] == cur[i]);
                assert(registers(prev, c, e));
            } else {
                assert(tail[0] == e);
            }
        }
        assert forall|k: int| 0 <= k < registrations(prev, cur).len() implies kind_rank(
            #[trigger] registrations(prev, cur)[k],
        ) == 0 by {
            if k >= registrations(prev, c).len() {
                assert(registrations(prev, cur)[k] == tail[k - registrations(prev, c).len()]);
            } else {
                assert(registrations(prev, cur)[k] == registrations(prev, c)[k]);
            }
        }
    }
}

proof fn lemma_firings_exact(prev: Snapshots, cur: Snapshots)
    ensures
        forall|e: EventView|
            #![trigger firings(prev, cur).contains(e)]
            #![trigger fires(prev, cur, e)]
            firings(prev, cur).contains(e) <==> fires(prev, cur, e),
        forall|k: int| 0 <= k < firings(prev, cur).len() ==> kind_rank(#[trigger] firings(prev, cur)[k]) == 1,
    decreases cur.len(),
{
    broadcast use vstd::seq_lib::group_seq_properties;
    if cur.len() > 0 {
        let c = cur.drop_last();
        lemma_firings_exact(prev, c);
        let r = cur.last();
        let tail = match state_of(prev, r.0) {
            Some(old) => if r.1.execution_count > old.execution_count {
                seq![EventView::Fired { name: r.0, execution_count: r.1.execution_count, next_run_in: r.1.next_run_in }]
            } else {
                Seq::empty()
            },
            None => Seq::empty(),
        };
        assert(firings(prev, cur) == firings(prev, c) + tail);
        assert forall|e: EventView| firings(prev, cur).contains(e) implies fires(prev, cur, e) by {
            if firings(prev, c).contains(e) {
                assert(fires(prev, c, e));
                let i = choose|i: int|
                    0 <= i < c.len() && (state_of(prev, c[i].0) matches Some(o) && c[i].1.execution_count
                        > o.execution_count) && e == (EventView::Fired {
                        name: #[trigger] c[i].0,
                        execution_count: c[i].1.execution_count,
                        next_run_in: c[i].1.next_run_in,
                    });
                assert(cur[i] == c[i]);
            } else {
                assert(tail.contains(e));
                assert(cur[cur.len() - 1] == r);
            }
        }
        assert forall|e: EventView| fires(prev, cur, e) implies firings(prev, cur).contains(e) by {
            let i = choose|i: int|
                0 <= i < cur.len() && (state_of(prev, cur[i].0) matches Some(o) && cur[i].1.execution_count
                    > o.execution_count) && e == (EventView::Fired {
                    name: #[trigger] cur[i].0,
                    execution_count: cur[i].1.execution_count,
                    next_run_in: cur[i].1.next_run_in,
                });
            if i < c.len() {
                assert(c[i] == cur[i]);
                assert(fires(prev, c, e));
            } else {
                assert(tail[0] == e);
            }
        }
        assert forall|k: int| 0 <= k < firings(prev, cur).len() implies kind_rank(#[trigger] firings(prev, cur)[k]) == 1 by {
            if k >= firings(prev, c).len() {
                assert(firings(prev, cur)[k] == tail[k - firings(prev, c).len()]);
            } else {
                assert(firings(prev, cur)[k] == firings(prev, c)[k]);
            }
        }
    }
}

proof fn lemma_removals_exact(prev: Snapshots, cur: Snapshots)
    ensures
        forall|e: EventView|
            #![trigger removals(prev, cur).contains(e)]
            #![trigger removes(prev, cur, e)]
            removals(prev, cur).contains(e) <==> removes(prev, cur, e),
        forall|k: int| 0 <= k < removals(prev, cur).len() ==> kind_rank(#[trigger] removals(prev, cur)[k]) == 2,
    decreases prev.len(),
{
    broadcast use vstd::seq_lib::group_seq_properties;
    if prev.len() > 0 {
        let p = prev.drop_last();
        lemma_removals_exact(p, cur);
        let r = prev.last();
        let tail = if state_of(cur, r.0) is None {
            seq![EventView::Removed { name: r.0 }]
        } else {
            Seq::empty()
        };
        assert(removals(prev, cur) == removals(p, cur) + tail);
        assert forall|e: EventView| removals(prev, cur).contains(e) implies removes(prev, cur, e) by {
            if removals(p, cur).contains(e) {
                assert(removes(p, cur, e));
                let i = choose|i: int| 0 <= i < p.len() && state_of(cur, p[i].0) is None && e == (EventView::Removed {
                    name: #[trigger] p[i].0,
                });
                assert(prev[i] == p[i]);
            } else {
                assert(tail.contains(e));
                assert(prev[prev.len() - 1] == r);
            }
        }
        assert forall|e: EventView| removes(prev, cur, e) implies removals(prev, cur).contains(e) by {
            let i = choose|i: int| 0 <= i < prev.len() && state_of(cur, prev[i].0) is None && e == (EventView::Removed {
                name: #[trigger] prev[i].0,
            });
            if i < p.len() {
                assert(p[i] == prev[i]);
                assert(removes(p, cur, e));
            } else {
                assert(tail[0] == e);
            }
        }
        assert forall|k: int| 0 <= k < removals(prev, cur).len() implies kind_rank(#[trigger] removals(prev, cur)[k]) == 2 by {
            if k >= removals(p, cur).len() {
                assert(removals(prev, cur)[k] == tail[k - removals(p, cur).len()]);
            } else {
                assert(removals(prev, cur)[k] == removals(p, cur)[k]);
            }
        }
    }
}

/// The events between two snapshots are exactly: a registration for each
/// schedule of `cur` that `prev` lacks, a firing (with the new count and
/// next run) for each schedule whose execution count grew, and a removal
/// for each schedule of `prev` that `cur` lacks; all registrations come
/// before all firings, which come before all removals.
pub proof fn law_diff_events(prev: Snapshots, cur: Snapshots)
    ensures
        forall|e: EventView|
            schedule_diff(prev, cur).contains(e) <==> (registers(prev, cur, e) || fires(prev, cur, e) || removes(
                prev,
                cur,
                e,
            )),
        forall|a: int, b: int|
            0 <= a < b < schedule_diff(prev, cur).len() ==> kind_rank(#[trigger] schedule_diff(prev, cur)[a])
                <= kind_rank(#[trigger] schedule_diff(prev, cur)[b]),
{
    broadcast use vstd::seq_lib::group_seq_properties;
    lemma_registrations_exact(prev, cur);
    lemma_firings_exact(prev, cur);
    lemma_removals_exact(prev, cur);
    let r = registrations(prev, cur);
    let f = firings(prev, cur);
    let m = removals(prev, cur);
    let d = schedule_diff(prev, cur);
    assert(d == r + f + m);
    assert forall|k: int| 0 <= k < d.len() implies kind_rank(#[trigger] d[k]) == if k < r.len() {
        0int
    } else if k < r.len() + f.len() {
        1int
    } else {
        2int
    } by {
        if k < r.len() {
            assert(d[k] == r[k]);
        } else if k < r.len() + f.len() {
            assert(d[k] == f[k - r.len()]);
        } else {
            assert(d[k] == m[k - r.len() - f.len()]);
        }
    }
}

// ---------------------------------------------------------------------------
// Snapshots from a status report
// ---------------------------------------------------------------------------

/// Whether a row of `rows` is named `name`.
pub open spec fn has_row(rows: Snapshots, name: Seq<char>) -> bool {
    exists|i: int| 0 <= i < rows.len() && #[trigger] rows[i].0 == name
}

/// No name occurs in two rows.
pub open spec fn names_unique(rows: Snapshots) -> bool {
    forall|i: int, j: int| 0 <= i < j < rows.len() ==> #[trigger] rows[i].0 != #[trigger] rows[j].0
}

/// `rows` with the state of `name` set to `s`: its row replaced in place,
/// or a new row at the end.
pub open spec fn upsert(rows: Snapshots, name: Seq<char>, s: ScheduleSnapshot) -> Snapshots {
    if has_row(rows, name) {
        rows.update(choose|i: int| 0 <= i < rows.len() && #[trigger] rows[i].0 == name, (name, s))
    } else {
        rows.push((name, s))
    }
}

/// Model of the entries of a report: (name if it has one, state).
pub open spec fn entries_view(v: Seq<(Option<String>, ScheduleSnapshot)>) -> Seq<(Option<Seq<char>>, ScheduleSnapshot)> {
    v.map_values(
        |p: (Option<String>, ScheduleSnapshot)|
            (
                match p.0 {
                    Some(n) => Some(n@),
                    None => None,
                },
                p.1,
            ),
    )
}

/// The snapshot of a report's entries: entries without a name are skipped,
/// and a name reported again takes its later state.
pub open spec fn rows_of(entries: Seq<(Option<Seq<char>>, ScheduleSnapshot)>) -> Snapshots
    decreases entries.len(),
{
    if entries.len() == 0 {
        Seq::empty()
    } else {
        let r = rows_of(entries.drop_last());
        match entries.last().0 {
            Some(n) => upsert(r, n, entries.last().1),
            None => r,
        }
    }
}

fn row_position(rows: &Vec<(String, ScheduleSnapshot)>, name: &str) -> (r: Option<usize>)
    ensures
        match r {
            Some(i) => i < rows@.len() && snapshots_view(rows@)[i as int].0 == name@,
            None => !has_row(snapshots_view(rows@), name@),
        },
{
    let ghost v = snapshots_view(rows@);
    let mut i: usize = 0;
    while i < rows.len()
        invariant
            i <= rows@.len(),
            v == snapshots_view(rows@),
            forall|k: int| 0 <= k < i ==> #[trigger] v[k].0 != name@,
        decreases rows@.len() - i,
    {
        if text::str_eq(rows[i].0.as_str(), name) {
            return Some(i);
        }
        i += 1;
    }
    None
}

/// The snapshot rows of a report's schedule entries, one row per name.
pub fn snapshot_rows(entries: Vec<(Option<String>, ScheduleSnapshot)>) -> (r: Vec<(String, ScheduleSnapshot)>)
    ensures
        snapshots_view(r@) == rows_of(entries_view(entries@)),
        names_unique(snapshots_view(r@)),
{
    let ghost ev = entries_view(entries@);
    let mut out: Vec<(String, ScheduleSnapshot)> = Vec::new();
    let mut k: usize = 0;
    assert(ev.take(0) =~= Seq::<(Option<Seq<char>>, ScheduleSnapshot)>::empty());
    assert(snapshots_view(out@) =~= Seq::<(Seq<char>, ScheduleSnapshot)>::empty());
    while k < entries.len()
        invariant
            k <= entries@.len(),
            ev == entries_view(entries@),
            snapshots_view(out@) == rows_of(ev.take(k as int)),
            names_unique(snapshots_view(out@)),
        decreases entries@.len() - k,
    {
        assert(ev.take(k + 1).drop_last() =~= ev.take(k as int));
        let ghost before = snapshots_view(out@);
        let state = entries[k].1;
        match &entries[k].0 {
            Some(n) => {
                match row_position(&out, n.as_str()) {
                    Some(i) => {
                        proof {
                            let c = choose|j: int| 0 <= j < before.len() && #[trigger] before[j].0 == n@;
                            assert(before[i as int].0 == n@);
                            assert(has_row(before, n@));
                            assert(c == i as int);
                        }
                        out.set(i, (n.clone(), state));
                        assert(snapshots_view(out@) =~= before.update(i as int, (n@, state)));
                    },
                    None => {
                        out.push((n.clone(), state));
                        assert(snapshots_view(out@) =~= before.push((n@, state)));
                    },
                }
            },
            None => {},
        }
        k += 1;
    }
    assert(ev.take(k as int) =~= ev);
    out
}

// ---------------------------------------------------------------------------
// The watcher's step
// ---------------------------------------------------------------------------

/// What one poll of a game's schedules found.
pub enum ScheduleObservation {
    /// The game (or its instance) cannot be reached.
    Unreachable,
    /// The status request failed this time (a menu screen, a tick hitch).
    StatusFailed,
    /// The game's control mod has no schedule support.
    Unsupported,
    /// The schedules reported, as (name, state) rows.
    Reported(Vec<(String, ScheduleSnapshot)>),
}

/// The events that announce every schedule of `cur` as registered.
pub open spec fn all_registered(cur: Snapshots) -> Seq<EventView>
    decreases cur.len(),
{
    if cur.len() == 0 {
        Seq::empty()
    } else {
        all_registered(cur.drop_last()) + seq![
            EventView::Registered { name: cur.last().0, period_ticks: cur.last().1.period_ticks },
        ]
    }
}

/// One poll of the watcher for one game: the snapshot it keeps and the
/// events to broadcast. An unreachable game's snapshot is forgotten (so a
/// new session registers its schedules again); a failed or unsupported
/// poll keeps the snapshot and says nothing; a report is diffed against
/// the snapshot and replaces it.
pub fn watch_step(prev: Vec<(String, ScheduleSnapshot)>, observation: ScheduleObservation) -> (r: (
    Vec<(String, ScheduleSnapshot)>,
    Vec<ScheduleEvent>,
))
    requires
        names_unique(snapshots_view(prev@)),
        observation matches ScheduleObservation::Reported(cur) ==> names_unique(snapshots_view(cur@)),
    ensures
        names_unique(snapshots_view(r.0@)),
        match observation {
            ScheduleObservation::Unreachable => r.0@.len() == 0 && r.1@.len() == 0,
            ScheduleObservation::StatusFailed => r.0@ == prev@ && r.1@.len() == 0,
            ScheduleObservation::Unsupported => r.0@ == prev@ && r.1@.len() == 0,
            ScheduleObservation::Reported(cur) => r.0@ == cur@ && events_view(r.1@) == schedule_diff(
                snapshots_view(prev@),
                snapshots_view(cur@),
            ),
        },
{
    match observation {
        ScheduleObservation::Unreachable => (Vec::new(), Vec::new()),
        ScheduleObservation::StatusFailed => (prev, Vec::new()),
        ScheduleObservation::Unsupported => (prev, Vec::new()),
        ScheduleObservation::Reported(cur) => {
            let events = diff_schedules(&prev, &cur);
            (cur, events)
        },
    }
}

/// After a game's snapshot was forgotten, its next report announces every
/// schedule it has as registered, in report order, and nothing else.
pub proof fn law_new_session_registers_all(cur: Snapshots)
    ensures
        schedule_diff(Seq::empty(), cur) == all_registered(cur),
    decreases cur.len(),
{
    let e = Seq::<(Seq<char>, ScheduleSnapshot)>::empty();
    if cur.len() > 0 {
        law_new_session_registers_all(cur.drop_last());
        assert(state_of(e, cur.last().0) is None);
        assert(firings(e, cur) == firings(e, cur.drop_last()));
        assert(registrations(e, cur) == registrations(e, cur.drop_last()) + seq![
            EventView::Registered { name: cur.last().0, period_ticks: cur.last().1.period_ticks },
        ]);
        assert(removals(e, cur) == Seq::<EventView>::empty());
        assert(removals(e, cur.drop_last()) == Seq::<EventView>::empty());
        assert(firings(e, cur.drop_last()) + removals(e, cur.drop_last()) =~= Seq::<EventView>::empty()) by {
            lemma_no_firings_from_empty(cur.drop_last());
        }
        lemma_no_firings_from_empty(cur);
        assert(schedule_diff(e, cur) =~= all_registered(cur));
    } else {
        assert(schedule_diff(e, cur) =~= Seq::<EventView>::empty());
    }
}

proof fn lemma_no_firings_from_empty(cur: Snapshots)
    ensures
        firings(Seq::empty(), cur) == Seq::<EventView>::empty(),
    decreases cur.len(),
{
    if cur.len() > 0 {
        lemma_no_firings_from_empty(cur.drop_last());
        assert(firings(Seq::empty(), cur) =~= Seq::<EventView>::empty());
    }
}

} // verus!
