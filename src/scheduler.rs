//! One tick of the poll loop: each channel of a registry snapshot takes its
//! status check through its live state, and the channels newly seen live are
//! handed out for capture. Task reports come back through `complete`.

use vstd::prelude::*;
use crate::live_state::{
    BroadcastInfo,
    BroadcastView,
    CaptureKind,
    EntityLiveState,
    LiveView,
    Phase,
    ProviderError,
    idle_view,
    lemma_steps_keep_wf,
    live_of,
    live_wf,
    step_observe,
    step_report,
};
use crate::registry::{Streamer, StreamerView, unique_ids};

verus! {

/// A capture pair to start: which channel, and the broadcast seen live.
#[derive(Debug, Clone)]
pub struct Dispatch {
    pub entity_id: i64,
    pub name: String,
    pub broadcast: BroadcastInfo,
}

pub struct DispatchView {
    pub entity_id: i64,
    pub name: Seq<char>,
    pub broadcast: BroadcastView,
}

impl View for Dispatch {
    type V = DispatchView;

    open spec fn view(&self) -> DispatchView {
        DispatchView { entity_id: self.entity_id, name: self.name@, broadcast: self.broadcast@ }
    }
}

/// Index of the last entry for channel `id`, or -1.
pub open spec fn index_of(states: Seq<(i64, LiveView)>, id: i64) -> int
    decreases states.len(),
{
    if states.len() == 0 {
        -1
    } else if states.last().0 == id {
        states.len() - 1
    } else {
        index_of(states.drop_last(), id)
    }
}

proof fn lemma_index_of(states: Seq<(i64, LiveView)>, id: i64)
    ensures
        -1 <= index_of(states, id) < states.len(),
        index_of(states, id) >= 0 ==> states[index_of(states, id)].0 == id,
    decreases states.len(),
{
    if states.len() > 0 && states.last().0 != id {
        lemma_index_of(states.drop_last(), id);
    }
}

/// The live state of channel `id`; idle for a channel not seen yet.
pub open spec fn state_for(states: Seq<(i64, LiveView)>, id: i64) -> LiveView {
    let k = index_of(states, id);
    if k >= 0 {
        states[k].1
    } else {
        idle_view()
    }
}

/// States after a tick: one per channel of the snapshot, in its order, each
/// the previous state of that channel after its status check. Channels that
/// left the registry lose their state.
pub open spec fn tick_states(
    prev: Seq<(i64, LiveView)>,
    snap: Seq<StreamerView>,
    checks: Seq<Result<Option<BroadcastInfo>, ProviderError>>,
) -> Seq<(i64, LiveView)> {
    Seq::new(
        snap.len(),
        |i: int| (snap[i].id, step_observe(state_for(prev, snap[i].id), live_of(checks[i])).0),
    )
}

/// Dispatches of a tick among the first `n` channels of the snapshot, in
/// snapshot order.
pub open spec fn tick_dispatches(
    prev: Seq<(i64, LiveView)>,
    snap: Seq<StreamerView>,
    checks: Seq<Result<Option<BroadcastInfo>, ProviderError>>,
    n: int,
) -> Seq<DispatchView>
    decreases n,
{
    if n <= 0 {
        Seq::empty()
    } else {
        let rest = tick_dispatches(prev, snap, checks, n - 1);
        let i = n - 1;
        if step_observe(state_for(prev, snap[i].id), live_of(checks[i])).1 {
            rest.push(
                DispatchView {
                    entity_id: snap[i].id,
                    name: snap[i].name,
                    broadcast: live_of(checks[i])->Some_0,
                },
            )
        } else {
            rest
        }
    }
}

/// States after the `kind` task of channel `id` reported, and whether the
/// channel went back to idle.
pub open spec fn report_states(
    prev: Seq<(i64, LiveView)>,
    id: i64,
    kind: CaptureKind,
    succeeded: bool,
) -> (Seq<(i64, LiveView)>, bool) {
    let k = index_of(prev, id);
    if k >= 0 {
        let (v, idle_again) = step_report(prev[k].1, kind, succeeded);
        (prev.update(k, (id, v)), idle_again)
    } else {
        (prev, false)
    }
}

/// Every entry is a well-formed live state.
pub open spec fn states_wf(states: Seq<(i64, LiveView)>) -> bool {
    forall|i: int| 0 <= i < states.len() ==> live_wf(#[trigger] states[i].1)
}

/// A tick and a task report keep every live state well formed.
pub proof fn lemma_scheduler_keeps_wf(
    prev: Seq<(i64, LiveView)>,
    snap: Seq<StreamerView>,
    checks: Seq<Result<Option<BroadcastInfo>, ProviderError>>,
    id: i64,
    kind: CaptureKind,
    succeeded: bool,
)
    requires
        states_wf(prev),
        snap.len() == checks.len(),
    ensures
        states_wf(tick_states(prev, snap, checks)),
        states_wf(report_states(prev, id, kind, succeeded).0),
{
    let t = tick_states(prev, snap, checks);
    assert forall|i: int| 0 <= i < t.len() implies live_wf(#[trigger] t[i].1) by {
        let v = state_for(prev, snap[i].id);
        lemma_index_of(prev, snap[i].id);
        lemma_steps_keep_wf(v, live_of(checks[i]), kind, succeeded);
    }
    lemma_index_of(prev, id);
    let k = index_of(prev, id);
    if k >= 0 {
        lemma_steps_keep_wf(prev[k].1, None, kind, succeeded);
        let r = report_states(prev, id, kind, succeeded).0;
        assert forall|i: int| 0 <= i < r.len() implies live_wf(#[trigger] r[i].1) by {
            if i != k {
                assert(r[i] == prev[i]);
            }
        }
    }
}

proof fn lemma_index_of_unique(states: Seq<(i64, LiveView)>, i: int)
    requires
        0 <= i < states.len(),
        forall|a: int, b: int|
            0 <= a < b < states.len() ==> #[trigger] states[a].0 != #[trigger] states[b].0,
    ensures
        index_of(states, states[i].0) == i,
    decreases states.len(),
{
    if i != states.len() - 1 {
        let p = states.drop_last();
        assert(states.last() == states[states.len() - 1]);
        assert forall|a: int, b: int| 0 <= a < b < p.len() implies #[trigger] p[a].0
            != #[trigger] p[b].0 by {
            assert(p[a] == states[a] && p[b] == states[b]);
        }
        lemma_index_of_unique(p, i);
        assert(p[i] == states[i]);
    }
}

/// A channel that a tick dispatched is capturing afterwards, and the next
/// tick, whatever its status check reports, does not dispatch it again
/// unless a task report came between.
pub proof fn lemma_tick_dispatches_once(
    prev: Seq<(i64, LiveView)>,
    snap: Seq<StreamerView>,
    checks: Seq<Result<Option<BroadcastInfo>, ProviderError>>,
    i: int,
    next_live: Option<BroadcastView>,
)
    requires
        snap.len() == checks.len(),
        unique_ids(snap),
        0 <= i < snap.len(),
        step_observe(state_for(prev, snap[i].id), live_of(checks[i])).1,
    ensures
        ({
            let after = state_for(tick_states(prev, snap, checks), snap[i].id);
            &&& after.phase == Phase::Capturing
            &&& after.broadcast == Some(live_of(checks[i])->Some_0.broadcast_id)
            &&& !step_observe(after, next_live).1
        }),
{
    let t = tick_states(prev, snap, checks);
    assert forall|a: int, b: int| 0 <= a < b < t.len() implies #[trigger] t[a].0 != #[trigger] t[b].0 by {
        assert(t[a].0 == snap[a].id && t[b].0 == snap[b].id);
    }
    lemma_index_of_unique(t, i);
}

/// How many of `ds` are for channel `id`.
pub open spec fn count_for(ds: Seq<DispatchView>, id: i64) -> nat
    decreases ds.len(),
{
    if ds.len() == 0 {
        0
    } else {
        count_for(ds.drop_last(), id) + if ds.last().entity_id == id {
            1nat
        } else {
            0nat
        }
    }
}

/// States after the ticks `ticks` run in turn over the same snapshot, with
/// no task report between them.
pub open spec fn run_ticks(
    prev: Seq<(i64, LiveView)>,
    snap: Seq<StreamerView>,
    ticks: Seq<Seq<Result<Option<BroadcastInfo>, ProviderError>>>,
) -> Seq<(i64, LiveView)>
    decreases ticks.len(),
{
    if ticks.len() == 0 {
        prev
    } else {
        tick_states(run_ticks(prev, snap, ticks.drop_last()), snap, ticks.last())
    }
}

/// Dispatches for channel `id` over those ticks.
pub open spec fn run_dispatch_count(
    prev: Seq<(i64, LiveView)>,
    snap: Seq<StreamerView>,
    ticks: Seq<Seq<Result<Option<BroadcastInfo>, ProviderError>>>,
    id: i64,
) -> nat
    decreases ticks.len(),
{
    if ticks.len() == 0 {
        0
    } else {
        let before = run_ticks(prev, snap, ticks.drop_last());
        run_dispatch_count(prev, snap, ticks.drop_last(), id) + count_for(
            tick_dispatches(before, snap, ticks.last(), snap.len() as int),
            id,
        )
    }
}

proof fn lemma_tick_count(
    prev: Seq<(i64, LiveView)>,
    snap: Seq<StreamerView>,
    checks: Seq<Result<Option<BroadcastInfo>, ProviderError>>,
    i: int,
    n: int,
)
    requires
        snap.len() == checks.len(),
        unique_ids(snap),
        0 <= i < snap.len(),
        0 <= n <= snap.len(),
    ensures
        count_for(tick_dispatches(prev, snap, checks, n), snap[i].id) == if i < n && step_observe(
            state_for(prev, snap[i].id),
            live_of(checks[i]),
        ).1 {
            1nat
        } else {
            0nat
        },
    decreases n,
{
    if n > 0 {
        lemma_tick_count(prev, snap, checks, i, n - 1);
        let rest = tick_dispatches(prev, snap, checks, n - 1);
        let k = n - 1;
        if step_observe(state_for(prev, snap[k].id), live_of(checks[k])).1 {
            let d = DispatchView {
                entity_id: snap[k].id,
                name: snap[k].name,
                broadcast: live_of(checks[k])->Some_0,
            };
            assert(rest.push(d).drop_last() == rest);
            if k != i {
                if k < i {
                    assert(snap[k].id != snap[i].id);
                } else {
                    assert(snap[i].id != snap[k].id);
                }
            }
        }
    }
}

proof fn lemma_tick_state(
    prev: Seq<(i64, LiveView)>,
    snap: Seq<StreamerView>,
    checks: Seq<Result<Option<BroadcastInfo>, ProviderError>>,
    i: int,
)
    requires
        snap.len() == checks.len(),
        unique_ids(snap),
        0 <= i < snap.len(),
    ensures
        state_for(tick_states(prev, snap, checks), snap[i].id) == step_observe(
            state_for(prev, snap[i].id),
            live_of(checks[i]),
        ).0,
{
    let t = tick_states(prev, snap, checks);
    assert forall|a: int, b: int| 0 <= a < b < t.len() implies #[trigger] t[a].0 != #[trigger] t[b].0 by {
        assert(t[a].0 == snap[a].id && t[b].0 == snap[b].id);
    }
    lemma_index_of_unique(t, i);
}

/// However many consecutive ticks see the same broadcast `b` live for the
/// channel `snap[i]`, with no task report between them, `plan_tick` hands
/// out one capture pair for it in all when it was idle before, and none when
/// it was already capturing.
pub proof fn lemma_ticks_dispatch_once(
    prev: Seq<(i64, LiveView)>,
    snap: Seq<StreamerView>,
    ticks: Seq<Seq<Result<Option<BroadcastInfo>, ProviderError>>>,
    i: int,
    b: BroadcastView,
)
    requires
        unique_ids(snap),
        0 <= i < snap.len(),
        forall|k: int| 0 <= k < ticks.len() ==> (#[trigger] ticks[k]).len() == snap.len(),
        forall|k: int| 0 <= k < ticks.len() ==> live_of(#[trigger] ticks[k][i]) == Some(b),
    ensures
        ({
            let id = snap[i].id;
            let v0 = state_for(prev, id);
            let vn = state_for(run_ticks(prev, snap, ticks), id);
            let n = run_dispatch_count(prev, snap, ticks, id);
            &&& v0.phase == Phase::Capturing ==> n == 0 && vn == v0
            &&& v0.phase == Phase::Idle && ticks.len() >= 1 ==> n == 1 && vn.phase
                == Phase::Capturing && vn.broadcast == Some(b.broadcast_id)
            &&& ticks.len() == 0 ==> n == 0 && vn == v0
        }),
    decreases ticks.len(),
{
    if ticks.len() > 0 {
        let p = ticks.drop_last();
        assert forall|k: int| 0 <= k < p.len() implies (#[trigger] p[k]).len() == snap.len() by {
            assert(p[k] == ticks[k]);
        }
        assert forall|k: int| 0 <= k < p.len() implies live_of(#[trigger] p[k][i]) == Some(b) by {
            assert(p[k] == ticks[k]);
        }
        lemma_ticks_dispatch_once(prev, snap, p, i, b);
        let before = run_ticks(prev, snap, p);
        let last = ticks.last();
        assert(last == ticks[ticks.len() - 1]);
        lemma_tick_state(before, snap, last, i);
        lemma_tick_count(before, snap, last, i, snap.len() as int);
    }
}

/// The live states of the tracked channels.
pub struct Scheduler {
    states: Vec<EntityLiveState>,
}

impl Scheduler {
    pub closed spec fn view(&self) -> Seq<(i64, LiveView)> {
        self.states@.map_values(|s: EntityLiveState| (s.spec_entity_id(), s@))
    }

    /// No channel observed yet.
    pub fn new() -> (r: Scheduler)
        ensures
            r.view() == Seq::<(i64, LiveView)>::empty(),
    {
        let r = Scheduler { states: Vec::new() };
        assert(r.view() =~= Seq::<(i64, LiveView)>::empty());
        r
    }

    /// Position of the entry for channel `id`.
    fn find(&self, id: i64) -> (r: Option<usize>)
        ensures
            match r {
                Some(k) => k == index_of(self.view(), id) && k < self.view().len(),
                None => index_of(self.view(), id) == -1,
            },
    {
        let ghost v = self.view();
        let mut i: usize = self.states.len();
        assert(v.take(i as int) == v);
        while i > 0
            invariant
                i <= self.states.len(),
                v == self.view(),
                index_of(v, id) == index_of(v.take(i as int), id),
            decreases i,
        {
            let ghost t = v.take(i as int);
            assert(t.drop_last() == v.take(i - 1));
            assert(t.last() == v[i - 1]);
            if self.states[i - 1].entity_id() == id {
                return Some(i - 1);
            }
            i = i - 1;
        }
        None
    }

    /// The phase of channel `id`: idle for a channel not seen yet.
    pub fn phase_of(&self, id: i64) -> (r: Phase)
        ensures
            r == state_for(self.view(), id).phase,
    {
        match self.find(id) {
            Some(k) => self.states[k].phase(),
            None => Phase::Idle,
        }
    }

    /// Runs one tick over `snapshot`, where `checks[i]` is the status check
    /// of `snapshot[i]`, and returns the capture pairs to start.
    pub fn plan_tick(
        &mut self,
        snapshot: &Vec<Streamer>,
        checks: &Vec<Result<Option<BroadcastInfo>, ProviderError>>,
    ) -> (r: Vec<Dispatch>)
        requires
            snapshot.len() == checks.len(),
        ensures
            final(self).view() == tick_states(
                old(self).view(),
                snapshot@.map_values(|s: Streamer| s@),
                checks@,
            ),
            r@.map_values(|d: Dispatch| d@) == tick_dispatches(
                old(self).view(),
                snapshot@.map_values(|s: Streamer| s@),
                checks@,
                snapshot.len() as int,
            ),
    {
        let ghost prev = self.view();
        let ghost snap = snapshot@.map_values(|s: Streamer| s@);
        let mut next: Vec<EntityLiveState> = Vec::new();
        let mut out: Vec<Dispatch> = Vec::new();
        let n = snapshot.len();
        let mut i: usize = 0;
        while i < n
            invariant
                n == snapshot.len(),
                n == checks.len(),
                i <= n,
                prev == self.view(),
                snap == snapshot@.map_values(|s: Streamer| s@),
                next@.map_values(|s: EntityLiveState| (s.spec_entity_id(), s@)) == tick_states(
                    prev,
                    snap,
                    checks@,
                ).take(i as int),
                out@.map_values(|d: Dispatch| d@) == tick_dispatches(prev, snap, checks@, i as int),
            decreases n - i,
        {
            let id = snapshot[i].id;
            assert(snap[i as int].id == id);
            proof {
                lemma_index_of(prev, id);
            }
            let mut st = match self.find(id) {
                Some(k) => self.states[k].snapshot(),
                None => EntityLiveState::new(id),
            };
            let ghost before = st@;
            assert(before == state_for(prev, id));
            let dispatch = st.observe(&checks[i]);
            let ghost old_next = next@;
            let ghost old_out = out@;
            if dispatch {
                match &checks[i] {
                    Ok(Some(b)) => {
                        let d = Dispatch {
                            entity_id: id,
                            name: snapshot[i].name.clone(),
                            broadcast: b.snapshot(),
                        };
                        out.push(d);
                        proof {
                            assert(out@.map_values(|d: Dispatch| d@) =~= old_out.map_values(
                                |d: Dispatch| d@,
                            ).push(d@));
                        }
                    },
                    _ => {},
                }
            }
            next.push(st);
            proof {
                assert(next@ == old_next.push(st));
                assert(next@.map_values(|s: EntityLiveState| (s.spec_entity_id(), s@))
                    =~= old_next.map_values(|s: EntityLiveState| (s.spec_entity_id(), s@)).push(
                    (id, st@),
                ));
                assert(next@.map_values(|s: EntityLiveState| (s.spec_entity_id(), s@))
                    =~= tick_states(prev, snap, checks@).take(i + 1));
            }
            i = i + 1;
        }
        proof {
            assert(tick_states(prev, snap, checks@).take(n as int) =~= tick_states(
                prev,
                snap,
                checks@,
            ));
        }
        self.states = next;
        out
    }

    /// Records that the `kind` task of channel `id` ended; returns whether
    /// the channel went back to idle with this report.
    pub fn complete(&mut self, id: i64, kind: CaptureKind, succeeded: bool) -> (idle_again: bool)
        ensures
            (final(self).view(), idle_again) == report_states(old(self).view(), id, kind, succeeded),
    {
        let ghost prev = self.view();
        match self.find(id) {
            None => false,
            Some(k) => {
                proof {
                    lemma_index_of(prev, id);
                }
                let mut st = self.states[k].snapshot();
                let idle_again = st.report(kind, succeeded);
                let ghost old_states = self.states@;
                self.states.set(k, st);
                proof {
                    assert(self.states@ == old_states.update(k as int, st));
                    assert(prev[k as int].0 == id);
                    assert(self.view() =~= prev.update(k as int, (id, st@)));
                }
                idle_again
            },
        }
    }
}

} // verus!
