//! Per-channel live state: the dedup guard between live detection and
//! capture dispatch, and the bookkeeping of the two capture tasks.

use vstd::prelude::*;

verus! {

#[derive(Debug, Clone, Copy, PartialEq, Eq, Structural)]
pub enum Phase {
    Idle,
    Capturing,
}

#[derive(Debug, Clone, Copy, PartialEq, Eq, Structural)]
pub enum TaskStatus {
    Running,
    Succeeded,
    Failed,
}

#[derive(Debug, Clone, Copy, PartialEq, Eq, Structural)]
pub enum CaptureKind {
    Media,
    Transcript,
}

/// Why the live-status provider gave no answer.
#[derive(Debug, Clone, Copy, PartialEq, Eq, Structural)]
pub enum ProviderError {
    /// Network, authentication or rate limit: unknown this tick.
    Unavailable,
    /// A name resolved to no channel.
    NotFound,
}

/// A broadcast that the provider reports live.
#[derive(Debug, Clone)]
pub struct BroadcastInfo {
    pub broadcast_id: String,
    pub title: String,
}

pub struct BroadcastView {
    pub broadcast_id: Seq<char>,
    pub title: Seq<char>,
}

impl View for BroadcastInfo {
    type V = BroadcastView;

    open spec fn view(&self) -> BroadcastView {
        BroadcastView { broadcast_id: self.broadcast_id@, title: self.title@ }
    }
}

impl BroadcastInfo {
    /// A field-by-field copy.
    pub fn snapshot(&self) -> (r: BroadcastInfo)
        ensures
            r@ == self@,
    {
        BroadcastInfo { broadcast_id: self.broadcast_id.clone(), title: self.title.clone() }
    }
}

/// The broadcast seen live by a status check: none when the channel is not
/// live and when the provider was unavailable.
pub open spec fn live_of(check: Result<Option<BroadcastInfo>, ProviderError>) -> Option<BroadcastView> {
    match check {
        Ok(Some(b)) => Some(b@),
        _ => None,
    }
}

pub open spec fn is_terminal(s: TaskStatus) -> bool {
    s != TaskStatus::Running
}

pub struct LiveView {
    pub phase: Phase,
    pub broadcast: Option<Seq<char>>,
    pub media: TaskStatus,
    pub transcript: TaskStatus,
}

/// A broadcast id is set exactly while capturing, and a capture pair with
/// both tasks terminal is no longer capturing.
pub open spec fn live_wf(v: LiveView) -> bool {
    &&& (v.phase == Phase::Idle) <==> v.broadcast is None
    &&& v.phase == Phase::Capturing ==> !(is_terminal(v.media) && is_terminal(v.transcript))
}

pub open spec fn idle_view() -> LiveView {
    LiveView {
        phase: Phase::Idle,
        broadcast: None,
        media: TaskStatus::Succeeded,
        transcript: TaskStatus::Succeeded,
    }
}

pub open spec fn status_of(v: LiveView, kind: CaptureKind) -> TaskStatus {
    match kind {
        CaptureKind::Media => v.media,
        CaptureKind::Transcript => v.transcript,
    }
}

pub open spec fn other_kind(kind: CaptureKind) -> CaptureKind {
    match kind {
        CaptureKind::Media => CaptureKind::Transcript,
        CaptureKind::Transcript => CaptureKind::Media,
    }
}

pub open spec fn outcome(succeeded: bool) -> TaskStatus {
    if succeeded {
        TaskStatus::Succeeded
    } else {
        TaskStatus::Failed
    }
}

/// One status check: an idle channel seen live starts capturing that
/// broadcast with both tasks running, and asks for a dispatch; anything else
/// changes nothing.
pub open spec fn step_observe(v: LiveView, live: Option<BroadcastView>) -> (LiveView, bool) {
    if v.phase == Phase::Idle && live is Some {
        (
            LiveView {
                phase: Phase::Capturing,
                broadcast: Some(live->Some_0.broadcast_id),
                media: TaskStatus::Running,
                transcript: TaskStatus::Running,
            },
            true,
        )
    } else {
        (v, false)
    }
}

/// One task reports its end: a running task of the active capture takes its
/// terminal status; when both are terminal the channel goes back to idle and
/// the report says so. A report for no running task changes nothing.
pub open spec fn step_report(v: LiveView, kind: CaptureKind, succeeded: bool) -> (LiveView, bool) {
    if v.phase == Phase::Capturing && status_of(v, kind) == TaskStatus::Running {
        let media = if kind == CaptureKind::Media {
            outcome(succeeded)
        } else {
            v.media
        };
        let transcript = if kind == CaptureKind::Transcript {
            outcome(succeeded)
        } else {
            v.transcript
        };
        if is_terminal(media) && is_terminal(transcript) {
            (LiveView { phase: Phase::Idle, broadcast: None, media, transcript }, true)
        } else {
            (LiveView { phase: v.phase, broadcast: v.broadcast, media, transcript }, false)
        }
    } else {
        (v, false)
    }
}

/// A run of status checks with no task report between them: the state at
/// the end and the number of dispatches asked for.
pub open spec fn run_observes(v: LiveView, lives: Seq<Option<BroadcastView>>) -> (LiveView, nat)
    decreases lives.len(),
{
    if lives.len() == 0 {
        (v, 0)
    } else {
        let prev = run_observes(v, lives.drop_last());
        let next = step_observe(prev.0, lives.last());
        (next.0, prev.1 + if next.1 {
            1nat
        } else {
            0nat
        })
    }
}

proof fn lemma_run_observes_capturing(v: LiveView, lives: Seq<Option<BroadcastView>>)
    requires
        v.phase == Phase::Capturing,
    ensures
        run_observes(v, lives) == (v, 0nat),
    decreases lives.len(),
{
    if lives.len() > 0 {
        lemma_run_observes_capturing(v, lives.drop_last());
    }
}

/// However many consecutive status checks see the same broadcast `b` live,
/// with none of its tasks finished meanwhile, an idle channel asks for one
/// dispatch in all, and a capturing one for none.
pub proof fn lemma_dispatch_once(v: LiveView, b: BroadcastView, lives: Seq<Option<BroadcastView>>)
    requires
        live_wf(v),
        lives.len() >= 1,
        forall|i: int| 0 <= i < lives.len() ==> #[trigger] lives[i] == Some(b),
    ensures
        v.phase == Phase::Idle ==> run_observes(v, lives).1 == 1,
        v.phase == Phase::Idle ==> run_observes(v, lives).0.broadcast == Some(b.broadcast_id),
        v.phase == Phase::Capturing ==> run_observes(v, lives).1 == 0,
    decreases lives.len(),
{
    if v.phase == Phase::Capturing {
        lemma_run_observes_capturing(v, lives);
    } else if lives.len() == 1 {
        assert(lives.drop_last().len() == 0);
        assert(lives.last() == lives[0]);
    } else {
        let p = lives.drop_last();
        assert forall|i: int| 0 <= i < p.len() implies #[trigger] p[i] == Some(b) by {
            assert(p[i] == lives[i]);
        }
        lemma_dispatch_once(v, b, p);
        assert(lives.last() == lives[lives.len() - 1]);
    }
}

/// Once both tasks of a capture pair are terminal, in either order and
/// whether each succeeded or failed, the channel is idle again: the first
/// report leaves the other task running and notifies nothing, the second
/// notifies exactly once, and each recorded status is that task's own.
pub proof fn lemma_pair_completion(v: LiveView, first: CaptureKind, ok1: bool, ok2: bool)
    requires
        live_wf(v),
        v.phase == Phase::Capturing,
        v.media == TaskStatus::Running,
        v.transcript == TaskStatus::Running,
    ensures
        ({
            let (w1, n1) = step_report(v, first, ok1);
            let (w2, n2) = step_report(w1, other_kind(first), ok2);
            &&& !n1 && n2
            &&& w1.phase == Phase::Capturing && live_wf(w1)
            &&& status_of(w1, other_kind(first)) == TaskStatus::Running
            &&& w2.phase == Phase::Idle && live_wf(w2)
            &&& status_of(w2, first) == outcome(ok1)
            &&& status_of(w2, other_kind(first)) == outcome(ok2)
        }),
{
}

/// After a capture pair has ended, a new broadcast seen live is a fresh
/// detection: a new pair is dispatched for it.
pub proof fn lemma_redetect(
    v: LiveView,
    first: CaptureKind,
    ok1: bool,
    ok2: bool,
    next: BroadcastView,
)
    requires
        live_wf(v),
        v.phase == Phase::Capturing,
        v.media == TaskStatus::Running,
        v.transcript == TaskStatus::Running,
        v.broadcast != Some(next.broadcast_id),
    ensures
        ({
            let w1 = step_report(v, first, ok1).0;
            let w2 = step_report(w1, other_kind(first), ok2).0;
            let (w3, d) = step_observe(w2, Some(next));
            &&& d
            &&& w3.phase == Phase::Capturing && w3.broadcast == Some(next.broadcast_id)
            &&& w3.media == TaskStatus::Running && w3.transcript == TaskStatus::Running
        }),
{
    lemma_pair_completion(v, first, ok1, ok2);
}

/// Both steps keep the state well formed.
pub proof fn lemma_steps_keep_wf(v: LiveView, live: Option<BroadcastView>, kind: CaptureKind, ok: bool)
    requires
        live_wf(v),
    ensures
        live_wf(step_observe(v, live).0),
        live_wf(step_report(v, kind, ok).0),
{
}

/// The live state of one tracked channel.
pub struct EntityLiveState {
    entity_id: i64,
    phase: Phase,
    active_broadcast_id: Option<String>,
    media: TaskStatus,
    transcript: TaskStatus,
}

impl View for EntityLiveState {
    type V = LiveView;

    closed spec fn view(&self) -> LiveView {
        LiveView {
            phase: self.phase,
            broadcast: match self.active_broadcast_id {
                Some(s) => Some(s@),
                None => None,
            },
            media: self.media,
            transcript: self.transcript,
        }
    }
}

impl EntityLiveState {
    pub closed spec fn spec_entity_id(&self) -> i64 {
        self.entity_id
    }

    /// A channel first observed: idle.
    pub fn new(entity_id: i64) -> (r: EntityLiveState)
        ensures
            r@ == idle_view(),
            live_wf(r@),
            r.spec_entity_id() == entity_id,
    {
        EntityLiveState {
            entity_id,
            phase: Phase::Idle,
            active_broadcast_id: None,
            media: TaskStatus::Succeeded,
            transcript: TaskStatus::Succeeded,
        }
    }

    pub fn entity_id(&self) -> (r: i64)
        ensures
            r == self.spec_entity_id(),
    {
        self.entity_id
    }

    pub fn phase(&self) -> (r: Phase)
        ensures
            r == self@.phase,
    {
        self.phase
    }

    pub fn status(&self, kind: CaptureKind) -> (r: TaskStatus)
        ensures
            r == status_of(self@, kind),
    {
        match kind {
            CaptureKind::Media => self.media,
            CaptureKind::Transcript => self.transcript,
        }
    }

    /// The broadcast being captured, if any.
    pub fn active_broadcast_id(&self) -> (r: Option<String>)
        ensures
            match r {
                Some(s) => self@.broadcast == Some(s@),
                None => self@.broadcast is None,
            },
    {
        match &self.active_broadcast_id {
            Some(s) => Some(s.clone()),
            None => None,
        }
    }

    /// A field-by-field copy.
    pub fn snapshot(&self) -> (r: EntityLiveState)
        ensures
            r@ == self@,
            r.spec_entity_id() == self.spec_entity_id(),
    {
        EntityLiveState {
            entity_id: self.entity_id,
            phase: self.phase,
            active_broadcast_id: self.active_broadcast_id(),
            media: self.media,
            transcript: self.transcript,
        }
    }

    /// Applies one status check; returns whether a capture pair is to be
    /// dispatched. The check-and-set happens under the caller's `&mut`.
    pub fn observe(&mut self, check: &Result<Option<BroadcastInfo>, ProviderError>) -> (dispatch:
        bool)
        ensures
            (final(self)@, dispatch) == step_observe(old(self)@, live_of(*check)),
            live_wf(old(self)@) ==> live_wf(final(self)@),
            final(self).spec_entity_id() == old(self).spec_entity_id(),
    {
        if self.phase == Phase::Idle {
            match check {
                Ok(Some(b)) => {
                    self.phase = Phase::Capturing;
                    self.active_broadcast_id = Some(b.broadcast_id.clone());
                    self.media = TaskStatus::Running;
                    self.transcript = TaskStatus::Running;
                    true
                },
                _ => false,
            }
        } else {
            false
        }
    }

    /// Records that the `kind` task ended; returns whether the channel went
    /// back to idle with this report.
    pub fn report(&mut self, kind: CaptureKind, succeeded: bool) -> (idle_again: bool)
        ensures
            (final(self)@, idle_again) == step_report(old(self)@, kind, succeeded),
            live_wf(old(self)@) ==> live_wf(final(self)@),
            final(self).spec_entity_id() == old(self).spec_entity_id(),
    {
        if self.phase != Phase::Capturing || self.status(kind) != TaskStatus::Running {
            return false;
        }
        let status = if succeeded {
            TaskStatus::Succeeded
        } else {
            TaskStatus::Failed
        };
        match kind {
            CaptureKind::Media => self.media = status,
            CaptureKind::Transcript => self.transcript = status,
        }
        if self.media != TaskStatus::Running && self.transcript != TaskStatus::Running {
            self.phase = Phase::Idle;
            self.active_broadcast_id = None;
            true
        } else {
            false
        }
    }
}

} // verus!
