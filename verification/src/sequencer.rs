//! The timer sequencer: a pure state machine over the phase queue.
//!
//! The sequencer owns the phase cursor and the per-phase countdown state.
//! It consumes three inputs — a millisecond tick, a control event (pause
//! toggle or quit), and failure notices from its collaborators — and emits
//! the actions the caller must perform: play a cue, render a phase banner,
//! render a progress line. The caller (a cooperative event loop, or a test
//! driving virtual time) performs the I/O and feeds the next input back in.
//!
//! Every transition is specified exactly by a spec-level mirror
//! ([`spec_start`], [`spec_on_tick`], [`spec_on_control`]), so the laws of a
//! whole run can be proved from these contracts alone.

use vstd::prelude::*;
use crate::phase::{Phase, PhaseQueue, phase_active, queue_wf};

verus! {

/// An audible cue emitted at a phase boundary.
#[derive(Clone, Copy, PartialEq, Eq, Structural, Debug)]
pub enum CueKind {
    PhaseStart,
    PhaseEnd,
    SessionEnd,
}

/// A control event from the keyboard or an OS signal.
#[derive(Clone, Copy, PartialEq, Eq, Structural, Debug)]
pub enum ControlEvent {
    Toggle,
    Quit,
}

/// Why a session failed.
#[derive(Clone, Copy, PartialEq, Eq, Structural, Debug)]
pub enum FailCause {
    /// A terminal write or flush failed; the terminal is presumed gone.
    RenderLost,
    /// The monotonic clock became unavailable.
    ClockLost,
}

/// How a session ended.
#[derive(Clone, Copy, PartialEq, Eq, Structural, Debug)]
pub enum Outcome {
    Completed,
    QuitRequested,
    Failed(FailCause),
}

/// An effect the caller must perform on behalf of the sequencer.
#[derive(Clone, Copy, PartialEq, Eq, Structural, Debug)]
pub enum Action {
    /// Play this cue (fire-and-forget).
    Cue(CueKind),
    /// Render the banner for this phase.
    Banner(Phase),
    /// Render a progress line with this many seconds remaining.
    Progress(u32),
}

/// The countdown state of the active phase.
#[derive(Clone, Copy, PartialEq, Eq, Structural, Debug)]
pub struct TimerState {
    /// Milliseconds left in the active phase; positive while the phase runs.
    pub remaining_ms: u64,
    /// While set, ticks are discarded and `remaining_ms` is frozen.
    pub paused: bool,
    /// Index of the active phase in the queue.
    pub phase_index: usize,
}

/// Whether the sequencer is still counting down or has terminated.
#[derive(Clone, Copy, PartialEq, Eq, Structural, Debug)]
pub enum SequencerStatus {
    Active(TimerState),
    Finished(Outcome),
}

/// The first index `>= i` of a phase with non-zero duration, or `q.len()`.
pub open spec fn next_active(q: Seq<Phase>, i: int) -> int
    decreases q.len() - i,
{
    if i < 0 || i >= q.len() {
        q.len() as int
    } else if phase_active(q[i]) {
        i
    } else {
        next_active(q, i + 1)
    }
}

/// What [`next_active`] returns: the first index at or after `i` whose
/// phase is active, or the queue length when there is none.
pub proof fn lemma_next_active(q: Seq<Phase>, i: int)
    requires
        0 <= i <= q.len(),
    ensures
        i <= next_active(q, i) <= q.len(),
        next_active(q, i) < q.len() ==> phase_active(q[next_active(q, i)]),
        forall|k: int| i <= k < next_active(q, i) ==> !phase_active(#[trigger] q[k]),
    decreases q.len() - i,
{
    if i < q.len() && !phase_active(q[i]) {
        lemma_next_active(q, i + 1);
    }
}

/// The actions emitted on entry to an active phase: its start cue, its
/// banner, and the initial progress line showing the full duration.
pub open spec fn entry_actions(p: Phase) -> Seq<Action> {
    seq![
        Action::Cue(CueKind::PhaseStart),
        Action::Banner(p),
        Action::Progress((p.duration_ms / 1000) as u32),
    ]
}

/// The status and actions on entering the queue at index `i`: zero-duration
/// phases are skipped silently; if none is left the single session-end cue
/// fires and the run completes.
pub open spec fn spec_enter(q: Seq<Phase>, i: int) -> (SequencerStatus, Seq<Action>) {
    let j = next_active(q, i);
    if j == q.len() {
        (SequencerStatus::Finished(Outcome::Completed), seq![Action::Cue(CueKind::SessionEnd)])
    } else {
        (
            SequencerStatus::Active(
                TimerState { remaining_ms: q[j].duration_ms, paused: false, phase_index: j as usize },
            ),
            entry_actions(q[j]),
        )
    }
}

/// The status and actions of a fresh sequencer, before any tick.
pub open spec fn spec_start(q: Seq<Phase>) -> (SequencerStatus, Seq<Action>) {
    spec_enter(q, 0)
}

/// One millisecond tick.
///
/// While paused or after termination the tick is discarded. Otherwise: if
/// the remaining time sits on a whole-second boundary, a progress line with
/// that many seconds is rendered first; then the remaining time decreases by
/// one. When it reaches zero the queue advances: the phase-end cue fires and
/// the next active phase is entered — except that when no active phase is
/// left, the end cue is coalesced into the single session-end cue.
pub open spec fn spec_on_tick(q: Seq<Phase>, st: SequencerStatus) -> (
    SequencerStatus,
    Seq<Action>,
) {
    match st {
        SequencerStatus::Active(ts) => {
            if ts.paused {
                (st, Seq::empty())
            } else {
                let pre = if ts.remaining_ms % 1000 == 0 {
                    seq![Action::Progress((ts.remaining_ms / 1000) as u32)]
                } else {
                    Seq::empty()
                };
                if ts.remaining_ms == 1 {
                    let (nst, acts) = spec_enter(q, ts.phase_index + 1);
                    if nst is Finished {
                        (nst, pre + acts)
                    } else {
                        (nst, pre + seq![Action::Cue(CueKind::PhaseEnd)] + acts)
                    }
                } else {
                    (
                        SequencerStatus::Active(
                            TimerState {
                                remaining_ms: (ts.remaining_ms - 1) as u64,
                                paused: false,
                                phase_index: ts.phase_index,
                            },
                        ),
                        pre,
                    )
                }
            }
        },
        SequencerStatus::Finished(_) => (st, Seq::empty()),
    }
}

/// A control event: Toggle flips the pause flag and freezes or resumes the
/// countdown; Quit terminates the run at once. Events after termination are
/// ignored. No action is emitted either way.
pub open spec fn spec_on_control(st: SequencerStatus, ev: ControlEvent) -> SequencerStatus {
    match st {
        SequencerStatus::Active(ts) => match ev {
            ControlEvent::Toggle => SequencerStatus::Active(
                TimerState {
                    remaining_ms: ts.remaining_ms,
                    paused: !ts.paused,
                    phase_index: ts.phase_index,
                },
            ),
            ControlEvent::Quit => SequencerStatus::Finished(Outcome::QuitRequested),
        },
        SequencerStatus::Finished(_) => st,
    }
}

/// The sequencer: the phase queue plus the live countdown status.
pub struct Sequencer {
    pub queue: PhaseQueue,
    pub status: SequencerStatus,
}

impl Sequencer {
    /// The queue is well formed and the cursor points at an active phase
    /// with a positive, in-range remaining time.
    pub open spec fn wf(self) -> bool {
        &&& queue_wf(self.queue@)
        &&& match self.status {
            SequencerStatus::Active(ts) => {
                &&& ts.phase_index < self.queue@.len()
                &&& phase_active(self.queue@[ts.phase_index as int])
                &&& 0 < ts.remaining_ms <= self.queue@[ts.phase_index as int].duration_ms
            },
            SequencerStatus::Finished(_) => true,
        }
    }

    /// Enter the queue at index `i`, skipping zero-duration phases.
    fn enter_from(queue: &PhaseQueue, i: usize) -> (r: (SequencerStatus, Vec<Action>))
        requires
            queue_wf(queue@),
            i <= queue@.len(),
        ensures
            (r.0, r.1@) == spec_enter(queue@, i as int),
    {
        let n = queue.phases.len();
        let mut j = i;
        while j < n && queue.phases[j].duration_ms == 0
            invariant
                i <= j <= n == queue@.len(),
                next_active(queue@, i as int) == next_active(queue@, j as int),
            decreases n - j,
        {
            j = j + 1;
        }
        if j == n {
            let mut acts: Vec<Action> = Vec::new();
            acts.push(Action::Cue(CueKind::SessionEnd));
            proof {
                assert(acts@ =~= spec_enter(queue@, i as int).1);
            }
            (SequencerStatus::Finished(Outcome::Completed), acts)
        } else {
            let p = queue.phases[j];
            let mut acts: Vec<Action> = Vec::new();
            acts.push(Action::Cue(CueKind::PhaseStart));
            acts.push(Action::Banner(p));
            proof {
                assert(p.duration_ms / 1000 <= u32::MAX as u64) by {
                    assert(queue@[j as int].duration_ms <= u32::MAX as u64 * 1000);
                }
            }
            acts.push(Action::Progress((p.duration_ms / 1000) as u32));
            proof {
                assert(acts@ =~= entry_actions(queue@[j as int]));
            }
            (
                SequencerStatus::Active(
                    TimerState { remaining_ms: p.duration_ms, paused: false, phase_index: j },
                ),
                acts,
            )
        }
    }

    /// Build a sequencer over `queue` and enter its first phase. The
    /// returned actions are what the caller must perform before the first
    /// tick; a queue with no active phase completes on the spot with the
    /// lone session-end cue.
    pub fn start(queue: PhaseQueue) -> (r: (Sequencer, Vec<Action>))
        requires
            queue_wf(queue@),
        ensures
            r.0.wf(),
            r.0.queue@ == queue@,
            (r.0.status, r.1@) == spec_start(queue@),
    {
        let n: usize = queue.phases.len();
        proof {
            assert(queue@.len() == n);
            lemma_next_active(queue@, 0);
        }
        let (status, acts) = Self::enter_from(&queue, 0);
        (Sequencer { queue, status }, acts)
    }

    /// Deliver one millisecond tick; see [`spec_on_tick`] for the exact
    /// effect on the status and the returned actions.
    pub fn on_tick(&mut self) -> (r: Vec<Action>)
        requires
            old(self).wf(),
        ensures
            final(self).wf(),
            final(self).queue@ == old(self).queue@,
            (final(self).status, r@) == spec_on_tick(old(self).queue@, old(self).status),
    {
        match self.status {
            SequencerStatus::Active(ts) => {
                if ts.paused {
                    Vec::new()
                } else {
                    let mut acts: Vec<Action> = Vec::new();
                    if ts.remaining_ms % 1000 == 0 {
                        proof {
                            let d = self.queue@[ts.phase_index as int].duration_ms;
                            assert(d <= u32::MAX as u64 * 1000);
                        }
                        acts.push(Action::Progress((ts.remaining_ms / 1000) as u32));
                    }
                    if ts.remaining_ms == 1 {
                        let n: usize = self.queue.phases.len();
                        proof {
                            assert(ts.phase_index < n);
                            lemma_next_active(self.queue@, ts.phase_index + 1);
                        }
                        let (nst, mut entry) = Self::enter_from(&self.queue, ts.phase_index + 1);
                        let finished = match nst {
                            SequencerStatus::Finished(_) => true,
                            SequencerStatus::Active(_) => false,
                        };
                        if !finished {
                            acts.push(Action::Cue(CueKind::PhaseEnd));
                        }
                        acts.append(&mut entry);
                        self.status = nst;
                        proof {
                            let (sst, sacts) = spec_on_tick(old(self).queue@, old(self).status);
                            assert(acts@ =~= sacts);
                        }
                        acts
                    } else {
                        self.status = SequencerStatus::Active(
                            TimerState {
                                remaining_ms: ts.remaining_ms - 1,
                                paused: false,
                                phase_index: ts.phase_index,
                            },
                        );
                        proof {
                            let (sst, sacts) = spec_on_tick(old(self).queue@, old(self).status);
                            assert(acts@ =~= sacts);
                        }
                        acts
                    }
                }
            },
            SequencerStatus::Finished(_) => Vec::new(),
        }
    }

    /// Deliver a control event; see [`spec_on_control`]. A Quit terminates
    /// the run at once — no further tick is consumed — which is what makes
    /// quitting punctual.
    pub fn on_control(&mut self, ev: ControlEvent)
        requires
            old(self).wf(),
        ensures
            final(self).wf(),
            final(self).queue@ == old(self).queue@,
            final(self).status == spec_on_control(old(self).status, ev),
    {
        match self.status {
            SequencerStatus::Active(ts) => match ev {
                ControlEvent::Toggle => {
                    self.status = SequencerStatus::Active(
                        TimerState {
                            remaining_ms: ts.remaining_ms,
                            paused: !ts.paused,
                            phase_index: ts.phase_index,
                        },
                    );
                },
                ControlEvent::Quit => {
                    self.status = SequencerStatus::Finished(Outcome::QuitRequested);
                },
            },
            SequencerStatus::Finished(_) => {},
        }
    }

    /// Record that a terminal write failed: the run terminates with
    /// `Failed(RenderLost)`. A run that already ended keeps its outcome.
    pub fn on_render_failure(&mut self)
        requires
            old(self).wf(),
        ensures
            final(self).wf(),
            final(self).queue@ == old(self).queue@,
            final(self).status == match old(self).status {
                SequencerStatus::Active(_) => SequencerStatus::Finished(
                    Outcome::Failed(FailCause::RenderLost),
                ),
                SequencerStatus::Finished(_) => old(self).status,
            },
    {
        match self.status {
            SequencerStatus::Active(_) => {
                self.status = SequencerStatus::Finished(Outcome::Failed(FailCause::RenderLost));
            },
            SequencerStatus::Finished(_) => {},
        }
    }

    /// Record that the monotonic clock became unavailable: the run
    /// terminates with `Failed(ClockLost)`. A run that already ended keeps
    /// its outcome.
    pub fn on_clock_failure(&mut self)
        requires
            old(self).wf(),
        ensures
            final(self).wf(),
            final(self).queue@ == old(self).queue@,
            final(self).status == match old(self).status {
                SequencerStatus::Active(_) => SequencerStatus::Finished(
                    Outcome::Failed(FailCause::ClockLost),
                ),
                SequencerStatus::Finished(_) => old(self).status,
            },
    {
        match self.status {
            SequencerStatus::Active(_) => {
                self.status = SequencerStatus::Finished(Outcome::Failed(FailCause::ClockLost));
            },
            SequencerStatus::Finished(_) => {},
        }
    }

    /// Whether the run has terminated.
    pub fn is_finished(&self) -> (r: bool)
        ensures
            r == (self.status is Finished),
    {
        match self.status {
            SequencerStatus::Active(_) => false,
            SequencerStatus::Finished(_) => true,
        }
    }

    /// The outcome of a terminated run, or `None` while counting down.
    pub fn outcome(&self) -> (r: Option<Outcome>)
        ensures
            r == match self.status {
                SequencerStatus::Active(_) => None::<Outcome>,
                SequencerStatus::Finished(o) => Some(o),
            },
    {
        match self.status {
            SequencerStatus::Active(_) => None,
            SequencerStatus::Finished(o) => Some(o),
        }
    }
}

} // verus!
