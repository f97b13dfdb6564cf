//! A virtual-time driver for whole sessions, and the session laws.
//!
//! [`run_virtual`] plays a session to its end under an injected schedule of
//! control events, delivering one tick per virtual millisecond and control
//! events ahead of the tick due at the same instant. Its contract pins down
//! the whole observable trace of a run:
//!
//! * duration conservation — an unpaused completed run takes exactly the
//!   sum of the phase durations of virtual time;
//! * pause freeze — a run with balanced pauses of total length `P` finishes
//!   exactly `P` later than the unpaused run, with the same trace;
//! * quit punctuality — a delivered quit ends the run at the instant of its
//!   receipt, with no further tick consumed;
//! * cue ordering — the cues of a completed run are a start/end pair per
//!   active phase with the final end cue coalesced into the session-end cue;
//! * render cadence — an active phase of `D` whole seconds emits exactly
//!   `D + 1` progress lines;
//! * zero-duration skip — inactive phases contribute no cue, banner or
//!   progress line (see [`lemma_zero_duration_skip`]).

use vstd::prelude::*;
use crate::phase::{Phase, PhaseQueue, phase_active, queue_wf, total_ms, total_ms_upto};
use crate::sequencer::{
    Action, ControlEvent, CueKind, Outcome, Sequencer, SequencerStatus, TimerState, entry_actions,
    lemma_next_active, next_active,
};

verus! {

/// The cues among a sequence of actions, in order.
pub open spec fn cues_of(acts: Seq<Action>) -> Seq<CueKind>
    decreases acts.len(),
{
    if acts.len() == 0 {
        Seq::empty()
    } else {
        cues_of(acts.drop_last()) + (match acts.last() {
            Action::Cue(c) => seq![c],
            _ => Seq::empty(),
        })
    }
}

/// The banners among a sequence of actions, in order.
pub open spec fn banners_of(acts: Seq<Action>) -> Seq<Phase>
    decreases acts.len(),
{
    if acts.len() == 0 {
        Seq::empty()
    } else {
        banners_of(acts.drop_last()) + (match acts.last() {
            Action::Banner(p) => seq![p],
            _ => Seq::empty(),
        })
    }
}

/// The progress lines among a sequence of actions, in order.
pub open spec fn renders_of(acts: Seq<Action>) -> Seq<u32>
    decreases acts.len(),
{
    if acts.len() == 0 {
        Seq::empty()
    } else {
        renders_of(acts.drop_last()) + (match acts.last() {
            Action::Progress(s) => seq![s],
            _ => Seq::empty(),
        })
    }
}

/// The three projections distribute over concatenation.
pub proof fn lemma_project_concat(a: Seq<Action>, b: Seq<Action>)
    ensures
        cues_of(a + b) == cues_of(a) + cues_of(b),
        banners_of(a + b) == banners_of(a) + banners_of(b),
        renders_of(a + b) == renders_of(a) + renders_of(b),
    decreases b.len(),
{
    if b.len() == 0 {
        assert(a + b =~= a);
        assert(cues_of(a) + cues_of(b) =~= cues_of(a));
        assert(banners_of(a) + banners_of(b) =~= banners_of(a));
        assert(renders_of(a) + renders_of(b) =~= renders_of(a));
    } else {
        lemma_project_concat(a, b.drop_last());
        assert((a + b).drop_last() =~= a + b.drop_last());
        assert((a + b).last() == b.last());
        assert(cues_of(a + b) =~= cues_of(a) + cues_of(b));
        assert(banners_of(a + b) =~= banners_of(a) + banners_of(b));
        assert(renders_of(a + b) =~= renders_of(a) + renders_of(b));
    }
}

/// Projections of a single action.
pub proof fn lemma_project_singleton(a: Action)
    ensures
        cues_of(seq![a]) == (match a {
            Action::Cue(c) => seq![c],
            _ => Seq::<CueKind>::empty(),
        }),
        banners_of(seq![a]) == (match a {
            Action::Banner(p) => seq![p],
            _ => Seq::<Phase>::empty(),
        }),
        renders_of(seq![a]) == (match a {
            Action::Progress(s) => seq![s],
            _ => Seq::<u32>::empty(),
        }),
{
    reveal_with_fuel(cues_of, 2);
    reveal_with_fuel(banners_of, 2);
    reveal_with_fuel(renders_of, 2);
    let s = seq![a];
    assert(s.drop_last() =~= Seq::<Action>::empty());
    assert(cues_of(s) =~= cues_of(s.drop_last()) + (match a {
        Action::Cue(c) => seq![c],
        _ => Seq::<CueKind>::empty(),
    }));
    assert(cues_of(s) =~= (match a {
        Action::Cue(c) => seq![c],
        _ => Seq::<CueKind>::empty(),
    }));
    assert(banners_of(s) =~= (match a {
        Action::Banner(p) => seq![p],
        _ => Seq::<Phase>::empty(),
    }));
    assert(renders_of(s) =~= (match a {
        Action::Progress(x) => seq![x],
        _ => Seq::<u32>::empty(),
    }));
}

/// Projections of the entry actions of a phase: one start cue, one banner,
/// one progress line showing the full duration.
pub proof fn lemma_entry_projections(p: Phase)
    ensures
        cues_of(entry_actions(p)) == seq![CueKind::PhaseStart],
        banners_of(entry_actions(p)) == seq![p],
        renders_of(entry_actions(p)) == seq![(p.duration_ms / 1000) as u32],
{
    reveal_with_fuel(cues_of, 5);
    reveal_with_fuel(banners_of, 5);
    reveal_with_fuel(renders_of, 5);
    let e = entry_actions(p);
    let e2 = e.drop_last();
    let e1 = e2.drop_last();
    let e0 = e1.drop_last();
    assert(e0 =~= Seq::<Action>::empty());
    assert(e1 =~= seq![Action::Cue(CueKind::PhaseStart)]);
    assert(e2 =~= seq![Action::Cue(CueKind::PhaseStart), Action::Banner(p)]);
    assert(cues_of(e1) =~= seq![CueKind::PhaseStart]);
    assert(cues_of(e2) =~= seq![CueKind::PhaseStart]);
    assert(cues_of(e) =~= seq![CueKind::PhaseStart]);
    assert(banners_of(e1) =~= Seq::<Phase>::empty());
    assert(banners_of(e2) =~= seq![p]);
    assert(banners_of(e) =~= seq![p]);
    assert(renders_of(e1) =~= Seq::<u32>::empty());
    assert(renders_of(e2) =~= Seq::<u32>::empty());
    assert(renders_of(e) =~= seq![(p.duration_ms / 1000) as u32]);
}

/// Start/end cue pairs of the active phases among the first `i` phases.
pub open spec fn pair_cues(q: Seq<Phase>, i: int) -> Seq<CueKind>
    decreases i,
{
    if i <= 0 {
        Seq::empty()
    } else if phase_active(q[i - 1]) {
        pair_cues(q, i - 1) + seq![CueKind::PhaseStart, CueKind::PhaseEnd]
    } else {
        pair_cues(q, i - 1)
    }
}

/// The cue sequence of a completed session: a start/end pair per active
/// phase followed by the session-end cue, with the last active phase's end
/// cue coalesced into (that is, replaced by) the session-end cue. A session
/// with no active phase emits the session-end cue alone.
pub open spec fn session_cues(q: Seq<Phase>) -> Seq<CueKind> {
    let all = pair_cues(q, q.len() as int);
    if all.len() == 0 {
        seq![CueKind::SessionEnd]
    } else {
        all.drop_last() + seq![CueKind::SessionEnd]
    }
}

/// The banners of the active phases among the first `i` phases.
pub open spec fn banners_upto(q: Seq<Phase>, i: int) -> Seq<Phase>
    decreases i,
{
    if i <= 0 {
        Seq::empty()
    } else if phase_active(q[i - 1]) {
        banners_upto(q, i - 1).push(q[i - 1])
    } else {
        banners_upto(q, i - 1)
    }
}

/// The banner sequence of a completed session: each active phase, in order.
pub open spec fn session_banners(q: Seq<Phase>) -> Seq<Phase> {
    banners_upto(q, q.len() as int)
}

/// Progress lines emitted by the active phases among the first `i` phases:
/// a phase of `D` whole seconds emits exactly `D + 1` of them.
pub open spec fn renders_upto(q: Seq<Phase>, i: int) -> int
    decreases i,
{
    if i <= 0 {
        0
    } else if phase_active(q[i - 1]) {
        renders_upto(q, i - 1) + q[i - 1].duration_ms / 1000 + 1
    } else {
        renders_upto(q, i - 1)
    }
}

/// The number of progress lines of a completed session.
pub open spec fn session_renders(q: Seq<Phase>) -> int {
    renders_upto(q, q.len() as int)
}

/// The first `c` values of a countdown from `d`: `d, d-1, ..., d-c+1`.
pub open spec fn countdown_vals(d: int, c: int) -> Seq<u32>
    decreases c,
{
    if c <= 0 {
        Seq::empty()
    } else {
        countdown_vals(d, c - 1).push((d - (c - 1)) as u32)
    }
}

/// A countdown of `c` values has length `c`.
pub proof fn lemma_countdown_len(d: int, c: int)
    requires
        c >= 0,
    ensures
        countdown_vals(d, c).len() == c,
    decreases c,
{
    if c > 0 {
        lemma_countdown_len(d, c - 1);
    }
}

/// The progress-line values of one active phase of `d` whole seconds: the
/// entry line shows the full duration, then one line per whole second
/// counting down; the last line shows `1`, never `0`.
pub open spec fn phase_render_vals(d: int) -> Seq<u32> {
    seq![d as u32] + countdown_vals(d, d)
}

/// The progress-line values of the active phases among the first `i`.
pub open spec fn render_vals_upto(q: Seq<Phase>, i: int) -> Seq<u32>
    decreases i,
{
    if i <= 0 {
        Seq::empty()
    } else if phase_active(q[i - 1]) {
        render_vals_upto(q, i - 1) + phase_render_vals(q[i - 1].duration_ms as int / 1000)
    } else {
        render_vals_upto(q, i - 1)
    }
}

/// The progress-line values of a completed session, in order.
pub open spec fn session_render_vals(q: Seq<Phase>) -> Seq<u32> {
    render_vals_upto(q, q.len() as int)
}

/// Render cadence: an active phase of `D` whole seconds contributes
/// exactly `D + 1` progress lines to the session — the entry line plus one
/// per whole-second decrement, the last of them showing `1`.
pub proof fn lemma_render_cadence(q: Seq<Phase>, i: int)
    requires
        0 <= i < q.len(),
        phase_active(q[i]),
    ensures
        renders_upto(q, i + 1) == renders_upto(q, i) + q[i].duration_ms / 1000 + 1,
        render_vals_upto(q, i + 1) == render_vals_upto(q, i) + phase_render_vals(
            q[i].duration_ms as int / 1000,
        ),
        phase_render_vals(q[i].duration_ms as int / 1000).len() == q[i].duration_ms / 1000 + 1,
{
    lemma_countdown_len(q[i].duration_ms as int / 1000, q[i].duration_ms as int / 1000);
}

/// Zero-duration skip: a phase of duration zero contributes no cue, no
/// banner, no progress line and no time to the session trace.
pub proof fn lemma_zero_duration_skip(q: Seq<Phase>, i: int)
    requires
        0 <= i < q.len(),
        !phase_active(q[i]),
    ensures
        pair_cues(q, i + 1) == pair_cues(q, i),
        banners_upto(q, i + 1) == banners_upto(q, i),
        renders_upto(q, i + 1) == renders_upto(q, i),
        render_vals_upto(q, i + 1) == render_vals_upto(q, i),
        total_ms_upto(q, i + 1) == total_ms_upto(q, i),
{
}

/// The trace prefixes are unchanged across a stretch of inactive phases.
pub proof fn lemma_skip_stretch(q: Seq<Phase>, i: int, j: int)
    requires
        0 <= i <= j <= q.len(),
        forall|k: int| i <= k < j ==> !phase_active(#[trigger] q[k]),
    ensures
        pair_cues(q, j) == pair_cues(q, i),
        banners_upto(q, j) == banners_upto(q, i),
        renders_upto(q, j) == renders_upto(q, i),
        render_vals_upto(q, j) == render_vals_upto(q, i),
        total_ms_upto(q, j) == total_ms_upto(q, i),
    decreases j - i,
{
    if i < j {
        lemma_skip_stretch(q, i, j - 1);
    }
}

/// Prefix sums of phase durations never decrease.
pub proof fn lemma_total_upto_mono(q: Seq<Phase>, i: int, j: int)
    requires
        0 <= i <= j <= q.len(),
    ensures
        total_ms_upto(q, i) <= total_ms_upto(q, j),
    decreases j - i,
{
    if i < j {
        lemma_total_upto_mono(q, i, j - 1);
    }
}

/// Virtual milliseconds consumed so far by a live countdown.
pub open spec fn consumed_of(q: Seq<Phase>, ts: TimerState) -> int {
    total_ms_upto(q, ts.phase_index as int) + q[ts.phase_index as int].duration_ms
        - ts.remaining_ms
}

/// Total paused time contributed by the first `k` toggle pairs: the `k`-th
/// pair pauses at `tg[2k]` and resumes at `tg[2k+1]`.
pub open spec fn pause_pairs(tg: Seq<u64>, k: int) -> int
    decreases k,
{
    if k <= 0 {
        0
    } else {
        pause_pairs(tg, k - 1) + tg[2 * k - 1] - tg[2 * k - 2]
    }
}

/// Total paused time of a balanced toggle schedule.
pub open spec fn pause_total(tg: Seq<u64>) -> int {
    pause_pairs(tg, tg.len() as int / 2)
}

/// The schedule times are strictly increasing.
pub open spec fn strictly_increasing(tg: Seq<u64>) -> bool {
    forall|a: int, b: int| 0 <= a < b < tg.len() ==> tg[a] < tg[b]
}

/// Every pause begins while the countdown is still running: the virtual
/// time already consumed when the `j`-th pause starts is under the total.
pub open spec fn toggles_in_run(total: int, tg: Seq<u64>) -> bool {
    forall|j: int| 0 <= j < tg.len() as int / 2 ==> tg[2 * j] - pause_pairs(tg, j) < total
}

/// Pause sums of a strictly increasing schedule are non-negative, grow with
/// the number of pairs, and never exceed the last resume time counted.
pub proof fn lemma_pause_pairs_mono(tg: Seq<u64>, k: int, m: int)
    requires
        strictly_increasing(tg),
        0 <= k <= m,
        2 * m <= tg.len(),
    ensures
        0 <= pause_pairs(tg, k) <= pause_pairs(tg, m),
        m >= 1 ==> pause_pairs(tg, m) <= tg[2 * m - 1],
    decreases m,
{
    if m > 0 {
        if k == m {
            lemma_pause_pairs_mono(tg, k - 1, m - 1);
        } else {
            lemma_pause_pairs_mono(tg, k, m - 1);
        }
        assert(tg[2 * m - 2] < tg[2 * m - 1]);
        if m >= 2 {
            assert(tg[2 * m - 3] < tg[2 * m - 2]);
        }
    }
}

/// The full observable trace of one virtual run.
pub struct RunTrace {
    /// Cues, in the order they were emitted.
    pub cues: Vec<CueKind>,
    /// Phase banners, in the order they were rendered.
    pub banners: Vec<Phase>,
    /// Progress lines (whole seconds remaining), in render order.
    pub renders: Vec<u32>,
    /// How the run ended.
    pub outcome: Outcome,
    /// Virtual wall-clock time from start to return, in milliseconds.
    pub elapsed_ms: u64,
}

/// Append the cues, banners and progress lines of `acts` to the trace
/// under construction.
fn record(acts: &Vec<Action>, cues: &mut Vec<CueKind>, banners: &mut Vec<Phase>, renders: &mut Vec<
    u32,
>)
    ensures
        final(cues)@ == old(cues)@ + cues_of(acts@),
        final(banners)@ == old(banners)@ + banners_of(acts@),
        final(renders)@ == old(renders)@ + renders_of(acts@),
{
    let n = acts.len();
    let mut k: usize = 0;
    while k < n
        invariant
            0 <= k <= n == acts@.len(),
            cues@ == old(cues)@ + cues_of(acts@.take(k as int)),
            banners@ == old(banners)@ + banners_of(acts@.take(k as int)),
            renders@ == old(renders)@ + renders_of(acts@.take(k as int)),
        decreases n - k,
    {
        proof {
            let t = acts@.take(k + 1);
            assert(t.drop_last() =~= acts@.take(k as int));
            assert(t.last() == acts@[k as int]);
        }
        match acts[k] {
            Action::Cue(c) => {
                cues.push(c);
                proof {
                    assert(cues@ =~= old(cues)@ + cues_of(acts@.take(k + 1)));
                    assert(banners@ =~= old(banners)@ + banners_of(acts@.take(k + 1)));
                    assert(renders@ =~= old(renders)@ + renders_of(acts@.take(k + 1)));
                }
            },
            Action::Banner(p) => {
                banners.push(p);
                proof {
                    assert(cues@ =~= old(cues)@ + cues_of(acts@.take(k + 1)));
                    assert(banners@ =~= old(banners)@ + banners_of(acts@.take(k + 1)));
                    assert(renders@ =~= old(renders)@ + renders_of(acts@.take(k + 1)));
                }
            },
            Action::Progress(s) => {
                renders.push(s);
                proof {
                    assert(cues@ =~= old(cues)@ + cues_of(acts@.take(k + 1)));
                    assert(banners@ =~= old(banners)@ + banners_of(acts@.take(k + 1)));
                    assert(renders@ =~= old(renders)@ + renders_of(acts@.take(k + 1)));
                }
            },
        }
        k = k + 1;
    }
    proof {
        assert(acts@.take(n as int) =~= acts@);
    }
}

/// The trace accumulated so far while the countdown sits inside an active
/// phase: cues and banners of the phases entered so far, and one progress
/// line per whole second already consumed of the current phase on top of
/// its entry line.
pub open spec fn trace_live_ok(
    q: Seq<Phase>,
    ts: TimerState,
    cues: Seq<CueKind>,
    banners: Seq<Phase>,
    rlen: int,
) -> bool {
    let i = ts.phase_index as int;
    &&& cues == pair_cues(q, i).push(CueKind::PhaseStart)
    &&& banners == banners_upto(q, i).push(q[i])
    &&& rlen == renders_upto(q, i) + 1 + (q[i].duration_ms - ts.remaining_ms + 999) / 1000
}

/// The progress-line values accumulated while inside an active phase: the
/// completed phases' values, the current phase's entry line, and one value
/// per whole second already consumed, counting down from the full duration.
pub open spec fn render_vals_live_ok(q: Seq<Phase>, ts: TimerState, renders: Seq<u32>) -> bool {
    let i = ts.phase_index as int;
    let d = q[i].duration_ms as int / 1000;
    let c = (q[i].duration_ms - ts.remaining_ms + 999) / 1000;
    renders == render_vals_upto(q, i) + seq![d as u32] + countdown_vals(d, c)
}

/// The wall clock of a live countdown: while running it equals consumed
/// time plus the pauses already paid; while paused the consumed time is
/// frozen at the value it had when the current pause began.
pub open spec fn wall_live_ok(
    q: Seq<Phase>,
    ts: TimerState,
    tg: Seq<u64>,
    ti: int,
    t: int,
) -> bool {
    if !ts.paused {
        &&& ti % 2 == 0
        &&& t == consumed_of(q, ts) + pause_pairs(tg, ti / 2)
    } else {
        &&& ti % 2 == 1
        &&& tg[ti - 1] == consumed_of(q, ts) + pause_pairs(tg, (ti - 1) / 2)
        &&& t >= tg[ti - 1]
    }
}

/// Play a whole session under virtual time.
///
/// One tick is delivered per virtual millisecond; a control event scheduled
/// for an instant is delivered before that instant's tick. `toggles` holds
/// the instants of pause/resume toggles, strictly increasing and balanced,
/// each pause beginning while the countdown still runs; `quit_at`, which
/// excludes toggles, schedules a quit.
///
/// The contract carries the session laws. A run that completes does so at
/// exactly the total countdown time plus the total paused time (duration
/// conservation; pause freeze — the pauses shift completion by exactly
/// their length and leave the trace untouched), its cues are the start/end
/// pairs of the active phases with the final end cue coalesced into the
/// session-end cue, its banners are the active phases in order, and its
/// progress lines are, per active phase, the entry line showing the full
/// duration followed by one line per whole second counting down to `1`
/// (render cadence: `D + 1` lines for a phase of `D` seconds). A quit
/// scheduled inside the countdown ends
/// the run at exactly its own instant: not a single further tick is
/// consumed (quit punctuality).
#[verifier::loop_isolation(false)]
#[verifier::rlimit(100)]
pub fn run_virtual(queue: PhaseQueue, toggles: &Vec<u64>, quit_at: Option<u64>) -> (tr: RunTrace)
    requires
        queue_wf(queue@),
        total_ms(queue@) <= 0x1000_0000_0000_0000,
        strictly_increasing(toggles@),
        toggles@.len() % 2 == 0,
        forall|k: int| 0 <= k < toggles@.len() ==> #[trigger] toggles@[k] <= 0x1000_0000_0000_0000,
        toggles_in_run(total_ms(queue@), toggles@),
        quit_at is Some ==> toggles@.len() == 0 && quit_at->0 <= 0x1000_0000_0000_0000,
    ensures
        (match quit_at {
            Option::None => true,
            Option::Some(qt) => qt >= total_ms(queue@),
        }) ==> {
            &&& tr.outcome == Outcome::Completed
            &&& tr.elapsed_ms == total_ms(queue@) + pause_total(toggles@)
            &&& tr.cues@ == session_cues(queue@)
            &&& tr.banners@ == session_banners(queue@)
            &&& tr.renders@.len() == session_renders(queue@)
            &&& tr.renders@ == session_render_vals(queue@)
        },
        (match quit_at {
            Option::None => false,
            Option::Some(qt) => qt < total_ms(queue@),
        }) ==> {
            &&& tr.outcome == Outcome::QuitRequested
            &&& tr.elapsed_ms as int == quit_at->0
        },
{
    let ghost gq = queue@;
    let ghost tg = toggles@;
    let qn: usize = queue.phases.len();
    proof {
        assert(gq.len() == qn);
    }
    let (mut sq, acts0) = Sequencer::start(queue);
    let mut cues: Vec<CueKind> = Vec::new();
    let mut banners: Vec<Phase> = Vec::new();
    let mut renders: Vec<u32> = Vec::new();
    record(&acts0, &mut cues, &mut banners, &mut renders);
    let mut t_wall: u64 = 0;
    let mut ti: usize = 0;
    proof {
        lemma_next_active(gq, 0);
        let j = next_active(gq, 0);
        lemma_skip_stretch(gq, 0, j);
        if j == gq.len() {
            // the whole queue is inactive: the session completed on the spot
            assert(pair_cues(gq, j).len() == 0);
            assert(total_ms(gq) == 0);
            lemma_project_singleton(Action::Cue(CueKind::SessionEnd));
            assert(acts0@ == seq![Action::Cue(CueKind::SessionEnd)]);
            assert(cues_of(acts0@) =~= seq![CueKind::SessionEnd]);
            assert(banners_of(acts0@) =~= Seq::<Phase>::empty());
            assert(renders_of(acts0@) =~= Seq::<u32>::empty());
            assert(cues@ =~= session_cues(gq));
            assert(banners@ =~= session_banners(gq));
            assert(renders@ =~= session_render_vals(gq));
            if tg.len() > 0 {
                lemma_pause_pairs_mono(tg, 0, 1);
                assert(tg[0] - pause_pairs(tg, 0) < 0);
                assert(false);
            }
            assert(pause_total(tg) == 0);
        } else {
            lemma_entry_projections(gq[j]);
            assert(cues@ =~= pair_cues(gq, j).push(CueKind::PhaseStart));
            assert(banners@ =~= banners_upto(gq, j).push(gq[j]));
            assert((gq[j].duration_ms - gq[j].duration_ms + 999) / 1000 == 0);
            let dj = gq[j].duration_ms as int / 1000;
            assert(renders@ =~= render_vals_upto(gq, j) + seq![dj as u32] + countdown_vals(dj, 0));
        }
    }
    loop
        invariant
            sq.wf(),
            sq.queue@ == gq,
            ti <= tg.len(),
            match sq.status {
                SequencerStatus::Active(ts) => {
                    &&& trace_live_ok(gq, ts, cues@, banners@, renders@.len() as int)
                    &&& render_vals_live_ok(gq, ts, renders@)
                    &&& wall_live_ok(gq, ts, tg, ti as int, t_wall as int)
                    &&& forall|k: int| ti <= k < tg.len() ==> #[trigger] tg[k] >= t_wall
                    &&& quit_at is Some ==> quit_at->0 >= t_wall
                },
                SequencerStatus::Finished(o) => match o {
                    Outcome::Completed => {
                        &&& cues@ == session_cues(gq)
                        &&& banners@ == session_banners(gq)
                        &&& renders@.len() == session_renders(gq)
                        &&& renders@ == session_render_vals(gq)
                        &&& t_wall == total_ms(gq) + pause_total(tg)
                        &&& quit_at is Some ==> quit_at->0 >= total_ms(gq)
                    },
                    Outcome::QuitRequested => {
                        &&& quit_at == Some(t_wall)
                        &&& t_wall < total_ms(gq)
                    },
                    Outcome::Failed(_) => false,
                },
            },
        decreases total_ms(gq) + pause_total(tg) - t_wall,
    {
        if sq.is_finished() {
            break ;
        }
        let ghost ts0 = sq.status->Active_0;
        proof {
            let i = ts0.phase_index as int;
            lemma_total_upto_mono(gq, i + 1, gq.len() as int);
            assert(total_ms_upto(gq, i + 1) == total_ms_upto(gq, i) + gq[i].duration_ms);
            assert(consumed_of(gq, ts0) <= total_ms(gq) - 1);
        }
        let mut quit_now = false;
        if let Some(qt) = quit_at {
            if qt == t_wall {
                quit_now = true;
            }
        }
        if quit_now {
            sq.on_control(ControlEvent::Quit);
            proof {
                assert(pause_pairs(tg, 0) == 0);
                assert(t_wall == consumed_of(gq, ts0));
            }
            break ;
        }
        if ti < toggles.len() {
            if toggles[ti] == t_wall {
                sq.on_control(ControlEvent::Toggle);
                proof {
                    if ts0.paused {
                        // a resume: close the pause pair that began at tg[ti - 1]
                        let k = (ti - 1) as int / 2;
                        assert(2 * k + 1 == ti as int);
                        assert(pause_pairs(tg, k + 1) == pause_pairs(tg, k) + tg[2 * k + 1] - tg[
                            2 * k
                        ]);
                        assert(tg[ti as int] == t_wall);
                    }
                }
                ti = ti + 1;
            }
        }
        let ghost ts1 = sq.status->Active_0;
        proof {
            assert(ts1.phase_index == ts0.phase_index && ts1.remaining_ms == ts0.remaining_ms);
            // every undelivered control event now lies strictly in the future
            assert(forall|k: int| ti <= k < tg.len() ==> #[trigger] tg[k] > t_wall);
            assert(quit_at is Some ==> quit_at->0 > t_wall);
            if ts1.paused {
                assert(ti % 2 == 1);
                assert(ti < tg.len());
            }
        }
        let acts = sq.on_tick();
        record(&acts, &mut cues, &mut banners, &mut renders);
        proof {
            let i = ts1.phase_index as int;
            let d = gq[i].duration_ms as int;
            let m = d - ts1.remaining_ms;
            if ts1.paused {
                // tick discarded; the wall clock alone moves
                assert(cues_of(acts@) =~= Seq::<CueKind>::empty());
                assert(banners_of(acts@) =~= Seq::<Phase>::empty());
                assert(renders_of(acts@) =~= Seq::<u32>::empty());
                assert(cues@ =~= pair_cues(gq, i).push(CueKind::PhaseStart));
                assert(banners@ =~= banners_upto(gq, i).push(gq[i]));
                assert(renders@.len() == renders_upto(gq, i) + 1 + (m + 999) / 1000);
                assert(renders@ =~= render_vals_upto(gq, i) + seq![(d / 1000) as u32]
                    + countdown_vals(d / 1000, (m + 999) / 1000));
                let k = (ti - 1) as int / 2;
                lemma_pause_pairs_mono(tg, k + 1, tg.len() as int / 2);
                assert(2 * k + 1 == ti as int - 1 + 1);
                assert(pause_pairs(tg, k + 1) == pause_pairs(tg, k) + tg[2 * k + 1] - tg[2 * k]);
                assert(tg[ti as int] <= total_ms(gq) - 1 + pause_total(tg));
                assert(t_wall < tg[ti as int]);
            } else {
                let pre = if ts1.remaining_ms % 1000 == 0 {
                    seq![Action::Progress((ts1.remaining_ms as u64 / 1000) as u32)]
                } else {
                    Seq::<Action>::empty()
                };
                assert(d % 1000 == 0);
                if ts1.remaining_ms % 1000 == 0 {
                    assert(m % 1000 == 0);
                    assert((m + 999) / 1000 == m / 1000);
                    assert((m + 1 + 999) / 1000 == m / 1000 + 1);
                    lemma_project_singleton(Action::Progress((ts1.remaining_ms as u64 / 1000) as u32));
                    assert(cues_of(pre) =~= Seq::<CueKind>::empty());
                    assert(banners_of(pre) =~= Seq::<Phase>::empty());
                    assert(renders_of(pre) =~= seq![(ts1.remaining_ms as u64 / 1000) as u32]);
                } else {
                    assert(m % 1000 != 0);
                    assert((m + 1 + 999) / 1000 == (m + 999) / 1000);
                    assert(cues_of(pre) =~= Seq::<CueKind>::empty());
                    assert(banners_of(pre) =~= Seq::<Phase>::empty());
                    assert(renders_of(pre) =~= Seq::<u32>::empty());
                }
                if ts1.remaining_ms != 1 {
                    // the countdown merely steps: the trace grows by at most
                    // the boundary progress line
                    assert(acts@ == pre);
                    assert(cues@ =~= pair_cues(gq, i).push(CueKind::PhaseStart));
                    assert(banners@ =~= banners_upto(gq, i).push(gq[i]));
                    assert(renders@.len() == renders_upto(gq, i) + 1 + (m + 1 + 999) / 1000);
                    if ts1.remaining_ms % 1000 == 0 {
                        assert((d - m) / 1000 == d / 1000 - m / 1000);
                        assert(countdown_vals(d / 1000, m / 1000 + 1) == countdown_vals(
                            d / 1000,
                            m / 1000,
                        ).push((d / 1000 - m / 1000) as u32));
                        assert(renders@ =~= render_vals_upto(gq, i) + seq![(d / 1000) as u32]
                            + countdown_vals(d / 1000, m / 1000 + 1));
                    } else {
                        assert(renders@ =~= render_vals_upto(gq, i) + seq![(d / 1000) as u32]
                            + countdown_vals(d / 1000, (m + 999) / 1000));
                    }
                }
                if ts1.remaining_ms == 1 {
                    // the phase ends on this tick
                    lemma_next_active(gq, i + 1);
                    let j = next_active(gq, i + 1);
                    lemma_skip_stretch(gq, i + 1, j);
                    assert(pair_cues(gq, i + 1) =~= pair_cues(gq, i) + seq![
                        CueKind::PhaseStart,
                        CueKind::PhaseEnd,
                    ]);
                    assert(banners_upto(gq, i + 1) =~= banners_upto(gq, i).push(gq[i]));
                    assert(renders_upto(gq, i + 1) == renders_upto(gq, i) + d / 1000 + 1);
                    assert((d - 1 + 999) / 1000 == d / 1000);
                    // the phase's progress lines are complete: entry line
                    // plus a full countdown
                    assert(render_vals_upto(gq, i + 1) == render_vals_upto(gq, i)
                        + phase_render_vals(d / 1000));
                    if j == gq.len() {
                        // last active phase: coalesced session end
                        let se = seq![Action::Cue(CueKind::SessionEnd)];
                        assert(acts@ == pre + se);
                        lemma_project_concat(pre, se);
                        lemma_project_singleton(Action::Cue(CueKind::SessionEnd));
                        assert(cues_of(se) =~= seq![CueKind::SessionEnd]);
                        assert(banners_of(se) =~= Seq::<Phase>::empty());
                        assert(renders_of(se) =~= Seq::<u32>::empty());
                        assert(pair_cues(gq, gq.len() as int).len() > 0);
                        assert(cues@ =~= session_cues(gq));
                        assert(banners@ =~= session_banners(gq));
                        assert(renders@ =~= render_vals_upto(gq, i) + phase_render_vals(d / 1000));
                        assert(renders@ =~= session_render_vals(gq));
                        assert(total_ms(gq) == total_ms_upto(gq, i + 1));
                        // every toggle was delivered: an undelivered pause
                        // would have to begin at or after the total
                        if ti < tg.len() {
                            assert(ti % 2 == 0);
                            let jj = ti as int / 2;
                            lemma_pause_pairs_mono(tg, jj, tg.len() as int / 2);
                            assert(tg[2 * jj] - pause_pairs(tg, jj) < total_ms(gq));
                            assert(tg[2 * jj] > t_wall);
                            assert(t_wall as int == total_ms(gq) - 1 + pause_pairs(tg, jj));
                            assert(false);
                        }
                        assert(pause_pairs(tg, ti as int / 2) == pause_total(tg));
                    } else {
                        let mid = seq![Action::Cue(CueKind::PhaseEnd)];
                        assert(acts@ == pre + mid + entry_actions(gq[j]));
                        lemma_project_concat(pre + mid, entry_actions(gq[j]));
                        lemma_project_concat(pre, mid);
                        lemma_entry_projections(gq[j]);
                        lemma_project_singleton(Action::Cue(CueKind::PhaseEnd));
                        assert(cues_of(mid) =~= seq![CueKind::PhaseEnd]);
                        assert(banners_of(mid) =~= Seq::<Phase>::empty());
                        assert(renders_of(mid) =~= Seq::<u32>::empty());
                        assert(cues@ =~= pair_cues(gq, j).push(CueKind::PhaseStart));
                        assert(banners@ =~= banners_upto(gq, j).push(gq[j]));
                        assert((gq[j].duration_ms - gq[j].duration_ms + 999) / 1000 == 0);
                        assert(renders@.len() == renders_upto(gq, j) + 1);
                        let dj = gq[j].duration_ms as int / 1000;
                        assert(render_vals_upto(gq, j) == render_vals_upto(gq, i)
                            + phase_render_vals(d / 1000));
                        assert(renders@ =~= render_vals_upto(gq, j) + seq![dj as u32]
                            + countdown_vals(dj, 0));
                        lemma_total_upto_mono(gq, j + 1, gq.len() as int);
                        assert(total_ms_upto(gq, j) == total_ms_upto(gq, i + 1));
                    }
                }
                lemma_pause_pairs_mono(tg, ti as int / 2, tg.len() as int / 2);
            }
            assert(t_wall + 1 <= total_ms(gq) + pause_total(tg));
        }
        t_wall = t_wall + 1;
    }
    let outcome = match sq.outcome() {
        Some(o) => o,
        None => {
            proof {
                assert(false);
            }
            Outcome::Completed
        },
    };
    RunTrace { cues, banners, renders, outcome, elapsed_ms: t_wall }
}

} // verus!
