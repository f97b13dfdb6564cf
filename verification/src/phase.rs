//! Phases and the phase queue.
//!
//! A session is an ordered queue of countdown phases built from a
//! [`Config`](crate::config::Config): one Warmup phase, then a Work/Rest pair
//! per round. A phase with duration zero stays in the queue but is skipped by
//! the sequencer.

use vstd::prelude::*;
use crate::config::Config;

verus! {

/// The kind of a countdown phase.
#[derive(Clone, Copy, PartialEq, Eq, Structural, Debug)]
pub enum PhaseKind {
    Warmup,
    Work,
    Rest,
}

/// A single countdown segment.
#[derive(Clone, Copy, PartialEq, Eq, Structural, Debug)]
pub struct Phase {
    pub kind: PhaseKind,
    /// Duration in milliseconds; always a whole number of seconds.
    pub duration_ms: u64,
    /// Zero-based round this phase belongs to (0 for the warmup).
    pub round_index: u16,
}

/// A phase takes part in the countdown only if its duration is non-zero.
pub open spec fn phase_active(p: Phase) -> bool {
    p.duration_ms > 0
}

/// Each phase duration is a whole number of seconds that fits in `u32`.
pub open spec fn queue_wf(q: Seq<Phase>) -> bool {
    forall|i: int| 0 <= i < q.len() ==> (#[trigger] q[i]).duration_ms % 1000 == 0
        && q[i].duration_ms <= u32::MAX as u64 * 1000
}

/// The number of rounds the session actually runs: one when `one_shot` is
/// set, otherwise the configured round count.
pub open spec fn effective_rounds(c: Config) -> int {
    if c.one_shot {
        1
    } else {
        c.rounds as int
    }
}

/// The phase at index `i` of the queue built from `c`: Warmup at index 0,
/// then Work and Rest alternating, round by round.
pub open spec fn queue_phase(c: Config, i: int) -> Phase {
    if i == 0 {
        Phase { kind: PhaseKind::Warmup, duration_ms: (c.get_ready as u64 * 1000) as u64, round_index: 0 }
    } else if (i - 1) % 2 == 0 {
        Phase {
            kind: PhaseKind::Work,
            duration_ms: (c.first as u64 * 1000) as u64,
            round_index: ((i - 1) / 2) as u16,
        }
    } else {
        Phase {
            kind: PhaseKind::Rest,
            duration_ms: (c.second as u64 * 1000) as u64,
            round_index: ((i - 1) / 2) as u16,
        }
    }
}

/// The whole queue built from `c`.
pub open spec fn queue_model(c: Config) -> Seq<Phase> {
    Seq::new((1 + 2 * effective_rounds(c)) as nat, |i: int| queue_phase(c, i))
}

/// The immutable, ordered list of phases of one session.
pub struct PhaseQueue {
    pub phases: Vec<Phase>,
}

impl View for PhaseQueue {
    type V = Seq<Phase>;

    open spec fn view(&self) -> Seq<Phase> {
        self.phases@
    }
}

impl PhaseQueue {
    /// Build the queue for `c`: a Warmup of `get_ready` seconds, then for
    /// each effective round a Work phase of `first` seconds and a Rest phase
    /// of `second` seconds. `one_shot` forces a single round.
    pub fn from_config(c: &Config) -> (q: PhaseQueue)
        ensures
            q@ == queue_model(*c),
            queue_wf(q@),
    {
        let rounds: u16 = if c.one_shot {
            1
        } else {
            c.rounds
        };
        let mut phases: Vec<Phase> = Vec::new();
        phases.push(
            Phase {
                kind: PhaseKind::Warmup,
                duration_ms: c.get_ready as u64 * 1000,
                round_index: 0,
            },
        );
        let mut r: u16 = 0;
        while r < rounds
            invariant
                r <= rounds,
                rounds as int == effective_rounds(*c),
                phases@.len() == 1 + 2 * r,
                forall|i: int| 0 <= i < phases@.len() ==> phases@[i] == queue_phase(*c, i),
            decreases rounds - r,
        {
            phases.push(
                Phase { kind: PhaseKind::Work, duration_ms: c.first as u64 * 1000, round_index: r },
            );
            phases.push(
                Phase {
                    kind: PhaseKind::Rest,
                    duration_ms: c.second as u64 * 1000,
                    round_index: r,
                },
            );
            proof {
                assert(phases@[2 * r + 1] == queue_phase(*c, 2 * r + 1));
                assert(phases@[2 * r + 2] == queue_phase(*c, 2 * r + 2));
            }
            r = r + 1;
        }
        let q = PhaseQueue { phases };
        proof {
            assert(q@ =~= queue_model(*c));
        }
        q
    }

    /// The number of phases in the queue.
    pub fn len(&self) -> (n: usize)
        ensures
            n == self@.len(),
    {
        self.phases.len()
    }
}

/// Total countdown time of the queue in milliseconds (zero-duration phases
/// contribute nothing).
pub open spec fn total_ms_upto(q: Seq<Phase>, i: int) -> int
    decreases i,
{
    if i <= 0 {
        0
    } else {
        total_ms_upto(q, i - 1) + q[i - 1].duration_ms
    }
}

/// Total countdown time of the whole queue in milliseconds.
pub open spec fn total_ms(q: Seq<Phase>) -> int {
    total_ms_upto(q, q.len() as int)
}

proof fn lemma_model_total_upto(c: Config, k: int)
    requires
        0 <= k <= effective_rounds(c),
    ensures
        total_ms_upto(queue_model(c), 1 + 2 * k) == 1000 * c.get_ready + k * (1000 * c.first
            + 1000 * c.second),
    decreases k,
{
    let q = queue_model(c);
    if k == 0 {
        assert(total_ms_upto(q, 1) == total_ms_upto(q, 0) + q[0].duration_ms);
        assert(q[0] == queue_phase(c, 0));
    } else {
        lemma_model_total_upto(c, k - 1);
        assert(q[2 * k - 1] == queue_phase(c, 2 * k - 1));
        assert(q[2 * k] == queue_phase(c, 2 * k));
        assert((2 * k - 1 - 1) % 2 == 0);
        assert((2 * k - 1) % 2 == 1);
        assert(total_ms_upto(q, 2 * k) == total_ms_upto(q, 2 * k - 1) + q[2 * k - 1].duration_ms);
        assert(total_ms_upto(q, 1 + 2 * k) == total_ms_upto(q, 2 * k) + q[2 * k].duration_ms);
        assert(k * (1000 * c.first + 1000 * c.second) == (k - 1) * (1000 * c.first + 1000
            * c.second) + 1000 * c.first + 1000 * c.second) by (nonlinear_arith);
    }
}

/// Duration conservation at the configuration level: the countdown time of
/// the queue built from `c` is `get_ready + rounds * (first + second)`
/// seconds, with the round count forced to one when `one_shot` is set. An
/// unpaused completed run takes exactly this much virtual time (see the
/// contract of `run_virtual`).
pub proof fn lemma_duration_conservation(c: Config)
    ensures
        total_ms(queue_model(c)) == 1000 * c.get_ready + effective_rounds(c) * (1000 * c.first
            + 1000 * c.second),
{
    lemma_model_total_upto(c, effective_rounds(c));
    assert(queue_model(c).len() == 1 + 2 * effective_rounds(c));
}

} // verus!
