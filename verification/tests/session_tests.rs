use rustboss::config::Config;
use rustboss::driver::run_virtual;
use rustboss::phase::{PhaseKind, PhaseQueue};
use rustboss::sequencer::{
    Action, ControlEvent, CueKind, FailCause, Outcome, Sequencer,
};

fn config(get_ready: u32, first: u32, second: u32, rounds: u16, one_shot: bool) -> Config {
    Config { get_ready, first, second, rounds, one_shot }
}

#[test]
fn queue_layout_warmup_then_rounds() {
    let q = PhaseQueue::from_config(&config(2, 3, 1, 2, false));
    assert_eq!(q.len(), 5);
    assert_eq!(q.phases.len(), 5);
    assert_eq!(q.phases[0].kind, PhaseKind::Warmup);
    assert_eq!(q.phases[0].duration_ms, 2000);
    assert_eq!(q.phases[0].round_index, 0);
    assert_eq!(q.phases[1].kind, PhaseKind::Work);
    assert_eq!(q.phases[1].duration_ms, 3000);
    assert_eq!(q.phases[1].round_index, 0);
    assert_eq!(q.phases[2].kind, PhaseKind::Rest);
    assert_eq!(q.phases[2].duration_ms, 1000);
    assert_eq!(q.phases[2].round_index, 0);
    assert_eq!(q.phases[3].kind, PhaseKind::Work);
    assert_eq!(q.phases[3].round_index, 1);
    assert_eq!(q.phases[4].kind, PhaseKind::Rest);
    assert_eq!(q.phases[4].round_index, 1);
}

#[test]
fn queue_one_shot_forces_single_round() {
    let q = PhaseQueue::from_config(&config(0, 5, 5, 9, true));
    assert_eq!(q.phases.len(), 3);
    assert_eq!(q.phases[0].duration_ms, 0);
    assert_eq!(q.phases[1].duration_ms, 5000);
    assert_eq!(q.phases[2].duration_ms, 5000);
}

#[test]
fn happy_path_cues_and_duration() {
    // warmup 2 s, one round of work 3 s / rest 1 s, no input
    let q = PhaseQueue::from_config(&config(2, 3, 1, 1, false));
    let tr = run_virtual(q, &vec![], None);
    assert_eq!(tr.outcome, Outcome::Completed);
    assert_eq!(tr.elapsed_ms, 6000);
    assert_eq!(
        tr.cues,
        vec![
            CueKind::PhaseStart,
            CueKind::PhaseEnd,
            CueKind::PhaseStart,
            CueKind::PhaseEnd,
            CueKind::PhaseStart,
            CueKind::SessionEnd,
        ]
    );
    let kinds: Vec<PhaseKind> = tr.banners.iter().map(|p| p.kind).collect();
    assert_eq!(kinds, vec![PhaseKind::Warmup, PhaseKind::Work, PhaseKind::Rest]);
    // D + 1 progress lines per phase; the last line of a phase shows 1
    assert_eq!(tr.renders, vec![2, 2, 1, 3, 3, 2, 1, 1, 1]);
}

#[test]
fn one_shot_override_two_active_phases() {
    // zero-duration warmup skipped; nine rounds forced down to one
    let q = PhaseQueue::from_config(&config(0, 5, 5, 9, true));
    let tr = run_virtual(q, &vec![], None);
    assert_eq!(tr.outcome, Outcome::Completed);
    assert_eq!(tr.elapsed_ms, 10000);
    // the session-end cue comes only after the rest phase ends
    assert_eq!(
        tr.cues,
        vec![CueKind::PhaseStart, CueKind::PhaseEnd, CueKind::PhaseStart, CueKind::SessionEnd]
    );
    let kinds: Vec<PhaseKind> = tr.banners.iter().map(|p| p.kind).collect();
    assert_eq!(kinds, vec![PhaseKind::Work, PhaseKind::Rest]);
}

#[test]
fn pause_then_resume_shifts_completion() {
    // work 10 s; pause at t=3 s, resume at t=7 s: completion maps to wall 14 s
    let q = PhaseQueue::from_config(&config(0, 10, 0, 1, false));
    let tr = run_virtual(q, &vec![3000, 7000], None);
    assert_eq!(tr.outcome, Outcome::Completed);
    assert_eq!(tr.elapsed_ms, 14000);
    // exactly 11 progress lines: the entry line and one per whole second
    assert_eq!(tr.renders.len(), 11);
    assert_eq!(tr.renders, vec![10, 10, 9, 8, 7, 6, 5, 4, 3, 2, 1]);
    assert_eq!(tr.cues, vec![CueKind::PhaseStart, CueKind::SessionEnd]);
}

#[test]
fn pause_freeze_matches_unpaused_run_plus_pause() {
    let q1 = PhaseQueue::from_config(&config(0, 10, 0, 1, false));
    let unpaused = run_virtual(q1, &vec![], None);
    let q2 = PhaseQueue::from_config(&config(0, 10, 0, 1, false));
    let paused = run_virtual(q2, &vec![3000, 7000], None);
    assert_eq!(paused.elapsed_ms, unpaused.elapsed_ms + 4000);
    assert_eq!(paused.cues, unpaused.cues);
    assert_eq!(paused.renders, unpaused.renders);
}

#[test]
fn quit_mid_phase_is_punctual() {
    // warmup 5 s; quit injected at t=3 s
    let q = PhaseQueue::from_config(&config(5, 60, 60, 10, false));
    let tr = run_virtual(q, &vec![], Some(3000));
    assert_eq!(tr.outcome, Outcome::QuitRequested);
    assert_eq!(tr.elapsed_ms, 3000);
    // exactly 4 progress lines were written before the quit
    assert_eq!(tr.renders, vec![5, 5, 4, 3]);
    assert_eq!(tr.cues, vec![CueKind::PhaseStart]);
}

#[test]
fn zero_everywhere_completes_immediately() {
    let q = PhaseQueue::from_config(&config(0, 0, 0, 1, false));
    let tr = run_virtual(q, &vec![], None);
    assert_eq!(tr.outcome, Outcome::Completed);
    assert_eq!(tr.elapsed_ms, 0);
    assert_eq!(tr.cues, vec![CueKind::SessionEnd]);
    assert!(tr.banners.is_empty());
    assert!(tr.renders.is_empty());
}

#[test]
fn zero_duration_phase_emits_nothing() {
    // warmup 0 contributes no cue, banner or progress line
    let q = PhaseQueue::from_config(&config(0, 2, 0, 1, false));
    let tr = run_virtual(q, &vec![], None);
    assert_eq!(tr.outcome, Outcome::Completed);
    assert_eq!(tr.elapsed_ms, 2000);
    assert_eq!(tr.cues, vec![CueKind::PhaseStart, CueKind::SessionEnd]);
    assert_eq!(tr.banners.len(), 1);
    assert_eq!(tr.banners[0].kind, PhaseKind::Work);
    assert_eq!(tr.renders, vec![2, 2, 1]);
}

#[test]
fn render_lost_aborts_session() {
    // a renderer stubbed to fail on its second write: the banner write
    // succeeds, the first progress write fails
    let q = PhaseQueue::from_config(&config(2, 3, 1, 1, false));
    let (mut sq, acts) = Sequencer::start(q);
    let mut writes: u32 = 0;
    let mut cues: Vec<CueKind> = Vec::new();
    let mut failed = false;
    for a in &acts {
        match a {
            Action::Cue(c) => cues.push(*c),
            Action::Banner(_) | Action::Progress(_) => {
                writes += 1;
                if writes == 2 {
                    failed = true;
                }
            },
        }
    }
    assert!(failed);
    sq.on_render_failure();
    assert_eq!(sq.outcome(), Some(Outcome::Failed(FailCause::RenderLost)));
    // subsequent phases are not started: further ticks do nothing
    for _ in 0..5000 {
        let more = sq.on_tick();
        assert!(more.is_empty());
    }
    assert_eq!(cues, vec![CueKind::PhaseStart]);
    assert_eq!(sq.outcome(), Some(Outcome::Failed(FailCause::RenderLost)));
}

#[test]
fn clock_lost_aborts_session() {
    let q = PhaseQueue::from_config(&config(1, 1, 1, 1, false));
    let (mut sq, _acts) = Sequencer::start(q);
    sq.on_clock_failure();
    assert_eq!(sq.outcome(), Some(Outcome::Failed(FailCause::ClockLost)));
    assert!(sq.on_tick().is_empty());
}

#[test]
fn toggle_freezes_ticks_and_resume_continues() {
    let q = PhaseQueue::from_config(&config(0, 1, 0, 1, false));
    let (mut sq, _acts) = Sequencer::start(q);
    sq.on_control(ControlEvent::Toggle);
    for _ in 0..10000 {
        assert!(sq.on_tick().is_empty());
    }
    assert_eq!(sq.outcome(), None);
    sq.on_control(ControlEvent::Toggle);
    let mut cues: Vec<CueKind> = Vec::new();
    for _ in 0..1000 {
        for a in &sq.on_tick() {
            if let Action::Cue(c) = a {
                cues.push(*c);
            }
        }
    }
    assert_eq!(sq.outcome(), Some(Outcome::Completed));
    assert_eq!(cues, vec![CueKind::SessionEnd]);
}

#[test]
fn quit_while_paused_returns_at_once() {
    let q = PhaseQueue::from_config(&config(0, 5, 0, 1, false));
    let (mut sq, _acts) = Sequencer::start(q);
    sq.on_control(ControlEvent::Toggle);
    sq.on_control(ControlEvent::Quit);
    assert_eq!(sq.outcome(), Some(Outcome::QuitRequested));
}

#[test]
fn duration_conservation_multi_round() {
    // get_ready + rounds * (first + second) seconds of virtual time
    let q = PhaseQueue::from_config(&config(1, 2, 3, 4, false));
    let tr = run_virtual(q, &vec![], None);
    assert_eq!(tr.outcome, Outcome::Completed);
    assert_eq!(tr.elapsed_ms, 1000 * (1 + 4 * (2 + 3)));
    // one start/end pair per active phase, final end coalesced
    assert_eq!(tr.cues.len(), 2 * 9);
    assert_eq!(tr.cues[tr.cues.len() - 1], CueKind::SessionEnd);
    assert_eq!(tr.renders.len(), (1 + 1) + 4 * ((2 + 1) + (3 + 1)));
}
