use std::sync::Arc;

use frgb::model::GroupId;
use frgb::show::{EffectCycle, Playback, PlaybackState, Sequence, ShowEvent, ShowRunner, Step, StepResult, EFFECT_CYCLE_NAME};

const MS: u64 = 1_000_000;

fn test_cycle(steps: usize, duration_ms: u32, playback: Playback) -> EffectCycle<u8> {
    EffectCycle { steps: (0..steps).map(|i| Step { duration_ms, scene: i as u8 }).collect(), playback }
}

fn step_index_of(e: &ShowEvent) -> Option<usize> {
    match e {
        ShowEvent::SequenceStep { step_index, .. } => Some(*step_index),
        _ => None,
    }
}

#[test]
fn cycle_emits_first_step_immediately() {
    let mut runner = ShowRunner::new();
    runner.start_cycle(&[GroupId::new(1)], test_cycle(3, 5000, Playback::Loop));

    let (actions, events) = runner.tick(0);
    assert_eq!(actions.len(), 1);
    assert_eq!(actions[0].group, GroupId::new(1));
    assert_eq!(events.len(), 1);
}

#[test]
fn cycle_holds_during_step() {
    let mut runner = ShowRunner::new();
    runner.start_cycle(&[GroupId::new(1)], test_cycle(3, 5000, Playback::Loop));

    runner.tick(0);
    let (actions, _) = runner.tick(2000 * MS);
    assert!(actions.is_empty());
}

#[test]
fn cycle_advances_after_duration() {
    let mut runner = ShowRunner::new();
    runner.start_cycle(&[GroupId::new(1)], test_cycle(3, 100, Playback::Loop));

    runner.tick(0);
    let (actions, events) = runner.tick(100 * MS);
    assert_eq!(actions.len(), 1);
    if let Some(step_index) = step_index_of(&events[0]) {
        assert_eq!(step_index, 1);
    }
}

#[test]
fn cycle_loops() {
    let mut runner = ShowRunner::new();
    runner.start_cycle(&[GroupId::new(1)], test_cycle(2, 50, Playback::Loop));

    runner.tick(0);
    runner.tick(50 * MS);
    let (_, events) = runner.tick(50 * MS);

    if let Some(step_index) = step_index_of(&events[0]) {
        assert_eq!(step_index, 0);
    }
}

#[test]
fn cycle_once_ends() {
    let mut runner = ShowRunner::new();
    runner.start_cycle(&[GroupId::new(1)], test_cycle(2, 50, Playback::Once));

    runner.tick(0);
    runner.tick(50 * MS);
    let (_, events) = runner.tick(50 * MS);
    assert!(events.iter().any(|e| matches!(e, ShowEvent::SequenceEnded { .. })));
    assert!(!runner.is_active());
}

#[test]
fn cycle_count_limited() {
    let mut runner = ShowRunner::new();
    runner.start_cycle(&[GroupId::new(1)], test_cycle(1, 50, Playback::Count(3)));

    runner.tick(0);
    runner.tick(50 * MS);
    runner.tick(50 * MS);
    let (_, events) = runner.tick(50 * MS);
    assert!(events.iter().any(|e| matches!(e, ShowEvent::SequenceEnded { .. })));
}

#[test]
fn stop_emits_event() {
    let mut runner = ShowRunner::new();
    runner.start_cycle(&[GroupId::new(1), GroupId::new(2)], test_cycle(2, 5000, Playback::Loop));

    let events = runner.stop(&[GroupId::new(1)]);
    assert_eq!(events.len(), 1);
    assert!(runner.is_active());

    let events = runner.stop(&[]);
    assert_eq!(events.len(), 1);
    assert!(!runner.is_active());
}

#[test]
fn empty_cycle_ignored() {
    let mut runner: ShowRunner<u8> = ShowRunner::new();
    runner.start_cycle(&[GroupId::new(1)], EffectCycle { steps: vec![], playback: Playback::Loop });
    assert!(!runner.is_active());
}

#[test]
fn multi_group_independent() {
    let mut runner = ShowRunner::new();
    runner.start_cycle(&[GroupId::new(1)], test_cycle(2, 100, Playback::Loop));
    runner.start_cycle(&[GroupId::new(2)], test_cycle(3, 200, Playback::Loop));

    runner.tick(0);
    let (actions, _) = runner.tick(100 * MS);
    assert_eq!(actions.len(), 1);
    assert_eq!(actions[0].group, GroupId::new(1));
}

#[test]
fn multi_group_shares_arc() {
    let mut runner = ShowRunner::new();
    let cycle = test_cycle(3, 100, Playback::Loop);
    runner.start_cycle(&[GroupId::new(1), GroupId::new(2), GroupId::new(3)], cycle);
    assert!(runner.is_active());
    runner.tick(0);
    let (actions, _) = runner.tick(100 * MS);
    assert_eq!(actions.len(), 3);
    assert!(Arc::ptr_eq(&actions[0].show, &actions[1].show));
}

#[test]
fn ping_pong_reverses_at_the_ends() {
    let mut st = PlaybackState::new(Playback::PingPong);
    assert_eq!(st.advance(0, 3, 10, Playback::PingPong), StepResult::NewStep(0));
    assert_eq!(st.advance(10, 3, 10, Playback::PingPong), StepResult::NewStep(1));
    assert_eq!(st.advance(10, 3, 10, Playback::PingPong), StepResult::NewStep(2));
    assert_eq!(st.advance(10, 3, 10, Playback::PingPong), StepResult::NewStep(1));
    assert_eq!(st.advance(10, 3, 10, Playback::PingPong), StepResult::NewStep(0));
    assert_eq!(st.advance(10, 3, 10, Playback::PingPong), StepResult::NewStep(1));
}

#[test]
fn loop_never_ends_and_holds_before_duration() {
    let mut st = PlaybackState::new(Playback::Loop);
    assert_eq!(st.advance(0, 2, 100, Playback::Loop), StepResult::NewStep(0));
    assert_eq!(st.advance(99, 2, 100, Playback::Loop), StepResult::Hold);
    assert_eq!(st.advance(1, 2, 100, Playback::Loop), StepResult::NewStep(1));
    for _ in 0..10 {
        assert!(matches!(st.advance(100, 2, 100, Playback::Loop), StepResult::NewStep(_)));
    }
}

#[test]
fn sequences_found_by_name() {
    let mut runner: ShowRunner<u8> = ShowRunner::new();
    let seq = |name: &str, d: u32| Sequence { name: name.into(), steps: vec![Step { duration_ms: d, scene: 0 }], playback: Playback::Once };
    runner.load_sequences(vec![seq("a", 1), seq("b", 2)], vec![seq("b", 3)]);
    assert_eq!(runner.get_sequence("a").unwrap().steps[0].duration_ms, 1);
    // A profile sequence does not replace a global one of the same name.
    assert_eq!(runner.get_sequence("b").unwrap().steps[0].duration_ms, 2);
    assert!(runner.get_sequence("c").is_none());
}

#[test]
fn cycle_is_named_effect_cycle() {
    let mut runner = ShowRunner::new();
    runner.start_cycle(&[GroupId::new(4)], test_cycle(1, 10, Playback::Once));
    let events = runner.stop(&[GroupId::new(4)]);
    assert_eq!(events, vec![ShowEvent::SequenceEnded { name: EFFECT_CYCLE_NAME.to_string() }]);
}
