use std::sync::atomic::{AtomicUsize, Ordering};
use std::sync::{Arc, Mutex};

use wayclick::audio::AudioEngine;
use wayclick::config::CompiledConfig;
use wayclick::domain::{Action, CompiledRule, InputEvent, MouseButton, SoundId};
use wayclick::pipeline::{Counts, Pipeline, Route};

struct StubEngine {
    played: Arc<AtomicUsize>,
}

impl AudioEngine for StubEngine {
    fn play(&mut self, _id: SoundId) {
        self.played.fetch_add(1, Ordering::Relaxed);
    }
    fn stop(&mut self) {}
}

struct RecordingEngine {
    ids: Arc<Mutex<Vec<u16>>>,
}

impl AudioEngine for RecordingEngine {
    fn play(&mut self, id: SoundId) {
        self.ids.lock().unwrap().push(id.get());
    }
    fn stop(&mut self) {}
}

fn cfg_with(mappings: Vec<(InputEvent, SoundId)>) -> CompiledConfig {
    CompiledConfig {
        sounds: vec![Some("a.wav".into()), Some("b.wav".into())],
        rules: mappings
            .into_iter()
            .map(|(e, id)| CompiledRule::new(e, vec![Action::PlaySound(id)]))
            .collect(),
        default_ids: vec![],
    }
}

fn sid(n: u16) -> SoundId {
    SoundId::new(n).unwrap()
}

fn recording(cfg: CompiledConfig, trackpads: bool) -> (Pipeline<RecordingEngine>, Arc<Mutex<Vec<u16>>>) {
    let ids = Arc::new(Mutex::new(vec![]));
    let engine = RecordingEngine { ids: ids.clone() };
    (Pipeline::new(cfg, engine, trackpads), ids)
}

#[test]
fn mapped_key_plays() {
    let played = Arc::new(AtomicUsize::new(0));
    let engine = StubEngine {
        played: played.clone(),
    };
    let cfg = cfg_with(vec![(InputEvent::Key(1), SoundId::new(1).unwrap())]);
    let mut p = Pipeline::new(cfg, engine, false);
    p.handle(InputEvent::Key(1));
    assert_eq!(played.load(Ordering::Relaxed), 1);
    assert_eq!(p.metrics().played.load(Ordering::Relaxed), 1);
}

#[test]
fn ignored_is_filtered() {
    let played = Arc::new(AtomicUsize::new(0));
    let engine = StubEngine {
        played: played.clone(),
    };
    let cfg = cfg_with(vec![]);
    let mut p = Pipeline::new(cfg, engine, false);
    p.handle(InputEvent::Ignored);
    assert_eq!(p.metrics().filtered.load(Ordering::Relaxed), 1);
    assert_eq!(played.load(Ordering::Relaxed), 0);
}

#[test]
fn fresh_pipeline_counts_nothing() {
    let (p, _) = recording(cfg_with(vec![]), false);
    assert_eq!(p.counts(), Counts::default());
    assert_eq!(
        Counts::default(),
        Counts {
            received: 0,
            filtered: 0,
            mapped: 0,
            played: 0
        }
    );
}

#[test]
fn first_matching_rule_wins() {
    let cfg = cfg_with(vec![
        (InputEvent::Key(9), sid(2)),
        (InputEvent::Key(1), sid(1)),
        (InputEvent::Key(1), sid(2)),
    ]);
    let (mut p, engine) = recording(cfg, false);
    assert_eq!(p.route(InputEvent::Key(1)), Route::Rule(1));
    p.handle(InputEvent::Key(1));
    assert_eq!(*engine.lock().unwrap(), vec![1]);
    assert_eq!(
        p.counts(),
        Counts {
            received: 1,
            filtered: 0,
            mapped: 1,
            played: 1
        }
    );
}

#[test]
fn rule_plays_all_its_actions_in_order() {
    let cfg = CompiledConfig {
        sounds: vec![Some("a.wav".into()), Some("b.wav".into())],
        rules: vec![CompiledRule::new(
            InputEvent::Mouse(MouseButton::Back),
            vec![Action::PlaySound(sid(2)), Action::PlaySound(sid(1))],
        )],
        default_ids: vec![],
    };
    let (mut p, engine) = recording(cfg, false);
    p.handle(InputEvent::Mouse(MouseButton::Back));
    assert_eq!(*engine.lock().unwrap(), vec![2, 1]);
    assert_eq!(p.counts().played, 2);
    assert_eq!(p.counts().mapped, 1);
}

#[test]
fn unmapped_plays_one_default() {
    let mut cfg = cfg_with(vec![]);
    cfg.default_ids = vec![sid(1), sid(2)];
    let (mut p, engine) = recording(cfg, false);
    assert_eq!(p.route(InputEvent::Key(4)), Route::Default);
    for _ in 0..20 {
        p.handle(InputEvent::Key(4));
    }
    let ids = engine.lock().unwrap().clone();
    assert_eq!(ids.len(), 20);
    assert!(ids.iter().all(|id| *id == 1 || *id == 2));
    assert_eq!(
        p.counts(),
        Counts {
            received: 20,
            filtered: 0,
            mapped: 20,
            played: 20
        }
    );
}

#[test]
fn unmapped_without_defaults_plays_nothing() {
    let (mut p, engine) = recording(cfg_with(vec![(InputEvent::Key(1), sid(1))]), false);
    assert_eq!(p.route(InputEvent::Key(2)), Route::Unmapped);
    p.handle(InputEvent::Key(2));
    assert!(engine.lock().unwrap().is_empty());
    assert_eq!(
        p.counts(),
        Counts {
            received: 1,
            filtered: 0,
            mapped: 0,
            played: 0
        }
    );
}

#[test]
fn ignored_is_filtered_even_when_mapped_and_trackpads_on() {
    let mut cfg = cfg_with(vec![(InputEvent::Ignored, sid(1))]);
    cfg.default_ids = vec![sid(2)];
    let (mut p, engine) = recording(cfg, true);
    assert_eq!(p.route(InputEvent::Ignored), Route::Filtered);
    p.handle(InputEvent::Ignored);
    assert!(engine.lock().unwrap().is_empty());
    assert_eq!(
        p.counts(),
        Counts {
            received: 1,
            filtered: 1,
            mapped: 0,
            played: 0
        }
    );
}

#[test]
fn sounds_for_each_route() {
    let mut cfg = cfg_with(vec![(InputEvent::Key(1), sid(2))]);
    cfg.default_ids = vec![sid(1), sid(2)];
    let (p, _) = recording(cfg, false);
    let ids = |v: Vec<SoundId>| v.iter().map(|id| id.get()).collect::<Vec<u16>>();
    assert_eq!(ids(p.sounds_for(Route::Rule(0), 0)), vec![2]);
    assert_eq!(ids(p.sounds_for(Route::Default, 0)), vec![1]);
    assert_eq!(ids(p.sounds_for(Route::Default, 1)), vec![2]);
    assert!(p.sounds_for(Route::Filtered, 0).is_empty());
    assert!(p.sounds_for(Route::Unmapped, 0).is_empty());
}

#[test]
fn counters_over_a_sequence() {
    let mut cfg = cfg_with(vec![(InputEvent::Key(1), sid(1))]);
    cfg.default_ids = vec![sid(2)];
    let (mut p, engine) = recording(cfg, false);
    for ev in [
        InputEvent::Key(1),
        InputEvent::Ignored,
        InputEvent::Key(3),
        InputEvent::Mouse(MouseButton::Left),
        InputEvent::Ignored,
    ] {
        p.handle(ev);
    }
    assert_eq!(*engine.lock().unwrap(), vec![1, 2, 2]);
    assert_eq!(
        p.counts(),
        Counts {
            received: 5,
            filtered: 2,
            mapped: 3,
            played: 3
        }
    );
}

#[test]
fn metrics_handle_is_live() {
    let (mut p, _) = recording(cfg_with(vec![(InputEvent::Key(1), sid(1))]), false);
    let m1 = p.metrics();
    p.handle(InputEvent::Key(1));
    p.handle(InputEvent::Ignored);
    p.handle(InputEvent::Key(7));
    assert!(Arc::ptr_eq(&m1, &p.metrics()));
    assert_eq!(m1.received.load(Ordering::Relaxed), 3);
    assert_eq!(m1.filtered.load(Ordering::Relaxed), 1);
    assert_eq!(m1.mapped.load(Ordering::Relaxed), 1);
    assert_eq!(m1.played.load(Ordering::Relaxed), 1);
    let c = p.counts();
    assert_eq!(
        c,
        Counts {
            received: 3,
            filtered: 1,
            mapped: 1,
            played: 1
        }
    );
}

#[test]
fn fresh_pipeline_calls_nothing() {
    let (p, engine) = recording(cfg_with(vec![(InputEvent::Key(1), sid(1))]), false);
    assert!(engine.lock().unwrap().is_empty());
    drop(p);
}
