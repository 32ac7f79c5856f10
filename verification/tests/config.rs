use std::collections::HashMap;

use wayclick::config::{compile, CompiledConfig, ConfigError, RawConfig};
use wayclick::domain::{Action, CompiledRule, InputEvent, MouseButton, SoundId};

fn sample() -> RawConfig {
    RawConfig {
        defaults: vec!["key1.wav".into(), "key3.wav".into()],
        mappings: HashMap::from([
            ("1".to_string(), "ctrl.wav".to_string()),
            ("2".into(), "key1.wav".into()),
            ("272".into(), "mouse.wav".into()),
            ("notanum".into(), "key1.wav".into()),
        ])
        .into_iter()
        .collect(),
    }
}

fn raw(defaults: &[&str], mappings: &[(&str, &str)]) -> RawConfig {
    RawConfig {
        defaults: defaults.iter().map(|s| s.to_string()).collect(),
        mappings: mappings
            .iter()
            .map(|(k, v)| (k.to_string(), v.to_string()))
            .collect(),
    }
}

fn plays(rule: &CompiledRule) -> Vec<u16> {
    rule.actions
        .iter()
        .map(|a| match a {
            Action::PlaySound(id) => id.get(),
        })
        .collect()
}

#[test]
fn compiles_filenames_to_sound_ids() {
    let cfg = compile(sample()).unwrap();
    // key1, key3, ctrl, mouse -> 4 sounds.
    assert_eq!(cfg.sound_count(), 4);
}

#[test]
fn resolves_mouse_trigger() {
    let cfg = compile(sample()).unwrap();
    let mouse_rule = cfg
        .rules
        .iter()
        .find(|r| matches!(r.trigger, InputEvent::Mouse(MouseButton::Left)))
        .expect("mouse rule present");
    assert!(matches!(mouse_rule.actions[0], Action::PlaySound(_)));
}

#[test]
fn drops_non_numeric_key() {
    let cfg = compile(sample()).unwrap();
    assert!(!cfg.rules.iter().any(|r| r.trigger == InputEvent::Ignored));
}

#[test]
fn ids_follow_first_seen_order() {
    let cfg = compile(raw(&["b.wav", "a.wav", "b.wav"], &[("1", "a.wav"), ("2", "c.wav")])).unwrap();
    assert_eq!(
        cfg.sounds,
        vec![
            Some("b.wav".to_string()),
            Some("a.wav".to_string()),
            Some("c.wav".to_string())
        ]
    );
    let defaults: Vec<u16> = cfg.default_ids.iter().map(|id| id.get()).collect();
    assert_eq!(defaults, vec![1, 2, 1]);
    assert_eq!(cfg.rules.len(), 2);
    assert_eq!(cfg.rules[0].trigger, InputEvent::Key(1));
    assert_eq!(plays(&cfg.rules[0]), vec![2]);
    assert_eq!(cfg.rules[1].trigger, InputEvent::Key(2));
    assert_eq!(plays(&cfg.rules[1]), vec![3]);
}

#[test]
fn every_rule_plays_the_file_of_its_mapping() {
    let cfg = compile(sample()).unwrap();
    for rule in &cfg.rules {
        let id = match rule.actions[0] {
            Action::PlaySound(id) => id,
        };
        let expected = match rule.trigger {
            InputEvent::Key(1) => "ctrl.wav",
            InputEvent::Key(2) => "key1.wav",
            InputEvent::Mouse(MouseButton::Left) => "mouse.wav",
            other => panic!("unexpected trigger {other:?}"),
        };
        assert_eq!(cfg.filename(id), Some(expected));
    }
    assert_eq!(cfg.rules.len(), 3);
    let defaults: Vec<&str> = cfg
        .default_ids
        .iter()
        .map(|id| cfg.filename(*id).unwrap())
        .collect();
    assert_eq!(defaults, vec!["key1.wav", "key3.wav"]);
}

#[test]
fn empty_config_is_an_error() {
    assert!(matches!(compile(raw(&[], &[])), Err(ConfigError::Empty)));
}

#[test]
fn mapping_only_config_compiles() {
    let cfg = compile(raw(&[], &[("x", "a.wav")])).unwrap();
    assert_eq!(cfg.sound_count(), 1);
    assert!(cfg.rules.is_empty());
    assert!(cfg.default_ids.is_empty());
}

#[test]
fn mouse_keys_and_keycodes_parse() {
    let cfg = compile(raw(
        &[],
        &[
            ("272", "l.wav"),
            ("273", "r.wav"),
            ("274", "m.wav"),
            ("275", "k.wav"),
            ("0272", "z.wav"),
            ("+7", "p.wav"),
            ("65535", "max.wav"),
        ],
    ))
    .unwrap();
    let triggers: Vec<InputEvent> = cfg.rules.iter().map(|r| r.trigger).collect();
    assert_eq!(
        triggers,
        vec![
            InputEvent::Mouse(MouseButton::Left),
            InputEvent::Mouse(MouseButton::Right),
            InputEvent::Mouse(MouseButton::Middle),
            InputEvent::Key(275),
            InputEvent::Key(272),
            InputEvent::Key(7),
            InputEvent::Key(65535),
        ]
    );
}

#[test]
fn unparseable_keys_are_skipped() {
    let cfg = compile(raw(
        &["d.wav"],
        &[
            ("-5", "a.wav"),
            ("65536", "b.wav"),
            ("", "c.wav"),
            ("+", "e.wav"),
            (" 5", "f.wav"),
            ("5a", "g.wav"),
            ("٣", "h.wav"),
        ],
    ))
    .unwrap();
    assert!(cfg.rules.is_empty());
    // Their files are still given slots.
    assert_eq!(cfg.sound_count(), 8);
}

#[test]
fn filename_lookup() {
    let cfg = CompiledConfig {
        sounds: vec![Some("a.wav".into()), None],
        rules: vec![],
        default_ids: vec![],
    };
    assert_eq!(cfg.filename(SoundId::new(1).unwrap()), Some("a.wav"));
    assert_eq!(cfg.filename(SoundId::new(2).unwrap()), None);
    assert_eq!(cfg.filename(SoundId::new(3).unwrap()), None);
    assert_eq!(cfg.sound_count(), 2);
}
