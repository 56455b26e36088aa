use pigg::config::{GPIOConfig, LoadError};
use pigg::hw::{InputPull, PinFunction};
use pigg::protocol::{AppliedConfig, HardwareEvent};
use pigg::hw::LevelChange;

fn sample() -> GPIOConfig {
    GPIOConfig {
        configured_pins: vec![
            (17, PinFunction::Output(Some(true))),
            (4, PinFunction::Input(Some(InputPull::PullUp))),
            (22, PinFunction::Input(None)),
            (5, PinFunction::Output(None)),
            (6, PinFunction::Unused),
            (7, PinFunction::Input(Some(InputPull::PullDown))),
            (8, PinFunction::Input(Some(InputPull::NoPull))),
            (9, PinFunction::Output(Some(false))),
        ],
    }
}

#[test]
fn save_then_load_gives_same_config() {
    let c = sample();
    let bytes = c.to_bytes();
    assert_eq!(bytes.len(), 24);
    assert_eq!(&bytes[0..3], &[17, 2, 2]);
    assert_eq!(&bytes[3..6], &[4, 1, 1]);
    let back = GPIOConfig::from_bytes(&bytes).unwrap();
    assert_eq!(back.configured_pins, c.configured_pins);
}

#[test]
fn empty_config_round_trips() {
    let c = GPIOConfig::new();
    let bytes = c.to_bytes();
    assert!(bytes.is_empty());
    assert_eq!(GPIOConfig::from_bytes(&bytes).unwrap().configured_pins, vec![]);
}

#[test]
fn load_rejects_bad_bytes() {
    assert_eq!(GPIOConfig::from_bytes(&[17, 2]).unwrap_err(), LoadError::ParseError);
    assert_eq!(GPIOConfig::from_bytes(&[17, 3, 0]).unwrap_err(), LoadError::ParseError);
    assert_eq!(GPIOConfig::from_bytes(&[17, 1, 4]).unwrap_err(), LoadError::ParseError);
    assert_eq!(GPIOConfig::from_bytes(&[17, 2, 2, 17, 0, 0]).unwrap_err(), LoadError::ParseError);
}

#[test]
fn upsert_replaces_or_appends() {
    let mut c = GPIOConfig::new();
    c.upsert(17, PinFunction::Output(None));
    c.upsert(4, PinFunction::Input(None));
    c.upsert(17, PinFunction::Input(None));
    assert_eq!(c.configured_pins, vec![(17, PinFunction::Input(None)), (4, PinFunction::Input(None))]);
    assert_eq!(c.get(17), PinFunction::Input(None));
    assert_eq!(c.get(3), PinFunction::Unused);
}

#[test]
fn backend_new_config_reverts_missing_pins() {
    let mut applied = AppliedConfig::new();
    applied.apply(&HardwareEvent::NewConfig(GPIOConfig {
        configured_pins: vec![(4, PinFunction::Input(None)), (17, PinFunction::Output(None))],
    }));
    applied.apply(&HardwareEvent::NewConfig(GPIOConfig {
        configured_pins: vec![(17, PinFunction::Output(Some(true)))],
    }));
    assert_eq!(applied.function(4), PinFunction::Unused);
    assert_eq!(applied.function(17), PinFunction::Output(Some(true)));
    assert_eq!(applied.function(5), PinFunction::Unused);
}

#[test]
fn backend_new_pin_config_twice_is_once() {
    let mut applied = AppliedConfig::new();
    applied.apply(&HardwareEvent::NewPinConfig(4, PinFunction::Output(None)));
    applied.apply(&HardwareEvent::NewPinConfig(4, PinFunction::Output(None)));
    assert_eq!(applied.function(4), PinFunction::Output(None));
    assert!(applied.apply(&HardwareEvent::OutputLevelChanged(4, LevelChange::new(true))));
    assert!(!applied.apply(&HardwareEvent::OutputLevelChanged(5, LevelChange::new(true))));
}
