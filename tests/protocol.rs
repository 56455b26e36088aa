use pigg::config::GPIOConfig;
use pigg::hardware_view::HardwareView;
use pigg::hw::{
    HardwareDescription, HardwareDetails, InputPull, LevelChange, PinDescription,
    PinDescriptionSet, PinFunction,
};
use pigg::protocol::{AppliedConfig, HardwareEvent, Received};

#[test]
fn events_round_trip_through_bytes() {
    let events = vec![
        HardwareEvent::NewConfig(GPIOConfig {
            configured_pins: vec![(17, PinFunction::Output(Some(true))), (4, PinFunction::Input(None))],
        }),
        HardwareEvent::NewPinConfig(22, PinFunction::Input(Some(InputPull::PullDown))),
        HardwareEvent::OutputLevelChanged(17, LevelChange::new(false)),
    ];
    for e in &events {
        let bytes = e.to_bytes();
        let back = HardwareEvent::from_bytes(&bytes).unwrap();
        assert_eq!(format!("{back:?}"), format!("{e:?}"));
    }
    assert_eq!(events[1].to_bytes(), vec![1, 22, 1, 2]);
    assert_eq!(events[2].to_bytes(), vec![2, 17, 0]);
    assert_eq!(events[0].to_bytes(), vec![0, 17, 2, 2, 4, 1, 0]);
}

#[test]
fn malformed_messages_are_rejected() {
    assert!(HardwareEvent::from_bytes(&[]).is_none());
    assert!(HardwareEvent::from_bytes(&[3, 1, 1]).is_none());
    assert!(HardwareEvent::from_bytes(&[1, 22, 1]).is_none());
    assert!(HardwareEvent::from_bytes(&[1, 22, 5, 0]).is_none());
    assert!(HardwareEvent::from_bytes(&[2, 17, 2]).is_none());
    assert!(HardwareEvent::from_bytes(&[0, 17, 2]).is_none());
    assert!(HardwareEvent::from_bytes(&[0, 17, 2, 2, 17, 0, 0]).is_none());
    assert!(matches!(HardwareEvent::from_bytes(&[0]), Some(HardwareEvent::NewConfig(c)) if c.configured_pins.is_empty()));
}

#[test]
fn backend_receive_drops_bad_messages_and_keeps_going() {
    let mut backend = AppliedConfig::new();
    assert_eq!(backend.receive(&[9, 9]), Received::Malformed);
    let cfg = HardwareEvent::NewConfig(GPIOConfig {
        configured_pins: vec![(17, PinFunction::Output(None)), (4, PinFunction::Input(None))],
    });
    assert_eq!(backend.receive(&cfg.to_bytes()), Received::Applied);
    assert_eq!(backend.function(17), PinFunction::Output(None));
    assert_eq!(backend.receive(&[2, 17, 1]), Received::Drive(17, true));
    assert_eq!(backend.receive(&[2, 4, 1]), Received::Ignored);
    assert_eq!(backend.receive(&[1, 4, 2, 1]), Received::Applied);
    assert_eq!(backend.function(4), PinFunction::Output(Some(false)));
    assert_eq!(backend.receive(&[2, 4, 0]), Received::Drive(4, false));
}

#[test]
fn config_converges_whichever_comes_first() {
    // Backend had something applied before; the surface loads then connects.
    let target = vec![(17, PinFunction::Output(Some(true))), (4, PinFunction::Input(None))];
    for load_first in [true, false] {
        let mut backend = AppliedConfig::new();
        backend.apply(&HardwareEvent::NewPinConfig(22, PinFunction::Output(None)));
        let mut view = HardwareView::new();
        let mut sent = Vec::new();
        let cfg = GPIOConfig { configured_pins: target.clone() };
        if load_first {
            sent.extend(view.apply_loaded_config(cfg));
            sent.extend(view.on_ready(common_description()));
        } else {
            sent.extend(view.on_ready(common_description()));
            sent.extend(view.apply_loaded_config(cfg));
        }
        for e in &sent {
            backend.receive(&e.to_bytes());
        }
        assert_eq!(backend.function(17), PinFunction::Output(Some(true)));
        assert_eq!(backend.function(4), PinFunction::Input(None));
        assert_eq!(backend.function(22), PinFunction::Unused);
    }
}

fn common_description() -> HardwareDescription {
    let pins = (1..=40u8)
        .map(|b| PinDescription {
            board_pin_number: b,
            bcm_pin_number: if b == 11 { Some(17) } else if b == 7 { Some(4) } else { None },
            name: String::new(),
            options: vec![],
        })
        .collect();
    HardwareDescription {
        details: HardwareDetails {
            hardware: "h".into(),
            revision: "r".into(),
            serial: "s".into(),
            model: "m".into(),
        },
        pins: PinDescriptionSet::new(pins).unwrap(),
    }
}
