use pigg::config::GPIOConfig;
use pigg::hardware_button::{hw_description, hw_model};
use pigg::hw::{
    HardwareDescription, HardwareDetails, InputPull, LevelChange, PinDescription,
    PinDescriptionSet, PinFunction,
};
use pigg::hardware_view::{HardwareMessage, HardwareView};
use pigg::protocol::{HWLSubscriptionMessage, HardwareEvent};

/// Controller number at each position of a 40-pin header, 0 for none.
const LAYOUT: [u8; 40] = [
    0, 0, 2, 0, 3, 0, 4, 14, 0, 15, 17, 18, 27, 0, 22, 23, 0, 24, 10, 0, 9, 25, 11, 8, 0, 7, 0, 1,
    5, 0, 6, 12, 13, 0, 19, 16, 26, 20, 0, 21,
];

fn pins() -> PinDescriptionSet {
    let mut v = Vec::new();
    for (i, bcm) in LAYOUT.iter().enumerate() {
        let gpio = i == 26 || i == 27 || *bcm != 0;
        v.push(PinDescription {
            board_pin_number: (i + 1) as u8,
            bcm_pin_number: if gpio { Some(*bcm) } else { None },
            name: if gpio { format!("GPIO{bcm}") } else { "Ground".to_string() },
            options: vec![],
        });
    }
    PinDescriptionSet::new(v).unwrap()
}

fn description() -> HardwareDescription {
    HardwareDescription {
        details: HardwareDetails {
            hardware: "BCM2835".into(),
            revision: "c03111".into(),
            serial: "1000000012345678".into(),
            model: "Raspberry Pi 4 Model B Rev 1.1".into(),
        },
        pins: pins(),
    }
}

fn ready(view: &mut HardwareView) -> Vec<HardwareEvent> {
    view.update(HardwareMessage::HardwareSubscription(HWLSubscriptionMessage::Ready(
        description(),
    )))
}

fn single_new_config(events: &[HardwareEvent]) -> Vec<(u8, PinFunction)> {
    assert_eq!(events.len(), 1);
    match &events[0] {
        HardwareEvent::NewConfig(c) => c.configured_pins.clone(),
        other => panic!("expected NewConfig, got {other:?}"),
    }
}

#[test]
fn no_hardware_description() {
    let hw_view = HardwareView::new();
    assert_eq!(hw_view.hw_description(), "No Hardware connected");
}

#[test]
fn no_hardware_model() {
    let hw_view = HardwareView::new();
    assert_eq!(hw_view.hw_model(), "No Hardware connected");
}

#[test]
fn hardware_text_once_ready() {
    let mut view = HardwareView::new();
    ready(&mut view);
    assert_eq!(
        view.hw_description(),
        "Hardware: BCM2835\nRevision: c03111\nSerial: 1000000012345678\nModel: Raspberry Pi 4 Model B Rev 1.1"
    );
    assert_eq!(view.hw_model(), "Raspberry Pi 4 Model B Rev 1.1");
    assert_eq!(hw_model(&None), "No Hardware connected");
    assert_eq!(hw_description(&Some(description())), view.hw_description());
}

#[test]
fn position_and_controller_translate() {
    let p = pins();
    assert_eq!(p.bcm_to_board(17), Some(11));
    assert_eq!(p.bcm_to_board(0), Some(27));
    assert_eq!(p.bcm_to_board(28), None);
    assert_eq!(p.bcm_to_board(255), None);
    assert_eq!(p.board_to_bcm(11), Some(17));
    assert_eq!(p.board_to_bcm(1), None);
    assert_eq!(p.board_to_bcm(0), None);
    assert_eq!(p.board_to_bcm(41), None);
    let sorted = p.bcm_pins_sorted();
    assert_eq!(sorted.len(), 28);
    assert_eq!(sorted[0], (0, 27));
    assert_eq!(sorted[2], (2, 3));
    assert_eq!(sorted[27], (27, 13));
}

#[test]
fn pin_set_rejects_bad_layouts() {
    let pin = |board: u8, bcm: Option<u8>| PinDescription {
        board_pin_number: board,
        bcm_pin_number: bcm,
        name: String::new(),
        options: vec![],
    };
    assert!(PinDescriptionSet::new(vec![pin(1, Some(4)), pin(2, Some(4))]).is_none());
    assert!(PinDescriptionSet::new(vec![pin(2, Some(4))]).is_none());
    assert!(PinDescriptionSet::new(vec![pin(1, None), pin(2, None)]).is_some());
    assert!(PinDescriptionSet::new((1..=41).map(|b| pin(b, None)).collect()).is_none());
}

#[test]
fn config_loaded_while_disconnected_shows_level_and_is_sent_on_ready() {
    let mut view = HardwareView::new();
    ready(&mut view);
    assert!(view.update(HardwareMessage::HardwareSubscription(HWLSubscriptionMessage::Disconnected)).is_empty());
    let config = GPIOConfig { configured_pins: vec![(17, PinFunction::Output(Some(true)))] };
    let sent = view.update(HardwareMessage::NewConfig(config));
    assert!(sent.is_empty());
    assert_eq!(view.pin_level(11), Some(true));
    assert_eq!(view.pin_function(11), PinFunction::Output(Some(true)));
    let sent = ready(&mut view);
    assert_eq!(single_new_config(&sent), vec![(17, PinFunction::Output(Some(true)))]);
}

#[test]
fn config_loaded_before_first_ready_is_sent_once() {
    let mut view = HardwareView::new();
    let config = GPIOConfig { configured_pins: vec![(17, PinFunction::Output(Some(true)))] };
    assert!(view.apply_loaded_config(config).is_empty());
    assert_eq!(view.pin_level(11), None);
    let sent = ready(&mut view);
    assert_eq!(single_new_config(&sent), vec![(17, PinFunction::Output(Some(true)))]);
    assert_eq!(view.pin_level(11), Some(true));
    assert_eq!(view.pin_function(11), PinFunction::Output(Some(true)));
}

#[test]
fn config_loaded_after_ready_is_sent_at_once() {
    let mut view = HardwareView::new();
    let sent = ready(&mut view);
    assert_eq!(single_new_config(&sent), vec![]);
    let config = GPIOConfig { configured_pins: vec![(4, PinFunction::Input(None))] };
    let sent = view.update(HardwareMessage::NewConfig(config));
    assert_eq!(single_new_config(&sent), vec![(4, PinFunction::Input(None))]);
    assert_eq!(view.pin_function(7), PinFunction::Input(None));
}

#[test]
fn edits_after_connection_drop_are_resent_whole() {
    let mut view = HardwareView::new();
    ready(&mut view);
    let sent = view.update(HardwareMessage::PinFunctionSelected(11, 17, PinFunction::Output(None)));
    assert!(matches!(sent.as_slice(), [HardwareEvent::NewPinConfig(17, PinFunction::Output(None))]));
    view.update(HardwareMessage::HardwareSubscription(HWLSubscriptionMessage::Disconnected));
    assert!(!view.is_connected());
    let sent = view.new_pin_function(7, 4, PinFunction::Input(Some(InputPull::PullUp)));
    assert!(sent.is_empty());
    let sent = view.new_pin_function(11, 17, PinFunction::Input(None));
    assert!(sent.is_empty());
    assert_eq!(view.pin_function(7), PinFunction::Input(Some(InputPull::PullUp)));
    assert_eq!(
        view.get_config().configured_pins,
        vec![(17, PinFunction::Input(None)), (4, PinFunction::Input(Some(InputPull::PullUp)))]
    );
    let sent = ready(&mut view);
    assert!(view.is_connected());
    assert_eq!(
        single_new_config(&sent),
        vec![(17, PinFunction::Input(None)), (4, PinFunction::Input(Some(InputPull::PullUp)))]
    );
}

#[test]
fn same_selection_twice_changes_nothing() {
    let mut view = HardwareView::new();
    ready(&mut view);
    let first = view.new_pin_function(11, 17, PinFunction::Output(Some(false)));
    assert_eq!(first.len(), 1);
    let second = view.new_pin_function(11, 17, PinFunction::Output(Some(false)));
    assert!(second.is_empty());
    assert_eq!(view.get_config().configured_pins, vec![(17, PinFunction::Output(Some(false)))]);
    assert_eq!(view.pin_function(11), PinFunction::Output(Some(false)));
}

#[test]
fn stale_input_change_is_dropped() {
    let mut view = HardwareView::new();
    ready(&mut view);
    view.new_pin_function(11, 17, PinFunction::Input(None));
    view.update(HardwareMessage::HardwareSubscription(HWLSubscriptionMessage::InputChange(
        17,
        LevelChange::new(true),
    )));
    assert_eq!(view.pin_level(11), Some(true));
    view.new_pin_function(11, 17, PinFunction::Output(None));
    view.update(HardwareMessage::HardwareSubscription(HWLSubscriptionMessage::InputChange(
        17,
        LevelChange::new(false),
    )));
    assert_eq!(view.pin_level(11), Some(true));
    view.on_input_change(17, LevelChange::new(false));
    assert_eq!(view.pin_level(11), Some(true));
}

#[test]
fn output_level_is_shown_at_once_and_sent_when_connected() {
    let mut view = HardwareView::new();
    ready(&mut view);
    view.new_pin_function(11, 17, PinFunction::Output(None));
    let sent = view.update(HardwareMessage::ChangeOutputLevel(17, LevelChange::new(true)));
    assert!(matches!(sent.as_slice(), [HardwareEvent::OutputLevelChanged(17, LevelChange { new_level: true })]));
    assert_eq!(view.pin_level(11), Some(true));
    view.on_disconnect();
    let sent = view.set_output_level(17, LevelChange::new(false));
    assert!(sent.is_empty());
    assert_eq!(view.pin_level(11), Some(false));
}

#[test]
fn fresh_view_has_nothing() {
    let mut view = HardwareView::new();
    for board in 1..=40u8 {
        assert_eq!(view.pin_function(board), PinFunction::Unused);
        assert_eq!(view.pin_level(board), None);
    }
    assert!(view.update(HardwareMessage::UpdateCharts).is_empty());
    assert!(view.update(HardwareMessage::Activate(3)).is_empty());
    assert!(view.set_output_level(17, LevelChange::new(true)).is_empty());
    assert!(view.get_config().configured_pins.is_empty());
}
