//! The reconciliation engine: the live state of every pin, the
//! configuration being edited, and the messages owed to the backend.
//!
//! A configuration may be loaded, and pins may be edited, before any backend
//! is ready. Such changes are kept against the configuration and the whole
//! configuration is sent as one `NewConfig` when `Ready` arrives. While a
//! backend is connected every change is sent as it is made.
use vstd::prelude::*;
use crate::config::{GPIOConfig, PinAssignment, function_of, keys_unique, upserted};
use crate::hardware_button;
use crate::hw::{
    BCMPinNumber, BoardPinNumber, HardwareDescription, LevelChange, PIN_COUNT, PinDescription,
    PinFunction, PinLevel, board_for,
};
use crate::protocol::{
    EventModel, HWLSubscriptionMessage, HardwareEvent, applied_after_all, events_view,
    lemma_new_config_applies_exactly,
};

verus! {

/// Everything `HardwareView` handles.
#[derive(Debug)]
pub enum HardwareMessage {
    /// A pin's button was pressed.
    Activate(BoardPinNumber),
    /// A function was chosen for the pin at a position with a controller number.
    PinFunctionSelected(BoardPinNumber, BCMPinNumber, PinFunction),
    /// A configuration was loaded.
    NewConfig(GPIOConfig),
    /// A message from the backend.
    HardwareSubscription(HWLSubscriptionMessage),
    /// An output is to be driven to a level.
    ChangeOutputLevel(BCMPinNumber, LevelChange),
    /// Time to redraw the level charts.
    UpdateCharts,
}

/// The engine's state as values.
pub struct EngineModel {
    /// The configuration being edited.
    pub config: Seq<PinAssignment>,
    /// The function shown for each position, indexed by position - 1.
    pub functions: Seq<PinFunction>,
    /// The last known level of each position, indexed by position - 1.
    pub levels: Seq<Option<PinLevel>>,
    /// Whether a backend is ready to receive messages.
    pub connected: bool,
    /// The pins of the hardware, once described.
    pub pins: Option<Seq<PinDescription>>,
}

/// The live state after the entries of `entries` are shown on the pins that
/// carry their controller numbers, in order; an output with an initial level
/// also sets the pin's level.
pub open spec fn seeded(
    functions: Seq<PinFunction>,
    levels: Seq<Option<PinLevel>>,
    pins: Seq<PinDescription>,
    entries: Seq<PinAssignment>,
) -> (Seq<PinFunction>, Seq<Option<PinLevel>>)
    decreases entries.len(),
{
    if entries.len() == 0 {
        (functions, levels)
    } else {
        let prev = seeded(functions, levels, pins, entries.drop_last());
        let e = entries.last();
        match board_for(pins, e.0) {
            Some(k) => (
                prev.0.update(k - 1, e.1),
                match e.1 {
                    PinFunction::Output(Some(l)) => prev.1.update(k - 1, Some(l)),
                    _ => prev.1,
                },
            ),
            None => prev,
        }
    }
}

/// The live state brought in line with the configuration, where the pins
/// are known.
pub open spec fn with_config_shown(m: EngineModel) -> EngineModel {
    match m.pins {
        Some(p) => {
            let s = seeded(m.functions, m.levels, p, m.config);
            EngineModel { functions: s.0, levels: s.1, ..m }
        },
        None => m,
    }
}

/// What is sent when the configuration is replaced by `c`.
pub open spec fn config_outbox(connected: bool, c: Seq<PinAssignment>) -> Seq<EventModel> {
    if connected {
        seq![EventModel::NewConfig(c)]
    } else {
        Seq::empty()
    }
}

/// The state after configuration `c` is loaded.
pub open spec fn after_new_config(m: EngineModel, c: Seq<PinAssignment>) -> EngineModel {
    with_config_shown(EngineModel { config: c, ..m })
}

/// The state after the backend reports ready with these pins.
pub open spec fn after_ready(m: EngineModel, pins: Seq<PinDescription>) -> EngineModel {
    with_config_shown(EngineModel { connected: true, pins: Some(pins), ..m })
}

/// What is sent when the backend reports ready: the whole configuration.
pub open spec fn ready_outbox(m: EngineModel) -> Seq<EventModel> {
    seq![EventModel::NewConfig(m.config)]
}

/// Whether choosing `f` at position `board` changes anything.
pub open spec fn selection_changes(m: EngineModel, board: BoardPinNumber, f: PinFunction) -> bool {
    m.functions[board - 1] != f
}

/// The state after `f` is chosen for position `board`, controller `bcm`.
pub open spec fn after_select(m: EngineModel, board: BoardPinNumber, bcm: BCMPinNumber, f: PinFunction) -> EngineModel {
    if selection_changes(m, board, f) {
        EngineModel { functions: m.functions.update(board - 1, f), config: upserted(m.config, bcm, f), ..m }
    } else {
        m
    }
}

/// What is sent when `f` is chosen for controller pin `bcm`.
pub open spec fn select_outbox(m: EngineModel, board: BoardPinNumber, bcm: BCMPinNumber, f: PinFunction) -> Seq<EventModel> {
    if selection_changes(m, board, f) && m.connected {
        seq![EventModel::NewPinConfig(bcm, f)]
    } else {
        Seq::empty()
    }
}

/// The state after an output is set to `l` from the control surface; the
/// level is shown at once, before the backend confirms anything.
pub open spec fn after_output_level(m: EngineModel, bcm: BCMPinNumber, l: LevelChange) -> EngineModel {
    match m.pins {
        Some(p) => match board_for(p, bcm) {
            Some(k) => EngineModel { levels: m.levels.update(k - 1, Some(l.new_level)), ..m },
            None => m,
        },
        None => m,
    }
}

/// What is sent when an output is set from the control surface.
pub open spec fn output_level_outbox(m: EngineModel, bcm: BCMPinNumber, l: LevelChange) -> Seq<EventModel> {
    if m.pins.is_some() && m.connected {
        seq![EventModel::OutputLevelChanged(bcm, l)]
    } else {
        Seq::empty()
    }
}

/// The state after the backend reports a level on an input: it is shown
/// only while the pin is still an input.
pub open spec fn after_input_change(m: EngineModel, bcm: BCMPinNumber, l: LevelChange) -> EngineModel {
    match m.pins {
        Some(p) => match board_for(p, bcm) {
            Some(k) => if m.functions[k - 1] is Input {
                EngineModel { levels: m.levels.update(k - 1, Some(l.new_level)), ..m }
            } else {
                m
            },
            None => m,
        },
        None => m,
    }
}

/// The state after the connection to the backend closed: nothing is sent
/// until the next `Ready`; the configuration and live state stay.
pub open spec fn after_disconnect(m: EngineModel) -> EngineModel {
    EngineModel { connected: false, ..m }
}

/// The state of the pins of a board as shown to the user, and the link to
/// the backend that drives them.
pub struct HardwareView {
    gpio_config: GPIOConfig,
    pin_function_selected: Vec<PinFunction>,
    pin_states: Vec<Option<PinLevel>>,
    connected: bool,
    hardware_description: Option<HardwareDescription>,
}

impl HardwareView {
    pub closed spec fn model(&self) -> EngineModel {
        EngineModel {
            config: self.gpio_config@,
            functions: self.pin_function_selected@,
            levels: self.pin_states@,
            connected: self.connected,
            pins: match self.hardware_description {
                Some(d) => Some(d.pins@),
                None => None,
            },
        }
    }

    /// The hardware description, once the backend has given one.
    pub closed spec fn description(&self) -> Option<HardwareDescription> {
        self.hardware_description
    }

    /// One slot per position, and no backend without a description.
    pub closed spec fn wf(&self) -> bool {
        &&& self.pin_function_selected@.len() == PIN_COUNT
        &&& self.pin_states@.len() == PIN_COUNT
        &&& self.connected ==> self.hardware_description.is_some()
    }

    /// No configuration, every pin unused, no level known, no backend.
    pub fn new() -> (r: HardwareView)
        ensures
            r.wf(),
            r.model().config == Seq::<PinAssignment>::empty(),
            r.model().functions == Seq::new(PIN_COUNT as nat, |i: int| PinFunction::Unused),
            r.model().levels == Seq::new(PIN_COUNT as nat, |i: int| None::<PinLevel>),
            !r.model().connected,
            r.model().pins.is_none(),
            r.description().is_none(),
    {
        let mut functions: Vec<PinFunction> = Vec::new();
        let mut levels: Vec<Option<PinLevel>> = Vec::new();
        let mut i: usize = 0;
        while i < PIN_COUNT
            invariant
                i <= PIN_COUNT,
                functions@ == Seq::new(i as nat, |j: int| PinFunction::Unused),
                levels@ == Seq::new(i as nat, |j: int| None::<PinLevel>),
            decreases PIN_COUNT - i,
        {
            functions.push(PinFunction::Unused);
            levels.push(None);
            i += 1;
        }
        HardwareView {
            gpio_config: GPIOConfig::new(),
            pin_function_selected: functions,
            pin_states: levels,
            connected: false,
            hardware_description: None,
        }
    }

    /// A copy of the configuration being edited.
    pub fn get_config(&self) -> (r: GPIOConfig)
        ensures
            r@ == self.model().config,
    {
        self.gpio_config.copy()
    }

    /// A string describing the connected hardware, or a placeholder.
    pub fn hw_description(&self) -> (r: String)
        ensures
            r@ == hardware_button::description_text(self.description()),
    {
        hardware_button::hw_description(&self.hardware_description)
    }

    /// The model of the connected hardware, or a placeholder.
    pub fn hw_model(&self) -> (r: String)
        ensures
            r@ == hardware_button::model_text(self.description()),
    {
        hardware_button::hw_model(&self.hardware_description)
    }

    /// Whether a backend is ready to receive messages.
    pub fn is_connected(&self) -> (r: bool)
        ensures
            r == self.model().connected,
    {
        self.connected
    }

    /// The function shown at position `board`.
    pub fn pin_function(&self, board: BoardPinNumber) -> (r: PinFunction)
        requires
            self.wf(),
            1 <= board <= PIN_COUNT,
        ensures
            r == self.model().functions[board - 1],
    {
        self.pin_function_selected[board as usize - 1]
    }

    /// The last known level at position `board`.
    pub fn pin_level(&self, board: BoardPinNumber) -> (r: Option<PinLevel>)
        requires
            self.wf(),
            1 <= board <= PIN_COUNT,
        ensures
            r == self.model().levels[board - 1],
    {
        self.pin_states[board as usize - 1]
    }

    /// The whole configuration for the backend, if one is connected.
    fn update_hw_config(&self) -> (r: Vec<HardwareEvent>)
        ensures
            events_view(r@) == config_outbox(self.model().connected, self.model().config),
    {
        let mut out: Vec<HardwareEvent> = Vec::new();
        if self.connected {
            out.push(HardwareEvent::NewConfig(self.gpio_config.copy()));
        }
        proof {
            assert(events_view(out@) =~= config_outbox(self.model().connected, self.model().config));
        }
        out
    }

    /// Shows the function of every entry of the configuration on the pin
    /// that carries its controller number, and the initial level of every
    /// output that has one. Nothing changes while the pins are unknown.
    fn set_pin_functions_after_load(&mut self)
        requires
            old(self).wf(),
        ensures
            final(self).wf(),
            final(self).model() == with_config_shown(old(self).model()),
            final(self).description() == old(self).description(),
    {
        if let Some(d) = &self.hardware_description {
            let ghost f0 = self.pin_function_selected@;
            let ghost l0 = self.pin_states@;
            let ghost entries = self.gpio_config@;
            let mut i: usize = 0;
            while i < self.gpio_config.configured_pins.len()
                invariant
                    i <= entries.len(),
                    entries == self.gpio_config@,
                    self.gpio_config == old(self).gpio_config,
                    self.connected == old(self).connected,
                    self.hardware_description == old(self).hardware_description,
                    old(self).hardware_description == Some(*d),
                    f0 == old(self).pin_function_selected@,
                    l0 == old(self).pin_states@,
                    self.pin_function_selected@.len() == PIN_COUNT,
                    self.pin_states@.len() == PIN_COUNT,
                    (self.pin_function_selected@, self.pin_states@) == seeded(f0, l0, d.pins@, entries.subrange(0, i as int)),
                decreases entries.len() - i,
            {
                let (bcm, function) = self.gpio_config.configured_pins[i];
                let ghost sub = entries.subrange(0, i as int + 1);
                assert(sub.drop_last() == entries.subrange(0, i as int));
                assert(sub.last() == entries[i as int]);
                if let Some(board) = d.pins.bcm_to_board(bcm) {
                    self.pin_function_selected.set(board as usize - 1, function);
                    if let PinFunction::Output(Some(level)) = function {
                        self.pin_states.set(board as usize - 1, Some(level));
                    }
                }
                i += 1;
            }
            assert(entries.subrange(0, entries.len() as int) == entries);
        }
    }

    /// Replaces the configuration with `config` and shows it on the pins; it
    /// is sent whole to the backend if one is connected, else kept until one
    /// is ready.
    pub fn apply_loaded_config(&mut self, config: GPIOConfig) -> (r: Vec<HardwareEvent>)
        requires
            old(self).wf(),
        ensures
            final(self).wf(),
            final(self).model() == after_new_config(old(self).model(), config@),
            final(self).description() == old(self).description(),
            events_view(r@) == config_outbox(old(self).model().connected, config@),
    {
        self.gpio_config = config;
        self.set_pin_functions_after_load();
        self.update_hw_config()
    }

    /// The backend is ready: keeps its description, shows the configuration
    /// on its pins and sends the configuration whole, once.
    pub fn on_ready(&mut self, description: HardwareDescription) -> (r: Vec<HardwareEvent>)
        requires
            old(self).wf(),
        ensures
            final(self).wf(),
            final(self).model() == after_ready(old(self).model(), description.pins@),
            final(self).description() == Some(description),
            events_view(r@) == ready_outbox(old(self).model()),
    {
        self.connected = true;
        self.hardware_description = Some(description);
        self.set_pin_functions_after_load();
        self.update_hw_config()
    }

    /// A function was chosen for the pin at position `board`, controller
    /// `bcm`. Choosing what is already shown does nothing. Otherwise the pin
    /// shows it, the configuration records it, and the backend is told if
    /// one is connected.
    pub fn new_pin_function(&mut self, board: BoardPinNumber, bcm: BCMPinNumber, new_function: PinFunction) -> (r: Vec<HardwareEvent>)
        requires
            old(self).wf(),
            1 <= board <= PIN_COUNT,
        ensures
            final(self).wf(),
            final(self).model() == after_select(old(self).model(), board, bcm, new_function),
            final(self).description() == old(self).description(),
            events_view(r@) == select_outbox(old(self).model(), board, bcm, new_function),
    {
        let mut out: Vec<HardwareEvent> = Vec::new();
        let index = board as usize - 1;
        let previous = self.pin_function_selected[index];
        if new_function != previous {
            self.pin_function_selected.set(index, new_function);
            self.gpio_config.upsert(bcm, new_function);
            if self.connected {
                out.push(HardwareEvent::NewPinConfig(bcm, new_function));
            }
        }
        proof {
            assert(events_view(out@) =~= select_outbox(old(self).model(), board, bcm, new_function));
        }
        out
    }

    /// An output is set to `level` from the control surface: shown at once,
    /// and sent to the backend if one is connected.
    pub fn set_output_level(&mut self, bcm: BCMPinNumber, level: LevelChange) -> (r: Vec<HardwareEvent>)
        requires
            old(self).wf(),
        ensures
            final(self).wf(),
            final(self).model() == after_output_level(old(self).model(), bcm, level),
            final(self).description() == old(self).description(),
            events_view(r@) == output_level_outbox(old(self).model(), bcm, level),
    {
        let mut out: Vec<HardwareEvent> = Vec::new();
        if let Some(d) = &self.hardware_description {
            if let Some(board) = d.pins.bcm_to_board(bcm) {
                self.pin_states.set(board as usize - 1, Some(level.new_level));
            }
            if self.connected {
                out.push(HardwareEvent::OutputLevelChanged(bcm, level));
            }
        }
        proof {
            assert(events_view(out@) =~= output_level_outbox(old(self).model(), bcm, level));
        }
        out
    }

    /// The backend reports a level on an input. It is shown only while the
    /// pin is still an input: a report that arrives after the pin was given
    /// another function is dropped.
    pub fn on_input_change(&mut self, bcm: BCMPinNumber, level: LevelChange)
        requires
            old(self).wf(),
        ensures
            final(self).wf(),
            final(self).model() == after_input_change(old(self).model(), bcm, level),
            final(self).description() == old(self).description(),
    {
        if let Some(d) = &self.hardware_description {
            if let Some(board) = d.pins.bcm_to_board(bcm) {
                if let PinFunction::Input(_) = self.pin_function_selected[board as usize - 1] {
                    self.pin_states.set(board as usize - 1, Some(level.new_level));
                }
            }
        }
    }

    /// The connection to the backend closed.
    pub fn on_disconnect(&mut self)
        requires
            old(self).wf(),
        ensures
            final(self).wf(),
            final(self).model() == after_disconnect(old(self).model()),
            final(self).description() == old(self).description(),
    {
        self.connected = false;
    }

    /// Handles one message and returns what is to be sent to the backend,
    /// in order.
    pub fn update(&mut self, message: HardwareMessage) -> (r: Vec<HardwareEvent>)
        requires
            old(self).wf(),
            message matches HardwareMessage::PinFunctionSelected(board, _, _) ==> 1 <= board <= PIN_COUNT,
        ensures
            final(self).wf(),
            !(message matches HardwareMessage::HardwareSubscription(HWLSubscriptionMessage::Ready(_)))
                ==> final(self).description() == old(self).description(),
            match message {
                HardwareMessage::PinFunctionSelected(board, bcm, f) => {
                    &&& final(self).model() == after_select(old(self).model(), board, bcm, f)
                    &&& events_view(r@) == select_outbox(old(self).model(), board, bcm, f)
                },
                HardwareMessage::NewConfig(c) => {
                    &&& final(self).model() == after_new_config(old(self).model(), c@)
                    &&& events_view(r@) == config_outbox(old(self).model().connected, c@)
                },
                HardwareMessage::HardwareSubscription(HWLSubscriptionMessage::Ready(d)) => {
                    &&& final(self).model() == after_ready(old(self).model(), d.pins@)
                    &&& final(self).description() == Some(d)
                    &&& events_view(r@) == ready_outbox(old(self).model())
                },
                HardwareMessage::HardwareSubscription(HWLSubscriptionMessage::InputChange(bcm, l)) => {
                    &&& final(self).model() == after_input_change(old(self).model(), bcm, l)
                    &&& r@.len() == 0
                },
                HardwareMessage::HardwareSubscription(HWLSubscriptionMessage::Disconnected) => {
                    &&& final(self).model() == after_disconnect(old(self).model())
                    &&& r@.len() == 0
                },
                HardwareMessage::ChangeOutputLevel(bcm, l) => {
                    &&& final(self).model() == after_output_level(old(self).model(), bcm, l)
                    &&& events_view(r@) == output_level_outbox(old(self).model(), bcm, l)
                },
                HardwareMessage::Activate(_) | HardwareMessage::UpdateCharts => {
                    &&& final(self).model() == old(self).model()
                    &&& r@.len() == 0
                },
            },
    {
        match message {
            HardwareMessage::PinFunctionSelected(board, bcm, f) => self.new_pin_function(board, bcm, f),
            HardwareMessage::NewConfig(c) => self.apply_loaded_config(c),
            HardwareMessage::HardwareSubscription(event) => match event {
                HWLSubscriptionMessage::Ready(d) => self.on_ready(d),
                HWLSubscriptionMessage::InputChange(bcm, l) => {
                    self.on_input_change(bcm, l);
                    Vec::new()
                },
                HWLSubscriptionMessage::Disconnected => {
                    self.on_disconnect();
                    Vec::new()
                },
            },
            HardwareMessage::ChangeOutputLevel(bcm, l) => self.set_output_level(bcm, l),
            HardwareMessage::Activate(_) | HardwareMessage::UpdateCharts => Vec::new(),
        }
    }
}

proof fn lemma_last_new_config_decides(backend: Seq<PinAssignment>, evs: Seq<EventModel>, c: Seq<PinAssignment>, p: BCMPinNumber)
    requires
        keys_unique(c),
        evs.len() > 0,
        evs.last() == EventModel::NewConfig(c),
    ensures
        function_of(applied_after_all(backend, evs), p) == function_of(c, p),
{
    lemma_new_config_applies_exactly(applied_after_all(backend, evs.drop_last()), c, p);
}

/// A configuration loaded before the backend is ready and one loaded after
/// both end the same way: once the load and `Ready` have both happened, the
/// backend has applied exactly that configuration, whatever it had applied
/// before. Before `Ready` nothing is sent.
pub proof fn lemma_config_converges(
    m: EngineModel,
    pins: Seq<PinDescription>,
    c: Seq<PinAssignment>,
    backend: Seq<PinAssignment>,
    p: BCMPinNumber,
)
    requires
        !m.connected,
        keys_unique(c),
    ensures
        config_outbox(m.connected, c).len() == 0,
        function_of(
            applied_after_all(backend, config_outbox(m.connected, c) + ready_outbox(after_new_config(m, c))),
            p,
        ) == function_of(c, p),
        function_of(
            applied_after_all(backend, ready_outbox(m) + config_outbox(after_ready(m, pins).connected, c)),
            p,
        ) == function_of(c, p),
{
    let first = config_outbox(m.connected, c) + ready_outbox(after_new_config(m, c));
    assert(after_new_config(m, c).config == c);
    assert(first.last() == EventModel::NewConfig(c));
    lemma_last_new_config_decides(backend, first, c, p);
    let second = ready_outbox(m) + config_outbox(after_ready(m, pins).connected, c);
    assert(after_ready(m, pins).connected);
    assert(second.last() == EventModel::NewConfig(c));
    lemma_last_new_config_decides(backend, second, c, p);
}

/// Choosing the same function for a pin a second time changes nothing and
/// sends nothing.
pub proof fn lemma_select_idempotent(m: EngineModel, board: BoardPinNumber, bcm: BCMPinNumber, f: PinFunction)
    requires
        m.functions.len() == PIN_COUNT,
        1 <= board <= PIN_COUNT,
    ensures
        after_select(after_select(m, board, bcm, f), board, bcm, f) == after_select(m, board, bcm, f),
        select_outbox(after_select(m, board, bcm, f), board, bcm, f).len() == 0,
{
    assert(after_select(m, board, bcm, f).functions[board - 1] == f);
}

/// Once a pin has been given a function other than input, a level reported
/// for it as an input, however late it arrives, changes nothing.
pub proof fn lemma_stale_input_dropped(
    m: EngineModel,
    board: BoardPinNumber,
    bcm: BCMPinNumber,
    f: PinFunction,
    level: LevelChange,
)
    requires
        m.functions.len() == PIN_COUNT,
        1 <= board <= PIN_COUNT,
        m.pins matches Some(p) && board_for(p, bcm) == Some(board),
        !(f is Input),
    ensures
        after_input_change(after_select(m, board, bcm, f), bcm, level) == after_select(m, board, bcm, f),
{
    assert(after_select(m, board, bcm, f).functions[board - 1] == f);
}

} // verus!
