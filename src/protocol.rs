//! The messages between the control surface and a hardware backend, and
//! what a backend does with the ones it receives.
use vstd::prelude::*;
use crate::config::{
    GPIOConfig, PinAssignment, clone_entries, code_of, code_of_exec, contains_pin,
    decode_assignments, decode_config, encode_assignments, encode_entries, first_entry,
    function_from_code, function_from_code_exec, function_of, has_unique_pins, is_assigned,
    keys_unique, lemma_decode_encode, lemma_first_entry_unique, lemma_upserted, upserted,
};
use crate::hw::{BCMPinNumber, HardwareDescription, LevelChange, PinFunction, PinLevel};

verus! {

/// Control surface to backend.
#[derive(Debug)]
pub enum HardwareEvent {
    /// Replace the whole applied configuration.
    NewConfig(GPIOConfig),
    /// Change the function of one pin.
    NewPinConfig(BCMPinNumber, PinFunction),
    /// Drive an output to a level.
    OutputLevelChanged(BCMPinNumber, LevelChange),
}

/// Backend to control surface.
#[derive(Debug)]
pub enum HWLSubscriptionMessage {
    /// The backend is usable; it describes its hardware. The channel to send
    /// `HardwareEvent`s on is kept by whoever runs the connection.
    Ready(HardwareDescription),
    /// An input pin changed level.
    InputChange(BCMPinNumber, LevelChange),
    /// The connection to the backend closed.
    Disconnected,
}

/// A `HardwareEvent` as a value.
pub enum EventModel {
    NewConfig(Seq<PinAssignment>),
    NewPinConfig(BCMPinNumber, PinFunction),
    OutputLevelChanged(BCMPinNumber, LevelChange),
}

impl View for HardwareEvent {
    type V = EventModel;

    open spec fn view(&self) -> EventModel {
        match self {
            HardwareEvent::NewConfig(c) => EventModel::NewConfig(c@),
            HardwareEvent::NewPinConfig(b, f) => EventModel::NewPinConfig(*b, *f),
            HardwareEvent::OutputLevelChanged(b, l) => EventModel::OutputLevelChanged(*b, *l),
        }
    }
}

/// The messages of an outbox, as values.
pub open spec fn events_view(v: Seq<HardwareEvent>) -> Seq<EventModel> {
    v.map_values(|e: HardwareEvent| e@)
}

/// The entries that revert to unused, in order, when `c` replaces `old`:
/// one for each entry of `old` whose pin `c` does not assign.
pub open spec fn reverted(old: Seq<PinAssignment>, c: Seq<PinAssignment>) -> Seq<PinAssignment>
    decreases old.len(),
{
    if old.len() == 0 {
        Seq::empty()
    } else if is_assigned(c, old.last().0) {
        reverted(old.drop_last(), c)
    } else {
        reverted(old.drop_last(), c).push((old.last().0, PinFunction::Unused))
    }
}

/// The configuration a backend has applied after it handles `ev`.
pub open spec fn applied_after(old: Seq<PinAssignment>, ev: EventModel) -> Seq<PinAssignment> {
    match ev {
        EventModel::NewConfig(c) => reverted(old, c) + c,
        EventModel::NewPinConfig(b, f) => upserted(old, b, f),
        EventModel::OutputLevelChanged(_, _) => old,
    }
}

/// The configuration a backend has applied after it handles `evs` in order.
pub open spec fn applied_after_all(old: Seq<PinAssignment>, evs: Seq<EventModel>) -> Seq<PinAssignment>
    decreases evs.len(),
{
    if evs.len() == 0 {
        old
    } else {
        applied_after(applied_after_all(old, evs.drop_last()), evs.last())
    }
}

proof fn lemma_reverted(old: Seq<PinAssignment>, c: Seq<PinAssignment>)
    ensures
        forall|i: int| 0 <= i < reverted(old, c).len() ==> {
            &&& !is_assigned(c, #[trigger] reverted(old, c)[i].0)
            &&& reverted(old, c)[i].1 == PinFunction::Unused
            &&& is_assigned(old, reverted(old, c)[i].0)
        },
        forall|b: BCMPinNumber| is_assigned(old, b) && !is_assigned(c, b) ==> is_assigned(reverted(old, c), b),
    decreases old.len(),
{
    if old.len() > 0 {
        let pre = old.drop_last();
        lemma_reverted(pre, c);
        let r = reverted(old, c);
        let rp = reverted(pre, c);
        assert forall|i: int| 0 <= i < r.len() implies is_assigned(old, #[trigger] r[i].0) by {
            if i < rp.len() {
                assert(r[i] == rp[i]);
                let w = choose|w: int| 0 <= w < pre.len() && pre[w].0 == rp[i].0;
                assert(old[w] == pre[w]);
            } else {
                assert(old[old.len() - 1].0 == r[i].0);
            }
        }
        assert forall|b: BCMPinNumber| is_assigned(old, b) && !is_assigned(c, b) implies is_assigned(r, b) by {
            let w = choose|w: int| 0 <= w < old.len() && old[w].0 == b;
            if w < pre.len() {
                assert(pre[w] == old[w]);
                let v = choose|v: int| 0 <= v < rp.len() && rp[v].0 == b;
                assert(r[v] == rp[v]);
            } else {
                assert(r[r.len() - 1].0 == b);
            }
        }
    }
}

/// Whatever a backend had applied before, after `NewConfig(c)` every pin has
/// exactly the function that `c` gives it.
pub proof fn lemma_new_config_applies_exactly(old: Seq<PinAssignment>, c: Seq<PinAssignment>, p: BCMPinNumber)
    requires
        keys_unique(c),
    ensures
        function_of(applied_after(old, EventModel::NewConfig(c)), p) == function_of(c, p),
{
    let r = reverted(old, c);
    let a = r + c;
    lemma_reverted(old, c);
    if is_assigned(c, p) {
        let w = choose|w: int| 0 <= w < c.len() && c[w].0 == p;
        assert(a[r.len() + w] == c[w]);
        assert(is_assigned(a, p));
        let k = choose|k: int| 0 <= k < a.len() && a[k].0 == p;
        if k < r.len() {
            assert(a[k] == r[k]);
        } else {
            assert(a[k] == c[k - r.len()]);
            assert(k - r.len() == w);
        }
        let k2 = choose|k: int| 0 <= k < c.len() && c[k].0 == p;
        assert(k2 == w);
    } else if is_assigned(a, p) {
        let k = choose|k: int| 0 <= k < a.len() && a[k].0 == p;
        if k >= r.len() {
            assert(a[k] == c[k - r.len()]);
        }
        assert(a[k] == r[k]);
    }
}

/// Handling the same `NewPinConfig` twice leaves what the first one applied.
pub proof fn lemma_new_pin_config_idempotent(old: Seq<PinAssignment>, b: BCMPinNumber, f: PinFunction)
    ensures
        applied_after(applied_after(old, EventModel::NewPinConfig(b, f)), EventModel::NewPinConfig(b, f))
            == applied_after(old, EventModel::NewPinConfig(b, f)),
{
    let once = upserted(old, b, f);
    let w = if is_assigned(old, b) {
        choose|i: int| first_entry(old, b, i)
    } else {
        old.len() as int
    };
    if is_assigned(old, b) {
        let v = choose|v: int| 0 <= v < old.len() && old[v].0 == b;
        lemma_first_exists(old, b, v);
    }
    assert(first_entry(once, b, w));
    lemma_first_entry_unique(once, b, w);
    assert(once.update(w, (b, f)) == once);
}

proof fn lemma_first_exists(s: Seq<PinAssignment>, b: BCMPinNumber, v: int)
    requires
        0 <= v < s.len(),
        s[v].0 == b,
    ensures
        exists|i: int| first_entry(s, b, i),
    decreases v,
{
    if exists|j: int| 0 <= j < v && s[j].0 == b {
        let j = choose|j: int| 0 <= j < v && s[j].0 == b;
        lemma_first_exists(s, b, j);
    } else {
        assert(first_entry(s, b, v));
    }
}

/// The configuration a backend has applied.
pub struct AppliedConfig {
    entries: Vec<PinAssignment>,
}

impl View for AppliedConfig {
    type V = Seq<PinAssignment>;

    closed spec fn view(&self) -> Seq<PinAssignment> {
        self.entries@
    }
}

impl AppliedConfig {
    #[verifier::type_invariant]
    closed spec fn wf(&self) -> bool {
        keys_unique(self.entries@)
    }

    /// Nothing applied yet.
    pub fn new() -> (r: AppliedConfig)
        ensures
            r@ == Seq::<PinAssignment>::empty(),
    {
        AppliedConfig { entries: Vec::new() }
    }

    /// The function applied to pin `bcm`.
    pub fn function(&self, bcm: BCMPinNumber) -> (r: PinFunction)
        ensures
            r == function_of(self@, bcm),
    {
        proof { use_type_invariant(self); }
        let c = GPIOConfig { configured_pins: clone_entries(&self.entries) };
        c.get(bcm)
    }

    /// Handles one event. The result tells whether an output is to be driven:
    /// `OutputLevelChanged` on a pin that is not an output is ignored.
    pub fn apply(&mut self, ev: &HardwareEvent) -> (r: bool)
        requires
            ev matches HardwareEvent::NewConfig(c) ==> keys_unique(c@),
        ensures
            final(self)@ == applied_after(old(self)@, ev@),
            keys_unique(final(self)@),
            r == (ev matches HardwareEvent::OutputLevelChanged(b, _) && function_of(old(self)@, *b) is Output),
    {
        proof { use_type_invariant(&*self); }
        match ev {
            HardwareEvent::NewConfig(c) => {
                let mut next: Vec<PinAssignment> = Vec::new();
                let mut i: usize = 0;
                while i < self.entries.len()
                    invariant
                        i <= self@.len(),
                        self@ == old(self)@,
                        keys_unique(c@),
                        keys_unique(self@),
                        next@ == reverted(self@.subrange(0, i as int), c@),
                    decreases self@.len() - i,
                {
                    let (b, _) = self.entries[i];
                    let assigned = contains_pin(&c.configured_pins, b);
                    let ghost s = self@.subrange(0, i as int + 1);
                    assert(s.drop_last() == self@.subrange(0, i as int));
                    if !assigned {
                        next.push((b, PinFunction::Unused));
                    }
                    i += 1;
                }
                assert(self@.subrange(0, self@.len() as int) == self@);
                let mut j: usize = 0;
                let ghost r = next@;
                while j < c.configured_pins.len()
                    invariant
                        j <= c@.len(),
                        next@ == r + c@.subrange(0, j as int),
                    decreases c@.len() - j,
                {
                    next.push(c.configured_pins[j]);
                    j += 1;
                }
                assert(c@.subrange(0, c@.len() as int) == c@);
                proof { lemma_applied_unique(old(self)@, c@); }
                self.entries = next;
                false
            }
            HardwareEvent::NewPinConfig(b, f) => {
                let mut c = GPIOConfig { configured_pins: clone_entries(&self.entries) };
                c.upsert(*b, *f);
                proof { lemma_upserted(old(self)@, *b, *f); }
                let GPIOConfig { configured_pins } = c;
                self.entries = configured_pins;
                false
            }
            HardwareEvent::OutputLevelChanged(b, _) => {
                let c = GPIOConfig { configured_pins: clone_entries(&self.entries) };
                match c.get(*b) {
                    PinFunction::Output(_) => true,
                    _ => false,
                }
            }
        }
    }
}

proof fn lemma_applied_unique(old: Seq<PinAssignment>, c: Seq<PinAssignment>)
    requires
        keys_unique(old),
        keys_unique(c),
    ensures
        keys_unique(reverted(old, c) + c),
{
    lemma_reverted_unique(old, c);
    lemma_reverted(old, c);
    let r = reverted(old, c);
    let a = r + c;
    assert forall|i: int, j: int| 0 <= i < a.len() && 0 <= j < a.len() && i != j implies a[i].0 != a[j].0 by {
        if i < r.len() && j >= r.len() {
            assert(a[i] == r[i]);
            assert(a[j] == c[j - r.len()]);
        } else if j < r.len() && i >= r.len() {
            assert(a[j] == r[j]);
            assert(a[i] == c[i - r.len()]);
        } else if i < r.len() {
            assert(a[i] == r[i] && a[j] == r[j]);
        } else {
            assert(a[i] == c[i - r.len()] && a[j] == c[j - r.len()]);
        }
    }
}

proof fn lemma_reverted_unique(old: Seq<PinAssignment>, c: Seq<PinAssignment>)
    requires
        keys_unique(old),
    ensures
        keys_unique(reverted(old, c)),
    decreases old.len(),
{
    if old.len() > 0 {
        let pre = old.drop_last();
        assert(keys_unique(pre)) by {
            assert forall|i: int, j: int| 0 <= i < pre.len() && 0 <= j < pre.len() && i != j implies pre[i].0 != pre[j].0 by {
                assert(pre[i] == old[i] && pre[j] == old[j]);
            }
        }
        lemma_reverted_unique(pre, c);
        lemma_reverted(pre, c);
        let rp = reverted(pre, c);
        let r = reverted(old, c);
        if !is_assigned(c, old.last().0) {
            assert forall|i: int| 0 <= i < rp.len() implies rp[i].0 != old.last().0 by {
                let w = choose|w: int| 0 <= w < pre.len() && pre[w].0 == rp[i].0;
                assert(old[w] == pre[w]);
            }
            assert forall|i: int, j: int| 0 <= i < r.len() && 0 <= j < r.len() && i != j implies r[i].0 != r[j].0 by {
                if i < rp.len() && j < rp.len() {
                    assert(r[i] == rp[i] && r[j] == rp[j]);
                } else if i < rp.len() {
                    assert(r[i] == rp[i]);
                } else if j < rp.len() {
                    assert(r[j] == rp[j]);
                }
            }
        }
    }
}

/// The bytes of a message on the wire: a kind byte, then the payload. A
/// configuration is sent in its saved form; a level is 1 for high.
pub open spec fn event_bytes(e: EventModel) -> Seq<u8> {
    match e {
        EventModel::NewConfig(c) => seq![0u8] + encode_entries(c),
        EventModel::NewPinConfig(b, f) => seq![1u8, b, code_of(f).0, code_of(f).1],
        EventModel::OutputLevelChanged(b, l) => seq![2u8, b, if l.new_level { 1u8 } else { 0u8 }],
    }
}

/// The message that bytes received stand for, if any.
pub open spec fn event_of_bytes(b: Seq<u8>) -> Option<EventModel> {
    if b.len() == 0 {
        None
    } else if b[0] == 0 {
        match decode_config(b.subrange(1, b.len() as int)) {
            Ok(c) => Some(EventModel::NewConfig(c)),
            Err(_) => None,
        }
    } else if b[0] == 1 && b.len() == 4 {
        match function_from_code(b[2], b[3]) {
            Some(f) => Some(EventModel::NewPinConfig(b[1], f)),
            None => None,
        }
    } else if b[0] == 2 && b.len() == 3 && b[2] <= 1 {
        Some(EventModel::OutputLevelChanged(b[1], LevelChange { new_level: b[2] == 1 }))
    } else {
        None
    }
}

/// A message read back from its bytes is the message sent.
pub proof fn lemma_event_round_trip(e: EventModel)
    requires
        e matches EventModel::NewConfig(c) ==> keys_unique(c),
    ensures
        event_of_bytes(event_bytes(e)) == Some(e),
{
    let b = event_bytes(e);
    match e {
        EventModel::NewConfig(c) => {
            lemma_decode_encode(c);
            assert(b.subrange(1, b.len() as int) == encode_entries(c));
        },
        EventModel::NewPinConfig(p, f) => {},
        EventModel::OutputLevelChanged(p, l) => {
            assert(LevelChange { new_level: b[2] == 1 } == l);
        },
    }
}

impl HardwareEvent {
    /// The bytes this message is sent as.
    pub fn to_bytes(&self) -> (r: Vec<u8>)
        ensures
            r@ == event_bytes(self@),
    {
        let mut out: Vec<u8> = Vec::new();
        match self {
            HardwareEvent::NewConfig(c) => {
                out.push(0);
                encode_assignments(&c.configured_pins, &mut out);
            },
            HardwareEvent::NewPinConfig(b, f) => {
                let (kind, arg) = code_of_exec(*f);
                out.push(1);
                out.push(*b);
                out.push(kind);
                out.push(arg);
            },
            HardwareEvent::OutputLevelChanged(b, l) => {
                out.push(2);
                out.push(*b);
                out.push(if l.new_level { 1 } else { 0 });
            },
        }
        proof {
            assert(out@ =~= event_bytes(self@));
        }
        out
    }

    /// Reads one message received whole. Bytes that are no message give
    /// `None`: the caller drops them and keeps the connection.
    pub fn from_bytes(b: &[u8]) -> (r: Option<HardwareEvent>)
        ensures
            match r {
                Some(e) => event_of_bytes(b@) == Some(e@),
                None => event_of_bytes(b@) is None,
            },
    {
        if b.len() == 0 {
            return None;
        }
        if b[0] == 0 {
            match decode_assignments(b, 1) {
                Ok(v) => {
                    if has_unique_pins(&v) {
                        Some(HardwareEvent::NewConfig(GPIOConfig { configured_pins: v }))
                    } else {
                        None
                    }
                },
                Err(_) => None,
            }
        } else if b[0] == 1 && b.len() == 4 {
            match function_from_code_exec(b[2], b[3]) {
                Some(f) => Some(HardwareEvent::NewPinConfig(b[1], f)),
                None => None,
            }
        } else if b[0] == 2 && b.len() == 3 && b[2] <= 1 {
            Some(HardwareEvent::OutputLevelChanged(b[1], LevelChange { new_level: b[2] == 1 }))
        } else {
            None
        }
    }
}

/// What a backend does with one message received.
#[derive(Debug, PartialEq, Eq)]
pub enum Received {
    /// The bytes were no message; dropped, the connection stays.
    Malformed,
    /// The configuration changed.
    Applied,
    /// Drive this output to this level.
    Drive(BCMPinNumber, PinLevel),
    /// A level for a pin that is not an output; nothing to do.
    Ignored,
}

impl AppliedConfig {
    /// Handles one message as received on a connection.
    pub fn receive(&mut self, b: &[u8]) -> (r: Received)
        ensures
            match event_of_bytes(b@) {
                None => r == Received::Malformed && final(self)@ == old(self)@,
                Some(e) => {
                    &&& final(self)@ == applied_after(old(self)@, e)
                    &&& match e {
                        EventModel::OutputLevelChanged(p, l) => if function_of(old(self)@, p) is Output {
                            r == Received::Drive(p, l.new_level)
                        } else {
                            r == Received::Ignored
                        },
                        _ => r == Received::Applied,
                    }
                },
            },
    {
        match HardwareEvent::from_bytes(b) {
            None => Received::Malformed,
            Some(ev) => {
                let drive = self.apply(&ev);
                match ev {
                    HardwareEvent::OutputLevelChanged(p, l) => if drive {
                        Received::Drive(p, l.new_level)
                    } else {
                        Received::Ignored
                    },
                    _ => Received::Applied,
                }
            },
        }
    }
}

} // verus!
