//! The configuration store: which function each controller pin is
//! assigned, and the byte format a configuration is saved in.
use vstd::prelude::*;
use crate::hw::{BCMPinNumber, InputPull, PinFunction};

verus! {

/// One assignment of a configuration.
pub type PinAssignment = (BCMPinNumber, PinFunction);

/// No controller number is assigned twice.
pub open spec fn keys_unique(entries: Seq<PinAssignment>) -> bool {
    forall|i: int, j: int|
        0 <= i < entries.len() && 0 <= j < entries.len() && i != j ==> entries[i].0 != entries[j].0
}

pub open spec fn is_assigned(entries: Seq<PinAssignment>, bcm: BCMPinNumber) -> bool {
    exists|i: int| 0 <= i < entries.len() && entries[i].0 == bcm
}

/// The function a configuration gives to a controller pin; a pin without an
/// entry is unused.
pub open spec fn function_of(entries: Seq<PinAssignment>, bcm: BCMPinNumber) -> PinFunction {
    if is_assigned(entries, bcm) {
        entries[choose|i: int| 0 <= i < entries.len() && entries[i].0 == bcm].1
    } else {
        PinFunction::Unused
    }
}

/// `i` is the first entry for `bcm`.
pub open spec fn first_entry(entries: Seq<PinAssignment>, bcm: BCMPinNumber, i: int) -> bool {
    &&& 0 <= i < entries.len()
    &&& entries[i].0 == bcm
    &&& forall|j: int| 0 <= j < i ==> entries[j].0 != bcm
}

/// The entries after setting `bcm` to `f`: the first entry for `bcm` is
/// replaced in place, or a new entry is appended when there is none.
pub open spec fn upserted(entries: Seq<PinAssignment>, bcm: BCMPinNumber, f: PinFunction) -> Seq<PinAssignment> {
    if is_assigned(entries, bcm) {
        entries.update(choose|i: int| first_entry(entries, bcm, i), (bcm, f))
    } else {
        entries.push((bcm, f))
    }
}

/// Whether `entries` has an entry for `bcm`.
pub fn contains_pin(entries: &Vec<PinAssignment>, bcm: BCMPinNumber) -> (r: bool)
    ensures
        r == is_assigned(entries@, bcm),
{
    let mut i: usize = 0;
    while i < entries.len()
        invariant
            i <= entries@.len(),
            forall|j: int| 0 <= j < i ==> entries@[j].0 != bcm,
        decreases entries@.len() - i,
    {
        if entries[i].0 == bcm {
            return true;
        }
        i += 1;
    }
    false
}

/// An entry-for-entry copy.
pub fn clone_entries(entries: &Vec<PinAssignment>) -> (r: Vec<PinAssignment>)
    ensures
        r@ == entries@,
{
    let mut v: Vec<PinAssignment> = Vec::new();
    let mut i: usize = 0;
    while i < entries.len()
        invariant
            i <= entries@.len(),
            v@ == entries@.subrange(0, i as int),
        decreases entries@.len() - i,
    {
        v.push(entries[i]);
        i += 1;
    }
    assert(entries@.subrange(0, entries@.len() as int) == entries@);
    v
}

/// A set of pin assignments, in the order they were made.
#[derive(Debug)]
pub struct GPIOConfig {
    pub configured_pins: Vec<PinAssignment>,
}

impl View for GPIOConfig {
    type V = Seq<PinAssignment>;

    open spec fn view(&self) -> Seq<PinAssignment> {
        self.configured_pins@
    }
}

pub(crate) proof fn lemma_first_entry_unique(entries: Seq<PinAssignment>, bcm: BCMPinNumber, i: int)
    requires
        first_entry(entries, bcm, i),
    ensures
        is_assigned(entries, bcm),
        (choose|k: int| first_entry(entries, bcm, k)) == i,
{
    let k = choose|k: int| first_entry(entries, bcm, k);
    assert(first_entry(entries, bcm, k));
    if k < i {
        assert(entries[k].0 != bcm);
    } else if i < k {
        assert(entries[i].0 != bcm);
    }
}

/// In a configuration without repeated pins, the entry at `i` gives the
/// function of its pin.
pub proof fn lemma_function_of_entry(entries: Seq<PinAssignment>, i: int)
    requires
        keys_unique(entries),
        0 <= i < entries.len(),
    ensures
        function_of(entries, entries[i].0) == entries[i].1,
{
    let bcm = entries[i].0;
    assert(is_assigned(entries, bcm));
    let k = choose|k: int| 0 <= k < entries.len() && entries[k].0 == bcm;
    assert(k == i);
}

/// Setting a pin changes the function of that pin alone, and keeps the
/// pins distinct.
pub proof fn lemma_upserted(entries: Seq<PinAssignment>, bcm: BCMPinNumber, f: PinFunction)
    requires
        keys_unique(entries),
    ensures
        keys_unique(upserted(entries, bcm, f)),
        function_of(upserted(entries, bcm, f), bcm) == f,
        forall|p: BCMPinNumber| p != bcm ==> function_of(upserted(entries, bcm, f), p) == function_of(entries, p),
{
    let u = upserted(entries, bcm, f);
    let k = if is_assigned(entries, bcm) {
        let w = choose|w: int| 0 <= w < entries.len() && entries[w].0 == bcm;
        assert(first_entry(entries, bcm, w));
        lemma_first_entry_unique(entries, bcm, w);
        assert(u == entries.update(w, (bcm, f)));
        w
    } else {
        assert(u == entries.push((bcm, f)));
        entries.len() as int
    };
    assert(keys_unique(u));
    assert(u[k] == (bcm, f));
    lemma_function_of_entry(u, k);
    assert forall|p: BCMPinNumber| p != bcm implies function_of(u, p) == function_of(entries, p) by {
        if is_assigned(entries, p) {
            let w = choose|w: int| 0 <= w < entries.len() && entries[w].0 == p;
            lemma_function_of_entry(entries, w);
            assert(u[w] == entries[w]);
            lemma_function_of_entry(u, w);
        } else {
            if is_assigned(u, p) {
                let w = choose|w: int| 0 <= w < u.len() && u[w].0 == p;
                assert(w < entries.len() && entries[w].0 == p);
            }
        }
    }
}

impl GPIOConfig {
    /// The empty configuration: every pin unused.
    pub fn new() -> (r: GPIOConfig)
        ensures
            r@ == Seq::<PinAssignment>::empty(),
    {
        GPIOConfig { configured_pins: Vec::new() }
    }

    pub open spec fn wf(&self) -> bool {
        keys_unique(self@)
    }

    /// An entry-for-entry copy.
    pub fn copy(&self) -> (r: GPIOConfig)
        ensures
            r@ == self@,
    {
        GPIOConfig { configured_pins: clone_entries(&self.configured_pins) }
    }

    /// The function assigned to controller pin `bcm`.
    pub fn get(&self, bcm: BCMPinNumber) -> (r: PinFunction)
        requires
            self.wf(),
        ensures
            r == function_of(self@, bcm),
    {
        let mut i: usize = 0;
        while i < self.configured_pins.len()
            invariant
                self.wf(),
                i <= self@.len(),
                forall|j: int| 0 <= j < i ==> self@[j].0 != bcm,
            decreases self@.len() - i,
        {
            if self.configured_pins[i].0 == bcm {
                proof { lemma_function_of_entry(self@, i as int); }
                return self.configured_pins[i].1;
            }
            i += 1;
        }
        PinFunction::Unused
    }

    /// Sets the function of controller pin `bcm`: the entry for it is
    /// replaced where there is one, else a new one is appended.
    pub fn upsert(&mut self, bcm: BCMPinNumber, f: PinFunction)
        ensures
            final(self)@ == upserted(old(self)@, bcm, f),
    {
        let mut i: usize = 0;
        while i < self.configured_pins.len()
            invariant
                i <= self@.len(),
                self@ == old(self)@,
                forall|j: int| 0 <= j < i ==> self@[j].0 != bcm,
            decreases self@.len() - i,
        {
            if self.configured_pins[i].0 == bcm {
                proof { lemma_first_entry_unique(self@, bcm, i as int); }
                self.configured_pins.set(i, (bcm, f));
                return;
            }
            i += 1;
        }
        self.configured_pins.push((bcm, f));
    }
}

/// Why a saved configuration could not be read back.
#[derive(Clone, Copy, Debug, PartialEq, Eq, Structural)]
pub enum LoadError {
    /// There is no file of that name.
    FileNotFound,
    /// The bytes are not a configuration.
    ParseError,
}

/// The pair of bytes that stands for a pin function: a kind and an argument.
pub open spec fn code_of(f: PinFunction) -> (u8, u8) {
    match f {
        PinFunction::Unused => (0, 0),
        PinFunction::Input(None) => (1, 0),
        PinFunction::Input(Some(InputPull::PullUp)) => (1, 1),
        PinFunction::Input(Some(InputPull::PullDown)) => (1, 2),
        PinFunction::Input(Some(InputPull::NoPull)) => (1, 3),
        PinFunction::Output(None) => (2, 0),
        PinFunction::Output(Some(false)) => (2, 1),
        PinFunction::Output(Some(true)) => (2, 2),
    }
}

/// The pin function a pair of bytes stands for, if any.
pub open spec fn function_from_code(kind: u8, arg: u8) -> Option<PinFunction> {
    if kind == 0 && arg == 0 {
        Some(PinFunction::Unused)
    } else if kind == 1 && arg == 0 {
        Some(PinFunction::Input(None))
    } else if kind == 1 && arg == 1 {
        Some(PinFunction::Input(Some(InputPull::PullUp)))
    } else if kind == 1 && arg == 2 {
        Some(PinFunction::Input(Some(InputPull::PullDown)))
    } else if kind == 1 && arg == 3 {
        Some(PinFunction::Input(Some(InputPull::NoPull)))
    } else if kind == 2 && arg == 0 {
        Some(PinFunction::Output(None))
    } else if kind == 2 && arg == 1 {
        Some(PinFunction::Output(Some(false)))
    } else if kind == 2 && arg == 2 {
        Some(PinFunction::Output(Some(true)))
    } else {
        None
    }
}

/// The bytes of one assignment: the pin, then the function's two bytes.
pub open spec fn encode_entry(e: PinAssignment) -> Seq<u8> {
    seq![e.0, code_of(e.1).0, code_of(e.1).1]
}

/// The saved form of a list of assignments: their bytes, one after another.
pub open spec fn encode_entries(s: Seq<PinAssignment>) -> Seq<u8>
    decreases s.len(),
{
    if s.len() == 0 {
        Seq::empty()
    } else {
        encode_entries(s.drop_last()) + encode_entry(s.last())
    }
}

/// The assignments that bytes stand for, if they are a whole number of
/// valid three-byte entries.
pub open spec fn decode_entries(b: Seq<u8>) -> Option<Seq<PinAssignment>>
    decreases b.len(),
{
    if b.len() == 0 {
        Some(Seq::empty())
    } else if b.len() < 3 {
        None
    } else {
        let n = b.len();
        match (decode_entries(b.subrange(0, n - 3)), function_from_code(b[n - 2], b[n - 1])) {
            (Some(s), Some(f)) => Some(s.push((b[n - 3], f))),
            _ => None,
        }
    }
}

/// What reading saved bytes gives: the assignments, when the bytes are
/// well formed and assign no pin twice.
pub open spec fn decode_config(b: Seq<u8>) -> Result<Seq<PinAssignment>, LoadError> {
    match decode_entries(b) {
        Some(s) => if keys_unique(s) {
            Ok(s)
        } else {
            Err(LoadError::ParseError)
        },
        None => Err(LoadError::ParseError),
    }
}

proof fn lemma_decode_len(b: Seq<u8>)
    ensures
        decode_entries(b) is Some ==> b.len() % 3 == 0,
    decreases b.len(),
{
    if b.len() >= 3 {
        lemma_decode_len(b.subrange(0, b.len() - 3));
    }
}

proof fn lemma_decode_prefix(b: Seq<u8>, k: int)
    requires
        0 <= k <= b.len(),
        k % 3 == 0,
        decode_entries(b) is Some,
    ensures
        decode_entries(b.subrange(0, k)) is Some,
    decreases b.len(),
{
    lemma_decode_len(b);
    if k < b.len() {
        let p = b.subrange(0, b.len() - 3);
        lemma_decode_prefix(p, k);
        assert(p.subrange(0, k) == b.subrange(0, k));
    } else {
        assert(b.subrange(0, k) == b);
    }
}

/// Reading back what was saved gives the same configuration.
pub proof fn lemma_save_load_round_trip(c: Seq<PinAssignment>)
    requires
        keys_unique(c),
    ensures
        decode_config(encode_entries(c)) == Ok::<Seq<PinAssignment>, LoadError>(c),
{
    lemma_decode_encode(c);
}

pub(crate) proof fn lemma_decode_encode(c: Seq<PinAssignment>)
    ensures
        decode_entries(encode_entries(c)) == Some(c),
        encode_entries(c).len() == 3 * c.len(),
    decreases c.len(),
{
    if c.len() > 0 {
        let pre = c.drop_last();
        lemma_decode_encode(pre);
        let b = encode_entries(c);
        assert(b == encode_entries(pre) + encode_entry(c.last()));
        let n = b.len();
        assert(b.subrange(0, n - 3) == encode_entries(pre));
        assert(pre.push(c.last()) == c);
    }
}

pub(crate) fn code_of_exec(f: PinFunction) -> (r: (u8, u8))
    ensures
        r == code_of(f),
{
    match f {
        PinFunction::Unused => (0, 0),
        PinFunction::Input(None) => (1, 0),
        PinFunction::Input(Some(InputPull::PullUp)) => (1, 1),
        PinFunction::Input(Some(InputPull::PullDown)) => (1, 2),
        PinFunction::Input(Some(InputPull::NoPull)) => (1, 3),
        PinFunction::Output(None) => (2, 0),
        PinFunction::Output(Some(false)) => (2, 1),
        PinFunction::Output(Some(true)) => (2, 2),
    }
}

pub(crate) fn function_from_code_exec(kind: u8, arg: u8) -> (r: Option<PinFunction>)
    ensures
        r == function_from_code(kind, arg),
{
    if kind == 0 && arg == 0 {
        Some(PinFunction::Unused)
    } else if kind == 1 && arg == 0 {
        Some(PinFunction::Input(None))
    } else if kind == 1 && arg == 1 {
        Some(PinFunction::Input(Some(InputPull::PullUp)))
    } else if kind == 1 && arg == 2 {
        Some(PinFunction::Input(Some(InputPull::PullDown)))
    } else if kind == 1 && arg == 3 {
        Some(PinFunction::Input(Some(InputPull::NoPull)))
    } else if kind == 2 && arg == 0 {
        Some(PinFunction::Output(None))
    } else if kind == 2 && arg == 1 {
        Some(PinFunction::Output(Some(false)))
    } else if kind == 2 && arg == 2 {
        Some(PinFunction::Output(Some(true)))
    } else {
        None
    }
}

/// Appends the saved form of `entries` to `out`.
pub fn encode_assignments(entries: &Vec<PinAssignment>, out: &mut Vec<u8>)
    ensures
        final(out)@ == old(out)@ + encode_entries(entries@),
{
    let mut i: usize = 0;
    while i < entries.len()
        invariant
            i <= entries@.len(),
            out@ == old(out)@ + encode_entries(entries@.subrange(0, i as int)),
        decreases entries@.len() - i,
    {
        let (kind, arg) = code_of_exec(entries[i].1);
        let ghost before = out@;
        out.push(entries[i].0);
        out.push(kind);
        out.push(arg);
        proof {
            let s = entries@.subrange(0, i as int + 1);
            assert(s.drop_last() == entries@.subrange(0, i as int));
            assert(s.last() == entries@[i as int]);
            assert(out@ == before + encode_entry(entries@[i as int]));
        }
        i += 1;
    }
    assert(entries@.subrange(0, entries@.len() as int) == entries@);
}

/// Reads the assignments that `b` holds from position `start` on, three
/// bytes each.
pub fn decode_assignments(b: &[u8], start: usize) -> (r: Result<Vec<PinAssignment>, LoadError>)
    requires
        start <= b@.len(),
    ensures
        match r {
            Ok(v) => decode_entries(b@.subrange(start as int, b@.len() as int)) == Some(v@),
            Err(e) => e == LoadError::ParseError && decode_entries(b@.subrange(start as int, b@.len() as int)) is None,
        },
{
    let ghost t = b@.subrange(start as int, b@.len() as int);
    let mut v: Vec<PinAssignment> = Vec::new();
    let mut i: usize = start;
    while 3 <= b.len() - i
        invariant
            start <= i <= b@.len(),
            t == b@.subrange(start as int, b@.len() as int),
            (i - start) % 3 == 0,
            decode_entries(t.subrange(0, i - start)) == Some(v@),
        decreases b@.len() - i,
    {
        let f = function_from_code_exec(b[i + 1], b[i + 2]);
        let ghost p = t.subrange(0, i - start + 3);
        assert(p.subrange(0, i - start) == t.subrange(0, i - start));
        assert(p[i - start] == b@[i as int] && p[i - start + 1] == b@[i + 1] && p[i - start + 2] == b@[i + 2]);
        match f {
            Some(f) => {
                v.push((b[i], f));
            }
            None => {
                proof {
                    assert(decode_entries(p) is None);
                    if decode_entries(t) is Some {
                        lemma_decode_prefix(t, i - start + 3);
                    }
                }
                return Err(LoadError::ParseError);
            }
        }
        i += 3;
    }
    if i != b.len() {
        proof {
            lemma_decode_len(t);
        }
        return Err(LoadError::ParseError);
    }
    assert(t.subrange(0, i - start) == t);
    Ok(v)
}

/// Whether no controller number appears twice in `entries`.
pub fn has_unique_pins(entries: &Vec<PinAssignment>) -> (r: bool)
    ensures
        r == keys_unique(entries@),
{
    let mut i: usize = 0;
    while i < entries.len()
        invariant
            i <= entries@.len(),
            forall|j: int, k: int| 0 <= j < i && 0 <= k < entries@.len() && j != k ==> entries@[j].0 != entries@[k].0,
        decreases entries@.len() - i,
    {
        let mut k: usize = 0;
        while k < entries.len()
            invariant
                i < entries@.len(),
                k <= entries@.len(),
                forall|l: int| 0 <= l < k && l != i ==> entries@[i as int].0 != entries@[l].0,
            decreases entries@.len() - k,
        {
            if k != i && entries[k].0 == entries[i].0 {
                assert(!keys_unique(entries@)) by {
                    assert(entries@[k as int].0 == entries@[i as int].0);
                }
                return false;
            }
            k += 1;
        }
        i += 1;
    }
    true
}

impl GPIOConfig {
    /// The saved form of this configuration.
    pub fn to_bytes(&self) -> (r: Vec<u8>)
        ensures
            r@ == encode_entries(self@),
    {
        let mut out: Vec<u8> = Vec::new();
        encode_assignments(&self.configured_pins, &mut out);
        out
    }

    /// Reads a configuration back from its saved form. Bytes that are not a
    /// whole number of valid entries, or that assign a pin twice, are a
    /// `ParseError`.
    pub fn from_bytes(b: &[u8]) -> (r: Result<GPIOConfig, LoadError>)
        ensures
            match r {
                Ok(c) => decode_config(b@) == Ok::<Seq<PinAssignment>, LoadError>(c@),
                Err(e) => decode_config(b@) == Err::<Seq<PinAssignment>, LoadError>(e),
            },
    {
        assert(b@.subrange(0, b@.len() as int) == b@);
        let v = match decode_assignments(b, 0) {
            Ok(v) => v,
            Err(e) => return Err(e),
        };
        if !has_unique_pins(&v) {
            return Err(LoadError::ParseError);
        }
        Ok(GPIOConfig { configured_pins: v })
    }
}

} // verus!
