//! The pin address model: pin functions, per-pin descriptions and the
//! translation between physical positions and controller numbers.
use vstd::prelude::*;

verus! {

/// Number of physical positions on the connector.
pub const PIN_COUNT: usize = 40;

/// A pin's number in the controller's own numbering.
pub type BCMPinNumber = u8;

/// A pin's physical position on the connector, counted from 1.
pub type BoardPinNumber = u8;

/// A pin level: `true` is high.
pub type PinLevel = bool;

/// The pull resistor applied to an input.
#[derive(Clone, Copy, Debug, PartialEq, Eq, Structural)]
pub enum InputPull {
    PullUp,
    PullDown,
    NoPull,
}

/// The function a pin is configured for.
#[derive(Clone, Copy, Debug, PartialEq, Eq, Structural)]
pub enum PinFunction {
    Unused,
    Input(Option<InputPull>),
    Output(Option<PinLevel>),
}

/// A level observed on, or requested for, a pin.
#[derive(Clone, Copy, Debug, PartialEq, Eq, Structural)]
pub struct LevelChange {
    pub new_level: PinLevel,
}

impl LevelChange {
    pub fn new(new_level: PinLevel) -> (r: LevelChange)
        ensures
            r.new_level == new_level,
    {
        LevelChange { new_level }
    }
}

/// One physical position of the connector.
#[derive(Debug)]
pub struct PinDescription {
    pub board_pin_number: BoardPinNumber,
    pub bcm_pin_number: Option<BCMPinNumber>,
    pub name: String,
    pub options: Vec<PinFunction>,
}

/// Positions are numbered 1, 2, ... in order and there are at most
/// `PIN_COUNT` of them.
pub open spec fn positions_ok(pins: Seq<PinDescription>) -> bool {
    &&& pins.len() <= PIN_COUNT
    &&& forall|i: int| 0 <= i < pins.len() ==> pins[i].board_pin_number == i + 1
}

/// No controller number belongs to two positions.
pub open spec fn controllers_unique(pins: Seq<PinDescription>) -> bool {
    forall|i: int, j: int|
        0 <= i < pins.len() && 0 <= j < pins.len() && i != j && pins[i].bcm_pin_number.is_some()
            ==> pins[i].bcm_pin_number != pins[j].bcm_pin_number
}

pub open spec fn has_controller(pins: Seq<PinDescription>, bcm: BCMPinNumber) -> bool {
    exists|i: int| 0 <= i < pins.len() && pins[i].bcm_pin_number == Some(bcm)
}

/// The position that carries controller number `bcm`, if any.
pub open spec fn board_for(pins: Seq<PinDescription>, bcm: BCMPinNumber) -> Option<BoardPinNumber> {
    if has_controller(pins, bcm) {
        Some(
            pins[choose|i: int| 0 <= i < pins.len() && pins[i].bcm_pin_number == Some(bcm)].board_pin_number,
        )
    } else {
        None
    }
}

/// The controller number at position `board`, if it is a known position
/// that has one.
pub open spec fn bcm_for(pins: Seq<PinDescription>, board: BoardPinNumber) -> Option<BCMPinNumber> {
    if 1 <= board <= pins.len() {
        pins[board - 1].bcm_pin_number
    } else {
        None
    }
}

/// What the index holds for one controller number: the position that has it,
/// or nothing when no position of `pins` has it.
pub open spec fn index_entry_ok(pins: Seq<PinDescription>, bcm: BCMPinNumber, e: Option<BoardPinNumber>) -> bool {
    match e {
        Some(k) => 1 <= k <= pins.len() && pins[k - 1].bcm_pin_number == Some(bcm),
        None => !has_controller(pins, bcm),
    }
}

/// The set of pin descriptions of one board, with an index from controller
/// numbers to positions.
#[derive(Debug)]
pub struct PinDescriptionSet {
    pins: Vec<PinDescription>,
    board_of_bcm: Vec<Option<BoardPinNumber>>,
}

impl View for PinDescriptionSet {
    type V = Seq<PinDescription>;

    closed spec fn view(&self) -> Seq<PinDescription> {
        self.pins@
    }
}

proof fn lemma_board_for_is_index(pins: Seq<PinDescription>, bcm: BCMPinNumber, k: BoardPinNumber)
    requires
        positions_ok(pins),
        controllers_unique(pins),
        1 <= k <= pins.len(),
        pins[k - 1].bcm_pin_number == Some(bcm),
    ensures
        board_for(pins, bcm) == Some(k),
{
    assert(has_controller(pins, bcm));
    let c = choose|i: int| 0 <= i < pins.len() && pins[i].bcm_pin_number == Some(bcm);
    assert(c == k - 1);
}

impl PinDescriptionSet {
    /// Positions in order, a controller number at most once, and an index
    /// that agrees with the descriptions.
    #[verifier::type_invariant]
    pub closed spec fn wf(&self) -> bool {
        &&& positions_ok(self.pins@)
        &&& controllers_unique(self.pins@)
        &&& self.board_of_bcm@.len() == 256
        &&& forall|b: BCMPinNumber| #[trigger] index_entry_ok(self.pins@, b, self.board_of_bcm@[b as int])
    }

    /// Builds the set and its index from the descriptions, in one pass. It
    /// is refused when the positions are not 1, 2, ... in order, when there
    /// are more than `PIN_COUNT`, or when a controller number repeats.
    pub fn new(pins: Vec<PinDescription>) -> (r: Option<PinDescriptionSet>)
        ensures
            r.is_some() <==> positions_ok(pins@) && controllers_unique(pins@),
            r matches Some(s) ==> s@ == pins@,
    {
        if pins.len() > PIN_COUNT {
            return None;
        }
        let mut index: Vec<Option<BoardPinNumber>> = Vec::new();
        let mut k: usize = 0;
        while k < 256
            invariant
                index@.len() == k,
                k <= 256,
                forall|j: int| 0 <= j < k ==> index@[j].is_none(),
            decreases 256 - k,
        {
            index.push(None);
            k += 1;
        }
        let mut i: usize = 0;
        while i < pins.len()
            invariant
                pins@.len() <= PIN_COUNT,
                i <= pins@.len(),
                index@.len() == 256,
                positions_ok(pins@.subrange(0, i as int)),
                controllers_unique(pins@.subrange(0, i as int)),
                forall|b: BCMPinNumber|
                    #[trigger] index_entry_ok(pins@.subrange(0, i as int), b, index@[b as int]),
            decreases pins@.len() - i,
        {
            let ghost pre = pins@.subrange(0, i as int);
            let ghost post = pins@.subrange(0, i as int + 1);
            assert(post == pre.push(pins@[i as int]));
            if pins[i].board_pin_number as usize != i + 1 {
                return None;
            }
            match pins[i].bcm_pin_number {
                Some(b) => {
                    if index[b as usize].is_some() {
                        proof {
                            let k = index@[b as int]->Some_0;
                            assert(index_entry_ok(pre, b, index@[b as int]));
                            assert(pins@[k - 1] == pre[k - 1]);
                            assert(!controllers_unique(pins@));
                        }
                        return None;
                    }
                    assert(index_entry_ok(pre, b, index@[b as int]));
                    let ghost before = index@;
                    index.set(b as usize, Some(pins[i].board_pin_number));
                    assert forall|b2: BCMPinNumber| #[trigger] index_entry_ok(post, b2, index@[b2 as int]) by {
                        if b2 != b {
                            assert(index_entry_ok(pre, b2, before[b2 as int]));
                            if has_controller(post, b2) {
                                let w = choose|w: int| 0 <= w < post.len() && post[w].bcm_pin_number == Some(b2);
                                assert(pre[w] == post[w]);
                            }
                            if has_controller(pre, b2) {
                                let w = choose|w: int| 0 <= w < pre.len() && pre[w].bcm_pin_number == Some(b2);
                                assert(pre[w] == post[w]);
                            }
                        }
                    }
                }
                None => {
                    assert forall|b2: BCMPinNumber| #[trigger] index_entry_ok(post, b2, index@[b2 as int]) by {
                        assert(index_entry_ok(pre, b2, index@[b2 as int]));
                        if has_controller(post, b2) {
                            let w = choose|w: int| 0 <= w < post.len() && post[w].bcm_pin_number == Some(b2);
                            assert(pre[w] == post[w]);
                        }
                        if has_controller(pre, b2) {
                            let w = choose|w: int| 0 <= w < pre.len() && pre[w].bcm_pin_number == Some(b2);
                            assert(pre[w] == post[w]);
                        }
                    }
                }
            }
            i += 1;
        }
        assert(pins@.subrange(0, pins@.len() as int) == pins@);
        Some(PinDescriptionSet { pins, board_of_bcm: index })
    }

    /// The descriptions, by position.
    pub fn pins(&self) -> (r: &Vec<PinDescription>)
        ensures
            r@ == self@,
    {
        &self.pins
    }

    /// The position that carries controller number `bcm`, found in the index.
    pub fn bcm_to_board(&self, bcm: BCMPinNumber) -> (r: Option<BoardPinNumber>)
        ensures
            r == board_for(self@, bcm),
            r matches Some(k) ==> 1 <= k <= self@.len() && self@[k - 1].bcm_pin_number == Some(bcm),
            self@.len() <= PIN_COUNT,
    {
        proof {
            use_type_invariant(self);
        }
        let r = self.board_of_bcm[bcm as usize];
        proof {
            assert(index_entry_ok(self.pins@, bcm, self.board_of_bcm@[bcm as int]));
            if let Some(k) = r {
                lemma_board_for_is_index(self.pins@, bcm, k);
            }
        }
        r
    }

    /// The controller number at position `board`, if it has one.
    pub fn board_to_bcm(&self, board: BoardPinNumber) -> (r: Option<BCMPinNumber>)
        ensures
            r == bcm_for(self@, board),
    {
        if 1 <= board && (board as usize) <= self.pins.len() {
            self.pins[board as usize - 1].bcm_pin_number
        } else {
            None
        }
    }

    /// The (controller number, position) pairs of the pins that have a
    /// controller number, in ascending controller order.
    pub fn bcm_pins_sorted(&self) -> (r: Vec<(BCMPinNumber, BoardPinNumber)>)
        ensures
            forall|j: int, l: int| 0 <= j < l < r@.len() ==> r@[j].0 < r@[l].0,
            forall|j: int| 0 <= j < r@.len() ==> board_for(self@, #[trigger] r@[j].0) == Some(r@[j].1),
            forall|b: BCMPinNumber| has_controller(self@, b) ==> exists|j: int| 0 <= j < r@.len() && #[trigger] r@[j].0 == b,
    {
        let mut r: Vec<(BCMPinNumber, BoardPinNumber)> = Vec::new();
        let mut b: usize = 0;
        while b < 256
            invariant
                b <= 256,
                forall|j: int, l: int| 0 <= j < l < r@.len() ==> r@[j].0 < r@[l].0,
                forall|j: int| 0 <= j < r@.len() ==> r@[j].0 < b,
                forall|j: int| 0 <= j < r@.len() ==> board_for(self@, #[trigger] r@[j].0) == Some(r@[j].1),
                forall|c: BCMPinNumber| c < b && has_controller(self@, c) ==> exists|j: int| 0 <= j < r@.len() && #[trigger] r@[j].0 == c,
            decreases 256 - b,
        {
            let ghost r0 = r@;
            let e = self.bcm_to_board(b as u8);
            if let Some(k) = e {
                r.push((b as u8, k));
                assert(r@[r@.len() - 1].0 == b);
            }
            proof {
                assert forall|c: BCMPinNumber| c < b + 1 && has_controller(self@, c) implies exists|j: int| 0 <= j < r@.len() && #[trigger] r@[j].0 == c by {
                    if c == b {
                        assert(board_for(self@, c).is_some());
                        assert(r@[r@.len() - 1].0 == c);
                    } else {
                        let j = choose|j: int| 0 <= j < r0.len() && #[trigger] r0[j].0 == c;
                        assert(r@[j] == r0[j]);
                    }
                }
            }
            b += 1;
        }
        r
    }
}

/// Identity of a board: what it is and which one.
#[derive(Debug)]
pub struct HardwareDetails {
    pub hardware: String,
    pub revision: String,
    pub serial: String,
    pub model: String,
}

/// What the backend tells about the hardware once it is ready: the board's
/// identity and its pins.
#[derive(Debug)]
pub struct HardwareDescription {
    pub details: HardwareDetails,
    pub pins: PinDescriptionSet,
}


} // verus!
