//! Quadrature encoders: decoding of the pin levels into one of four phases, and
//! the position counter that moves by one step each time the phase advances to a
//! neighbouring one.

use vstd::prelude::*;
use crate::arith::rem_euclid_i32;

verus! {

/// Reads a position from some encoder.
pub trait EncoderTrait {
    fn read(&mut self) -> i32;
}

/// Phase encoded by the four pins of a four-wire encoder, if the levels form a
/// valid phase.
pub open spec fn phase_of_four_pins(p0: bool, p1: bool, p2: bool, p3: bool) -> Option<int> {
    if p0 && p1 && !p2 && !p3 {
        Some(0)
    } else if !p0 && p1 && p2 && !p3 {
        Some(1)
    } else if !p0 && !p1 && p2 && p3 {
        Some(2)
    } else if p0 && !p1 && !p2 && p3 {
        Some(3)
    } else {
        None
    }
}

/// Phase encoded by the two pins of a two-wire (A/B) encoder: every
/// combination of levels is a valid phase.
pub open spec fn phase_of_two_pins(p0: bool, p1: bool) -> int {
    if p0 && p1 {
        0
    } else if !p0 && p1 {
        1
    } else if !p0 && !p1 {
        2
    } else {
        3
    }
}

/// The position after observing phase `cur_phase` while at position `pos`: one
/// step back if the phase is the one before the position's phase, one step
/// forward if it is the one after, otherwise unchanged.
pub open spec fn stepped_position(pos: int, cur_phase: int) -> int {
    let prev_phase = pos % 4;
    if prev_phase == (cur_phase + 1) % 4 {
        pos - 1
    } else if cur_phase == (prev_phase + 1) % 4 {
        pos + 1
    } else {
        pos
    }
}

/// Decodes the four pin levels into a phase.
pub fn four_pin_phase(p0: bool, p1: bool, p2: bool, p3: bool) -> (r: Option<i32>)
    ensures
        r matches Some(ph) ==> phase_of_four_pins(p0, p1, p2, p3) == Some(ph as int),
        r is None ==> phase_of_four_pins(p0, p1, p2, p3) is None,
{
    match (p0, p1, p2, p3) {
        (true, true, false, false) => Some(0),
        (false, true, true, false) => Some(1),
        (false, false, true, true) => Some(2),
        (true, false, false, true) => Some(3),
        _ => None,
    }
}

/// Decodes the two pin levels into a phase.
pub fn two_pin_phase(p0: bool, p1: bool) -> (r: i32)
    ensures
        r == phase_of_two_pins(p0, p1),
{
    match (p0, p1) {
        (true, true) => 0,
        (false, true) => 1,
        (false, false) => 2,
        (true, false) => 3,
    }
}

/// Moves `pos` according to the newly observed phase `cur_phase`.
///
/// Both neighbour tests are made one after the other; they can never both hold,
/// so at most one step is taken.
pub fn step_position(pos: i32, cur_phase: i32) -> (r: i32)
    requires
        0 <= cur_phase < 4,
        i32::MIN <= stepped_position(pos as int, cur_phase as int) <= i32::MAX,
    ensures
        r == stepped_position(pos as int, cur_phase as int),
{
    let prev_phase = rem_euclid_i32(pos, 4);
    let mut new_pos = pos;
    if prev_phase == (1 + cur_phase) % 4 {
        new_pos = pos - 1;
    }
    if cur_phase == (1 + prev_phase) % 4 {
        new_pos = new_pos + 1;
    }
    new_pos
}

/// A four-wire encoder, read by polling its pins.
pub struct EncoderPool {
    pub position: i32,
}

impl EncoderPool {
    /// A new encoder at position 0.
    pub fn new() -> (r: Self)
        ensures
            r.position == 0,
    {
        EncoderPool { position: 0 }
    }

    /// Updates the position from the current pin levels. Invalid combinations of
    /// levels leave the position unchanged.
    pub fn update(&mut self, p0: bool, p1: bool, p2: bool, p3: bool)
        requires
            phase_of_four_pins(p0, p1, p2, p3) matches Some(ph) ==> i32::MIN <= stepped_position(
                old(self).position as int,
                ph,
            ) <= i32::MAX,
        ensures
            final(self).position == match phase_of_four_pins(p0, p1, p2, p3) {
                Some(ph) => stepped_position(old(self).position as int, ph),
                None => old(self).position as int,
            },
    {
        match four_pin_phase(p0, p1, p2, p3) {
            Some(cur_phase) => {
                self.position = step_position(self.position, cur_phase);
            },
            None => {},
        }
    }

    /// The current position.
    pub fn get_pos(&self) -> (r: i32)
        ensures
            r == self.position,
    {
        self.position
    }

    /// Updates the position from the pin levels, then returns it.
    pub fn read(&mut self, p0: bool, p1: bool, p2: bool, p3: bool) -> (r: i32)
        requires
            phase_of_four_pins(p0, p1, p2, p3) matches Some(ph) ==> i32::MIN <= stepped_position(
                old(self).position as int,
                ph,
            ) <= i32::MAX,
        ensures
            final(self).position == match phase_of_four_pins(p0, p1, p2, p3) {
                Some(ph) => stepped_position(old(self).position as int, ph),
                None => old(self).position as int,
            },
            r == final(self).position,
    {
        self.update(p0, p1, p2, p3);
        self.get_pos()
    }

    /// A static encoder that reads the value this encoder publishes.
    pub fn static_encoder(&self) -> (r: StaticEncoder)
        ensures
            r.direction == false,
            r.shift == 0,
    {
        StaticEncoder { direction: false, shift: 0 }
    }
}

/// A two-wire (A/B) encoder, read by polling its pins.
pub struct EncoderPool2 {
    pub position: i32,
}

impl EncoderPool2 {
    /// A new encoder at position 0.
    pub fn new() -> (r: Self)
        ensures
            r.position == 0,
    {
        EncoderPool2 { position: 0 }
    }

    /// Updates the position from the current pin levels.
    pub fn update(&mut self, p0: bool, p1: bool)
        requires
            i32::MIN <= stepped_position(old(self).position as int, phase_of_two_pins(p0, p1))
                <= i32::MAX,
        ensures
            final(self).position == stepped_position(
                old(self).position as int,
                phase_of_two_pins(p0, p1),
            ),
    {
        let cur_phase = two_pin_phase(p0, p1);
        self.position = step_position(self.position, cur_phase);
    }

    /// The current position.
    pub fn get_pos(&self) -> (r: i32)
        ensures
            r == self.position,
    {
        self.position
    }

    /// Updates the position from the pin levels, then returns it.
    pub fn read(&mut self, p0: bool, p1: bool) -> (r: i32)
        requires
            i32::MIN <= stepped_position(old(self).position as int, phase_of_two_pins(p0, p1))
                <= i32::MAX,
        ensures
            final(self).position == stepped_position(
                old(self).position as int,
                phase_of_two_pins(p0, p1),
            ),
            r == final(self).position,
    {
        self.update(p0, p1);
        self.get_pos()
    }

    /// A static encoder that reads the value this encoder publishes.
    pub fn static_encoder(&self) -> (r: StaticEncoder)
        ensures
            r.direction == false,
            r.shift == 0,
    {
        StaticEncoder { direction: false, shift: 0 }
    }
}

/// The new value of the shared encoder counter when the interrupt-driven encoder
/// sees the pin levels `p1`, `p2` while the counter holds `prev_pos`.
pub fn interrupt_update(prev_pos: i32, p1: bool, p2: bool) -> (r: i32)
    requires
        i32::MIN <= stepped_position(prev_pos as int, phase_of_two_pins(p1, p2)) <= i32::MAX,
    ensures
        r == stepped_position(prev_pos as int, phase_of_two_pins(p1, p2)),
{
    step_position(prev_pos, two_pin_phase(p1, p2))
}

/// An encoder whose raw value is published in one shared counter, so that it can
/// be read from several places. The reading is the raw value plus `shift`,
/// negated when `direction` is set.
pub struct StaticEncoder {
    pub direction: bool,
    pub shift: i32,
}

/// What a static encoder reads when the shared counter holds `raw`.
pub open spec fn static_reading(direction: bool, shift: int, raw: int) -> int {
    if direction {
        -(raw + shift)
    } else {
        raw + shift
    }
}

impl StaticEncoder {
    /// The reading of this encoder when the shared counter holds `raw`.
    pub fn read_from(&self, raw: i32) -> (r: i32)
        requires
            i32::MIN < raw + self.shift <= i32::MAX,
        ensures
            r == static_reading(self.direction, self.shift as int, raw as int),
    {
        let ret = raw + self.shift;
        if self.direction {
            -ret
        } else {
            ret
        }
    }
}

/// Each observed phase that is next to the current one moves the position by
/// exactly one step, and the new position is congruent to the observed phase
/// modulo four; observing the current phase, or the opposite one, keeps the
/// position.
pub proof fn lemma_step_tracks_phase(pos: int, cur_phase: int)
    requires
        0 <= cur_phase < 4,
    ensures
        cur_phase == (pos % 4 + 1) % 4 ==> stepped_position(pos, cur_phase) == pos + 1,
        (cur_phase + 1) % 4 == pos % 4 ==> stepped_position(pos, cur_phase) == pos - 1,
        (cur_phase == pos % 4 || cur_phase == (pos % 4 + 2) % 4) ==> stepped_position(
            pos,
            cur_phase,
        ) == pos,
        stepped_position(pos, cur_phase) != pos ==> stepped_position(pos, cur_phase) % 4
            == cur_phase,
{
}

/// Stepping to the next phase and then observing the previous phase again brings
/// the position back to where it was.
pub proof fn lemma_step_forward_back(pos: int)
    ensures
        stepped_position(stepped_position(pos, (pos % 4 + 1) % 4), pos % 4) == pos,
{
}

/// A static encoder reads the shared counter plus its shift, negated when its
/// direction is set.
pub proof fn lemma_static_reading_direction(shift: int, raw: int)
    ensures
        static_reading(false, shift, raw) == raw + shift,
        static_reading(true, shift, raw) == -(raw + shift),
{
}

/// Two-pin decoding is a Gray code: the phase after another one is reached by
/// changing exactly one pin, and both pins high is phase 0.
pub proof fn lemma_two_pin_gray(p0: bool, p1: bool, q0: bool, q1: bool)
    ensures
        phase_of_two_pins(true, true) == 0,
        0 <= phase_of_two_pins(p0, p1) < 4,
        phase_of_two_pins(q0, q1) == (phase_of_two_pins(p0, p1) + 1) % 4 ==> (p0 != q0) != (p1
            != q1),
{
}

/// The level of pin `i` (0 to 3) among four.
pub open spec fn pin_level(p0: bool, p1: bool, p2: bool, p3: bool, i: int) -> bool {
    if i == 0 {
        p0
    } else if i == 1 {
        p1
    } else if i == 2 {
        p2
    } else {
        p3
    }
}

/// A four-wire encoder is in phase `k` exactly when pins `k` and `k + 1`
/// (cyclically) are high and the other two are low; any other combination of
/// levels is no phase.
pub proof fn lemma_four_pin_adjacent_pair(p0: bool, p1: bool, p2: bool, p3: bool, k: int)
    requires
        0 <= k < 4,
    ensures
        phase_of_four_pins(p0, p1, p2, p3) == Some(k) <==> (forall|i: int|
            0 <= i < 4 ==> (pin_level(p0, p1, p2, p3, i) <==> (i == k || i == (k + 1) % 4))),
{
    if phase_of_four_pins(p0, p1, p2, p3) != Some(k) {
        if forall|i: int|
            0 <= i < 4 ==> (pin_level(p0, p1, p2, p3, i) <==> (i == k || i == (k + 1) % 4)) {
            assert(pin_level(p0, p1, p2, p3, 0) <==> (0 == k || 0 == (k + 1) % 4));
            assert(pin_level(p0, p1, p2, p3, 1) <==> (1 == k || 1 == (k + 1) % 4));
            assert(pin_level(p0, p1, p2, p3, 2) <==> (2 == k || 2 == (k + 1) % 4));
            assert(pin_level(p0, p1, p2, p3, 3) <==> (3 == k || 3 == (k + 1) % 4));
        }
    }
}

} // verus!
