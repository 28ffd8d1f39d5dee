//! The integer part of a stepper motor driven by microsteps and read back by an
//! encoder: the shift that aligns the encoder reading with the electrical phases,
//! the direction of rotation, and the phase to energize to push the motor.

use vstd::prelude::*;
use crate::arith::rem_euclid_i32;

verus! {

/// The reading of a motor whose encoder reports `raw`: the raw value plus the
/// alignment shift, negated when the motor rotates the other way.
pub open spec fn motor_reading(rotation: bool, shift: int, raw: int) -> int {
    if rotation {
        raw + shift
    } else {
        -(raw + shift)
    }
}

/// The signed correction that brings a reading `value` onto the nearest multiple
/// of a full electrical period of `4 * microstep` steps (ties go down).
pub open spec fn alignment_correction(value: int, microstep: int) -> int {
    let period = 4 * microstep;
    let s = value % period;
    if s > 2 * microstep {
        period - s
    } else {
        -s
    }
}

/// The shift after correcting the reading by `amount`.
pub open spec fn shifted(rotation: bool, shift: int, amount: int) -> int {
    if rotation {
        shift + amount
    } else {
        shift - amount
    }
}

/// The phase to energize, `microstep` steps ahead of (or behind) `pos`, reduced to
/// one electrical period and truncated to a byte.
pub open spec fn drive_phase(pos: int, microstep: int, forward: bool) -> int {
    let target = if forward {
        pos + microstep
    } else {
        pos - microstep
    };
    (target % (4 * microstep)) % 256
}

/// Direction and alignment of a stepper motor.
pub struct Motor {
    pub rotation: bool,
    pub shift: i32,
}

impl Motor {
    pub open spec fn spec_shift(&self) -> int {
        self.shift as int
    }

    /// A motor with no alignment shift yet.
    pub fn new(rotation: bool) -> (r: Self)
        ensures
            r.rotation == rotation,
            r.spec_shift() == 0,
    {
        Motor { rotation, shift: 0 }
    }

    /// The current alignment shift.
    pub fn get_shift(&self) -> (r: i32)
        ensures
            r == self.spec_shift(),
    {
        self.shift
    }

    /// The reading of the motor when its encoder reports `encoder_value`.
    pub fn read(&self, encoder_value: i32) -> (r: i32)
        requires
            i32::MIN < encoder_value + self.spec_shift() <= i32::MAX,
        ensures
            r == motor_reading(self.rotation, self.spec_shift(), encoder_value as int),
    {
        let v = encoder_value + self.shift;
        if !self.rotation {
            -v
        } else {
            v
        }
    }

    /// Corrects future readings by `amount`.
    fn shift(&mut self, amount: i32)
        requires
            i32::MIN <= shifted(old(self).rotation, old(self).spec_shift(), amount as int)
                <= i32::MAX,
        ensures
            final(self).rotation == old(self).rotation,
            final(self).spec_shift() == shifted(
                old(self).rotation,
                old(self).spec_shift(),
                amount as int,
            ),
    {
        if self.rotation {
            self.shift = self.shift + amount;
        } else {
            self.shift = self.shift - amount;
        }
    }

    /// Whether the shift after aligning on reading `value` fits in an `i32`, so
    /// that [`Motor::apply_alignment`] may be called.
    pub fn alignment_fits(&self, value: i32, microstep: usize) -> (r: bool)
        requires
            0 < microstep,
            4 * microstep <= i32::MAX,
        ensures
            r == (i32::MIN <= shifted(
                self.rotation,
                self.spec_shift(),
                alignment_correction(value as int, microstep as int),
            ) <= i32::MAX),
    {
        let m = microstep as i64;
        let period = m * 4;
        let s = rem_euclid_i32(value, period as i32) as i64;
        let correction = if s > m * 2 {
            period - s
        } else {
            -s
        };
        let new_shift = if self.rotation {
            self.shift as i64 + correction
        } else {
            self.shift as i64 - correction
        };
        i32::MIN as i64 <= new_shift && new_shift <= i32::MAX as i64
    }

    /// Second half of the alignment: the motor has been held on phase 0 and now
    /// reads `value`; shift the readings so that this position reads as the
    /// nearest multiple of the electrical period.
    pub fn apply_alignment(&mut self, value: i32, microstep: usize)
        requires
            0 < microstep,
            4 * microstep <= i32::MAX,
            i32::MIN <= shifted(
                old(self).rotation,
                old(self).spec_shift(),
                alignment_correction(value as int, microstep as int),
            ) <= i32::MAX,
        ensures
            final(self).rotation == old(self).rotation,
            final(self).spec_shift() == shifted(
                old(self).rotation,
                old(self).spec_shift(),
                alignment_correction(value as int, microstep as int),
            ),
    {
        let m = microstep as i32;
        let period = m * 4;
        let s = rem_euclid_i32(value, period);
        if s > m * 2 {
            self.shift(period - s);
        } else {
            self.shift(-s);
        }
    }

    /// The phase to energize so that the motor, now reading `pos`, is pulled
    /// forward (or backward) by a quarter of an electrical period.
    pub fn drive_phase(&self, pos: i32, microstep: usize, forward: bool) -> (r: u8)
        requires
            0 < microstep,
            4 * microstep <= i32::MAX,
            i32::MIN <= pos - microstep,
            pos + microstep <= i32::MAX,
        ensures
            r == drive_phase(pos as int, microstep as int, forward),
    {
        let m = microstep as i32;
        let target = if forward {
            pos + m
        } else {
            pos - m
        };
        let p = rem_euclid_i32(target, m * 4);
        (p % 256) as u8
    }
}

/// The pin levels (EN1, EN2) of an L298N half bridge that set its winding to
/// full current forward (`1`), off (`0`) or backward (any other value).
pub fn discrete_pin_levels(value: i8) -> (r: (bool, bool))
    ensures
        r == (if value == 1 {
            (true, false)
        } else if value == 0 {
            (false, false)
        } else {
            (false, true)
        }),
{
    match value {
        1 => (true, false),
        0 => (false, false),
        _ => (false, true),
    }
}

/// The values of the two windings of a stepper driven by two L298N half bridges
/// at full step `x`: a full electrical turn takes four steps, and any step past
/// the third behaves as the fourth.
pub fn discrete_phase_values(x: u8) -> (r: (i8, i8))
    ensures
        r == (if x == 0 {
            (1i8, 0i8)
        } else if x == 1 {
            (0i8, 1i8)
        } else if x == 2 {
            (-1i8, 0i8)
        } else {
            (0i8, -1i8)
        }),
{
    match x {
        0 => (1, 0),
        1 => (0, 1),
        2 => (-1, 0),
        _ => (0, -1),
    }
}

/// The relay of a relay-feedback calibration: the motor is pushed forward while
/// it is at or before the calibration position and backward past it. It counts
/// the reversals of the push and the extreme positions seen.
pub struct RelayTuner {
    /// The direction of the last push (`true` is forward).
    pub dir: bool,
    /// How many times the push reversed.
    pub count: u32,
    pub max: i32,
    pub min: i32,
}

impl RelayTuner {
    /// Before the first sample: pushing backward, no reversal, both extremes at
    /// the calibration position.
    pub fn new(calibration_pos: i32) -> (r: Self)
        ensures
            r.dir == false,
            r.count == 0,
            r.max == calibration_pos,
            r.min == calibration_pos,
    {
        RelayTuner { dir: false, count: 0, max: calibration_pos, min: calibration_pos }
    }

    /// The motor now reads `pos`: records the extremes and returns the direction
    /// of the next push; a change of direction counts as a reversal.
    pub fn sample(&mut self, pos: i32, calibration_pos: i32) -> (forward: bool)
        requires
            old(self).count < u32::MAX,
        ensures
            forward == (pos <= calibration_pos),
            final(self).dir == forward,
            final(self).count == old(self).count + if forward != old(self).dir {
                1int
            } else {
                0int
            },
            final(self).max == (if pos > old(self).max {
                pos
            } else {
                old(self).max
            }),
            final(self).min == (if pos < old(self).min {
                pos
            } else {
                old(self).min
            }),
    {
        if pos > self.max {
            self.max = pos;
        }
        if pos < self.min {
            self.min = pos;
        }
        let forward = pos <= calibration_pos;
        if forward != self.dir {
            self.count = self.count + 1;
        }
        self.dir = forward;
        forward
    }

    /// The peak-to-peak amplitude of the oscillation.
    pub fn amplitude(&self) -> (r: i32)
        requires
            i32::MIN <= self.max - self.min <= i32::MAX,
        ensures
            r == self.max - self.min,
    {
        self.max - self.min
    }
}

/// Whether the period of the oscillation has settled: the previous measurement
/// is within one percent of the current one (each bound rounded down).
pub fn period_converged(duration: u64, previous: u64) -> (r: bool)
    requires
        duration * 101 <= u64::MAX,
    ensures
        r == (duration * 99 / 100 < previous && previous < duration * 101 / 100),
{
    (duration * 99) / 100 < previous && previous < (duration * 101) / 100
}

/// The phase energized to push the motor lies within one electrical period of
/// `4 * microstep` steps and is a quarter period ahead of the position (behind
/// it, going backward), up to whole periods; this holds whenever the period fits
/// in the byte that carries the phase.
pub proof fn lemma_drive_phase_quarter_ahead(pos: int, microstep: int, forward: bool)
    requires
        microstep > 0,
        4 * microstep <= 256,
    ensures
        0 <= drive_phase(pos, microstep, forward) < 4 * microstep,
        (drive_phase(pos, microstep, forward) - (pos + if forward {
            microstep
        } else {
            -microstep
        })) % (4 * microstep) == 0,
{
    let p = 4 * microstep;
    let t = if forward {
        pos + microstep
    } else {
        pos - microstep
    };
    let r = t % p;
    assert(0 <= r < p);
    assert(r % 256 == r) by (nonlinear_arith)
        requires
            0 <= r < 256,
    ;
    assert(t == p * (t / p) + r) by (nonlinear_arith)
        requires
            p > 0,
            r == t % p,
    ;
    let q = -(t / p);
    assert(r - t == q * p) by (nonlinear_arith)
        requires
            t == p * (t / p) + r,
            q == -(t / p),
    ;
    vstd::arithmetic::div_mod::lemma_mod_multiples_basic(q, p);
}

/// Moving the position by a whole electrical period energizes the same phase:
/// the phase depends on the position only through its place in the period.
pub proof fn lemma_drive_phase_periodic(pos: int, microstep: int, forward: bool)
    requires
        microstep > 0,
    ensures
        drive_phase(pos + 4 * microstep, microstep, forward) == drive_phase(pos, microstep, forward),
{
    let p = 4 * microstep;
    let t = if forward {
        pos + microstep
    } else {
        pos - microstep
    };
    assert((t + p) % p == t % p) by (nonlinear_arith)
        requires
            p > 0,
    ;
}

/// A motor turning the positive way reads its encoder value plus the shift; one
/// turning the other way reads the opposite of that.
pub proof fn lemma_reading_direction(shift: int, raw: int)
    ensures
        motor_reading(true, shift, raw) == raw + shift,
        motor_reading(false, shift, raw) == -(raw + shift),
{
}

/// After the alignment, a motor whose encoder still reports the same raw value
/// reads a multiple of the electrical period, at most half a period away from
/// what it read before.
pub proof fn lemma_alignment_zeroes_phase(rotation: bool, shift: int, raw: int, microstep: int)
    requires
        microstep > 0,
    ensures
        ({
            let before = motor_reading(rotation, shift, raw);
            let new_shift = shifted(rotation, shift, alignment_correction(before, microstep));
            let after = motor_reading(rotation, new_shift, raw);
            &&& after % (4 * microstep) == 0
            &&& after - before == alignment_correction(before, microstep)
            &&& -2 * microstep <= after - before < 2 * microstep
        }),
{
    let before = motor_reading(rotation, shift, raw);
    let p = 4 * microstep;
    let s = before % p;
    let c = alignment_correction(before, microstep);
    let after = motor_reading(rotation, shifted(rotation, shift, c), raw);
    assert(after == before + c);
    assert(before == p * (before / p) + s) by (nonlinear_arith)
        requires
            p > 0,
            s == before % p,
    ;
    if s > 2 * microstep {
        assert(p * (before / p + 1) == p * (before / p) + p) by (nonlinear_arith);
        assert(after == p * (before / p + 1));
        assert((p * (before / p + 1)) % p == 0) by (nonlinear_arith)
            requires
                p > 0,
        ;
    } else {
        assert(after == p * (before / p));
        assert((p * (before / p)) % p == 0) by (nonlinear_arith)
            requires
                p > 0,
        ;
    }
}

} // verus!
