use cyberorto::encoder::{
    four_pin_phase, interrupt_update, step_position, two_pin_phase, EncoderPool, EncoderPool2,
    StaticEncoder,
};
use cyberorto::math::{ComputedSin, SinLookup, SinSample};
use cyberorto::motor::{discrete_phase_values, discrete_pin_levels, period_converged, Motor, RelayTuner};
use micromath::F32Ext;
use std::f32::consts::PI;

#[test]
fn four_pin_phases_decode() {
    assert_eq!(four_pin_phase(true, true, false, false), Some(0));
    assert_eq!(four_pin_phase(false, true, true, false), Some(1));
    assert_eq!(four_pin_phase(false, false, true, true), Some(2));
    assert_eq!(four_pin_phase(true, false, false, true), Some(3));
    assert_eq!(four_pin_phase(true, true, true, true), None);
    assert_eq!(four_pin_phase(false, false, false, false), None);
}

#[test]
fn two_pin_phases_decode() {
    assert_eq!(two_pin_phase(true, true), 0);
    assert_eq!(two_pin_phase(false, true), 1);
    assert_eq!(two_pin_phase(false, false), 2);
    assert_eq!(two_pin_phase(true, false), 3);
}

#[test]
fn four_pin_encoder_counts_forward_and_back() {
    let mut e = EncoderPool::new();
    // phases 1, 2, 3, 0 forward
    assert_eq!(e.read(false, true, true, false), 1);
    assert_eq!(e.read(false, false, true, true), 2);
    assert_eq!(e.read(true, false, false, true), 3);
    assert_eq!(e.read(true, true, false, false), 4);
    // back to phase 3
    assert_eq!(e.read(true, false, false, true), 3);
    // invalid levels keep the position
    assert_eq!(e.read(true, true, true, true), 3);
    // the opposite phase keeps the position
    assert_eq!(e.read(false, true, true, false), 3);
    assert_eq!(e.get_pos(), 3);
}

#[test]
fn two_pin_encoder_counts_negative_positions() {
    let mut e = EncoderPool2::new();
    // from position 0 (phase 0) to phase 3: one step back
    assert_eq!(e.read(true, false), -1);
    // phase 2: another step back; -2 rem_euclid 4 == 2
    assert_eq!(e.read(false, false), -2);
    // phase 3 again: forward
    assert_eq!(e.read(true, false), -1);
    assert_eq!(e.get_pos(), -1);
}

#[test]
fn step_forward_then_back_restores() {
    for pos in [-9i32, -4, -1, 0, 3, 17] {
        let next_phase = (pos.rem_euclid(4) + 1) % 4;
        let moved = step_position(pos, next_phase);
        assert_eq!(moved, pos + 1);
        assert_eq!(step_position(moved, pos.rem_euclid(4)), pos);
    }
}

#[test]
fn interrupt_encoder_matches_two_pin_decoding() {
    assert_eq!(interrupt_update(0, false, true), 1);
    assert_eq!(interrupt_update(0, true, false), -1);
    // 5 is at phase 1: phase 2 is the next one, phase 3 the opposite one
    assert_eq!(interrupt_update(5, false, false), 6);
    assert_eq!(interrupt_update(5, true, false), 5);
}

#[test]
fn static_encoder_reading() {
    let e = StaticEncoder { direction: false, shift: 3 };
    assert_eq!(e.read_from(10), 13);
    let e = StaticEncoder { direction: true, shift: 3 };
    assert_eq!(e.read_from(10), -13);
    let pool = EncoderPool::new();
    let s = pool.static_encoder();
    assert!(!s.direction);
    assert_eq!(s.shift, 0);
}

#[test]
fn motor_reading_and_alignment() {
    let mut m = Motor::new(true);
    assert_eq!(m.read(37), 37);
    // microstep 20: period 80; 37 is closer to 0 than to 80
    m.apply_alignment(m.read(37), 20);
    assert_eq!(m.read(37), 0);
    assert_eq!(m.get_shift(), -37);

    let mut m = Motor::new(true);
    // 50 is closer to 80
    m.apply_alignment(m.read(50), 20);
    assert_eq!(m.read(50), 80);

    let mut m = Motor::new(false);
    assert_eq!(m.read(37), -37);
    m.apply_alignment(m.read(37), 20);
    assert_eq!(m.read(37) % 80, 0);
    assert_eq!(m.read(37), 0);
}

#[test]
fn alignment_tie_goes_down() {
    let mut m = Motor::new(true);
    m.apply_alignment(m.read(40), 20);
    assert_eq!(m.read(40), 0);
}

#[test]
fn drive_phase_quarter_period() {
    let m = Motor::new(true);
    assert_eq!(m.drive_phase(0, 20, true), 20);
    assert_eq!(m.drive_phase(0, 20, false), 60);
    assert_eq!(m.drive_phase(75, 20, true), 15);
    assert_eq!(m.drive_phase(-5, 20, false), 55);
}

fn value(table: &[f32], l: SinLookup) -> f32 {
    let v = match l.sample {
        SinSample::Table(i) => table[i],
        SinSample::One => 1.0,
    };
    if l.negative {
        -v
    } else {
        v
    }
}

#[test]
fn test_sin() {
    let m = ComputedSin::new(5);
    let table: Vec<f32> = (0..5).map(|i| F32Ext::sin(PI / 2.0 / (5 as f32) * (i as f32))).collect();
    for i in 0..20 {
        let cur = F32Ext::sin(PI / 2.0 / (5 as f32) * (i as f32));
        assert!((cur - value(&table, m.sin(i))).abs() < 0.00002);
    }
}

#[test]
fn sin_lookup_symmetries() {
    let m = ComputedSin::new(20);
    assert_eq!(m.sin(20), SinLookup { negative: false, sample: SinSample::One });
    assert_eq!(m.sin(60), SinLookup { negative: true, sample: SinSample::One });
    assert_eq!(m.sin(7), SinLookup { negative: false, sample: SinSample::Table(7) });
    assert_eq!(m.sin(33), SinLookup { negative: false, sample: SinSample::Table(7) });
    assert_eq!(m.sin(47), SinLookup { negative: true, sample: SinSample::Table(7) });
    assert_eq!(m.sin(87), m.sin(7));
    assert_eq!(m.cos(0), m.sin(20));
    assert_eq!(m.cos(13), m.sin(33));
}

#[test]
fn discrete_stepping() {
    assert_eq!(discrete_phase_values(0), (1, 0));
    assert_eq!(discrete_phase_values(1), (0, 1));
    assert_eq!(discrete_phase_values(2), (-1, 0));
    assert_eq!(discrete_phase_values(3), (0, -1));
    assert_eq!(discrete_phase_values(200), (0, -1));
    assert_eq!(discrete_pin_levels(1), (true, false));
    assert_eq!(discrete_pin_levels(0), (false, false));
    assert_eq!(discrete_pin_levels(-1), (false, true));
}

#[test]
fn relay_counts_reversals_and_extremes() {
    let mut r = RelayTuner::new(100);
    assert!(!r.sample(150, 100)); // past the position: push back, same direction
    assert_eq!(r.count, 0);
    assert!(r.sample(90, 100)); // before it: push forward, a reversal
    assert_eq!(r.count, 1);
    assert!(r.sample(100, 100)); // at it: still forward
    assert_eq!(r.count, 1);
    assert!(!r.sample(101, 100));
    assert_eq!(r.count, 2);
    assert_eq!((r.max, r.min), (150, 90));
    assert_eq!(r.amplitude(), 60);
}

#[test]
fn period_convergence_within_one_percent() {
    assert!(period_converged(1000, 1000));
    assert!(period_converged(1000, 991));
    assert!(!period_converged(1000, 990));
    assert!(!period_converged(1000, 1010));
    assert!(period_converged(1000, 1009));
    assert!(!period_converged(1000, 0));
}

#[test]
fn alignment_fit_check() {
    let m = Motor::new(true);
    assert!(m.alignment_fits(7, 20));
    let m = Motor { rotation: true, shift: i32::MAX };
    assert!(m.alignment_fits(0, 20));
    assert!(!m.alignment_fits(79, 20)); // correction +1 overflows
    assert!(m.alignment_fits(1, 20)); // correction -1
}
