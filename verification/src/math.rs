//! Sine and cosine over a discrete electrical period of `4 * microstep` steps,
//! looked up in a table that holds only the first quarter wave
//! (`table[i] = sin(pi / 2 * i / microstep)` for `i < microstep`).
//!
//! This module decides, for a step, which table entry to use and with which
//! sign; the table of values itself lives with the caller.

use vstd::prelude::*;

verus! {

/// Which quarter-wave sample a step maps to.
#[derive(PartialEq, Eq, Structural, Clone, Copy, Debug)]
pub enum SinSample {
    /// `table[i]`.
    Table(usize),
    /// The peak of the wave, `1`.
    One,
}

/// A sample of the wave: a quarter-wave sample and its sign.
#[derive(PartialEq, Eq, Structural, Clone, Copy, Debug)]
pub struct SinLookup {
    pub negative: bool,
    pub sample: SinSample,
}

/// The sample of `sin` at step `x` of a period of `4 * m` steps.
pub open spec fn sin_lookup(m: nat, x: nat) -> SinLookup
    recommends
        m > 0,
{
    let x = x % (4 * m);
    if x < 2 * m {
        if x < m {
            SinLookup { negative: false, sample: SinSample::Table(x as usize) }
        } else if x == m {
            SinLookup { negative: false, sample: SinSample::One }
        } else {
            SinLookup { negative: false, sample: SinSample::Table((2 * m - x) as usize) }
        }
    } else {
        if x < 3 * m {
            SinLookup { negative: true, sample: SinSample::Table((x - 2 * m) as usize) }
        } else if x == 3 * m {
            SinLookup { negative: true, sample: SinSample::One }
        } else {
            SinLookup { negative: true, sample: SinSample::Table((4 * m - x) as usize) }
        }
    }
}

/// Whether the lookup only reads inside the quarter-wave table of `m` entries.
pub open spec fn in_table(l: SinLookup, m: nat) -> bool {
    match l.sample {
        SinSample::Table(i) => i < m,
        SinSample::One => true,
    }
}

/// The same sample with the opposite sign.
pub open spec fn negated(l: SinLookup) -> SinLookup {
    SinLookup { negative: !l.negative, sample: l.sample }
}

/// Sine and cosine lookup for a wave of `4 * microstep` steps.
pub struct ComputedSin {
    pub microstep: usize,
}

impl ComputedSin {
    pub fn new(microstep: usize) -> (r: Self)
        ensures
            r.microstep == microstep,
    {
        ComputedSin { microstep }
    }

    /// The sample of `sin` at step `x`.
    pub fn sin(&self, x: usize) -> (r: SinLookup)
        requires
            0 < self.microstep,
            4 * self.microstep <= usize::MAX,
        ensures
            r == sin_lookup(self.microstep as nat, x as nat),
            in_table(r, self.microstep as nat),
    {
        let m = self.microstep;
        let x = x % (m * 4);
        if x < 2 * m {
            if x < m {
                SinLookup { negative: false, sample: SinSample::Table(x) }
            } else if x == m {
                SinLookup { negative: false, sample: SinSample::One }
            } else {
                SinLookup { negative: false, sample: SinSample::Table(2 * m - x) }
            }
        } else {
            if x < m * 3 {
                SinLookup { negative: true, sample: SinSample::Table(x - 2 * m) }
            } else if x == m * 3 {
                SinLookup { negative: true, sample: SinSample::One }
            } else {
                SinLookup { negative: true, sample: SinSample::Table(4 * m - x) }
            }
        }
    }

    /// The sample of `cos` at step `x`, that is the sample of `sin` a quarter
    /// period later.
    pub fn cos(&self, x: usize) -> (r: SinLookup)
        requires
            0 < self.microstep,
            4 * self.microstep <= usize::MAX,
            x + self.microstep <= usize::MAX,
        ensures
            r == sin_lookup(self.microstep as nat, (x + self.microstep) as nat),
            in_table(r, self.microstep as nat),
    {
        self.sin(x + self.microstep)
    }
}

/// The wave repeats every `4 * m` steps.
pub proof fn lemma_sin_periodic(m: nat, x: nat)
    requires
        m > 0,
    ensures
        sin_lookup(m, x + 4 * m) == sin_lookup(m, x),
{
    assert((x + 4 * m) % (4 * m) == x % (4 * m)) by (nonlinear_arith)
        requires
            m > 0,
    ;
}

/// Half a period later the wave takes the opposite value.
pub proof fn lemma_sin_half_period(m: nat, x: nat)
    requires
        m > 0,
    ensures
        sin_lookup(m, x + 2 * m) == negated(sin_lookup(m, x)),
{
    let p = 4 * m;
    let r = x % p;
    assert(0 <= r < p);
    assert(x == p * (x / p) + r) by (nonlinear_arith)
        requires
            p > 0,
            r == x % p,
    ;
    if r < 2 * m {
        assert((x + 2 * m) % p == r + 2 * m) by (nonlinear_arith)
            requires
                p > 0,
                x == p * (x / p) + r,
                0 <= r,
                r + 2 * m < p,
        ;
    } else {
        assert((x + 2 * m) % p == r - 2 * m) by (nonlinear_arith)
            requires
                p > 0,
                p == 4 * m,
                x == p * (x / p) + r,
                2 * m <= r < p,
        ;
    }
}

/// Within the first half period the wave is symmetric around its peak (the two
/// ends are left out: there the samples agree but carry opposite signs).
pub proof fn lemma_sin_mirror(m: nat, x: nat)
    requires
        m > 0,
        0 < x < 2 * m,
    ensures
        sin_lookup(m, (2 * m - x) as nat) == sin_lookup(m, x),
{
    assert(x % (4 * m) == x) by (nonlinear_arith)
        requires
            x < 4 * m,
    ;
    assert(((2 * m - x) as nat) % (4 * m) == (2 * m - x) as nat) by (nonlinear_arith)
        requires
            0 <= 2 * m - x < 4 * m,
    ;
}

/// The peaks of the wave fall on the quarter and three-quarter steps.
pub proof fn lemma_sin_peaks(m: nat)
    requires
        m > 0,
    ensures
        sin_lookup(m, m) == (SinLookup { negative: false, sample: SinSample::One }),
        sin_lookup(m, 3 * m) == (SinLookup { negative: true, sample: SinSample::One }),
        sin_lookup(m, 0) == (SinLookup { negative: false, sample: SinSample::Table(0) }),
{
    assert(m % (4 * m) == m) by (nonlinear_arith)
        requires
            m > 0,
    ;
    assert((3 * m) % (4 * m) == 3 * m) by (nonlinear_arith)
        requires
            m > 0,
    ;
    assert(0nat % (4 * m) == 0) by (nonlinear_arith)
        requires
            m > 0,
    ;
}

/// The first quarter of the wave reads the table directly: step `x` below `m`
/// is the positive entry `x`, and step `m` is the positive peak. With the
/// symmetries above, this fixes every step.
pub proof fn lemma_sin_first_quarter(m: nat, x: nat)
    requires
        m > 0,
        x < m,
    ensures
        sin_lookup(m, x) == (SinLookup { negative: false, sample: SinSample::Table(x as usize) }),
        sin_lookup(m, m) == (SinLookup { negative: false, sample: SinSample::One }),
{
    assert(x % (4 * m) == x) by (nonlinear_arith)
        requires
            x < 4 * m,
    ;
    lemma_sin_peaks(m);
}

} // verus!
