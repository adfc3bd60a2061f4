//! The modulation router: it picks the waveform that modulates the playback
//! rate, and combines base rate, note and modulation into the rate of a
//! grain.

use vstd::prelude::*;
use crate::fixed::{lemma_toward_zero_bounds, toward_zero, ONE};
use crate::multitable::{played, sounded, MultiTable};
use crate::pitch::{PitchTracker, NOTES};

verus! {

/// The waveforms that can modulate the playback rate.
#[derive(Clone, Copy, Debug, PartialEq, Eq, Structural)]
pub enum ModShape {
    Sine,
    Triangle,
    Sawtooth,
    Square,
}

/// One stored cycle of each waveform, `N` samples long, in millionths.
pub struct Wavetables<const N: usize> {
    pub sine: [i32; N],
    pub triangle: [i32; N],
    pub sawtooth: [i32; N],
    pub square: [i32; N],
}

impl<const N: usize> Wavetables<N> {
    /// The samples of the table that belongs to `shape`.
    pub open spec fn of(self, shape: ModShape) -> Seq<i32> {
        match shape {
            ModShape::Sine => self.sine@,
            ModShape::Triangle => self.triangle@,
            ModShape::Sawtooth => self.sawtooth@,
            ModShape::Square => self.square@,
        }
    }

    /// The table that belongs to `shape`.
    pub fn table(&self, shape: ModShape) -> (table: &[i32; N])
        ensures
            table@ == self.of(shape),
    {
        match shape {
            ModShape::Sine => &self.sine,
            ModShape::Triangle => &self.triangle,
            ModShape::Sawtooth => &self.sawtooth,
            ModShape::Square => &self.square,
        }
    }
}

/// The playback rate of a grain: the base rate times the rate of the note,
/// plus the modulation amount times the modulation value. All four are in
/// millionths, and so is the result, rounded toward zero.
pub open spec fn rate_of(base_rate: int, note_rate: int, mod_amount: int, mod_value: int) -> int {
    toward_zero(base_rate * note_rate + mod_amount * mod_value, ONE as int)
}

/// `value` times `factor`, both in millionths, rounded toward zero.
pub open spec fn scaled(value: int, factor: int) -> int {
    toward_zero(value * factor, ONE as int)
}

/// Computes the playback rate of a grain for `note`: `base_rate` times the
/// rate that `tracker` holds for the note, plus `mod_amount` times
/// `mod_value`.
pub fn compute_rate(
    tracker: &PitchTracker,
    base_rate: i32,
    note: u8,
    mod_amount: i32,
    mod_value: i32,
) -> (rate: i64)
    requires
        note < NOTES,
    ensures
        rate == rate_of(
            base_rate as int,
            tracker.rates()[note as int] as int,
            mod_amount as int,
            mod_value as int,
        ),
{
    let note_rate: i32 = tracker.rate_for(note);
    assert(-0x4000_0000_0000_0000 <= base_rate * note_rate <= 0x4000_0000_0000_0000)
        by (nonlinear_arith)
        requires
            -0x8000_0000 <= base_rate < 0x8000_0000,
            -0x8000_0000 <= note_rate < 0x8000_0000,
    ;
    assert(-0x4000_0000_0000_0000 <= mod_amount * mod_value <= 0x4000_0000_0000_0000)
        by (nonlinear_arith)
        requires
            -0x8000_0000 <= mod_amount < 0x8000_0000,
            -0x8000_0000 <= mod_value < 0x8000_0000,
    ;
    let carried: i128 = (base_rate as i128) * (note_rate as i128);
    let modulated: i128 = (mod_amount as i128) * (mod_value as i128);
    let sum: i128 = carried + modulated;
    proof {
        lemma_toward_zero_bounds(sum as int, ONE as int);
    }
    (sum / (ONE as i128)) as i64
}

/// Scales `value` by `factor`: the product of the two, in millionths.
pub fn scale(value: i32, factor: i32) -> (product: i64)
    ensures
        product == scaled(value as int, factor as int),
{
    assert(-0x4000_0000_0000_0000 <= value * factor <= 0x4000_0000_0000_0000)
        by (nonlinear_arith)
        requires
            -0x8000_0000 <= value < 0x8000_0000,
            -0x8000_0000 <= factor < 0x8000_0000,
    ;
    let product: i64 = (value as i64) * (factor as i64);
    proof {
        lemma_toward_zero_bounds(product as int, ONE as int);
    }
    product / (ONE as i64)
}

/// The oscillator that modulates the playback rate, with its tables.
pub struct Router<const N: usize> {
    oscillator: MultiTable,
    tables: Wavetables<N>,
}

impl<const N: usize> Router<N> {
    /// The read position of the oscillator, in millionths of a table index.
    pub closed spec fn position(self) -> int {
        self.oscillator.position()
    }

    /// The sample rate of the oscillator in hertz.
    pub closed spec fn rate(self) -> int {
        self.oscillator.rate()
    }

    /// The tables that the oscillator reads.
    pub closed spec fn tables(self) -> Wavetables<N> {
        self.tables
    }

    /// A router over `tables`, its oscillator at the start of the table and
    /// without a sample rate.
    pub fn new(tables: Wavetables<N>) -> (router: Self)
        ensures
            router.position() == 0,
            router.rate() == 0,
            router.tables() == tables,
    {
        Router { oscillator: MultiTable::new(), tables }
    }

    /// Sets the sample rate of the oscillator.
    pub fn set_samplerate(&mut self, samplerate: u32)
        ensures
            final(self).rate() == samplerate,
            final(self).position() == old(self).position(),
            final(self).tables() == old(self).tables(),
    {
        self.oscillator.set_samplerate(samplerate);
    }

    /// The oscillator.
    pub fn oscillator(&self) -> (oscillator: &MultiTable)
        ensures
            oscillator.position() == self.position(),
            oscillator.rate() == self.rate(),
    {
        &self.oscillator
    }

    /// Produces the modulation value of one frame: the next sample of the
    /// waveform that `shape` selects, read at `frequency` (millionths of a
    /// hertz).
    pub fn modulate(&mut self, shape: ModShape, frequency: i64) -> (value: i32)
        requires
            N > 0,
        ensures
            value == sounded(
                old(self).tables().of(shape),
                old(self).position(),
                frequency as int,
                old(self).rate(),
                0,
            ),
            final(self).position() == played(
                old(self).position(),
                N as int,
                frequency as int,
                old(self).rate(),
                0,
            ),
            final(self).rate() == old(self).rate(),
            final(self).tables() == old(self).tables(),
    {
        let table: &[i32; N] = self.tables.table(shape);
        self.oscillator.play(table, frequency, 0)
    }
}

} // verus!
