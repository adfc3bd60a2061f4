//! The wavetable oscillator: a phase accumulator that reads one stored cycle
//! of a waveform at an arbitrary frequency.

use vstd::prelude::*;
use vstd::arithmetic::div_mod::{
    lemma_add_mod_noop_right,
    lemma_mod_bound,
    lemma_mod_self_0,
    lemma_small_mod,
};
use crate::fixed::{floor_div, floor_mod, ONE};

verus! {

/// True when `frequency` (in millionths of a hertz) lies above half of
/// `samplerate` (in hertz).
pub open spec fn above_nyquist(frequency: int, samplerate: int) -> bool {
    2 * frequency > samplerate * ONE
}

/// How far one frame at `frequency` moves the read position through a table
/// of `len` entries, in millionths of a table index, rounded down. An
/// oscillator that has no sample rate yet stands still.
pub open spec fn phase_step(len: int, frequency: int, samplerate: int) -> int {
    if samplerate == 0 {
        0
    } else {
        (len * frequency) / samplerate
    }
}

/// The read position after one frame: the old position moved by the phase
/// step and by `phase` cycles (in millionths of a cycle), wrapped into the
/// table.
pub open spec fn advance(
    position: int,
    len: int,
    frequency: int,
    samplerate: int,
    phase: int,
) -> int {
    (position + phase_step(len, frequency, samplerate) + phase * len) % (len * ONE)
}

/// The table entry that follows entry `i`, the first entry following the last.
pub open spec fn successor(i: int, len: int) -> int {
    (i + 1) % len
}

/// The value of `table` at a fractional `position` (in millionths of a table
/// index): the straight line between the entry below the position and its
/// successor, rounded down.
pub open spec fn interpolate(table: Seq<i32>, position: int) -> int {
    let i = position / (ONE as int);
    let t = position % (ONE as int);
    let below = table[i];
    let above = table[successor(i, table.len() as int)];
    below + ((above - below) * t) / (ONE as int)
}

/// The read position after a call of [`MultiTable::play`]: where it was if
/// the frequency lies above half the sample rate, advanced otherwise.
pub open spec fn played(
    position: int,
    len: int,
    frequency: int,
    samplerate: int,
    phase: int,
) -> int {
    if above_nyquist(frequency, samplerate) {
        position
    } else {
        advance(position, len, frequency, samplerate, phase)
    }
}

/// The sample that a call of [`MultiTable::play`] returns: silence if the
/// frequency lies above half the sample rate, and otherwise the table read
/// at the position that the call moves to.
pub open spec fn sounded(
    table: Seq<i32>,
    position: int,
    frequency: int,
    samplerate: int,
    phase: int,
) -> int {
    if above_nyquist(frequency, samplerate) {
        0
    } else {
        interpolate(table, advance(position, table.len() as int, frequency, samplerate, phase))
    }
}

/// The arguments of one call of [`MultiTable::play`].
pub struct Stroke {
    pub frequency: int,
    pub phase: int,
}

/// The read position after a run of calls of [`MultiTable::play`] on tables
/// of `len` entries.
pub open spec fn played_all(position: int, len: int, samplerate: int, strokes: Seq<Stroke>) -> int
    decreases strokes.len(),
{
    if strokes.len() == 0 {
        position
    } else {
        played_all(
            played(position, len, strokes[0].frequency, samplerate, strokes[0].phase),
            len,
            samplerate,
            strokes.drop_first(),
        )
    }
}

/// A call that is not silenced leaves the read position inside the table,
/// wherever it was before.
pub proof fn lemma_advance_in_table(
    position: int,
    len: int,
    frequency: int,
    samplerate: int,
    phase: int,
)
    requires
        len > 0,
    ensures
        0 <= advance(position, len, frequency, samplerate, phase) < len * ONE,
{
    lemma_mod_bound(
        position + phase_step(len, frequency, samplerate) + phase * len,
        len * ONE,
    );
}

/// However many calls are made, at whatever frequencies and phase offsets,
/// a read position inside the table stays inside the table.
pub proof fn lemma_position_stays_in_table(
    position: int,
    len: int,
    samplerate: int,
    strokes: Seq<Stroke>,
)
    requires
        len > 0,
        0 <= position < len * ONE,
    ensures
        0 <= played_all(position, len, samplerate, strokes) < len * ONE,
    decreases strokes.len(),
{
    if strokes.len() > 0 {
        let next = played(position, len, strokes[0].frequency, samplerate, strokes[0].phase);
        lemma_advance_in_table(position, len, strokes[0].frequency, samplerate, strokes[0].phase);
        lemma_position_stays_in_table(next, len, samplerate, strokes.drop_first());
    }
}

/// Interpolation never leaves the interval spanned by the two entries it
/// reads.
pub proof fn lemma_interpolate_between(table: Seq<i32>, position: int)
    requires
        table.len() > 0,
        0 <= position < table.len() * ONE,
    ensures
        ({
            let i = position / (ONE as int);
            let below = table[i];
            let above = table[successor(i, table.len() as int)];
            &&& 0 <= i < table.len()
            &&& 0 <= successor(i, table.len() as int) < table.len()
            &&& below <= above ==> below <= interpolate(table, position) <= above
            &&& above <= below ==> above <= interpolate(table, position) <= below
        }),
{
    let i = position / (ONE as int);
    let t = position % (ONE as int);
    let below = table[i];
    let above = table[successor(i, table.len() as int)];
    let d: int = above - below;
    assert(d >= 0 ==> 0 <= d * t <= d * ONE) by (nonlinear_arith)
        requires
            0 <= t < ONE,
    ;
    assert(d <= 0 ==> d * ONE <= d * t <= 0) by (nonlinear_arith)
        requires
            0 <= t < ONE,
    ;
}

/// A wavetable oscillator. It owns the read position and the sample rate;
/// the table is handed to each call of [`MultiTable::play`].
pub struct MultiTable {
    index: usize,
    fraction: u32,
    samplerate: u32,
}

impl MultiTable {
    #[verifier::type_invariant]
    spec fn fraction_is_proper(self) -> bool {
        self.fraction < ONE
    }

    /// The read position, in millionths of a table index.
    pub closed spec fn position(self) -> int {
        self.index * ONE + self.fraction
    }

    /// The sample rate in hertz; zero until one is set.
    pub closed spec fn rate(self) -> int {
        self.samplerate as int
    }

    /// An oscillator at the start of the table, with no sample rate yet.
    pub fn new() -> (osc: Self)
        ensures
            osc.position() == 0,
            osc.rate() == 0,
    {
        MultiTable { index: 0, fraction: 0, samplerate: 0 }
    }

    /// Sets the sample rate and leaves the read position where it is.
    pub fn set_samplerate(&mut self, samplerate: u32)
        ensures
            final(self).rate() == samplerate,
            final(self).position() == old(self).position(),
    {
        proof {
            use_type_invariant(&*self);
        }
        self.samplerate = samplerate;
    }

    /// The whole part of the read position: the table entry below it.
    pub fn index(&self) -> (i: usize)
        ensures
            i == self.position() / (ONE as int),
    {
        proof {
            use_type_invariant(self);
        }
        self.index
    }

    /// The fractional part of the read position, in millionths.
    pub fn fraction(&self) -> (t: u32)
        ensures
            t == self.position() % (ONE as int),
            t < ONE,
    {
        proof {
            use_type_invariant(self);
        }
        self.fraction
    }

    /// The sample rate in hertz.
    pub fn samplerate(&self) -> (hz: u32)
        ensures
            hz == self.rate(),
    {
        self.samplerate
    }

    /// Produces the next sample of the waveform stored in `table`, read at
    /// `frequency` (millionths of a hertz, negative to read backwards) with
    /// `phase` cycles (in millionths) added to the read position.
    ///
    /// A frequency above half the sample rate yields silence and leaves the
    /// oscillator untouched. Otherwise the position moves, is wrapped into
    /// the table, and the table is read there by linear interpolation.
    pub fn play<const N: usize>(
        &mut self,
        table: &[i32; N],
        frequency: i64,
        phase: i32,
    ) -> (sample: i32)
        requires
            N > 0,
        ensures
            final(self).rate() == old(self).rate(),
            final(self).position() == played(
                old(self).position(),
                N as int,
                frequency as int,
                old(self).rate(),
                phase as int,
            ),
            sample == sounded(
                table@,
                old(self).position(),
                frequency as int,
                old(self).rate(),
                phase as int,
            ),
            above_nyquist(frequency as int, old(self).rate()) ==> {
                &&& sample == 0
                &&& final(self).position() == old(self).position()
            },
            !above_nyquist(frequency as int, old(self).rate()) ==> {
                0 <= final(self).position() < N * ONE
            },
            0 <= old(self).position() < N * ONE ==> 0 <= final(self).position() < N * ONE,
    {
        proof {
            use_type_invariant(&*self);
        }
        let nyquist: i128 = (self.samplerate as i128) * (ONE as i128);
        if 2 * (frequency as i128) > nyquist {
            return 0;
        }
        let len: i128 = N as i128;
        let cycle: i128 = len * (ONE as i128);
        assert(-0x8000_0000_0000_0000_0000_0000_0000_0000 < len * frequency
            < 0x8000_0000_0000_0000_0000_0000_0000_0000) by (nonlinear_arith)
            requires
                0 < len <= 0xffff_ffff_ffff_ffff,
                -0x8000_0000_0000_0000 <= frequency < 0x8000_0000_0000_0000,
        ;
        let step: i128 = if self.samplerate == 0 {
            0
        } else {
            floor_div(len * (frequency as i128), self.samplerate as i128)
        };
        assert(-0x8000_0000_0000_0000_0000_0000 < phase * len
            < 0x8000_0000_0000_0000_0000_0000) by (nonlinear_arith)
            requires
                0 < len <= 0xffff_ffff_ffff_ffff,
                -0x8000_0000 <= phase < 0x8000_0000,
        ;
        let offset: i128 = (phase as i128) * len;
        let here: i128 = (self.index as i128) * (ONE as i128) + (self.fraction as i128);
        let step_in: i128 = floor_mod(step, cycle);
        let offset_in: i128 = floor_mod(offset, cycle);
        let there: i128 = floor_mod(here + step_in + offset_in, cycle);
        proof {
            lemma_add_mod_noop_right(here + step_in, offset as int, cycle as int);
            lemma_add_mod_noop_right(here + offset, step as int, cycle as int);
            assert(there == advance(
                old(self).position(),
                N as int,
                frequency as int,
                old(self).rate(),
                phase as int,
            ));
        }
        let i: usize = (there / (ONE as i128)) as usize;
        let t: u32 = (there % (ONE as i128)) as u32;
        let j: usize = if i == N - 1 {
            0
        } else {
            i + 1
        };
        proof {
            if i == N - 1 {
                lemma_mod_self_0(N as int);
            } else {
                lemma_small_mod((i + 1) as nat, N as nat);
            }
            assert(j == successor(i as int, N as int));
            lemma_interpolate_between(table@, there as int);
        }
        let below: i64 = table[i] as i64;
        let above: i64 = table[j] as i64;
        assert(-0x10_0000_0000_0000 < (above - below) * t < 0x10_0000_0000_0000)
            by (nonlinear_arith)
            requires
                -0x1_0000_0000 < above - below < 0x1_0000_0000,
                0 <= t < 0x10_0000,
        ;
        let rise: i128 = floor_div(((above - below) * (t as i64)) as i128, ONE as i128);
        self.index = i;
        self.fraction = t;
        (below as i128 + rise) as i32
    }
}

} // verus!
