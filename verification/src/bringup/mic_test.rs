//! Microphone scope: the waveform of the latest samples, and how loud they are.

use vstd::prelude::*;

use crate::text::{decimal, push_decimal};

verus! {

/// Display width = number of waveform samples to show
pub const WAVE_W: usize = 128;

/// Waveform area height (top portion of display)
pub const WAVE_H: i32 = 40;

/// Ring buffer of raw 12-bit samples.
pub struct Scope {
    wave: [u16; WAVE_W],
    wave_pos: usize,
}

/// What a batch of samples amounts to.
#[derive(Debug, Clone, Copy, PartialEq, Eq, Structural)]
pub struct Levels {
    /// Largest distance from the middle of the range.
    pub peak: i32,
    pub raw_min: u16,
    pub raw_max: u16,
}

/// Distance of a sample from the middle of the range.
pub open spec fn loudness(raw: u16) -> int {
    if raw < 2048 {
        2048 - raw
    } else {
        raw - 2048
    }
}

/// Loudest of the samples, 0 if there are none.
pub open spec fn peak_of(samples: Seq<u16>) -> int
    decreases samples.len(),
{
    if samples.len() == 0 {
        0
    } else if loudness(samples.last()) > peak_of(samples.drop_last()) {
        loudness(samples.last())
    } else {
        peak_of(samples.drop_last())
    }
}

/// Smallest of the samples, the largest value there is if there are none.
pub open spec fn min_of(samples: Seq<u16>) -> u16
    decreases samples.len(),
{
    if samples.len() == 0 {
        u16::MAX
    } else if samples.last() < min_of(samples.drop_last()) {
        samples.last()
    } else {
        min_of(samples.drop_last())
    }
}

/// Largest of the samples, 0 if there are none.
pub open spec fn max_of(samples: Seq<u16>) -> u16
    decreases samples.len(),
{
    if samples.len() == 0 {
        0
    } else if samples.last() > max_of(samples.drop_last()) {
        samples.last()
    } else {
        max_of(samples.drop_last())
    }
}

/// Height at which a sample is drawn: 0-4095 to the waveform area, high value = top.
pub open spec fn wave_y(raw: u16) -> int {
    WAVE_H - 1 - raw * (WAVE_H - 1) / 4095
}

impl View for Scope {
    /// The samples on display, oldest first.
    type V = Seq<u16>;

    closed spec fn view(&self) -> Seq<u16> {
        Seq::new(WAVE_W as nat, |x: int| self.wave@[(self.wave_pos + x) % WAVE_W as int])
    }
}

impl Scope {
    pub closed spec fn wf(self) -> bool {
        self.wave_pos < WAVE_W
    }

    /// A scope that shows the middle of the range.
    pub fn new() -> (scope: Self)
        ensures
            scope.wf(),
            scope@ == Seq::new(WAVE_W as nat, |x: int| 2048u16),
    {
        let scope = Scope { wave: [2048u16;WAVE_W], wave_pos: 0 };
        assert(scope@ =~= Seq::new(WAVE_W as nat, |x: int| 2048u16));
        scope
    }

    fn push(&mut self, raw: u16)
        requires
            old(self).wf(),
        ensures
            final(self).wf(),
            final(self)@ == old(self)@.push(raw).skip(1),
    {
        self.wave[self.wave_pos] = raw;
        self.wave_pos = (self.wave_pos + 1) % WAVE_W;
        assert(self@ =~= old(self)@.push(raw).skip(1));
    }

    /// Takes in a batch of samples: the latest stay on display.
    pub fn feed(&mut self, samples: &[u16]) -> (levels: Levels)
        requires
            old(self).wf(),
        ensures
            final(self).wf(),
            final(self)@ == (old(self)@ + samples@).skip(samples@.len() as int),
            levels.peak == peak_of(samples@),
            0 <= levels.peak <= 65535,
            levels.raw_min == min_of(samples@),
            levels.raw_max == max_of(samples@),
    {
        let mut peak: i32 = 0;
        let mut raw_min: u16 = u16::MAX;
        let mut raw_max: u16 = 0;
        let mut i: usize = 0;
        assert((old(self)@ + samples@.take(0)).skip(0) =~= old(self)@);
        while i < samples.len()
            invariant
                i <= samples@.len(),
                self.wf(),
                old(self)@.len() == WAVE_W,
                self@ == (old(self)@ + samples@.take(i as int)).skip(i as int),
                peak == peak_of(samples@.take(i as int)),
                raw_min == min_of(samples@.take(i as int)),
                raw_max == max_of(samples@.take(i as int)),
            decreases samples@.len() - i,
        {
            let ghost seen = samples@.take(i as int);
            let raw = samples[i];
            assert(samples@.take(i + 1).drop_last() =~= seen);
            self.push(raw);
            if raw < raw_min {
                raw_min = raw;
            }
            if raw > raw_max {
                raw_max = raw;
            }
            let centered: i32 = raw as i32 - 2048;
            let abs: i32 = if centered < 0 {
                -centered
            } else {
                centered
            };
            if abs > peak {
                peak = abs;
            }
            i += 1;
            assert(self@ =~= (old(self)@ + samples@.take(i as int)).skip(i as int));
        }
        assert(samples@.take(i as int) =~= samples@);
        proof {
            lemma_peak_range(samples@);
        }
        Levels { peak, raw_min, raw_max }
    }

    /// The waveform: for each sample on display, oldest first, its height. Each is
    /// joined to the next by a line.
    pub fn heights(&self) -> (heights: Vec<i32>)
        requires
            self.wf(),
        ensures
            heights@.len() == WAVE_W,
            forall|x: int| 0 <= x < WAVE_W ==> #[trigger] heights@[x] == wave_y(self@[x]),
    {
        let mut heights: Vec<i32> = Vec::new();
        let mut x: usize = 0;
        while x < WAVE_W
            invariant
                x <= WAVE_W,
                self.wf(),
                heights@.len() == x,
                forall|j: int| 0 <= j < x ==> #[trigger] heights@[j] == wave_y(self@[j]),
            decreases WAVE_W - x,
        {
            let raw = self.wave[(self.wave_pos + x) % WAVE_W];
            heights.push(WAVE_H - 1 - raw as i32 * (WAVE_H - 1) / 4095);
            assert(raw == self@[x as int]);
            x += 1;
        }
        heights
    }
}

/// Width of the VU bar: a peak of 0-2048 to 0-128 pixels.
pub open spec fn vu_of(peak: int) -> int {
    if peak * 128 / 2048 > 128 {
        128
    } else {
        peak * 128 / 2048
    }
}

impl Levels {
    /// How far the samples are apart.
    pub fn spread(&self) -> (spread: u16)
        ensures
            spread == (if self.raw_max < self.raw_min {
                0
            } else {
                self.raw_max - self.raw_min
            }),
    {
        self.raw_max.saturating_sub(self.raw_min)
    }

    /// Width of the VU bar in pixels.
    pub fn vu_width(&self) -> (width: u32)
        requires
            0 <= self.peak <= 65535,
        ensures
            width == vu_of(self.peak as int),
    {
        let width = self.peak * 128 / 2048;
        if width > 128 {
            128
        } else {
            width as u32
        }
    }

    /// Peak label.
    pub fn label(&self) -> (text: String)
        requires
            0 <= self.peak,
        ensures
            text@ == "pk:"@ + decimal(self.peak as nat),
    {
        let mut text = "pk:".to_owned();
        push_decimal(&mut text, self.peak as u64);
        text
    }
}

/// A 12-bit sample is drawn inside the waveform area, a louder positive one no
/// lower than a softer one.
pub proof fn law_waveform_fits_area(s: u16, t: u16)
    requires
        s <= t <= 4095,
    ensures
        0 <= wave_y(t) <= wave_y(s) < WAVE_H,
        wave_y(0) == WAVE_H - 1,
        wave_y(4095) == 0,
{
}

/// No sample is louder than the peak, below the minimum or above the maximum; and
/// the bar stays within the width of the display.
pub proof fn law_levels_bound_samples(samples: Seq<u16>, i: int)
    requires
        0 <= i < samples.len(),
    ensures
        loudness(samples[i]) <= peak_of(samples) <= 65535,
        min_of(samples) <= samples[i] <= max_of(samples),
        0 <= vu_of(peak_of(samples)) <= 128,
    decreases samples.len(),
{
    lemma_peak_range(samples);
    if i < samples.len() - 1 {
        law_levels_bound_samples(samples.drop_last(), i);
    }
}

proof fn lemma_peak_range(samples: Seq<u16>)
    ensures
        0 <= peak_of(samples) <= 65535,
    decreases samples.len(),
{
    if samples.len() > 0 {
        lemma_peak_range(samples.drop_last());
    }
}

/// The levels are those of samples that were there: one of them is as loud as the peak,
/// one as low as the minimum, and one as high as the maximum.
pub proof fn law_levels_are_reached(samples: Seq<u16>)
    requires
        samples.len() > 0,
    ensures
        peak_of(samples) > 0 ==> exists|i: int|
            0 <= i < samples.len() && (#[trigger] samples[i] - 2048 == peak_of(samples) || 2048
                - samples[i] == peak_of(samples)),
        exists|i: int| 0 <= i < samples.len() && #[trigger] samples[i] == min_of(samples),
        exists|i: int| 0 <= i < samples.len() && #[trigger] samples[i] == max_of(samples),
    decreases samples.len(),
{
    let last = samples.len() - 1;
    let earlier = samples.drop_last();
    assert(samples[last] == samples.last());
    if earlier.len() > 0 {
        law_levels_are_reached(earlier);
        if peak_of(earlier) > 0 && peak_of(samples) == peak_of(earlier) {
            let i = choose|i: int|
                0 <= i < earlier.len() && (#[trigger] earlier[i] - 2048 == peak_of(earlier) || 2048
                    - earlier[i] == peak_of(earlier));
            assert(samples[i] == earlier[i]);
        }
        let lo = choose|i: int| 0 <= i < earlier.len() && #[trigger] earlier[i] == min_of(earlier);
        let hi = choose|i: int| 0 <= i < earlier.len() && #[trigger] earlier[i] == max_of(earlier);
        assert(samples[lo] == earlier[lo] && samples[hi] == earlier[hi]);
    } else {
        reveal_with_fuel(peak_of, 2);
        reveal_with_fuel(min_of, 2);
        reveal_with_fuel(max_of, 2);
    }
}

/// The distance of every sample from the middle of the range is at most the peak.
pub proof fn law_peak_bounds_both_sides(samples: Seq<u16>, i: int)
    requires
        0 <= i < samples.len(),
    ensures
        samples[i] - 2048 <= peak_of(samples),
        2048 - samples[i] <= peak_of(samples),
{
    law_levels_bound_samples(samples, i);
}

/// The heights are even over the area: 39 of them for 4095 values, from the bottom up;
/// and so are the widths of the bar: 16 values of the peak for a pixel, 128 at most.
pub proof fn law_drawing_is_to_scale(raw: u16, peak: int)
    requires
        0 <= peak,
    ensures
        4095 * (39 - wave_y(raw)) <= 39 * raw < 4095 * (40 - wave_y(raw)),
        peak < 2064 ==> 16 * vu_of(peak) <= peak < 16 * (vu_of(peak) + 1),
        peak >= 2048 ==> vu_of(peak) == 128,
{
}

} // verus!
