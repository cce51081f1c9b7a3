//! Microphone at 8kHz. Turns raw ADC samples into signed 16-bit PCM frames; knows
//! nothing about codecs or packets.

use vstd::prelude::*;

verus! {

/// Samples per frame: 40ms at 8kHz
pub const FRAME_SAMPLES: usize = 320;

/// Largest value of a 12-bit sample.
pub const MAX_SAMPLE: u16 = 4095;

/// A 12-bit sample as PCM: centered at 0 and scaled to 16 bits.
pub open spec fn pcm_of(sample: u16) -> int {
    (sample - 2048) * 16
}

/// Convert 12-bit unsigned ADC sample to signed 16-bit PCM centered at 0.
pub fn adc_to_pcm(sample: u16) -> (pcm: i16)
    requires
        sample <= MAX_SAMPLE,
    ensures
        pcm == pcm_of(sample),
        pcm == 16 * sample - 32768,
{
    (sample as i16 - 2048) * 16
}

/// The microphone: what was read from it last.
pub struct Mic {
    /// Raw 12-bit samples, one frame of them.
    pub buf: Vec<u16>,
}

impl Mic {
    pub fn new() -> (mic: Self)
        ensures
            mic.buf@ == Seq::new(FRAME_SAMPLES as nat, |i: int| 0u16),
    {
        let mic = Mic { buf: vec![0u16; FRAME_SAMPLES] };
        assert(mic.buf@ =~= Seq::new(FRAME_SAMPLES as nat, |i: int| 0u16));
        mic
    }

    /// Whether `count` samples, or as many of them as fill `len`, can be taken
    /// from the buffer.
    pub open spec fn holds(self, count: usize, len: nat) -> bool {
        &&& count <= self.buf@.len() || len <= self.buf@.len()
        &&& forall|i: int| 0 <= i < count && i < len ==> #[trigger] self.buf@[i] <= MAX_SAMPLE
    }

    /// Fill `pcm` with the next frame, of which `count` samples have been read
    /// into the buffer. A short read is zero-padded.
    pub fn read(&self, count: usize, pcm: &mut [i16])
        requires
            self.holds(count, old(pcm)@.len()),
        ensures
            final(pcm)@.len() == old(pcm)@.len(),
            forall|i: int|
                0 <= i < final(pcm)@.len() ==> #[trigger] final(pcm)@[i] == (if i < count {
                    pcm_of(self.buf@[i])
                } else {
                    0
                }),
            forall|i: int|
                0 <= i < final(pcm)@.len() && i < count ==> #[trigger] final(pcm)@[i] == 16
                    * self.buf@[i] - 32768,
            forall|i: int|
                count <= i < final(pcm)@.len() ==> #[trigger] final(pcm)@[i] == 0,
    {
        let len = pcm.len();
        let mut i: usize = 0;
        while i < len
            invariant
                i <= len,
                len == pcm@.len(),
                len == old(pcm)@.len(),
                self.holds(count, len as nat),
                forall|j: int|
                    0 <= j < i ==> #[trigger] pcm@[j] == (if j < count {
                        pcm_of(self.buf@[j])
                    } else {
                        0
                    }),
            decreases len - i,
        {
            pcm[i] = if i < count {
                adc_to_pcm(self.buf[i])
            } else {
                0
            };
            i += 1;
        }
    }
}

/// Distinct samples stay distinct, louder stays louder, and the middle of the
/// range is silence.
pub proof fn law_conversion_is_faithful(s: u16, t: u16)
    requires
        s <= MAX_SAMPLE,
        t <= MAX_SAMPLE,
    ensures
        s < t <==> pcm_of(s) < pcm_of(t),
        pcm_of(2048) == 0,
        i16::MIN <= pcm_of(s) <= i16::MAX,
{
}

/// From one sample value to the next the audio rises by 16, from the lowest that 16 bits
/// can hold: the 12 bits become the upper ones, with the middle of the range at 0.
pub proof fn law_conversion_keeps_scale(s: u16, t: u16)
    ensures
        pcm_of(s) - pcm_of(t) == 16 * (s - t),
        pcm_of(0) == -32768,
        pcm_of(s) == 16 * s - 32768,
{
}

} // verus!
