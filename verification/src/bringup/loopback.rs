//! Audio loopbacks — hold PTT to record, release to play back, through the codec or
//! as raw PCM.

use vstd::prelude::*;
use vstd::slice::slice_subrange;

use crate::codec::{
    into_boxed, stereo, stereo_of, CodecResponse, HEADER_BYTES, PACKET_BYTES, PAYLOAD_BYTES,
};
use crate::devices::mic::{adc_to_pcm, pcm_of, Mic, FRAME_SAMPLES, MAX_SAMPLE};
use crate::packet::{packet_bytes, packet_slice};

verus! {

/// Max recording: 5 seconds = 125 Codec2 frames
pub const MAX_FRAMES: usize = 125;

pub const MAX_SAMPLES: usize = MAX_FRAMES * FRAME_SAMPLES;  // 40000

/// Max recording in whole packets: ~5 seconds = 31 packets
pub const MAX_PACKETS: usize = 31;

/// A mono recording of at most [`MAX_SAMPLES`] samples.
pub struct Recording {
    pcm: Vec<i16>,
}

impl View for Recording {
    type V = Seq<i16>;

    closed spec fn view(&self) -> Seq<i16> {
        self.pcm@
    }
}

/// How many of `count` samples still fit behind `len` others.
pub open spec fn fitting(len: int, count: int) -> int {
    if count <= MAX_SAMPLES - len {
        count
    } else {
        MAX_SAMPLES - len
    }
}

impl Recording {
    pub open spec fn wf(self) -> bool {
        self@.len() <= MAX_SAMPLES
    }

    pub fn new() -> (recording: Self)
        ensures
            recording.wf(),
            recording@ == Seq::<i16>::empty(),
    {
        Recording { pcm: Vec::new() }
    }

    /// Whether nothing more fits.
    pub fn is_full(&self) -> (full: bool)
        ensures
            full <==> self@.len() >= MAX_SAMPLES,
    {
        self.pcm.len() >= MAX_SAMPLES
    }

    /// Appends the first `count` of `samples`, or as many of them as fit.
    pub fn record(&mut self, samples: &[u16], count: usize)
        requires
            old(self).wf(),
            fitting(old(self)@.len() as int, count as int) <= samples@.len(),
            forall|i: int|
                0 <= i < fitting(old(self)@.len() as int, count as int) ==> #[trigger] samples@[i]
                    <= MAX_SAMPLE,
        ensures
            final(self).wf(),
            final(self)@ == old(self)@ + Seq::new(
                fitting(old(self)@.len() as int, count as int) as nat,
                |i: int| pcm_of(samples@[i]) as i16,
            ),
            final(self)@.take(old(self)@.len() as int) == old(self)@,
            old(self)@.len() + count <= 40000 ==> final(self)@.len() == old(self)@.len() + count,
            old(self)@.len() + count > 40000 ==> final(self)@.len() == 40000,
            forall|i: int|
                0 <= i < final(self)@.len() - old(self)@.len() ==> final(self)@[old(self)@.len() + i]
                    == 16 * #[trigger] samples@[i] - 32768,
    {
        let remaining = MAX_SAMPLES - self.pcm.len();
        let n: usize = if count < remaining {
            count
        } else {
            remaining
        };
        let mut i: usize = 0;
        while i < n
            invariant
                i <= n,
                n == fitting(old(self)@.len() as int, count as int),
                n <= samples@.len(),
                forall|j: int| 0 <= j < n ==> #[trigger] samples@[j] <= MAX_SAMPLE,
                self@ == old(self)@ + Seq::new(i as nat, |j: int| pcm_of(samples@[j]) as i16),
            decreases n - i,
        {
            self.pcm.push(adc_to_pcm(samples[i]));
            i += 1;
            assert(self@ =~= old(self)@ + Seq::new(i as nat, |j: int| pcm_of(samples@[j]) as i16));
        }
        assert(self@.take(old(self)@.len() as int) =~= old(self)@);
    }

    /// Whether another frame fits.
    pub fn has_room(&self) -> (room: bool)
        ensures
            room <==> self@.len() + FRAME_SAMPLES <= MAX_SAMPLES,
    {
        self.pcm.len() <= MAX_SAMPLES - FRAME_SAMPLES
    }

    /// Appends one frame, of which `count` samples have been read from the
    /// microphone. A short read is zero-padded.
    pub fn record_frame(&mut self, mic: &Mic, count: usize)
        requires
            old(self)@.len() + FRAME_SAMPLES <= MAX_SAMPLES,
            mic.holds(count, FRAME_SAMPLES as nat),
        ensures
            final(self).wf(),
            final(self)@ == old(self)@ + Seq::new(
                FRAME_SAMPLES as nat,
                |i: int|
                    if i < count {
                        pcm_of(mic.buf@[i]) as i16
                    } else {
                        0
                    },
            ),
            final(self)@.len() == old(self)@.len() + 320,
            final(self)@.take(old(self)@.len() as int) == old(self)@,
            forall|i: int|
                0 <= i < 320 && i < count ==> final(self)@[old(self)@.len() + i] == 16
                    * #[trigger] mic.buf@[i] - 32768,
            forall|i: int|
                count <= i < 320 ==> #[trigger] final(self)@.skip(old(self)@.len() as int)[i] == 0,
    {
        let mut frame = [0i16;FRAME_SAMPLES];
        mic.read(count, &mut frame);
        self.pcm.extend_from_slice(&frame);
        assert(self@ =~= old(self)@ + Seq::new(
            FRAME_SAMPLES as nat,
            |i: int|
                if i < count {
                    pcm_of(mic.buf@[i]) as i16
                } else {
                    0
                },
        ));
        assert(self@.take(old(self)@.len() as int) =~= old(self)@);
    }

    /// Number of whole Codec2 frames recorded: what is left over is not used.
    pub fn whole_frames(&self) -> (frames: usize)
        ensures
            frames == self@.len() / FRAME_SAMPLES as nat,
            frames * FRAME_SAMPLES <= self@.len(),
            self.wf() ==> frames <= MAX_FRAMES,
            320 * frames <= self@.len() < 320 * (frames + 1),
    {
        self.pcm.len() / FRAME_SAMPLES
    }

    pub fn pcm(&self) -> (pcm: &[i16])
        ensures
            pcm@ == self@,
    {
        self.pcm.as_slice()
    }
}

/// The payload of an encoded packet, to be decoded again. There is none unless the
/// packet is a whole one.
pub fn payload_of(response: &CodecResponse) -> (payload: Option<[u8; PAYLOAD_BYTES]>)
    ensures
        match *response {
            CodecResponse::Encoded { packet } => {
                &&& payload is Some <==> packet_bytes(packet).len() == PACKET_BYTES
                &&& payload matches Some(p) ==> p@ == packet_bytes(packet).skip(HEADER_BYTES as int)
                &&& payload is Some <==> packet_bytes(packet).len() == 26
                &&& payload matches Some(p) ==> p@ == packet_bytes(packet).subrange(2, 26)
            },
            CodecResponse::Decoded { .. } => payload is None,
        },
{
    match response {
        CodecResponse::Encoded { packet } => {
            let bytes = packet_slice(packet);
            if bytes.len() != PACKET_BYTES {
                return None;
            }
            let mut payload = [0u8;PAYLOAD_BYTES];
            let mut i: usize = 0;
            while i < PAYLOAD_BYTES
                invariant
                    i <= PAYLOAD_BYTES,
                    bytes@.len() == PACKET_BYTES,
                    forall|j: int| 0 <= j < i ==> payload@[j] == bytes@[j + HEADER_BYTES],
                decreases PAYLOAD_BYTES - i,
            {
                payload[i] = bytes[HEADER_BYTES + i];
                i += 1;
            }
            assert(payload@ =~= bytes@.skip(HEADER_BYTES as int));
            assert(payload@ =~= bytes@.subrange(2, 26));
            Some(payload)
        },
        CodecResponse::Decoded { .. } => None,
    }
}

/// Whether another packet fits behind `packets` others in a recording.
pub fn packet_fits(packets: usize) -> (fits: bool)
    ensures
        fits <==> packets < MAX_PACKETS,
{
    packets < MAX_PACKETS
}

/// Sequence number of packet `p` of a recording.
pub fn loopback_seq(p: usize) -> (seq: u8)
    ensures
        seq == p % 16,
{
    (p % 16) as u8
}

/// Number of frames that a recording is played in; the last may be shorter.
pub open spec fn playback_count(len: nat) -> nat {
    (len + FRAME_SAMPLES - 1) as nat / FRAME_SAMPLES as nat
}

/// Frame `i` of a recording.
pub open spec fn playback_chunk(pcm: Seq<i16>, i: int) -> Seq<i16> {
    let end = (i + 1) * FRAME_SAMPLES;
    pcm.subrange(
        i * FRAME_SAMPLES,
        if end <= pcm.len() {
            end
        } else {
            pcm.len() as int
        },
    )
}

/// Cuts a recording into frames, each on both channels, for the speaker.
pub fn playback_frames(pcm: &[i16]) -> (frames: Vec<Box<[i16]>>)
    ensures
        frames@.len() == playback_count(pcm@.len()),
        forall|i: int|
            0 <= i < frames@.len() ==> (#[trigger] frames@[i])@ == stereo_of(
                playback_chunk(pcm@, i),
            ),
{
    let len = pcm.len();
    let mut frames: Vec<Box<[i16]>> = Vec::new();
    let mut start: usize = 0;
    while start < len
        invariant
            len == pcm@.len(),
            start <= len,
            start == len || start == frames@.len() * FRAME_SAMPLES,
            start < len || frames@.len() == playback_count(len as nat),
            forall|i: int|
                0 <= i < frames@.len() ==> (#[trigger] frames@[i])@ == stereo_of(
                    playback_chunk(pcm@, i),
                ),
        decreases len - start,
    {
        let end: usize = if len - start < FRAME_SAMPLES {
            len
        } else {
            start + FRAME_SAMPLES
        };
        let chunk = slice_subrange(pcm, start, end);
        assert(chunk@ == playback_chunk(pcm@, frames@.len() as int));
        frames.push(into_boxed(stereo(chunk)));
        start = end;
    }
    frames
}

/// A recording that is cut into frames and put together again is what it was: the
/// frames up to any place make up the recording up to there.
pub proof fn law_playback_is_complete(pcm: Seq<i16>, i: int)
    requires
        0 <= i < playback_count(pcm.len()),
    ensures
        pcm.take(i * FRAME_SAMPLES) + playback_chunk(pcm, i) == pcm.take(
            if (i + 1) * FRAME_SAMPLES <= pcm.len() {
                (i + 1) * FRAME_SAMPLES
            } else {
                pcm.len() as int
            },
        ),
        i + 1 == playback_count(pcm.len()) ==> pcm.take(i * FRAME_SAMPLES) + playback_chunk(pcm, i)
            == pcm,
{
    let end = if (i + 1) * FRAME_SAMPLES <= pcm.len() {
        (i + 1) * FRAME_SAMPLES
    } else {
        pcm.len() as int
    };
    assert(pcm.take(i * FRAME_SAMPLES) + playback_chunk(pcm, i) =~= pcm.take(end));
    if i + 1 == playback_count(pcm.len()) {
        assert(pcm.take(end) =~= pcm);
    }
}

/// A recording is played in as few frames of 320 samples as it takes; all but the last
/// are full, and sample `k` of frame `i` is sample `320 * i + k` of the recording.
pub proof fn law_playback_frames_in_order(pcm: Seq<i16>, i: int, k: int)
    requires
        0 <= i < playback_count(pcm.len()),
    ensures
        320 * (playback_count(pcm.len()) - 1) < pcm.len() <= 320 * playback_count(pcm.len()),
        0 < playback_chunk(pcm, i).len() <= 320,
        i + 1 < playback_count(pcm.len()) ==> playback_chunk(pcm, i).len() == 320,
        0 <= k < playback_chunk(pcm, i).len() ==> playback_chunk(pcm, i)[k] == pcm[320 * i + k],
{
}

} // verus!
