//! The speaker: packets cut into frames, frames into bytes, and when to ask for
//! more.

use vstd::prelude::*;
use vstd::slice::slice_subrange;

use crate::codec::{
    into_boxed, CODEC2_FRAME_SAMPLES, FRAMES_PER_PACKET, STEREO_PACKET_SAMPLES,
};

verus! {

/// Stereo samples per Codec2 frame (320 mono × 2 channels)
pub const STEREO_FRAME_SAMPLES: usize = CODEC2_FRAME_SAMPLES * 2;

/// Capacity of the queue of frames: 2 packets worth of frames.
pub const QUEUE_FRAMES: usize = 8;

/// Frame `i` of a packet of stereo samples.
pub open spec fn stereo_frame(packet: Seq<i16>, i: int) -> Seq<i16> {
    packet.subrange(i * STEREO_FRAME_SAMPLES, (i + 1) * STEREO_FRAME_SAMPLES)
}

/// Split a packet (4 × 40ms stereo frames) into individual frames for the speaker.
pub fn send_to_speaker(packet: &[i16]) -> (frames: Vec<Box<[i16]>>)
    requires
        packet@.len() >= STEREO_PACKET_SAMPLES,
    ensures
        frames@.len() == FRAMES_PER_PACKET,
        forall|i: int|
            0 <= i < FRAMES_PER_PACKET ==> (#[trigger] frames@[i])@ == stereo_frame(packet@, i),
        frames@.len() == 4,
        forall|i: int|
            0 <= i < 4 ==> (#[trigger] frames@[i])@ == packet@.subrange(640 * i, 640 * i + 640),
{
    let mut frames: Vec<Box<[i16]>> = Vec::new();
    let mut i: usize = 0;
    while i < FRAMES_PER_PACKET
        invariant
            i <= FRAMES_PER_PACKET,
            packet@.len() >= STEREO_PACKET_SAMPLES,
            frames@.len() == i,
            forall|j: int| 0 <= j < i ==> (#[trigger] frames@[j])@ == stereo_frame(packet@, j),
        decreases FRAMES_PER_PACKET - i,
    {
        let offset = i * STEREO_FRAME_SAMPLES;
        let part = slice_subrange(packet, offset, offset + STEREO_FRAME_SAMPLES);
        let mut frame: Vec<i16> = Vec::new();
        frame.extend_from_slice(part);
        assert(frame@ =~= stereo_frame(packet@, i as int));
        frames.push(into_boxed(frame));
        i += 1;
    }
    assert forall|j: int| 0 <= j < 4 implies (#[trigger] frames@[j])@ == packet@.subrange(
        640 * j,
        640 * j + 640,
    ) by {
        assert(frames@[j]@ == stereo_frame(packet@, j));
    }
    frames
}

/// The frames of a packet, played one after the other, are the packet: nothing
/// is cut off, doubled or reordered.
pub proof fn law_frames_make_up_packet(packet: Seq<i16>)
    requires
        packet.len() == STEREO_PACKET_SAMPLES,
    ensures
        stereo_frame(packet, 0) + stereo_frame(packet, 1) + stereo_frame(packet, 2) + stereo_frame(
            packet,
            3,
        ) == packet,
{
    assert(stereo_frame(packet, 0) + stereo_frame(packet, 1) + stereo_frame(packet, 2)
        + stereo_frame(packet, 3) =~= packet);
}

/// A sample in two's complement, as a number from 0 to 65535.
pub open spec fn sample_bits(sample: i16) -> int {
    if sample < 0 {
        sample + 65536
    } else {
        sample as int
    }
}

/// Samples as the I2S peripheral takes them: two bytes each, low byte first.
pub fn pcm_as_bytes(pcm: &[i16]) -> (bytes: Vec<u8>)
    requires
        2 * pcm@.len() <= usize::MAX,
    ensures
        bytes@.len() == 2 * pcm@.len(),
        forall|i: int|
            0 <= i < pcm@.len() ==> bytes@[2 * i] + 256 * bytes@[2 * i + 1] == sample_bits(
                #[trigger] pcm@[i],
            ),
        forall|i: int|
            0 <= i < pcm@.len() ==> bytes@[2 * i] + 256 * bytes@[2 * i + 1] == (if #[trigger] pcm@[i]
                < 0 {
                pcm@[i] + 65536
            } else {
                pcm@[i] as int
            }),
{
    let mut bytes: Vec<u8> = Vec::new();
    let mut i: usize = 0;
    while i < pcm.len()
        invariant
            i <= pcm@.len(),
            bytes@.len() == 2 * i,
            forall|j: int|
                0 <= j < i ==> bytes@[2 * j] + 256 * bytes@[2 * j + 1] == sample_bits(
                    #[trigger] pcm@[j],
                ),
        decreases pcm@.len() - i,
    {
        let sample = pcm[i];
        let bits: u16 = if sample < 0 {
            (sample as i32 + 65536) as u16
        } else {
            sample as u16
        };
        bytes.push((bits % 256) as u8);
        bytes.push((bits / 256) as u8);
        i += 1;
    }
    bytes
}

/// Whether the speaker, having written a frame, asks for the next packet: when
/// at most one frame is left in the queue.
pub fn wants_packet(queued: usize) -> (wants: bool)
    ensures
        wants <==> queued <= 1,
{
    queued <= 1
}

/// Whether a wait for a frame was an underrun: mid-stream (a frame played
/// recently) but the queue was empty, so the DMA ran dry waiting for the next
/// frame.
pub fn is_underrun(starved: bool, since_last_frame_ms: u128, waited_ms: u128) -> (underrun: bool)
    ensures
        underrun <==> starved && since_last_frame_ms < 500 && waited_ms > 5,
{
    starved && since_last_frame_ms < 500 && waited_ms > 5
}

/// Sample `k` of frame `i` is sample `640 * i + k` of the packet: frames come in order.
pub proof fn law_frame_samples(packet: Seq<i16>, i: int, k: int)
    requires
        packet.len() >= 2560,
        0 <= i < 4,
        0 <= k < 640,
    ensures
        stereo_frame(packet, i).len() == 640,
        stereo_frame(packet, i)[k] == packet[640 * i + k],
{
}

/// The number that stands for a sample is congruent to it modulo 65536, and fits 16 bits.
pub proof fn law_sample_bits_are_twos_complement(sample: i16)
    ensures
        0 <= sample_bits(sample) < 65536,
        (sample_bits(sample) - sample) % 65536 == 0,
{
}

} // verus!
