//! The speech codec: one packet of audio to one packet of bytes, and back.

use vstd::prelude::*;
use vstd::slice::slice_subrange;

use crate::packet::{packet_bytes, packet_extend, packet_from};

verus! {

/// Codec2 MODE_1200: 320 samples → 6 bytes per frame
pub const CODEC2_FRAME_BYTES: usize = 6;

pub const CODEC2_FRAME_SAMPLES: usize = 320;

/// Pack 4 Codec2 frames per LoRa packet (24 bytes payload, 160ms audio).
/// 2-byte header for repeater dedup/reorder: |5b type|7b txid|4b seq| = 16 bits.
/// 26 bytes total sits in the same SF8 symbol bin as 24 — zero air time cost.
pub const FRAMES_PER_PACKET: usize = 4;

pub const HEADER_BYTES: usize = 2;

pub const PAYLOAD_BYTES: usize = CODEC2_FRAME_BYTES * FRAMES_PER_PACKET;  // 24

pub const PACKET_BYTES: usize = HEADER_BYTES + PAYLOAD_BYTES;  // 26

/// Mono samples for one packet (4 frames × 320 samples)
pub const MONO_PACKET_SAMPLES: usize = FRAMES_PER_PACKET * CODEC2_FRAME_SAMPLES;

/// Stereo-interleaved samples for one decoded packet (4 frames × 320 samples × 2 channels)
pub const STEREO_PACKET_SAMPLES: usize = FRAMES_PER_PACKET * CODEC2_FRAME_SAMPLES * 2;

pub enum CodecRequest {
    Encode {
        header: [u8; 2],
        pcm: Box<[i16]>,  // 1280 samples (4×320)
    },
    Decode { seq: u8, txid: u8, payload: [u8; PAYLOAD_BYTES] },
}

pub enum CodecResponse {
    Encoded { packet: heapless::Vec<u8, 255> },
    Decoded {
        seq: u8,
        txid: u8,
        pcm: Box<[i16]>,  // 2560 stereo samples
    },
}

impl CodecRequest {
    /// Request to encode one packet of audio under `header`.
    pub fn encode(header: [u8; 2], pcm: Box<[i16]>) -> (req: Self)
        ensures
            req == (CodecRequest::Encode { header, pcm }),
    {
        CodecRequest::Encode { header, pcm }
    }

    /// Request to decode the payload of packet `seq` of transmission `txid`.
    pub fn decode(seq: u8, txid: u8, payload: [u8; PAYLOAD_BYTES]) -> (req: Self)
        ensures
            req == (CodecRequest::Decode { seq, txid, payload }),
    {
        CodecRequest::Decode { seq, txid, payload }
    }
}

/// `codec2::Codec2`, an encoder or a decoder with the memory of what it has processed.
#[verifier::external_type_specification]
#[verifier::external_body]
pub struct ExCodec2(codec2::Codec2);

/// Whether a codec runs in `Codec2Mode::MODE_1200`.
pub uninterp spec fn codec2_mode_1200(codec: codec2::Codec2) -> bool;

/// Whether a codec is as `Codec2::new` hands it out, with nothing processed yet.
pub uninterp spec fn codec2_fresh(codec: codec2::Codec2) -> bool;

/// Whether `Codec2::encode`, on a codec in state `before`, can turn `speech`
/// into `bits` and leave the codec in state `after`.
///
/// A relation, not a function: the analysis is done in floating point, with
/// transcendental functions whose last digits depend on the platform.
pub uninterp spec fn codec2_encodes(
    before: codec2::Codec2,
    speech: Seq<i16>,
    bits: Seq<u8>,
    after: codec2::Codec2,
) -> bool;

/// Whether `Codec2::decode`, on a codec in state `before`, can turn `bits` into
/// `speech` and leave the codec in state `after`.
///
/// A relation, not a function: besides the floating point, unvoiced sound is
/// synthesised from a random number that all codecs of the process share.
pub uninterp spec fn codec2_decodes(
    before: codec2::Codec2,
    bits: Seq<u8>,
    speech: Seq<i16>,
    after: codec2::Codec2,
) -> bool;

/// `Codec2::new(Codec2Mode::MODE_1200)`: a fresh codec in that mode.
#[verifier::external_body]
fn codec2_new() -> (codec: codec2::Codec2)
    ensures
        codec2_mode_1200(codec),
        codec2_fresh(codec),
{
    codec2::Codec2::new(codec2::Codec2Mode::MODE_1200)
}

/// `Codec2::encode`: codes one frame of speech into 48 bits. The mode stays as it is.
#[verifier::external_body]
fn codec2_encode(
    codec: &mut codec2::Codec2,
    bits: &mut [u8; CODEC2_FRAME_BYTES],
    speech: &[i16],
)
    requires
        codec2_mode_1200(*old(codec)),
        speech@.len() == CODEC2_FRAME_SAMPLES,
    ensures
        codec2_mode_1200(*final(codec)),
        codec2_encodes(*old(codec), speech@, final(bits)@, *final(codec)),
{
    codec.encode(bits, speech);
}

/// `Codec2::decode`: synthesises one frame of speech from 48 bits, limited to
/// ±32767. The mode stays as it is.
#[verifier::external_body]
fn codec2_decode(codec: &mut codec2::Codec2, speech: &mut [i16], bits: &[u8])
    requires
        codec2_mode_1200(*old(codec)),
        old(speech)@.len() == CODEC2_FRAME_SAMPLES,
        bits@.len() == CODEC2_FRAME_BYTES,
    ensures
        codec2_mode_1200(*final(codec)),
        final(speech)@.len() == CODEC2_FRAME_SAMPLES,
        codec2_decodes(*old(codec), bits@, final(speech)@, *final(codec)),
        forall|i: int| 0 <= i < final(speech)@.len() ==> -32767 <= #[trigger] final(speech)@[i],
{
    codec.decode(speech, bits);
}

/// `Vec::into_boxed_slice`: the same samples in a boxed slice.
#[verifier::external_body]
pub(crate) fn into_boxed(samples: Vec<i16>) -> (boxed: Box<[i16]>)
    ensures
        boxed@ == samples@,
{
    samples.into_boxed_slice()
}

/// Frame `i` of a run of samples or bytes that come `size` to the frame.
pub open spec fn frame_of<T>(data: Seq<T>, i: int, size: int) -> Seq<T> {
    data.subrange(i * size, (i + 1) * size)
}

/// Whether an encoder, fed `n` frames of `pcm` one after the other, can give the
/// frames of `payload`, passing through `states`.
pub open spec fn encodes_through(
    states: Seq<codec2::Codec2>,
    pcm: Seq<i16>,
    payload: Seq<u8>,
    n: nat,
) -> bool {
    &&& states.len() == n + 1
    &&& forall|i: int|
        0 <= i < n ==> codec2_encodes(
            states[i],
            #[trigger] frame_of(pcm, i, CODEC2_FRAME_SAMPLES as int),
            frame_of(payload, i, CODEC2_FRAME_BYTES as int),
            states[i + 1],
        )
}

/// Whether `payload` is `n` frames of `pcm` encoded one by one, by an encoder that
/// goes from state `before` to state `after`.
pub open spec fn frames_encode(
    before: codec2::Codec2,
    pcm: Seq<i16>,
    payload: Seq<u8>,
    n: nat,
    after: codec2::Codec2,
) -> bool {
    exists|states: Seq<codec2::Codec2>| #[trigger]
        encodes_through(states, pcm, payload, n) && states[0] == before && states[n as int] == after
}

/// Whether a decoder, fed `n` frames of `payload` one after the other, can give the
/// frames of `pcm`, passing through `states`.
pub open spec fn decodes_through(
    states: Seq<codec2::Codec2>,
    payload: Seq<u8>,
    pcm: Seq<i16>,
    n: nat,
) -> bool {
    &&& states.len() == n + 1
    &&& forall|i: int|
        0 <= i < n ==> codec2_decodes(
            states[i],
            #[trigger] frame_of(payload, i, CODEC2_FRAME_BYTES as int),
            frame_of(pcm, i, CODEC2_FRAME_SAMPLES as int),
            states[i + 1],
        )
}

/// Whether `pcm` is `n` frames of `payload` decoded one by one, by a decoder that
/// goes from state `before` to state `after`.
pub open spec fn frames_decode(
    before: codec2::Codec2,
    payload: Seq<u8>,
    pcm: Seq<i16>,
    n: nat,
    after: codec2::Codec2,
) -> bool {
    exists|states: Seq<codec2::Codec2>| #[trigger]
        decodes_through(states, payload, pcm, n) && states[0] == before && states[n as int] == after
}

/// Mono audio on both channels: every sample twice.
pub open spec fn stereo_of(mono: Seq<i16>) -> Seq<i16> {
    Seq::new(2 * mono.len(), |i: int| mono[i / 2])
}

/// Mono → stereo interleave: every sample on the left and on the right.
pub fn stereo(mono: &[i16]) -> (both: Vec<i16>)
    requires
        2 * mono@.len() <= usize::MAX,
    ensures
        both@ == stereo_of(mono@),
        both@.len() == 2 * mono@.len(),
        forall|i: int|
            0 <= i < mono@.len() ==> both@[2 * i] == #[trigger] mono@[i] && both@[2 * i + 1]
                == mono@[i],
{
    let mut both: Vec<i16> = Vec::new();
    let mut i: usize = 0;
    while i < mono.len()
        invariant
            i <= mono@.len(),
            both@ == stereo_of(mono@.take(i as int)),
        decreases mono@.len() - i,
    {
        both.push(mono[i]);
        both.push(mono[i]);
        i += 1;
        assert(both@ =~= stereo_of(mono@.take(i as int)));
    }
    assert(mono@.take(i as int) =~= mono@);
    both
}

/// The left channel of interleaved stereo.
pub open spec fn left_of(both: Seq<i16>) -> Seq<i16> {
    Seq::new(both.len() / 2, |i: int| both[2 * i])
}

/// The left channel of mono audio played on both channels is that audio.
pub proof fn law_left_of_stereo(mono: Seq<i16>)
    ensures
        left_of(stereo_of(mono)) == mono,
{
    assert(left_of(stereo_of(mono)) =~= mono);
}

/// The frames of a packet one after the other.
pub open spec fn joined(frames: Seq<[u8; CODEC2_FRAME_BYTES]>) -> Seq<u8>
    decreases frames.len(),
{
    if frames.len() == 0 {
        seq![]
    } else {
        joined(frames.drop_last()) + frames.last()@
    }
}

/// Joined frames come apart again at every multiple of the frame size.
pub proof fn law_joined_frames(frames: Seq<[u8; CODEC2_FRAME_BYTES]>, i: int)
    requires
        0 <= i < frames.len(),
    ensures
        joined(frames).len() == frames.len() * CODEC2_FRAME_BYTES,
        frame_of(joined(frames), i, CODEC2_FRAME_BYTES as int) == frames[i]@,
    decreases frames.len(),
{
    lemma_joined_length(frames);
    lemma_joined_length(frames.drop_last());
    if i < frames.len() - 1 {
        law_joined_frames(frames.drop_last(), i);
        assert(frame_of(joined(frames), i, CODEC2_FRAME_BYTES as int) =~= frame_of(
            joined(frames.drop_last()),
            i,
            CODEC2_FRAME_BYTES as int,
        ));
    } else {
        assert(frame_of(joined(frames), i, CODEC2_FRAME_BYTES as int) =~= frames.last()@);
    }
}

proof fn lemma_joined_length(frames: Seq<[u8; CODEC2_FRAME_BYTES]>)
    ensures
        joined(frames).len() == frames.len() * CODEC2_FRAME_BYTES,
    decreases frames.len(),
{
    if frames.len() > 0 {
        lemma_joined_length(frames.drop_last());
    }
}

/// Puts a header in front of coded frames.
pub fn assemble_packet(header: &[u8; 2], frames: &Vec<[u8; CODEC2_FRAME_BYTES]>) -> (packet:
    heapless::Vec<u8, 255>)
    requires
        HEADER_BYTES + frames@.len() * CODEC2_FRAME_BYTES <= 255,
    ensures
        packet_bytes(packet) == header@ + joined(frames@),
{
    let mut packet = packet_from(header.as_slice());
    let mut i: usize = 0;
    assert(frames@.take(0) =~= seq![]);
    assert(header@ + joined(frames@.take(0)) =~= header@);
    while i < frames.len()
        invariant
            i <= frames@.len(),
            HEADER_BYTES + frames@.len() * CODEC2_FRAME_BYTES <= 255,
            packet_bytes(packet) == header@ + joined(frames@.take(i as int)),
        decreases frames@.len() - i,
    {
        proof {
            lemma_joined_length(frames@.take(i as int));
            assert(frames@.take(i + 1).drop_last() =~= frames@.take(i as int));
        }
        let _ = packet_extend(&mut packet, frames[i].as_slice());
        i += 1;
        assert(packet_bytes(packet) =~= header@ + joined(frames@.take(i as int)));
    }
    assert(frames@.take(i as int) =~= frames@);
    packet
}

/// Encoder and decoder of the codec thread.
pub struct Codec {
    encoder: Box<codec2::Codec2>,
    decoder: Box<codec2::Codec2>,
}

impl Codec {
    pub closed spec fn encoder(self) -> codec2::Codec2 {
        *self.encoder
    }

    pub closed spec fn decoder(self) -> codec2::Codec2 {
        *self.decoder
    }

    /// Both run in the mode that the packet layout is made for.
    pub open spec fn wf(self) -> bool {
        codec2_mode_1200(self.encoder()) && codec2_mode_1200(self.decoder())
    }

    pub fn new() -> (codec: Self)
        ensures
            codec.wf(),
            codec2_fresh(codec.encoder()),
            codec2_fresh(codec.decoder()),
    {
        Codec { encoder: Box::new(codec2_new()), decoder: Box::new(codec2_new()) }
    }

    /// What a request must bring: at least a packet of audio, if it is to be encoded.
    pub open spec fn accepts(req: CodecRequest) -> bool {
        req matches CodecRequest::Encode { header, pcm } ==> pcm@.len() >= MONO_PACKET_SAMPLES
    }

    /// How the response to a request relates to the codec before and after it.
    pub open spec fn answers(
        before: Self,
        req: CodecRequest,
        response: CodecResponse,
        after: Self,
    ) -> bool {
        match req {
            CodecRequest::Encode { header, pcm } => {
                &&& response matches CodecResponse::Encoded { packet }
                &&& packet_bytes(packet).len() == PACKET_BYTES
                &&& packet_bytes(packet).take(HEADER_BYTES as int) == header@
                &&& frames_encode(
                    before.encoder(),
                    pcm@,
                    packet_bytes(packet).skip(HEADER_BYTES as int),
                    FRAMES_PER_PACKET as nat,
                    after.encoder(),
                )
                &&& after.decoder() == before.decoder()
            },
            CodecRequest::Decode { seq, txid, payload } => {
                &&& response matches CodecResponse::Decoded { seq: s, txid: t, pcm }
                &&& s == seq
                &&& t == txid
                &&& pcm@.len() == STEREO_PACKET_SAMPLES
                &&& pcm@ == stereo_of(left_of(pcm@))
                &&& forall|i: int| 0 <= i < pcm@.len() ==> -32767 <= #[trigger] pcm@[i]
                &&& frames_decode(
                    before.decoder(),
                    payload@,
                    left_of(pcm@),
                    FRAMES_PER_PACKET as nat,
                    after.decoder(),
                )
                &&& after.encoder() == before.encoder()
            },
        }
    }

    /// Serves one request.
    pub fn handle(&mut self, req: CodecRequest) -> (response: CodecResponse)
        requires
            old(self).wf(),
            Self::accepts(req),
        ensures
            final(self).wf(),
            Self::answers(*old(self), req, response, *final(self)),
    {
        match req {
            CodecRequest::Encode { header, pcm } => {
                let frames = self.encode_frames(&pcm, FRAMES_PER_PACKET);
                proof {
                    lemma_joined_length(frames@);
                }
                let packet = assemble_packet(&header, &frames);
                assert(packet_bytes(packet).take(HEADER_BYTES as int) =~= header@);
                assert(packet_bytes(packet).skip(HEADER_BYTES as int) =~= joined(frames@));
                CodecResponse::Encoded { packet }
            },
            CodecRequest::Decode { seq, txid, payload } => {
                let mono = self.decode_frames(payload.as_slice(), FRAMES_PER_PACKET);
                let pcm = into_boxed(stereo(mono.as_slice()));
                proof {
                    law_left_of_stereo(mono@);
                }
                CodecResponse::Decoded { seq, txid, pcm }
            },
        }
    }

    /// Encodes the first `count` frames of `pcm`, one after the other.
    pub fn encode_frames(&mut self, pcm: &[i16], count: usize) -> (frames: Vec<
        [u8; CODEC2_FRAME_BYTES],
    >)
        requires
            old(self).wf(),
            pcm@.len() >= count * CODEC2_FRAME_SAMPLES,
        ensures
            final(self).wf(),
            final(self).decoder() == old(self).decoder(),
            frames@.len() == count,
            frames_encode(
                old(self).encoder(),
                pcm@,
                joined(frames@),
                count as nat,
                final(self).encoder(),
            ),
    {
        let available = pcm.len();
        let mut frames: Vec<[u8; CODEC2_FRAME_BYTES]> = Vec::new();
        let ghost mut states: Seq<codec2::Codec2> = seq![self.encoder()];
        let mut i: usize = 0;
        while i < count
            invariant
                i <= count,
                pcm@.len() == available,
                available >= count * CODEC2_FRAME_SAMPLES,
                self.wf(),
                self.decoder() == old(self).decoder(),
                frames@.len() == i,
                states.len() == i + 1,
                states[0] == old(self).encoder(),
                states[i as int] == self.encoder(),
                forall|j: int|
                    0 <= j < i ==> codec2_encodes(
                        states[j],
                        #[trigger] frame_of(pcm@, j, CODEC2_FRAME_SAMPLES as int),
                        frames@[j]@,
                        states[j + 1],
                    ),
            decreases count - i,
        {
            let start = i * CODEC2_FRAME_SAMPLES;
            let end = start + CODEC2_FRAME_SAMPLES;
            let mut frame_bytes = [0u8;CODEC2_FRAME_BYTES];
            codec2_encode(&mut self.encoder, &mut frame_bytes, slice_subrange(pcm, start, end));
            frames.push(frame_bytes);
            proof {
                states = states.push(self.encoder());
            }
            i += 1;
        }
        proof {
            assert forall|j: int| 0 <= j < count implies codec2_encodes(
                states[j],
                #[trigger] frame_of(pcm@, j, CODEC2_FRAME_SAMPLES as int),
                frame_of(joined(frames@), j, CODEC2_FRAME_BYTES as int),
                states[j + 1],
            ) by {
                law_joined_frames(frames@, j);
            }
            assert(encodes_through(states, pcm@, joined(frames@), count as nat));
        }
        frames
    }

    /// Decodes the first `count` frames of `coded`, one after the other, into mono
    /// audio.
    pub fn decode_frames(&mut self, coded: &[u8], count: usize) -> (mono: Vec<i16>)
        requires
            old(self).wf(),
            coded@.len() >= count * CODEC2_FRAME_BYTES,
            count * CODEC2_FRAME_SAMPLES <= usize::MAX,
        ensures
            final(self).wf(),
            final(self).encoder() == old(self).encoder(),
            mono@.len() == count * CODEC2_FRAME_SAMPLES,
            forall|j: int| 0 <= j < mono@.len() ==> -32767 <= #[trigger] mono@[j],
            frames_decode(
                old(self).decoder(),
                coded@,
                mono@,
                count as nat,
                final(self).decoder(),
            ),
    {
        let available = coded.len();
        let mut decode_buf: Vec<i16> = vec![0i16; CODEC2_FRAME_SAMPLES];
        let mut mono: Vec<i16> = Vec::new();
        let ghost mut states: Seq<codec2::Codec2> = seq![self.decoder()];
        let mut i: usize = 0;
        while i < count
            invariant
                i <= count,
                coded@.len() == available,
                available >= count * CODEC2_FRAME_BYTES,
                self.wf(),
                self.encoder() == old(self).encoder(),
                decode_buf@.len() == CODEC2_FRAME_SAMPLES,
                mono@.len() == i * CODEC2_FRAME_SAMPLES,
                forall|j: int| 0 <= j < mono@.len() ==> -32767 <= #[trigger] mono@[j],
                states.len() == i + 1,
                states[0] == old(self).decoder(),
                states[i as int] == self.decoder(),
                forall|j: int|
                    0 <= j < i ==> codec2_decodes(
                        states[j],
                        #[trigger] frame_of(coded@, j, CODEC2_FRAME_BYTES as int),
                        frame_of(mono@, j, CODEC2_FRAME_SAMPLES as int),
                        states[j + 1],
                    ),
            decreases count - i,
        {
            let frame = slice_subrange(
                coded,
                i * CODEC2_FRAME_BYTES,
                (i + 1) * CODEC2_FRAME_BYTES,
            );
            codec2_decode(&mut self.decoder, decode_buf.as_mut_slice(), frame);
            let ghost before = mono@;
            mono.extend_from_slice(decode_buf.as_slice());
            assert(mono@ =~= before + decode_buf@);
            proof {
                states = states.push(self.decoder());
                assert forall|j: int| 0 <= j < i implies frame_of(
                    mono@,
                    j,
                    CODEC2_FRAME_SAMPLES as int,
                ) == #[trigger] frame_of(before, j, CODEC2_FRAME_SAMPLES as int) by {
                    assert(frame_of(mono@, j, CODEC2_FRAME_SAMPLES as int) =~= frame_of(
                        before,
                        j,
                        CODEC2_FRAME_SAMPLES as int,
                    ));
                }
                assert(frame_of(mono@, i as int, CODEC2_FRAME_SAMPLES as int) =~= decode_buf@);
            }
            i += 1;
        }
        assert(decodes_through(states, coded@, mono@, count as nat));
        mono
    }
}

/// The left channel of interleaved stereo.
pub fn left(both: &[i16]) -> (mono: Vec<i16>)
    ensures
        mono@ == left_of(both@),
        mono@.len() == both@.len() / 2,
        forall|i: int| 0 <= i < mono@.len() ==> #[trigger] mono@[i] == both@[2 * i],
{
    let len = both.len();
    let half = len / 2;
    let mut mono: Vec<i16> = Vec::new();
    let mut i: usize = 0;
    while i < half
        invariant
            i <= half,
            both@.len() == len,
            half == len / 2,
            mono@.len() == i,
            forall|j: int| 0 <= j < i ==> #[trigger] mono@[j] == both@[2 * j],
        decreases half - i,
    {
        mono.push(both[2 * i]);
        i += 1;
    }
    assert(mono@ =~= left_of(both@));
    mono
}

/// Both channels carry every sample of the mono audio, one after the other.
pub proof fn law_stereo_doubles_samples(mono: Seq<i16>, i: int)
    requires
        0 <= i < mono.len(),
    ensures
        stereo_of(mono).len() == 2 * mono.len(),
        stereo_of(mono)[2 * i] == mono[i],
        stereo_of(mono)[2 * i + 1] == mono[i],
        left_of(stereo_of(mono)).len() == mono.len(),
        left_of(stereo_of(mono))[i] == mono[i],
{
}

/// Byte `k` of frame `i` stands at place `6 * i + k` of the joined frames.
pub proof fn law_joined_bytes(frames: Seq<[u8; CODEC2_FRAME_BYTES]>, i: int, k: int)
    requires
        0 <= i < frames.len(),
        0 <= k < 6,
    ensures
        joined(frames).len() == 6 * frames.len(),
        joined(frames)[6 * i + k] == frames[i]@[k],
{
    law_joined_frames(frames, i);
    assert(frame_of(joined(frames), i, CODEC2_FRAME_BYTES as int)[k] == joined(frames)[6 * i + k]);
}

/// Decoding `n` frames is decoding the first 6 bytes to the first 320 samples, and then,
/// with the decoder as that left it, the remaining bytes to the remaining samples.
pub proof fn law_frames_are_decoded_from_the_front(
    before: codec2::Codec2,
    coded: Seq<u8>,
    pcm: Seq<i16>,
    n: nat,
    after: codec2::Codec2,
)
    requires
        frames_decode(before, coded, pcm, n, after),
        coded.len() >= 6 * n,
        pcm.len() >= 320 * n,
    ensures
        n == 0 ==> after == before,
        n > 0 ==> exists|mid: codec2::Codec2| #[trigger]
            codec2_decodes(before, coded.subrange(0, 6), pcm.subrange(0, 320), mid)
                && frames_decode(mid, coded.skip(6), pcm.skip(320), (n - 1) as nat, after),
{
    let states = choose|states: Seq<codec2::Codec2>| #[trigger]
        decodes_through(states, coded, pcm, n) && states[0] == before && states[n as int] == after;
    if n > 0 {
        let mid = states[1];
        let rest = states.skip(1);
        assert(frame_of(coded, 0, CODEC2_FRAME_BYTES as int) =~= coded.subrange(0, 6));
        assert(frame_of(pcm, 0, CODEC2_FRAME_SAMPLES as int) =~= pcm.subrange(0, 320));
        assert(codec2_decodes(before, coded.subrange(0, 6), pcm.subrange(0, 320), mid));
        assert forall|i: int| 0 <= i < n - 1 implies codec2_decodes(
            rest[i],
            #[trigger] frame_of(coded.skip(6), i, CODEC2_FRAME_BYTES as int),
            frame_of(pcm.skip(320), i, CODEC2_FRAME_SAMPLES as int),
            rest[i + 1],
        ) by {
            assert(frame_of(coded.skip(6), i, CODEC2_FRAME_BYTES as int) =~= frame_of(
                coded,
                i + 1,
                CODEC2_FRAME_BYTES as int,
            ));
            assert(frame_of(pcm.skip(320), i, CODEC2_FRAME_SAMPLES as int) =~= frame_of(
                pcm,
                i + 1,
                CODEC2_FRAME_SAMPLES as int,
            ));
        }
        assert(decodes_through(rest, coded.skip(6), pcm.skip(320), (n - 1) as nat));
    }
}

/// Encoding `n` frames is encoding the first 320 samples to the first 6 bytes, and then,
/// with the encoder as that left it, the remaining samples to the remaining bytes.
pub proof fn law_frames_are_encoded_from_the_front(
    before: codec2::Codec2,
    pcm: Seq<i16>,
    coded: Seq<u8>,
    n: nat,
    after: codec2::Codec2,
)
    requires
        frames_encode(before, pcm, coded, n, after),
        pcm.len() >= 320 * n,
        coded.len() >= 6 * n,
    ensures
        n == 0 ==> after == before,
        n > 0 ==> exists|mid: codec2::Codec2| #[trigger]
            codec2_encodes(before, pcm.subrange(0, 320), coded.subrange(0, 6), mid)
                && frames_encode(mid, pcm.skip(320), coded.skip(6), (n - 1) as nat, after),
{
    let states = choose|states: Seq<codec2::Codec2>| #[trigger]
        encodes_through(states, pcm, coded, n) && states[0] == before && states[n as int] == after;
    if n > 0 {
        let mid = states[1];
        let rest = states.skip(1);
        assert(frame_of(pcm, 0, CODEC2_FRAME_SAMPLES as int) =~= pcm.subrange(0, 320));
        assert(frame_of(coded, 0, CODEC2_FRAME_BYTES as int) =~= coded.subrange(0, 6));
        assert(codec2_encodes(before, pcm.subrange(0, 320), coded.subrange(0, 6), mid));
        assert forall|i: int| 0 <= i < n - 1 implies codec2_encodes(
            rest[i],
            #[trigger] frame_of(pcm.skip(320), i, CODEC2_FRAME_SAMPLES as int),
            frame_of(coded.skip(6), i, CODEC2_FRAME_BYTES as int),
            rest[i + 1],
        ) by {
            assert(frame_of(pcm.skip(320), i, CODEC2_FRAME_SAMPLES as int) =~= frame_of(
                pcm,
                i + 1,
                CODEC2_FRAME_SAMPLES as int,
            ));
            assert(frame_of(coded.skip(6), i, CODEC2_FRAME_BYTES as int) =~= frame_of(
                coded,
                i + 1,
                CODEC2_FRAME_BYTES as int,
            ));
        }
        assert(encodes_through(rest, pcm.skip(320), coded.skip(6), (n - 1) as nat));
    }
}

/// A packet is decoded in the order in which it was spoken: of its payload the decoder
/// gets bytes 0 to 5, 6 to 11, 12 to 17 and 18 to 23, one after the other, each time as
/// the frame before left it; and what it gives for them is heard at samples 0 to 319,
/// 320 to 639, 640 to 959 and 960 to 1279, the same on both channels.
pub proof fn law_packet_is_decoded_in_order(
    before: Codec,
    seq: u8,
    txid: u8,
    payload: [u8; PAYLOAD_BYTES],
    response: CodecResponse,
    after: Codec,
)
    requires
        Codec::answers(before, CodecRequest::Decode { seq, txid, payload }, response, after),
    ensures
        after.encoder() == before.encoder(),
        response is Decoded,
        response->seq == seq,
        response->txid == txid,
        response->pcm@.len() == 2560,
        ({
            let pcm = response->pcm@;
            let mono = Seq::new(1280, |i: int| pcm[2 * i]);
            &&& forall|i: int|
                0 <= i < 1280 ==> #[trigger] mono[i] == pcm[2 * i] && mono[i] == pcm[2 * i + 1]
            &&& exists|s1: codec2::Codec2, s2: codec2::Codec2, s3: codec2::Codec2|
                {
                    &&& #[trigger] codec2_decodes(
                        before.decoder(),
                        payload@.subrange(0, 6),
                        mono.subrange(0, 320),
                        s1,
                    )
                    &&& #[trigger] codec2_decodes(
                        s1,
                        payload@.subrange(6, 12),
                        mono.subrange(320, 640),
                        s2,
                    )
                    &&& #[trigger] codec2_decodes(
                        s2,
                        payload@.subrange(12, 18),
                        mono.subrange(640, 960),
                        s3,
                    )
                    &&& codec2_decodes(
                        s3,
                        payload@.subrange(18, 24),
                        mono.subrange(960, 1280),
                        after.decoder(),
                    )
                }
        }),
{
    let pcm = response->pcm@;
    let mono = Seq::new(1280, |i: int| pcm[2 * i]);
    assert(mono =~= left_of(pcm));
    assert forall|i: int| 0 <= i < 1280 implies #[trigger] mono[i] == pcm[2 * i] && mono[i] == pcm[2
        * i + 1] by {
        let heard = stereo_of(left_of(pcm));
        assert(heard[2 * i + 1] == left_of(pcm)[i]);
    }
    let states = choose|states: Seq<codec2::Codec2>| #[trigger]
        decodes_through(states, payload@, left_of(pcm), FRAMES_PER_PACKET as nat) && states[0]
            == before.decoder() && states[4] == after.decoder();
    assert(frame_of(payload@, 0, CODEC2_FRAME_BYTES as int) =~= payload@.subrange(0, 6));
    assert(frame_of(mono, 0, CODEC2_FRAME_SAMPLES as int) =~= mono.subrange(0, 320));
    assert(frame_of(payload@, 1, CODEC2_FRAME_BYTES as int) =~= payload@.subrange(6, 12));
    assert(frame_of(mono, 1, CODEC2_FRAME_SAMPLES as int) =~= mono.subrange(320, 640));
    assert(frame_of(payload@, 2, CODEC2_FRAME_BYTES as int) =~= payload@.subrange(12, 18));
    assert(frame_of(mono, 2, CODEC2_FRAME_SAMPLES as int) =~= mono.subrange(640, 960));
    assert(frame_of(payload@, 3, CODEC2_FRAME_BYTES as int) =~= payload@.subrange(18, 24));
    assert(frame_of(mono, 3, CODEC2_FRAME_SAMPLES as int) =~= mono.subrange(960, 1280));
    assert(codec2_decodes(
        states[0],
        payload@.subrange(0, 6),
        mono.subrange(0, 320),
        states[1],
    ));
}

/// A packet is encoded in the order in which it was spoken: the header stands in the
/// first 2 bytes; of the audio the encoder gets samples 0 to 319, 320 to 639, 640 to 959
/// and 960 to 1279, one after the other, each time as the frame before left it, and what
/// it gives for them stands in bytes 2 to 7, 8 to 13, 14 to 19 and 20 to 25.
pub proof fn law_packet_is_encoded_in_order(
    before: Codec,
    header: [u8; 2],
    pcm: Box<[i16]>,
    response: CodecResponse,
    after: Codec,
)
    requires
        pcm@.len() >= 1280,
        Codec::answers(before, CodecRequest::Encode { header, pcm }, response, after),
    ensures
        after.decoder() == before.decoder(),
        response is Encoded,
        ({
            let bytes = packet_bytes(response->packet);
            &&& bytes.len() == 26
            &&& bytes[0] == header@[0]
            &&& bytes[1] == header@[1]
            &&& exists|s1: codec2::Codec2, s2: codec2::Codec2, s3: codec2::Codec2|
                {
                    &&& #[trigger] codec2_encodes(
                        before.encoder(),
                        pcm@.subrange(0, 320),
                        bytes.subrange(2, 8),
                        s1,
                    )
                    &&& #[trigger] codec2_encodes(
                        s1,
                        pcm@.subrange(320, 640),
                        bytes.subrange(8, 14),
                        s2,
                    )
                    &&& #[trigger] codec2_encodes(
                        s2,
                        pcm@.subrange(640, 960),
                        bytes.subrange(14, 20),
                        s3,
                    )
                    &&& codec2_encodes(
                        s3,
                        pcm@.subrange(960, 1280),
                        bytes.subrange(20, 26),
                        after.encoder(),
                    )
                }
        }),
{
    let bytes = packet_bytes(response->packet);
    let payload = bytes.skip(HEADER_BYTES as int);
    assert(bytes.take(HEADER_BYTES as int)[0] == bytes[0]);
    assert(bytes.take(HEADER_BYTES as int)[1] == bytes[1]);
    let states = choose|states: Seq<codec2::Codec2>| #[trigger]
        encodes_through(states, pcm@, payload, FRAMES_PER_PACKET as nat) && states[0]
            == before.encoder() && states[4] == after.encoder();
    assert(frame_of(pcm@, 0, CODEC2_FRAME_SAMPLES as int) =~= pcm@.subrange(0, 320));
    assert(frame_of(payload, 0, CODEC2_FRAME_BYTES as int) =~= bytes.subrange(2, 8));
    assert(frame_of(pcm@, 1, CODEC2_FRAME_SAMPLES as int) =~= pcm@.subrange(320, 640));
    assert(frame_of(payload, 1, CODEC2_FRAME_BYTES as int) =~= bytes.subrange(8, 14));
    assert(frame_of(pcm@, 2, CODEC2_FRAME_SAMPLES as int) =~= pcm@.subrange(640, 960));
    assert(frame_of(payload, 2, CODEC2_FRAME_BYTES as int) =~= bytes.subrange(14, 20));
    assert(frame_of(pcm@, 3, CODEC2_FRAME_SAMPLES as int) =~= pcm@.subrange(960, 1280));
    assert(frame_of(payload, 3, CODEC2_FRAME_BYTES as int) =~= bytes.subrange(20, 26));
    assert(codec2_encodes(
        states[0],
        pcm@.subrange(0, 320),
        bytes.subrange(2, 8),
        states[1],
    ));
}

} // verus!
