//! A transmission: the packets of one press of the push-to-talk button.
//!
//! Pipelined: each pass captures one packet while the packet before it is encoded
//! and sent, so the mic is drained continuously.

use vstd::prelude::*;

use crate::codec::{
    into_boxed, CodecRequest, CodecResponse, CODEC2_FRAME_SAMPLES, MONO_PACKET_SAMPLES,
};
use crate::devices::mic::{pcm_of, Mic};
use crate::packet::{packet_bytes, packet_from, spec_voice_header, voice_header, TxRequest};

verus! {

/// Audio per packet: FRAMES_PER_PACKET × 40ms
pub const PACKET_MS: u128 = 160;

pub struct Transmission {
    txid: u8,
    seq: u8,
    pending: Option<([u8; 2], Box<[i16]>)>,
}

/// The state of a [`Transmission`], with its packet as header and audio.
#[verifier::ext_equal]
pub ghost struct TransmissionView {
    pub txid: u8,
    pub seq: u8,
    pub pending: Option<(Seq<u8>, Seq<i16>)>,
}

impl TransmissionView {
    /// A packet of audio was captured: it waits to be encoded under the header of
    /// its place in the transmission.
    pub open spec fn captured(self, pcm: Seq<i16>) -> TransmissionView {
        TransmissionView {
            txid: self.txid,
            seq: ((self.seq + 1) % 16) as u8,
            pending: Some((spec_voice_header(self.txid, self.seq), pcm)),
        }
    }

    /// The waiting packet has been taken.
    pub open spec fn taken(self) -> TransmissionView {
        TransmissionView { pending: None, ..self }
    }
}

impl View for Transmission {
    type V = TransmissionView;

    closed spec fn view(&self) -> TransmissionView {
        TransmissionView {
            txid: self.txid,
            seq: self.seq,
            pending: match self.pending {
                Some((header, pcm)) => Some((header@, pcm@)),
                None => None,
            },
        }
    }
}

/// Whether `request` is to encode what was `pending`.
pub open spec fn encodes_pending(
    request: Option<CodecRequest>,
    pending: Option<(Seq<u8>, Seq<i16>)>,
) -> bool {
    match (request, pending) {
        (Some(CodecRequest::Encode { header, pcm }), Some((h, p))) => header@ == h && pcm@ == p,
        (None, None) => true,
        _ => false,
    }
}

impl Transmission {
    pub open spec fn wf(self) -> bool {
        self@.txid < 128 && self@.seq < 16
    }

    pub fn new(txid: u8) -> (transmission: Self)
        requires
            txid < 128,
        ensures
            transmission.wf(),
            transmission@ == (TransmissionView { txid, seq: 0, pending: None }),
    {
        Transmission { txid, seq: 0, pending: None }
    }

    /// Takes the packet that waits to be encoded, for the codec to work on while
    /// the next one is captured.
    pub fn take_pending(&mut self) -> (request: Option<CodecRequest>)
        requires
            old(self).wf(),
        ensures
            final(self).wf(),
            final(self)@ == old(self)@.taken(),
            encodes_pending(request, old(self)@.pending),
            final(self)@.txid == old(self)@.txid,
            final(self)@.seq == old(self)@.seq,
            final(self)@.pending is None,
            request is Some <==> old(self)@.pending is Some,
            request matches Some(r) ==> (r matches CodecRequest::Encode { header, pcm } && header@
                == (old(self)@.pending->0).0 && pcm@ == (old(self)@.pending->0).1),
    {
        match self.pending.take() {
            Some((header, pcm)) => Some(CodecRequest::encode(header, pcm)),
            None => None,
        }
    }

    /// Takes in a captured packet of audio.
    pub fn captured(&mut self, pcm: Box<[i16]>)
        requires
            old(self).wf(),
        ensures
            final(self).wf(),
            final(self)@ == old(self)@.captured(pcm@),
            final(self)@.txid == old(self)@.txid,
            final(self)@.seq == (if old(self)@.seq == 15 {
                0
            } else {
                old(self)@.seq + 1
            }),
            final(self)@.pending matches Some(job) && job.1 == pcm@ && job.0.len() == 2 && job.0[0]
                * 256 + job.0[1] == old(self)@.txid * 16 + old(self)@.seq,
    {
        let header = voice_header(self.txid, self.seq);
        self.pending = Some((header, pcm));
        self.seq = (self.seq + 1) % 16;  // wrap at 16
    }

    /// PTT released: the last packet to encode, if there is one, and the
    /// header-only packet to send after it.
    pub fn finish(self) -> (last: (Option<CodecRequest>, TxRequest))
        requires
            self.wf(),
        ensures
            encodes_pending(last.0, self@.pending),
            packet_bytes(last.1.data) == spec_voice_header(self@.txid, self@.seq),
            packet_bytes(last.1.data).len() == 2,
            packet_bytes(last.1.data)[0] * 256 + packet_bytes(last.1.data)[1] == self@.txid * 16
                + self@.seq,
            last.0 is Some <==> self@.pending is Some,
            last.0 matches Some(r) ==> (r matches CodecRequest::Encode { header, pcm } && header@
                == (self@.pending->0).0 && pcm@ == (self@.pending->0).1),
    {
        let mut this = self;
        let header = voice_header(this.txid, this.seq);
        let request = this.take_pending();
        (request, TxRequest { data: packet_from(header.as_slice()) })
    }
}

/// One packet's worth of PCM being captured (FRAMES_PER_PACKET frames, 160ms).
pub struct Capture {
    pcm: Vec<i16>,
}

impl View for Capture {
    type V = Seq<i16>;

    closed spec fn view(&self) -> Seq<i16> {
        self.pcm@
    }
}

/// A frame as it is read from the mic: `count` samples, and silence after them.
pub open spec fn frame_read(mic: Mic, count: usize) -> Seq<i16> {
    Seq::new(
        CODEC2_FRAME_SAMPLES as nat,
        |i: int|
            if i < count {
                pcm_of(mic.buf@[i]) as i16
            } else {
                0
            },
    )
}

impl Capture {
    pub fn new() -> (capture: Self)
        ensures
            capture@ == Seq::<i16>::empty(),
    {
        Capture { pcm: Vec::new() }
    }

    /// Whether the packet is full.
    pub fn is_complete(&self) -> (complete: bool)
        ensures
            complete <==> self@.len() >= MONO_PACKET_SAMPLES,
            complete <==> self@.len() >= 1280,
    {
        self.pcm.len() >= MONO_PACKET_SAMPLES
    }

    /// Appends the frame that was just read from the mic.
    pub fn add_frame(&mut self, mic: &Mic, count: usize)
        requires
            mic.holds(count, CODEC2_FRAME_SAMPLES as nat),
        ensures
            final(self)@ == old(self)@ + frame_read(*mic, count),
            final(self)@.len() == old(self)@.len() + 320,
            final(self)@.take(old(self)@.len() as int) == old(self)@,
            forall|i: int|
                0 <= i < 320 && i < count ==> final(self)@[old(self)@.len() + i] == 16
                    * #[trigger] mic.buf@[i] - 32768,
            forall|i: int|
                count <= i < 320 ==> #[trigger] final(self)@.skip(old(self)@.len() as int)[i] == 0,
    {
        let mut frame: Vec<i16> = vec![0i16; CODEC2_FRAME_SAMPLES];
        mic.read(count, frame.as_mut_slice());
        assert(frame@ =~= frame_read(*mic, count));
        self.pcm.extend_from_slice(frame.as_slice());
        assert(self@ =~= old(self)@ + frame_read(*mic, count));
        assert(self@.take(old(self)@.len() as int) =~= old(self)@);
    }

    /// The captured audio.
    pub fn into_pcm(self) -> (pcm: Box<[i16]>)
        ensures
            pcm@ == self@,
    {
        into_boxed(self.pcm)
    }
}

/// The packet to send when the codec has answered: the one that it encoded.
pub fn packet_to_send(response: CodecResponse) -> (request: Option<TxRequest>)
    ensures
        match response {
            CodecResponse::Encoded { packet } => request matches Some(r) && r.data == packet,
            CodecResponse::Decoded { .. } => request is None,
        },
{
    match response {
        CodecResponse::Encoded { packet } => Some(TxRequest { data: packet }),
        CodecResponse::Decoded { .. } => None,
    }
}

/// Whether encoding and sending took longer than a packet's capture: that stalls
/// the pipeline, so the mic goes undrained.
pub fn stalls_capture(ms: u128) -> (stalls: bool)
    ensures
        stalls <==> ms > PACKET_MS,
        stalls <==> ms > 160,
{
    ms > PACKET_MS
}

/// A captured frame is the samples that were read, one by one and each in its place,
/// and silence where nothing was read: two samples that differ are heard to differ.
pub proof fn law_captured_frame_is_what_was_read(mic: Mic, count: usize, i: int, j: int)
    requires
        mic.holds(count, 320),
        0 <= i < 320,
        0 <= j < 320,
    ensures
        frame_read(mic, count).len() == 320,
        i < count ==> frame_read(mic, count)[i] == (mic.buf@[i] - 2048) * 16,
        i >= count ==> frame_read(mic, count)[i] == 0,
        i < count && j < count ==> frame_read(mic, count)[i] - frame_read(mic, count)[j] == 16 * (
        mic.buf@[i] - mic.buf@[j]),
{
    if i < count {
        assert(mic.buf@[i] <= crate::devices::mic::MAX_SAMPLE);
    }
    if j < count {
        assert(mic.buf@[j] <= crate::devices::mic::MAX_SAMPLE);
    }
}

/// A captured packet keeps its audio and gets the number that was next; the number after
/// it is one more, and 0 after 15; and what was captured is what is then taken, after
/// which nothing waits.
pub proof fn law_captured_packet_is_numbered_and_kept(t: TransmissionView, pcm: Seq<i16>)
    requires
        t.txid < 128,
        t.seq < 16,
    ensures
        t.captured(pcm).txid == t.txid,
        t.seq < 15 ==> t.captured(pcm).seq == t.seq + 1,
        t.seq == 15 ==> t.captured(pcm).seq == 0,
        t.captured(pcm).pending matches Some(job) && job.1 == pcm && job.0.len() == 2 && job.0[0]
            * 256 + job.0[1] == t.txid * 16 + t.seq,
        t.taken().pending is None,
        t.taken().txid == t.txid,
        t.taken().seq == t.seq,
{
    crate::packet::law_voice_header_layout(t.txid, t.seq, t.txid, t.seq);
}

/// What is handed to the codec is what was waiting, header and audio, and nothing where
/// nothing was.
pub proof fn law_codec_gets_what_was_waiting(
    request: Option<CodecRequest>,
    pending: Option<(Seq<u8>, Seq<i16>)>,
)
    requires
        encodes_pending(request, pending),
    ensures
        request is Some <==> pending is Some,
        request matches Some(r) ==> (r matches CodecRequest::Encode { header, pcm } && header@
            == (pending->0).0 && pcm@ == (pending->0).1),
{
}

} // verus!
