//! The handset: receiving and playing voice, push-to-talk, volume and settings.
//!
//! Times are nanoseconds of a clock that never runs backwards.

use vstd::prelude::*;

use crate::codec::{
    into_boxed, stereo, stereo_of, CodecRequest, CodecResponse, MONO_PACKET_SAMPLES, PAYLOAD_BYTES,
    STEREO_PACKET_SAMPLES,
};
use crate::devices::encoder::Event;
use crate::menu::{clicked, opened, rotated, Menu, Outcome, Setting};
use crate::packet::{
    packet_bytes, packet_from, packet_meaning, packet_slice, parse_packet, Packet, PacketView,
    RxPacket, TxRequest,
};
use crate::transmission::Transmission;

verus! {

/// Sequence numbers count packets modulo this.
pub const SEQ_COUNT: usize = 16;

/// A transmission is over when nothing has been heard of it for longer than this.
pub const RX_TIMEOUT_NS: u64 = 500_000_000;

/// Loudness at which the squelch tail starts.
pub const SQUELCH_AMPLITUDE: i32 = 8000;

/// Key under which the repeater setting is saved.
pub const REPEATER_KEY: &'static str = "repeater";

/// The sequence number after `seq`.
pub open spec fn next_seq(seq: u8) -> u8 {
    ((seq + 1) % 16) as u8
}

/// The sequence number before `seq`.
pub open spec fn prev_seq(seq: u8) -> u8 {
    ((seq + 15) % 16) as u8
}

/// How far `seq` is ahead of `expected` (negative: behind it), going round the
/// circle of 16 the shorter way.
pub open spec fn seq_distance(expected: u8, seq: u8) -> int {
    let ahead = (seq - expected) % 16;
    if ahead > 7 {
        ahead - 16
    } else {
        ahead
    }
}

/// Why a packet led to nothing.
#[derive(Debug, Clone, Copy, PartialEq, Eq, Structural)]
pub enum Ignored {
    /// Shorter than a header.
    TooShort,
    /// Not a voice packet.
    UnknownType,
    /// Neither an end of transmission nor a full voice packet.
    WrongSize,
    /// Of a transmission other than the one being received.
    OtherTransmission,
    /// Already played, or passed over.
    Old,
    /// Too far ahead or behind to make sense of; reception starts over.
    Unexpected,
}

/// What to do about a received packet.
pub enum RxAction {
    Ignore(Ignored),
    /// Relay the packet, where there is one to relay, then play the squelch tail.
    EndOfTransmission { relay: Option<TxRequest> },
    /// Send the packet on.
    Relay(TxRequest),
    /// Have the codec decode the payload, then pass its response to
    /// [`App::on_codec_response`].
    Decode(CodecRequest),
}

/// An [`RxAction`] with bytes as sequences.
pub ghost enum RxActionView {
    Ignore(Ignored),
    EndOfTransmission { relay: Option<Seq<u8>> },
    Relay(Seq<u8>),
    Decode { seq: u8, txid: u8, payload: Seq<u8> },
}

impl RxAction {
    /// Whether this is the action that `view` describes.
    pub open spec fn is(self, view: RxActionView) -> bool {
        match self {
            RxAction::Ignore(why) => view == RxActionView::Ignore(why),
            RxAction::EndOfTransmission { relay } => view == (RxActionView::EndOfTransmission {
                relay: match relay {
                    Some(request) => Some(packet_bytes(request.data)),
                    None => None,
                },
            }),
            RxAction::Relay(request) => view == RxActionView::Relay(packet_bytes(request.data)),
            RxAction::Decode(request) => request matches CodecRequest::Decode { seq, txid, payload }
                && view == (RxActionView::Decode { seq, txid, payload: payload@ }),
        }
    }
}

impl RxAction {
    /// Whether a packet that led to this action is displayed: voice that is new here.
    pub open spec fn is_displayed(self) -> bool {
        self is Decode || self is Relay
    }
}

impl RxActionView {
    /// Whether a packet that led to this action is displayed.
    pub open spec fn is_displayed(self) -> bool {
        self is Decode || self is Relay
    }
}

/// What the speaker gets when it asks for more.
pub enum SpeakerReply {
    /// The next packet.
    Play(Box<[i16]>),
    /// A packet of silence: the next packet is missing.
    Silence,
    /// Nothing: nobody is transmitting.
    Nothing,
}

/// What a turn or click of the knob is for while no menu is open.
#[derive(Debug, Clone, Copy, PartialEq, Eq, Structural)]
pub enum Knob {
    OpenMenu,
    ChangeVolume(i8),
}

/// What came of an event while the menu is open.
#[derive(Debug, Clone, Copy, PartialEq, Eq)]
pub enum MenuStep {
    /// Nothing but a change on the screen.
    Stay,
    /// A value to save under a key, so that it survives a reboot.
    Save(&'static str, u8),
    /// The menu has been left.
    Leave,
}

pub struct App {
    mac_str: String,
    silence: Box<[i16]>,
    squelch: Box<[i16]>,
    // Track current transmitter for seq ordering
    cur_txid: Option<u8>,
    last_played_seq: u8,
    seq_buf: [Option<Box<[i16]>>; SEQ_COUNT],
    last_rx_time: u64,
    spk_active: bool,  // true once speaker has been kicked
    locked: bool,  // PTT ignored; the menu still opens, so it can be unlocked
    repeater: bool,
}

/// The state of an [`App`], with audio as sequences.
#[verifier::ext_equal]
pub ghost struct AppView {
    pub mac: Seq<char>,
    pub silence: Seq<i16>,
    pub squelch: Seq<i16>,
    pub cur_txid: Option<u8>,
    pub last_played_seq: u8,
    pub seq_buf: Seq<Option<Seq<i16>>>,
    pub last_rx_time: u64,
    pub spk_active: bool,
    pub locked: bool,
    pub repeater: bool,
}

/// No packet buffered.
pub open spec fn empty_buf() -> Seq<Option<Seq<i16>>> {
    Seq::new(SEQ_COUNT as nat, |i: int| None)
}

impl AppView {
    pub open spec fn wf(self) -> bool {
        &&& self.silence.len() == STEREO_PACKET_SAMPLES
        &&& self.squelch.len() == STEREO_PACKET_SAMPLES
        &&& self.cur_txid matches Some(txid) ==> txid < 128
        &&& self.last_played_seq < SEQ_COUNT
        &&& self.seq_buf.len() == SEQ_COUNT
    }

    /// Reception started over: nobody is being received.
    pub open spec fn reset(self) -> AppView {
        AppView { cur_txid: None, last_played_seq: 0, seq_buf: empty_buf(), ..self }
    }

    /// Reception started over, with the speaker at rest.
    pub open spec fn silenced(self) -> AppView {
        AppView { spk_active: false, ..self.reset() }
    }

    /// Whether the transmission being received has gone quiet for too long.
    pub open spec fn timed_out(self, now: u64) -> bool {
        self.cur_txid is Some && now - self.last_rx_time > RX_TIMEOUT_NS
    }

    /// A receiver that is free follows the first transmission it hears, from the
    /// packet that it hears first.
    pub open spec fn following(self, txid: u8, seq: u8) -> AppView {
        if self.cur_txid is None {
            AppView { cur_txid: Some(txid), last_played_seq: prev_seq(seq), ..self }
        } else {
            self
        }
    }

    /// What a voice packet does.
    pub open spec fn after_voice(
        self,
        data: Seq<u8>,
        txid: u8,
        seq: u8,
        payload: Seq<u8>,
        now: u64,
    ) -> (AppView, RxActionView) {
        let following = self.following(txid, seq);
        let heard = AppView { last_rx_time: now, ..following };
        let distance = seq_distance(next_seq(following.last_played_seq), seq);
        if following.cur_txid != Some(txid) {
            (self, RxActionView::Ignore(Ignored::OtherTransmission))
        } else if -2 <= distance < 0 {
            (heard, RxActionView::Ignore(Ignored::Old))
        } else if !(0 <= distance <= 2) {
            (heard.reset(), RxActionView::Ignore(Ignored::Unexpected))
        } else if self.repeater {
            (AppView { last_played_seq: seq, ..heard }, RxActionView::Relay(data))
        } else {
            (heard, RxActionView::Decode { seq, txid, payload })
        }
    }

    /// What a received packet does.
    pub open spec fn after_rx(self, data: Seq<u8>, now: u64) -> (AppView, RxActionView) {
        match packet_meaning(data) {
            PacketView::TooShort => (self, RxActionView::Ignore(Ignored::TooShort)),
            PacketView::UnknownType(_) => (self, RxActionView::Ignore(Ignored::UnknownType)),
            PacketView::EndOfTransmission { .. } => (
                self.silenced(),
                RxActionView::EndOfTransmission {
                    relay: if self.repeater {
                        Some(data)
                    } else {
                        None
                    },
                },
            ),
            PacketView::WrongSize => (self, RxActionView::Ignore(Ignored::WrongSize)),
            PacketView::Voice { txid, seq, payload } => self.after_voice(
                data,
                txid,
                seq,
                payload,
                now,
            ),
        }
    }

    /// The packet that is up next, taken out of the buffer to be played.
    pub open spec fn playing_next(self) -> AppView {
        let next = next_seq(self.last_played_seq);
        AppView {
            last_played_seq: next,
            seq_buf: self.seq_buf.update(next as int, None),
            ..self
        }
    }

    /// The packet that is up next, if it has arrived.
    pub open spec fn up_next(self) -> Option<Seq<i16>> {
        self.seq_buf[next_seq(self.last_played_seq) as int]
    }

    /// A packet put into the buffer.
    pub open spec fn buffering(self, seq: u8, pcm: Seq<i16>) -> AppView {
        AppView { seq_buf: self.seq_buf.update(seq as int, Some(pcm)), ..self }
    }

    /// Whether the next two packets are there and the speaker is still at rest.
    pub open spec fn ready_to_start(self) -> bool {
        let next = next_seq(self.last_played_seq);
        &&& !self.spk_active
        &&& self.seq_buf[next as int] is Some
        &&& self.seq_buf[next_seq(next) as int] is Some
    }

    /// What a decoded packet does, and what there is to play.
    pub open spec fn after_decoded(self, seq: u8, txid: u8, pcm: Seq<i16>) -> (
        AppView,
        Option<Seq<i16>>,
    ) {
        let buffered = self.buffering(seq, pcm);
        if self.cur_txid != Some(txid) {
            (self, None)
        } else if buffered.ready_to_start() {
            (AppView { spk_active: true, ..buffered.playing_next() }, buffered.up_next())
        } else {
            (buffered, None)
        }
    }

    /// What a request of the speaker does to the state.
    pub open spec fn after_speaker_request(self) -> AppView {
        if self.up_next() is Some {
            self.playing_next()
        } else {
            self
        }
    }

    /// The state with a setting changed.
    pub open spec fn with_setting(self, setting: Setting, value: bool) -> AppView {
        match setting {
            Setting::Lock => AppView { locked: value, ..self },
            Setting::Repeater => AppView { repeater: value, ..self },
        }
    }

    pub open spec fn setting(self, setting: Setting) -> bool {
        match setting {
            Setting::Lock => self.locked,
            Setting::Repeater => self.repeater,
        }
    }
}

/// Byte under which a setting is saved.
pub open spec fn saved_byte(value: bool) -> u8 {
    if value {
        1
    } else {
        0
    }
}

/// Loudness of the squelch tail at sample `i`: fading out evenly.
pub open spec fn squelch_fade(i: int) -> int {
    (MONO_PACKET_SAMPLES - i) * SQUELCH_AMPLITUDE / MONO_PACKET_SAMPLES as int
}

/// The squelch tail that a run of random numbers gives: noise around 0, each
/// sample within the loudness at its place.
pub open spec fn squelch_of(random: Seq<u32>) -> Seq<i16> {
    stereo_of(
        Seq::new(
            MONO_PACKET_SAMPLES as nat,
            |i: int| (random[i] as int % (2 * squelch_fade(i) + 1) - squelch_fade(i)) as i16,
        ),
    )
}

/// Generate 160ms squelch tail (white noise with fade-out), packet-sized.
pub fn generate_squelch(random: &[u32]) -> (squelch: Box<[i16]>)
    requires
        random@.len() >= MONO_PACKET_SAMPLES,
    ensures
        squelch@ == squelch_of(random@),
        squelch@.len() == STEREO_PACKET_SAMPLES,
        squelch@.len() == 2560,
        forall|i: int|
            0 <= i < 1280 ==> squelch@[2 * i] == (#[trigger] random@[i]) as int % (2 * ((1280 - i) * 25 / 4)
                + 1) - (1280 - i) * 25 / 4 && squelch@[2 * i + 1] == squelch@[2 * i],
        forall|i: int|
            0 <= i < STEREO_PACKET_SAMPLES ==> -squelch_fade(i / 2) <= #[trigger] squelch@[i]
                <= squelch_fade(i / 2),
{
    let mut mono: Vec<i16> = Vec::new();
    let mut i: usize = 0;
    while i < MONO_PACKET_SAMPLES
        invariant
            i <= MONO_PACKET_SAMPLES,
            random@.len() >= MONO_PACKET_SAMPLES,
            mono@.len() == i,
            forall|j: int|
                0 <= j < i ==> #[trigger] mono@[j] == random@[j] as int % (2 * squelch_fade(j) + 1)
                    - squelch_fade(j),
            forall|j: int|
                0 <= j < i ==> -squelch_fade(j) <= #[trigger] mono@[j] <= squelch_fade(j),
        decreases MONO_PACKET_SAMPLES - i,
    {
        let fade: i32 = (MONO_PACKET_SAMPLES - i) as i32 * SQUELCH_AMPLITUDE
            / MONO_PACKET_SAMPLES as i32;
        assert(fade == squelch_fade(i as int));
        let noise: i16 = ((random[i] % (2 * fade as u32 + 1)) as i32 - fade) as i16;
        mono.push(noise);
        i += 1;
    }
    let squelch = into_boxed(stereo(mono.as_slice()));
    proof {
        lemma_squelch_samples(mono@, random@, squelch@);
    }
    squelch
}

proof fn lemma_squelch_samples(mono: Seq<i16>, random: Seq<u32>, squelch: Seq<i16>)
    requires
        random.len() >= MONO_PACKET_SAMPLES,
        mono.len() == MONO_PACKET_SAMPLES,
        squelch == stereo_of(mono),
        forall|j: int|
            0 <= j < MONO_PACKET_SAMPLES ==> #[trigger] mono[j] == random[j] as int % (2
                * squelch_fade(j) + 1) - squelch_fade(j),
        forall|j: int|
            0 <= j < MONO_PACKET_SAMPLES ==> -squelch_fade(j) <= #[trigger] mono[j]
                <= squelch_fade(j),
    ensures
        squelch == squelch_of(random),
        squelch.len() == 2560,
        forall|i: int|
            0 <= i < 1280 ==> squelch[2 * i] == (#[trigger] random[i]) as int % (2 * ((1280 - i) * 25
                / 4) + 1) - (1280 - i) * 25 / 4 && squelch[2 * i + 1] == squelch[2 * i],
        forall|i: int|
            0 <= i < STEREO_PACKET_SAMPLES ==> -squelch_fade(i / 2) <= #[trigger] squelch[i]
                <= squelch_fade(i / 2),
{
    assert(squelch =~= squelch_of(random));
    assert forall|i: int| 0 <= i < 1280 implies squelch[2 * i] == (#[trigger] random[i]) as int % (2
        * ((1280 - i) * 25 / 4) + 1) - (1280 - i) * 25 / 4 && squelch[2 * i + 1] == squelch[2
        * i] by {
        assert(squelch[2 * i] == mono[i] && squelch[2 * i + 1] == mono[i]);
        assert(squelch_fade(i) == (1280 - i) * 25 / 4);
    }
    assert forall|i: int| 0 <= i < STEREO_PACKET_SAMPLES implies -squelch_fade(i / 2)
        <= #[trigger] squelch[i] <= squelch_fade(i / 2) by {
        assert(squelch[i] == mono[i / 2]);
    }
}

/// The repeater setting that a saved byte stands for.
pub open spec fn restored_repeater(saved: Option<u8>) -> bool {
    saved matches Some(byte) && byte != 0
}

/// The repeater setting that was saved: unless something other than 0 was saved,
/// the device is no repeater.
pub fn stored_repeater(saved: Option<u8>) -> (repeater: bool)
    ensures
        repeater == restored_repeater(saved),
{
    match saved {
        Some(value) => value != 0,
        None => false,
    }
}

/// What a turn or click of the knob is for while no menu is open.
pub fn knob(event: Event) -> (knob: Knob)
    ensures
        knob == (match event {
            Event::Click => Knob::OpenMenu,
            Event::Cw => Knob::ChangeVolume(1),
            Event::Ccw => Knob::ChangeVolume(-1i8),
        }),
{
    match event {
        Event::Click => Knob::OpenMenu,
        Event::Cw => Knob::ChangeVolume(1),
        Event::Ccw => Knob::ChangeVolume(-1),
    }
}

impl View for App {
    type V = AppView;

    closed spec fn view(&self) -> AppView {
        AppView {
            mac: self.mac_str@,
            silence: self.silence@,
            squelch: self.squelch@,
            cur_txid: self.cur_txid,
            last_played_seq: self.last_played_seq,
            seq_buf: self.seq_buf@.map_values(
                |slot: Option<Box<[i16]>>|
                    match slot {
                        Some(pcm) => Some(pcm@),
                        None => None,
                    },
            ),
            last_rx_time: self.last_rx_time,
            spk_active: self.spk_active,
            locked: self.locked,
            repeater: self.repeater,
        }
    }
}

impl App {
    /// A handset at rest: listening, unlocked.
    pub fn new(mac_str: String, repeater: bool, random: &[u32], now: u64) -> (app: Self)
        requires
            random@.len() >= MONO_PACKET_SAMPLES,
        ensures
            app@.wf(),
            app@ == (AppView {
                mac: mac_str@,
                silence: Seq::new(STEREO_PACKET_SAMPLES as nat, |i: int| 0i16),
                squelch: squelch_of(random@),
                cur_txid: None,
                last_played_seq: 0,
                seq_buf: empty_buf(),
                last_rx_time: now,
                spk_active: false,
                locked: false,
                repeater,
            }),
    {
        let app = App {
            mac_str,
            silence: into_boxed(vec![0i16; STEREO_PACKET_SAMPLES]),
            squelch: generate_squelch(random),
            cur_txid: None,
            last_played_seq: 0,
            seq_buf: [
                None,
                None,
                None,
                None,
                None,
                None,
                None,
                None,
                None,
                None,
                None,
                None,
                None,
                None,
                None,
                None,
            ],
            last_rx_time: now,
            spk_active: false,
            locked: false,
            repeater,
        };
        assert(app@.silence =~= Seq::new(STEREO_PACKET_SAMPLES as nat, |i: int| 0i16));
        assert(app@.seq_buf =~= empty_buf());
        app
    }

    /// Ends a reception of which nothing has been heard for too long. The answer
    /// says whether it was ended: then the squelch tail is to be played.
    pub fn check_timeout(&mut self, now: u64) -> (expired: bool)
        requires
            old(self)@.wf(),
        ensures
            final(self)@.wf(),
            expired <==> old(self)@.timed_out(now),
            final(self)@ == (if expired {
                old(self)@.silenced()
            } else {
                old(self)@
            }),
    {
        let elapsed = now.saturating_sub(self.last_rx_time);
        if self.cur_txid.is_some() && elapsed > RX_TIMEOUT_NS {
            self.reset_rx_state();
            self.spk_active = false;
            true
        } else {
            false
        }
    }

    /// Whether push-to-talk is heeded.
    pub fn ptt_enabled(&self) -> (enabled: bool)
        ensures
            enabled <==> !self@.locked,
    {
        !self.locked
    }

    /// A packet came in.
    pub fn on_rx_packet(&mut self, rx_pkt: &RxPacket, now: u64) -> (action: RxAction)
        requires
            old(self)@.wf(),
        ensures
            final(self)@.wf(),
            final(self)@ == old(self)@.after_rx(packet_bytes(rx_pkt.data), now).0,
            action.is(old(self)@.after_rx(packet_bytes(rx_pkt.data), now).1),
            final(self)@.repeater == old(self)@.repeater,
            final(self)@.locked == old(self)@.locked,
            action matches RxAction::Relay(request) ==> packet_bytes(request.data) == packet_bytes(
                rx_pkt.data,
            ),
            action matches RxAction::EndOfTransmission { relay: Some(request) } ==> packet_bytes(
                request.data,
            ) == packet_bytes(rx_pkt.data),
            action matches RxAction::Decode(request) ==> (request matches CodecRequest::Decode {
                seq,
                txid,
                payload,
            } && packet_bytes(rx_pkt.data).len() == 26 && txid == packet_bytes(rx_pkt.data)[0] * 16
                + packet_bytes(rx_pkt.data)[1] / 16 && seq == packet_bytes(rx_pkt.data)[1] % 16
                && payload@ == packet_bytes(rx_pkt.data).subrange(2, 26)),
    {
        proof {
            crate::packet::law_packet_is_read_by_bytes(packet_bytes(rx_pkt.data));
        }
        let data = packet_slice(&rx_pkt.data);
        match parse_packet(data) {
            Packet::TooShort => RxAction::Ignore(Ignored::TooShort),
            Packet::UnknownType(_) => RxAction::Ignore(Ignored::UnknownType),
            Packet::EndOfTransmission { .. } => {
                // relay if repeater, then squelch
                let relay = if self.repeater {
                    Some(TxRequest { data: packet_from(data) })
                } else {
                    None
                };
                self.reset_rx_state();
                self.spk_active = false;
                RxAction::EndOfTransmission { relay }
            },
            Packet::WrongSize => RxAction::Ignore(Ignored::WrongSize),
            Packet::Voice { txid, seq, payload } => {
                assert(txid < 128 && seq < 16) by {
                    crate::packet::law_header_fields_in_range(data@);
                }
                self.on_voice(data, txid, seq, payload, now)
            },
        }
    }

    fn on_voice(
        &mut self,
        data: &[u8],
        txid: u8,
        seq: u8,
        payload: [u8; PAYLOAD_BYTES],
        now: u64,
    ) -> (action: RxAction)
        requires
            old(self)@.wf(),
            data@.len() <= 255,
            txid < 128,
            seq < 16,
        ensures
            final(self)@.wf(),
            final(self)@ == old(self)@.after_voice(data@, txid, seq, payload@, now).0,
            action.is(old(self)@.after_voice(data@, txid, seq, payload@, now).1),
    {
        if self.cur_txid.is_none() {
            self.cur_txid = Some(txid);
            self.last_played_seq = before(seq);
        }
        if let Some(current) = self.cur_txid {
            if current != txid {
                return RxAction::Ignore(Ignored::OtherTransmission);
            }
        }
        self.last_rx_time = now;
        let expected = after(self.last_played_seq);
        let diff = distance(expected, seq);
        if -2 <= diff && diff <= -1 {
            return RxAction::Ignore(Ignored::Old);
        }
        if 0 <= diff && diff <= 2 {
            // Repeater: relay after dedup (non-duplicate voice)
            if self.repeater {
                self.last_played_seq = seq;
                return RxAction::Relay(TxRequest { data: packet_from(data) });
            }
            return RxAction::Decode(CodecRequest::decode(seq, txid, payload));
        }
        self.reset_rx_state();
        RxAction::Ignore(Ignored::Unexpected)
    }

    /// Buffers what the codec decoded. The answer is the packet to play, if it is
    /// time to start the speaker: once there are 2 consecutive packets.
    pub fn on_codec_response(&mut self, response: CodecResponse) -> (play: Option<Box<[i16]>>)
        requires
            old(self)@.wf(),
            response matches CodecResponse::Decoded { seq, txid, pcm } ==> old(self)@.cur_txid
                == Some(txid) ==> seq < SEQ_COUNT,
        ensures
            final(self)@.wf(),
            match response {
                CodecResponse::Encoded { .. } => final(self)@ == old(self)@ && play is None,
                CodecResponse::Decoded { seq, txid, pcm } => {
                    let outcome = old(self)@.after_decoded(seq, txid, pcm@);
                    &&& final(self)@ == outcome.0
                    &&& match play {
                        Some(packet) => outcome.1 == Some(packet@),
                        None => outcome.1 is None,
                    }
                },
            },
    {
        match response {
            CodecResponse::Encoded { .. } => None,
            CodecResponse::Decoded { seq, txid, pcm } => {
                match self.cur_txid {
                    Some(current) => {
                        if current != txid {
                            return None;
                        }
                    },
                    None => {
                        return None;
                    },
                }
                let ghost samples = pcm@;
                self.seq_buf[seq as usize] = Some(pcm);
                assert(self@.seq_buf =~= old(self)@.buffering(seq, samples).seq_buf);
                assert(self@ == old(self)@.buffering(seq, samples));
                if !self.spk_active {
                    let next = after(self.last_played_seq);
                    let next2 = after(next);
                    if self.seq_buf[next as usize].is_some()
                        && self.seq_buf[next2 as usize].is_some() {
                        let play = self.take_next();
                        self.spk_active = true;
                        return play;
                    }
                }
                None
            },
        }
    }

    /// Takes the packet that is up next out of the buffer, if it is there.
    fn take_next(&mut self) -> (play: Option<Box<[i16]>>)
        requires
            old(self)@.wf(),
        ensures
            final(self)@.wf(),
            final(self)@ == old(self)@.after_speaker_request(),
            match play {
                Some(packet) => old(self)@.up_next() == Some(packet@),
                None => old(self)@.up_next() is None,
            },
    {
        let next = after(self.last_played_seq);
        match self.seq_buf[next as usize].take() {
            Some(pcm) => {
                self.last_played_seq = next;
                assert(self@.seq_buf =~= old(self)@.playing_next().seq_buf);
                Some(pcm)
            },
            None => {
                assert(self@.seq_buf =~= old(self)@.seq_buf);
                None
            },
        }
    }

    /// Speaker wants next audio.
    pub fn on_speaker_request(&mut self) -> (reply: SpeakerReply)
        requires
            old(self)@.wf(),
        ensures
            final(self)@.wf(),
            final(self)@ == old(self)@.after_speaker_request(),
            match reply {
                SpeakerReply::Play(packet) => old(self)@.up_next() == Some(packet@),
                SpeakerReply::Silence => old(self)@.up_next() is None && old(self)@.cur_txid is Some,
                SpeakerReply::Nothing => old(self)@.up_next() is None && old(self)@.cur_txid is None,
            },
    {
        if let Some(pcm) = self.take_next() {
            SpeakerReply::Play(pcm)
        } else if self.cur_txid.is_some() {
            // Gap — send silence
            SpeakerReply::Silence
        } else {
            SpeakerReply::Nothing
        }
    }

    /// PTT pressed: reception is dropped, and a transmission starts under a random
    /// 7-bit id (dedup key).
    pub fn on_ptt(&mut self, random: u32) -> (transmission: Transmission)
        requires
            old(self)@.wf(),
        ensures
            final(self)@.wf(),
            final(self)@ == old(self)@.silenced(),
            transmission.wf(),
            transmission@.txid == random % 128,
            transmission@.seq == 0,
            transmission@.pending is None,
    {
        self.reset_rx_state();
        self.spk_active = false;
        assert(random & 0x7F == random % 128) by (bit_vector);
        Transmission::new((random & 0x7F) as u8)
    }

    /// The volume after a turn of the knob, and whether to redraw the screen for
    /// it: mid-reception the next packet does.
    pub fn change_volume(&self, volume: u8, max_volume: u8, delta: i8) -> (res: (u8, bool))
        ensures
            res.0 == (if volume + delta < 0 {
                0
            } else if volume + delta > max_volume {
                max_volume as int
            } else {
                volume + delta
            }),
            res.1 <==> self@.cur_txid is None,
    {
        let wanted: i16 = volume as i16 + delta as i16;
        let level: u8 = if wanted < 0 {
            0
        } else if wanted > max_volume as i16 {
            max_volume
        } else {
            wanted as u8
        };
        (level, self.cur_txid.is_none())
    }

    /// Opens the menu. Menu mode is only menuing: audio and RX stop until we
    /// leave, and PTT is ignored.
    pub fn open_menu(&mut self) -> (menu: Menu)
        requires
            old(self)@.wf(),
        ensures
            final(self)@.wf(),
            final(self)@ == old(self)@.silenced(),
            menu.wf(),
            opened(menu@),
    {
        self.reset_rx_state();
        self.spk_active = false;
        Menu::new()
    }

    /// One turn or click in the menu.
    pub fn on_menu_event(&mut self, menu: &mut Menu, event: Event) -> (step: MenuStep)
        requires
            old(self)@.wf(),
            old(menu).wf(),
        ensures
            final(self)@.wf(),
            event == Event::Cw ==> final(menu)@ == rotated(old(menu)@, 1) && final(self)@
                == old(self)@ && step is Stay,
            event == Event::Ccw ==> final(menu)@ == rotated(old(menu)@, -1) && final(self)@
                == old(self)@ && step is Stay,
            event == Event::Click ==> final(menu)@ == clicked(old(menu)@).0 && (match clicked(
                old(menu)@,
            ).1 {
                Outcome::Stay => final(self)@ == old(self)@ && step is Stay,
                Outcome::Exit => final(self)@ == old(self)@ && step is Leave,
                Outcome::SetTo(setting, value) => {
                    &&& final(self)@ == old(self)@.with_setting(setting, value)
                    &&& match step {
                        MenuStep::Stay => setting == Setting::Lock,
                        MenuStep::Save(key, byte) => setting == Setting::Repeater && key@
                            == REPEATER_KEY@ && byte == saved_byte(value),
                        MenuStep::Leave => false,
                    }
                },
            }),
            !(step is Leave) <==> final(menu).wf(),
    {
        match event {
            Event::Cw => {
                menu.rotate(1);
                MenuStep::Stay
            },
            Event::Ccw => {
                menu.rotate(-1);
                MenuStep::Stay
            },
            Event::Click => match menu.click() {
                Outcome::Stay => MenuStep::Stay,
                Outcome::Exit => MenuStep::Leave,
                Outcome::SetTo(setting, value) => match self.apply(setting, value) {
                    Some((key, byte)) => MenuStep::Save(key, byte),
                    None => MenuStep::Stay,
                },
            },
        }
    }

    /// Changes a setting. The answer is what to save, and under which key, for the
    /// setting to survive a reboot.
    pub fn apply(&mut self, setting: Setting, value: bool) -> (save: Option<(&'static str, u8)>)
        requires
            old(self)@.wf(),
        ensures
            final(self)@.wf(),
            final(self)@ == old(self)@.with_setting(setting, value),
            match save {
                None => setting == Setting::Lock,
                Some((key, byte)) => setting == Setting::Repeater && key@ == REPEATER_KEY@ && byte
                    == saved_byte(value),
            },
    {
        match setting {
            Setting::Lock => {
                self.locked = value;
                None
            },
            Setting::Repeater => {
                self.repeater = value;
                Some(
                    (
                        REPEATER_KEY,
                        if value {
                            1
                        } else {
                            0
                        },
                    ),
                )
            },
        }
    }

    pub fn setting(&self, setting: Setting) -> (value: bool)
        ensures
            value == self@.setting(setting),
    {
        match setting {
            Setting::Lock => self.locked,
            Setting::Repeater => self.repeater,
        }
    }

    fn reset_rx_state(&mut self)
        requires
            old(self)@.wf(),
        ensures
            final(self)@.wf(),
            final(self)@ == old(self)@.reset(),
    {
        self.cur_txid = None;
        self.last_played_seq = 0;
        let mut i: usize = 0;
        while i < SEQ_COUNT
            invariant
                i <= SEQ_COUNT,
                self@ == (AppView { seq_buf: self@.seq_buf, ..old(self)@.reset() }),
                self@.seq_buf.len() == SEQ_COUNT,
                forall|j: int| 0 <= j < i ==> self@.seq_buf[j] is None,
            decreases SEQ_COUNT - i,
        {
            let ghost earlier = self@.seq_buf;
            self.seq_buf[i] = None;
            assert(self@.seq_buf =~= earlier.update(i as int, None));
            i += 1;
        }
        assert(self@.seq_buf =~= empty_buf());
    }

    /// Text of the MAC address, for the screens.
    pub fn mac_str(&self) -> (text: &str)
        ensures
            text@ == self@.mac,
    {
        self.mac_str.as_str()
    }

    /// One packet of silence.
    pub fn silence(&self) -> (packet: &[i16])
        ensures
            packet@ == self@.silence,
    {
        &self.silence
    }

    /// The squelch tail, one packet long.
    pub fn squelch(&self) -> (packet: &[i16])
        ensures
            packet@ == self@.squelch,
    {
        &self.squelch
    }
}

/// How far `seq` is ahead of `expected`, or behind it.
fn distance(expected: u8, seq: u8) -> (diff: i8)
    requires
        expected < 16,
        seq < 16,
    ensures
        diff == seq_distance(expected, seq),
{
    let ahead: i8 = (seq as i8 + 16 - expected as i8) % 16;
    if ahead > 7 {
        ahead - 16
    } else {
        ahead
    }
}

/// The sequence number after `seq`.
fn after(seq: u8) -> (next: u8)
    requires
        seq < 16,
    ensures
        next == next_seq(seq),
        next < 16,
{
    (seq + 1) % 16
}

/// The sequence number before `seq`.
fn before(seq: u8) -> (prev: u8)
    requires
        seq < 16,
    ensures
        prev == prev_seq(seq),
        prev < 16,
{
    (seq + 15) % 16
}

} // verus!
