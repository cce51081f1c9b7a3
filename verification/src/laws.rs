//! What holds of whole conversations: of a transmission from the button to the
//! loudspeaker, of what a repeater sends on, and of the settings.

use vstd::prelude::*;

use crate::app::{
    empty_buf, next_seq, restored_repeater, saved_byte, seq_distance, squelch_fade, AppView,
    Ignored, RxAction, RxActionView, SQUELCH_AMPLITUDE,
};
use crate::codec::{MONO_PACKET_SAMPLES, PAYLOAD_BYTES};
use crate::menu::Setting;
use crate::packet::{
    law_header_alone_ends_transmission, law_voice_packet_round_trip, packet_meaning,
    spec_voice_header, PacketView,
};
use crate::transmission::TransmissionView;

verus! {

/// A handset that is listening and follows nobody.
pub open spec fn listening(s: AppView) -> bool {
    &&& s.wf()
    &&& s.cur_txid is None
    &&& s.seq_buf == empty_buf()
    &&& !s.spk_active
    &&& !s.repeater
}

/// Whoever transmits first is followed: their packet, whatever its place in the
/// transmission, goes to the decoder with its payload as it was sent.
pub proof fn law_first_packet_is_decoded(
    s: AppView,
    txid: u8,
    seq: u8,
    payload: Seq<u8>,
    now: u64,
)
    requires
        s.wf(),
        s.cur_txid is None,
        !s.repeater,
        txid < 128,
        seq < 16,
        payload.len() == PAYLOAD_BYTES,
    ensures
        s.after_rx(spec_voice_header(txid, seq) + payload, now).1 == (RxActionView::Decode {
            seq,
            txid,
            payload,
        }),
        s.after_rx(spec_voice_header(txid, seq) + payload, now).0.cur_txid == Some(txid),
{
    law_voice_packet_round_trip(txid, seq, payload);
}

/// A received packet is displayed if and only if it is voice that is new: of the
/// transmission that is followed, or of the first one that is heard, and one of the
/// three packets that are up next. A repeater displays what it relays.
pub proof fn law_new_voice_is_displayed(s: AppView, data: Seq<u8>, now: u64, action: RxAction)
    requires
        s.wf(),
        action.is(s.after_rx(data, now).1),
    ensures
        action.is_displayed() == s.after_rx(data, now).1.is_displayed(),
        action.is_displayed() <==> (packet_meaning(data) matches PacketView::Voice {
            txid,
            seq,
            payload,
        } && s.following(txid, seq).cur_txid == Some(txid) && 0 <= seq_distance(
            next_seq(s.following(txid, seq).last_played_seq),
            seq,
        ) <= 2),
{
}

/// While one transmission is received, packets of any other change nothing.
pub proof fn law_other_transmissions_are_ignored(
    s: AppView,
    txid: u8,
    seq: u8,
    payload: Seq<u8>,
    now: u64,
)
    requires
        s.wf(),
        s.cur_txid is Some,
        s.cur_txid != Some(txid),
        txid < 128,
        seq < 16,
        payload.len() == PAYLOAD_BYTES,
    ensures
        s.after_rx(spec_voice_header(txid, seq) + payload, now) == (
            s,
            RxActionView::Ignore(Ignored::OtherTransmission),
        ),
{
    law_voice_packet_round_trip(txid, seq, payload);
}

/// The end of a transmission, or its timeout, leaves the handset free to follow
/// anyone, with nothing buffered and the speaker at rest.
pub proof fn law_end_of_transmission_frees(s: AppView, txid: u8, seq: u8, now: u64)
    requires
        s.wf(),
        txid < 128,
        seq < 16,
    ensures
        s.after_rx(spec_voice_header(txid, seq), now).0 == s.silenced(),
        s.silenced().cur_txid is None,
        s.silenced().seq_buf == empty_buf(),
        !s.silenced().spk_active,
        s.silenced().wf(),
        !s.repeater ==> listening(s.silenced()),
{
    law_header_alone_ends_transmission(txid, seq);
}

/// A repeater sends a voice packet on once: the same packet heard again right
/// after is dropped as old.
pub proof fn law_duplicate_is_not_relayed(s: AppView, data: Seq<u8>, now: u64, later: u64)
    requires
        s.wf(),
        packet_meaning(data) is Voice,
        s.after_rx(data, now).1 is Relay,
    ensures
        ({
            let relayed = s.after_rx(data, now).0;
            relayed.after_rx(data, later) == (
                AppView { last_rx_time: later, ..relayed },
                RxActionView::Ignore(Ignored::Old),
            )
        }),
{
}

/// What a repeater sends on is what it heard, byte for byte: voice packets that
/// are new to it, and the end of every transmission.
pub proof fn law_relay_is_verbatim(s: AppView, data: Seq<u8>, now: u64)
    requires
        s.wf(),
    ensures
        s.after_rx(data, now).1 matches RxActionView::Relay(sent) ==> sent == data && s.repeater,
        s.after_rx(data, now).1 matches RxActionView::EndOfTransmission { relay } ==> (if s.repeater {
            relay == Some(data)
        } else {
            relay is None
        }),
        s.repeater ==> !(s.after_rx(data, now).1 is Decode),
{
}

/// What keeps the buffer in order: it is empty while nobody is followed and in a
/// repeater, and otherwise holds nothing but the three packets that are up next.
pub open spec fn buffer_in_order(s: AppView) -> bool {
    &&& s.wf()
    &&& s.cur_txid is None ==> s.seq_buf == empty_buf()
    &&& s.repeater ==> s.seq_buf == empty_buf()
    &&& forall|i: int|
        0 <= i < 16 && (#[trigger] s.seq_buf[i]) is Some ==> 0 <= seq_distance(
            next_seq(s.last_played_seq),
            i as u8,
        ) <= 2
}

/// Whatever is received, decoded or asked for, the buffer stays in order; so it does
/// when reception is dropped, and when a setting is changed after that.
pub proof fn law_buffer_stays_in_order(
    s: AppView,
    data: Seq<u8>,
    now: u64,
    pcm: Seq<i16>,
    setting: Setting,
    value: bool,
)
    requires
        buffer_in_order(s),
    ensures
        buffer_in_order(s.after_rx(data, now).0),
        s.after_rx(data, now).1 matches RxActionView::Decode { seq, txid, payload }
            ==> buffer_in_order(s.after_rx(data, now).0.after_decoded(seq, txid, pcm).0),
        buffer_in_order(s.after_speaker_request()),
        buffer_in_order(s.silenced()),
        buffer_in_order(s.silenced().with_setting(setting, value)),
{
    crate::packet::law_header_fields_in_range(data);
    let received = s.after_rx(data, now).0;
    if let RxActionView::Decode { seq, txid, payload } = s.after_rx(data, now).1 {
        let buffered = received.buffering(seq, pcm);
        assert(0 <= seq_distance(next_seq(received.last_played_seq), seq) <= 2);
        assert(buffer_in_order(received));
        assert forall|i: int| 0 <= i < 16 && (#[trigger] buffered.seq_buf[i]) is Some implies 0
            <= seq_distance(next_seq(buffered.last_played_seq), i as u8) <= 2 by {
            if i != seq {
                assert(received.seq_buf[i] is Some);
            }
        }
        assert(buffer_in_order(buffered));
        lemma_playing_keeps_order(buffered);
    }
    lemma_playing_keeps_order(s);
}

proof fn lemma_playing_keeps_order(s: AppView)
    requires
        buffer_in_order(s),
    ensures
        s.up_next() is Some ==> buffer_in_order(s.playing_next()),
{
    if s.up_next() is Some {
        let next = next_seq(s.last_played_seq);
        let p = s.playing_next();
        assert forall|i: int| 0 <= i < 16 && (#[trigger] p.seq_buf[i]) is Some implies 0
            <= seq_distance(next_seq(p.last_played_seq), i as u8) <= 2 by {
            assert(s.seq_buf[i] is Some);
            assert(i != next);
        }
    }
}

/// What is played is the packet after the one that was played last: packets are
/// never played out of order, nor twice.
pub proof fn law_played_in_order(s: AppView, seq: u8, txid: u8, pcm: Seq<i16>)
    requires
        s.wf(),
        seq < 16,
    ensures
        s.up_next() is Some ==> s.after_speaker_request().last_played_seq == next_seq(
            s.last_played_seq,
        ) && s.after_speaker_request().seq_buf[next_seq(s.last_played_seq) as int] is None,
        s.up_next() is None ==> s.after_speaker_request() == s,
        ({
            let (after, play) = s.after_decoded(seq, txid, pcm);
            &&& play is Some ==> after.last_played_seq == next_seq(s.last_played_seq)
                && after.spk_active && !s.spk_active && play == s.buffering(seq, pcm).up_next()
            &&& play is None ==> after.last_played_seq == s.last_played_seq
        }),
{
}

/// A packet that was overtaken by the one after it is still played first.
pub proof fn law_swapped_packets_play_in_order(
    s: AppView,
    txid: u8,
    first: Seq<i16>,
    second: Seq<i16>,
)
    requires
        s.wf(),
        s.cur_txid == Some(txid),
        s.spk_active,
        s.seq_buf == empty_buf(),
    ensures
        ({
            let n1 = next_seq(s.last_played_seq);
            let n2 = next_seq(n1);
            let s1 = s.after_decoded(n2, txid, second).0;
            let s2 = s1.after_decoded(n1, txid, first).0;
            let s3 = s2.after_speaker_request();
            &&& s2.up_next() == Some(first)
            &&& s3.up_next() == Some(second)
            &&& s3.after_speaker_request().seq_buf == empty_buf()
        }),
{
    let n1 = next_seq(s.last_played_seq);
    let n2 = next_seq(n1);
    let s1 = s.after_decoded(n2, txid, second).0;
    let s2 = s1.after_decoded(n1, txid, first).0;
    let s3 = s2.after_speaker_request();
    assert(s3.after_speaker_request().seq_buf =~= empty_buf());
}

/// A voice packet received, and decoded to `pcm` if it is to be decoded: the state
/// after it, and what is played because of it.
#[verifier::opaque]
pub open spec fn heard_packet(
    s: AppView,
    txid: u8,
    seq: u8,
    payload: Seq<u8>,
    now: u64,
    pcm: Seq<i16>,
) -> (AppView, Seq<Seq<i16>>) {
    let (received, action) = s.after_rx(spec_voice_header(txid, seq) + payload, now);
    if action is Decode {
        let (decoded, play) = received.after_decoded(seq, txid, pcm);
        (
            decoded,
            match play {
                Some(packet) => seq![packet],
                None => seq![],
            },
        )
    } else {
        (received, seq![])
    }
}

/// The first `n` packets of a transmission heard one after the other, with the
/// speaker asking for more once after each packet from the third on: the state
/// after them, and what has been played.
pub open spec fn heard_stream(
    s: AppView,
    txid: u8,
    payloads: Seq<Seq<u8>>,
    pcms: Seq<Seq<i16>>,
    times: Seq<u64>,
    n: nat,
) -> (AppView, Seq<Seq<i16>>)
    decreases n,
{
    if n == 0 {
        (s, seq![])
    } else {
        let i = n - 1;
        let (before, played) = heard_stream(s, txid, payloads, pcms, times, i as nat);
        let (heard, started) = heard_packet(
            before,
            txid,
            (i % 16) as u8,
            payloads[i],
            times[i],
            pcms[i],
        );
        if i < 2 {
            (heard, played + started)
        } else {
            (
                heard.after_speaker_request(),
                match heard.up_next() {
                    Some(packet) => (played + started).push(packet),
                    None => played + started,
                },
            )
        }
    }
}

/// The buffer with a single packet in it.
pub open spec fn single_buf(seq: int, pcm: Seq<i16>) -> Seq<Option<Seq<i16>>> {
    empty_buf().update(seq, Some(pcm))
}

/// A steady transmission is played whole: a listening handset that hears every packet
/// of it, and whose speaker asks for more at the pace at which the packets come, plays
/// all of them but the one still waiting its turn, in the order in which they were
/// sent, each once, with no gap between them.
pub proof fn law_steady_transmission_is_played_whole(
    s: AppView,
    txid: u8,
    payloads: Seq<Seq<u8>>,
    pcms: Seq<Seq<i16>>,
    times: Seq<u64>,
    n: nat,
)
    requires
        listening(s),
        txid < 128,
        1 <= n <= pcms.len(),
        n <= payloads.len(),
        forall|i: int| 0 <= i < n ==> (#[trigger] payloads[i]).len() == PAYLOAD_BYTES,
    ensures
        ({
            let (after, played) = heard_stream(s, txid, payloads, pcms, times, n);
            &&& played == pcms.take(n - 1)
            &&& after.wf()
            &&& after.cur_txid == Some(txid)
            &&& after.spk_active == (n >= 2)
            &&& !after.repeater
            &&& after.last_played_seq == ((n + 14) % 16) as u8
            &&& after.seq_buf == single_buf((n - 1) % 16, pcms[n - 1])
            &&& after.up_next() == Some(pcms[n - 1])
        }),
    decreases n,
{
    let i = n - 1;
    let seq = (i % 16) as u8;
    if n == 1 {
        reveal_with_fuel(heard_stream, 2);
        lemma_first_packet(s, txid, payloads[0], times[0], pcms[0]);
        assert(seq![] + Seq::<Seq<i16>>::empty() =~= pcms.take(0));
    } else {
        law_steady_transmission_is_played_whole(s, txid, payloads, pcms, times, i as nat);
        let (before, earlier) = heard_stream(s, txid, payloads, pcms, times, i as nat);
        assert((i + 14) % 16 < 16 && ((i + 14) % 16 + 2) % 16 == i % 16 && ((i + 14) % 16 + 1) % 16
            == (i - 1) % 16 && (n + 14) % 16 == (i - 1) % 16);
        lemma_next_packet(before, txid, seq, payloads[i], times[i], pcms[i - 1], pcms[i], n >= 3);
        assert(pcms.take(n - 2).push(pcms[n - 2]) =~= pcms.take(n - 1));
        assert((pcms.take(n - 2) + seq![]).push(pcms[n - 2]) =~= pcms.take(n - 1));
        assert(pcms.take(n - 2) + seq![pcms[n - 2]] =~= pcms.take(n - 1));
    }
}

/// The first packet is followed and buffered.
proof fn lemma_first_packet(s: AppView, txid: u8, payload: Seq<u8>, now: u64, pcm: Seq<i16>)
    requires
        listening(s),
        txid < 128,
        payload.len() == PAYLOAD_BYTES,
    ensures
        ({
            let (after, played) = heard_packet(s, txid, 0, payload, now, pcm);
            &&& played == Seq::<Seq<i16>>::empty()
            &&& after.wf()
            &&& after.cur_txid == Some(txid)
            &&& !after.spk_active
            &&& !after.repeater
            &&& after.last_played_seq == 15
            &&& after.seq_buf == single_buf(0, pcm)
        }),
{
    reveal(heard_packet);
    law_voice_packet_round_trip(txid, 0, payload);
    let (after, played) = heard_packet(s, txid, 0, payload, now, pcm);
    assert(after.seq_buf =~= single_buf(0, pcm));
}

/// A packet that follows on a buffered one: the buffered one is played, at once if
/// the speaker is still at rest, and else when the speaker asks for it.
proof fn lemma_next_packet(
    s: AppView,
    txid: u8,
    seq: u8,
    payload: Seq<u8>,
    now: u64,
    waiting: Seq<i16>,
    pcm: Seq<i16>,
    speaking: bool,
)
    requires
        s.wf(),
        s.cur_txid == Some(txid),
        s.spk_active == speaking,
        !s.repeater,
        txid < 128,
        seq < 16,
        next_seq(next_seq(s.last_played_seq)) == seq,
        s.seq_buf == single_buf(next_seq(s.last_played_seq) as int, waiting),
        payload.len() == PAYLOAD_BYTES,
    ensures
        ({
            let (heard, started) = heard_packet(s, txid, seq, payload, now, pcm);
            let after = if speaking {
                heard.after_speaker_request()
            } else {
                heard
            };
            &&& started == (if speaking {
                seq![]
            } else {
                seq![waiting]
            })
            &&& speaking ==> heard.up_next() == Some(waiting)
            &&& after.wf()
            &&& after.cur_txid == Some(txid)
            &&& after.spk_active
            &&& !after.repeater
            &&& after.last_played_seq == next_seq(s.last_played_seq)
            &&& after.seq_buf == single_buf(seq as int, pcm)
            &&& after.up_next() == Some(pcm)
        }),
{
    reveal(heard_packet);
    law_voice_packet_round_trip(txid, seq, payload);
    let next = next_seq(s.last_played_seq);
    assert(next != seq && seq_distance(next, seq) == 1);
    let (received, action) = s.after_rx(spec_voice_header(txid, seq) + payload, now);
    assert(action == (RxActionView::Decode { seq, txid, payload }));
    let buffered = received.buffering(seq, pcm);
    assert(buffered.playing_next().seq_buf =~= single_buf(seq as int, pcm));
    assert(buffered.up_next() == Some(waiting));
}

/// What happens to a handset that receives a transmission.
pub ghost enum Happening {
    /// Packet `index` of the transmission is received, and decoded to `pcm` if it is to
    /// be decoded.
    Heard { index: int, payload: Seq<u8>, now: u64, pcm: Seq<i16> },
    /// The speaker asks for more.
    Asked,
}

impl Happening {
    /// Whether this is packet `index` being received, with `pcm` for its audio.
    pub open spec fn brings(self, index: int, pcm: Seq<i16>) -> bool {
        self matches Happening::Heard { index: i, pcm: p, .. } && i == index && p == pcm
    }

    /// Whether a packet that is received carries one packet of coded audio.
    pub open spec fn wf(self) -> bool {
        self matches Happening::Heard { payload, .. } ==> payload.len() == PAYLOAD_BYTES
    }
}

/// Sequence number of packet `index` of a transmission.
pub open spec fn seq_of(index: int) -> u8 {
    (index % 16) as u8
}

/// A handset that follows nobody and relays nothing.
pub open spec fn free(s: AppView) -> bool {
    &&& s.wf()
    &&& s.cur_txid is None
    &&& s.seq_buf == empty_buf()
    &&& !s.repeater
}

/// The state after the first `n` happenings, in whatever order packets and requests of
/// the speaker come, and what has been played.
pub open spec fn lived_through(s: AppView, txid: u8, events: Seq<Happening>, n: nat) -> (
    AppView,
    Seq<Seq<i16>>,
)
    decreases n,
{
    if n == 0 {
        (s, seq![])
    } else {
        let (before, played) = lived_through(s, txid, events, (n - 1) as nat);
        match events[n - 1] {
            Happening::Heard { index, payload, now, pcm } => {
                let (heard, started) = heard_packet(before, txid, seq_of(index), payload, now, pcm);
                (heard, played + started)
            },
            Happening::Asked => (
                before.after_speaker_request(),
                match before.up_next() {
                    Some(packet) => played.push(packet),
                    None => played,
                },
            ),
        }
    }
}

/// Index of the packet that was heard first.
pub open spec fn first_heard(events: Seq<Happening>, n: nat) -> Option<int>
    decreases n,
{
    if n == 0 {
        None
    } else {
        match first_heard(events, (n - 1) as nat) {
            Some(first) => Some(first),
            None => match events[n - 1] {
                Happening::Heard { index, .. } => Some(index),
                Happening::Asked => None,
            },
        }
    }
}

/// Whether happening `i` makes reception start over: a packet too far ahead or behind.
pub open spec fn starts_over(s: AppView, txid: u8, events: Seq<Happening>, i: int) -> bool {
    events[i] matches Happening::Heard { index, payload, now, .. } && lived_through(
        s,
        txid,
        events,
        i as nat,
    ).0.after_rx(spec_voice_header(txid, seq_of(index)) + payload, now).1 == RxActionView::Ignore(
        Ignored::Unexpected,
    )
}

/// Whether happening `i` is a packet that is not one of the three up next, but carries
/// the sequence number of one of them: 16 packets away, or a multiple of that.
pub open spec fn is_mistaken(s: AppView, txid: u8, events: Seq<Happening>, i: int) -> bool {
    match (events[i], first_heard(events, i as nat)) {
        (Happening::Heard { index, .. }, Some(first)) => {
            let ahead = index - (first + lived_through(s, txid, events, i as nat).1.len());
            0 <= ahead % 16 <= 2 && !(0 <= ahead <= 2)
        },
        _ => false,
    }
}

/// Whether `pcm` is what packet `index` was decoded to, one of the times it was heard.
pub open spec fn decoded_from(events: Seq<Happening>, n: nat, index: int, pcm: Seq<i16>) -> bool {
    exists|e: int| 0 <= e < n && (#[trigger] events[e]).brings(index, pcm)
}

/// A reception that is in step with the transmission: what has been played are the
/// packets from `first` on, one after the other, and what is buffered are packets of
/// the three that are up next, each in its place.
pub open spec fn in_step(
    s: AppView,
    txid: u8,
    first: int,
    played: Seq<Seq<i16>>,
    events: Seq<Happening>,
    n: nat,
) -> bool {
    let next = first + played.len();
    &&& s.wf()
    &&& !s.repeater
    &&& s.cur_txid == Some(txid)
    &&& s.last_played_seq == seq_of(next - 1)
    &&& forall|j: int|
        0 <= j < played.len() ==> decoded_from(events, n, first + j, #[trigger] played[j])
    &&& forall|slot: int|
        0 <= slot < 16 && (#[trigger] s.seq_buf[slot]) is Some ==> (slot - next) % 16 <= 2
            && decoded_from(events, n, next + (slot - next) % 16, s.seq_buf[slot]->0)
}

/// However receptions and requests of the speaker interleave, and whichever packets of
/// a transmission are lost, doubled or overtaken, what is played are its packets in
/// the order in which they were sent, from the one heard first, with none left out and
/// none twice; until a packet makes reception start over. Not covered is a packet so
/// far off that it is taken for another with the same sequence number.
pub proof fn law_transmission_is_played_in_order(
    s: AppView,
    txid: u8,
    events: Seq<Happening>,
    n: nat,
)
    requires
        free(s),
        txid < 128,
        n <= events.len(),
        forall|i: int| 0 <= i < n ==> (#[trigger] events[i]).wf(),
        forall|i: int| 0 <= i < n ==> !#[trigger] starts_over(s, txid, events, i),
        forall|i: int| 0 <= i < n ==> !#[trigger] is_mistaken(s, txid, events, i),
    ensures
        ({
            let (after, played) = lived_through(s, txid, events, n);
            match first_heard(events, n) {
                Some(first) => in_step(after, txid, first, played, events, n),
                None => after == s && played.len() == 0,
            }
        }),
    decreases n,
{
    if n > 0 {
        let i = (n - 1) as nat;
        law_transmission_is_played_in_order(s, txid, events, i);
        let (before, played) = lived_through(s, txid, events, i);
        assert(events[i as int].wf());
        assert(!starts_over(s, txid, events, i as int));
        assert(!is_mistaken(s, txid, events, i as int));
        match events[i as int] {
            Happening::Heard { index, payload, now, pcm } => {
                let first = match first_heard(events, i) {
                    Some(first) => first,
                    None => index,
                };
                let following = before.following(txid, seq_of(index));
                assert(in_step(following, txid, first, played, events, i)) by {
                    if first_heard(events, i) is None {
                        assert((index % 16 + 15) % 16 == (index - 1) % 16);
                    }
                }
                lemma_heard_stays_in_step(
                    before,
                    txid,
                    first,
                    played,
                    events,
                    i,
                    index,
                    payload,
                    now,
                    pcm,
                );
            },
            Happening::Asked => {
                if let Some(first) = first_heard(events, i) {
                    lemma_later(before, txid, first, played, events, i);
                    lemma_next_index(first + played.len());
                    if before.up_next() is Some {
                        lemma_playing_stays_in_step(before, txid, first, played, events, n);
                    }
                }
            },
        }
    }
}

proof fn lemma_next_index(next: int)
    ensures
        next_seq(seq_of(next - 1)) == seq_of(next),
{
}

/// What was in step stays so when more happens.
proof fn lemma_later(
    s: AppView,
    txid: u8,
    first: int,
    played: Seq<Seq<i16>>,
    events: Seq<Happening>,
    n: nat,
)
    requires
        in_step(s, txid, first, played, events, n),
    ensures
        in_step(s, txid, first, played, events, n + 1),
{
    let next = first + played.len();
    assert forall|j: int| 0 <= j < played.len() implies decoded_from(
        events,
        n + 1,
        first + j,
        #[trigger] played[j],
    ) by {
        assert(decoded_from(events, n, first + j, played[j]));
    }
    assert forall|slot: int| 0 <= slot < 16 && (#[trigger] s.seq_buf[slot]) is Some implies (slot
        - next) % 16 <= 2 && decoded_from(
        events,
        n + 1,
        next + (slot - next) % 16,
        s.seq_buf[slot]->0,
    ) by {
        assert(decoded_from(events, n, next + (slot - next) % 16, s.seq_buf[slot]->0));
    }
}

/// Playing the packet that is up next stays in step.
proof fn lemma_playing_stays_in_step(
    s: AppView,
    txid: u8,
    first: int,
    played: Seq<Seq<i16>>,
    events: Seq<Happening>,
    n: nat,
)
    requires
        in_step(s, txid, first, played, events, n),
        s.up_next() is Some,
    ensures
        in_step(s.playing_next(), txid, first, played.push(s.up_next()->0), events, n),
{
    let next = first + played.len();
    let slot = next % 16;
    lemma_next_index(next);
    assert(s.seq_buf[slot] is Some);
    assert((slot - next) % 16 == 0);
    let after = s.playing_next();
    let more = played.push(s.up_next()->0);
    assert forall|j: int| 0 <= j < more.len() implies decoded_from(
        events,
        n,
        first + j,
        #[trigger] more[j],
    ) by {
        if j < played.len() {
            assert(decoded_from(events, n, first + j, played[j]));
        }
    }
    assert forall|k: int| 0 <= k < 16 && (#[trigger] after.seq_buf[k]) is Some implies (k - (next
        + 1)) % 16 <= 2 && decoded_from(
        events,
        n,
        next + 1 + (k - (next + 1)) % 16,
        after.seq_buf[k]->0,
    ) by {
        assert(k != slot);
        assert(s.seq_buf[k] is Some);
        assert((k - next) % 16 != 0 && (k - (next + 1)) % 16 == (k - next) % 16 - 1);
    }
}

/// Hearing a packet stays in step.
proof fn lemma_heard_stays_in_step(
    s: AppView,
    txid: u8,
    first: int,
    played: Seq<Seq<i16>>,
    events: Seq<Happening>,
    i: nat,
    index: int,
    payload: Seq<u8>,
    now: u64,
    pcm: Seq<i16>,
)
    requires
        txid < 128,
        payload.len() == PAYLOAD_BYTES,
        s.wf(),
        s.cur_txid is None || s.cur_txid == Some(txid),
        in_step(s.following(txid, seq_of(index)), txid, first, played, events, i),
        events[i as int] == (Happening::Heard { index, payload, now, pcm }),
        s.after_rx(spec_voice_header(txid, seq_of(index)) + payload, now).1
            != RxActionView::Ignore(Ignored::Unexpected),
        ({
            let ahead = index - (first + played.len());
            0 <= ahead % 16 <= 2 ==> 0 <= ahead <= 2
        }),
    ensures
        ({
            let (heard, started) = heard_packet(s, txid, seq_of(index), payload, now, pcm);
            in_step(heard, txid, first, played + started, events, i + 1)
        }),
{
    let seq = seq_of(index);
    let next = first + played.len();
    let following = s.following(txid, seq);
    let received = AppView { last_rx_time: now, ..following };
    let (heard, started) = heard_packet(s, txid, seq, payload, now, pcm);
    law_voice_packet_round_trip(txid, seq, payload);
    lemma_next_index(next);
    lemma_distance(next, index);
    lemma_later(following, txid, first, played, events, i);
    assert(in_step(received, txid, first, played, events, i + 1));
    assert(played + Seq::<Seq<i16>>::empty() =~= played);
    reveal(heard_packet);
    if 0 <= (index - next) % 16 <= 2 {
        let buffered = received.buffering(seq, pcm);
        assert(in_step(buffered, txid, first, played, events, i + 1)) by {
            assert(events[i as int].brings(index, pcm));
            assert((seq as int - next) % 16 == index - next);
            assert forall|slot: int| 0 <= slot < 16 && (#[trigger] buffered.seq_buf[slot]) is Some
                implies (slot - next) % 16 <= 2 && decoded_from(
                events,
                i + 1,
                next + (slot - next) % 16,
                buffered.seq_buf[slot]->0,
            ) by {
                if slot != seq {
                    assert(received.seq_buf[slot] is Some);
                }
            }
        }
        if buffered.ready_to_start() {
            lemma_playing_stays_in_step(buffered, txid, first, played, events, i + 1);
            assert(played + seq![buffered.up_next()->0] =~= played.push(buffered.up_next()->0));
        }
    }
}

proof fn lemma_distance(next: int, index: int)
    ensures
        seq_distance(seq_of(next), seq_of(index)) == (if (index - next) % 16 > 7 {
            (index - next) % 16 - 16
        } else {
            (index - next) % 16
        }),
{
    assert((index % 16 - next % 16) % 16 == (index - next) % 16);
}

/// The audio of the packets that were heard, in the order in which they were.
pub open spec fn heard_audio(events: Seq<Happening>, n: nat) -> Seq<Seq<i16>>
    decreases n,
{
    if n == 0 {
        seq![]
    } else {
        let earlier = heard_audio(events, (n - 1) as nat);
        match events[n - 1] {
            Happening::Heard { pcm, .. } => earlier.push(pcm),
            Happening::Asked => earlier,
        }
    }
}

/// Whether every packet of a transmission is heard, in the order in which they are sent.
pub open spec fn heard_in_order(events: Seq<Happening>, n: nat) -> bool {
    forall|i: int|
        0 <= i < n ==> ((#[trigger] events[i]) matches Happening::Heard { index, .. } ==> index
            == heard_audio(events, i as nat).len())
}

/// What one handset sends, another plays: however receptions and requests of the
/// speaker interleave, what a handset that hears every packet of a transmission has
/// played is a beginning of what was sent, at most three packets short of all that was
/// heard; until reception starts over.
pub proof fn law_played_is_prefix_of_sent(s: AppView, txid: u8, events: Seq<Happening>, n: nat)
    requires
        free(s),
        txid < 128,
        n <= events.len(),
        forall|i: int| 0 <= i < n ==> (#[trigger] events[i]).wf(),
        forall|i: int| 0 <= i < n ==> !#[trigger] starts_over(s, txid, events, i),
        heard_in_order(events, n),
    ensures
        ({
            let played = lived_through(s, txid, events, n).1;
            let sent = heard_audio(events, n);
            &&& played.len() <= sent.len() <= played.len() + 3
            &&& played == sent.take(played.len() as int)
        }),
        forall|i: int| 0 <= i < n ==> !#[trigger] is_mistaken(s, txid, events, i),
    decreases n,
{
    if n > 0 {
        let i = (n - 1) as nat;
        law_played_is_prefix_of_sent(s, txid, events, i);
        lemma_first_in_order(events, i);
        lemma_first_in_order(events, n);
        law_transmission_is_played_in_order(s, txid, events, i);
        let (before, earlier) = lived_through(s, txid, events, i);
        assert(events[i as int].wf());
        assert(!starts_over(s, txid, events, i as int));
        if let Happening::Heard { index, payload, now, pcm } = events[i as int] {
            let next = earlier.len() as int;
            if index - next == 3 {
                law_voice_packet_round_trip(txid, seq_of(index), payload);
                lemma_next_index(next);
                lemma_distance(next, index);
                assert(starts_over(s, txid, events, i as int));
            }
        }
        assert(!is_mistaken(s, txid, events, i as int));
        law_transmission_is_played_in_order(s, txid, events, n);
        let (after, played) = lived_through(s, txid, events, n);
        let sent = heard_audio(events, n);
        assert(earlier.len() <= played.len());
        assert forall|j: int| 0 <= j < played.len() implies j < sent.len() && #[trigger] played[j]
            == sent[j] by {
            assert(decoded_from(events, n, j, played[j]));
            let e = choose|e: int| 0 <= e < n && (#[trigger] events[e]).brings(j, played[j]);
            lemma_audio_of(events, n, e);
        }
        if played.len() > 0 {
            assert(played[played.len() - 1] == sent[played.len() - 1]);
        }
        assert(played =~= sent.take(played.len() as int));
    }
}

/// What is heard first, when everything is heard, is packet 0.
proof fn lemma_first_in_order(events: Seq<Happening>, n: nat)
    requires
        n <= events.len(),
        heard_in_order(events, n),
    ensures
        first_heard(events, n) == (if heard_audio(events, n).len() > 0 {
            Some(0int)
        } else {
            None
        }),
    decreases n,
{
    if n > 0 {
        lemma_first_in_order(events, (n - 1) as nat);
        assert(events[n - 1] matches Happening::Heard { index, .. } ==> index == heard_audio(
            events,
            (n - 1) as nat,
        ).len());
    }
}

/// The audio of a packet that was heard stands at its place.
proof fn lemma_audio_of(events: Seq<Happening>, n: nat, e: int)
    requires
        n <= events.len(),
        0 <= e < n,
        events[e] is Heard,
    ensures
        heard_audio(events, e as nat).len() < heard_audio(events, n).len(),
        heard_audio(events, n)[heard_audio(events, e as nat).len() as int] == events[e]->pcm,
    decreases n,
{
    if e < n - 1 {
        lemma_audio_of(events, (n - 1) as nat, e);
    }
}

/// A packet to encode: its header and its audio.
pub type Job = (Seq<u8>, Seq<i16>);

/// `n` packets captured one after the other, each waiting packet being taken while
/// the next is captured: the state after them, and the packets taken.
pub open spec fn captured_stream(txid: u8, pcms: Seq<Seq<i16>>, n: nat) -> (
    TransmissionView,
    Seq<Job>,
)
    decreases n,
{
    if n == 0 {
        (TransmissionView { txid, seq: 0, pending: None }, seq![])
    } else {
        let (before, jobs) = captured_stream(txid, pcms, (n - 1) as nat);
        (
            before.taken().captured(pcms[n - 1]),
            match before.pending {
                Some(job) => jobs.push(job),
                None => jobs,
            },
        )
    }
}

/// Everything that is captured is sent, in order, numbered from 0 modulo 16: after
/// `n` packets all but the last have been handed to the codec, the last is the one
/// that `finish` hands over, and the closing packet carries the number after it.
pub proof fn law_transmission_sends_all(txid: u8, pcms: Seq<Seq<i16>>, n: nat)
    requires
        n <= pcms.len(),
    ensures
        ({
            let (after, jobs) = captured_stream(txid, pcms, n);
            &&& after.txid == txid
            &&& after.seq == n % 16
            &&& after.pending == (if n == 0 {
                None
            } else {
                Some((spec_voice_header(txid, ((n - 1) % 16) as u8), pcms[n - 1]))
            })
            &&& jobs == Seq::new(
                if n == 0 {
                    0
                } else {
                    (n - 1) as nat
                },
                |i: int| (spec_voice_header(txid, (i % 16) as u8), pcms[i]),
            )
        }),
    decreases n,
{
    let sent = |i: int| (spec_voice_header(txid, (i % 16) as u8), pcms[i]);
    if n > 0 {
        law_transmission_sends_all(txid, pcms, (n - 1) as nat);
        let (before, jobs) = captured_stream(txid, pcms, (n - 1) as nat);
        assert(((n - 1) % 16 + 1) % 16 == n as int % 16);
        if n > 1 {
            assert(Seq::new((n - 2) as nat, sent).push(sent(n - 2)) =~= Seq::new(
                (n - 1) as nat,
                sent,
            ));
        }
    }
    let (after, jobs) = captured_stream(txid, pcms, n);
    assert(jobs =~= Seq::new(
        if n == 0 {
            0
        } else {
            (n - 1) as nat
        },
        sent,
    ));
}

/// A setting that was changed has the value it was given, and no other setting
/// has changed.
pub proof fn law_settings_are_independent(
    s: AppView,
    setting: Setting,
    other: Setting,
    value: bool,
)
    ensures
        s.with_setting(setting, value).setting(setting) == value,
        other != setting ==> s.with_setting(setting, value).setting(other) == s.setting(other),
        s.with_setting(setting, value).with_setting(setting, s.setting(setting)) == s,
{
}

/// The repeater setting survives a reboot: what was saved is what is read back;
/// and a device on which nothing was saved is no repeater.
pub proof fn law_saved_repeater_is_restored(value: bool)
    ensures
        restored_repeater(Some(saved_byte(value))) == value,
        !restored_repeater(None),
{
}

/// The lock is about push-to-talk alone: a locked handset receives as an unlocked
/// one does.
pub proof fn law_lock_leaves_reception_alone(s: AppView, data: Seq<u8>, now: u64, locked: bool)
    ensures
        (AppView { locked, ..s }).after_rx(data, now) == (
            AppView { locked, ..s.after_rx(data, now).0 },
            s.after_rx(data, now).1,
        ),
        (AppView { locked, ..s }).after_speaker_request() == (AppView {
            locked,
            ..s.after_speaker_request()
        }),
{
}

/// The squelch tail starts at full loudness and never gets louder.
pub proof fn law_squelch_fades_out(i: int, j: int)
    requires
        0 <= i <= j < MONO_PACKET_SAMPLES,
    ensures
        squelch_fade(0) == SQUELCH_AMPLITUDE,
        0 < squelch_fade(j) <= squelch_fade(i) <= SQUELCH_AMPLITUDE,
{
}

} // verus!
