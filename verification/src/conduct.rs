//! What a handset does, one happening at a time: what a packet stands for is read off
//! its bytes, and what comes of it is said of every part of the state.

use vstd::prelude::*;

use crate::app::{
    restored_repeater, saved_byte, squelch_of, AppView, Ignored, RxAction, RxActionView,
};
use crate::codec::CodecRequest;
use crate::menu::Setting;
use crate::packet::{law_packet_is_read_by_bytes, packet_bytes};

verus! {

/// A packet that is no voice packet and no end of a transmission changes nothing.
pub proof fn law_malformed_packets_change_nothing(s: AppView, data: Seq<u8>, now: u64)
    ensures
        data.len() < 2 ==> s.after_rx(data, now) == (s, RxActionView::Ignore(Ignored::TooShort)),
        data.len() >= 2 && data[0] >= 8 ==> s.after_rx(data, now) == (
            s,
            RxActionView::Ignore(Ignored::UnknownType),
        ),
        data.len() > 2 && data.len() != 26 && data[0] < 8 ==> s.after_rx(data, now) == (
            s,
            RxActionView::Ignore(Ignored::WrongSize),
        ),
{
    law_packet_is_read_by_bytes(data);
}

/// Two bytes of voice header, of whichever transmission, end the reception: nobody is
/// followed, nothing is buffered and the speaker is at rest; a repeater, and only a
/// repeater, sends the two bytes on; and the device is otherwise what it was.
pub proof fn law_end_of_transmission_ends_reception(s: AppView, data: Seq<u8>, now: u64)
    requires
        data.len() == 2,
        data[0] < 8,
    ensures
        ({
            let t = s.after_rx(data, now).0;
            &&& t.cur_txid is None
            &&& t.last_played_seq == 0
            &&& t.seq_buf.len() == 16
            &&& forall|i: int| 0 <= i < 16 ==> (#[trigger] t.seq_buf[i]) is None
            &&& !t.spk_active
            &&& t.last_rx_time == s.last_rx_time
            &&& t.mac == s.mac
            &&& t.silence == s.silence
            &&& t.squelch == s.squelch
            &&& t.locked == s.locked
            &&& t.repeater == s.repeater
        }),
        s.repeater ==> s.after_rx(data, now).1 == (RxActionView::EndOfTransmission {
            relay: Some(data),
        }),
        !s.repeater ==> s.after_rx(data, now).1 == (RxActionView::EndOfTransmission {
            relay: None,
        }),
{
    law_packet_is_read_by_bytes(data);
}

/// While one transmission is followed, a voice packet with another id changes nothing.
pub proof fn law_voice_of_others_changes_nothing(s: AppView, data: Seq<u8>, now: u64)
    requires
        data.len() == 26,
        data[0] < 8,
        s.cur_txid is Some,
        s.cur_txid->0 != data[0] * 16 + data[1] / 16,
    ensures
        s.after_rx(data, now) == (s, RxActionView::Ignore(Ignored::OtherTransmission)),
{
    law_packet_is_read_by_bytes(data);
}

/// A handset that follows nobody follows the first voice packet it hears, as the one
/// that is up next: it is decoded, or sent on by a repeater.
pub proof fn law_first_voice_is_followed(s: AppView, data: Seq<u8>, now: u64)
    requires
        s.wf(),
        s.cur_txid is None,
        data.len() == 26,
        data[0] < 8,
    ensures
        ({
            let (t, action) = s.after_rx(data, now);
            &&& t.cur_txid is Some
            &&& t.cur_txid->0 == data[0] * 16 + data[1] / 16
            &&& t.last_rx_time == now
            &&& t.seq_buf == s.seq_buf
            &&& t.spk_active == s.spk_active
            &&& t.mac == s.mac
            &&& t.silence == s.silence
            &&& t.squelch == s.squelch
            &&& t.locked == s.locked
            &&& t.repeater == s.repeater
            &&& t.last_played_seq < 16
            &&& s.repeater ==> action == RxActionView::Relay(data) && t.last_played_seq == data[1]
                % 16
            &&& !s.repeater ==> (t.last_played_seq + 1) % 16 == data[1] % 16
            &&& !s.repeater ==> (action matches RxActionView::Decode { seq, txid, payload } && seq
                == data[1] % 16 && txid == data[0] * 16 + data[1] / 16 && payload == data.subrange(
                2,
                26,
            ))
        }),
{
    law_packet_is_read_by_bytes(data);
}

/// A voice packet of the transmission that is followed is judged by how many places it
/// is ahead of the one played last, modulo 16. One to three places: it is new, and is
/// decoded, or sent on by a repeater, which thereby counts it as played. The one played
/// last, or the one before: it is old, and nothing but the time is noted. Any other:
/// reception starts over.
pub proof fn law_followed_voice_is_judged_by_its_place(s: AppView, data: Seq<u8>, now: u64)
    requires
        s.wf(),
        data.len() == 26,
        data[0] < 8,
        s.cur_txid is Some,
        s.cur_txid->0 == data[0] * 16 + data[1] / 16,
    ensures
        ({
            let (t, action) = s.after_rx(data, now);
            let places = (data[1] % 16 - s.last_played_seq) % 16;
            &&& t.last_rx_time == now
            &&& t.spk_active == s.spk_active
            &&& t.mac == s.mac
            &&& t.silence == s.silence
            &&& t.squelch == s.squelch
            &&& t.locked == s.locked
            &&& t.repeater == s.repeater
            &&& 1 <= places <= 3 ==> t.cur_txid == s.cur_txid && t.seq_buf == s.seq_buf
            &&& 1 <= places <= 3 && s.repeater ==> action == RxActionView::Relay(data)
                && t.last_played_seq == data[1] % 16
            &&& 1 <= places <= 3 && !s.repeater ==> t.last_played_seq == s.last_played_seq && (
            action matches RxActionView::Decode { seq, txid, payload } && seq == data[1] % 16
                && txid == data[0] * 16 + data[1] / 16 && payload == data.subrange(2, 26))
            &&& places == 0 || places == 15 ==> action == RxActionView::Ignore(Ignored::Old)
                && t.cur_txid == s.cur_txid && t.last_played_seq == s.last_played_seq && t.seq_buf
                == s.seq_buf
            &&& 4 <= places <= 14 ==> action == RxActionView::Ignore(Ignored::Unexpected)
                && t.cur_txid is None && t.last_played_seq == 0 && t.seq_buf.len() == 16 && (forall|i: int|
                0 <= i < 16 ==> (#[trigger] t.seq_buf[i]) is None)
        }),
{
    law_packet_is_read_by_bytes(data);
}

/// A transmission is given up exactly when it is followed and nothing has been heard of
/// it for more than half a second.
pub proof fn law_quiet_transmission_is_given_up(s: AppView, t: u64)
    ensures
        s.timed_out(t) <==> s.cur_txid is Some && t > s.last_rx_time + 500_000_000,
{
}

/// Every voice packet of the transmission that is followed puts off the timeout, the
/// first as well as any later one, new or old: half a second after it the transmission
/// has not been given up.
pub proof fn law_voice_puts_off_timeout(s: AppView, data: Seq<u8>, now: u64, t: u64)
    requires
        s.wf(),
        data.len() == 26,
        data[0] < 8,
        s.cur_txid is None || s.cur_txid->0 == data[0] * 16 + data[1] / 16,
        t <= now + 500_000_000,
    ensures
        s.after_rx(data, now).0.last_rx_time == now,
        !s.after_rx(data, now).0.timed_out(t),
{
    law_packet_is_read_by_bytes(data);
}

/// Whatever else is received leaves the timeout where it was, or ends the reception.
pub proof fn law_only_followed_voice_puts_off_timeout(s: AppView, data: Seq<u8>, now: u64, t: u64)
    requires
        s.wf(),
        s.timed_out(t),
        !(data.len() == 26 && data[0] < 8 && s.cur_txid->0 == data[0] * 16 + data[1] / 16),
    ensures
        s.after_rx(data, now).0.timed_out(t) || s.after_rx(data, now).0.cur_txid is None,
        s.after_rx(data, now).0.last_rx_time == s.last_rx_time,
{
    law_packet_is_read_by_bytes(data);
}

/// A decoded packet of the transmission that is followed goes to the place of its
/// number. Once the two places after the packet played last are both filled, and the
/// speaker is still at rest, the first of them is taken out and played. Audio of any
/// other transmission is dropped.
pub proof fn law_decoded_packet_is_buffered_or_played(
    s: AppView,
    seq: u8,
    txid: u8,
    pcm: Seq<i16>,
)
    requires
        s.wf(),
        seq < 16,
    ensures
        s.cur_txid != Some(txid) ==> s.after_decoded(seq, txid, pcm) == (
            s,
            None::<Seq<i16>>,
        ),
        s.cur_txid == Some(txid) ==> ({
            let (t, play) = s.after_decoded(seq, txid, pcm);
            let filled = s.seq_buf.update(seq as int, Some(pcm));
            let first = (s.last_played_seq + 1) % 16;
            let second = (s.last_played_seq + 2) % 16;
            &&& t.cur_txid == s.cur_txid
            &&& t.last_rx_time == s.last_rx_time
            &&& t.mac == s.mac
            &&& t.silence == s.silence
            &&& t.squelch == s.squelch
            &&& t.locked == s.locked
            &&& t.repeater == s.repeater
            &&& if !s.spk_active && filled[first] is Some && filled[second] is Some {
                &&& play == filled[first]
                &&& t.seq_buf == filled.update(first, None)
                &&& t.last_played_seq == first
                &&& t.spk_active
            } else {
                &&& play is None
                &&& t.seq_buf == filled
                &&& t.last_played_seq == s.last_played_seq
                &&& t.spk_active == s.spk_active
            }
        }),
{
}

/// The speaker gets the packet after the one played last, if it is there, and then it is
/// no longer there; if it is not there, nothing changes, and it is still waited for.
pub proof fn law_speaker_gets_the_next_packet(s: AppView)
    requires
        s.wf(),
    ensures
        ({
            let t = s.after_speaker_request();
            let next = (s.last_played_seq + 1) % 16;
            &&& s.up_next() == s.seq_buf[next]
            &&& s.seq_buf[next] is None ==> t == s
            &&& s.seq_buf[next] is Some ==> t.last_played_seq == next && t.seq_buf
                == s.seq_buf.update(next, None)
            &&& t.cur_txid == s.cur_txid
            &&& t.last_rx_time == s.last_rx_time
            &&& t.spk_active == s.spk_active
            &&& t.mac == s.mac
            &&& t.silence == s.silence
            &&& t.squelch == s.squelch
            &&& t.locked == s.locked
            &&& t.repeater == s.repeater
        }),
{
}

/// What a timeout, the push-to-talk button and the menu do to a reception: nobody is
/// followed, nothing is buffered, the speaker is at rest, and the device is otherwise
/// what it was.
pub proof fn law_dropped_reception_leaves_the_device(s: AppView)
    ensures
        ({
            let t = s.silenced();
            &&& t.cur_txid is None
            &&& t.last_played_seq == 0
            &&& t.seq_buf.len() == 16
            &&& forall|i: int| 0 <= i < 16 ==> (#[trigger] t.seq_buf[i]) is None
            &&& !t.spk_active
            &&& t.last_rx_time == s.last_rx_time
            &&& t.mac == s.mac
            &&& t.silence == s.silence
            &&& t.squelch == s.squelch
            &&& t.locked == s.locked
            &&& t.repeater == s.repeater
        }),
{
}

/// Something that happens to a device while nobody touches its settings.
pub ghost enum Occurrence {
    /// A packet is received.
    Received(Seq<u8>, u64),
    /// The codec has decoded a packet.
    Decoded { seq: u8, txid: u8, pcm: Seq<i16> },
    /// The speaker asks for more.
    Asked,
    /// Reception is dropped: by a timeout, by push-to-talk, or because the menu opens.
    Dropped,
}

/// The state after one occurrence.
pub open spec fn after_occurrence(s: AppView, occurrence: Occurrence) -> AppView {
    match occurrence {
        Occurrence::Received(data, now) => s.after_rx(data, now).0,
        Occurrence::Decoded { seq, txid, pcm } => s.after_decoded(seq, txid, pcm).0,
        Occurrence::Asked => s.after_speaker_request(),
        Occurrence::Dropped => s.silenced(),
    }
}

/// The state after one occurrence after the other.
pub open spec fn after_occurrences(s: AppView, run: Seq<Occurrence>) -> AppView
    decreases run.len(),
{
    if run.len() == 0 {
        s
    } else {
        after_occurrence(after_occurrences(s, run.drop_last()), run.last())
    }
}

/// Whatever happens, a device stays what it is until its settings are changed: a
/// repeater remains a repeater, a locked handset locked, and the address and the sounds
/// that it was made with are kept.
pub proof fn law_device_stays_what_it_is(s: AppView, run: Seq<Occurrence>)
    ensures
        after_occurrences(s, run).repeater == s.repeater,
        after_occurrences(s, run).locked == s.locked,
        after_occurrences(s, run).mac == s.mac,
        after_occurrences(s, run).silence == s.silence,
        after_occurrences(s, run).squelch == s.squelch,
    decreases run.len(),
{
    if run.len() > 0 {
        law_device_stays_what_it_is(s, run.drop_last());
    }
}

/// Whatever a repeater has been through, it sends on, as it is, every end of a
/// transmission, and every voice packet that is new to it: the first of a transmission,
/// or one of the three after the one it sent on last. And it decodes nothing.
pub proof fn law_repeater_relays_for_good(
    s: AppView,
    run: Seq<Occurrence>,
    data: Seq<u8>,
    now: u64,
)
    requires
        s.repeater,
        after_occurrences(s, run).wf(),
        data.len() >= 2,
        data[0] < 8,
    ensures
        ({
            let before = after_occurrences(s, run);
            let (after, action) = before.after_rx(data, now);
            let followed = before.cur_txid is Some && before.cur_txid->0 == data[0] * 16 + data[1]
                / 16 && 1 <= (data[1] % 16 - before.last_played_seq) % 16 <= 3;
            &&& data.len() == 2 ==> action == (RxActionView::EndOfTransmission { relay: Some(data) })
            &&& data.len() == 26 && (before.cur_txid is None || followed) ==> action
                == RxActionView::Relay(data) && after.last_played_seq == data[1] % 16
            &&& data.len() == 26 && !(before.cur_txid is None || followed) ==> action is Ignore
            &&& !(action is Decode)
        }),
{
    law_device_stays_what_it_is(s, run);
    law_packet_is_read_by_bytes(data);
    let before = after_occurrences(s, run);
    if data.len() == 26 {
        if before.cur_txid is None {
            law_first_voice_is_followed(before, data, now);
        } else if before.cur_txid->0 == data[0] * 16 + data[1] / 16 {
            law_followed_voice_is_judged_by_its_place(before, data, now);
        }
    }
}

/// No handset that is no repeater ever sends anything on.
pub proof fn law_handset_relays_nothing(s: AppView, run: Seq<Occurrence>, data: Seq<u8>, now: u64)
    requires
        !s.repeater,
    ensures
        !(after_occurrences(s, run).after_rx(data, now).1 is Relay),
        after_occurrences(s, run).after_rx(data, now).1 matches RxActionView::EndOfTransmission {
            relay,
        } ==> relay is None,
{
    law_device_stays_what_it_is(s, run);
}

/// A setting that is changed is changed alone.
pub proof fn law_setting_changes_alone(s: AppView, value: bool)
    ensures
        s.with_setting(Setting::Lock, value) == (AppView { locked: value, ..s }),
        s.with_setting(Setting::Repeater, value) == (AppView { repeater: value, ..s }),
        s.setting(Setting::Lock) == s.locked,
        s.setting(Setting::Repeater) == s.repeater,
        saved_byte(true) == 1,
        saved_byte(false) == 0,
        forall|byte: u8| #[trigger] restored_repeater(Some(byte)) <==> byte != 0,
        !restored_repeater(None),
{
}

/// The squelch tail, sample by sample: on both channels the same, a random number
/// brought into a range around 0 that shrinks evenly from 8000.
pub proof fn law_squelch_is_noise_in_a_shrinking_range(random: Seq<u32>, i: int)
    requires
        0 <= i < 1280,
    ensures
        ({
            let loudness = (1280 - i) * 25 / 4;
            let sample = squelch_of(random)[2 * i];
            &&& squelch_of(random).len() == 2560
            &&& squelch_of(random)[2 * i + 1] == sample
            &&& -loudness <= sample <= loudness
            &&& (sample + loudness - random[i]) % (2 * loudness + 1) == 0
        }),
{
    let loudness = (1280 - i) * 25 / 4;
    let range = 2 * loudness + 1;
    let r = random[i] as int;
    assert((1280 - i) * 8000 / 1280 == loudness);
    assert(0 <= r % range < range);
    let sample = squelch_of(random)[2 * i];
    assert(sample + loudness == r % range);
    assert((r % range - r) % range == 0) by (nonlinear_arith)
        requires
            range > 0,
    {
        let q = r / range;
        assert(r == q * range + r % range);
        assert(r % range - r == (-q) * range);
        vstd::arithmetic::div_mod::lemma_mod_multiples_basic(-q, range);
    }
}

/// An action means what it says: what is sent on is the bytes it holds, and what is
/// decoded is the payload, under the number and the id, that it holds.
pub proof fn law_action_means_what_it_says(action: RxAction, view: RxActionView)
    requires
        action.is(view),
    ensures
        action is Ignore <==> view is Ignore,
        action is EndOfTransmission <==> view is EndOfTransmission,
        action is Relay <==> view is Relay,
        action is Decode <==> view is Decode,
        action matches RxAction::Ignore(why) ==> view == RxActionView::Ignore(why),
        action matches RxAction::Relay(request) ==> view == RxActionView::Relay(
            packet_bytes(request.data),
        ),
        action matches RxAction::EndOfTransmission { relay: Some(request) } ==> view == (
        RxActionView::EndOfTransmission { relay: Some(packet_bytes(request.data)) }),
        action matches RxAction::EndOfTransmission { relay: None } ==> view == (
        RxActionView::EndOfTransmission { relay: None }),
        action matches RxAction::Decode(request) ==> (request matches CodecRequest::Decode {
            seq,
            txid,
            payload,
        } && view == (RxActionView::Decode { seq, txid, payload: payload@ })),
{
}

} // verus!
