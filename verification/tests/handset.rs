use open_oswst::app::{
    generate_squelch, knob, stored_repeater, App, Ignored, Knob, MenuStep, RxAction, SpeakerReply,
};
use open_oswst::codec::{CodecRequest, CodecResponse};
use open_oswst::devices::encoder::Event;
use open_oswst::devices::mic::Mic;
use open_oswst::menu::Setting;
use open_oswst::packet::{voice_header, RxPacket, TxRequest};
use open_oswst::transmission::{packet_to_send, stalls_capture, Capture, Transmission};

const MS: u64 = 1_000_000;

fn app(repeater: bool) -> App {
    App::new("00:00:00:00:00:00".to_string(), repeater, &[0u32; 1280], 0)
}

fn packet(bytes: &[u8]) -> RxPacket {
    let mut data = heapless::Vec::new();
    data.extend_from_slice(bytes).unwrap();
    RxPacket { data, rssi: -90, snr: 7 }
}

fn voice(txid: u8, seq: u8) -> RxPacket {
    let mut bytes = voice_header(txid, seq).to_vec();
    bytes.extend([seq; 24]);
    packet(&bytes)
}

fn eot(txid: u8, seq: u8) -> RxPacket {
    packet(&voice_header(txid, seq))
}

fn ignored(action: RxAction) -> Option<Ignored> {
    match action {
        RxAction::Ignore(why) => Some(why),
        _ => None,
    }
}

fn pcm(mark: i16) -> Box<[i16]> {
    vec![mark; 2560].into_boxed_slice()
}

/// Receives a voice packet and has it "decoded" to samples that carry its mark.
fn hear(app: &mut App, txid: u8, seq: u8, mark: i16, now: u64) -> Option<i16> {
    match app.on_rx_packet(&voice(txid, seq), now) {
        RxAction::Decode(CodecRequest::Decode { seq: s, txid: t, payload }) => {
            assert_eq!((s, t), (seq, txid));
            assert_eq!(payload, [seq; 24]);
            app.on_codec_response(CodecResponse::Decoded { seq: s, txid: t, pcm: pcm(mark) })
                .map(|packet| packet[0])
        }
        _ => panic!("not decoded"),
    }
}

fn request(app: &mut App) -> Option<i16> {
    match app.on_speaker_request() {
        SpeakerReply::Play(packet) => Some(packet[0]),
        _ => None,
    }
}

fn relayed(request: &TxRequest) -> Vec<u8> {
    request.data.to_vec()
}

#[test]
fn malformed_packets_are_ignored() {
    let mut app = app(false);
    assert_eq!(ignored(app.on_rx_packet(&packet(&[1]), 0)), Some(Ignored::TooShort));
    assert_eq!(ignored(app.on_rx_packet(&packet(&[0xF8, 0]), 0)), Some(Ignored::UnknownType));
    assert_eq!(ignored(app.on_rx_packet(&packet(&[0; 10]), 0)), Some(Ignored::WrongSize));
    assert!(matches!(app.on_speaker_request(), SpeakerReply::Nothing));
}

#[test]
fn first_packet_is_decoded_whatever_its_number() {
    for seq in 0..16 {
        let mut app = app(false);
        assert_eq!(hear(&mut app, 5, seq, 1, 0), None);
        assert_eq!(request(&mut app), Some(1));
    }
}

#[test]
fn transmission_plays_in_order() {
    let mut app = app(false);
    let mut played = vec![];
    for i in 0..40i16 {
        played.extend(hear(&mut app, 9, (i % 16) as u8, i, i as u64 * 160 * MS));
        if i >= 2 {
            played.extend(request(&mut app));
        }
    }
    assert_eq!(played, (0..39).collect::<Vec<i16>>());
    assert_eq!(request(&mut app), Some(39));
    assert!(matches!(app.on_speaker_request(), SpeakerReply::Silence));
}

#[test]
fn played_is_a_prefix_of_what_was_sent_however_requests_fall() {
    // every pattern of requests among 12 happenings, as long as reception goes on
    for pattern in 0..4096u32 {
        let mut app = app(false);
        let mut sent = 0i16;
        let mut played = vec![];
        for bit in 0..12 {
            if pattern >> bit & 1 == 1 {
                played.extend(request(&mut app));
            } else if sent - played.len() as i16 == 3 {
                assert_eq!(
                    ignored(app.on_rx_packet(&voice(9, (sent % 16) as u8), 0)),
                    Some(Ignored::Unexpected)
                );
                break;
            } else {
                played.extend(hear(&mut app, 9, (sent % 16) as u8, sent, 0));
                sent += 1;
            }
            assert_eq!(played, (0..played.len() as i16).collect::<Vec<i16>>());
            assert!(played.len() as i16 <= sent && sent <= played.len() as i16 + 3);
        }
    }
}

#[test]
fn doubled_and_overtaken_packets_play_once_and_in_order() {
    let mut app = app(false);
    let mut played = vec![];
    for (index, old) in [(6, false), (8, false), (7, false), (6, true), (8, false), (7, false)] {
        if old {
            assert_eq!(ignored(app.on_rx_packet(&voice(1, index), 0)), Some(Ignored::Old));
        } else {
            played.extend(hear(&mut app, 1, index, index as i16, 0));
        }
    }
    while let Some(mark) = request(&mut app) {
        played.push(mark);
    }
    assert_eq!(played, vec![6, 7, 8]);
}

#[test]
fn speaker_starts_with_two_consecutive_packets() {
    let mut app = app(false);
    assert_eq!(hear(&mut app, 1, 3, 30, 0), None);
    assert_eq!(hear(&mut app, 1, 5, 50, 0), None);
    assert_eq!(hear(&mut app, 1, 4, 40, 0), Some(30));
    assert_eq!(request(&mut app), Some(40));
    assert_eq!(request(&mut app), Some(50));
}

#[test]
fn swapped_packets_play_in_order() {
    let mut app = app(false);
    hear(&mut app, 1, 0, 0, 0);
    assert_eq!(hear(&mut app, 1, 1, 10, 0), Some(0));
    assert_eq!(request(&mut app), Some(10));
    assert_eq!(hear(&mut app, 1, 3, 30, 0), None);
    assert_eq!(hear(&mut app, 1, 2, 20, 0), None);
    assert_eq!(request(&mut app), Some(20));
    assert_eq!(request(&mut app), Some(30));
}

#[test]
fn gap_is_filled_with_silence_and_waited_for() {
    let mut app = app(false);
    hear(&mut app, 1, 0, 0, 0);
    hear(&mut app, 1, 1, 10, 0);
    assert_eq!(request(&mut app), Some(10));
    hear(&mut app, 1, 3, 30, 0);
    for _ in 0..3 {
        assert!(matches!(app.on_speaker_request(), SpeakerReply::Silence));
    }
    hear(&mut app, 1, 2, 20, 0);
    assert_eq!(request(&mut app), Some(20));
    assert_eq!(request(&mut app), Some(30));
}

#[test]
fn window_around_the_expected_packet() {
    // last played is 4, so 5 is expected
    for (seq, outcome) in [
        (3, Some(Ignored::Old)),
        (4, Some(Ignored::Old)),
        (5, None),
        (6, None),
        (7, None),
        (8, Some(Ignored::Unexpected)),
        (12, Some(Ignored::Unexpected)),
        (13, Some(Ignored::Unexpected)),
        (2, Some(Ignored::Unexpected)),
    ] {
        let mut app = app(false);
        hear(&mut app, 1, 3, 3, 0);
        assert_eq!(hear(&mut app, 1, 4, 4, 0), Some(3));
        assert_eq!(request(&mut app), Some(4));
        assert_eq!(ignored(app.on_rx_packet(&voice(1, seq), 0)), outcome, "seq {}", seq);
    }
}

#[test]
fn unexpected_packet_starts_reception_over() {
    let mut app = app(false);
    hear(&mut app, 1, 0, 0, 0);
    assert_eq!(
        ignored(app.on_rx_packet(&voice(1, 8), 0)),
        Some(Ignored::Unexpected)
    );
    // free again: anyone may be followed, from any number
    assert_eq!(hear(&mut app, 2, 11, 1, 0), None);
}

#[test]
fn other_transmissions_are_ignored_until_the_end() {
    let mut app = app(false);
    hear(&mut app, 1, 0, 0, 0);
    assert_eq!(
        ignored(app.on_rx_packet(&voice(2, 1), 0)),
        Some(Ignored::OtherTransmission)
    );
    assert_eq!(hear(&mut app, 1, 1, 10, 0), Some(0));
    assert!(matches!(
        app.on_rx_packet(&eot(1, 2), 0),
        RxAction::EndOfTransmission { relay: None }
    ));
    assert!(matches!(app.on_speaker_request(), SpeakerReply::Nothing));
    assert_eq!(hear(&mut app, 2, 1, 1, 0), None);
}

#[test]
fn decoded_audio_of_a_transmission_that_ended_is_dropped() {
    let mut app = app(false);
    hear(&mut app, 1, 0, 0, 0);
    app.on_rx_packet(&eot(1, 1), 0);
    let late = CodecResponse::Decoded { seq: 1, txid: 1, pcm: pcm(10) };
    assert!(app.on_codec_response(late).is_none());
    assert!(matches!(app.on_speaker_request(), SpeakerReply::Nothing));
    let mut data = heapless::Vec::new();
    data.push(1).unwrap();
    assert!(app.on_codec_response(CodecResponse::Encoded { packet: data }).is_none());
}

#[test]
fn reception_times_out_after_half_a_second() {
    let mut app = app(false);
    assert!(!app.check_timeout(10_000 * MS));
    hear(&mut app, 1, 0, 0, 1000 * MS);
    assert!(!app.check_timeout(1500 * MS));
    assert!(app.check_timeout(1500 * MS + 1));
    assert!(!app.check_timeout(9000 * MS));
    assert!(matches!(app.on_speaker_request(), SpeakerReply::Nothing));
}

#[test]
fn packets_of_others_do_not_put_off_the_timeout() {
    let mut app = app(false);
    hear(&mut app, 1, 0, 0, 0);
    app.on_rx_packet(&voice(2, 0), 400 * MS);
    assert!(app.check_timeout(501 * MS));
}

#[test]
fn repeater_relays_each_packet_once() {
    let mut app = app(true);
    for seq in [4, 5, 6] {
        match app.on_rx_packet(&voice(3, seq), 0) {
            RxAction::Relay(r) => assert_eq!(relayed(&r), voice(3, seq).data.to_vec()),
            _ => panic!("not relayed"),
        }
        assert_eq!(
            ignored(app.on_rx_packet(&voice(3, seq), 1)),
            Some(Ignored::Old)
        );
    }
    match app.on_rx_packet(&eot(3, 7), 0) {
        RxAction::EndOfTransmission { relay: Some(r) } => {
            assert_eq!(relayed(&r), voice_header(3, 7).to_vec())
        }
        _ => panic!("end not relayed"),
    }
}

#[test]
fn repeater_skips_over_lost_packets() {
    let mut app = app(true);
    assert!(matches!(app.on_rx_packet(&voice(3, 0), 0), RxAction::Relay(_)));
    assert!(matches!(app.on_rx_packet(&voice(3, 3), 0), RxAction::Relay(_)));
    assert_eq!(ignored(app.on_rx_packet(&voice(3, 2), 0)), Some(Ignored::Old));
}

#[test]
fn settings_apply_and_are_saved() {
    let mut app = app(false);
    assert!(app.ptt_enabled());
    assert_eq!(app.apply(Setting::Lock, true), None);
    assert!(app.setting(Setting::Lock) && !app.setting(Setting::Repeater));
    assert!(!app.ptt_enabled());
    assert_eq!(app.apply(Setting::Repeater, true), Some(("repeater", 1)));
    assert!(app.setting(Setting::Repeater) && app.setting(Setting::Lock));
    assert_eq!(app.apply(Setting::Repeater, false), Some(("repeater", 0)));
    assert!(!app.setting(Setting::Repeater));
}

#[test]
fn saved_repeater_is_restored() {
    for value in [true, false] {
        let (_, byte) = app(false).apply(Setting::Repeater, value).unwrap();
        assert_eq!(stored_repeater(Some(byte)), value);
    }
    assert!(!stored_repeater(None));
    assert!(stored_repeater(Some(255)));
}

#[test]
fn locked_handset_still_receives() {
    let mut app = app(false);
    app.apply(Setting::Lock, true);
    hear(&mut app, 1, 0, 0, 0);
    assert_eq!(hear(&mut app, 1, 1, 10, 0), Some(0));
    assert_eq!(request(&mut app), Some(10));
}

#[test]
fn menu_changes_settings_through_the_knob() {
    let mut app = app(false);
    hear(&mut app, 1, 0, 0, 0);
    let mut menu = app.open_menu();
    assert!(matches!(app.on_speaker_request(), SpeakerReply::Nothing));
    assert_eq!(app.on_menu_event(&mut menu, Event::Ccw), MenuStep::Stay);
    assert_eq!(app.on_menu_event(&mut menu, Event::Cw), MenuStep::Stay);
    assert_eq!(app.on_menu_event(&mut menu, Event::Cw), MenuStep::Stay);
    assert_eq!(app.on_menu_event(&mut menu, Event::Click), MenuStep::Stay);
    assert_eq!(app.on_menu_event(&mut menu, Event::Cw), MenuStep::Stay);
    assert_eq!(
        app.on_menu_event(&mut menu, Event::Click),
        MenuStep::Save("repeater", 1)
    );
    assert!(app.setting(Setting::Repeater));
    app.on_menu_event(&mut menu, Event::Ccw);
    app.on_menu_event(&mut menu, Event::Click);
    app.on_menu_event(&mut menu, Event::Cw);
    assert_eq!(app.on_menu_event(&mut menu, Event::Click), MenuStep::Stay);
    assert!(app.setting(Setting::Lock));
    app.on_menu_event(&mut menu, Event::Ccw);
    assert_eq!(app.on_menu_event(&mut menu, Event::Click), MenuStep::Leave);
}

#[test]
fn knob_outside_the_menu() {
    assert_eq!(knob(Event::Click), Knob::OpenMenu);
    assert_eq!(knob(Event::Cw), Knob::ChangeVolume(1));
    assert_eq!(knob(Event::Ccw), Knob::ChangeVolume(-1));
}

#[test]
fn volume_stays_in_range() {
    let mut app = app(false);
    assert_eq!(app.change_volume(5, 10, 1), (6, true));
    assert_eq!(app.change_volume(10, 10, 1), (10, true));
    assert_eq!(app.change_volume(0, 10, -1), (0, true));
    assert_eq!(app.change_volume(255, 255, 127), (255, true));
    assert_eq!(app.change_volume(20, 10, 0), (10, true));
    hear(&mut app, 1, 0, 0, 0);
    assert_eq!(app.change_volume(5, 10, -1), (4, false));
}

#[test]
fn squelch_is_noise_that_fades() {
    let quiet = generate_squelch(&[8000u32; 1280]);
    assert_eq!(quiet.len(), 2560);
    assert_eq!((quiet[0], quiet[1]), (0, 0));
    let low = generate_squelch(&[0u32; 1280]);
    assert_eq!((low[0], low[1]), (-8000, -8000));
    assert_eq!(low[2], -7993);
    assert_eq!(low[2558], -6);
    assert!(low.chunks(2).all(|lr| lr[0] == lr[1]));
    let high = generate_squelch(&[16000u32; 1280]);
    assert_eq!(high[0], 8000);
    let mixed: Vec<u32> = (0..1280u32).map(|i| i.wrapping_mul(2_654_435_761)).collect();
    let squelch = generate_squelch(&mixed);
    for i in 0..1280i32 {
        let fade = (1280 - i) * 8000 / 1280;
        assert!((squelch[2 * i as usize] as i32).abs() <= fade);
    }
}

#[test]
fn silence_and_squelch_are_one_packet_long() {
    let app = app(false);
    assert_eq!(app.silence().len(), 2560);
    assert!(app.silence().iter().all(|s| *s == 0));
    assert_eq!(app.squelch().len(), 2560);
    assert_eq!(app.squelch()[0], -8000);
    assert_eq!(app.mac_str(), "00:00:00:00:00:00");
}

#[test]
fn ptt_drops_reception_and_starts_a_transmission() {
    let mut app = app(false);
    hear(&mut app, 1, 0, 0, 0);
    let transmission = app.on_ptt(0xFFFF_FF85);
    assert!(matches!(app.on_speaker_request(), SpeakerReply::Nothing));
    let (last, end) = transmission.finish();
    assert!(last.is_none());
    assert_eq!(end.data.to_vec(), voice_header(5, 0).to_vec());
}

#[test]
fn transmission_sends_everything_in_order() {
    for n in [0usize, 1, 2, 16, 17, 40] {
        let mut transmission = Transmission::new(77);
        let mut jobs = vec![];
        for i in 0..n {
            jobs.extend(transmission.take_pending());
            transmission.captured(vec![i as i16; 1280].into_boxed_slice());
        }
        let (last, end) = transmission.finish();
        jobs.extend(last);
        assert_eq!(jobs.len(), n);
        for (i, job) in jobs.iter().enumerate() {
            match job {
                CodecRequest::Encode { header, pcm } => {
                    assert_eq!(*header, voice_header(77, (i % 16) as u8));
                    assert_eq!(pcm[0], i as i16);
                }
                CodecRequest::Decode { .. } => panic!("asked to decode"),
            }
        }
        assert_eq!(end.data.to_vec(), voice_header(77, (n % 16) as u8).to_vec());
    }
}

#[test]
fn capture_collects_four_frames() {
    let mut mic = Mic::new();
    let mut capture = Capture::new();
    for k in 0..4u16 {
        assert!(!capture.is_complete());
        for s in mic.buf.iter_mut() {
            *s = 2048 + k;
        }
        capture.add_frame(&mic, if k == 3 { 100 } else { 320 });
    }
    assert!(capture.is_complete());
    let pcm = capture.into_pcm();
    assert_eq!(pcm.len(), 1280);
    assert_eq!((pcm[0], pcm[320], pcm[640], pcm[960 + 99]), (0, 16, 32, 48));
    assert!(pcm[1060..].iter().all(|s| *s == 0));
}

#[test]
fn encoded_packet_goes_to_the_radio() {
    let mut packet = heapless::Vec::new();
    packet.extend_from_slice(&[1, 2, 3]).unwrap();
    let request = packet_to_send(CodecResponse::Encoded { packet }).unwrap();
    assert_eq!(request.data.to_vec(), vec![1, 2, 3]);
    let decoded = CodecResponse::Decoded { seq: 0, txid: 0, pcm: pcm(0) };
    assert!(packet_to_send(decoded).is_none());
    assert!(!stalls_capture(160));
    assert!(stalls_capture(161));
}

#[test]
fn what_one_handset_sends_another_hears() {
    let mut codec = open_oswst::codec::Codec::new();
    let mut sender = app(false);
    let mut listener = app(false);
    let mut transmission = sender.on_ptt(42);
    let mut air = vec![];
    for i in 0..3i16 {
        if let Some(job) = transmission.take_pending() {
            air.extend(packet_to_send(codec.handle(job)));
        }
        transmission.captured(vec![i * 500; 1280].into_boxed_slice());
    }
    let (last, end) = transmission.finish();
    air.extend(packet_to_send(codec.handle(last.unwrap())));
    air.push(end);
    let mut played = 0;
    for sent in &air {
        match listener.on_rx_packet(&packet(&sent.data), 0) {
            RxAction::Decode(job) => {
                played += listener.on_codec_response(codec.handle(job)).is_some() as u32;
            }
            RxAction::EndOfTransmission { relay } => assert!(relay.is_none()),
            _ => panic!("not heard"),
        }
    }
    assert_eq!(air.len(), 4);
    assert_eq!(played, 1);
    assert!(matches!(listener.on_speaker_request(), SpeakerReply::Nothing));
}
