use open_oswst::devices::encoder::{gray_phase, Encoder, Event, Next, Settle};
use open_oswst::devices::mic::{adc_to_pcm, Mic};
use open_oswst::devices::screen::{Frame, Pixel, Screen};
use open_oswst::devices::speaker::{is_underrun, pcm_as_bytes, send_to_speaker, wants_packet};

const CW: [(bool, bool); 4] = [(false, false), (true, false), (true, true), (false, true)];

#[test]
fn gray_phases_in_clockwise_order() {
    for (i, (a, b)) in CW.iter().enumerate() {
        assert_eq!(gray_phase(*a, *b), i as u8);
    }
}

#[test]
fn full_cycle_is_one_detent_either_way() {
    let mut encoder = Encoder::new(false, false, false);
    let mut events = vec![];
    for i in [1, 2, 3, 0] {
        events.push(encoder.update_quadrature(CW[i].0, CW[i].1));
    }
    assert_eq!(events, vec![None, None, None, Some(Event::Cw)]);
    let mut events = vec![];
    for i in [3, 2, 1, 0] {
        events.push(encoder.update_quadrature(CW[i].0, CW[i].1));
    }
    assert_eq!(events, vec![None, None, None, Some(Event::Ccw)]);
}

#[test]
fn step_back_cancels_and_jumps_are_ignored() {
    let mut encoder = Encoder::new(false, false, false);
    assert_eq!(encoder.update_quadrature(true, false), None);
    assert_eq!(encoder.update_quadrature(false, false), None);
    assert_eq!(encoder.update_quadrature(true, true), None);
    // from here four more steps are needed
    assert_eq!(encoder.update_quadrature(false, true), None);
    assert_eq!(encoder.update_quadrature(false, false), None);
    assert_eq!(encoder.update_quadrature(true, false), None);
    assert_eq!(encoder.update_quadrature(true, true), Some(Event::Cw));
}

#[test]
fn no_step_is_lost() {
    let mut encoder = Encoder::new(false, false, false);
    let mut position = 0i32;
    let mut detents = 0i32;
    for k in 0..1000i32 {
        let step = if (k * 7 + k / 13) % 5 < 3 { 1 } else { -1 };
        position += step;
        let (a, b) = CW[position.rem_euclid(4) as usize];
        match encoder.update_quadrature(a, b) {
            Some(Event::Cw) => detents += 1,
            Some(Event::Ccw) => detents -= 1,
            _ => {}
        }
        assert!((position - 4 * detents).abs() < 4);
    }
    assert!(position > 100);
}

#[test]
fn rereading_changes_nothing() {
    let mut encoder = Encoder::new(false, false, false);
    encoder.update_quadrature(true, false);
    for _ in 0..20 {
        assert_eq!(encoder.next(true, false, false), Next::WaitForEdge);
    }
}

#[test]
fn next_reports_turns_before_the_switch() {
    let mut encoder = Encoder::new(false, false, false);
    assert_eq!(encoder.next(false, false, false), Next::WaitForEdge);
    assert_eq!(encoder.next(true, false, false), Next::WaitForEdge);
    assert_eq!(encoder.next(true, true, true), Next::Debounce);
    assert_eq!(encoder.next(false, true, true), Next::Debounce);
    assert_eq!(encoder.next(false, false, true), Next::Turned(Event::Cw));
    assert_eq!(encoder.next(false, false, true), Next::Debounce);
}

#[test]
fn one_click_per_press() {
    let mut encoder = Encoder::new(true, true, false);
    assert_eq!(encoder.debounce_switch(false), None);
    assert_eq!(encoder.debounce_switch(true), Some(Event::Click));
    assert_eq!(encoder.debounce_switch(true), None);
    assert_eq!(encoder.next(true, true, true), Next::WaitForEdge);
    assert_eq!(encoder.debounce_switch(false), None);
    assert_eq!(encoder.debounce_switch(true), Some(Event::Click));
}

#[test]
fn bounces_count_for_nothing() {
    let mut encoder = Encoder::new(true, true, false);
    for i in 0..20 {
        assert_eq!(encoder.settle(true, i % 2 == 0), Settle::Wait(15));
    }
    // known to be up, so a steady press is still to come
    assert_eq!(encoder.next(true, true, true), Next::Debounce);
    assert_eq!(encoder.settle(false, true), Settle::Settled(Some(Event::Click)));
    assert_eq!(encoder.next(true, true, true), Next::WaitForEdge);
    assert_eq!(encoder.settle(true, false), Settle::Wait(15));
    assert_eq!(encoder.settle(false, true), Settle::Settled(None));
    assert_eq!(encoder.settle(false, false), Settle::Settled(None));
    assert_eq!(encoder.settle(false, true), Settle::Settled(Some(Event::Click)));
}

#[test]
fn pressed_at_boot_is_no_click() {
    let mut encoder = Encoder::new(true, true, true);
    assert_eq!(encoder.debounce_switch(true), None);
    assert_eq!(encoder.debounce_switch(false), None);
}

#[test]
fn adc_samples_are_centered_and_scaled() {
    assert_eq!(adc_to_pcm(2048), 0);
    assert_eq!(adc_to_pcm(0), -32768);
    assert_eq!(adc_to_pcm(4095), 32752);
    assert_eq!(adc_to_pcm(2049), 16);
}

#[test]
fn louder_stays_louder() {
    for s in 0..4095u16 {
        assert!(adc_to_pcm(s) < adc_to_pcm(s + 1));
    }
}

#[test]
fn short_read_is_zero_padded() {
    let mut mic = Mic::new();
    for (i, s) in mic.buf.iter_mut().enumerate() {
        *s = 2048 + i as u16;
    }
    let mut pcm = [77i16; 6];
    mic.read(4, &mut pcm);
    assert_eq!(pcm, [0, 16, 32, 48, 0, 0]);
    let mut pcm = [77i16; 3];
    mic.read(320, &mut pcm);
    assert_eq!(pcm, [0, 16, 32]);
    let mut pcm = [77i16; 2];
    mic.read(0, &mut pcm);
    assert_eq!(pcm, [0, 0]);
    assert_eq!(Mic::new().buf.len(), 320);
}

#[test]
fn frames_make_up_the_packet() {
    let packet: Vec<i16> = (0..2560).collect();
    let frames = send_to_speaker(&packet);
    assert_eq!(frames.len(), 4);
    assert!(frames.iter().all(|f| f.len() == 640));
    assert_eq!(frames.concat(), packet);
    let mut longer = packet.clone();
    longer.push(1);
    assert_eq!(send_to_speaker(&longer).concat(), packet);
}

#[test]
fn samples_as_little_endian_bytes() {
    assert_eq!(
        pcm_as_bytes(&[0x1234, -1, i16::MIN, 256]),
        vec![0x34, 0x12, 0xFF, 0xFF, 0x00, 0x80, 0x00, 0x01]
    );
    for s in [i16::MIN, -257, -1, 0, 1, 255, i16::MAX] {
        assert_eq!(pcm_as_bytes(&[s]), s.to_le_bytes().to_vec());
    }
}

#[test]
fn speaker_asks_when_one_frame_is_left() {
    assert!(wants_packet(0));
    assert!(wants_packet(1));
    assert!(!wants_packet(2));
}

#[test]
fn underrun_only_mid_stream() {
    assert!(is_underrun(true, 499, 6));
    assert!(!is_underrun(false, 499, 6));
    assert!(!is_underrun(true, 500, 6));
    assert!(!is_underrun(true, 499, 5));
}

#[test]
fn pixels_in_page_layout() {
    let mut frame = Frame::new();
    assert_eq!(frame.size(), (128, 64));
    frame.set_pixel(0, 0, true);
    frame.set_pixel(5, 9, true);
    frame.set_pixel(127, 63, true);
    let bytes = frame.as_bytes();
    assert_eq!(bytes.len(), 1024);
    assert_eq!(bytes[0], 0x01);
    assert_eq!(bytes[128 + 5], 0x02);
    assert_eq!(bytes[1023], 0x80);
    assert_eq!(bytes.iter().filter(|b| **b != 0).count(), 3);
    frame.set_pixel(5, 9, false);
    assert_eq!(frame.as_bytes()[133], 0);
    assert_eq!(frame.as_bytes()[1023], 0x80);
}

#[test]
fn latest_pixel_wins_and_others_are_clipped() {
    let mut frame = Frame::new();
    frame.draw_iter(&[
        Pixel { x: 3, y: 3, on: true },
        Pixel { x: -1, y: 0, on: true },
        Pixel { x: 128, y: 0, on: true },
        Pixel { x: 0, y: 64, on: true },
        Pixel { x: 0, y: -5, on: true },
        Pixel { x: 3, y: 3, on: false },
        Pixel { x: 4, y: 3, on: true },
    ]);
    assert_eq!(frame.as_bytes()[3], 0);
    assert_eq!(frame.as_bytes()[4], 0x08);
    assert_eq!(frame.as_bytes().iter().filter(|b| **b != 0).count(), 1);
}

#[test]
fn every_pixel_has_a_bit_of_its_own() {
    let mut frame = Frame::new();
    let mut lit = 0;
    for y in 0..64 {
        for x in 0..128 {
            frame.set_pixel(x, y, true);
            lit += 1;
            if x % 37 == 0 {
                let ones: u32 = frame.as_bytes().iter().map(|b| b.count_ones()).sum();
                assert_eq!(ones, lit);
            }
        }
    }
}

#[test]
fn clear_fills_the_panel() {
    let mut frame = Frame::new();
    frame.clear(true);
    assert!(frame.as_bytes().iter().all(|b| *b == 0xFF));
    frame.clear(false);
    assert!(frame.as_bytes().iter().all(|b| *b == 0));
}

fn marked(screen: &mut Screen, x: usize) -> Frame {
    let mut frame = screen.frame().expect("a frame");
    assert!(frame.as_bytes().iter().all(|b| *b == 0));
    frame.set_pixel(x, 0, true);
    frame
}

#[test]
fn latest_frame_wins() {
    let mut screen = Screen::new();
    let first = marked(&mut screen, 1);
    screen.show(first);
    let second = marked(&mut screen, 2);
    screen.show(second);
    let flushed = screen.take_ready().expect("shown");
    assert_eq!(flushed.as_bytes()[2], 1);
    assert_eq!(flushed.as_bytes()[1], 0);
    assert!(screen.take_ready().is_none());
}

#[test]
fn two_frames_circulate() {
    let mut screen = Screen::new();
    let a = screen.frame().expect("first");
    screen.show(a);
    // the thread holds one, the caller the other: none is left
    let flushing = screen.take_ready().expect("shown");
    let drawing = screen.frame().expect("second");
    assert!(screen.frame().is_none());
    screen.release(flushing);
    screen.show(drawing);
    // the frame that waits is replaced, not lost
    let again = screen.frame().expect("reclaimed");
    assert!(screen.take_ready().is_none());
    let other = screen.frame().expect("free");
    assert!(screen.frame().is_none());
    screen.show(again);
    screen.show(other);
    assert!(screen.take_ready().is_some());
    assert!(screen.frame().is_some());
    assert!(screen.frame().is_none());
}

#[test]
fn caller_gets_a_frame_whatever_the_thread_does() {
    let mut screen = Screen::new();
    let mut flushing: Option<Frame> = None;
    for k in 0..100 {
        let frame = screen.frame().expect("never waits");
        screen.show(frame);
        if k % 3 == 0 && flushing.is_none() {
            flushing = screen.take_ready();
        } else if k % 5 == 0 {
            if let Some(done) = flushing.take() {
                screen.release(done);
            }
        }
    }
}
