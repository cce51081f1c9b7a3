use open_oswst::packet::TxRequest;
use open_oswst::radio::{IrqReport, Radio, RadioAction, RadioEvent};

const MS: u64 = 1_000_000;

fn request(bytes: &[u8]) -> TxRequest {
    let mut data = heapless::Vec::new();
    data.extend_from_slice(bytes).unwrap();
    TxRequest { data }
}

/// A radio in reception.
fn listening() -> Radio {
    let (radio, action) = Radio::new();
    assert!(matches!(action, RadioAction::EnterRx));
    let (radio, action) = radio.step(RadioEvent::Performed, 0);
    assert!(matches!(action, RadioAction::WaitIrqOrRequest));
    radio
}

fn preamble_at(radio: Radio, now: u64) -> Radio {
    let (radio, action) = radio.step(RadioEvent::Interrupt, now);
    assert!(matches!(action, RadioAction::ReadIrq));
    let (radio, action) = radio.step(RadioEvent::Irq(IrqReport::PreambleReceived), now);
    assert!(matches!(action, RadioAction::ClearIrq));
    let (radio, action) = radio.step(RadioEvent::Performed, now);
    assert!(matches!(action, RadioAction::WaitIrqOrRequest));
    radio
}

#[test]
fn received_packet_is_delivered() {
    let (radio, _) = listening().step(RadioEvent::Interrupt, 0);
    let (radio, action) = radio.step(RadioEvent::Irq(IrqReport::Done), 0);
    assert!(matches!(action, RadioAction::FetchPacket));
    let event = RadioEvent::Packet { bytes: vec![9, 8, 7], rssi: -100, snr: 3 };
    let (radio, action) = radio.step(event, 0);
    match action {
        RadioAction::Deliver(p) => {
            assert_eq!((&p.data[..], p.rssi, p.snr), (&[9u8, 8, 7][..], -100, 3))
        }
        _ => panic!("not delivered"),
    }
    let (radio, action) = radio.step(RadioEvent::Performed, 0);
    assert!(matches!(action, RadioAction::ClearIrq));
    let (_, action) = radio.step(RadioEvent::Performed, 0);
    assert!(matches!(action, RadioAction::WaitIrqOrRequest));
}

#[test]
fn largest_packet_is_delivered() {
    let (radio, _) = listening().step(RadioEvent::Interrupt, 0);
    let (radio, _) = radio.step(RadioEvent::Irq(IrqReport::Done), 0);
    let bytes: Vec<u8> = (0..255).collect();
    let event = RadioEvent::Packet { bytes: bytes.clone(), rssi: 0, snr: 0 };
    match radio.step(event, 0).1 {
        RadioAction::Deliver(p) => assert_eq!(p.data.to_vec(), bytes),
        _ => panic!("not delivered"),
    }
}

#[test]
fn failures_in_reception_lead_back_to_listening() {
    let (radio, action) = listening().step(RadioEvent::InterruptFailed, 0);
    assert!(matches!(action, RadioAction::WaitIrqOrRequest));
    let (radio, _) = radio.step(RadioEvent::Interrupt, 0);
    let (radio, _) = radio.step(RadioEvent::Irq(IrqReport::Done), 0);
    let (radio, action) = radio.step(RadioEvent::PacketFailed, 0);
    assert!(matches!(action, RadioAction::ClearIrq));
    let (radio, _) = radio.step(RadioEvent::Performed, 0);
    for report in [IrqReport::Nothing, IrqReport::Failed] {
        let radio = listening();
        let (radio, _) = radio.step(RadioEvent::Interrupt, 0);
        let (_, action) = radio.step(RadioEvent::Irq(report), 0);
        assert!(matches!(action, RadioAction::ClearIrq));
    }
    let (_, action) = radio.step(RadioEvent::Interrupt, 0);
    assert!(matches!(action, RadioAction::ReadIrq));
}

#[test]
fn clear_channel_sends_after_the_jitter() {
    let (radio, action) = listening().step(RadioEvent::Request(request(&[1, 2])), 0);
    assert!(matches!(action, RadioAction::DrawRandom));
    let (radio, action) = radio.step(RadioEvent::Random(47), 0);
    assert!(matches!(action, RadioAction::WaitIrqOrTimer(7)));
    let (radio, action) = radio.step(RadioEvent::TimerElapsed, 0);
    match action {
        RadioAction::Transmit(r) => assert_eq!(r.data.to_vec(), vec![1, 2]),
        _ => panic!("not sent"),
    }
    let (radio, action) = radio.step(RadioEvent::Performed, 0);
    assert!(matches!(action, RadioAction::EnterRx));
    let (_, action) = radio.step(RadioEvent::Performed, 0);
    assert!(matches!(action, RadioAction::WaitIrqOrRequest));
}

#[test]
fn jitter_is_shorter_than_twenty() {
    for n in [0u32, 19, 20, 21, u32::MAX] {
        let (radio, _) = listening().step(RadioEvent::Request(request(&[])), 0);
        match radio.step(RadioEvent::Random(n), 0).1 {
            RadioAction::WaitIrqOrTimer(ms) => assert_eq!(ms, (n % 20) as u64),
            _ => panic!("no wait"),
        }
    }
}

#[test]
fn ongoing_reception_is_awaited() {
    let radio = preamble_at(listening(), 1000 * MS);
    let (radio, action) = radio.step(RadioEvent::Request(request(&[5])), 1200 * MS - 1);
    assert!(matches!(action, RadioAction::WaitIrq));
    let (radio, action) = radio.step(RadioEvent::Interrupt, 0);
    assert!(matches!(action, RadioAction::ReadIrq));
    // yet another preamble: keep waiting
    let (radio, _) = radio.step(RadioEvent::Irq(IrqReport::PreambleReceived), 0);
    let (radio, action) = radio.step(RadioEvent::Performed, 0);
    assert!(matches!(action, RadioAction::WaitIrq));
    let (radio, _) = radio.step(RadioEvent::Interrupt, 0);
    let (radio, action) = radio.step(RadioEvent::Irq(IrqReport::Done), 0);
    assert!(matches!(action, RadioAction::ClearIrq));
    let (radio, action) = radio.step(RadioEvent::Performed, 0);
    assert!(matches!(action, RadioAction::DrawRandom));
    let (radio, _) = radio.step(RadioEvent::Random(0), 0);
    match radio.step(RadioEvent::TimerElapsed, 0).1 {
        RadioAction::Transmit(r) => assert_eq!(r.data.to_vec(), vec![5]),
        _ => panic!("not sent"),
    }
}

#[test]
fn old_preamble_does_not_hold_up_sending() {
    let radio = preamble_at(listening(), 1000 * MS);
    let (_, action) = radio.step(RadioEvent::Request(request(&[5])), 1200 * MS);
    assert!(matches!(action, RadioAction::DrawRandom));
}

#[test]
fn finished_reception_does_not_hold_up_sending() {
    let radio = preamble_at(listening(), 1000 * MS);
    let (radio, _) = radio.step(RadioEvent::Interrupt, 1050 * MS);
    let (radio, _) = radio.step(RadioEvent::Irq(IrqReport::Nothing), 1050 * MS);
    let (radio, _) = radio.step(RadioEvent::Performed, 1050 * MS);
    let (_, action) = radio.step(RadioEvent::Request(request(&[5])), 1060 * MS);
    assert!(matches!(action, RadioAction::DrawRandom));
}

#[test]
fn someone_else_starting_in_the_jitter_goes_first() {
    let (radio, _) = listening().step(RadioEvent::Request(request(&[5])), 0);
    let (radio, _) = radio.step(RadioEvent::Random(10), 0);
    let (radio, action) = radio.step(RadioEvent::Interrupt, MS);
    assert!(matches!(action, RadioAction::ReadIrq));
    let (radio, action) = radio.step(RadioEvent::Irq(IrqReport::PreambleReceived), MS);
    assert!(matches!(action, RadioAction::ClearIrq));
    let (_, action) = radio.step(RadioEvent::Performed, MS);
    assert!(matches!(action, RadioAction::WaitIrq));
}

#[test]
fn other_interrupts_in_the_jitter_start_it_again() {
    for raised in [true, false] {
        let (radio, _) = listening().step(RadioEvent::Request(request(&[5])), 0);
        let (radio, _) = radio.step(RadioEvent::Random(10), 0);
        let event = if raised { RadioEvent::Interrupt } else { RadioEvent::InterruptFailed };
        let (radio, _) = radio.step(event, MS);
        let (radio, _) = radio.step(RadioEvent::Irq(IrqReport::Nothing), MS);
        let (radio, action) = radio.step(RadioEvent::Performed, MS);
        assert!(matches!(action, RadioAction::DrawRandom));
        let (radio, _) = radio.step(RadioEvent::Random(1), MS);
        match radio.step(RadioEvent::TimerElapsed, 2 * MS).1 {
            RadioAction::Transmit(r) => assert_eq!(r.data.to_vec(), vec![5]),
            _ => panic!("not sent"),
        }
    }
}
