//! The radio: listening, handing packets on, and sending when the channel is clear.
//!
//! The radio is in continuous reception except while it sends. Before it sends it
//! waits for a packet that is being received to end, and then for a random time in
//! which nobody else must start. [`Radio::step`] decides; the driver performs the
//! [`RadioAction`] that it answers with, and reports back with the next
//! [`RadioEvent`].
//!
//! Times are nanoseconds of a clock that never runs backwards.

use vstd::prelude::*;

use crate::packet::{packet_bytes, packet_from, RxPacket, TxRequest};

verus! {

/// After a preamble the channel counts as busy for less than this.
pub const BUSY_NS: u64 = 200_000_000;

/// The random wait before sending is shorter than this.
pub const MAX_JITTER_MS: u32 = 20;

/// What the interrupt registers of the radio say.
#[derive(Debug, Clone, Copy, PartialEq, Eq, Structural)]
pub enum IrqReport {
    /// Someone has started to transmit.
    PreambleReceived,
    /// A packet has been received.
    Done,
    /// Neither: the packet was damaged.
    Nothing,
    /// They could not be read.
    Failed,
}

/// What happened, in answer to the last action.
pub enum RadioEvent {
    /// The action has been performed.
    Performed,
    /// The interrupt line was raised.
    Interrupt,
    /// Waiting for the interrupt line failed.
    InterruptFailed,
    /// There is a packet to send.
    Request(TxRequest),
    /// The interrupt registers have been read.
    Irq(IrqReport),
    /// The received packet: its bytes and how well it was received.
    Packet { bytes: Vec<u8>, rssi: i16, snr: i16 },
    /// The received packet could not be fetched.
    PacketFailed,
    /// A random number has been drawn.
    Random(u32),
    /// The random wait is over.
    TimerElapsed,
}

/// What to do next.
pub enum RadioAction {
    /// Put the radio into continuous reception. Answer: `Performed`.
    EnterRx,
    /// Wait for an interrupt or for a packet to send. Answer: `Interrupt`,
    /// `InterruptFailed` or `Request`.
    WaitIrqOrRequest,
    /// Wait for an interrupt. Answer: `Interrupt`.
    WaitIrq,
    /// Wait for an interrupt, but no longer than this many milliseconds. Answer:
    /// `Interrupt`, `InterruptFailed` or `TimerElapsed`.
    WaitIrqOrTimer(u64),
    /// Read the interrupt registers. Answer: `Irq`.
    ReadIrq,
    /// Fetch the received packet. Answer: `Packet` or `PacketFailed`.
    FetchPacket,
    /// Hand a received packet on. Answer: `Performed`.
    Deliver(RxPacket),
    /// Clear the interrupt registers. Answer: `Performed`.
    ClearIrq,
    /// Draw a random number. Answer: `Random`.
    DrawRandom,
    /// Send a packet. Answer: `Performed`.
    Transmit(TxRequest),
}

/// What the radio is doing; a packet that waits to be sent is kept here.
enum Phase {
    EnteringRx,
    Listening,
    ReadingIrq,
    Fetching,
    Delivering,
    Clearing,
    BusyWaiting(TxRequest),
    BusyReading(TxRequest),
    /// Whether the registers said that yet another preamble was received.
    BusyClearing(TxRequest, bool),
    Drawing(TxRequest),
    Jitter(TxRequest),
    JitterReading(TxRequest),
    JitterClearing(TxRequest),
    Transmitting,
}

/// A phase of the radio, with the packet that waits to be sent as bytes.
pub ghost enum PhaseView {
    EnteringRx,
    Listening,
    ReadingIrq,
    Fetching,
    Delivering,
    Clearing,
    BusyWaiting(Seq<u8>),
    BusyReading(Seq<u8>),
    BusyClearing(Seq<u8>, bool),
    Drawing(Seq<u8>),
    Jitter(Seq<u8>),
    JitterReading(Seq<u8>),
    JitterClearing(Seq<u8>),
    Transmitting,
}

/// A [`RadioEvent`] with packets as bytes.
pub ghost enum EventView {
    Performed,
    Interrupt,
    InterruptFailed,
    Request(Seq<u8>),
    Irq(IrqReport),
    Packet { bytes: Seq<u8>, rssi: i16, snr: i16 },
    PacketFailed,
    Random(u32),
    TimerElapsed,
}

/// A [`RadioAction`] with packets as bytes.
pub ghost enum ActionView {
    EnterRx,
    WaitIrqOrRequest,
    WaitIrq,
    WaitIrqOrTimer(u64),
    ReadIrq,
    FetchPacket,
    Deliver { bytes: Seq<u8>, rssi: i16, snr: i16 },
    ClearIrq,
    DrawRandom,
    Transmit(Seq<u8>),
}

impl View for Phase {
    type V = PhaseView;

    closed spec fn view(&self) -> PhaseView {
        match *self {
            Phase::EnteringRx => PhaseView::EnteringRx,
            Phase::Listening => PhaseView::Listening,
            Phase::ReadingIrq => PhaseView::ReadingIrq,
            Phase::Fetching => PhaseView::Fetching,
            Phase::Delivering => PhaseView::Delivering,
            Phase::Clearing => PhaseView::Clearing,
            Phase::BusyWaiting(r) => PhaseView::BusyWaiting(packet_bytes(r.data)),
            Phase::BusyReading(r) => PhaseView::BusyReading(packet_bytes(r.data)),
            Phase::BusyClearing(r, again) => PhaseView::BusyClearing(packet_bytes(r.data), again),
            Phase::Drawing(r) => PhaseView::Drawing(packet_bytes(r.data)),
            Phase::Jitter(r) => PhaseView::Jitter(packet_bytes(r.data)),
            Phase::JitterReading(r) => PhaseView::JitterReading(packet_bytes(r.data)),
            Phase::JitterClearing(r) => PhaseView::JitterClearing(packet_bytes(r.data)),
            Phase::Transmitting => PhaseView::Transmitting,
        }
    }
}

impl View for RadioEvent {
    type V = EventView;

    open spec fn view(&self) -> EventView {
        match *self {
            RadioEvent::Performed => EventView::Performed,
            RadioEvent::Interrupt => EventView::Interrupt,
            RadioEvent::InterruptFailed => EventView::InterruptFailed,
            RadioEvent::Request(r) => EventView::Request(packet_bytes(r.data)),
            RadioEvent::Irq(report) => EventView::Irq(report),
            RadioEvent::Packet { bytes, rssi, snr } => EventView::Packet {
                bytes: bytes@,
                rssi,
                snr,
            },
            RadioEvent::PacketFailed => EventView::PacketFailed,
            RadioEvent::Random(n) => EventView::Random(n),
            RadioEvent::TimerElapsed => EventView::TimerElapsed,
        }
    }
}

impl View for RadioAction {
    type V = ActionView;

    open spec fn view(&self) -> ActionView {
        match *self {
            RadioAction::EnterRx => ActionView::EnterRx,
            RadioAction::WaitIrqOrRequest => ActionView::WaitIrqOrRequest,
            RadioAction::WaitIrq => ActionView::WaitIrq,
            RadioAction::WaitIrqOrTimer(ms) => ActionView::WaitIrqOrTimer(ms),
            RadioAction::ReadIrq => ActionView::ReadIrq,
            RadioAction::FetchPacket => ActionView::FetchPacket,
            RadioAction::Deliver(p) => ActionView::Deliver {
                bytes: packet_bytes(p.data),
                rssi: p.rssi,
                snr: p.snr,
            },
            RadioAction::ClearIrq => ActionView::ClearIrq,
            RadioAction::DrawRandom => ActionView::DrawRandom,
            RadioAction::Transmit(r) => ActionView::Transmit(packet_bytes(r.data)),
        }
    }
}

pub struct Radio {
    phase: Phase,
    /// When someone was last heard to start transmitting, unless that has ended.
    busy_since: Option<u64>,
}

/// The state of the radio.
pub ghost struct RadioView {
    pub phase: PhaseView,
    pub busy_since: Option<u64>,
}

impl View for Radio {
    type V = RadioView;

    closed spec fn view(&self) -> RadioView {
        RadioView { phase: self.phase@, busy_since: self.busy_since }
    }
}

/// Whether the channel counts as busy.
pub open spec fn channel_busy(busy_since: Option<u64>, now: u64) -> bool {
    busy_since matches Some(t) && now - t < BUSY_NS
}

/// The packet that waits to be sent.
pub open spec fn waiting(phase: PhaseView) -> Option<Seq<u8>> {
    match phase {
        PhaseView::BusyWaiting(data) => Some(data),
        PhaseView::BusyReading(data) => Some(data),
        PhaseView::BusyClearing(data, _) => Some(data),
        PhaseView::Drawing(data) => Some(data),
        PhaseView::Jitter(data) => Some(data),
        PhaseView::JitterReading(data) => Some(data),
        PhaseView::JitterClearing(data) => Some(data),
        _ => None,
    }
}

/// A packet is to be sent: if the channel is busy, the packet that is being
/// received is waited for, and otherwise the random wait begins.
pub open spec fn contending(busy_since: Option<u64>, data: Seq<u8>, now: u64) -> (
    RadioView,
    ActionView,
) {
    if channel_busy(busy_since, now) {
        (RadioView { phase: PhaseView::BusyWaiting(data), busy_since }, ActionView::WaitIrq)
    } else {
        (RadioView { phase: PhaseView::Drawing(data), busy_since: None }, ActionView::DrawRandom)
    }
}

impl RadioView {
    /// Which events can answer the action that was last asked for.
    pub open spec fn expects(self, event: EventView) -> bool {
        match self.phase {
            PhaseView::EnteringRx
            | PhaseView::Delivering
            | PhaseView::Clearing
            | PhaseView::BusyClearing(_, _)
            | PhaseView::JitterClearing(_)
            | PhaseView::Transmitting => event is Performed,
            PhaseView::Listening => event is Interrupt || event is InterruptFailed
                || event is Request,
            PhaseView::ReadingIrq
            | PhaseView::BusyReading(_)
            | PhaseView::JitterReading(_) => event is Irq,
            PhaseView::Fetching => event is PacketFailed || (event matches EventView::Packet {
                bytes,
                ..
            } && bytes.len() <= 255),
            PhaseView::BusyWaiting(_) => event is Interrupt,
            PhaseView::Drawing(_) => event is Random,
            PhaseView::Jitter(_) => event is Interrupt || event is InterruptFailed
                || event is TimerElapsed,
        }
    }

    /// The state after an event, and the action to perform.
    pub open spec fn after(self, event: EventView, now: u64) -> (RadioView, ActionView) {
        match (self.phase, event) {
            (PhaseView::EnteringRx, _) | (PhaseView::Clearing, _) => (
                RadioView { phase: PhaseView::Listening, ..self },
                ActionView::WaitIrqOrRequest,
            ),
            (PhaseView::Listening, EventView::Interrupt) => (
                RadioView { phase: PhaseView::ReadingIrq, ..self },
                ActionView::ReadIrq,
            ),
            (PhaseView::Listening, EventView::Request(data)) => contending(self.busy_since, data, now),
            (PhaseView::Listening, _) => (self, ActionView::WaitIrqOrRequest),
            (PhaseView::ReadingIrq, EventView::Irq(IrqReport::PreambleReceived)) => (
                RadioView { phase: PhaseView::Clearing, busy_since: Some(now) },
                ActionView::ClearIrq,
            ),
            (PhaseView::ReadingIrq, EventView::Irq(IrqReport::Done)) => (
                RadioView { phase: PhaseView::Fetching, busy_since: None },
                ActionView::FetchPacket,
            ),
            (PhaseView::ReadingIrq, _) => (
                RadioView { phase: PhaseView::Clearing, busy_since: None },
                ActionView::ClearIrq,
            ),
            (PhaseView::Fetching, EventView::Packet { bytes, rssi, snr }) => (
                RadioView { phase: PhaseView::Delivering, ..self },
                ActionView::Deliver { bytes, rssi, snr },
            ),
            (PhaseView::Fetching, _) | (PhaseView::Delivering, _) => (
                RadioView { phase: PhaseView::Clearing, ..self },
                ActionView::ClearIrq,
            ),
            (PhaseView::BusyWaiting(data), _) => (
                RadioView { phase: PhaseView::BusyReading(data), ..self },
                ActionView::ReadIrq,
            ),
            (PhaseView::BusyReading(data), _) => (
                RadioView {
                    phase: PhaseView::BusyClearing(
                        data,
                        event == EventView::Irq(IrqReport::PreambleReceived),
                    ),
                    ..self
                },
                ActionView::ClearIrq,
            ),
            (PhaseView::BusyClearing(data, true), _) => (
                RadioView { phase: PhaseView::BusyWaiting(data), ..self },
                ActionView::WaitIrq,
            ),
            (PhaseView::BusyClearing(data, false), _) => (
                RadioView { phase: PhaseView::Drawing(data), busy_since: None },
                ActionView::DrawRandom,
            ),
            (PhaseView::Drawing(data), EventView::Random(n)) => (
                RadioView { phase: PhaseView::Jitter(data), ..self },
                ActionView::WaitIrqOrTimer((n % MAX_JITTER_MS) as u64),
            ),
            (PhaseView::Drawing(_), _) => (self, ActionView::DrawRandom),
            (PhaseView::Jitter(data), EventView::TimerElapsed) => (
                RadioView { phase: PhaseView::Transmitting, ..self },
                ActionView::Transmit(data),
            ),
            (PhaseView::Jitter(data), _) => (
                RadioView { phase: PhaseView::JitterReading(data), ..self },
                ActionView::ReadIrq,
            ),
            (PhaseView::JitterReading(data), _) => (
                RadioView {
                    phase: PhaseView::JitterClearing(data),
                    busy_since: if event == EventView::Irq(IrqReport::PreambleReceived) {
                        Some(now)
                    } else {
                        self.busy_since
                    },
                },
                ActionView::ClearIrq,
            ),
            (PhaseView::JitterClearing(data), _) => contending(self.busy_since, data, now),
            (PhaseView::Transmitting, _) => (
                RadioView { phase: PhaseView::EnteringRx, ..self },
                ActionView::EnterRx,
            ),
        }
    }

    /// What holds whenever the driver is at work: the channel counts as clear from
    /// the draw of the random wait to the end of sending, unless the wait is cut
    /// short.
    pub open spec fn wf(self) -> bool {
        match self.phase {
            PhaseView::Drawing(_)
            | PhaseView::Jitter(_)
            | PhaseView::JitterReading(_)
            | PhaseView::Transmitting => self.busy_since is None,
            _ => true,
        }
    }
}

impl Radio {
    /// A radio that has just been set up, and the first action.
    pub fn new() -> (start: (Self, RadioAction))
        ensures
            start.0@ == (RadioView { phase: PhaseView::EnteringRx, busy_since: None }),
            start.0@.wf(),
            start.1@ == ActionView::EnterRx,
    {
        (Radio { phase: Phase::EnteringRx, busy_since: None }, RadioAction::EnterRx)
    }

    /// Takes in what happened and decides what to do next.
    pub fn step(self, event: RadioEvent, now: u64) -> (next: (Self, RadioAction))
        requires
            self@.wf(),
            self@.expects(event@),
        ensures
            (next.0@, next.1@) == self@.after(event@, now),
            next.0@.wf(),
    {
        let Radio { phase, busy_since } = self;
        match (phase, event) {
            (Phase::Listening, RadioEvent::Interrupt) => (
                Radio { phase: Phase::ReadingIrq, busy_since },
                RadioAction::ReadIrq,
            ),
            (Phase::Listening, RadioEvent::Request(request)) => contend(busy_since, request, now),
            (Phase::Listening, _) => (
                Radio { phase: Phase::Listening, busy_since },
                RadioAction::WaitIrqOrRequest,
            ),
            (Phase::ReadingIrq, RadioEvent::Irq(IrqReport::PreambleReceived)) => (
                Radio { phase: Phase::Clearing, busy_since: Some(now) },
                RadioAction::ClearIrq,
            ),
            (Phase::ReadingIrq, RadioEvent::Irq(IrqReport::Done)) => (
                Radio { phase: Phase::Fetching, busy_since: None },
                RadioAction::FetchPacket,
            ),
            (Phase::ReadingIrq, _) => (
                Radio { phase: Phase::Clearing, busy_since: None },
                RadioAction::ClearIrq,
            ),
            (Phase::Fetching, RadioEvent::Packet { bytes, rssi, snr }) => (
                Radio { phase: Phase::Delivering, busy_since },
                RadioAction::Deliver(
                    RxPacket { data: packet_from(bytes.as_slice()), rssi, snr },
                ),
            ),
            (Phase::Fetching, _) | (Phase::Delivering, _) => (
                Radio { phase: Phase::Clearing, busy_since },
                RadioAction::ClearIrq,
            ),
            // RX continuous keeps running — no re-setup needed
            (Phase::EnteringRx, _) | (Phase::Clearing, _) => (
                Radio { phase: Phase::Listening, busy_since },
                RadioAction::WaitIrqOrRequest,
            ),
            // If channel busy, wait for in-progress RX to finish
            (Phase::BusyWaiting(request), _) => (
                Radio { phase: Phase::BusyReading(request), busy_since },
                RadioAction::ReadIrq,
            ),
            (Phase::BusyReading(request), RadioEvent::Irq(IrqReport::PreambleReceived)) => (
                Radio { phase: Phase::BusyClearing(request, true), busy_since },
                RadioAction::ClearIrq,
            ),
            (Phase::BusyReading(request), _) => (
                Radio { phase: Phase::BusyClearing(request, false), busy_since },
                RadioAction::ClearIrq,
            ),
            (Phase::BusyClearing(request, true), _) => (
                Radio { phase: Phase::BusyWaiting(request), busy_since },
                RadioAction::WaitIrq,
            ),
            (Phase::BusyClearing(request, false), _) => (
                Radio { phase: Phase::Drawing(request), busy_since: None },
                RadioAction::DrawRandom,
            ),
            // Random jitter — listen during wait to detect new transmissions
            (Phase::Drawing(request), RadioEvent::Random(n)) => (
                Radio { phase: Phase::Jitter(request), busy_since },
                RadioAction::WaitIrqOrTimer((n % MAX_JITTER_MS) as u64),
            ),
            (Phase::Drawing(request), _) => (
                Radio { phase: Phase::Drawing(request), busy_since },
                RadioAction::DrawRandom,
            ),
            // Channel stayed clear, TX now
            (Phase::Jitter(request), RadioEvent::TimerElapsed) => (
                Radio { phase: Phase::Transmitting, busy_since },
                RadioAction::Transmit(request),
            ),
            // Someone started TX during our jitter — handle and retry
            (Phase::Jitter(request), _) => (
                Radio { phase: Phase::JitterReading(request), busy_since },
                RadioAction::ReadIrq,
            ),
            (Phase::JitterReading(request), RadioEvent::Irq(IrqReport::PreambleReceived)) => (
                Radio { phase: Phase::JitterClearing(request), busy_since: Some(now) },
                RadioAction::ClearIrq,
            ),
            (Phase::JitterReading(request), _) => (
                Radio { phase: Phase::JitterClearing(request), busy_since },
                RadioAction::ClearIrq,
            ),
            (Phase::JitterClearing(request), _) => contend(busy_since, request, now),
            // Back to RX continuous
            (Phase::Transmitting, _) => (
                Radio { phase: Phase::EnteringRx, busy_since },
                RadioAction::EnterRx,
            ),
        }
    }
}

/// CSMA: wait for channel clear, then random jitter while listening
fn contend(busy_since: Option<u64>, request: TxRequest, now: u64) -> (next: (Radio, RadioAction))
    ensures
        (next.0@, next.1@) == contending(busy_since, packet_bytes(request.data), now),
{
    if let Some(t) = busy_since {
        if now.saturating_sub(t) < BUSY_NS {
            return (Radio { phase: Phase::BusyWaiting(request), busy_since }, RadioAction::WaitIrq);
        }
    }
    (Radio { phase: Phase::Drawing(request), busy_since: None }, RadioAction::DrawRandom)
}

/// The random wait is always shorter than 20ms.
pub proof fn law_jitter_is_short(radio: RadioView, event: EventView, now: u64)
    requires
        radio.expects(event),
    ensures
        radio.after(event, now).1 matches ActionView::WaitIrqOrTimer(ms) ==> ms < 20,
{
}

/// The radio sends only at the end of a random wait in which no interrupt came, and
/// with the channel counting as clear.
pub proof fn law_sends_only_on_clear_channel(radio: RadioView, event: EventView, now: u64)
    requires
        radio.wf(),
        radio.expects(event),
        radio.after(event, now).1 is Transmit,
    ensures
        radio.phase is Jitter,
        event is TimerElapsed,
        radio.busy_since is None,
{
}

/// No packet to send is lost, altered or made up: one that was asked for waits
/// unchanged through every step, until the step that sends exactly it.
pub proof fn law_request_is_sent_unchanged(radio: RadioView, event: EventView, now: u64)
    requires
        radio.expects(event),
    ensures
        ({
            let (after, action) = radio.after(event, now);
            match waiting(radio.phase) {
                Some(data) => if action is Transmit {
                    action == ActionView::Transmit(data) && waiting(after.phase) is None
                } else {
                    waiting(after.phase) == Some(data)
                },
                None => {
                    &&& !(action is Transmit)
                    &&& waiting(after.phase) == (match event {
                        EventView::Request(data) => Some(data),
                        _ => None,
                    })
                },
            }
        }),
{
}

/// While a packet waits to be sent, no other is accepted.
pub proof fn law_one_request_at_a_time(radio: RadioView, data: Seq<u8>)
    requires
        waiting(radio.phase) is Some,
    ensures
        !radio.expects(EventView::Request(data)),
{
}

/// A packet heard to start less than 200ms ago is waited for: the radio that is
/// asked to send waits for its end before it draws the random wait.
pub proof fn law_ongoing_reception_is_awaited(
    radio: RadioView,
    data: Seq<u8>,
    heard: u64,
    now: u64,
)
    requires
        radio.phase is Listening,
        radio.busy_since == Some(heard),
        now - heard < BUSY_NS,
    ensures
        radio.after(EventView::Request(data), now).1 == ActionView::WaitIrq,
        radio.after(EventView::Request(data), now).0.phase == PhaseView::BusyWaiting(data),
{
}

/// What was received is handed on as it was received, and the interrupt is
/// cleared after it; then the radio listens again.
pub proof fn law_received_packet_is_delivered(
    radio: RadioView,
    bytes: Seq<u8>,
    rssi: i16,
    snr: i16,
    now: u64,
    t1: u64,
    t2: u64,
)
    requires
        radio.phase is Fetching,
        bytes.len() <= 255,
    ensures
        ({
            let (s1, a1) = radio.after(EventView::Packet { bytes, rssi, snr }, now);
            let (s2, a2) = s1.after(EventView::Performed, t1);
            let (s3, a3) = s2.after(EventView::Performed, t2);
            &&& a1 == (ActionView::Deliver { bytes, rssi, snr })
            &&& s1.expects(EventView::Performed)
            &&& a2 == ActionView::ClearIrq
            &&& s2.expects(EventView::Performed)
            &&& a3 == ActionView::WaitIrqOrRequest
            &&& s3.phase is Listening
        }),
{
}

/// After sending, the radio goes back to reception before anything else.
pub proof fn law_listens_after_sending(radio: RadioView, now: u64, later: u64)
    requires
        radio.phase is Transmitting,
    ensures
        ({
            let (s1, a1) = radio.after(EventView::Performed, now);
            let (s2, a2) = s1.after(EventView::Performed, later);
            &&& a1 == ActionView::EnterRx
            &&& s2.phase is Listening
            &&& a2 == ActionView::WaitIrqOrRequest
        }),
{
}

/// The radio is never stuck: in every state some event answers the action that was
/// asked for, and every answer leads on to a state in which the same holds.
pub proof fn law_every_action_has_an_answer(radio: RadioView, event: EventView, now: u64)
    requires
        radio.wf(),
    ensures
        exists|answer: EventView| radio.expects(answer),
        radio.expects(event) ==> radio.after(event, now).0.wf(),
{
    assert(radio.expects(EventView::Performed) || radio.expects(EventView::Interrupt)
        || radio.expects(EventView::Irq(IrqReport::Nothing)) || radio.expects(
        EventView::PacketFailed,
    ) || radio.expects(EventView::Random(0)));
}

/// A reception that has ended does not hold up sending. Once the registers have said
/// anything but that someone starts to transmit, and whatever fetching, handing on and
/// clearing follow, the radio listens again, and a packet to send is contended for at
/// once, at whatever time it comes.
pub proof fn law_ended_reception_frees_channel(
    radio: RadioView,
    report: IrqReport,
    packet: EventView,
    data: Seq<u8>,
    t0: u64,
    t1: u64,
    t2: u64,
    t3: u64,
    t4: u64,
)
    requires
        radio.phase is ReadingIrq,
        report != IrqReport::PreambleReceived,
        packet is Packet,
    ensures
        ({
            let (read, asked) = radio.after(EventView::Irq(report), t0);
            // nothing to fetch
            let dropped = read.after(EventView::Performed, t1).0;
            // fetched, handed on, cleared
            let fetched = read.after(packet, t1).0;
            let handed_on = fetched.after(EventView::Performed, t2).0;
            let cleared = handed_on.after(EventView::Performed, t3).0;
            // not to be fetched, cleared
            let failed = read.after(EventView::PacketFailed, t1).0.after(
                EventView::Performed,
                t2,
            ).0;
            &&& read.busy_since is None
            &&& read.phase is Fetching <==> asked is FetchPacket
            &&& report == IrqReport::Done <==> asked is FetchPacket
            &&& report != IrqReport::Done <==> asked is ClearIrq
            &&& asked is ClearIrq ==> {
                &&& dropped.phase is Listening
                &&& dropped.after(EventView::Request(data), t4).1 is DrawRandom
            }
            &&& asked is FetchPacket ==> {
                &&& cleared.phase is Listening
                &&& cleared.after(EventView::Request(data), t4).1 is DrawRandom
                &&& failed.phase is Listening
                &&& failed.after(EventView::Request(data), t4).1 is DrawRandom
            }
        }),
{
}

/// Someone who was heard to start transmitting is given 200ms: a packet to send that
/// comes earlier waits for an interrupt, and one that comes later is contended for at
/// once.
pub proof fn law_preamble_holds_up_sending(
    radio: RadioView,
    data: Seq<u8>,
    heard: u64,
    cleared: u64,
    now: u64,
)
    requires
        radio.phase is ReadingIrq,
    ensures
        ({
            let (s1, a1) = radio.after(EventView::Irq(IrqReport::PreambleReceived), heard);
            let (s2, a2) = s1.after(EventView::Performed, cleared);
            let (s3, a3) = s2.after(EventView::Request(data), now);
            &&& a1 is ClearIrq
            &&& a2 is WaitIrqOrRequest
            &&& now < heard + 200_000_000 ==> a3 is WaitIrq && s3.phase == PhaseView::BusyWaiting(
                data,
            )
            &&& now >= heard + 200_000_000 ==> a3 is DrawRandom && s3.phase == PhaseView::Drawing(
                data,
            )
        }),
{
}

/// The wait for a reception to end: every interrupt is read and cleared; if it says that
/// yet someone starts to transmit, the wait goes on, and after anything else the packet
/// is contended for, at whatever time that is.
pub proof fn law_busy_wait_ends_with_the_reception(
    radio: RadioView,
    data: Seq<u8>,
    report: IrqReport,
    t0: u64,
    t1: u64,
    t2: u64,
)
    requires
        radio.phase == PhaseView::BusyWaiting(data),
    ensures
        ({
            let (s1, a1) = radio.after(EventView::Interrupt, t0);
            let (s2, a2) = s1.after(EventView::Irq(report), t1);
            let (s3, a3) = s2.after(EventView::Performed, t2);
            &&& a1 is ReadIrq
            &&& a2 is ClearIrq
            &&& report == IrqReport::PreambleReceived ==> a3 is WaitIrq && s3.phase
                == PhaseView::BusyWaiting(data)
            &&& report != IrqReport::PreambleReceived ==> a3 is DrawRandom && s3.phase
                == PhaseView::Drawing(data) && s3.busy_since is None
        }),
{
}

/// Sending on a clear channel, from end to end: a random number is drawn, its remainder
/// by 20 is waited for in milliseconds, and if nothing is heard until then the packet is
/// sent as it was handed in; then the radio receives again, and listens.
pub proof fn law_clear_channel_is_sent_on(
    radio: RadioView,
    data: Seq<u8>,
    random: u32,
    t0: u64,
    t1: u64,
    t2: u64,
    t3: u64,
    t4: u64,
)
    requires
        radio.phase is Listening,
        radio.busy_since is None,
    ensures
        ({
            let (s1, a1) = radio.after(EventView::Request(data), t0);
            let (s2, a2) = s1.after(EventView::Random(random), t1);
            let (s3, a3) = s2.after(EventView::TimerElapsed, t2);
            let (s4, a4) = s3.after(EventView::Performed, t3);
            let (s5, a5) = s4.after(EventView::Performed, t4);
            &&& a1 == ActionView::DrawRandom
            &&& a2 is WaitIrqOrTimer
            &&& a2->WaitIrqOrTimer_0 == random % 20
            &&& a3 == ActionView::Transmit(data)
            &&& a4 == ActionView::EnterRx
            &&& a5 == ActionView::WaitIrqOrRequest
            &&& s5.phase is Listening
            &&& s5.busy_since is None
        }),
{
}

/// A random wait that is cut short by an interrupt sends nothing: the interrupt is read
/// and cleared; if someone started to transmit less than 200ms ago the packet waits for
/// that to end, and otherwise another random number is drawn for it.
pub proof fn law_cut_short_wait_sends_nothing(
    radio: RadioView,
    data: Seq<u8>,
    interrupt: EventView,
    report: IrqReport,
    t0: u64,
    heard: u64,
    now: u64,
)
    requires
        radio.wf(),
        radio.phase == PhaseView::Jitter(data),
        interrupt is Interrupt || interrupt is InterruptFailed,
    ensures
        ({
            let (s1, a1) = radio.after(interrupt, t0);
            let (s2, a2) = s1.after(EventView::Irq(report), heard);
            let (s3, a3) = s2.after(EventView::Performed, now);
            &&& a1 is ReadIrq
            &&& a2 is ClearIrq
            &&& report == IrqReport::PreambleReceived && now < heard + 200_000_000 ==> a3 is WaitIrq
                && s3.phase == PhaseView::BusyWaiting(data)
            &&& report != IrqReport::PreambleReceived || now >= heard + 200_000_000 ==> a3
                is DrawRandom && s3.phase == PhaseView::Drawing(data)
        }),
{
}

/// Listening: an interrupt is read, a failed wait is taken up again, and what the
/// registers say of the channel is noted.
pub proof fn law_interrupts_are_read_while_listening(radio: RadioView, now: u64)
    requires
        radio.phase is Listening,
    ensures
        radio.after(EventView::Interrupt, now).1 is ReadIrq,
        radio.after(EventView::Interrupt, now).0.phase is ReadingIrq,
        radio.after(EventView::Interrupt, now).0.busy_since == radio.busy_since,
        radio.after(EventView::InterruptFailed, now) == (radio, ActionView::WaitIrqOrRequest),
{
}

/// Whatever the radio asks for, every answer that can come of it is one it can take.
pub proof fn law_every_answer_is_taken(
    radio: RadioView,
    event: EventView,
    now: u64,
    data: Seq<u8>,
    report: IrqReport,
    random: u32,
    rssi: i16,
    snr: i16,
)
    requires
        radio.expects(event),
    ensures
        ({
            let (s, action) = radio.after(event, now);
            &&& action is EnterRx || action is Deliver || action is ClearIrq || action is Transmit
                ==> s.expects(EventView::Performed)
            &&& action is WaitIrqOrRequest ==> s.expects(EventView::Interrupt) && s.expects(
                EventView::InterruptFailed,
            ) && s.expects(EventView::Request(data))
            &&& action is WaitIrq ==> s.expects(EventView::Interrupt)
            &&& action is WaitIrqOrTimer ==> s.expects(EventView::Interrupt) && s.expects(
                EventView::InterruptFailed,
            ) && s.expects(EventView::TimerElapsed)
            &&& action is ReadIrq ==> s.expects(EventView::Irq(report))
            &&& action is FetchPacket ==> s.expects(EventView::PacketFailed) && (data.len() <= 255
                ==> s.expects(EventView::Packet { bytes: data, rssi, snr }))
            &&& action is DrawRandom ==> s.expects(EventView::Random(random))
        }),
{
}

/// Events and actions carry what they say they carry.
pub proof fn law_events_and_actions_are_read_as_they_are(event: RadioEvent, action: RadioAction)
    ensures
        event matches RadioEvent::Request(r) ==> event@ == EventView::Request(packet_bytes(r.data)),
        event matches RadioEvent::Irq(report) ==> event@ == EventView::Irq(report),
        event matches RadioEvent::Random(n) ==> event@ == EventView::Random(n),
        event matches RadioEvent::Packet { bytes, rssi, snr } ==> event@ == (EventView::Packet {
            bytes: bytes@,
            rssi,
            snr,
        }),
        event is Performed <==> event@ is Performed,
        event is Interrupt <==> event@ is Interrupt,
        event is InterruptFailed <==> event@ is InterruptFailed,
        event is PacketFailed <==> event@ is PacketFailed,
        event is TimerElapsed <==> event@ is TimerElapsed,
        action matches RadioAction::Transmit(r) ==> action@ == ActionView::Transmit(
            packet_bytes(r.data),
        ),
        action matches RadioAction::Deliver(p) ==> action@ == (ActionView::Deliver {
            bytes: packet_bytes(p.data),
            rssi: p.rssi,
            snr: p.snr,
        }),
        action matches RadioAction::WaitIrqOrTimer(ms) ==> action@ == ActionView::WaitIrqOrTimer(ms),
        action is EnterRx <==> action@ is EnterRx,
        action is WaitIrqOrRequest <==> action@ is WaitIrqOrRequest,
        action is WaitIrq <==> action@ is WaitIrq,
        action is ReadIrq <==> action@ is ReadIrq,
        action is FetchPacket <==> action@ is FetchPacket,
        action is ClearIrq <==> action@ is ClearIrq,
        action is DrawRandom <==> action@ is DrawRandom,
{
}

} // verus!
