//! Rotary encoder with push switch. Hands out turn and click events; knows
//! nothing about what they mean.
//!
//! All state lives in the struct, and each call of `next` first compares the present
//! levels of the pins with those that were read last, so waiting for a pin can be
//! given up at any point. What the pins do between two reads is not seen: a turn that
//! brings them back to where they were read counts as no turn.

use vstd::prelude::*;

verus! {

/// Switch must hold steady this long to count as a press or release
pub const DEBOUNCE_MS: u64 = 15;

/// Quadrature transitions per detent (one "click" of the knob)
pub const STEPS_PER_DETENT: i8 = 4;

#[derive(Debug, Clone, Copy, PartialEq, Eq, Structural)]
pub enum Event {
    Cw,
    Ccw,
    Click,
}

/// What the encoder wants next.
#[derive(Debug, Clone, Copy, PartialEq, Eq, Structural)]
pub enum Next {
    /// A detent was completed.
    Turned(Event),
    /// The switch moved: wait for another edge or for [`DEBOUNCE_MS`] to pass,
    /// whichever is first, then call `settle`.
    Debounce,
    /// Nothing to report: wait for an edge on any of the three pins.
    WaitForEdge,
}

/// What comes of a wait for the switch to hold steady.
#[derive(Debug, Clone, Copy, PartialEq, Eq, Structural)]
pub enum Settle {
    /// It has not held steady yet: wait for another edge or for this many milliseconds
    /// to pass, whichever is first, then call `settle` again.
    Wait(u64),
    /// It has held steady; a new press is a click.
    Settled(Option<Event>),
}

pub struct Encoder {
    phase: u8,  // gray-code position 0..4
    steps: i8,  // transitions accumulated toward the next detent
    pressed: bool,  // debounced switch state
}

/// Encoder state as numbers.
pub ghost struct EncoderView {
    pub phase: int,
    pub steps: int,
    pub pressed: bool,
}

/// Position of the pins in the clockwise sequence 00 → 10 → 11 → 01.
pub open spec fn cw_position(a: bool, b: bool) -> int {
    if !a && !b {
        0
    } else if a && !b {
        1
    } else if a && b {
        2
    } else {
        3
    }
}

/// The step that a change of position is: one forward, one back, or none where
/// the position stayed or jumped over one.
pub open spec fn step_between(from: int, to: int) -> int {
    if (to - from) % 4 == 1 {
        1
    } else if (to - from) % 4 == 3 {
        -1
    } else {
        0
    }
}

/// The turn that a count of steps amounts to.
pub open spec fn turn_of(steps: int) -> Option<Event> {
    if steps >= STEPS_PER_DETENT {
        Some(Event::Cw)
    } else if steps <= -STEPS_PER_DETENT {
        Some(Event::Ccw)
    } else {
        None
    }
}

/// The steps that a turn uses up.
pub open spec fn detent_steps(event: Option<Event>) -> int {
    match event {
        Some(Event::Cw) => STEPS_PER_DETENT as int,
        Some(Event::Ccw) => -STEPS_PER_DETENT,
        _ => 0,
    }
}

/// The click that it is when the switch, last known to be `pressed`, settles.
pub open spec fn click_of(pressed: bool, sw_low: bool) -> Option<Event> {
    if sw_low && !pressed {
        Some(Event::Click)
    } else {
        None
    }
}

impl EncoderView {
    /// Steps taken once the pins have been read at `phase`.
    pub open spec fn steps_at(self, phase: int) -> int {
        self.steps + step_between(self.phase, phase)
    }

    /// The turn, if any, that is complete once the pins have been read at `phase`.
    pub open spec fn turn_at(self, phase: int) -> Option<Event> {
        turn_of(self.steps_at(phase))
    }

    /// The state once the pins have been read at `phase`.
    pub open spec fn at(self, phase: int) -> EncoderView {
        EncoderView {
            phase,
            steps: self.steps_at(phase) - detent_steps(self.turn_at(phase)),
            pressed: self.pressed,
        }
    }

    /// The state after a wait for the switch to hold steady, and what comes of it: an
    /// edge changes nothing and starts the window anew, and a window without one makes
    /// the switch what it then is.
    pub open spec fn settling(self, edge: bool, sw_low: bool) -> (EncoderView, Settle) {
        if edge {
            (self, Settle::Wait(DEBOUNCE_MS))
        } else {
            (
                EncoderView { pressed: sw_low, ..self },
                Settle::Settled(click_of(self.pressed, sw_low)),
            )
        }
    }

    /// The state after one wait after the other, each given by whether an edge ended it
    /// and by how the switch then was.
    pub open spec fn after_waits(self, waits: Seq<(bool, bool)>) -> EncoderView
        decreases waits.len(),
    {
        if waits.len() == 0 {
            self
        } else {
            self.after_waits(waits.drop_last()).settling(waits.last().0, waits.last().1).0
        }
    }
}

impl View for Encoder {
    type V = EncoderView;

    closed spec fn view(&self) -> EncoderView {
        EncoderView { phase: self.phase as int, steps: self.steps as int, pressed: self.pressed }
    }
}

impl Encoder {
    /// A position is one of four, and less than a detent is pending.
    pub open spec fn wf(self) -> bool {
        &&& 0 <= self@.phase < 4
        &&& -STEPS_PER_DETENT < self@.steps < STEPS_PER_DETENT
    }

    /// An encoder whose pins read as given. The common ties to GND and the pins
    /// have pull-ups, so the switch is pressed where its pin is low.
    pub fn new(a_high: bool, b_high: bool, sw_low: bool) -> (encoder: Self)
        ensures
            encoder.wf(),
            encoder@ == (EncoderView {
                phase: cw_position(a_high, b_high),
                steps: 0,
                pressed: sw_low,
            }),
    {
        Encoder { phase: gray_phase(a_high, b_high), steps: 0, pressed: sw_low }
    }

    /// One pass of waiting for the next turn (one detent) or click.
    pub fn next(&mut self, a_high: bool, b_high: bool, sw_low: bool) -> (next: Next)
        requires
            old(self).wf(),
        ensures
            final(self).wf(),
            final(self)@ == old(self)@.at(cw_position(a_high, b_high)),
            next == (match old(self)@.turn_at(cw_position(a_high, b_high)) {
                Some(event) => Next::Turned(event),
                None => if sw_low != old(self)@.pressed {
                    Next::Debounce
                } else {
                    Next::WaitForEdge
                },
            }),
    {
        if let Some(event) = self.update_quadrature(a_high, b_high) {
            return Next::Turned(event);
        }
        if sw_low != self.pressed {
            return Next::Debounce;
        }
        Next::WaitForEdge
    }

    /// Advance the gray-code state machine; emit an event per full detent.
    pub fn update_quadrature(&mut self, a_high: bool, b_high: bool) -> (event: Option<Event>)
        requires
            old(self).wf(),
        ensures
            final(self).wf(),
            final(self)@ == old(self)@.at(cw_position(a_high, b_high)),
            event == old(self)@.turn_at(cw_position(a_high, b_high)),
    {
        let phase = gray_phase(a_high, b_high);
        match (phase + 4 - self.phase) % 4 {
            1 => self.steps = self.steps + 1,
            3 => self.steps = self.steps - 1,
            _ => {},  // no change, or skipped a state (bounce) — ignore
        }
        self.phase = phase;
        if self.steps >= STEPS_PER_DETENT {
            self.steps = self.steps - STEPS_PER_DETENT;
            Some(Event::Cw)
        } else if self.steps <= -STEPS_PER_DETENT {
            self.steps = self.steps + STEPS_PER_DETENT;
            Some(Event::Ccw)
        } else {
            None
        }
    }

    /// A wait for the switch to hold steady has ended, by an edge or because the
    /// window has passed. Each edge restarts the stability window.
    pub fn settle(&mut self, edge: bool, sw_low: bool) -> (step: Settle)
        requires
            old(self).wf(),
        ensures
            final(self).wf(),
            (final(self)@, step) == old(self)@.settling(edge, sw_low),
    {
        if edge {
            Settle::Wait(DEBOUNCE_MS)
        } else {
            Settle::Settled(self.debounce_switch(sw_low))
        }
    }

    /// The switch has held steady: report a click on a new press.
    pub fn debounce_switch(&mut self, sw_low: bool) -> (event: Option<Event>)
        requires
            old(self).wf(),
        ensures
            final(self).wf(),
            final(self)@ == (EncoderView { pressed: sw_low, ..old(self)@ }),
            event == click_of(old(self)@.pressed, sw_low),
    {
        if sw_low == self.pressed {
            return None;
        }
        self.pressed = sw_low;
        if sw_low {
            Some(Event::Click)
        } else {
            None
        }
    }
}

/// Position in the CW sequence 00 → 10 → 11 → 01.
pub fn gray_phase(a: bool, b: bool) -> (phase: u8)
    ensures
        phase == cw_position(a, b),
        phase < 4,
        !a && !b ==> phase == 0,
        a && !b ==> phase == 1,
        a && b ==> phase == 2,
        !a && b ==> phase == 3,
{
    match (a, b) {
        (false, false) => 0,
        (true, false) => 1,
        (true, true) => 2,
        (false, true) => 3,
    }
}

/// The state after the pins have been read at each of `phases` in turn.
pub open spec fn after_reads(encoder: EncoderView, phases: Seq<int>) -> EncoderView
    decreases phases.len(),
{
    if phases.len() == 0 {
        encoder
    } else {
        after_reads(encoder, phases.drop_last()).at(phases.last())
    }
}

/// Detents reported while the pins were read at each of `phases` in turn,
/// clockwise ones counting up and the others down.
pub open spec fn detents_reported(encoder: EncoderView, phases: Seq<int>) -> int
    decreases phases.len(),
{
    if phases.len() == 0 {
        0
    } else {
        let before = after_reads(encoder, phases.drop_last());
        detents_reported(encoder, phases.drop_last()) + (match before.turn_at(phases.last()) {
            Some(Event::Cw) => 1int,
            Some(Event::Ccw) => -1int,
            _ => 0int,
        })
    }
}

/// Steps that the positions in `phases` amount to, read one after the other.
pub open spec fn steps_taken(start: int, phases: Seq<int>) -> int
    decreases phases.len(),
{
    if phases.len() == 0 {
        0
    } else {
        let from = if phases.len() == 1 {
            start
        } else {
            phases[phases.len() - 2]
        };
        steps_taken(start, phases.drop_last()) + step_between(from, phases.last())
    }
}

/// No step that was read is lost or counted twice: over any run of reads, the detents
/// that were reported and the steps still pending make up exactly the steps from each
/// read to the next.
pub proof fn law_no_step_lost(encoder: EncoderView, phases: Seq<int>)
    ensures
        encoder.steps + steps_taken(encoder.phase, phases) == STEPS_PER_DETENT * detents_reported(
            encoder,
            phases,
        ) + after_reads(encoder, phases).steps,
        phases.len() > 0 ==> after_reads(encoder, phases).phase == phases.last(),
    decreases phases.len(),
{
    if phases.len() > 0 {
        law_no_step_lost(encoder, phases.drop_last());
    }
}

/// A step and the step back cancel out: the knob that returns to where it was
/// leaves the count of steps, and the turns reported, as they were.
pub proof fn law_step_back_cancels(encoder: EncoderView, phase: int)
    requires
        0 <= encoder.phase < 4,
        0 <= phase < 4,
        -STEPS_PER_DETENT < encoder.steps < STEPS_PER_DETENT,
    ensures
        after_reads(encoder, seq![phase, encoder.phase]).phase == encoder.phase,
        STEPS_PER_DETENT * detents_reported(encoder, seq![phase, encoder.phase]) + after_reads(
            encoder,
            seq![phase, encoder.phase],
        ).steps == encoder.steps,
{
    let reads = seq![phase, encoder.phase];
    law_no_step_lost(encoder, reads);
    assert(reads.drop_last() =~= seq![phase]);
    assert(seq![phase].drop_last() =~= seq![]);
    reveal_with_fuel(steps_taken, 3);
}

/// One full clockwise cycle of the pins, from rest, is one clockwise detent; one
/// full cycle the other way is one counter-clockwise detent.
pub proof fn law_full_cycle_is_one_detent(encoder: EncoderView)
    requires
        0 <= encoder.phase < 4,
        encoder.steps == 0,
    ensures
        ({
            let p = encoder.phase;
            let cw = seq![(p + 1) % 4, (p + 2) % 4, (p + 3) % 4, p];
            let ccw = seq![(p + 3) % 4, (p + 2) % 4, (p + 1) % 4, p];
            &&& detents_reported(encoder, cw) == 1
            &&& after_reads(encoder, cw) == encoder
            &&& detents_reported(encoder, ccw) == -1
            &&& after_reads(encoder, ccw) == encoder
        }),
{
    let p = encoder.phase;
    let cw = seq![(p + 1) % 4, (p + 2) % 4, (p + 3) % 4, p];
    let ccw = seq![(p + 3) % 4, (p + 2) % 4, (p + 1) % 4, p];
    lemma_cycle_reads(encoder, cw);
    lemma_cycle_reads(encoder, ccw);
}

proof fn lemma_cycle_reads(encoder: EncoderView, reads: Seq<int>)
    requires
        reads.len() == 4,
    ensures
        ({
            let e1 = encoder.at(reads[0]);
            let e2 = e1.at(reads[1]);
            let e3 = e2.at(reads[2]);
            &&& after_reads(encoder, reads) == e3.at(reads[3])
            &&& detents_reported(encoder, reads) * STEPS_PER_DETENT == detent_steps(
                encoder.turn_at(reads[0]),
            ) + detent_steps(e1.turn_at(reads[1])) + detent_steps(e2.turn_at(reads[2]))
                + detent_steps(e3.turn_at(reads[3]))
        }),
{
    let r3 = reads.drop_last();
    let r2 = r3.drop_last();
    let r1 = r2.drop_last();
    assert(r1.drop_last() =~= seq![]);
    reveal_with_fuel(after_reads, 5);
    reveal_with_fuel(detents_reported, 5);
}

/// A press is reported once: a new press is a click, but as long as the switch
/// keeps still, settling again reports nothing, and so does letting go.
pub proof fn law_one_click_per_press(pressed: bool, sw_low: bool)
    ensures
        click_of(false, true) == Some(Event::Click),
        click_of(sw_low, sw_low) is None,
        click_of(pressed, false) is None,
{
}

/// However long the switch bounces, nothing counts until it has held steady for a
/// whole window: as long as every wait is ended by an edge, the state stays as it was
/// and another window is asked for; the first window without an edge decides, by how
/// the switch was known before and how it is then.
pub proof fn law_bounces_count_for_nothing(
    encoder: EncoderView,
    waits: Seq<(bool, bool)>,
    sw_low: bool,
)
    requires
        forall|i: int| 0 <= i < waits.len() ==> (#[trigger] waits[i]).0,
    ensures
        encoder.after_waits(waits) == encoder,
        encoder.after_waits(waits).settling(true, sw_low).1 == Settle::Wait(DEBOUNCE_MS),
        encoder.after_waits(waits).settling(false, sw_low) == (
            EncoderView { pressed: sw_low, ..encoder },
            Settle::Settled(click_of(encoder.pressed, sw_low)),
        ),
    decreases waits.len(),
{
    if waits.len() > 0 {
        assert(waits[waits.len() - 1].0);
        law_bounces_count_for_nothing(encoder, waits.drop_last(), sw_low);
    }
}

/// Reading the pins again before they move reports nothing and changes nothing,
/// so an interrupted wait can be taken up afresh.
pub proof fn law_rereading_changes_nothing(encoder: EncoderView, phase: int)
    requires
        -STEPS_PER_DETENT < encoder.steps < STEPS_PER_DETENT,
    ensures
        encoder.at(phase).at(phase) == encoder.at(phase),
        encoder.at(phase).turn_at(phase) is None,
{
}

/// One read of the pins, in full: the place they are at is noted; one place ahead of the
/// place read before is a step clockwise, one behind a step back, and anything else
/// none; the fourth step one way is reported as a turn that way, and with it the count
/// starts again from 0. Nothing is said of the switch.
pub proof fn law_steps_add_up_to_turns(encoder: EncoderView, phase: int)
    requires
        0 <= encoder.phase < 4,
        0 <= phase < 4,
        -4 < encoder.steps < 4,
    ensures
        ({
            let step: int = if phase == (encoder.phase + 1) % 4 {
                1
            } else if encoder.phase == (phase + 1) % 4 {
                -1
            } else {
                0
            };
            let after = encoder.at(phase);
            &&& after.phase == phase
            &&& after.pressed == encoder.pressed
            &&& encoder.steps + step == 4 ==> encoder.turn_at(phase) == Some(Event::Cw)
                && after.steps == 0
            &&& encoder.steps + step == -4 ==> encoder.turn_at(phase) == Some(Event::Ccw)
                && after.steps == 0
            &&& -4 < encoder.steps + step < 4 ==> encoder.turn_at(phase) is None && after.steps
                == encoder.steps + step
        }),
{
}

/// The pins go through their four states clockwise as 00, 10, 11, 01.
pub proof fn law_clockwise_order_of_the_pins()
    ensures
        cw_position(false, false) == 0,
        cw_position(true, false) == 1,
        cw_position(true, true) == 2,
        cw_position(false, true) == 3,
{
}

/// The switch counts when it has held steady, and for what it then is: an edge leaves
/// everything as it was and asks for another 15ms; a window without one notes how the
/// switch is, and is a click where it was up and is now down.
pub proof fn law_switch_counts_when_steady(encoder: EncoderView, sw_low: bool)
    ensures
        encoder.settling(true, sw_low) == (encoder, Settle::Wait(15)),
        encoder.settling(false, sw_low).0 == (EncoderView { pressed: sw_low, ..encoder }),
        encoder.settling(false, sw_low).1 == Settle::Settled(Some(Event::Click)) <==> sw_low
            && !encoder.pressed,
        encoder.settling(false, sw_low).1 == Settle::Settled(None) <==> !(sw_low
            && !encoder.pressed),
{
}

} // verus!
