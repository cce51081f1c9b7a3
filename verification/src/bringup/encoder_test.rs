//! Encoder bringup test: live A/B/SW state plus a quadrature counter and click
//! count.

use vstd::prelude::*;

use crate::devices::encoder::{cw_position, gray_phase, step_between};
use crate::text::{decimal, push_decimal, push_signed, signed_decimal};

verus! {

/// What a change of the A/B pair was.
#[derive(Debug, Clone, Copy, PartialEq, Eq, Structural)]
pub enum Transition {
    Cw,
    Ccw,
    /// The pair jumped a state (bounce or a dead line).
    Jump,
}

pub struct EncoderTest {
    a: bool,
    b: bool,
    sw: bool,
    quad_count: i32,  // raw quadrature transitions (~4 per detent)
    clicks: u32,
}

/// State of the test: pins as last read (true: high) and what was counted.
pub ghost struct EncoderTestView {
    pub a: bool,
    pub b: bool,
    pub sw: bool,
    pub quad_count: int,
    pub clicks: int,
}

impl View for EncoderTest {
    type V = EncoderTestView;

    closed spec fn view(&self) -> EncoderTestView {
        EncoderTestView {
            a: self.a,
            b: self.b,
            sw: self.sw,
            quad_count: self.quad_count as int,
            clicks: self.clicks as int,
        }
    }
}

/// What it is when the pair goes from one state to another.
pub open spec fn transition_of(from: int, to: int) -> Option<Transition> {
    if from == to {
        None
    } else if step_between(from, to) == 1 {
        Some(Transition::Cw)
    } else if step_between(from, to) == -1 {
        Some(Transition::Ccw)
    } else {
        Some(Transition::Jump)
    }
}

/// Transitions counted as whole detents, rounded toward zero.
pub open spec fn detents_of(quad_count: int) -> int {
    if quad_count < 0 {
        -((-quad_count) / 4)
    } else {
        quad_count / 4
    }
}

/// A pin as a digit.
pub open spec fn pin_char(high: bool) -> Seq<char> {
    if high {
        "1"@
    } else {
        "0"@
    }
}

/// `text` with blanks put in front of it up to the given width.
pub open spec fn padded(text: Seq<char>, width: int) -> Seq<char> {
    Seq::new(
        if text.len() < width {
            (width - text.len()) as nat
        } else {
            0
        },
        |i: int| ' ',
    ) + text
}

/// The three lines on the screen.
pub open spec fn lines_of(s: EncoderTestView) -> (Seq<char>, Seq<char>, Seq<char>) {
    (
        "A"@ + pin_char(s.a) + " B"@ + pin_char(s.b) + " SW"@ + pin_char(s.sw),
        "rot "@ + padded(signed_decimal(detents_of(s.quad_count)), 4) + " ("@ + signed_decimal(
            s.quad_count,
        ) + ")"@,
        "clk "@ + decimal(s.clicks as nat),
    )
}

fn push_pin(text: &mut String, high: bool)
    ensures
        final(text)@ == old(text)@ + pin_char(high),
{
    text.append(
        if high {
            "1"
        } else {
            "0"
        },
    );
}

/// Appends `n` in decimal, right-aligned in 4 places.
fn push_padded(text: &mut String, n: i64)
    ensures
        final(text)@ == old(text)@ + padded(signed_decimal(n as int), 4),
{
    let mut number = String::new();
    push_signed(&mut number, n);
    assert(number@ =~= signed_decimal(n as int));
    let len = number.as_str().unicode_len();
    let mut i: usize = len;
    while i < 4
        invariant
            len == number@.len(),
            len <= i,
            i <= 4 || i == len,
            text@ == old(text)@ + Seq::new((i - len) as nat, |j: int| ' '),
        decreases 4 - i,
    {
        proof {
            reveal_strlit(" ");
        }
        text.append(" ");
        i += 1;
        assert(text@ =~= old(text)@ + Seq::new((i - len) as nat, |j: int| ' '));
    }
    text.append(number.as_str());
    assert(text@ =~= old(text)@ + padded(signed_decimal(n as int), 4));
}

impl EncoderTest {
    pub fn new(a: bool, b: bool, sw: bool) -> (test: Self)
        ensures
            test@ == (EncoderTestView { a, b, sw, quad_count: 0, clicks: 0 }),
    {
        EncoderTest { a, b, sw, quad_count: 0, clicks: 0 }
    }

    /// Takes in the pins. The answer is the transition, if the A/B pair changed,
    /// and whether the switch was pressed: a falling edge on SW is a click.
    pub fn poll(&mut self, a: bool, b: bool, sw: bool) -> (seen: (Option<Transition>, bool))
        requires
            i32::MIN < old(self)@.quad_count < i32::MAX,
            old(self)@.clicks < u32::MAX,
        ensures
            seen.0 == transition_of(
                cw_position(old(self)@.a, old(self)@.b),
                cw_position(a, b),
            ),
            seen.1 <==> old(self)@.sw && !sw,
            final(self)@ == (EncoderTestView {
                a,
                b,
                sw,
                quad_count: old(self)@.quad_count + step_between(
                    cw_position(old(self)@.a, old(self)@.b),
                    cw_position(a, b),
                ),
                clicks: old(self)@.clicks + (if seen.1 {
                    1int
                } else {
                    0int
                }),
            }),
    {
        let from = gray_phase(self.a, self.b);
        let to = gray_phase(a, b);
        let transition = match (to + 4 - from) % 4 {
            0 => None,
            1 => Some(Transition::Cw),
            3 => Some(Transition::Ccw),
            _ => Some(Transition::Jump),
        };
        match transition {
            Some(Transition::Cw) => {
                self.quad_count = self.quad_count + 1;
            },
            Some(Transition::Ccw) => {
                self.quad_count = self.quad_count - 1;
            },
            _ => {},
        }
        let clicked = self.sw && !sw;
        if clicked {
            self.clicks = self.clicks + 1;
        }
        self.a = a;
        self.b = b;
        self.sw = sw;
        (transition, clicked)
    }

    /// The lines on the screen: pins, rotation in detents and transitions, clicks.
    pub fn lines(&self) -> (lines: (String, String, String))
        ensures
            (lines.0@, lines.1@, lines.2@) == lines_of(self@),
    {
        let mut pins = "A".to_owned();
        push_pin(&mut pins, self.a);
        pins.append(" B");
        push_pin(&mut pins, self.b);
        pins.append(" SW");
        push_pin(&mut pins, self.sw);

        let quad_count = self.quad_count as i64;
        let detents: i64 = if quad_count < 0 {
            -((-quad_count) / 4)
        } else {
            quad_count / 4
        };
        let mut rotation = "rot ".to_owned();
        push_padded(&mut rotation, detents);
        rotation.append(" (");
        push_signed(&mut rotation, quad_count);
        rotation.append(")");

        let mut clicks = "clk ".to_owned();
        push_decimal(&mut clicks, self.clicks as u64);
        (pins, rotation, clicks)
    }
}

/// A turn of the pair by one state counts one, the turn back counts it off, and a
/// jump counts nothing; four of a kind are a detent, and the detents shown fall
/// short of the transitions counted by less than one detent.
pub proof fn law_count_follows_rotation(p: int, quad_count: int)
    requires
        0 <= p < 4,
    ensures
        step_between(p, (p + 1) % 4) == 1,
        step_between((p + 1) % 4, p) == -1,
        step_between(p, (p + 2) % 4) == 0,
        detents_of(4 * quad_count) == quad_count,
        -4 < quad_count - 4 * detents_of(quad_count) < 4,
{
}

/// What a change of the pair is called: a turn to the next state, to the one before, or
/// a jump to the one across; and nothing where it did not change.
pub proof fn law_transitions_are_named(from: int, to: int)
    requires
        0 <= from < 4,
        0 <= to < 4,
    ensures
        transition_of(from, to) is None <==> from == to,
        transition_of(from, to) == Some(Transition::Cw) <==> to == (from + 1) % 4,
        transition_of(from, to) == Some(Transition::Ccw) <==> from == (to + 1) % 4,
        transition_of(from, to) == Some(Transition::Jump) <==> to == (from + 2) % 4,
        step_between(from, from) == 0,
{
}

/// The detents shown are the transitions divided by 4, rounded toward 0.
pub proof fn law_detents_round_toward_zero(quad_count: int)
    ensures
        quad_count >= 0 ==> 0 <= quad_count - 4 * detents_of(quad_count) < 4,
        quad_count <= 0 ==> -4 < quad_count - 4 * detents_of(quad_count) <= 0,
{
}

/// The lines on the screen say how each pin is, and what was counted; the detents are
/// moved to the right by blanks, up to 4 places.
pub proof fn law_lines_say_what_was_counted(s: EncoderTestView, text: Seq<char>, i: int)
    ensures
        lines_of(s).0 == "A"@ + (if s.a {
            "1"@
        } else {
            "0"@
        }) + " B"@ + (if s.b {
            "1"@
        } else {
            "0"@
        }) + " SW"@ + (if s.sw {
            "1"@
        } else {
            "0"@
        }),
        lines_of(s).1 == "rot "@ + padded(signed_decimal(detents_of(s.quad_count)), 4) + " ("@
            + signed_decimal(s.quad_count) + ")"@,
        lines_of(s).2 == "clk "@ + decimal(s.clicks as nat),
        text.len() >= 4 ==> padded(text, 4) == text,
        text.len() < 4 ==> padded(text, 4).len() == 4,
        text.len() < 4 ==> padded(text, 4).skip(4 - text.len()) == text,
        text.len() < 4 && 0 <= i < 4 - text.len() ==> padded(text, 4)[i] == ' ',
{
    if text.len() >= 4 {
        assert(padded(text, 4) =~= text);
    } else {
        assert(padded(text, 4).skip(4 - text.len()) =~= text);
    }
}

} // verus!
