//! 128×64 SSD1306 OLED. Knows about pixels, nothing else.
//!
//! Double buffered, latest frame wins: callers draw into a [`Frame`] and hand it
//! to [`Screen::show`]. Another thread takes what is shown and pushes it to the
//! panel. Callers never wait for it — a frame shown while the bus is busy replaces
//! any still-pending one.

use vstd::prelude::*;

verus! {

pub const WIDTH: usize = 128;

pub const HEIGHT: usize = 64;

pub const FRAME_BYTES: usize = 1024;

/// A 1bpp framebuffer in SSD1306 page layout: each byte is a vertical strip of
/// 8 pixels, so it goes to the panel as-is with no conversion.
pub struct Frame(Box<[u8; FRAME_BYTES]>);

/// One pixel to draw: where, and whether it lights up.
#[derive(Debug, Clone, Copy, PartialEq, Eq, Structural)]
pub struct Pixel {
    pub x: i32,
    pub y: i32,
    pub on: bool,
}

/// Whether a point is on the panel.
pub open spec fn on_panel(x: int, y: int) -> bool {
    0 <= x < WIDTH && 0 <= y < HEIGHT
}

/// Whether bit `n` of a byte is set.
pub open spec fn bit_set(byte: u8, n: int) -> bool {
    byte & (1u8 << (n as u8)) != 0
}

/// Byte of the framebuffer that holds a pixel.
pub open spec fn strip_index(x: int, y: int) -> int {
    (y / 8) * WIDTH + x
}

/// Whether a pixel is lit in the framebuffer `bytes`.
pub open spec fn lit(bytes: Seq<u8>, x: int, y: int) -> bool {
    bit_set(bytes[strip_index(x, y)], y % 8)
}

/// The picture that `pixels` leave when drawn over a picture in which the pixel
/// at (x, y) was `before`: the last of them that hits (x, y) decides.
pub open spec fn drawn_over(before: bool, pixels: Seq<Pixel>, x: int, y: int) -> bool
    decreases pixels.len(),
{
    if pixels.len() == 0 {
        before
    } else if pixels.last().x == x && pixels.last().y == y {
        pixels.last().on
    } else {
        drawn_over(before, pixels.drop_last(), x, y)
    }
}

impl Frame {
    /// The bytes that go to the panel.
    pub closed spec fn bytes(self) -> Seq<u8> {
        self.0@
    }

    /// Whether a pixel is lit.
    pub open spec fn pixel(self, x: int, y: int) -> bool {
        lit(self.bytes(), x, y)
    }

    pub fn new() -> (frame: Self)
        ensures
            frame.bytes() == Seq::new(FRAME_BYTES as nat, |i: int| 0u8),
    {
        let frame = Frame(Box::new([0;FRAME_BYTES]));
        assert(frame.bytes() =~= Seq::new(FRAME_BYTES as nat, |i: int| 0u8));
        frame
    }

    /// Width and height of the panel.
    pub fn size(&self) -> (size: (u32, u32))
        ensures
            size == (WIDTH as u32, HEIGHT as u32),
    {
        (WIDTH as u32, HEIGHT as u32)
    }

    /// The framebuffer as the panel takes it.
    pub fn as_bytes(&self) -> (bytes: &[u8])
        ensures
            bytes@ == self.bytes(),
            bytes@.len() == FRAME_BYTES,
    {
        self.0.as_slice()
    }

    /// Light up or darken one pixel.
    pub fn set_pixel(&mut self, x: usize, y: usize, on: bool)
        requires
            on_panel(x as int, y as int),
        ensures
            final(self).bytes().len() == FRAME_BYTES,
            forall|px: int, py: int|
                on_panel(px, py) ==> #[trigger] final(self).pixel(px, py) == (if px == x && py
                    == y {
                    on
                } else {
                    old(self).pixel(px, py)
                }),
    {
        let idx = (y / 8) * WIDTH + x;
        let bit: u8 = 1u8 << ((y % 8) as u8);
        let before = self.0[idx];
        let after = if on {
            before | bit
        } else {
            before & !bit
        };
        self.0[idx] = after;
        proof {
            assert forall|px: int, py: int| on_panel(px, py) implies #[trigger] self.pixel(px, py)
                == (if px == x && py == y {
                on
            } else {
                old(self).pixel(px, py)
            }) by {
                if strip_index(px, py) == idx {
                    assert(px == x && py / 8 == y / 8);
                    lemma_bit_changed(before, (y % 8) as u8, (py % 8) as u8);
                }
            }
        }
    }

    /// Draw pixels one after the other; those off the panel are left out.
    pub fn draw_iter(&mut self, pixels: &[Pixel])
        ensures
            final(self).bytes().len() == FRAME_BYTES,
            forall|x: int, y: int|
                on_panel(x, y) ==> #[trigger] final(self).pixel(x, y) == drawn_over(
                    old(self).pixel(x, y),
                    pixels@,
                    x,
                    y,
                ),
    {
        let mut i: usize = 0;
        while i < pixels.len()
            invariant
                i <= pixels@.len(),
                forall|x: int, y: int|
                    on_panel(x, y) ==> #[trigger] self.pixel(x, y) == drawn_over(
                        old(self).pixel(x, y),
                        pixels@.take(i as int),
                        x,
                        y,
                    ),
            decreases pixels@.len() - i,
        {
            assert(pixels@.take(i + 1).drop_last() =~= pixels@.take(i as int));
            let p = pixels[i];
            if 0 <= p.x && p.x < WIDTH as i32 && 0 <= p.y && p.y < HEIGHT as i32 {
                self.set_pixel(p.x as usize, p.y as usize, p.on);
            }
            i += 1;
        }
        assert(pixels@.take(i as int) =~= pixels@);
    }

    /// Fill the whole panel.
    pub fn clear(&mut self, on: bool)
        ensures
            final(self).bytes() == filled(on),
            forall|x: int, y: int| on_panel(x, y) ==> #[trigger] final(self).pixel(x, y) == on,
    {
        let byte: u8 = if on {
            0xFF
        } else {
            0x00
        };
        let mut i: usize = 0;
        while i < FRAME_BYTES
            invariant
                i <= FRAME_BYTES,
                byte == (if on {
                    0xFFu8
                } else {
                    0x00u8
                }),
                forall|j: int| 0 <= j < i ==> self.bytes()[j] == byte,
            decreases FRAME_BYTES - i,
        {
            let ghost before = self.bytes();
            self.0[i] = byte;
            assert(self.bytes() =~= before.update(i as int, byte));
            i += 1;
        }
        assert(self.bytes() =~= filled(on));
        proof {
            assert forall|x: int, y: int| on_panel(x, y) implies #[trigger] self.pixel(x, y)
                == on by {
                lemma_bit_of_filled((y % 8) as u8);
            }
        }
    }
}

/// The framebuffer with every pixel lit, or with none.
pub open spec fn filled(on: bool) -> Seq<u8> {
    Seq::new(
        FRAME_BYTES as nat,
        |i: int|
            if on {
                0xFFu8
            } else {
                0x00u8
            },
    )
}

proof fn lemma_bit_changed(byte: u8, n: u8, m: u8)
    requires
        n < 8,
        m < 8,
    ensures
        bit_set(byte | (1u8 << n), m as int) == (n == m || bit_set(byte, m as int)),
        bit_set(byte & !(1u8 << n), m as int) == (n != m && bit_set(byte, m as int)),
{
    assert((((byte | (1u8 << n)) & (1u8 << m)) != 0) == (n == m || (byte & (1u8 << m)) != 0))
        by (bit_vector)
        requires
            n < 8 && m < 8,
    ;
    assert((((byte & !(1u8 << n)) & (1u8 << m)) != 0) == (n != m && (byte & (1u8 << m)) != 0))
        by (bit_vector)
        requires
            n < 8 && m < 8,
    ;
}

proof fn lemma_bit_of_filled(m: u8)
    requires
        m < 8,
    ensures
        bit_set(0xFF, m as int),
        !bit_set(0x00, m as int),
{
    assert(0xFFu8 & (1u8 << m) != 0) by (bit_vector)
        requires
            m < 8,
    ;
    assert(0x00u8 & (1u8 << m) == 0) by (bit_vector);
}

/// The latest of two pixels drawn to the same place is the one that is seen, and
/// a pixel off the panel, wherever it is, changes nothing on it.
pub proof fn law_latest_pixel_wins(before: bool, pixels: Seq<Pixel>, p: Pixel, x: int, y: int)
    requires
        on_panel(x, y),
    ensures
        p.x == x && p.y == y ==> drawn_over(before, pixels.push(p), x, y) == p.on,
        !on_panel(p.x as int, p.y as int) ==> drawn_over(before, pixels.push(p), x, y)
            == drawn_over(before, pixels, x, y),
{
    assert(pixels.push(p).drop_last() =~= pixels);
}

/// Every pixel has a bit of its own: no two points of the panel share one.
pub proof fn law_pixels_do_not_overlap(x1: int, y1: int, x2: int, y2: int)
    requires
        on_panel(x1, y1),
        on_panel(x2, y2),
        strip_index(x1, y1) == strip_index(x2, y2),
        y1 % 8 == y2 % 8,
    ensures
        x1 == x2 && y1 == y2,
        0 <= strip_index(x1, y1) < FRAME_BYTES,
{
}

/// Frames that circulate.
pub const POOL_FRAMES: usize = 2;

/// The frames that nobody is holding: those free to draw into, and the one that
/// waits to be flushed.
///
/// Two frames circulate: free → the caller draws → ready → the flushing thread →
/// free. The thread holds at most one, so as long as the caller holds at most one
/// too, the other is always free or ready.
pub struct Screen {
    free: Vec<Frame>,
    ready: Option<Frame>,
}

/// A [`Screen`] with its free frames as a sequence, oldest first.
pub ghost struct ScreenView {
    pub free: Seq<Frame>,
    pub ready: Option<Frame>,
}

impl ScreenView {
    /// How many frames are free or ready.
    pub open spec fn idle(self) -> int {
        self.free.len() + (if self.ready is Some {
            1int
        } else {
            0int
        })
    }

    /// The frames after one was taken to draw into, and the one taken. A frame
    /// that waits to be flushed is taken back first.
    pub open spec fn taken(self) -> (ScreenView, Option<Frame>) {
        match self.ready {
            Some(stale) => (ScreenView { free: self.free, ready: None }, Some(stale)),
            None => if self.free.len() > 0 {
                (ScreenView { free: self.free.skip(1), ready: None }, Some(self.free[0]))
            } else {
                (self, None)
            },
        }
    }

    /// The frames after one was put aside as free, if there is room for it.
    pub open spec fn freed(self, frame: Frame) -> ScreenView {
        if self.free.len() < POOL_FRAMES {
            ScreenView { free: self.free.push(frame), ready: self.ready }
        } else {
            self
        }
    }

    /// The frames after one was shown: it is now the one to flush, and the one
    /// that was to be flushed is free.
    pub open spec fn shown(self, frame: Frame) -> ScreenView {
        match self.ready {
            Some(stale) => ScreenView { ready: Some(frame), ..self.freed(stale) },
            None => ScreenView { free: self.free, ready: Some(frame) },
        }
    }

    /// The frames after the one to flush was taken, and that one.
    pub open spec fn flushed(self) -> (ScreenView, Option<Frame>) {
        (ScreenView { free: self.free, ready: None }, self.ready)
    }
}

impl View for Screen {
    type V = ScreenView;

    closed spec fn view(&self) -> ScreenView {
        ScreenView { free: self.free@, ready: self.ready }
    }
}

impl Screen {
    /// No more frames are free than circulate.
    pub open spec fn wf(self) -> bool {
        self@.free.len() <= POOL_FRAMES
    }

    /// Two blank frames, both free.
    pub fn new() -> (screen: Self)
        ensures
            screen.wf(),
            screen@.free.len() == POOL_FRAMES,
            screen@.ready is None,
            forall|i: int| 0 <= i < POOL_FRAMES ==> (#[trigger] screen@.free[i]).bytes() == filled(false),
    {
        let mut free: Vec<Frame> = Vec::new();
        free.push(Frame::new());
        free.push(Frame::new());
        assert(free@[0].bytes() =~= filled(false));
        assert(free@[1].bytes() =~= filled(false));
        Screen { free, ready: None }
    }

    /// Get a blank frame to draw into. If a frame is still waiting to be flushed,
    /// it's reclaimed — it would be overwritten anyway. There is none while the
    /// caller already holds one and the flushing thread the other.
    pub fn frame(&mut self) -> (frame: Option<Frame>)
        requires
            old(self).wf(),
        ensures
            final(self).wf(),
            final(self)@ == old(self)@.taken().0,
            frame is Some <==> old(self)@.taken().1 is Some,
            frame matches Some(f) ==> f.bytes() == filled(false),
    {
        let mut frame = match self.ready.take() {
            Some(stale) => stale,
            None => {
                if self.free.len() == 0 {
                    return None;
                }
                let oldest = self.free.remove(0);
                assert(self@.free =~= old(self)@.free.skip(1));
                oldest
            },
        };
        frame.clear(false);
        Some(frame)
    }

    /// Display a frame, replacing any frame still waiting to be flushed.
    pub fn show(&mut self, frame: Frame)
        requires
            old(self).wf(),
        ensures
            final(self).wf(),
            final(self)@ == old(self)@.shown(frame),
    {
        if let Some(stale) = self.ready.take() {
            self.release(stale);
        }
        self.ready = Some(frame);
    }

    /// Take the frame that waits to be flushed.
    pub fn take_ready(&mut self) -> (frame: Option<Frame>)
        ensures
            (final(self)@, frame) == old(self)@.flushed(),
            old(self).wf() ==> final(self).wf(),
    {
        self.ready.take()
    }

    /// Put a frame aside that has been flushed.
    pub fn release(&mut self, frame: Frame)
        requires
            old(self).wf(),
        ensures
            final(self).wf(),
            final(self)@ == old(self)@.freed(frame),
    {
        if self.free.len() < POOL_FRAMES {
            self.free.push(frame);
        }
    }
}

/// All the frames there are, wherever they are.
pub ghost struct Pool {
    pub screen: ScreenView,
    /// Whether the caller is drawing into a frame.
    pub drawing: bool,
    /// Whether the thread is flushing a frame.
    pub flushing: bool,
}

impl Pool {
    /// Two frames in all.
    pub open spec fn complete(self) -> bool {
        self.screen.idle() + (if self.drawing {
            1int
        } else {
            0int
        }) + (if self.flushing {
            1int
        } else {
            0int
        }) == POOL_FRAMES
    }
}

/// No frame is ever lost or made up: with two frames in all, there are two in all
/// after any of the four things that can happen to them.
pub proof fn law_frames_are_conserved(pool: Pool, frame: Frame)
    requires
        pool.complete(),
    ensures
        !pool.drawing ==> (Pool { screen: pool.screen.taken().0, drawing: true, ..pool }).complete(),
        pool.drawing ==> (Pool {
            screen: pool.screen.shown(frame),
            drawing: false,
            ..pool
        }).complete(),
        !pool.flushing && pool.screen.ready is Some ==> (Pool {
            screen: pool.screen.flushed().0,
            flushing: true,
            ..pool
        }).complete(),
        pool.flushing ==> (Pool {
            screen: pool.screen.freed(frame),
            flushing: false,
            ..pool
        }).complete(),
{
}

/// A caller that holds no frame always gets one at once, whatever the flushing
/// thread is doing.
pub proof fn law_caller_never_waits(pool: Pool)
    requires
        pool.complete(),
        !pool.drawing,
    ensures
        pool.screen.taken().1 is Some,
{
}

/// The latest frame wins: whatever was waiting, what is flushed next is the frame
/// that was shown last.
pub proof fn law_latest_frame_wins(screen: ScreenView, first: Frame, second: Frame)
    ensures
        screen.shown(second).flushed().1 == Some(second),
        screen.shown(first).shown(second).flushed().1 == Some(second),
{
}

/// Where a pixel is kept: the panel is 8 pages of 128 bytes, one for every 8 rows; the
/// byte of column `x` in a page holds 8 pixels from top to bottom, lowest bit first.
pub proof fn law_page_layout(bytes: Seq<u8>, x: int, y: int)
    requires
        0 <= x < 128,
        0 <= y < 64,
        bytes.len() == 1024,
    ensures
        on_panel(x, y),
        strip_index(x, y) == 128 * (y / 8) + x,
        ({
            let byte = bytes[128 * (y / 8) + x];
            &&& y % 8 == 0 ==> lit(bytes, x, y) == (byte & 1u8 != 0)
            &&& y % 8 == 1 ==> lit(bytes, x, y) == (byte & 2u8 != 0)
            &&& y % 8 == 2 ==> lit(bytes, x, y) == (byte & 4u8 != 0)
            &&& y % 8 == 3 ==> lit(bytes, x, y) == (byte & 8u8 != 0)
            &&& y % 8 == 4 ==> lit(bytes, x, y) == (byte & 16u8 != 0)
            &&& y % 8 == 5 ==> lit(bytes, x, y) == (byte & 32u8 != 0)
            &&& y % 8 == 6 ==> lit(bytes, x, y) == (byte & 64u8 != 0)
            &&& y % 8 == 7 ==> lit(bytes, x, y) == (byte & 128u8 != 0)
        }),
{
    assert(1u8 << 0u8 == 1 && 1u8 << 1u8 == 2 && 1u8 << 2u8 == 4 && 1u8 << 3u8 == 8 && 1u8 << 4u8
        == 16 && 1u8 << 5u8 == 32 && 1u8 << 6u8 == 64 && 1u8 << 7u8 == 128) by (bit_vector);
}

/// The panel is 128 by 64 points.
pub proof fn law_panel_is_128_by_64(x: int, y: int)
    ensures
        on_panel(x, y) <==> 0 <= x < 128 && 0 <= y < 64,
{
}

/// Pixels are drawn one after the other: one that hits a point makes it what the pixel
/// is, and one that does not leaves it; nothing drawn changes nothing.
pub proof fn law_pixels_are_drawn_in_turn(before: bool, pixels: Seq<Pixel>, p: Pixel, x: int, y: int)
    ensures
        drawn_over(before, seq![], x, y) == before,
        p.x == x && p.y == y ==> drawn_over(before, pixels.push(p), x, y) == p.on,
        !(p.x == x && p.y == y) ==> drawn_over(before, pixels.push(p), x, y) == drawn_over(
            before,
            pixels,
            x,
            y,
        ),
{
    assert(pixels.push(p).drop_last() =~= pixels);
}

/// A cleared frame is 1024 bytes, all 0; a filled one has every bit set.
pub proof fn law_cleared_frame_is_blank(i: int)
    requires
        0 <= i < 1024,
    ensures
        filled(false).len() == 1024,
        filled(false)[i] == 0,
        filled(true).len() == 1024,
        filled(true)[i] == 255,
{
}

/// Where frames go. One to draw into is the one that waits to be flushed, if there is
/// one, and else the one that has been free longest. One that is shown is the next to be
/// flushed, and the one that was is free. One that is given back is free, unless two
/// are already.
pub proof fn law_frames_go_round(screen: ScreenView, frame: Frame)
    ensures
        ({
            let (left, taken) = screen.taken();
            &&& left.ready is None
            &&& screen.ready is Some ==> taken == screen.ready && left.free == screen.free
            &&& screen.ready is None && screen.free.len() > 0 ==> taken == Some(screen.free[0])
                && left.free == screen.free.skip(1)
            &&& screen.ready is None && screen.free.len() == 0 ==> taken is None && left.free
                == screen.free
        }),
        screen.shown(frame).ready == Some(frame),
        screen.ready is None ==> screen.shown(frame).free == screen.free,
        screen.ready is Some && screen.free.len() < 2 ==> screen.shown(frame).free
            == screen.free.push(screen.ready->0),
        screen.flushed().1 == screen.ready,
        screen.flushed().0.ready is None,
        screen.flushed().0.free == screen.free,
        screen.freed(frame).ready == screen.ready,
        screen.free.len() < 2 ==> screen.freed(frame).free == screen.free.push(frame),
        screen.free.len() >= 2 ==> screen.freed(frame).free == screen.free,
{
}

/// A pixel of a frame is lit where the byte that goes to the panel says so: two frames
/// with the same bytes show the same picture, and one pixel lit is one bit set.
pub proof fn law_frame_shows_its_bytes(frame: Frame, other: Frame, x: int, y: int)
    requires
        0 <= x < 128,
        0 <= y < 64,
    ensures
        frame.pixel(x, y) == (frame.bytes()[128 * (y / 8) + x] & (1u8 << ((y % 8) as u8)) != 0),
        frame.bytes() == other.bytes() ==> frame.pixel(x, y) == other.pixel(x, y),
{
}

} // verus!
