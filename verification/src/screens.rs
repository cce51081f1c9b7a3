//! What the screens of the handset show: a list of things to draw, with their
//! places on the 128×64 panel.

use vstd::prelude::*;

use crate::app::{App, AppView, RxAction};
use crate::menu::{label_of, Item, LevelView, Menu, Setting};
use crate::packet::RxPacket;
use crate::text::{
    decimal, hex_address, lemma_decimal_length, push_decimal, push_signed, signed_decimal,
};

verus! {

/// One thing to draw, in the 6×10 font.
pub enum Draw {
    /// Text that starts at (x, y): on the baseline, or with its top there.
    /// Inverted text is dark on light.
    Text { text: String, x: i32, y: i32, top: bool, inverted: bool },
    /// A filled rectangle with its upper left corner at (x, y).
    Fill { x: i32, y: i32, width: u32, height: u32 },
}

/// A [`Draw`] with its text as characters.
pub ghost enum DrawView {
    Text { text: Seq<char>, x: int, y: int, top: bool, inverted: bool },
    Fill { x: int, y: int, width: int, height: int },
}

impl View for Draw {
    type V = DrawView;

    open spec fn view(&self) -> DrawView {
        match *self {
            Draw::Text { text, x, y, top, inverted } => DrawView::Text {
                text: text@,
                x: x as int,
                y: y as int,
                top,
                inverted,
            },
            Draw::Fill { x, y, width, height } => DrawView::Fill {
                x: x as int,
                y: y as int,
                width: width as int,
                height: height as int,
            },
        }
    }
}

/// All that is to be drawn.
pub open spec fn drawing(draws: Seq<Draw>) -> Seq<DrawView> {
    draws.map_values(|d: Draw| d@)
}

/// Top of the first row of the menu.
pub const TOP: i32 = 13;

/// Height of a row of the menu.
pub const ROW_H: i32 = 11;

/// Rows of the menu that fit on the screen.
pub const VISIBLE: usize = 4;

/// Plain text on its baseline.
pub open spec fn line_at(text: Seq<char>, x: int, y: int) -> DrawView {
    DrawView::Text { text, x, y, top: false, inverted: false }
}

/// Bottom line of the RX screens.
pub open spec fn status_line(s: AppView, volume: u8) -> Seq<DrawView> {
    let level = seq![line_at("Vol "@ + decimal(volume as nat), 1, 62)];
    if s.locked {
        level.push(line_at("LOCKED"@, 91, 62))
    } else {
        level
    }
}

pub open spec fn rx_screen(s: AppView, volume: u8) -> Seq<DrawView> {
    seq![line_at(s.mac, 1, 10), line_at("RX Listening"@, 16, 36)] + status_line(s, volume)
}

pub open spec fn rx_audio_screen(s: AppView, rssi: i16, snr: i16, volume: u8) -> Seq<DrawView> {
    seq![
        line_at(s.mac, 1, 10),
        line_at("RX Audio"@, 28, 32),
        line_at(
            "RSSI:"@ + signed_decimal(rssi as int) + " SNR:"@ + signed_decimal(snr as int),
            0,
            48,
        ),
    ] + status_line(s, volume)
}

pub open spec fn tx_screen(s: AppView) -> Seq<DrawView> {
    seq![line_at(s.mac, 1, 10), line_at("TX Streaming"@, 10, 36)]
}

/// Label of a row of a list, "Back" being the first.
pub open spec fn row_label(list: LevelView, i: int) -> Seq<char> {
    if i == 0 {
        "Back"@
    } else {
        label_of(list.items[i - 1])
    }
}

/// Whether a row is a choice that is the present value of its setting.
pub open spec fn row_current(s: AppView, list: LevelView, i: int) -> bool {
    &&& i > 0
    &&& list.items[i - 1] matches Item::Choice(_, setting, value) && s.setting(setting) == value
}

/// First row of a list that is on the screen: the list scrolls just far enough to
/// show the cursor.
pub open spec fn first_row(list: LevelView) -> int {
    if list.cursor < VISIBLE {
        0
    } else {
        list.cursor - (VISIBLE - 1)
    }
}

/// Rows of a list that are on the screen.
pub open spec fn rows_shown(list: LevelView) -> int {
    let rest = list.items.len() + 1 - first_row(list);
    if rest < VISIBLE {
        rest
    } else {
        VISIBLE as int
    }
}

/// Top of row `k` on the screen.
pub open spec fn row_top(k: int) -> int {
    TOP + k * ROW_H
}

/// What row `k` on the screen is drawn with.
pub open spec fn row_drawing(s: AppView, list: LevelView, k: int) -> Seq<DrawView> {
    let i = first_row(list) + k;
    let y = row_top(k);
    let inverted = i == list.cursor;
    let bar = if inverted {
        seq![DrawView::Fill { x: 0, y, width: 128, height: ROW_H as int }]
    } else {
        seq![]
    };
    let label = bar.push(
        DrawView::Text { text: row_label(list, i), x: 4, y: y + 1, top: true, inverted },
    );
    if row_current(s, list, i) {
        label.push(DrawView::Text { text: "*"@, x: 118, y: y + 1, top: true, inverted })
    } else {
        label
    }
}

/// The first `n` rows on the screen.
pub open spec fn rows_drawing(s: AppView, list: LevelView, n: int) -> Seq<DrawView>
    decreases n,
{
    if n <= 0 {
        seq![]
    } else {
        rows_drawing(s, list, n - 1) + row_drawing(s, list, n - 1)
    }
}

pub open spec fn menu_screen(s: AppView, list: LevelView) -> Seq<DrawView> {
    seq![line_at(list.title, 1, 9)] + rows_drawing(s, list, rows_shown(list))
}

fn line(text: String, x: i32, y: i32) -> (draw: Draw)
    ensures
        draw@ == line_at(text@, x as int, y as int),
{
    Draw::Text { text, x, y, top: false, inverted: false }
}

impl App {
    pub fn draw_rx_screen(&self, volume: u8) -> (draws: Vec<Draw>)
        ensures
            drawing(draws@) == rx_screen(self@, volume),
    {
        let mut draws: Vec<Draw> = Vec::new();
        draws.push(line(self.mac_str().to_owned(), 1, 10));
        draws.push(line("RX Listening".to_owned(), 16, 36));
        let ghost head = drawing(draws@);
        self.draw_status(volume, &mut draws);
        assert(head =~= seq![line_at(self@.mac, 1, 10), line_at("RX Listening"@, 16, 36)]);
        draws
    }

    pub fn draw_rx_audio_screen(&self, rssi: i16, snr: i16, volume: u8) -> (draws: Vec<Draw>)
        ensures
            drawing(draws@) == rx_audio_screen(self@, rssi, snr, volume),
    {
        let mut draws: Vec<Draw> = Vec::new();
        draws.push(line(self.mac_str().to_owned(), 1, 10));
        draws.push(line("RX Audio".to_owned(), 28, 32));
        let mut line_buf = "RSSI:".to_owned();
        push_signed(&mut line_buf, rssi as i64);
        line_buf.append(" SNR:");
        push_signed(&mut line_buf, snr as i64);
        draws.push(line(line_buf, 0, 48));
        let ghost head = drawing(draws@);
        self.draw_status(volume, &mut draws);
        assert(head =~= seq![
            line_at(self@.mac, 1, 10),
            line_at("RX Audio"@, 28, 32),
            line_at(
                "RSSI:"@ + signed_decimal(rssi as int) + " SNR:"@ + signed_decimal(snr as int),
                0,
                48,
            ),
        ]);
        draws
    }

    /// What to show for a received packet, once its action has been performed: a voice
    /// packet that is new here, decoded or relayed, is displayed with how well it was
    /// received. Any other packet leaves the screen as it is.
    pub fn draw_received(&self, action: &RxAction, rx_pkt: &RxPacket, volume: u8) -> (draws: Option<
        Vec<Draw>,
    >)
        ensures
            draws is Some <==> action.is_displayed(),
            draws is Some <==> action is Decode || action is Relay,
            draws matches Some(d) ==> drawing(d@) == rx_audio_screen(
                self@,
                rx_pkt.rssi,
                rx_pkt.snr,
                volume,
            ),
    {
        match action {
            RxAction::Decode(_) | RxAction::Relay(_) => Some(
                self.draw_rx_audio_screen(rx_pkt.rssi, rx_pkt.snr, volume),
            ),
            RxAction::Ignore(_) | RxAction::EndOfTransmission { .. } => None,
        }
    }

    /// Bottom line of the RX screens: volume, and LOCKED when locked.
    fn draw_status(&self, volume: u8, draws: &mut Vec<Draw>)
        ensures
            drawing(final(draws)@) == drawing(old(draws)@) + status_line(self@, volume),
    {
        let mut vol = "Vol ".to_owned();
        push_decimal(&mut vol, volume as u64);
        draws.push(line(vol, 1, 62));
        if self.setting(Setting::Lock) {
            draws.push(line("LOCKED".to_owned(), 91, 62));
        }
        assert(drawing(draws@) =~= drawing(old(draws)@) + status_line(self@, volume));
    }

    /// Title, then up to 4 rows; the cursor row is inverted, current values get a *.
    pub fn draw_menu(&self, menu: &Menu) -> (draws: Vec<Draw>)
        requires
            menu.wf(),
        ensures
            drawing(draws@) == menu_screen(self@, menu@.last()),
    {
        let ghost list = menu@.last();
        let mut draws: Vec<Draw> = Vec::new();
        draws.push(line(menu.title().to_owned(), 1, 9));
        let is_current = |setting: Setting, value: bool| -> (current: bool)
            ensures
                current == (self@.setting(setting) == value),
            {
                let present = self.setting(setting);
                present == value
            };
        let rows = menu.rows(is_current);
        let cursor = menu.cursor();
        let first = cursor.saturating_sub(VISIBLE - 1);
        assert(list.cursor <= list.items.len());
        let rest = rows.len() - first;
        let shown: usize = if rest < VISIBLE {
            rest
        } else {
            VISIBLE
        };
        let mut k: usize = 0;
        assert(drawing(draws@) =~= seq![line_at(list.title, 1, 9)] + rows_drawing(self@, list, 0));
        while k < shown
            invariant
                list == menu@.last(),
                list.cursor <= list.items.len(),
                cursor == list.cursor,
                first == first_row(list),
                k <= shown <= VISIBLE,
                shown == rows_shown(list),
                first + shown <= rows@.len(),
                rows@.len() == list.items.len() + 1,
                forall|i: int|
                    0 <= i < rows@.len() ==> (#[trigger] rows@[i]).0@ == row_label(list, i)
                        && rows@[i].1 == row_current(self@, list, i),
                drawing(draws@) == seq![line_at(list.title, 1, 9)] + rows_drawing(
                    self@,
                    list,
                    k as int,
                ),
            decreases shown - k,
        {
            let i = first + k;
            let (label, current) = rows[i];
            let y: i32 = TOP + k as i32 * ROW_H;
            let inverted = i == cursor;
            let ghost earlier = draws@;
            if inverted {
                draws.push(Draw::Fill { x: 0, y, width: 128, height: ROW_H as u32 });
            }
            draws.push(Draw::Text { text: label.to_owned(), x: 4, y: y + 1, top: true, inverted });
            if current {
                draws.push(
                    Draw::Text { text: "*".to_owned(), x: 118, y: y + 1, top: true, inverted },
                );
            }
            assert(drawing(draws@) =~= drawing(earlier) + row_drawing(self@, list, k as int));
            k += 1;
            assert(drawing(draws@) =~= seq![line_at(list.title, 1, 9)] + rows_drawing(
                self@,
                list,
                k as int,
            ));
        }
        draws
    }

    pub fn draw_tx_screen(&self) -> (draws: Vec<Draw>)
        ensures
            drawing(draws@) == tx_screen(self@),
    {
        let mut draws: Vec<Draw> = Vec::new();
        draws.push(line(self.mac_str().to_owned(), 1, 10));
        draws.push(line("TX Streaming".to_owned(), 10, 36));
        assert(drawing(draws@) =~= tx_screen(self@));
        draws
    }
}

/// The text on the screen of a received packet is the signal strength and the noise
/// of that packet; and the screen is the same whether it is drawn before or after the
/// codec has decoded the packet.
pub proof fn law_signal_is_displayed(
    s: AppView,
    rssi: i16,
    snr: i16,
    volume: u8,
    seq: u8,
    txid: u8,
    pcm: Seq<i16>,
)
    ensures
        rx_audio_screen(s, rssi, snr, volume)[2] == line_at(
            "RSSI:"@ + signed_decimal(rssi as int) + " SNR:"@ + signed_decimal(snr as int),
            0,
            48,
        ),
        rx_audio_screen(s.after_decoded(seq, txid, pcm).0, rssi, snr, volume) == rx_audio_screen(
            s,
            rssi,
            snr,
            volume,
        ),
{
}

/// The cursor is always on the screen, and it is the one row drawn inverted.
pub proof fn law_cursor_is_on_screen(list: LevelView)
    requires
        list.cursor <= list.items.len(),
    ensures
        0 <= first_row(list) <= list.cursor < first_row(list) + rows_shown(list),
        first_row(list) + rows_shown(list) <= list.items.len() + 1,
        1 <= rows_shown(list) <= VISIBLE,
{
}

/// Whatever the numbers, no line outgrows its place: the volume takes up to 7
/// characters, signal strength and noise up to 22, an address 17.
pub proof fn law_lines_are_short(volume: u8, rssi: i16, snr: i16, mac: Seq<u8>)
    ensures
        ("Vol "@ + decimal(volume as nat)).len() <= 7,
        ("RSSI:"@ + signed_decimal(rssi as int) + " SNR:"@ + signed_decimal(snr as int)).len()
            <= 22,
        hex_address(mac, 6).len() == 17,
{
    reveal_strlit("Vol ");
    reveal_strlit("RSSI:");
    reveal_strlit(" SNR:");
    reveal_with_fuel(vstd::arithmetic::power::pow, 6);
    lemma_decimal_length(volume as nat, 3);
    lemma_decimal_length(
        if rssi < 0 {
            (-rssi) as nat
        } else {
            rssi as nat
        },
        5,
    );
    lemma_decimal_length(
        if snr < 0 {
            (-snr) as nat
        } else {
            snr as nat
        },
        5,
    );
    reveal_with_fuel(hex_address, 7);
}

/// Every row that is drawn is on the panel in full, below the title, and apart
/// from its neighbours.
pub proof fn law_rows_fit_panel(k: int)
    requires
        0 <= k < VISIBLE,
    ensures
        9 < row_top(k),
        row_top(k) + ROW_H <= crate::devices::screen::HEIGHT,
        row_top(k) + ROW_H == row_top(k + 1),
{
}

/// What the screens show, item by item: the address at the top, what the handset is
/// doing below it, and at the bottom the volume, with the lock beside it where it is on.
pub proof fn law_screens_item_by_item(s: AppView, rssi: i16, snr: i16, volume: u8)
    ensures
        ({
            let mac = DrawView::Text { text: s.mac, x: 1, y: 10, top: false, inverted: false };
            let vol = DrawView::Text {
                text: "Vol "@ + decimal(volume as nat),
                x: 1,
                y: 62,
                top: false,
                inverted: false,
            };
            let locked = DrawView::Text {
                text: "LOCKED"@,
                x: 91,
                y: 62,
                top: false,
                inverted: false,
            };
            let rx = rx_screen(s, volume);
            let audio = rx_audio_screen(s, rssi, snr, volume);
            let tx = tx_screen(s);
            let extra: nat = if s.locked {
                1
            } else {
                0
            };
            &&& rx.len() == 3 + extra
            &&& rx[0] == mac
            &&& rx[1] == (DrawView::Text {
                text: "RX Listening"@,
                x: 16,
                y: 36,
                top: false,
                inverted: false,
            })
            &&& rx[2] == vol
            &&& s.locked ==> rx[3] == locked
            &&& audio.len() == 4 + extra
            &&& audio[0] == mac
            &&& audio[1] == (DrawView::Text {
                text: "RX Audio"@,
                x: 28,
                y: 32,
                top: false,
                inverted: false,
            })
            &&& audio[2] == (DrawView::Text {
                text: "RSSI:"@ + signed_decimal(rssi as int) + " SNR:"@ + signed_decimal(
                    snr as int,
                ),
                x: 0,
                y: 48,
                top: false,
                inverted: false,
            })
            &&& audio[3] == vol
            &&& s.locked ==> audio[4] == locked
            &&& tx.len() == 2
            &&& tx[0] == mac
            &&& tx[1] == (DrawView::Text {
                text: "TX Streaming"@,
                x: 10,
                y: 36,
                top: false,
                inverted: false,
            })
        }),
{
}

/// What a list shows: its title, and below it as many of its rows as there are, up to 4,
/// from the first one as long as the cursor is on one of the first 4, and else up to the
/// one under the cursor.
pub proof fn law_list_shows_title_and_rows(s: AppView, list: LevelView)
    requires
        list.cursor <= list.items.len(),
    ensures
        list.cursor < 4 ==> first_row(list) == 0,
        list.cursor >= 4 ==> first_row(list) == list.cursor - 3,
        rows_shown(list) == 4 || first_row(list) + rows_shown(list) == list.items.len() + 1,
        rows_shown(list) <= 4,
        first_row(list) + rows_shown(list) <= list.items.len() + 1,
        menu_screen(s, list) == seq![
            DrawView::Text { text: list.title, x: 1, y: 9, top: false, inverted: false },
        ] + rows_drawing(s, list, rows_shown(list)),
        rows_drawing(s, list, 0) == Seq::<DrawView>::empty(),
        forall|n: int|
            0 <= n ==> #[trigger] rows_drawing(s, list, n + 1) == rows_drawing(s, list, n)
                + row_drawing(s, list, n),
{
}

/// What a row shows: 11 pixels below the row above it, its label, "Back" for the first
/// row of a list; a star at the end where it is the present value of its setting; and
/// the row under the cursor, and no other, dark on a bar across the panel.
pub proof fn law_row_shows_label_and_star(s: AppView, list: LevelView, k: int)
    requires
        list.cursor <= list.items.len(),
        0 <= k < rows_shown(list),
    ensures
        ({
            let row = row_drawing(s, list, k);
            let i = first_row(list) + k;
            let under_cursor = i == list.cursor;
            let y = 13 + 11 * k;
            let at: int = if under_cursor {
                1
            } else {
                0
            };
            let label = if i == 0 {
                "Back"@
            } else {
                match list.items[i - 1] {
                    Item::Submenu(label, _) => label@,
                    Item::Choice(label, _, _) => label@,
                }
            };
            let star = i > 0 && (match list.items[i - 1] {
                Item::Choice(_, Setting::Lock, value) => value == s.locked,
                Item::Choice(_, Setting::Repeater, value) => value == s.repeater,
                Item::Submenu(..) => false,
            });
            &&& row.len() == at + 1 + (if star {
                1int
            } else {
                0int
            })
            &&& under_cursor ==> row[0] == (DrawView::Fill { x: 0, y, width: 128, height: 11 })
            &&& row[at] == (DrawView::Text {
                text: label,
                x: 4,
                y: y + 1,
                top: true,
                inverted: under_cursor,
            })
            &&& star ==> row[at + 1] == (DrawView::Text {
                text: "*"@,
                x: 118,
                y: y + 1,
                top: true,
                inverted: under_cursor,
            })
        }),
{
}

/// Things to draw are read as they are.
pub proof fn law_drawing_is_read_as_it_is(draws: Seq<Draw>, i: int)
    requires
        0 <= i < draws.len(),
    ensures
        drawing(draws).len() == draws.len(),
        draws[i] matches Draw::Text { text, x, y, top, inverted } ==> drawing(draws)[i] == (
        DrawView::Text { text: text@, x: x as int, y: y as int, top, inverted }),
        draws[i] matches Draw::Fill { x, y, width, height } ==> drawing(draws)[i] == (
        DrawView::Fill { x: x as int, y: y as int, width: width as int, height: height as int }),
{
}

} // verus!
