use open_oswst::app::App;
use open_oswst::devices::encoder::Event;
use open_oswst::menu::Setting;
use open_oswst::packet::{voice_header, RxPacket};
use open_oswst::screens::Draw;

fn app() -> App {
    App::new("AA:BB:CC:DD:EE:FF".to_string(), false, &[0u32; 1280], 0)
}

fn shown(draws: &[Draw]) -> Vec<String> {
    draws
        .iter()
        .map(|draw| match draw {
            Draw::Text { text, x, y, top, inverted } => {
                format!("{}@{},{} {} {}", text, x, y, top, inverted)
            }
            Draw::Fill { x, y, width, height } => format!("[{},{} {}x{}]", x, y, width, height),
        })
        .collect()
}

#[test]
fn listening_screen() {
    let mut app = app();
    assert_eq!(
        shown(&app.draw_rx_screen(7)),
        vec![
            "AA:BB:CC:DD:EE:FF@1,10 false false",
            "RX Listening@16,36 false false",
            "Vol 7@1,62 false false",
        ]
    );
    app.apply(Setting::Lock, true);
    assert_eq!(
        shown(&app.draw_rx_screen(255))[2..],
        ["Vol 255@1,62 false false", "LOCKED@91,62 false false"]
    );
}

#[test]
fn audio_screen() {
    assert_eq!(
        shown(&app().draw_rx_audio_screen(-107, -5, 10)),
        vec![
            "AA:BB:CC:DD:EE:FF@1,10 false false",
            "RX Audio@28,32 false false",
            "RSSI:-107 SNR:-5@0,48 false false",
            "Vol 10@1,62 false false",
        ]
    );
    assert_eq!(
        shown(&app().draw_rx_audio_screen(i16::MIN, i16::MIN, 0))[2],
        "RSSI:-32768 SNR:-32768@0,48 false false"
    );
}

fn received(app: &mut App, bytes: &[u8]) -> Option<Vec<String>> {
    let mut data = heapless::Vec::new();
    data.extend_from_slice(bytes).unwrap();
    let rx_pkt = RxPacket { data, rssi: -90, snr: 7 };
    let action = app.on_rx_packet(&rx_pkt, 0);
    app.draw_received(&action, &rx_pkt, 3).map(|draws| shown(&draws))
}

#[test]
fn new_voice_is_displayed_with_its_signal() {
    for repeater in [false, true] {
        let mut app = App::new("AA".to_string(), repeater, &[0u32; 1280], 0);
        let mut packet = voice_header(5, 4).to_vec();
        packet.extend([9u8; 24]);
        assert_eq!(
            received(&mut app, &packet),
            Some(vec![
                "AA@1,10 false false".to_string(),
                "RX Audio@28,32 false false".to_string(),
                "RSSI:-90 SNR:7@0,48 false false".to_string(),
                "Vol 3@1,62 false false".to_string(),
            ])
        );
        // of another transmission, too far ahead, and the end of it
        packet[..2].copy_from_slice(&voice_header(6, 5));
        assert_eq!(received(&mut app, &packet), None);
        packet[..2].copy_from_slice(&voice_header(5, 12));
        assert_eq!(received(&mut app, &packet), None);
        assert_eq!(received(&mut app, &voice_header(5, 5)), None);
        assert_eq!(received(&mut app, &[]), None);
    }
}

#[test]
fn transmitting_screen() {
    assert_eq!(
        shown(&app().draw_tx_screen()),
        vec![
            "AA:BB:CC:DD:EE:FF@1,10 false false",
            "TX Streaming@10,36 false false",
        ]
    );
}

#[test]
fn menu_screen_inverts_the_cursor_row() {
    let mut app = app();
    let mut menu = app.open_menu();
    assert_eq!(
        shown(&app.draw_menu(&menu)),
        vec![
            "Menu@1,9 false false",
            "[0,13 128x11]",
            "Back@4,14 true true",
            "Lock@4,25 true false",
            "Repeater@4,36 true false",
        ]
    );
    app.on_menu_event(&mut menu, Event::Cw);
    app.on_menu_event(&mut menu, Event::Click);
    app.on_menu_event(&mut menu, Event::Cw);
    assert_eq!(
        shown(&app.draw_menu(&menu)),
        vec![
            "Lock@1,9 false false",
            "Back@4,14 true false",
            "[0,24 128x11]",
            "true@4,25 true true",
            "false@4,36 true false",
            "*@118,36 true false",
        ]
    );
}
