use open_oswst::packet::{parse_packet, voice_header, Packet};
use open_oswst::text::{format_mac, push_decimal, push_signed};

#[test]
fn voice_header_packs_big_endian() {
    assert_eq!(voice_header(0x55, 0x0A), [0x05, 0x5A]);
    assert_eq!(voice_header(0, 0), [0x00, 0x00]);
    assert_eq!(voice_header(127, 15), [0x07, 0xFF]);
    assert_eq!(voice_header(1, 0), [0x00, 0x10]);
}

#[test]
fn voice_header_combines_overwide_fields() {
    assert_eq!(voice_header(0xFF, 0), [0x0F, 0xF0]);
    assert_eq!(voice_header(0x01, 0xFF), [0x00, 0xFF]);
    assert_eq!(voice_header(0x80, 0x8F), [0x08, 0x8F]);
}

#[test]
fn every_voice_packet_reads_back() {
    for txid in 0..128u8 {
        for seq in 0..16u8 {
            let mut data = voice_header(txid, seq).to_vec();
            data.extend((0..24u8).map(|i| i ^ txid));
            match parse_packet(&data) {
                Packet::Voice { txid: t, seq: s, payload } => {
                    assert_eq!((t, s), (txid, seq));
                    assert_eq!(&payload[..], &data[2..]);
                }
                _ => panic!("not a voice packet"),
            }
        }
    }
}

#[test]
fn header_alone_is_end_of_transmission() {
    assert!(matches!(
        parse_packet(&voice_header(99, 3)),
        Packet::EndOfTransmission { txid: 99 }
    ));
}

#[test]
fn packets_of_other_shapes() {
    assert!(matches!(parse_packet(&[]), Packet::TooShort));
    assert!(matches!(parse_packet(&[7]), Packet::TooShort));
    assert!(matches!(parse_packet(&[0x08, 0x00]), Packet::UnknownType(1)));
    assert!(matches!(parse_packet(&[0xFF; 26]), Packet::UnknownType(31)));
    assert!(matches!(parse_packet(&[0; 3]), Packet::WrongSize));
    assert!(matches!(parse_packet(&[0; 25]), Packet::WrongSize));
    assert!(matches!(parse_packet(&[0; 27]), Packet::WrongSize));
    assert!(matches!(parse_packet(&[0; 26]), Packet::Voice { .. }));
}

#[test]
fn largest_fields_stay_in_range() {
    let mut data = vec![0x07, 0xFF];
    data.extend([0u8; 24]);
    match parse_packet(&data) {
        Packet::Voice { txid, seq, .. } => assert_eq!((txid, seq), (127, 15)),
        _ => panic!("not a voice packet"),
    }
}

#[test]
fn decimal_numbers() {
    for n in [0u64, 7, 10, 99, 100, 12345, u64::MAX] {
        let mut text = String::from("n=");
        push_decimal(&mut text, n);
        assert_eq!(text, format!("n={}", n));
    }
    for n in [0i64, -1, 42, -107, i16::MIN as i64, i64::MAX, i64::MIN] {
        let mut text = String::new();
        push_signed(&mut text, n);
        assert_eq!(text, format!("{}", n));
    }
}

#[test]
fn mac_address_in_hex() {
    assert_eq!(
        format_mac(&[0xF8, 0x5B, 0x1B, 0xA2, 0xC6, 0x2C]),
        "F8:5B:1B:A2:C6:2C"
    );
    assert_eq!(format_mac(&[0, 1, 2, 3, 4, 0xFF]), "00:01:02:03:04:FF");
}
