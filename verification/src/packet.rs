//! Packets on the air: the bounded byte buffer they travel in, and their header.
//!
//! A voice packet is a 2-byte header followed by the coded audio. A packet that
//! is nothing but the header ends a transmission.

use vstd::prelude::*;

use crate::codec::{HEADER_BYTES, PACKET_BYTES, PAYLOAD_BYTES};

verus! {

/// Packet type constants (5 bits, upper bits of header)
pub const PKT_TYPE_VOICE: u8 = 0x00;

/// `heapless::Vec`, a vector of bounded capacity stored inline.
#[verifier::external_type_specification]
#[verifier::external_body]
#[verifier::reject_recursive_types(T)]
pub struct ExHeaplessVec<T, const N: usize>(heapless::Vec<T, N>);

/// The bytes that a packet buffer holds, in order.
pub uninterp spec fn packet_bytes(packet: heapless::Vec<u8, 255>) -> Seq<u8>;

/// `heapless::Vec::new`: the new buffer is empty.
#[verifier::external_body]
pub(crate) fn packet_new() -> (packet: heapless::Vec<u8, 255>)
    ensures
        packet_bytes(packet) == Seq::<u8>::empty(),
{
    heapless::Vec::new()
}

/// `heapless::Vec::extend_from_slice`: appends all of `bytes` if they fit in the
/// capacity of 255, and otherwise reports an error and changes nothing.
#[verifier::external_body]
pub(crate) fn packet_extend(packet: &mut heapless::Vec<u8, 255>, bytes: &[u8]) -> (res: Result<
    (),
    (),
>)
    ensures
        res is Ok <==> packet_bytes(*old(packet)).len() + bytes@.len() <= 255,
        res is Ok ==> packet_bytes(*final(packet)) == packet_bytes(*old(packet)) + bytes@,
        res is Err ==> packet_bytes(*final(packet)) == packet_bytes(*old(packet)),
{
    packet.extend_from_slice(bytes)
}

/// `heapless::Vec::as_slice`: the stored bytes, of which there are never more
/// than the capacity.
#[verifier::external_body]
pub(crate) fn packet_slice(packet: &heapless::Vec<u8, 255>) -> (bytes: &[u8])
    ensures
        bytes@ == packet_bytes(*packet),
        bytes@.len() <= 255,
{
    packet.as_slice()
}

/// A packet that the radio has received.
pub struct RxPacket {
    pub data: heapless::Vec<u8, 255>,
    pub rssi: i16,
    pub snr: i16,
}

/// A packet for the radio to send.
pub struct TxRequest {
    pub data: heapless::Vec<u8, 255>,
}

/// Copies `bytes` into a fresh packet buffer.
pub(crate) fn packet_from(bytes: &[u8]) -> (packet: heapless::Vec<u8, 255>)
    requires
        bytes@.len() <= 255,
    ensures
        packet_bytes(packet) == bytes@,
{
    let mut packet = packet_new();
    let _ = packet_extend(&mut packet, bytes);
    assert(Seq::<u8>::empty() + bytes@ =~= bytes@);
    packet
}

/// The 16-bit header: 5 bits of type, 7 bits of transmission id, 4 bits of
/// sequence number, most significant first.
pub open spec fn header_value(pkt_type: int, txid: int, seq: int) -> int {
    pkt_type * 2048 + txid * 16 + seq
}

/// A 16-bit value as two bytes, most significant first.
pub open spec fn be_bytes(value: int) -> Seq<u8> {
    seq![(value / 256) as u8, (value % 256) as u8]
}

/// The value of two bytes, most significant first.
pub open spec fn be_value(bytes: Seq<u8>) -> int {
    bytes[0] * 256 + bytes[1]
}

/// The header of voice packet `seq` of transmission `txid`.
pub open spec fn spec_voice_header(txid: u8, seq: u8) -> Seq<u8> {
    be_bytes(header_value(PKT_TYPE_VOICE as int, txid as int, seq as int))
}

/// Pack the 2-byte voice header: |5b type|7b txid|4b seq|
///
/// With an id or a sequence number that is wider than its field the bits of the
/// two overlap, and are combined by "or".
pub fn voice_header(txid: u8, seq: u8) -> (header: [u8; 2])
    ensures
        be_value(header@) == ((txid as u16) << 4 | seq as u16) as int,
        txid < 128 && seq < 16 ==> header@ == spec_voice_header(txid, seq),
        txid < 128 && seq < 16 ==> header@[0] * 256 + header@[1] == txid * 16 + seq,
{
    let value: u16 = (PKT_TYPE_VOICE as u16) << 11 | (txid as u16) << 4 | seq as u16;
    proof {
        assert(value == ((txid as u16) << 4 | seq as u16)) by (bit_vector)
            requires
                value == 0u16 << 11 | (txid as u16) << 4 | seq as u16,
        ;
        if txid < 128 && seq < 16 {
            assert(((txid as u16) << 4 | seq as u16) == txid * 16 + seq) by (bit_vector)
                requires
                    txid < 128 && seq < 16,
            ;
        }
    }
    let header = [(value / 256) as u8, (value % 256) as u8];
    assert(txid < 128 && seq < 16 ==> header@ =~= spec_voice_header(txid, seq));
    header
}

/// What a received packet turns out to be.
pub enum Packet {
    /// Not even a header.
    TooShort,
    /// A header of a type other than voice.
    UnknownType(u8),
    /// A voice header and nothing else.
    EndOfTransmission { txid: u8 },
    /// A voice header, followed by neither nothing nor one packet of audio.
    WrongSize,
    /// One packet of coded audio.
    Voice { txid: u8, seq: u8, payload: [u8; PAYLOAD_BYTES] },
}

/// A [`Packet`] with its payload as a sequence.
pub ghost enum PacketView {
    TooShort,
    UnknownType(u8),
    EndOfTransmission { txid: u8 },
    WrongSize,
    Voice { txid: u8, seq: u8, payload: Seq<u8> },
}

impl View for Packet {
    type V = PacketView;

    open spec fn view(&self) -> PacketView {
        match *self {
            Packet::TooShort => PacketView::TooShort,
            Packet::UnknownType(t) => PacketView::UnknownType(t),
            Packet::EndOfTransmission { txid } => PacketView::EndOfTransmission { txid },
            Packet::WrongSize => PacketView::WrongSize,
            Packet::Voice { txid, seq, payload } => PacketView::Voice {
                txid,
                seq,
                payload: payload@,
            },
        }
    }
}

/// What the bytes of a packet stand for.
pub open spec fn packet_meaning(data: Seq<u8>) -> PacketView {
    let header = be_value(data);
    let pkt_type = (header / 2048) as u8;
    let txid = ((header / 16) % 128) as u8;
    let seq = (header % 16) as u8;
    if data.len() < HEADER_BYTES {
        PacketView::TooShort
    } else if pkt_type != PKT_TYPE_VOICE {
        PacketView::UnknownType(pkt_type)
    } else if data.len() == HEADER_BYTES {
        PacketView::EndOfTransmission { txid }
    } else if data.len() != PACKET_BYTES {
        PacketView::WrongSize
    } else {
        PacketView::Voice { txid, seq, payload: data.skip(HEADER_BYTES as int) }
    }
}

/// Reads the header of a packet and sorts the packet by its type and its size.
pub fn parse_packet(data: &[u8]) -> (packet: Packet)
    ensures
        packet@ == packet_meaning(data@),
{
    if data.len() < HEADER_BYTES {
        return Packet::TooShort;
    }
    // 2-byte header: |5b type|7b txid|4b seq|
    let header: u16 = data[0] as u16 * 256 + data[1] as u16;
    proof {
        assert(header >> 11 == header / 2048) by (bit_vector);
        assert((header >> 4) & 0x7F == (header / 16) % 128) by (bit_vector);
        assert(header & 0x0F == header % 16) by (bit_vector);
    }
    let pkt_type = (header >> 11) as u8;
    let txid = ((header >> 4) & 0x7F) as u8;
    let seq = (header & 0x0F) as u8;
    if pkt_type != PKT_TYPE_VOICE {
        return Packet::UnknownType(pkt_type);
    }
    if data.len() == HEADER_BYTES {
        return Packet::EndOfTransmission { txid };
    }
    if data.len() != PACKET_BYTES {
        return Packet::WrongSize;
    }
    let mut payload = [0u8;PAYLOAD_BYTES];
    let mut i: usize = 0;
    while i < PAYLOAD_BYTES
        invariant
            i <= PAYLOAD_BYTES,
            data@.len() == PACKET_BYTES,
            forall|j: int| 0 <= j < i ==> payload@[j] == data@[j + HEADER_BYTES],
        decreases PAYLOAD_BYTES - i,
    {
        payload[i] = data[HEADER_BYTES + i];
        i += 1;
    }
    assert(payload@ =~= data@.skip(HEADER_BYTES as int));
    Packet::Voice { txid, seq, payload }
}

/// What a sender puts in front of a payload is what a receiver reads back: the
/// id, the sequence number and the payload all survive.
pub proof fn law_voice_packet_round_trip(txid: u8, seq: u8, payload: Seq<u8>)
    requires
        txid < 128,
        seq < 16,
        payload.len() == PAYLOAD_BYTES,
    ensures
        packet_meaning(spec_voice_header(txid, seq) + payload) == (PacketView::Voice {
            txid,
            seq,
            payload,
        }),
{
    let data = spec_voice_header(txid, seq) + payload;
    assert(be_value(data) == txid * 16 + seq);
    assert(data.skip(HEADER_BYTES as int) =~= payload);
}

/// A voice header sent on its own is read as the end of that transmission.
pub proof fn law_header_alone_ends_transmission(txid: u8, seq: u8)
    requires
        txid < 128,
        seq < 16,
    ensures
        packet_meaning(spec_voice_header(txid, seq)) == (PacketView::EndOfTransmission { txid }),
{
    assert(be_value(spec_voice_header(txid, seq)) == txid * 16 + seq);
}

/// Whatever arrives, the id and the sequence number that are read from it stay
/// within the 7 and 4 bits that the header gives them.
pub proof fn law_header_fields_in_range(data: Seq<u8>)
    ensures
        packet_meaning(data) matches PacketView::Voice { txid, seq, payload } ==> txid < 128 && seq
            < 16 && payload.len() == PAYLOAD_BYTES,
        packet_meaning(data) matches PacketView::EndOfTransmission { txid } ==> txid < 128,
        packet_meaning(data) matches PacketView::UnknownType(t) ==> 0 < t < 32,
{
}

/// Where the header keeps what: two bytes that, read most significant first, are the
/// sequence number in the lowest 4 bits, the transmission id in the 7 bits above, and
/// no bit of the type set. So different ids or numbers never share a header.
pub proof fn law_voice_header_layout(txid: u8, seq: u8, other_txid: u8, other_seq: u8)
    requires
        txid < 128,
        seq < 16,
        other_txid < 128,
        other_seq < 16,
    ensures
        spec_voice_header(txid, seq).len() == 2,
        spec_voice_header(txid, seq)[0] * 256 + spec_voice_header(txid, seq)[1] == txid * 16 + seq,
        spec_voice_header(txid, seq) == spec_voice_header(other_txid, other_seq) ==> txid
            == other_txid && seq == other_seq,
{
    let h = spec_voice_header(txid, seq);
    let g = spec_voice_header(other_txid, other_seq);
    assert(h[0] * 256 + h[1] == txid * 16 + seq);
    assert(g[0] * 256 + g[1] == other_txid * 16 + other_seq);
}

/// What the bytes of a packet say, byte by byte: the upper 5 bits of the first are the
/// type, its lower 3 and the upper 4 of the second the transmission id, the lower 4 of
/// the second the sequence number; and what follows the two is the payload.
pub proof fn law_packet_is_read_by_bytes(data: Seq<u8>)
    ensures
        data.len() < 2 ==> packet_meaning(data) is TooShort,
        data.len() >= 2 && data[0] >= 8 ==> (packet_meaning(data) matches PacketView::UnknownType(t)
            && t == data[0] / 8),
        data.len() == 2 && data[0] < 8 ==> (packet_meaning(
            data,
        ) matches PacketView::EndOfTransmission { txid } && txid == data[0] * 16 + data[1] / 16),
        data.len() > 2 && data.len() != 26 && data[0] < 8 ==> packet_meaning(data) is WrongSize,
        data.len() == 26 && data[0] < 8 ==> (packet_meaning(data) matches PacketView::Voice {
            txid,
            seq,
            payload,
        } && txid == data[0] * 16 + data[1] / 16 && seq == data[1] % 16 && payload == data.subrange(
            2,
            26,
        )),
{
    if data.len() == 26 {
        assert(data.skip(HEADER_BYTES as int) =~= data.subrange(2, 26));
    }
}

/// A packet in the form in which it is handed out is the same packet.
pub proof fn law_packet_view_is_faithful(packet: Packet)
    ensures
        packet is TooShort <==> packet@ is TooShort,
        packet is WrongSize <==> packet@ is WrongSize,
        packet matches Packet::UnknownType(t) ==> packet@ == PacketView::UnknownType(t),
        packet matches Packet::EndOfTransmission { txid } ==> packet@
            == (PacketView::EndOfTransmission { txid }),
        packet matches Packet::Voice { txid, seq, payload } ==> packet@ == (PacketView::Voice {
            txid,
            seq,
            payload: payload@,
        }),
{
}

} // verus!
