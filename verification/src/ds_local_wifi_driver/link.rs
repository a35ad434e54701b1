//! The 802.11 data frames that carry the polling cycle, and what the driver makes of one that the
//! radio received.

use crate::mac_address::MacAddress;
use crate::wire::{copy_range, le16, push_u16, read_u16_at};
use ieee80211::common::subtypes::DataFrameSubtype;
use ieee80211::common::{FCFFlags, FrameControlField, FrameType, SequenceControl};
use ieee80211::data_frame::header::DataFrameHeader;
use ieee80211::data_frame::{DataFrame, DataFrameReadPayload};
use ieee80211::scroll::{Pread, Pwrite};
use vstd::prelude::*;

verus! {

/// Subtype of a data frame that carries data and an acknowledgement.
pub const DATA_CF_ACK: u8 = 1;

/// Subtype of a data frame that carries data and polls for replies.
pub const DATA_CF_POLL: u8 = 2;

/// Subtype of a data frame that is an acknowledgement alone.
pub const CF_ACK: u8 = 5;

/// Size of a data frame's header before the fields that only some frames have.
pub const BASE_HEADER: usize = 24;

/// Octets of the group address that the host polls.
pub open spec fn cmd_octets() -> Seq<u8> {
    seq![0x03u8, 0x09u8, 0xbfu8, 0x00u8, 0x00u8, 0x00u8]
}

/// Octets of the group address to which the host closes a cycle.
pub open spec fn ack_octets() -> Seq<u8> {
    seq![0x03u8, 0x09u8, 0xbfu8, 0x00u8, 0x00u8, 0x03u8]
}

/// Octets of the group address to which clients reply.
pub open spec fn client_ack_octets() -> Seq<u8> {
    seq![0x03u8, 0x09u8, 0xbfu8, 0x00u8, 0x00u8, 0x10u8]
}

/// The group address that the host polls.
pub fn cmd_mac() -> (mac: MacAddress)
    ensures
        mac@ == cmd_octets(),
{
    MacAddress::new([0x03, 0x09, 0xbf, 0x00, 0x00, 0x00])
}

/// The group address to which the host closes a cycle.
pub fn ack_mac() -> (mac: MacAddress)
    ensures
        mac@ == ack_octets(),
{
    MacAddress::new([0x03, 0x09, 0xbf, 0x00, 0x00, 0x03])
}

/// The group address to which clients reply.
pub fn client_ack_mac() -> (mac: MacAddress)
    ensures
        mac@ == client_ack_octets(),
{
    MacAddress::new([0x03, 0x09, 0xbf, 0x00, 0x00, 0x10])
}

/// The header of a data frame between a station and a distribution system: frame control, a
/// duration of zero, three addresses, sequence control with fragment zero.
pub open spec fn data_header(
    subtype: u8,
    from_ds: bool,
    receiver: Seq<u8>,
    transmitter: Seq<u8>,
    source: Seq<u8>,
    sequence: u16,
) -> Seq<u8> {
    seq![
        (16 * subtype + 8) as u8,
        if from_ds {
            2u8
        } else {
            0u8
        },
        0u8,
        0u8,
    ] + receiver + transmitter + source + le16((16 * sequence) as u16)
}

/// `ieee80211::data_frame::header::DataFrameHeader::get_fcf`: the frame control of a data frame
/// with no flag but the from-DS flag, where it is asked for. The type and the subtype are its low
/// byte, the flags its high byte.
#[verifier::external_body]
fn frame_control(subtype: u8, from_ds: bool) -> (control: u16)
    requires
        subtype < 16,
    ensures
        control == 16 * subtype + 8 + (if from_ds {
            0x200int
        } else {
            0
        }),
{
    let header = DataFrameHeader {
        subtype: DataFrameSubtype::from_bits(subtype),
        fcf_flags: FCFFlags::new().with_from_ds(from_ds),
        ..Default::default()
    };
    header.get_fcf().into_bits()
}

/// The `TryIntoCtx` of `ieee80211::data_frame::header::DataFrameHeader`: what follows the frame
/// control in a header without optional fields. That is a duration of zero, the three addresses in
/// this order, and the sequence number above a fragment number of zero. The sequence number has
/// twelve bits; a larger one panics under debug assertions.
#[verifier::external_body]
fn header_fields(
    receiver: [u8; 6],
    transmitter: [u8; 6],
    source: [u8; 6],
    sequence: u16,
) -> (bytes: Vec<u8>)
    requires
        sequence < 4096,
    ensures
        bytes@ == seq![0u8, 0u8] + receiver@ + transmitter@ + source@ + le16(
            (16 * sequence) as u16,
        ),
{
    let header = DataFrameHeader {
        address_1: receiver.into(),
        address_2: transmitter.into(),
        address_3: source.into(),
        frag_seq_info: SequenceControl::new().with_sequence_number(sequence),
        ..Default::default()
    };
    let mut bytes = vec![0; header.length_in_bytes()];
    bytes.pwrite(header, 0).unwrap();
    bytes
}

/// The header of a data frame that the host sends. The sequence number is the low twelve bits of
/// the driver's counter.
pub fn host_header(
    subtype: u8,
    receiver: &MacAddress,
    transmitter: &MacAddress,
    source: &MacAddress,
    counter: u16,
) -> (bytes: Vec<u8>)
    requires
        subtype < 16,
    ensures
        bytes@ == data_header(
            subtype,
            true,
            receiver@,
            transmitter@,
            source@,
            (counter % 4096) as u16,
        ),
        bytes@.len() == BASE_HEADER,
{
    let mut bytes: Vec<u8> = Vec::new();
    push_u16(&mut bytes, frame_control(subtype, true));
    let fields = header_fields(
        receiver.octets,
        transmitter.octets,
        source.octets,
        counter % 4096,
    );
    bytes.extend_from_slice(fields.as_slice());
    assert(bytes@ =~= data_header(
        subtype,
        true,
        receiver@,
        transmitter@,
        source@,
        (counter % 4096) as u16,
    ));
    bytes
}

/// A data frame that the radio received.
pub struct ReceivedFrame {
    pub subtype: u8,
    pub destination: Option<MacAddress>,
    pub source: Option<MacAddress>,
    pub payload: Option<Vec<u8>>,
}

/// What a received data frame says.
pub struct LinkFrame {
    pub subtype: u8,
    pub destination: Option<Seq<u8>>,
    pub source: Option<Seq<u8>>,
    pub payload: Option<Seq<u8>>,
}

/// The octets of an optional address.
pub open spec fn octets_of(mac: Option<MacAddress>) -> Option<Seq<u8>> {
    match mac {
        Some(mac) => Some(mac@),
        None => None,
    }
}

impl View for ReceivedFrame {
    type V = LinkFrame;

    open spec fn view(&self) -> LinkFrame {
        LinkFrame {
            subtype: self.subtype,
            destination: octets_of(self.destination),
            source: octets_of(self.source),
            payload: crate::ds_local_wifi_driver::frames::bytes_of(self.payload),
        }
    }
}

/// Whether the frame control marks a frame to the distribution system.
pub open spec fn to_ds(bytes: Seq<u8>) -> bool {
    bytes[1] % 2 == 1
}

/// Whether the frame control marks a frame from the distribution system.
pub open spec fn from_ds(bytes: Seq<u8>) -> bool {
    (bytes[1] / 2) % 2 == 1
}

/// The subtype of a frame.
pub open spec fn subtype_of(bytes: Seq<u8>) -> u8 {
    bytes[0] / 16
}

/// Whether a data frame of this subtype has a quality-of-service field.
pub open spec fn has_qos(subtype: u8) -> bool {
    subtype >= 8 && subtype != 13
}

/// Whether a data frame of this subtype carries a payload.
pub open spec fn has_payload(subtype: u8) -> bool {
    subtype % 8 < 4
}

/// Where the optional fields of a data frame's header begin to differ: after a fourth address,
/// which only a frame between distribution systems has.
pub open spec fn qos_at(bytes: Seq<u8>) -> int {
    if to_ds(bytes) && from_ds(bytes) {
        BASE_HEADER + 6
    } else {
        BASE_HEADER as int
    }
}

/// Where the header of a data frame ends.
pub open spec fn header_end(bytes: Seq<u8>) -> int {
    qos_at(bytes) + (if has_qos(subtype_of(bytes)) {
        2int
    } else {
        0
    }) + (if bytes[1] >= 128 {
        4int
    } else {
        0
    })
}

/// Whether the bytes are a data frame with a whole header.
pub open spec fn is_data_frame(bytes: Seq<u8>) -> bool {
    bytes.len() >= 2 && (bytes[0] / 4) % 4 == 2 && header_end(bytes) <= bytes.len()
}

/// Whether the payload of a data frame is a bundle of smaller units, which have addresses of their
/// own.
pub open spec fn is_bundle(bytes: Seq<u8>) -> bool {
    has_qos(subtype_of(bytes)) && has_payload(subtype_of(bytes)) && bytes[qos_at(bytes)] >= 128
}

/// What the bytes of a data frame say.
pub open spec fn link_frame(bytes: Seq<u8>) -> LinkFrame {
    LinkFrame {
        subtype: subtype_of(bytes),
        destination: if !to_ds(bytes) {
            Some(bytes.subrange(4, 10))
        } else if !is_bundle(bytes) {
            Some(bytes.subrange(16, 22))
        } else {
            None
        },
        source: if !from_ds(bytes) {
            Some(bytes.subrange(10, 16))
        } else if is_bundle(bytes) {
            None
        } else if !to_ds(bytes) {
            Some(bytes.subrange(16, 22))
        } else {
            Some(bytes.subrange(24, 30))
        },
        payload: if has_payload(subtype_of(bytes)) {
            Some(bytes.skip(header_end(bytes)))
        } else {
            None
        },
    }
}

/// `ieee80211::common::FrameControlField::from_bits` and the `TryFromCtx` of
/// `ieee80211::data_frame::DataFrame`, which reads what follows the frame control: reads a data
/// frame with a whole header, and no other frame. The subtype, the two addresses by their role, and
/// the payload are where 802.11 has them.
#[verifier::external_body]
fn decoded_frame(control: u16, rest: &[u8]) -> (frame: Option<ReceivedFrame>)
    ensures
        frame is Some <==> is_data_frame(le16(control) + rest@),
        frame matches Some(f) ==> f@ == link_frame(le16(control) + rest@),
{
    let control = FrameControlField::from_bits(control);
    let FrameType::Data(subtype) = control.frame_type() else { return None };
    let frame: DataFrame = rest.pread_with(0, (subtype, control.flags())).ok()?;
    Some(ReceivedFrame {
        subtype: subtype.into_bits(),
        destination: frame.header.destination_address().map(|mac| MacAddress { octets: mac.0 }),
        source: frame.header.source_address().map(|mac| MacAddress { octets: mac.0 }),
        payload: match frame.payload {
            Some(DataFrameReadPayload::Single(payload)) => Some(payload.to_vec()),
            _ => None,
        },
    })
}

/// Reads what the radio received as a data frame.
pub fn read_frame(bytes: &[u8]) -> (frame: Option<ReceivedFrame>)
    ensures
        frame is Some <==> is_data_frame(bytes@),
        frame matches Some(f) ==> f@ == link_frame(bytes@),
{
    if bytes.len() < 2 {
        return None;
    }
    let end: usize = bytes.len();
    let control: u16 = read_u16_at(bytes, 0);
    let rest = &bytes[2..end];
    assert(le16(control) + rest@ =~= bytes@);
    decoded_frame(control, rest)
}

/// A client's reply, with the times in microseconds at which it was handed on and received.
#[derive(Debug, PartialEq)]
pub enum InboundPacket {
    ACK((MacAddress, u64, u64)),
    DATA((MacAddress, Vec<u8>, u64, u64)),
}

/// What a client's reply says: who sent it, the data if it carries any, the two times.
pub struct Inbound {
    pub mac: Seq<u8>,
    pub data: Option<Seq<u8>>,
    pub handed_on: u64,
    pub received: u64,
}

impl View for InboundPacket {
    type V = Inbound;

    open spec fn view(&self) -> Inbound {
        match self {
            InboundPacket::ACK((mac, handed_on, received)) => Inbound {
                mac: mac@,
                data: None,
                handed_on: *handed_on,
                received: *received,
            },
            InboundPacket::DATA((mac, data, handed_on, received)) => Inbound {
                mac: mac@,
                data: Some(data@),
                handed_on: *handed_on,
                received: *received,
            },
        }
    }
}

impl Clone for InboundPacket {
    fn clone(&self) -> (copy: Self)
        ensures
            copy@ == self@,
    {
        match self {
            InboundPacket::ACK((mac, handed_on, received)) => InboundPacket::ACK(
                (*mac, *handed_on, *received),
            ),
            InboundPacket::DATA((mac, data, handed_on, received)) => {
                let copied = copy_range(data.as_slice(), 0, data.len());
                assert(copied@ =~= data@);
                InboundPacket::DATA((*mac, copied, *handed_on, *received))
            },
        }
    }
}

/// Whether a frame is a reply of a client to a poll: one of the two acknowledging subtypes, to the
/// address for replies.
pub open spec fn is_reply(frame: LinkFrame) -> bool {
    (frame.subtype == DATA_CF_ACK || frame.subtype == CF_ACK) && frame.destination == Some(
        client_ack_octets(),
    )
}

/// Whether the addresses that the driver asks for are there: the destination of an acknowledging
/// frame, the source of a reply.
pub open spec fn names_its_ends(frame: LinkFrame) -> bool {
    &&& (frame.subtype == DATA_CF_ACK || frame.subtype == CF_ACK) ==> frame.destination is Some
    &&& is_reply(frame) ==> frame.source is Some
}

/// What the driver is told of a reply. Only a frame that carries data hands its payload on.
pub open spec fn inbound_of(frame: LinkFrame, now: u64, received: u64) -> Inbound {
    Inbound {
        mac: frame.source->0,
        data: if frame.subtype == DATA_CF_ACK {
            frame.payload
        } else {
            None
        },
        handed_on: now,
        received,
    }
}

/// Sorts a received frame: a reply becomes a packet for the driver, anything else is dropped.
pub fn classify_frame(frame: ReceivedFrame, now: u64, received: u64) -> (packet: Option<
    InboundPacket,
>)
    requires
        names_its_ends(frame@),
    ensures
        packet is Some <==> is_reply(frame@),
        packet matches Some(p) ==> p@ == inbound_of(frame@, now, received),
{
    if frame.subtype == DATA_CF_ACK {
        let destination = frame.destination.unwrap();
        if same_octets(&destination, &client_ack_mac()) {
            let source = frame.source.unwrap();
            match frame.payload {
                None => Some(InboundPacket::ACK((source, now, received))),
                Some(payload) => Some(InboundPacket::DATA((source, payload, now, received))),
            }
        } else {
            None
        }
    } else if frame.subtype == CF_ACK {
        let destination = frame.destination.unwrap();
        if same_octets(&destination, &client_ack_mac()) {
            let source = frame.source.unwrap();
            Some(InboundPacket::ACK((source, now, received)))
        } else {
            None
        }
    } else {
        None
    }
}

/// Whether two addresses have the same octets.
pub(crate) fn same_octets(a: &MacAddress, b: &MacAddress) -> (same: bool)
    ensures
        same <==> a@ == b@,
{
    proof {
        if a@ == b@ {
            assert(a.octets =~= b.octets);
        }
    }
    *a == *b
}

/// What the driver makes of a frame that the radio received.
pub fn receive_frame(bytes: &[u8], now: u64, received: u64) -> (packet: Option<InboundPacket>)
    ensures
        packet is Some <==> is_data_frame(bytes@) && is_reply(link_frame(bytes@)),
        packet matches Some(p) ==> p@ == inbound_of(link_frame(bytes@), now, received),
{
    match read_frame(bytes) {
        None => None,
        Some(frame) => classify_frame(frame, now, received),
    }
}

} // verus!
