//! The packets of the chat application.

use crate::ds_local_wifi_driver::frames::bytes_of;
use crate::mac_address::MacAddress;
use crate::wide_string::{
    law_padding_keeps_text_valid, leads, utf16_encoded, utf16_valid, WStringWrapper,
};
use crate::wire::{
    copy_range, copy_to_bytes, get_u8, law_pairs_swapped_twice, le16, le16_at, pairs_swapped,
    push_u16, read_u16_at, resized, zeros,
};
use vstd::prelude::*;

verus! {

/// Size of an address on the air.
pub const MAC_SIZE: usize = 6;

/// Number of places in a member list.
pub const MEMBERS: usize = 16;

/// Size of a type 1 packet.
pub const TYPE_1_SIZE: usize = 20;

/// Size of a type 2 packet before its payload.
pub const TYPE_2_HEADER: usize = 12;

/// Size of a message payload before the message.
pub const MESSAGE_HEADER: usize = 36;

/// Size of a console's identity.
pub const CONSOLE_ID_SIZE: usize = 84;

/// Size of the name in a console's identity.
pub const NAME_SIZE: usize = 20;

/// Size of the biography in a console's identity.
pub const BIO_SIZE: usize = 52;

/// Copies part of a packet into an array.
fn array_at<const N: usize>(bytes: &[u8], at: usize) -> (copied: [u8; N])
    requires
        at + N <= bytes@.len(),
    ensures
        copied@ == bytes@.subrange(at as int, at + N),
{
    let size: usize = bytes.len();
    let mut copied: [u8; N] = [0; N];
    let mut i: usize = 0;
    while i < N
        invariant
            i <= N,
            at + N <= bytes@.len(),
            size == bytes@.len(),
            forall|k: int| 0 <= k < i ==> copied@[k] == bytes@[at + k],
        decreases N - i,
    {
        copied[i] = bytes[at + i];
        i += 1;
    }
    assert(copied@ =~= bytes@.subrange(at as int, at + N));
    copied
}

/// Appends an address with its neighbouring octets exchanged.
fn push_swapped(buffer: &mut Vec<u8>, mac: &MacAddress)
    ensures
        final(buffer)@ == old(buffer)@ + pairs_swapped(mac@),
{
    let mut i: usize = 0;
    while i < MAC_SIZE
        invariant
            i <= MAC_SIZE,
            i % 2 == 0,
            buffer@ == old(buffer)@ + pairs_swapped(mac@).take(i as int),
        decreases MAC_SIZE - i,
    {
        buffer.push(mac.octets[i + 1]);
        buffer.push(mac.octets[i]);
        i += 2;
        assert(buffer@ =~= old(buffer)@ + pairs_swapped(mac@).take(i as int));
    }
    assert(pairs_swapped(mac@).take(MAC_SIZE as int) =~= pairs_swapped(mac@));
}

/// A member list on the air: every address with its neighbouring octets exchanged.
pub open spec fn members_encoded(members: Seq<MacAddress>) -> Seq<u8>
    decreases members.len(),
{
    if members.len() == 0 {
        Seq::empty()
    } else {
        members_encoded(members.drop_last()) + pairs_swapped(members.last()@)
    }
}

/// Appends a member list.
fn push_members(buffer: &mut Vec<u8>, members: &[MacAddress; 16])
    ensures
        final(buffer)@ == old(buffer)@ + members_encoded(members@),
{
    let mut i: usize = 0;
    assert(members@.take(0) =~= Seq::empty());
    assert(buffer@ =~= old(buffer)@ + members_encoded(members@.take(0)));
    while i < MEMBERS
        invariant
            i <= MEMBERS,
            buffer@ == old(buffer)@ + members_encoded(members@.take(i as int)),
        decreases MEMBERS - i,
    {
        push_swapped(buffer, &members[i]);
        assert(members@.take(i + 1).drop_last() =~= members@.take(i as int));
        i += 1;
        assert(buffer@ =~= old(buffer)@ + members_encoded(members@.take(i as int)));
    }
    assert(members@.take(MEMBERS as int) =~= members@);
}

/// What every packet begins with.
#[derive(Clone, Copy, Debug, PartialEq, Eq, Structural)]
pub struct PictochatHeader {
    pub pkt_type: u16,
    pub pkt_size_with_header: u16,
}

impl PictochatHeader {
    /// The header on the air.
    pub open spec fn encoded(self) -> Seq<u8> {
        le16(self.pkt_type) + le16(self.pkt_size_with_header)
    }
}

/// Appends a header.
fn push_header(buffer: &mut Vec<u8>, header: &PictochatHeader)
    ensures
        final(buffer)@ == old(buffer)@ + header.encoded(),
{
    push_u16(buffer, header.pkt_type);
    push_u16(buffer, header.pkt_size_with_header);
    assert(buffer@ =~= old(buffer)@ + header.encoded());
}

/// The member list that goes out while there is nothing else to send.
pub struct PictochatType5 {
    pub hdr: PictochatHeader,
    pub magic: [u8; 4],
    pub member_list: [MacAddress; 16],
}

/// The packet of type 5 with this magic and this member list.
pub open spec fn type5_packet(magic: Seq<u8>, members: Seq<MacAddress>) -> Seq<u8> {
    PictochatHeader { pkt_type: 5, pkt_size_with_header: 104 }.encoded() + magic
        + members_encoded(members)
}

impl Default for PictochatType5 {
    fn default() -> (packet: Self)
        ensures
            packet.hdr == (PictochatHeader { pkt_type: 5, pkt_size_with_header: 104 }),
            packet.magic@ == seq![0xfdu8, 0x32u8, 0xeau8, 0x59u8],
            forall|i: int| 0 <= i < MEMBERS ==> (#[trigger] packet.member_list@[i])@ == zeros(6),
    {
        let nobody = MacAddress::zero();
        assert(nobody@ =~= zeros(6));
        PictochatType5 {
            hdr: PictochatHeader { pkt_type: 5, pkt_size_with_header: 104 },
            magic: [0xfd, 0x32, 0xea, 0x59],
            member_list: [nobody; 16],
        }
    }
}

impl PictochatType5 {
    /// The packet on the air.
    pub fn to_bytes(&self) -> (bytes: Vec<u8>)
        ensures
            bytes@ == self.hdr.encoded() + self.magic@ + members_encoded(self.member_list@),
    {
        let mut bytes: Vec<u8> = Vec::new();
        push_header(&mut bytes, &self.hdr);
        bytes.extend_from_slice(self.magic.as_slice());
        push_members(&mut bytes, &self.member_list);
        assert(bytes@ =~= self.hdr.encoded() + self.magic@ + members_encoded(self.member_list@));
        bytes
    }
}

/// The member list that asks a new client to identify itself.
pub struct PictochatType4 {
    pub hdr: PictochatHeader,
    pub magic: [u8; 4],
    pub member_list: [MacAddress; 16],
}

/// The packet of type 4 with this magic and this member list.
pub open spec fn type4_packet(magic: Seq<u8>, members: Seq<MacAddress>) -> Seq<u8> {
    PictochatHeader { pkt_type: 4, pkt_size_with_header: 104 }.encoded() + magic
        + members_encoded(members)
}

impl Default for PictochatType4 {
    fn default() -> (packet: Self)
        ensures
            packet.hdr == (PictochatHeader { pkt_type: 4, pkt_size_with_header: 104 }),
            packet.magic@ == seq![0x34u8, 0xfbu8, 0xadu8, 0x8cu8],
            forall|i: int| 0 <= i < MEMBERS ==> (#[trigger] packet.member_list@[i])@ == zeros(6),
    {
        let nobody = MacAddress::zero();
        assert(nobody@ =~= zeros(6));
        PictochatType4 {
            hdr: PictochatHeader { pkt_type: 4, pkt_size_with_header: 104 },
            magic: [0x34, 0xfb, 0xad, 0x8c],
            member_list: [nobody; 16],
        }
    }
}

impl PictochatType4 {
    /// The packet on the air.
    pub fn to_bytes(&self) -> (bytes: Vec<u8>)
        ensures
            bytes@ == self.hdr.encoded() + self.magic@ + members_encoded(self.member_list@),
    {
        let mut bytes: Vec<u8> = Vec::new();
        push_header(&mut bytes, &self.hdr);
        bytes.extend_from_slice(self.magic.as_slice());
        push_members(&mut bytes, &self.member_list);
        assert(bytes@ =~= self.hdr.encoded() + self.magic@ + members_encoded(self.member_list@));
        bytes
    }
}

/// Announces a transfer of `data_size` bytes: it always comes before the type 2 packets that carry
/// them.
pub struct PictochatType1 {
    pub hdr: PictochatHeader,
    pub console_id: u16,
    pub magic_1: [u8; 2],
    pub data_size: u16,
    pub magic_2: [u8; 10],
}

/// The second magic of a type 1 packet that asks a console for its identity.
pub open spec fn ident_magic() -> Seq<u8> {
    seq![0x00u8, 0x00u8, 0x00u8, 0x00u8, 0x00u8, 0x00u8, 0xb7u8, 0x78u8, 0xd5u8, 0x29u8]
}

/// The packet of type 1 with this console, size and second magic.
pub open spec fn type1_packet(console_id: u16, data_size: u16, magic_2: Seq<u8>) -> Seq<u8> {
    PictochatHeader { pkt_type: 1, pkt_size_with_header: 20 }.encoded() + le16(console_id)
        + seq![0xffu8, 0xffu8] + le16(data_size) + magic_2
}

impl Default for PictochatType1 {
    fn default() -> (packet: Self)
        ensures
            packet.hdr == (PictochatHeader { pkt_type: 1, pkt_size_with_header: 20 }),
            packet.console_id == 0,
            packet.magic_1@ == seq![0xffu8, 0xffu8],
            packet.data_size == 0,
            packet.magic_2@ == ident_magic(),
    {
        PictochatType1 {
            hdr: PictochatHeader { pkt_type: 1, pkt_size_with_header: 20 },
            console_id: 0,
            magic_1: [0xff, 0xff],
            data_size: 0,
            magic_2: [0x00, 0x00, 0x00, 0x00, 0x00, 0x00, 0xb7, 0x78, 0xd5, 0x29],
        }
    }
}

impl PictochatType1 {
    /// The packet on the air.
    pub open spec fn encoded(self) -> Seq<u8> {
        self.hdr.encoded() + le16(self.console_id) + self.magic_1@ + le16(self.data_size)
            + self.magic_2@
    }

    /// Whether this packet is the one that the bytes spell.
    pub open spec fn spelled_by(self, bytes: Seq<u8>) -> bool {
        &&& self.hdr.pkt_type == le16_at(bytes, 0)
        &&& self.hdr.pkt_size_with_header == le16_at(bytes, 2)
        &&& self.console_id == le16_at(bytes, 4)
        &&& self.magic_1@ == bytes.subrange(6, 8)
        &&& self.data_size == le16_at(bytes, 8)
        &&& self.magic_2@ == bytes.subrange(10, 20)
    }

    /// The packet on the air.
    pub fn to_bytes(&self) -> (bytes: Vec<u8>)
        ensures
            bytes@ == self.encoded(),
    {
        let mut bytes: Vec<u8> = Vec::new();
        push_header(&mut bytes, &self.hdr);
        push_u16(&mut bytes, self.console_id);
        bytes.extend_from_slice(self.magic_1.as_slice());
        push_u16(&mut bytes, self.data_size);
        bytes.extend_from_slice(self.magic_2.as_slice());
        assert(bytes@ =~= self.encoded());
        bytes
    }

    /// Reads a packet. What follows its twenty bytes is left alone.
    pub fn from_bytes(bytes: &Vec<u8>) -> (packet: Self)
        requires
            bytes@.len() >= TYPE_1_SIZE,
        ensures
            packet.spelled_by(bytes@),
    {
        let bytes = bytes.as_slice();
        PictochatType1 {
            hdr: PictochatHeader {
                pkt_type: read_u16_at(bytes, 0),
                pkt_size_with_header: read_u16_at(bytes, 2),
            },
            console_id: read_u16_at(bytes, 4),
            magic_1: array_at(bytes, 6),
            data_size: read_u16_at(bytes, 8),
            magic_2: array_at(bytes, 10),
        }
    }
}

/// A chat message, as its transfer carries it.
pub struct MessagePayload {
    pub magic: u8,
    pub subtype: u8,
    pub from: MacAddress,
    pub magic_1: [u8; 14],
    pub safezone: [u8; 14],
    pub message: Vec<u8>,
}

/// The first magic run of a message.
pub open spec fn message_magic() -> Seq<u8> {
    seq![
        0x00u8,
        0x05u8,
        0x00u8,
        0x00u8,
        0x00u8,
        0x00u8,
        0x03u8,
        0x06u8,
        0x08u8,
        0x0du8,
        0x08u8,
        0x0du8,
        0x12u8,
        0x1bu8,
    ]
}

/// The payload that carries a message of this sender.
pub open spec fn message_payload(from: Seq<u8>, message: Seq<u8>) -> Seq<u8> {
    seq![3u8, 2u8] + pairs_swapped(from) + message_magic() + zeros(14) + message
}

impl Default for MessagePayload {
    fn default() -> (payload: Self)
        ensures
            payload.magic == 3,
            payload.subtype == 2,
            payload.from@ == zeros(6),
            payload.magic_1@ == message_magic(),
            payload.safezone@ == zeros(14),
            payload.message@ == Seq::<u8>::empty(),
    {
        let nobody = MacAddress::zero();
        assert(nobody@ =~= zeros(6));
        let safezone: [u8; 14] = [0; 14];
        assert(safezone@ =~= zeros(14));
        MessagePayload {
            magic: 3,
            subtype: 2,
            from: nobody,
            magic_1: [
                0x00,
                0x05,
                0x00,
                0x00,
                0x00,
                0x00,
                0x03,
                0x06,
                0x08,
                0x0d,
                0x08,
                0x0d,
                0x12,
                0x1b,
            ],
            safezone,
            message: Vec::new(),
        }
    }
}

impl MessagePayload {
    /// The payload on the air.
    pub open spec fn encoded(self) -> Seq<u8> {
        seq![self.magic, self.subtype] + pairs_swapped(self.from@) + self.magic_1@ + self.safezone@
            + self.message@
    }

    /// Whether this payload is the one that the bytes spell.
    pub open spec fn spelled_by(self, bytes: Seq<u8>) -> bool {
        &&& self.magic == bytes[0]
        &&& self.subtype == bytes[1]
        &&& self.from@ == pairs_swapped(bytes.subrange(2, 8))
        &&& self.magic_1@ == bytes.subrange(8, 22)
        &&& self.safezone@ == bytes.subrange(22, 36)
        &&& self.message@ == bytes.skip(36)
    }

    /// The payload on the air.
    pub fn to_bytes(&self) -> (bytes: Vec<u8>)
        ensures
            bytes@ == self.encoded(),
    {
        let mut bytes: Vec<u8> = Vec::new();
        bytes.push(self.magic);
        bytes.push(self.subtype);
        push_swapped(&mut bytes, &self.from);
        bytes.extend_from_slice(self.magic_1.as_slice());
        bytes.extend_from_slice(self.safezone.as_slice());
        bytes.extend_from_slice(self.message.as_slice());
        assert(bytes@ =~= self.encoded());
        bytes
    }

    /// Reads a payload. All that follows its fixed part is the message.
    pub fn from_bytes(bytes: &Vec<u8>) -> (payload: Self)
        requires
            bytes@.len() >= MESSAGE_HEADER,
        ensures
            payload.spelled_by(bytes@),
    {
        let all = bytes.as_slice();
        let end: usize = all.len();
        let swapped = copy_to_bytes(&all[2..end], MAC_SIZE);
        let magic_1 = copy_to_bytes(&all[8..end], 14);
        let safezone = copy_to_bytes(&all[22..end], 14);
        let from = MacAddress::new(
            [swapped[1], swapped[0], swapped[3], swapped[2], swapped[5], swapped[4]],
        );
        let message = copy_range(all, MESSAGE_HEADER, end);
        let payload = MessagePayload {
            magic: get_u8(all),
            subtype: get_u8(&all[1..end]),
            from,
            magic_1: array_at(magic_1.as_slice(), 0),
            safezone: array_at(safezone.as_slice(), 0),
            message,
        };
        proof {
            assert(swapped@ =~= bytes@.subrange(2, 8));
            assert(payload.from@ =~= pairs_swapped(bytes@.subrange(2, 8)));
            assert(payload.magic_1@ =~= bytes@.subrange(8, 22));
            assert(payload.safezone@ =~= bytes@.subrange(22, 36));
            assert(payload.message@ =~= bytes@.skip(36));
        }
        payload
    }
}

/// How a console presents itself: its name, its biography, its colour and its birthday.
#[derive(Debug, Eq, PartialEq)]
pub struct ConsoleIdPayload {
    pub magic: [u8; 2],
    pub to: MacAddress,
    pub name: WStringWrapper,
    pub bio: WStringWrapper,
    pub colour: u16,
    pub birth_day: u8,
    pub birth_month: u8,
}

/// What a console's identity says, with its texts as bytes.
pub struct ConsoleId {
    pub magic: Seq<u8>,
    pub to: Seq<u8>,
    pub name: Seq<u8>,
    pub bio: Seq<u8>,
    pub colour: u16,
    pub birth_day: u8,
    pub birth_month: u8,
}

impl View for ConsoleIdPayload {
    type V = ConsoleId;

    open spec fn view(&self) -> ConsoleId {
        ConsoleId {
            magic: self.magic@,
            to: self.to@,
            name: self.name@,
            bio: self.bio@,
            colour: self.colour,
            birth_day: self.birth_day,
            birth_month: self.birth_month,
        }
    }
}

impl ConsoleId {
    /// The identity on the air. The texts fill fields of a fixed size, cut or padded with zeros.
    pub open spec fn encoded(self) -> Seq<u8> {
        self.magic + pairs_swapped(self.to) + resized(self.name, NAME_SIZE as nat) + resized(
            self.bio,
            BIO_SIZE as nat,
        ) + le16(self.colour) + seq![self.birth_day, self.birth_month]
    }
}

/// Whether the bytes hold an identity: all of it, with well-formed texts.
pub open spec fn holds_console_id(bytes: Seq<u8>) -> bool {
    &&& bytes.len() >= CONSOLE_ID_SIZE
    &&& utf16_valid(bytes.subrange(8, 28))
    &&& utf16_valid(bytes.subrange(28, 80))
}

/// The identity that the bytes spell. The address in them is passed over: the reader always sees
/// the zero address.
pub open spec fn console_id_of(bytes: Seq<u8>) -> ConsoleId {
    ConsoleId {
        magic: bytes.subrange(0, 2),
        to: zeros(6),
        name: bytes.subrange(8, 28),
        bio: bytes.subrange(28, 80),
        colour: le16_at(bytes, 80),
        birth_day: bytes[82],
        birth_month: bytes[83],
    }
}

impl Clone for ConsoleIdPayload {
    fn clone(&self) -> (copy: Self)
        ensures
            copy@ == self@,
    {
        ConsoleIdPayload {
            magic: self.magic,
            to: self.to,
            name: self.name.clone(),
            bio: self.bio.clone(),
            colour: self.colour,
            birth_day: self.birth_day,
            birth_month: self.birth_month,
        }
    }
}

impl Default for ConsoleIdPayload {
    fn default() -> (id: Self)
        ensures
            id@ == (ConsoleId {
                magic: seq![0x03u8, 0x00u8],
                to: zeros(6),
                name: utf16_encoded("name"@),
                bio: utf16_encoded("bio"@),
                colour: 0,
                birth_day: 1,
                birth_month: 1,
            }),
    {
        let nobody = MacAddress::zero();
        assert(nobody@ =~= zeros(6));
        ConsoleIdPayload {
            magic: [0x03, 0x00],
            to: nobody,
            name: WStringWrapper::from_text("name"),
            bio: WStringWrapper::from_text("bio"),
            colour: 0,
            birth_day: 1,
            birth_month: 1,
        }
    }
}

/// Appends a text as a field of a fixed size.
fn push_resized(buffer: &mut Vec<u8>, text: &WStringWrapper, size: usize)
    ensures
        final(buffer)@ == old(buffer)@ + resized(text@, size as nat),
{
    let mut field = copy_range(text.as_bytes(), 0, text.as_bytes().len());
    assert(field@ =~= text@);
    field.resize(size, 0);
    proof {
        if text@.len() < size {
            let kept = field@.subrange(0, text@.len() as int);
            assert forall|i: int| 0 <= i < text@.len() implies field@[i] == text@[i] by {
                assert(kept[i] == text@[i]);
            }
        }
    }
    assert(field@ =~= resized(text@, size as nat));
    buffer.extend_from_slice(field.as_slice());
    assert(buffer@ =~= old(buffer)@ + resized(text@, size as nat));
}

impl ConsoleIdPayload {
    /// The identity on the air.
    pub fn to_bytes(&self) -> (bytes: Vec<u8>)
        ensures
            bytes@ == self@.encoded(),
            bytes@.len() == CONSOLE_ID_SIZE,
    {
        let mut bytes: Vec<u8> = Vec::new();
        bytes.extend_from_slice(self.magic.as_slice());
        push_swapped(&mut bytes, &self.to);
        push_resized(&mut bytes, &self.name, NAME_SIZE);
        push_resized(&mut bytes, &self.bio, BIO_SIZE);
        push_u16(&mut bytes, self.colour);
        bytes.push(self.birth_day);
        bytes.push(self.birth_month);
        assert(bytes@ =~= self@.encoded());
        bytes
    }

    /// Whether `from_bytes` can read the bytes.
    pub fn is_readable(bytes: &[u8]) -> (readable: bool)
        ensures
            readable <==> holds_console_id(bytes@),
    {
        bytes.len() >= CONSOLE_ID_SIZE && WStringWrapper::from_utf16le(
            copy_range(bytes, 8, 28),
        ).is_some() && WStringWrapper::from_utf16le(copy_range(bytes, 28, 80)).is_some()
    }

    /// Reads an identity.
    pub fn from_bytes(bytes: &[u8]) -> (id: Self)
        requires
            holds_console_id(bytes@),
        ensures
            id@ == console_id_of(bytes@),
    {
        let name = WStringWrapper::from_utf16le(copy_range(bytes, 8, 28)).unwrap();
        let bio = WStringWrapper::from_utf16le(copy_range(bytes, 28, 80)).unwrap();
        let nobody = MacAddress::zero();
        assert(nobody@ =~= zeros(6));
        ConsoleIdPayload {
            magic: array_at(bytes, 0),
            to: nobody,
            name,
            bio,
            colour: read_u16_at(bytes, 80),
            birth_day: bytes[82],
            birth_month: bytes[83],
        }
    }
}

/// One piece of a transfer: a payload and the offset at which it belongs.
pub struct PictochatType2 {
    pub hdr: PictochatHeader,
    pub sending_console_id: u8,
    pub payload_type: u8,
    pub payload_length: u8,
    pub transfer_flags: u8,
    pub write_offset: u16,
    pub payload: Option<Vec<u8>>,
}

/// What a piece of a transfer says.
pub struct Piece {
    pub hdr: PictochatHeader,
    pub sending_console_id: u8,
    pub payload_type: u8,
    pub payload_length: u8,
    pub transfer_flags: u8,
    pub write_offset: u16,
    pub payload: Option<Seq<u8>>,
}

impl View for PictochatType2 {
    type V = Piece;

    open spec fn view(&self) -> Piece {
        Piece {
            hdr: self.hdr,
            sending_console_id: self.sending_console_id,
            payload_type: self.payload_type,
            payload_length: self.payload_length,
            transfer_flags: self.transfer_flags,
            write_offset: self.write_offset,
            payload: bytes_of(self.payload),
        }
    }
}

impl Piece {
    /// The piece on the air.
    pub open spec fn encoded(self) -> Seq<u8> {
        self.hdr.encoded() + seq![
            self.sending_console_id,
            self.payload_type,
            self.payload_length,
            self.transfer_flags,
        ] + le16(self.write_offset) + zeros(2) + (match self.payload {
            Some(payload) => payload,
            None => Seq::empty(),
        })
    }
}

/// The piece of a transfer that the bytes spell. A payload that is cut short reads as zeros.
pub open spec fn piece_of(bytes: Seq<u8>) -> Piece {
    let length = bytes[6] as int;
    Piece {
        hdr: PictochatHeader {
            pkt_type: le16_at(bytes, 0),
            pkt_size_with_header: le16_at(bytes, 2),
        },
        sending_console_id: bytes[4],
        payload_type: bytes[5],
        payload_length: bytes[6],
        transfer_flags: bytes[7],
        write_offset: le16_at(bytes, 8),
        payload: if length == 0 {
            None
        } else if TYPE_2_HEADER + length <= bytes.len() {
            Some(bytes.subrange(TYPE_2_HEADER as int, TYPE_2_HEADER + length))
        } else {
            Some(zeros(length as nat))
        },
    }
}

impl Default for PictochatType2 {
    fn default() -> (packet: Self)
        ensures
            packet@ == (Piece {
                hdr: PictochatHeader { pkt_type: 2, pkt_size_with_header: 96 },
                sending_console_id: 0,
                payload_type: 0,
                payload_length: 0,
                transfer_flags: 0,
                write_offset: 0,
                payload: None,
            }),
    {
        PictochatType2 {
            hdr: PictochatHeader { pkt_type: 2, pkt_size_with_header: 96 },
            sending_console_id: 0,
            payload_type: 0,
            payload_length: 0,
            transfer_flags: 0,
            write_offset: 0,
            payload: None,
        }
    }
}

impl PictochatType2 {
    /// The piece on the air.
    pub fn to_bytes(&self) -> (bytes: Vec<u8>)
        ensures
            bytes@ == self@.encoded(),
    {
        let mut bytes: Vec<u8> = Vec::new();
        push_header(&mut bytes, &self.hdr);
        bytes.push(self.sending_console_id);
        bytes.push(self.payload_type);
        bytes.push(self.payload_length);
        bytes.push(self.transfer_flags);
        push_u16(&mut bytes, self.write_offset);
        push_u16(&mut bytes, 0);
        match &self.payload {
            Some(payload) => {
                bytes.extend_from_slice(payload.as_slice());
            },
            None => {},
        }
        assert(bytes@ =~= self@.encoded());
        bytes
    }

    /// Reads a piece of a transfer.
    pub fn from_bytes(bytes: &Vec<u8>) -> (packet: Self)
        requires
            bytes@.len() >= TYPE_2_HEADER,
        ensures
            packet@ == piece_of(bytes@),
    {
        let bytes = bytes.as_slice();
        let payload_length: u8 = bytes[6];
        let end: usize = TYPE_2_HEADER + payload_length as usize;
        let payload: Option<Vec<u8>> = if payload_length == 0 {
            None
        } else if end <= bytes.len() {
            Some(copy_range(bytes, TYPE_2_HEADER, end))
        } else {
            let blank: Vec<u8> = vec![0; payload_length as usize];
            assert(blank@ =~= zeros(payload_length as nat));
            Some(blank)
        };
        PictochatType2 {
            hdr: PictochatHeader {
                pkt_type: read_u16_at(bytes, 0),
                pkt_size_with_header: read_u16_at(bytes, 2),
            },
            sending_console_id: bytes[4],
            payload_type: bytes[5],
            payload_length,
            transfer_flags: bytes[7],
            write_offset: read_u16_at(bytes, 8),
            payload,
        }
    }
}

/// Reading back a type 1 packet gives the packet.
pub proof fn law_type1_round_trip(packet: PictochatType1, read: PictochatType1)
    ensures
        packet.spelled_by(packet.encoded()),
        read.spelled_by(packet.encoded()) ==> read == packet,
{
    let bytes = packet.encoded();
    assert(bytes.subrange(6, 8) =~= packet.magic_1@);
    assert(bytes.subrange(10, 20) =~= packet.magic_2@);
    if read.spelled_by(bytes) {
        assert(read.magic_1 =~= packet.magic_1);
        assert(read.magic_2 =~= packet.magic_2);
    }
}

/// Reading back a message payload gives its fields and its message.
pub proof fn law_message_round_trip(payload: MessagePayload, read: MessagePayload)
    ensures
        payload.spelled_by(payload.encoded()),
        read.spelled_by(payload.encoded()) ==> {
            &&& read.magic == payload.magic
            &&& read.subtype == payload.subtype
            &&& read.from == payload.from
            &&& read.magic_1 == payload.magic_1
            &&& read.safezone == payload.safezone
            &&& read.message@ == payload.message@
        },
{
    let bytes = payload.encoded();
    assert(bytes.subrange(2, 8) =~= pairs_swapped(payload.from@));
    law_pairs_swapped_twice(payload.from@);
    assert(bytes.subrange(8, 22) =~= payload.magic_1@);
    assert(bytes.subrange(22, 36) =~= payload.safezone@);
    assert(bytes.skip(36) =~= payload.message@);
    if read.spelled_by(bytes) {
        assert(read.from.octets =~= payload.from.octets);
        assert(read.magic_1 =~= payload.magic_1);
        assert(read.safezone =~= payload.safezone);
    }
}

/// Well-formed text has whole code units.
proof fn lemma_valid_text_is_even(bytes: Seq<u8>)
    requires
        utf16_valid(bytes),
    ensures
        bytes.len() % 2 == 0,
    decreases bytes.len(),
{
    if bytes.len() >= 2 {
        if leads(le16_at(bytes, 0)) {
            lemma_valid_text_is_even(bytes.skip(4));
        } else {
            lemma_valid_text_is_even(bytes.skip(2));
        }
    }
}

/// Well-formed text that fits stays well-formed in a field of a fixed, even size.
proof fn lemma_field_is_valid(text: Seq<u8>, size: nat)
    requires
        utf16_valid(text),
        text.len() <= size,
        size % 2 == 0,
    ensures
        utf16_valid(resized(text, size)),
{
    lemma_valid_text_is_even(text);
    let pairs = ((size - text.len()) / 2) as nat;
    law_padding_keeps_text_valid(text, pairs);
    assert(2 * pairs == size - text.len());
    assert(resized(text, size) =~= text + zeros(2 * pairs));
}

/// An identity whose texts fit their fields can be read back: all of it comes out as it went in,
/// but that the texts come out padded and the address comes out as zero.
pub proof fn law_console_id_round_trip(id: ConsoleId)
    requires
        id.magic.len() == 2,
        id.to.len() == 6,
        utf16_valid(id.name),
        utf16_valid(id.bio),
        id.name.len() <= NAME_SIZE,
        id.bio.len() <= BIO_SIZE,
    ensures
        holds_console_id(id.encoded()),
        console_id_of(id.encoded()) == (ConsoleId {
            to: zeros(6),
            name: resized(id.name, NAME_SIZE as nat),
            bio: resized(id.bio, BIO_SIZE as nat),
            ..id
        }),
{
    let bytes = id.encoded();
    lemma_field_is_valid(id.name, NAME_SIZE as nat);
    lemma_field_is_valid(id.bio, BIO_SIZE as nat);
    assert(bytes.subrange(0, 2) =~= id.magic);
    assert(bytes.subrange(8, 28) =~= resized(id.name, NAME_SIZE as nat));
    assert(bytes.subrange(28, 80) =~= resized(id.bio, BIO_SIZE as nat));
    assert(bytes.subrange(80, 82) =~= le16(id.colour));
    assert(le16_at(bytes, 80) == le16_at(bytes.subrange(80, 82), 0));
}

/// Reading back a piece of a transfer gives the piece, where its length field tells the truth of
/// its payload.
pub proof fn law_piece_round_trip(piece: Piece)
    requires
        match piece.payload {
            Some(payload) => payload.len() > 0 && payload.len() == piece.payload_length,
            None => piece.payload_length == 0,
        },
    ensures
        piece_of(piece.encoded()) == piece,
{
    let bytes = piece.encoded();
    assert(bytes[6] == piece.payload_length);
    assert(bytes.subrange(8, 10) =~= le16(piece.write_offset));
    assert(le16_at(bytes, 8) == le16_at(bytes.subrange(8, 10), 0));
    if let Some(payload) = piece.payload {
        assert(bytes.subrange(TYPE_2_HEADER as int, TYPE_2_HEADER + payload.len()) =~= payload);
    }
}

/// Where the fields of a type 1 packet stand, low bytes first.
pub proof fn law_type1_layout(packet: PictochatType1, bytes: Seq<u8>)
    requires
        bytes.len() >= 20,
        packet.spelled_by(bytes),
    ensures
        packet.hdr.pkt_type == bytes[0] + 256 * bytes[1],
        packet.hdr.pkt_size_with_header == bytes[2] + 256 * bytes[3],
        packet.console_id == bytes[4] + 256 * bytes[5],
        packet.magic_1[0] == bytes[6],
        packet.magic_1[1] == bytes[7],
        packet.data_size == bytes[8] + 256 * bytes[9],
        forall|i: int| 0 <= i < 10 ==> #[trigger] packet.magic_2[i] == bytes[10 + i],
{
    assert(packet.magic_1@[0] == bytes.subrange(6, 8)[0]);
    assert(packet.magic_1@[1] == bytes.subrange(6, 8)[1]);
    assert forall|i: int| 0 <= i < 10 implies #[trigger] packet.magic_2[i] == bytes[10 + i] by {
        assert(packet.magic_2@[i] == bytes.subrange(10, 20)[i]);
    }
}

/// Where the fields of a piece of a transfer stand, low bytes first: its payload follows the twelve
/// bytes of its header, and is as long as the piece says. One that is cut short counts as zeros,
/// and one of no bytes as none.
pub proof fn law_piece_layout(bytes: Seq<u8>)
    requires
        bytes.len() >= 12,
    ensures
        ({
            let piece = piece_of(bytes);
            &&& piece.hdr.pkt_type == bytes[0] + 256 * bytes[1]
            &&& piece.hdr.pkt_size_with_header == bytes[2] + 256 * bytes[3]
            &&& piece.sending_console_id == bytes[4]
            &&& piece.payload_type == bytes[5]
            &&& piece.payload_length == bytes[6]
            &&& piece.transfer_flags == bytes[7]
            &&& piece.write_offset == bytes[8] + 256 * bytes[9]
            &&& piece.payload is None <==> bytes[6] == 0
            &&& piece.payload matches Some(payload) ==> payload.len() == bytes[6] && (forall|i: int|
                0 <= i < bytes[6] ==> #[trigger] payload[i] == if 12 + bytes[6] <= bytes.len() {
                    bytes[12 + i]
                } else {
                    0u8
                })
        }),
{
}

/// Where the parts of a message stand that goes out: two bytes that mark a message, the sender's
/// address with neighbouring octets exchanged, a fixed run, zeros, and the message, whole, from the
/// 37th byte on.
pub proof fn law_message_layout(from: MacAddress, message: Seq<u8>)
    ensures
        ({
            let payload = message_payload(from@, message);
            &&& payload.len() == 36 + message.len()
            &&& payload.take(2) == seq![3u8, 2u8]
            &&& payload.subrange(2, 8) == seq![
                from.octets[1],
                from.octets[0],
                from.octets[3],
                from.octets[2],
                from.octets[5],
                from.octets[4],
            ]
            &&& payload.subrange(8, 22) == seq![0u8, 5, 0, 0, 0, 0, 3, 6, 8, 13, 8, 13, 18, 27]
            &&& forall|i: int| 22 <= i < 36 ==> #[trigger] payload[i] == 0
            &&& payload.skip(36) == message
        }),
{
    let payload = message_payload(from@, message);
    assert(payload.take(2) =~= seq![3u8, 2u8]);
    assert(payload.subrange(2, 8) =~= pairs_swapped(from@));
    assert(payload.subrange(8, 22) =~= seq![0u8, 5, 0, 0, 0, 0, 3, 6, 8, 13, 8, 13, 18, 27]);
    assert(payload.skip(36) =~= message);
}

/// Where the parts of a message stand that is read.
pub proof fn law_message_is_read(payload: MessagePayload, bytes: Seq<u8>)
    requires
        bytes.len() >= 36,
        payload.spelled_by(bytes),
    ensures
        payload.magic == bytes[0],
        payload.subtype == bytes[1],
        payload.from.octets@ == seq![bytes[3], bytes[2], bytes[5], bytes[4], bytes[7], bytes[6]],
        forall|i: int| 0 <= i < 14 ==> #[trigger] payload.magic_1[i] == bytes[8 + i],
        forall|i: int| 0 <= i < 14 ==> #[trigger] payload.safezone[i] == bytes[22 + i],
        payload.message@.len() == bytes.len() - 36,
        forall|i: int| 36 <= i < bytes.len() ==> payload.message@[i - 36] == #[trigger] bytes[i],
{
    assert(payload.from@ =~= seq![bytes[3], bytes[2], bytes[5], bytes[4], bytes[7], bytes[6]]);
    assert forall|i: int| 0 <= i < 14 implies #[trigger] payload.magic_1[i] == bytes[8 + i] by {
        assert(payload.magic_1@[i] == bytes.subrange(8, 22)[i]);
    }
    assert forall|i: int| 0 <= i < 14 implies #[trigger] payload.safezone[i] == bytes[22 + i] by {
        assert(payload.safezone@[i] == bytes.subrange(22, 36)[i]);
    }
}

/// Where the parts of an identity stand that is read.
pub proof fn law_console_id_layout(bytes: Seq<u8>)
    requires
        bytes.len() >= 84,
    ensures
        ({
            let id = console_id_of(bytes);
            &&& id.magic == seq![bytes[0], bytes[1]]
            &&& id.to == seq![0u8, 0, 0, 0, 0, 0]
            &&& id.name.len() == 20
            &&& forall|i: int| 0 <= i < 20 ==> #[trigger] id.name[i] == bytes[8 + i]
            &&& id.bio.len() == 52
            &&& forall|i: int| 0 <= i < 52 ==> #[trigger] id.bio[i] == bytes[28 + i]
            &&& id.colour == bytes[80] + 256 * bytes[81]
            &&& id.birth_day == bytes[82]
            &&& id.birth_month == bytes[83]
        }),
{
    let id = console_id_of(bytes);
    assert(id.magic =~= seq![bytes[0], bytes[1]]);
    assert(id.to =~= seq![0u8, 0, 0, 0, 0, 0]);
}

} // verus!
