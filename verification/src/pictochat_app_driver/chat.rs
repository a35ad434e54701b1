//! The chat application as a mathematical object: its state, and how a poll, a packet and a client
//! event change it.

use crate::ds_local_wifi_driver::frames::{HostFrame, HostToClientDataFrameFooter};
use crate::ds_local_wifi_driver::layer::{
    BeaconType, ClientEvents, LayerState, LocalWifiClientDevice,
};
use crate::mac_address::MacAddress;
use crate::pictochat_app_driver::events::{ChatState, Event, Job};
use crate::pictochat_app_driver::pictochat_packets::{
    console_id_of, holds_console_id, ident_magic, message_payload, piece_of, type1_packet,
    type4_packet, type5_packet, ConsoleId, PictochatHeader, Piece, MESSAGE_HEADER, TYPE_1_SIZE,
    TYPE_2_HEADER,
};
use crate::wide_string::utf16_encoded;
use crate::wire::{le16_at, zeros};
use vstd::prelude::*;

verus! {

/// The largest transfer for which a buffer is set aside.
pub const MAX_PACKET_ALLOC_SIZE: u16 = 16384;

/// How many bytes of a payload one piece carries.
pub const MESSAGE_CHUNK_SIZE: u8 = 180;

/// The state of the chat application.
pub struct Chat {
    pub i: i32,
    pub seq_no: u16,
    pub next_pkt: Option<Seq<u8>>,
    pub state: ChatState,
    pub members: Seq<MacAddress>,
    /// Jobs that wait.
    pub queue: Seq<Job>,
    /// The job at hand.
    pub tracker: Option<Job>,
    /// What has come in of a transfer.
    pub buffer: Option<Seq<u8>>,
    pub read_offset: usize,
    pub current_note: u8,
    /// Events from the network that wait, where there is a network.
    pub incoming: Option<Seq<Event>>,
    /// Events for the network, where there is a network.
    pub outgoing: Option<Seq<Event>>,
    /// The identities of the consoles that have joined, by the number of their address.
    pub consoles: Map<u64, ConsoleId>,
    pub identity: ConsoleId,
}

/// The second magic of the packet that announces a message.
pub open spec fn message_announcement_magic() -> Seq<u8> {
    seq![0x00u8, 0x00u8, 0x58u8, 0x2bu8, 0x00u8, 0x03u8, 0xdbu8, 0xa2u8, 0xfau8, 0xeau8]
}

/// The packet that follows the last piece of a message.
pub open spec fn transfer_end_packet() -> Seq<u8> {
    seq![
        0x03u8,
        0x00u8,
        0x14u8,
        0x00u8,
        0x01u8,
        0x04u8,
        0xffu8,
        0xffu8,
        0x81u8,
        0x93u8,
        0x32u8,
        0x02u8,
        0x01u8,
        0x69u8,
        0x35u8,
        0x02u8,
        0x6fu8,
        0x02u8,
        0x33u8,
        0x02u8,
    ]
}

/// A frame of the chat application.
pub open spec fn chat_frame(flags: u8, payload: Seq<u8>, seq_no: u16) -> HostFrame {
    HostFrame {
        us_per_client_reply: 998,
        rx_console_mask: 2,
        flags,
        broadcast_cycles_remaining: 0,
        payload: Some(payload),
        footer: Some(HostToClientDataFrameFooter { seq_no, idk: 0 }),
    }
}

/// A piece of a transfer of the host.
pub open spec fn host_piece(
    payload_type: u8,
    last: bool,
    write_offset: u16,
    payload: Seq<u8>,
) -> Piece {
    Piece {
        hdr: PictochatHeader { pkt_type: 2, pkt_size_with_header: 96 },
        sending_console_id: 0,
        payload_type,
        payload_length: payload.len() as u8,
        transfer_flags: if last {
            1
        } else {
            0
        },
        write_offset,
        payload: Some(payload),
    }
}

/// How many pieces a payload takes, in sixteen bits.
pub open spec fn total_chunks(size: nat) -> u16 {
    (((size + MESSAGE_CHUNK_SIZE - 1) / MESSAGE_CHUNK_SIZE as int) % 0x1_0000) as u16
}

/// The size of a payload in sixteen bits, as the packets announce it.
pub open spec fn short_size(size: nat) -> u16 {
    (size % 0x1_0000) as u16
}

/// How many bytes of a payload the piece at an offset carries.
pub open spec fn chunk_size(size: nat, offset: u16) -> int {
    if short_size(size) - offset > MESSAGE_CHUNK_SIZE {
        MESSAGE_CHUNK_SIZE as int
    } else {
        short_size(size) - offset
    }
}

/// The bytes that the piece at an offset carries.
pub open spec fn chunk_at(payload: Seq<u8>, offset: u16) -> Seq<u8> {
    payload.subrange(offset as int, offset + chunk_size(payload.len(), offset))
}

/// The piece of a payload that a step of a transfer sends.
pub open spec fn transfer_piece(payload: Seq<u8>, counter: u16, offset: u16) -> Piece {
    let last = counter == total_chunks(payload.len());
    host_piece(
        if last {
            0x04
        } else if counter == 1 {
            0xff
        } else {
            0x97
        },
        last,
        offset,
        chunk_at(payload, offset),
    )
}

/// The frame that a step of a transfer sends: first the announcement, in the next steps the pieces,
/// after them the end.
pub open spec fn transfer_frame(job: Job, seq_no: u16) -> HostFrame {
    let payload = job.payload->0;
    let total = total_chunks(payload.len());
    if job.counter == 0 {
        chat_frame(
            29,
            type1_packet(0, short_size(payload.len()), message_announcement_magic()),
            seq_no,
        )
    } else if job.counter <= total {
        chat_frame(
            if job.counter == total {
                158
            } else {
                30
            },
            transfer_piece(payload, job.counter, job.offset).encoded(),
            seq_no,
        )
    } else {
        chat_frame(141, transfer_end_packet(), seq_no)
    }
}

/// Where the next piece of a transfer begins after a step.
pub open spec fn transfer_offset(job: Job) -> u16 {
    let size = (job.payload->0).len();
    if job.counter == 0 || job.counter > total_chunks(size) {
        job.offset
    } else {
        (job.offset + chunk_size(size, job.offset)) as u16
    }
}

/// The identity that a step of an introduction sends.
pub open spec fn introduced(id: ConsoleId, counter: u16) -> ConsoleId {
    ConsoleId {
        magic: seq![
            0x03u8,
            if counter == 1 {
                0x00u8
            } else {
                0x01u8
            },
        ],
        ..id
    }
}

/// The frame that a step of an introduction sends: an announcement and the identity, twice over.
pub open spec fn introduction_frame(id: ConsoleId, counter: u16, seq_no: u16) -> Option<HostFrame> {
    if counter == 0 || counter == 2 {
        Some(chat_frame(29, type1_packet(0, 84, ident_magic()), seq_no))
    } else if counter == 1 || counter == 3 {
        Some(
            chat_frame(
                30,
                host_piece(5, true, 0, introduced(id, counter).encoded()).encoded(),
                seq_no,
            ),
        )
    } else {
        None
    }
}

/// Whether the step that a state asks for can be made with the job at hand.
pub open spec fn job_ready(state: ChatState, tracker: Option<Job>) -> bool {
    match state {
        ChatState::IdentConsole { .. } => tracker matches Some(job) && job.counter < u16::MAX,
        ChatState::Echo => tracker matches Some(job) && job.payload matches Some(payload)
            && payload.len() % 2 == 0,
        ChatState::TXTransfer => tracker matches Some(job) && job.payload matches Some(payload) && {
            let total = total_chunks(payload.len());
            &&& 0 < job.counter <= total ==> {
                &&& job.offset <= short_size(payload.len())
                &&& chunk_size(payload.len(), job.offset) % 2 == 0
            }
            &&& job.counter != total ==> job.counter < u16::MAX
        },
        _ => true,
    }
}

impl Chat {
    /// The application with one more job.
    pub open spec fn with_job(self, state: ChatState, payload: Option<Seq<u8>>) -> Chat {
        Chat { queue: self.queue.push(Job::new(state, payload)), ..self }
    }

    /// The application with one more event for the network, where there is a network.
    pub open spec fn telling(self, event: Event) -> Chat {
        Chat {
            outgoing: match self.outgoing {
                Some(events) => Some(events.push(event)),
                None => None,
            },
            ..self
        }
    }

    /// The application after `setup`: the host is its own first member, and says who it is.
    pub open spec fn set_up(self, local_mac: MacAddress) -> Chat {
        Chat {
            members: self.members.update(0, local_mac),
            identity: ConsoleId {
                to: local_mac@,
                colour: 0,
                bio: utf16_encoded("Hello World!"@),
                name: utf16_encoded(""@),
                ..self.identity
            },
            ..self
        }
    }

    /// The application with a new poll counted.
    pub open spec fn counted(self) -> Chat {
        Chat { seq_no: (self.seq_no + 1) as u16, ..self }
    }

    /// The application after looking for one event from the network. A message becomes a transfer.
    pub open spec fn listened(self, local_mac: MacAddress) -> Chat {
        match self.incoming {
            Some(events) if events.len() > 0 => {
                let rest = Chat { incoming: Some(events.skip(1)), ..self };
                match events[0] {
                    Event::Message { content, .. } => rest.with_job(
                        ChatState::TXTransfer,
                        Some(message_payload(local_mac@, content)),
                    ),
                    _ => rest,
                }
            },
            _ => self,
        }
    }

    /// The application after it looked for work: an idle one takes the first job that waits.
    pub open spec fn scheduled(self) -> Chat {
        if self.state == ChatState::Idle && self.queue.len() > 0 {
            Chat {
                state: self.queue[0].state,
                tracker: Some(self.queue[0]),
                queue: self.queue.skip(1),
                ..self
            }
        } else {
            self
        }
    }

    /// The application as a poll finds it.
    pub open spec fn polled(self, local_mac: MacAddress) -> Chat {
        self.counted().listened(local_mac).scheduled()
    }

    /// The frame that the current state sends. The member lists carry a magic that is drawn by
    /// chance.
    pub open spec fn frame(self, magic: Seq<u8>) -> Option<HostFrame> {
        match self.state {
            ChatState::Idle => Some(
                chat_frame(28, type5_packet(magic, self.members), self.seq_no),
            ),
            ChatState::NewClient => Some(
                chat_frame(28, type4_packet(magic, self.members), self.seq_no),
            ),
            ChatState::RequestIdent { console_id } => Some(
                chat_frame(29, type1_packet(console_id, 84, ident_magic()), self.seq_no),
            ),
            ChatState::IdentConsole { mac, id } => introduction_frame(
                id,
                (self.tracker->0).counter,
                self.seq_no,
            ),
            ChatState::Echo => {
                let payload = (self.tracker->0).payload->0;
                Some(
                    chat_frame(
                        if payload.len() > 25 {
                            158
                        } else {
                            29
                        },
                        payload,
                        self.seq_no,
                    ),
                )
            },
            ChatState::TXTransfer => Some(transfer_frame(self.tracker->0, self.seq_no)),
        }
    }

    /// The application after it sent the frame of its current state.
    pub open spec fn advanced(self) -> Chat {
        let job = self.tracker->0;
        match self.state {
            ChatState::Idle => self,
            ChatState::NewClient => Chat { state: ChatState::Idle, ..self },
            ChatState::RequestIdent { .. } => Chat { state: ChatState::Idle, ..self },
            ChatState::IdentConsole { .. } => if job.counter == 3 {
                Chat { state: ChatState::Idle, tracker: None, ..self }
            } else {
                Chat {
                    tracker: Some(Job { counter: (job.counter + 1) as u16, ..job }),
                    ..self
                }
            },
            ChatState::Echo => Chat { state: ChatState::Idle, tracker: None, ..self },
            ChatState::TXTransfer => if job.counter == total_chunks((job.payload->0).len()) {
                Chat { state: ChatState::Idle, tracker: None, ..self }
            } else {
                Chat {
                    tracker: Some(
                        Job {
                            counter: (job.counter + 1) as u16,
                            offset: transfer_offset(job),
                            ..job
                        },
                    ),
                    ..self
                }
            },
        }
    }

    /// Whether the application is in order for the next poll: the sequence number can go up, no
    /// state event waits where only messages are understood, and the job at hand has what its next
    /// step needs.
    pub open spec fn can_fill(self) -> bool {
        &&& self.seq_no < u16::MAX
        &&& self.incoming matches Some(events) ==> events.len() > 0 ==> events[0] is Message
        &&& job_ready(self.scheduled().state, self.scheduled().tracker)
    }

    /// Whether the next poll has a frame to send.
    pub open spec fn has_frame(self) -> bool {
        self.scheduled().state is IdentConsole ==> (self.scheduled().tracker->0).counter <= 3
    }
}

/// `bytes` with `piece` written over it at `offset`.
pub open spec fn overwritten(bytes: Seq<u8>, offset: int, piece: Seq<u8>) -> Seq<u8> {
    Seq::new(
        bytes.len(),
        |i: int|
            if offset <= i < offset + piece.len() {
                piece[i - offset]
            } else {
                bytes[i]
            },
    )
}

/// Whether a whole transfer is a console's identity, and not a message.
pub open spec fn is_console_id(whole: Seq<u8>) -> bool {
    whole[1] == 0 || whole[1] == 1
}

/// Whether a whole transfer can be read as what it is.
pub open spec fn whole_readable(whole: Seq<u8>) -> bool {
    &&& whole.len() >= 2
    &&& if is_console_id(whole) {
        holds_console_id(whole)
    } else {
        whole.len() >= MESSAGE_HEADER
    }
}

/// The buffer of a transfer after a piece came in.
pub open spec fn piece_written(buffer: Seq<u8>, packet: Seq<u8>) -> Seq<u8> {
    let piece = piece_of(packet);
    overwritten(buffer, piece.write_offset as int, piece.payload->0)
}

/// Whether a piece of a transfer can be taken into a buffer.
pub open spec fn piece_fits(buffer: Seq<u8>, packet: Seq<u8>) -> bool {
    let piece = piece_of(packet);
    &&& packet.len() >= TYPE_2_HEADER
    &&& piece.payload_length != 0
    &&& piece.write_offset + piece.payload_length <= buffer.len()
    &&& piece.transfer_flags == 1 ==> whole_readable(piece_written(buffer, packet))
}

/// The event that a console's identity gives rise to.
pub open spec fn joined_event(mac: MacAddress, id: ConsoleId) -> Event {
    Event::State {
        mac: mac@,
        is_leaving: false,
        birthday: id.birth_day,
        birthmonth: id.birth_month,
        name: id.name,
        bio: id.bio,
    }
}

/// The requests that ask each of `count` consoles for its identity.
pub open spec fn ident_requests(count: nat) -> Seq<Job> {
    Seq::new(
        count,
        |i: int|
            Job::new(
                ChatState::RequestIdent { console_id: ((i + 1) % 0x1_0000) as u16 },
                None,
            ),
    )
}

impl Chat {
    /// The application after a console that it had not seen before identified itself: the host
    /// introduces itself and asks every console for its identity.
    pub open spec fn welcoming(
        self,
        local_mac: MacAddress,
        mac: MacAddress,
        id: ConsoleId,
    ) -> Chat {
        let consoles = self.consoles.insert(mac.number(), id);
        let idle = Job::new(ChatState::Idle, None);
        let introduction = Job::new(
            ChatState::IdentConsole { mac: local_mac@, id: self.identity },
            None,
        );
        Chat {
            consoles,
            queue: self.queue + seq![idle, introduction, idle] + ident_requests(consoles.len()),
            ..self
        }
    }

    /// The application after a whole transfer of a console came in. It goes to the network, where
    /// there is one; without a network nothing comes of it.
    pub open spec fn received(
        self,
        local_mac: MacAddress,
        device: LocalWifiClientDevice,
        whole: Seq<u8>,
    ) -> Chat {
        if self.outgoing is None {
            self
        } else if is_console_id(whole) {
            let id = console_id_of(whole);
            let told = self.telling(joined_event(device.addr, id));
            if self.consoles.contains_key(device.addr.number()) {
                told
            } else {
                told.welcoming(local_mac, device.addr, id)
            }
        } else {
            self.telling(
                Event::Message { sender: Some(device.addr@), content: whole.skip(36) },
            )
        }
    }

    /// The application after a piece of a transfer came in. The last one completes the transfer.
    pub open spec fn with_piece(
        self,
        local_mac: MacAddress,
        device: LocalWifiClientDevice,
        packet: Seq<u8>,
    ) -> Chat {
        match self.buffer {
            None => self,
            Some(buffer) => {
                let written = piece_written(buffer, packet);
                if piece_of(packet).transfer_flags == 1 {
                    Chat { buffer: None, ..self }.received(local_mac, device, written)
                } else {
                    Chat { buffer: Some(written), ..self }
                }
            },
        }
    }

    /// The application after a packet of a console came in. A console in the member list's place is
    /// put there first. Announcements and pieces of a transfer are repeated to all, an announcement
    /// under the host's packet type.
    pub open spec fn with_packet(
        self,
        local_mac: MacAddress,
        device: LocalWifiClientDevice,
        packet: Seq<u8>,
    ) -> Chat {
        let seen = Chat {
            members: self.members.update(device.assoc_id_num as int, device.addr),
            ..self
        };
        if packet[0] == 6 {
            seen.with_job(ChatState::NewClient, None)
        } else if packet[0] == 0 {
            let size = le16_at(packet, 8);
            let prepared = Chat {
                buffer: if size <= MAX_PACKET_ALLOC_SIZE {
                    Some(zeros(size as nat))
                } else {
                    seen.buffer
                },
                ..seen
            };
            prepared.with_job(ChatState::Echo, Some(packet.update(0, 1)))
        } else if packet[0] == 2 {
            seen.with_piece(local_mac, device, packet).with_job(ChatState::Echo, Some(packet))
        } else {
            seen
        }
    }

    /// Whether the application can take a packet of a console.
    pub open spec fn can_take(
        self,
        payload: Option<Seq<u8>>,
        device: LocalWifiClientDevice,
    ) -> bool {
        &&& device.assoc_id_num < 16
        &&& payload matches Some(packet) && {
            &&& packet.len() >= 1
            &&& packet[0] == 0 ==> packet.len() >= TYPE_1_SIZE
            &&& packet[0] == 2 ==> (self.buffer matches Some(buffer) ==> piece_fits(buffer, packet))
        }
    }

    /// The application after a console came or went. One that went leaves the member list.
    pub open spec fn with_event(self, client_event: ClientEvents) -> Chat {
        match client_event {
            ClientEvents::NewClient(_) => self,
            ClientEvents::LostClient((mac, _)) => Chat {
                members: without_member(self.members, mac),
                ..self
            },
        }
    }
}

/// A member list without an address: the zero address stands in its places.
pub open spec fn without_member(members: Seq<MacAddress>, mac: MacAddress) -> Seq<MacAddress> {
    members.map_values(
        |member: MacAddress|
            if member == mac {
                MacAddress { octets: [0, 0, 0, 0, 0, 0] }
            } else {
                member
            },
    )
}

/// The layer after the application's `setup`: beacons announce a chat room.
pub open spec fn layer_set_up(layer: LayerState) -> LayerState {
    layer.broadcasting(
        100_000,
        seq![0x48u8, 0x23u8, 0x11u8, 0x0au8, 0x01u8, 0x01u8, 0x04u8, 0x00u8],
        [0x00, 0x00, 0x00, 0x00],
        BeaconType::MULTICART,
        0x00c0,
        0x00c0,
    ).announcing(true)
}

/// The layer after a poll that had a frame to send, or none.
pub open spec fn layer_filled(layer: LayerState, frame: Option<HostFrame>) -> LayerState {
    match frame {
        Some(frame) => layer.polling_with(frame),
        None => layer,
    }
}

} // verus!
