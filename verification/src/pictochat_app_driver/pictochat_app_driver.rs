//! The chat application: takes what the consoles send, and decides what each poll carries.

use crate::ds_local_wifi_driver::flags::HostToClientFlags;
use crate::ds_local_wifi_driver::frames::{
    bytes_of, ClientFrame, ClientToHostDataFrame, HostToClientDataFrame,
    HostToClientDataFrameFooter,
};
use crate::ds_local_wifi_driver::layer::{
    BeaconType, ClientEvents, LayerState, LocalWifiApplicationLayer, LocalWifiClientDevice,
    LocalWifiLayer,
};
use crate::mac_address::MacAddress;
use crate::pictochat_app_driver::chat::{
    chat_frame, chunk_at, ident_requests, introduced, introduction_frame, job_ready, layer_filled,
    layer_set_up, message_announcement_magic, overwritten, piece_fits, total_chunks,
    transfer_end_packet, transfer_frame, transfer_piece, whole_readable, without_member, Chat,
    MAX_PACKET_ALLOC_SIZE, MESSAGE_CHUNK_SIZE,
};
use crate::pictochat_app_driver::events::{
    events_of, jobs_of, ChatState, Job, PictochatAppState, PictochatEvent, PictochatStateObject,
    PictochatUserMessageEvent, PictochatUserStateEvent,
};
use crate::pictochat_app_driver::pictochat_packets::{
    ident_magic, members_encoded, type1_packet, ConsoleId, ConsoleIdPayload, MessagePayload,
    PictochatType1, PictochatType2, PictochatType4, PictochatType5, MESSAGE_HEADER, TYPE_1_SIZE,
    TYPE_2_HEADER,
};
use crate::wide_string::{utf16_encoded, WStringWrapper};
use crate::wire::{copy_range, zeros};
use std::collections::{HashMap, VecDeque};
use vstd::prelude::*;

verus! {

broadcast use vstd::std_specs::hash::group_hash_axioms;

/// The chat application.
pub struct PictochatAppDriver {
    pub i: i32,
    pub seq_no: u16,
    pub next_pkt: Option<Vec<u8>>,
    pub state: PictochatAppState,
    pub member_list: [MacAddress; 16],
    pub desired_state_queue: VecDeque<PictochatStateObject>,
    pub state_tracker: Option<PictochatStateObject>,
    pub temp_buffer: Option<Vec<u8>>,
    pub read_offset: usize,
    pub current_note: u8,
    /// Events from the network that wait. The owner of the application puts them here.
    pub incoming_events: Option<VecDeque<PictochatEvent>>,
    /// Events for the network. The owner of the application takes them from here.
    pub outgoing_events: Option<Vec<PictochatEvent>>,
    /// The consoles that have joined, by the number of their address.
    pub console_state_map: HashMap<u64, ConsoleIdPayload>,
    pub identity: ConsoleIdPayload,
}

/// What a table of consoles says.
pub open spec fn consoles_of(consoles: Map<u64, ConsoleIdPayload>) -> Map<u64, ConsoleId> {
    consoles.map_values(|id: ConsoleIdPayload| id@)
}

impl View for PictochatAppDriver {
    type V = Chat;

    open spec fn view(&self) -> Chat {
        Chat {
            i: self.i,
            seq_no: self.seq_no,
            next_pkt: bytes_of(self.next_pkt),
            state: self.state@,
            members: self.member_list@,
            queue: jobs_of(self.desired_state_queue@),
            tracker: match self.state_tracker {
                Some(job) => Some(job@),
                None => None,
            },
            buffer: bytes_of(self.temp_buffer),
            read_offset: self.read_offset,
            current_note: self.current_note,
            incoming: match self.incoming_events {
                Some(events) => Some(events_of(events@)),
                None => None,
            },
            outgoing: match self.outgoing_events {
                Some(events) => Some(events_of(events@)),
                None => None,
            },
            consoles: consoles_of(self.console_state_map@),
            identity: self.identity@,
        }
    }
}

impl Default for PictochatAppDriver {
    fn default() -> (driver: Self)
        ensures
            driver@.i == 0,
            driver@.seq_no == 0,
            driver@.next_pkt is None,
            driver@.state == ChatState::Idle,
            driver@.members.len() == 16,
            forall|i: int| 0 <= i < 16 ==> (#[trigger] driver@.members[i])@ == zeros(6),
            driver@.queue == Seq::<Job>::empty(),
            driver@.tracker is None,
            driver@.buffer is None,
            driver@.read_offset == 0,
            driver@.current_note == 0,
            driver@.incoming is None,
            driver@.outgoing is None,
            driver@.consoles == Map::<u64, ConsoleId>::empty(),
            driver@.identity == (ConsoleId {
                magic: seq![0x03u8, 0x00u8],
                to: zeros(6),
                name: utf16_encoded("name"@),
                bio: utf16_encoded("bio"@),
                colour: 0,
                birth_day: 1,
                birth_month: 1,
            }),
    {
        let nobody = MacAddress::zero();
        assert(nobody@ =~= zeros(6));
        let driver = PictochatAppDriver {
            i: 0,
            seq_no: 0,
            next_pkt: None,
            state: PictochatAppState::Idle,
            member_list: [nobody; 16],
            desired_state_queue: VecDeque::new(),
            state_tracker: None,
            temp_buffer: None,
            read_offset: 0,
            current_note: 0,
            incoming_events: None,
            outgoing_events: None,
            console_state_map: HashMap::new(),
            identity: ConsoleIdPayload::default(),
        };
        proof {
            assert(driver@.queue =~= Seq::<Job>::empty());
            assert(driver@.consoles =~= Map::<u64, ConsoleId>::empty());
        }
        driver
    }
}

/// `rand::RngCore::fill_bytes` of `rand::thread_rng`: four bytes drawn by chance, of which nothing
/// is known.
#[verifier::external_body]
fn random_magic() -> (magic: [u8; 4]) {
    let mut magic = [0u8; 4];
    rand::RngCore::fill_bytes(&mut rand::thread_rng(), &mut magic);
    magic
}

/// A frame of the chat application.
fn chat_data_frame(flags: u8, payload: Vec<u8>, seq_no: u16) -> (frame: HostToClientDataFrame)
    ensures
        frame@ == chat_frame(flags, payload@, seq_no),
{
    HostToClientDataFrame {
        us_per_client_reply: 998,
        rx_console_mask: 2,
        flags: HostToClientFlags { bits: flags },
        broadcast_cycles_remaining: 0,
        payload: Some(payload),
        footer: Some(HostToClientDataFrameFooter { seq_no, idk: 0 }),
    }
}

impl PictochatAppDriver {
    /// The consoles in the room.
    pub fn get_member_list<L: LocalWifiLayer>(&self, upper_layer: &L) -> (members: [MacAddress; 16])
        ensures
            members@ == self@.members,
    {
        self.member_list
    }

    /// Enters a state.
    pub fn set_state(&mut self, new_state: PictochatAppState)
        ensures
            final(self)@ == (Chat { state: new_state@, ..old(self)@ }),
    {
        self.state = new_state;
    }

    /// Puts a job at the end of the queue.
    fn push_job(&mut self, desired_state: PictochatAppState, payload: Option<Vec<u8>>)
        ensures
            final(self)@ == old(self)@.with_job(desired_state@, bytes_of(payload)),
    {
        self.desired_state_queue.push_back(PictochatStateObject::new(desired_state, payload));
        assert(self@.queue =~= old(self)@.with_job(desired_state@, bytes_of(payload)).queue);
    }

    /// Looks for one event from the network, and makes a transfer of a message.
    fn listen(&mut self, local_mac: MacAddress)
        requires
            old(self)@.incoming matches Some(events) ==> events.len() > 0 ==> events[0] is Message,
        ensures
            final(self)@ == old(self)@.listened(local_mac),
    {
        let event: Option<PictochatEvent> = match &mut self.incoming_events {
            Some(events) => events.pop_front(),
            None => None,
        };
        proof {
            if old(self)@.incoming is Some {
                let events = old(self)@.incoming->0;
                if events.len() > 0 {
                    assert(self@.incoming->0 =~= events.skip(1));
                } else {
                    assert(self@.incoming->0 =~= events);
                }
            }
        }
        match event {
            Some(PictochatEvent::MESSAGE(message)) => {
                let payload = MessagePayload {
                    from: local_mac,
                    message: message.message_content,
                    ..Default::default()
                };
                let bytes = payload.to_bytes();
                self.push_job(PictochatAppState::TXTransfer, Some(bytes));
            },
            _ => {},
        }
    }

    /// Takes the first job that waits, where there is nothing else to do.
    fn schedule(&mut self)
        ensures
            final(self)@ == old(self)@.scheduled(),
    {
        let idle = matches!(self.state, PictochatAppState::Idle);
        if idle && self.desired_state_queue.len() > 0 {
            let job = self.desired_state_queue.pop_front().unwrap();
            self.state = job.desired_state.clone();
            self.state_tracker = Some(job);
            assert(self@.queue =~= old(self)@.queue.skip(1));
        }
    }

    /// Sends a step of an introduction.
    fn introduce<L: LocalWifiLayer>(&mut self, upper_layer: &mut L, id: ConsoleIdPayload)
        requires
            old(self)@.state matches ChatState::IdentConsole { mac, id: own } && own == id@,
            job_ready(old(self)@.state, old(self)@.tracker),
        ensures
            final(self)@ == old(self)@.advanced(),
            final(upper_layer).layer() == layer_filled(
                old(upper_layer).layer(),
                introduction_frame(id@, (old(self)@.tracker->0).counter, old(self)@.seq_no),
            ),
            old(upper_layer).layer().used(final(upper_layer).layer()),
            final(upper_layer).clients() == old(upper_layer).clients(),
            final(upper_layer).rest() == old(upper_layer).rest(),
    {
        let mut job = self.state_tracker.take().unwrap();
        let mut console_id = id;
        console_id.magic = [
            0x03,
            if job.counter == 1 {
                0x00
            } else {
                0x01
            },
        ];
        assert(console_id@.magic =~= introduced(id@, job.counter).magic);
        if job.counter == 0 || job.counter == 2 {
            let packet = PictochatType1 { console_id: 0, data_size: 84, ..Default::default() };
            let bytes = packet.to_bytes();
            assert(bytes@ == type1_packet(0, 84, ident_magic()));
            upper_layer.set_next_data_frame(chat_data_frame(29, bytes, self.seq_no));
        } else if job.counter == 1 || job.counter == 3 {
            let packet = PictochatType2 {
                sending_console_id: 0,
                payload_type: 5,
                payload_length: 84,
                transfer_flags: 1,
                write_offset: 0,
                payload: Some(console_id.to_bytes()),
                ..Default::default()
            };
            let bytes = packet.to_bytes();
            upper_layer.set_next_data_frame(chat_data_frame(30, bytes, self.seq_no));
        }
        if job.counter == 3 {
            self.state = PictochatAppState::Idle;
        } else {
            job.counter += 1;
            self.state_tracker = Some(job);
        }
    }

    /// Repeats a packet to all.
    fn echo<L: LocalWifiLayer>(&mut self, upper_layer: &mut L)
        requires
            old(self)@.state == ChatState::Echo,
            job_ready(old(self)@.state, old(self)@.tracker),
        ensures
            final(self)@ == old(self)@.advanced(),
            final(upper_layer).layer() == layer_filled(
                old(upper_layer).layer(),
                old(self)@.frame(Seq::empty()),
            ),
            old(upper_layer).layer().used(final(upper_layer).layer()),
            final(upper_layer).clients() == old(upper_layer).clients(),
            final(upper_layer).rest() == old(upper_layer).rest(),
    {
        let job = self.state_tracker.take().unwrap();
        let data = job.payload.unwrap();
        let flags: u8 = if data.len() > 25 {
            158
        } else {
            29
        };
        upper_layer.set_next_data_frame(chat_data_frame(flags, data, self.seq_no));
        self.state = PictochatAppState::Idle;
    }

    /// Sends a step of a transfer.
    fn transfer<L: LocalWifiLayer>(&mut self, upper_layer: &mut L)
        requires
            old(self)@.state == ChatState::TXTransfer,
            job_ready(old(self)@.state, old(self)@.tracker),
        ensures
            final(self)@ == old(self)@.advanced(),
            final(upper_layer).layer() == old(upper_layer).layer().polling_with(
                transfer_frame(old(self)@.tracker->0, old(self)@.seq_no),
            ),
            old(upper_layer).layer().used(final(upper_layer).layer()),
            final(upper_layer).clients() == old(upper_layer).clients(),
            final(upper_layer).rest() == old(upper_layer).rest(),
    {
        let mut job = self.state_tracker.take().unwrap();
        let ghost before = job@;
        let data = job.payload.take().unwrap();
        let size: u16 = (data.len() % 0x1_0000) as u16;
        let total: u16 = chunks_of(data.len());
        let counter: u16 = job.counter;
        if counter == 0 {
            let packet = PictochatType1 {
                console_id: 0,
                data_size: size,
                magic_2: [0x00, 0x00, 0x58, 0x2b, 0x00, 0x03, 0xdb, 0xa2, 0xfa, 0xea],
                ..Default::default()
            };
            let bytes = packet.to_bytes();
            assert(packet.magic_2@ =~= message_announcement_magic());
            upper_layer.set_next_data_frame(chat_data_frame(29, bytes, self.seq_no));
        } else if counter <= total {
            let left: u16 = size - job.offset;
            let data_size: u16 = if left > MESSAGE_CHUNK_SIZE as u16 {
                MESSAGE_CHUNK_SIZE as u16
            } else {
                left
            };
            let from: usize = job.offset as usize;
            let chunk = copy_range(data.as_slice(), from, from + data_size as usize);
            assert(chunk@ == chunk_at(data@, before.offset));
            let packet = PictochatType2 {
                sending_console_id: 0,
                payload_type: if counter == total {
                    0x04
                } else if counter == 1 {
                    0xff
                } else {
                    0x97
                },
                payload_length: data_size as u8,
                transfer_flags: if counter == total {
                    0x01
                } else {
                    0x00
                },
                write_offset: job.offset,
                payload: Some(chunk),
                ..Default::default()
            };
            assert(packet@ == transfer_piece(data@, before.counter, before.offset));
            let bytes = packet.to_bytes();
            let flags: u8 = if counter == total {
                158
            } else {
                30
            };
            upper_layer.set_next_data_frame(chat_data_frame(flags, bytes, self.seq_no));
            job.offset += data_size;
        } else {
            let bytes: Vec<u8> = vec![
                0x03,
                0x00,
                0x14,
                0x00,
                0x01,
                0x04,
                0xff,
                0xff,
                0x81,
                0x93,
                0x32,
                0x02,
                0x01,
                0x69,
                0x35,
                0x02,
                0x6f,
                0x02,
                0x33,
                0x02,
            ];
            assert(bytes@ =~= transfer_end_packet());
            upper_layer.set_next_data_frame(chat_data_frame(141, bytes, self.seq_no));
        }
        job.payload = Some(data);
        if counter == total {
            self.state = PictochatAppState::Idle;
        } else {
            job.counter += 1;
            self.state_tracker = Some(job);
        }
    }
}

/// How many pieces a payload takes, in sixteen bits.
fn chunks_of(size: usize) -> (total: u16)
    ensures
        total == total_chunks(size as nat),
{
    let chunk: usize = MESSAGE_CHUNK_SIZE as usize;
    let whole: usize = size / chunk;
    let chunks: usize = if size % chunk == 0 {
        whole
    } else {
        whole + 1
    };
    assert(chunks == (size + MESSAGE_CHUNK_SIZE - 1) / MESSAGE_CHUNK_SIZE as int);
    (chunks % 0x1_0000) as u16
}

/// Listening does not change whether the job at hand can go on, nor whether it has a frame to send.
proof fn lemma_listening_keeps_job_ready(chat: Chat, local_mac: MacAddress)
    requires
        chat.can_fill(),
    ensures
        job_ready(chat.polled(local_mac).state, chat.polled(local_mac).tracker),
        chat.has_frame() ==> forall|magic: Seq<u8>|
            (#[trigger] chat.polled(local_mac).frame(magic)) is Some,
{
    let listened = chat.counted().listened(local_mac);
    if chat.state == ChatState::Idle && listened.queue.len() > 0 {
        if chat.queue.len() > 0 {
            assert(listened.queue[0] == chat.queue[0]);
        } else {
            assert(listened.queue[0].state == ChatState::TXTransfer);
        }
    }
}

impl PictochatAppDriver {
    /// Counts a poll, looks for one event from the network and for work.
    fn begin_poll(&mut self, local_mac: MacAddress)
        requires
            old(self)@.can_fill(),
        ensures
            final(self)@ == old(self)@.polled(local_mac),
    {
        self.seq_no += 1;
        assert(self@ == old(self)@.counted());
        self.listen(local_mac);
        self.schedule();
    }

    /// Sends the frame of the current state and moves on.
    fn send_step<L: LocalWifiLayer>(&mut self, upper_layer: &mut L, magic: [u8; 4])
        requires
            job_ready(old(self)@.state, old(self)@.tracker),
        ensures
            final(self)@ == old(self)@.advanced(),
            final(upper_layer).layer() == layer_filled(
                old(upper_layer).layer(),
                old(self)@.frame(magic@),
            ),
            old(upper_layer).layer().used(final(upper_layer).layer()),
            final(upper_layer).clients() == old(upper_layer).clients(),
            final(upper_layer).rest() == old(upper_layer).rest(),
    {
        match self.state.clone() {
            PictochatAppState::Idle => {
                let packet = PictochatType5 {
                    magic,
                    member_list: self.get_member_list(upper_layer),
                    ..Default::default()
                };
                let bytes = packet.to_bytes();
                proof {
                    lemma_members_size(self.member_list@);
                }
                upper_layer.set_next_data_frame(chat_data_frame(28, bytes, self.seq_no));
            },
            PictochatAppState::NewClient => {
                let packet = PictochatType4 {
                    magic,
                    member_list: self.get_member_list(upper_layer),
                    ..Default::default()
                };
                let bytes = packet.to_bytes();
                proof {
                    lemma_members_size(self.member_list@);
                }
                upper_layer.set_next_data_frame(chat_data_frame(28, bytes, self.seq_no));
                self.state = PictochatAppState::Idle;
            },
            PictochatAppState::RequestIdent(console_id) => {
                let packet = PictochatType1 { console_id, data_size: 84, ..Default::default() };
                let bytes = packet.to_bytes();
                upper_layer.set_next_data_frame(chat_data_frame(29, bytes, self.seq_no));
                self.state = PictochatAppState::Idle;
            },
            PictochatAppState::IdentConsole((_mac, id)) => {
                self.introduce(upper_layer, id);
            },
            PictochatAppState::Echo => {
                self.echo(upper_layer);
            },
            PictochatAppState::TXTransfer => {
                self.transfer(upper_layer);
            },
        }
    }

    /// Sets the next frame to poll with, where the magic of a member list is given.
    pub fn fill_with_magic<L: LocalWifiLayer>(&mut self, upper_layer: &mut L, magic: [u8; 4])
        requires
            old(self)@.can_fill(),
        ensures
            filled(
                old(self)@,
                old(upper_layer).layer(),
                final(self)@,
                final(upper_layer).layer(),
                magic@,
            ),
            old(upper_layer).layer().used(final(upper_layer).layer()),
            final(upper_layer).clients() == old(upper_layer).clients(),
            final(upper_layer).rest() == old(upper_layer).rest(),
    {
        let local_mac = upper_layer.get_local_mac();
        self.begin_poll(local_mac);
        proof {
            lemma_listening_keeps_job_ready(old(self)@, local_mac);
        }
        self.send_step(upper_layer, magic);
    }

    /// Whether the next step of a job can be made.
    fn is_job_ready(state: &PictochatAppState, tracker: &Option<PictochatStateObject>) -> (ready:
        bool)
        ensures
            ready <==> job_ready(
                state@,
                match tracker {
                    Some(job) => Some(job@),
                    None => None,
                },
            ),
    {
        match state {
            PictochatAppState::IdentConsole(_) => match tracker {
                Some(job) => job.counter < u16::MAX,
                None => false,
            },
            PictochatAppState::Echo => match tracker {
                Some(job) => match &job.payload {
                    Some(payload) => payload.len() % 2 == 0,
                    None => false,
                },
                None => false,
            },
            PictochatAppState::TXTransfer => match tracker {
                Some(job) => match &job.payload {
                    Some(payload) => {
                        let size: u16 = (payload.len() % 0x1_0000) as u16;
                        let total: u16 = chunks_of(payload.len());
                        let piece_ready = if 0 < job.counter && job.counter <= total {
                            job.offset <= size && {
                                let left: u16 = size - job.offset;
                                left > MESSAGE_CHUNK_SIZE as u16 || left % 2 == 0
                            }
                        } else {
                            true
                        };
                        piece_ready && (job.counter == total || job.counter < u16::MAX)
                    },
                    None => false,
                },
                None => false,
            },
            _ => true,
        }
    }
}

/// The size of a member list on the air.
proof fn lemma_members_size(members: Seq<MacAddress>)
    ensures
        members_encoded(members).len() == 6 * members.len(),
    decreases members.len(),
{
    if members.len() > 0 {
        lemma_members_size(members.drop_last());
    }
}

/// How a poll changes the application and its layer, where the magic of a member list is given.
pub open spec fn filled(
    before: Chat,
    layer: LayerState,
    after: Chat,
    layer_after: LayerState,
    magic: Seq<u8>,
) -> bool {
    let polled = before.polled(layer.local_mac);
    after == polled.advanced() && layer_after == layer_filled(layer, polled.frame(magic))
}

/// Writes a piece over a buffer.
fn overwrite(buffer: &mut Vec<u8>, offset: usize, piece: &Vec<u8>)
    requires
        offset + piece@.len() <= old(buffer)@.len(),
    ensures
        final(buffer)@ == overwritten(old(buffer)@, offset as int, piece@),
{
    let size: usize = buffer.len();
    let mut i: usize = 0;
    while i < piece.len()
        invariant
            i <= piece@.len(),
            offset + piece@.len() <= old(buffer)@.len(),
            size == old(buffer)@.len(),
            buffer@ == overwritten(old(buffer)@, offset as int, piece@.take(i as int)),
        decreases piece@.len() - i,
    {
        buffer.set(offset + i, piece[i]);
        i += 1;
        assert(buffer@ =~= overwritten(old(buffer)@, offset as int, piece@.take(i as int)));
    }
    assert(piece@.take(piece@.len() as int) =~= piece@);
}

/// A whole copy of a buffer.
fn duplicate(bytes: &Vec<u8>) -> (copied: Vec<u8>)
    ensures
        copied@ == bytes@,
{
    let copied = copy_range(bytes.as_slice(), 0, bytes.len());
    assert(copied@ =~= bytes@);
    copied
}

/// Whether a whole transfer can be read as what it is.
fn is_whole_readable(whole: &Vec<u8>) -> (readable: bool)
    ensures
        readable <==> whole_readable(whole@),
{
    whole.len() >= 2 && if whole[1] == 0 || whole[1] == 1 {
        ConsoleIdPayload::is_readable(whole.as_slice())
    } else {
        whole.len() >= MESSAGE_HEADER
    }
}

/// Whether a piece of a transfer can be taken into a buffer.
fn does_piece_fit(buffer: &Vec<u8>, packet: &Vec<u8>) -> (fits: bool)
    ensures
        fits <==> piece_fits(buffer@, packet@),
{
    if packet.len() < TYPE_2_HEADER {
        return false;
    }
    let piece = PictochatType2::from_bytes(packet);
    let offset: usize = piece.write_offset as usize;
    match &piece.payload {
        None => false,
        Some(data) => if offset + data.len() > buffer.len() {
            false
        } else {
            let mut written = duplicate(buffer);
            overwrite(&mut written, offset, data);
            piece.transfer_flags != 1 || is_whole_readable(&written)
        },
    }
}

impl PictochatAppDriver {
    /// Hands an event to the network, where there is one.
    fn tell(&mut self, event: PictochatEvent)
        ensures
            final(self)@ == old(self)@.telling(event@),
    {
        match &mut self.outgoing_events {
            Some(events) => {
                events.push(event);
            },
            None => {},
        }
        assert(self@.outgoing == old(self)@.telling(event@).outgoing) by {
            if old(self)@.outgoing is Some {
                assert(self@.outgoing->0 =~= (old(self)@.outgoing->0).push(event@));
            }
        }
    }

    /// Notes a console that was not seen before, introduces the host and asks every console for its
    /// identity.
    fn welcome(&mut self, local_mac: MacAddress, mac: &MacAddress, id: ConsoleIdPayload)
        ensures
            final(self)@ == old(self)@.welcoming(local_mac, *mac, id@),
    {
        self.console_state_map.insert(mac.to_number(), id);
        let count: usize = self.console_state_map.len();
        let ghost consoles = old(self)@.consoles.insert(mac.number(), id@);
        proof {
            assert(self@.consoles =~= consoles);
            assert(self@.consoles.dom() =~= self.console_state_map@.dom());
        }
        self.push_job(PictochatAppState::Idle, None);
        let identity = self.identity.clone();
        self.push_job(PictochatAppState::IdentConsole((local_mac, identity)), None);
        self.push_job(PictochatAppState::Idle, None);
        let ghost base = self@;
        assert(self@.queue =~= base.queue + ident_requests(0));
        let mut i: usize = 0;
        while i < count
            invariant
                i <= count,
                self@ == (Chat { queue: base.queue + ident_requests(i as nat), ..base }),
            decreases count - i,
        {
            let console_id: u16 = ((i + 1) % 0x1_0000) as u16;
            self.push_job(PictochatAppState::RequestIdent(console_id), None);
            i += 1;
            assert(self@.queue =~= base.queue + ident_requests(i as nat));
        }
        assert(self@.queue =~= old(self)@.welcoming(local_mac, *mac, id@).queue);
    }

    /// Reads a whole transfer of a console.
    fn receive(&mut self, local_mac: MacAddress, device: &LocalWifiClientDevice, whole: Vec<u8>)
        requires
            whole_readable(whole@),
        ensures
            final(self)@ == old(self)@.received(local_mac, *device, whole@),
    {
        if whole[1] == 1 || whole[1] == 0 {
            let id = ConsoleIdPayload::from_bytes(whole.as_slice());
            if self.outgoing_events.is_some() {
                let event = PictochatUserStateEvent {
                    mac_address: device.addr,
                    is_leaving: false,
                    birthday: id.birth_day,
                    birthmonth: id.birth_month,
                    name: id.name.clone(),
                    bio: id.bio.clone(),
                };
                self.tell(PictochatEvent::STATE(event));
                if !self.console_state_map.contains_key(&device.addr.to_number()) {
                    self.welcome(local_mac, &device.addr, id);
                }
            }
        } else {
            let payload = MessagePayload::from_bytes(&whole);
            if self.outgoing_events.is_some() {
                let event = PictochatUserMessageEvent {
                    mac_address: Some(device.addr),
                    message_content: payload.message,
                };
                self.tell(PictochatEvent::MESSAGE(event));
            }
        }
    }

    /// Takes a piece of a transfer.
    fn take_piece(
        &mut self,
        local_mac: MacAddress,
        device: &LocalWifiClientDevice,
        packet: &Vec<u8>,
    )
        requires
            old(self)@.buffer matches Some(buffer) ==> piece_fits(buffer, packet@),
        ensures
            final(self)@ == old(self)@.with_piece(local_mac, *device, packet@),
    {
        match self.temp_buffer.take() {
            None => {},
            Some(mut buffer) => {
                let piece = PictochatType2::from_bytes(packet);
                let data = piece.payload.unwrap();
                overwrite(&mut buffer, piece.write_offset as usize, &data);
                if piece.transfer_flags == 0x01 {
                    self.receive(local_mac, device, buffer);
                } else {
                    self.temp_buffer = Some(buffer);
                }
            },
        }
    }

    /// Takes a packet of a console.
    fn take_packet(
        &mut self,
        local_mac: MacAddress,
        device: &LocalWifiClientDevice,
        packet: &Vec<u8>,
    )
        requires
            old(self)@.can_take(Some(packet@), *device),
        ensures
            final(self)@ == old(self)@.with_packet(local_mac, *device, packet@),
    {
        let place: usize = device.assoc_id_num as usize;
        if self.member_list[place] != device.addr {
            self.member_list[place] = device.addr;
        }
        assert(self@.members =~= old(self)@.members.update(place as int, device.addr));
        let mut frame = duplicate(packet);
        if frame[0] == 6 {
            self.push_job(PictochatAppState::NewClient, None);
        } else if frame[0] == 0 {
            let announced = PictochatType1::from_bytes(&frame);
            if announced.data_size <= MAX_PACKET_ALLOC_SIZE {
                let buffer: Vec<u8> = vec![0; announced.data_size as usize];
                assert(buffer@ =~= zeros(announced.data_size as nat));
                self.temp_buffer = Some(buffer);
            }
            frame.set(0, 1);
            self.push_job(PictochatAppState::Echo, Some(frame));
        } else if frame[0] == 2 {
            self.take_piece(local_mac, device, &frame);
            self.push_job(PictochatAppState::Echo, Some(frame));
        }
    }
}

impl LocalWifiApplicationLayer for PictochatAppDriver {
    open spec fn setup_effect(
        before: Self,
        layer: LayerState,
        after: Self,
        layer_after: LayerState,
    ) -> bool {
        after@ == before@.set_up(layer.local_mac) && layer_after == layer_set_up(layer)
    }

    open spec fn can_fill(&self) -> bool {
        self@.can_fill()
    }

    open spec fn delivers(&self, client_mask: u16) -> bool {
        self@.has_frame() && client_mask != 0
    }

    open spec fn fill_effect(
        before: Self,
        layer: LayerState,
        after: Self,
        layer_after: LayerState,
    ) -> bool {
        exists|magic: Seq<u8>| magic.len() == 4 && #[trigger] filled(
            before@,
            layer,
            after@,
            layer_after,
            magic,
        )
    }

    open spec fn can_take(&self, data_frame: ClientFrame, device: LocalWifiClientDevice) -> bool {
        self@.can_take(data_frame.payload, device)
    }

    open spec fn packet_effect(
        before: Self,
        layer: LayerState,
        data_frame: ClientFrame,
        device: LocalWifiClientDevice,
        after: Self,
        layer_after: LayerState,
    ) -> bool {
        after@ == before@.with_packet(layer.local_mac, device, data_frame.payload->0) && layer_after
            == layer
    }

    open spec fn event_effect(before: Self, client_event: ClientEvents, after: Self) -> bool {
        after@ == before@.with_event(client_event)
    }

    fn setup<L: LocalWifiLayer>(&mut self, upper_layer: &mut L) {
        let packet: Vec<u8> = vec![0x48, 0x23, 0x11, 0x0a, 0x01, 0x01, 0x04, 0x00];
        assert(packet@ =~= seq![
            0x48u8,
            0x23u8,
            0x11u8,
            0x0au8,
            0x01u8,
            0x01u8,
            0x04u8,
            0x00u8,
        ]);
        upper_layer.set_broadcast_packet(
            100_000,
            packet,
            [0x00, 0x00, 0x00, 0x00],
            BeaconType::MULTICART,
            0x00c0,
            0x00c0,
        );
        upper_layer.set_broadcast_enabled(true);
        let local_mac = upper_layer.get_local_mac();
        self.member_list[0] = local_mac;
        self.identity.to = local_mac;
        self.identity.colour = 0;
        self.identity.bio = WStringWrapper::from_text("Hello World!");
        self.identity.name = WStringWrapper::from_text("");
        assert(self@.members =~= old(self)@.members.update(0, local_mac));
    }

    fn ready_to_fill(&self, client_mask: u16) -> (ready: bool) {
        if self.seq_no == u16::MAX || client_mask == 0 {
            return false;
        }
        let only_messages = match &self.incoming_events {
            Some(events) => if events.len() > 0 {
                matches!(events[0], PictochatEvent::MESSAGE(_))
            } else {
                true
            },
            None => true,
        };
        let idle = matches!(self.state, PictochatAppState::Idle);
        if idle && self.desired_state_queue.len() > 0 {
            let job = self.desired_state_queue[0].clone();
            let state = job.desired_state.clone();
            let sends = match &state {
                PictochatAppState::IdentConsole(_) => job.counter <= 3,
                _ => true,
            };
            only_messages && sends && Self::is_job_ready(&state, &Some(job))
        } else {
            let sends = match &self.state {
                PictochatAppState::IdentConsole(_) => match &self.state_tracker {
                    Some(job) => job.counter <= 3,
                    None => false,
                },
                _ => true,
            };
            only_messages && sends && Self::is_job_ready(&self.state, &self.state_tracker)
        }
    }

    fn fill_next_packet<L: LocalWifiLayer>(&mut self, upper_layer: &mut L) {
        let local_mac = upper_layer.get_local_mac();
        self.begin_poll(local_mac);
        proof {
            lemma_listening_keeps_job_ready(old(self)@, local_mac);
        }
        let magic: [u8; 4] = match self.state {
            PictochatAppState::Idle | PictochatAppState::NewClient => random_magic(),
            _ => [0, 0, 0, 0],
        };
        self.send_step(upper_layer, magic);
        assert(filled(
            old(self)@,
            old(upper_layer).layer(),
            self@,
            upper_layer.layer(),
            magic@,
        ));
    }

    fn ready_for_packet(
        &self,
        data_frame: &ClientToHostDataFrame,
        device: &LocalWifiClientDevice,
    ) -> (ready: bool) {
        if device.assoc_id_num >= 16 {
            return false;
        }
        match &data_frame.payload {
            None => false,
            Some(packet) => if packet.len() < 1 {
                false
            } else if packet[0] == 0 {
                packet.len() >= TYPE_1_SIZE
            } else if packet[0] == 2 {
                match &self.temp_buffer {
                    None => true,
                    Some(buffer) => does_piece_fit(buffer, packet),
                }
            } else {
                true
            },
        }
    }

    fn on_packet<L: LocalWifiLayer>(
        &mut self,
        upper_layer: &mut L,
        data_frame: &mut ClientToHostDataFrame,
        device: &LocalWifiClientDevice,
    )
        ensures
            *final(data_frame) == *old(data_frame),
    {
        let local_mac = upper_layer.get_local_mac();
        match &data_frame.payload {
            Some(packet) => {
                self.take_packet(local_mac, device, packet);
            },
            None => {},
        }
    }

    fn on_client_event(&mut self, client_event: ClientEvents) {
        match client_event {
            ClientEvents::NewClient(_) => {},
            ClientEvents::LostClient((mac, _aid)) => {
                let nobody = MacAddress::zero();
                assert(nobody.octets =~= [0u8, 0u8, 0u8, 0u8, 0u8, 0u8]);
                let ghost members = self@.members;
                let mut i: usize = 0;
                while i < 16
                    invariant
                        i <= 16,
                        members == old(self)@.members,
                        members.len() == 16,
                        nobody == (MacAddress { octets: [0, 0, 0, 0, 0, 0] }),
                        self@ == (Chat { members: self@.members, ..old(self)@ }),
                        self@.members == without_member(members.take(i as int), mac) + members.skip(
                            i as int,
                        ),
                    decreases 16 - i,
                {
                    if self.member_list[i] == mac {
                        self.member_list[i] = nobody;
                    }
                    i += 1;
                    assert(self@.members =~= without_member(members.take(i as int), mac)
                        + members.skip(i as int));
                }
                assert(self@.members =~= without_member(members, mac));
            },
        }
    }
}

/// Whether a buffer holds nothing but zeros.
pub fn is_zero(buf: &[u8]) -> (zero: bool)
    ensures
        zero <==> buf@ == zeros(buf@.len()),
{
    let mut i: usize = 0;
    while i < buf.len()
        invariant
            i <= buf@.len(),
            forall|k: int| 0 <= k < i ==> buf@[k] == 0,
        decreases buf@.len() - i,
    {
        if buf[i] != 0 {
            assert(zeros(buf@.len())[i as int] == 0);
            return false;
        }
        i += 1;
    }
    assert(buf@ =~= zeros(buf@.len()));
    true
}

} // verus!
