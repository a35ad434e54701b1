//! How the chat application works through its jobs, poll by poll, and what each poll carries, byte
//! by byte.

use crate::ds_local_wifi_driver::frames::{ClientFrame, HostFrame, HostToClientDataFrameFooter};
use crate::ds_local_wifi_driver::layer::{
    LayerState, LocalWifiApplicationLayer, LocalWifiClientDevice,
};
use crate::mac_address::MacAddress;
use crate::pictochat_app_driver::chat::{
    chunk_at, host_piece, introduced, is_console_id, message_announcement_magic, short_size,
    total_chunks, transfer_piece, Chat, MAX_PACKET_ALLOC_SIZE,
};
use crate::pictochat_app_driver::effects::{
    byte_after, law_new_console_is_welcomed, law_packet_leaves_the_rest_alone,
};
use crate::pictochat_app_driver::events::{ChatState, Event, Job};
use crate::pictochat_app_driver::pictochat_app_driver::{filled, PictochatAppDriver};
use crate::pictochat_app_driver::pictochat_packets::{
    ident_magic, members_encoded, message_payload, type1_packet, ConsoleId,
    PictochatHeader,
};
use crate::pictochat_app_driver::properties::{
    announces, event_sound, fed, job_sound, law_message_arrives,
    law_packet_keeps_application_steady, law_transfer_progresses, spell, transfer_job,
};
use crate::wire::{pairs_swapped, resized};
use vstd::prelude::*;

verus! {

/// The octet of a member's address in a member list on the air, where neighbouring octets are
/// exchanged.
pub open spec fn listed(packet: Seq<u8>, place: int, octet: int) -> u8 {
    packet[8 + 6 * place + if octet % 2 == 0 {
        octet + 1
    } else {
        octet - 1
    }]
}

/// Whether a packet of a type is a member list: 104 bytes, with all sixteen places.
pub open spec fn lists_members(packet: Seq<u8>, pkt_type: u8, members: Seq<MacAddress>) -> bool {
    &&& packet.len() == 104
    &&& packet.take(4) == seq![pkt_type, 0u8, 104u8, 0u8]
    &&& forall|place: int, octet: int|
        0 <= place < 16 && 0 <= octet < 6 ==> #[trigger] listed(packet, place, octet)
            == members[place].octets@[octet]
}

/// Whether a packet announces so many bytes of a console, and ends in this mark.
pub open spec fn is_announcement(packet: Seq<u8>, console: int, size: int, mark: Seq<u8>) -> bool {
    &&& packet.len() == 20
    &&& packet.take(4) == seq![1u8, 0u8, 20u8, 0u8]
    &&& packet[4] + 256 * packet[5] == console
    &&& packet[6] == 0xff
    &&& packet[7] == 0xff
    &&& packet[8] + 256 * packet[9] == size
    &&& packet.skip(10) == mark
}

/// Whether a packet is a piece of a transfer of the host, with this body for this offset.
pub open spec fn is_piece(
    packet: Seq<u8>,
    kind: u8,
    last: bool,
    offset: int,
    body: Seq<u8>,
) -> bool {
    &&& packet.len() == 12 + body.len()
    &&& packet.take(6) == seq![2u8, 0u8, 96u8, 0u8, 0u8, kind]
    &&& packet[6] == body.len()
    &&& packet[7] == if last {
        1u8
    } else {
        0u8
    }
    &&& packet[8] + 256 * packet[9] == offset
    &&& packet[10] == 0
    &&& packet[11] == 0
    &&& packet.skip(12) == body
}

/// Whether bytes present somebody: the address with neighbouring octets exchanged, name and
/// biography in fields of 20 and 52 bytes that zeros fill up, the colour and the birthday.
pub open spec fn presents(body: Seq<u8>, mark: u8, id: ConsoleId) -> bool {
    &&& body.len() == 84
    &&& body[0] == 3
    &&& body[1] == mark
    &&& body.subrange(2, 8) == seq![id.to[1], id.to[0], id.to[3], id.to[2], id.to[5], id.to[4]]
    &&& forall|i: int|
        0 <= i < 20 ==> #[trigger] body.subrange(8, 28)[i] == if i < id.name.len() {
            id.name[i]
        } else {
            0u8
        }
    &&& forall|i: int|
        0 <= i < 52 ==> #[trigger] body.subrange(28, 80)[i] == if i < id.bio.len() {
            id.bio[i]
        } else {
            0u8
        }
    &&& body[80] + 256 * body[81] == id.colour
    &&& body[82] == id.birth_day
    &&& body[83] == id.birth_month
}

/// How many pieces of 180 bytes a payload takes.
pub open spec fn pieces_of(size: nat) -> int {
    (size as int + 179) / 180
}

/// How many polls a job takes.
pub open spec fn polls_for(job: Job) -> int {
    match job.state {
        ChatState::IdentConsole { .. } => 4,
        ChatState::TXTransfer => 1 + pieces_of((job.payload->0).len()),
        _ => 1,
    }
}

/// Whether a frame is the one that a job has the application send at one of its steps.
///
/// A member list goes out for an idle job, one of another type for a console that joins. A request
/// announces 84 bytes of the console that is asked. An introduction is announced, sent, announced
/// and sent again. What is repeated is repeated as it is. A payload is announced, and then goes out
/// in pieces of 180 bytes, of which the last is marked and may be shorter.
pub open spec fn carries(frame: HostFrame, job: Job, step: int, members: Seq<MacAddress>) -> bool {
    &&& frame.us_per_client_reply == 998
    &&& frame.broadcast_cycles_remaining == 0
    &&& frame.payload matches Some(packet)
    &&& match job.state {
        ChatState::Idle => frame.flags == 28 && lists_members(packet, 5, members),
        ChatState::NewClient => frame.flags == 28 && lists_members(packet, 4, members),
        ChatState::RequestIdent { console_id } => frame.flags == 29 && is_announcement(
            packet,
            console_id as int,
            84,
            seq![0u8, 0, 0, 0, 0, 0, 0xb7, 0x78, 0xd5, 0x29],
        ),
        ChatState::IdentConsole { mac, id } => if step % 2 == 0 {
            frame.flags == 29 && is_announcement(
                packet,
                0,
                84,
                seq![0u8, 0, 0, 0, 0, 0, 0xb7, 0x78, 0xd5, 0x29],
            )
        } else {
            &&& frame.flags == 30
            &&& is_piece(packet, 5, true, 0, packet.skip(12))
            &&& presents(
                packet.skip(12),
                if step == 1 {
                    0
                } else {
                    1
                },
                id,
            )
        },
        ChatState::Echo => {
            &&& job.payload == Some(packet)
            &&& frame.flags == if packet.len() > 25 {
                158u8
            } else {
                29u8
            }
        },
        ChatState::TXTransfer => {
            let payload = job.payload->0;
            let total = pieces_of(payload.len());
            let start = 180 * (step - 1);
            if step == 0 {
                frame.flags == 29 && is_announcement(
                    packet,
                    0,
                    payload.len() as int,
                    seq![0u8, 0, 0x58, 0x2b, 0, 3, 0xdb, 0xa2, 0xfa, 0xea],
                )
            } else {
                &&& frame.flags == if step == total {
                    158u8
                } else {
                    30u8
                }
                &&& is_piece(
                    packet,
                    if step == total {
                        4
                    } else if step == 1 {
                        0xff
                    } else {
                        0x97
                    },
                    step == total,
                    start,
                    payload.subrange(
                        start,
                        if step == total {
                            payload.len() as int
                        } else {
                            start + 180
                        },
                    ),
                )
            }
        },
    }
}

/// Where a member's octets stand in an encoded member list.
proof fn lemma_members_encoded(members: Seq<MacAddress>, place: int, k: int)
    requires
        0 <= place < members.len(),
        0 <= k < 6,
    ensures
        members_encoded(members).len() == 6 * members.len(),
        members_encoded(members)[6 * place + k] == pairs_swapped(members[place]@)[k],
    decreases members.len(),
{
    let earlier = members.drop_last();
    if earlier.len() > 0 {
        let other = if place < earlier.len() {
            place
        } else {
            0
        };
        lemma_members_encoded(earlier, other, k);
    } else {
        assert(members_encoded(earlier).len() == 0);
    }
    if place < earlier.len() {
        assert(earlier[place] == members[place]);
    }
}

/// A member list on the air lists the members.
proof fn lemma_lists_members(
    packet: Seq<u8>,
    pkt_type: u8,
    magic: Seq<u8>,
    members: Seq<MacAddress>,
)
    requires
        members.len() == 16,
        magic.len() == 4,
        packet == (PictochatHeader {
            pkt_type: pkt_type as u16,
            pkt_size_with_header: 104,
        }).encoded() + magic + members_encoded(members),
    ensures
        lists_members(packet, pkt_type, members),
{
    lemma_members_encoded(members, 0, 0);
    assert(packet.take(4) =~= seq![pkt_type, 0u8, 104u8, 0u8]);
    assert forall|place: int, octet: int|
        0 <= place < 16 && 0 <= octet < 6 implies #[trigger] listed(packet, place, octet)
        == members[place].octets@[octet] by {
        let k = if octet % 2 == 0 {
            octet + 1
        } else {
            octet - 1
        };
        lemma_members_encoded(members, place, k);
        assert(packet[8 + 6 * place + k] == members_encoded(members)[6 * place + k]);
    }
}

/// An announcement on the air.
proof fn lemma_announcement(console: u16, size: u16, mark: Seq<u8>)
    requires
        mark.len() == 10,
    ensures
        is_announcement(type1_packet(console, size, mark), console as int, size as int, mark),
{
    let packet = type1_packet(console, size, mark);
    assert(packet.take(4) =~= seq![1u8, 0u8, 20u8, 0u8]);
    assert(packet.skip(10) =~= mark);
}

/// A piece on the air.
proof fn lemma_piece(kind: u8, last: bool, offset: u16, body: Seq<u8>)
    requires
        body.len() < 256,
    ensures
        is_piece(host_piece(kind, last, offset, body).encoded(), kind, last, offset as int, body),
{
    let packet = host_piece(kind, last, offset, body).encoded();
    assert(packet.take(6) =~= seq![2u8, 0u8, 96u8, 0u8, 0u8, kind]);
    assert(packet.skip(12) =~= body);
}

/// An identity on the air.
proof fn lemma_presents(id: ConsoleId, counter: u16)
    requires
        id.to.len() == 6,
    ensures
        presents(
            introduced(id, counter).encoded(),
            if counter == 1 {
                0
            } else {
                1
            },
            id,
        ),
{
    let body = introduced(id, counter).encoded();
    assert(body.subrange(2, 8) =~= pairs_swapped(id.to));
    assert(body.subrange(8, 28) =~= resized(id.name, 20));
    assert(body.subrange(28, 80) =~= resized(id.bio, 52));
}

/// A job before one of its steps.
pub open spec fn at_step(job: Job, step: int) -> Job {
    Job {
        counter: step as u16,
        offset: if job.state == ChatState::TXTransfer {
            (if step > 0 {
                180 * (step - 1)
            } else {
                0
            }) as u16
        } else {
            job.offset
        },
        ..job
    }
}

/// Whether a job can be worked on: what it repeats or sends is there, and whoever it introduces has
/// an address.
pub open spec fn workable(job: Job) -> bool {
    match job.state {
        ChatState::Echo => job.payload is Some,
        ChatState::TXTransfer => job.payload matches Some(payload) && payload.len() < 0x1_0000,
        ChatState::IdentConsole { mac, id } => id.to.len() == 6,
        _ => true,
    }
}

/// Whether an application has what a job needs at one of its steps.
pub open spec fn holds(chat: Chat, job: Job, step: int) -> bool {
    &&& chat.state == job.state
    &&& match job.state {
        ChatState::IdentConsole { .. } => chat.tracker matches Some(held) && held.counter == step,
        ChatState::TXTransfer => chat.tracker == Some(at_step(job, step)),
        ChatState::Echo => chat.tracker matches Some(held) && held.payload == job.payload,
        _ => true,
    }
}

/// What the frame of a state says, byte by byte.
proof fn lemma_frame_carries(chat: Chat, job: Job, step: int, magic: Seq<u8>)
    requires
        workable(job),
        0 <= step < polls_for(job),
        holds(chat, job, step),
        chat.members.len() == 16,
        magic.len() == 4,
    ensures
        chat.frame(magic) matches Some(frame) && {
            &&& carries(frame, job, step, chat.members)
            &&& frame.footer == Some(HostToClientDataFrameFooter { seq_no: chat.seq_no, idk: 0 })
        },
{
    let frame = chat.frame(magic)->0;
    let packet = frame.payload->0;
    assert(ident_magic() =~= seq![0u8, 0, 0, 0, 0, 0, 0xb7, 0x78, 0xd5, 0x29]);
    match job.state {
        ChatState::Idle => {
            lemma_lists_members(packet, 5, magic, chat.members);
        },
        ChatState::NewClient => {
            lemma_lists_members(packet, 4, magic, chat.members);
        },
        ChatState::RequestIdent { console_id } => {
            lemma_announcement(console_id, 84, ident_magic());
        },
        ChatState::IdentConsole { mac, id } => {
            lemma_announcement(0, 84, ident_magic());
            let body = introduced(id, step as u16).encoded();
            lemma_presents(id, step as u16);
            lemma_piece(5, true, 0, body);
        },
        ChatState::Echo => {},
        ChatState::TXTransfer => {
            let payload = job.payload->0;
            assert(message_announcement_magic() =~= seq![
                0u8,
                0,
                0x58,
                0x2b,
                0,
                3,
                0xdb,
                0xa2,
                0xfa,
                0xea,
            ]);
            lemma_announcement(0, short_size(payload.len()), message_announcement_magic());
            if step > 0 {
                let offset = at_step(job, step).offset;
                let body = chunk_at(payload, offset);
                let piece = transfer_piece(payload, step as u16, offset);
                let last = step == total_chunks(payload.len());
                lemma_piece(piece.payload_type, last, offset, body);
            }
        },
    }
}

/// What becomes of a job at hand when its frame is out: the next step, or nothing.
proof fn lemma_job_goes_on(chat: Chat, job: Job, step: int)
    requires
        job.state is TXTransfer ==> workable(job),
        0 <= step < polls_for(job),
        holds(chat, job, step),
    ensures
        step + 1 < polls_for(job) ==> {
            &&& chat.advanced() == (Chat { tracker: chat.advanced().tracker, ..chat })
            &&& holds(chat.advanced(), job, step + 1)
            &&& chat.tracker == Some(at_step(job, step)) ==> chat.advanced().tracker == Some(
                at_step(job, step + 1),
            )
        },
        step + 1 == polls_for(job) ==> chat.advanced() == (Chat {
            state: ChatState::Idle,
            tracker: chat.advanced().tracker,
            ..chat
        }),
{
    if job.state == ChatState::TXTransfer {
        let payload = job.payload->0;
        assert(at_step(job, step) == transfer_job(payload, step));
        law_transfer_progresses(chat, payload, step);
        if step < total_chunks(payload.len()) {
            assert(at_step(job, step + 1) == transfer_job(payload, step + 1));
        }
    }
}

/// Whether the next poll works on a job, at one of its steps: the job is at hand, or the
/// application is idle and that job is the first that waits.
pub open spec fn works_on(chat: Chat, job: Job, step: int) -> bool {
    if chat.state == ChatState::Idle {
        step == 0 && chat.queue.len() > 0 && chat.queue[0] == at_step(job, 0)
    } else {
        chat.state == job.state && chat.tracker == Some(at_step(job, step))
    }
}

/// A poll carries what its job asks for, to every connected console, and the job goes on to its
/// next step. After its last step the application is idle.
pub proof fn law_poll_carries_its_job(
    before: PictochatAppDriver,
    layer: LayerState,
    after: PictochatAppDriver,
    layer_after: LayerState,
    job: Job,
    step: int,
)
    requires
        PictochatAppDriver::fill_effect(before, layer, after, layer_after),
        works_on(before@, job, step),
        workable(job),
        0 <= step < polls_for(job),
    ensures
        layer_after.frame matches Some(frame) && {
            &&& carries(frame, job, step, before@.members)
            &&& frame.rx_console_mask == layer.client_mask
            &&& frame.footer == Some(HostToClientDataFrameFooter { seq_no: after@.seq_no, idk: 0 })
        },
        step + 1 < polls_for(job) ==> after@.state == job.state && after@.tracker == Some(
            at_step(job, step + 1),
        ),
        step + 1 == polls_for(job) ==> after@.state == ChatState::Idle,
{
    let magic = choose|magic: Seq<u8>| magic.len() == 4 && #[trigger] filled(
        before@,
        layer,
        after@,
        layer_after,
        magic,
    );
    assert(filled(before@, layer, after@, layer_after, magic));
    let polled = before@.polled(layer.local_mac);
    let listened = before@.counted().listened(layer.local_mac);
    if before@.state == ChatState::Idle {
        assert(listened.queue[0] == before@.queue[0]);
    }
    lemma_frame_carries(polled, job, step, magic);
    lemma_job_goes_on(polled, job, step);
}

/// What is repeated is repeated as it is: a poll that repeats a packet carries exactly the bytes of
/// that packet, all of them, and then that job is done.
pub proof fn law_echo_is_the_packet(
    before: PictochatAppDriver,
    layer: LayerState,
    after: PictochatAppDriver,
    layer_after: LayerState,
    packet: Seq<u8>,
)
    requires
        PictochatAppDriver::fill_effect(before, layer, after, layer_after),
        works_on(
            before@,
            Job { state: ChatState::Echo, payload: Some(packet), counter: 0, offset: 0 },
            0,
        ),
    ensures
        layer_after.frame matches Some(frame) && frame.payload == Some(packet),
        after@.state == ChatState::Idle,
{
    let job = Job { state: ChatState::Echo, payload: Some(packet), counter: 0, offset: 0 };
    law_poll_carries_its_job(before, layer, after, layer_after, job, 0);
}

/// A request for an identity names the console that is asked, and asks for 84 bytes.
pub proof fn law_request_names_its_console(
    before: PictochatAppDriver,
    layer: LayerState,
    after: PictochatAppDriver,
    layer_after: LayerState,
    console_id: u16,
)
    requires
        PictochatAppDriver::fill_effect(before, layer, after, layer_after),
        works_on(
            before@,
            Job {
                state: ChatState::RequestIdent { console_id },
                payload: None,
                counter: 0,
                offset: 0,
            },
            0,
        ),
    ensures
        layer_after.frame matches Some(frame) && {
            &&& frame.payload matches Some(packet)
            &&& packet.len() == 20
            &&& packet[0] == 1
            &&& packet[4] + 256 * packet[5] == console_id
            &&& packet[8] + 256 * packet[9] == 84
        },
        after@.state == ChatState::Idle,
{
    let job = Job {
        state: ChatState::RequestIdent { console_id },
        payload: None,
        counter: 0,
        offset: 0,
    };
    law_poll_carries_its_job(before, layer, after, layer_after, job, 0);
    let packet = (layer_after.frame->0).payload->0;
    assert(packet[0] == packet.take(4)[0]);
}

/// While there is nothing to do, a poll carries the member list, and there is still nothing to do.
pub proof fn law_members_go_out_meanwhile(
    before: PictochatAppDriver,
    layer: LayerState,
    after: PictochatAppDriver,
    layer_after: LayerState,
)
    requires
        PictochatAppDriver::fill_effect(before, layer, after, layer_after),
        before@.state == ChatState::Idle,
        before@.queue.len() == 0,
        before@.incoming matches Some(events) ==> events.len() == 0,
    ensures
        layer_after.frame matches Some(frame) && {
            &&& frame.payload matches Some(packet)
            &&& frame.flags == 28
            &&& lists_members(packet, 5, before@.members)
            &&& frame.rx_console_mask == layer.client_mask
        },
        after@.state == ChatState::Idle,
        after@.queue.len() == 0,
{
    let magic = choose|magic: Seq<u8>| magic.len() == 4 && #[trigger] filled(
        before@,
        layer,
        after@,
        layer_after,
        magic,
    );
    assert(filled(before@, layer, after@, layer_after, magic));
    let idle = Job { state: ChatState::Idle, payload: None, counter: 0, offset: 0 };
    lemma_frame_carries(before@.polled(layer.local_mac), idle, 0, magic);
}

/// A poll: the application and its layer before and after.
pub struct Poll<T> {
    pub before: T,
    pub layer: LayerState,
    pub after: T,
    pub layer_after: LayerState,
}

/// Whether an application has, at its next poll, the work and the events from the network that the
/// last poll left it.
pub open spec fn goes_on(left: Chat, next: Chat) -> bool {
    &&& next.state == left.state
    &&& next.tracker == left.tracker
    &&& next.queue == left.queue
    &&& next.incoming == left.incoming
}

/// Whether these are polls of a host, one after the other, with nothing new to do in between.
pub open spec fn in_a_row<T: LocalWifiApplicationLayer + View<V = Chat>>(
    polls: Seq<Poll<T>>,
    local_mac: MacAddress,
) -> bool {
    &&& forall|i: int|
        0 <= i < polls.len() ==> (#[trigger] polls[i]).layer.local_mac == local_mac
            && T::fill_effect(
            polls[i].before,
            polls[i].layer,
            polls[i].after,
            polls[i].layer_after,
        )
    &&& forall|i: int, j: int|
        0 <= i && j == i + 1 && j < polls.len() ==> goes_on(
            (#[trigger] polls[i]).after@,
            (#[trigger] polls[j]).before@,
        )
}

/// The events from the network that wait.
pub open spec fn news(chat: Chat) -> Seq<Event> {
    match chat.incoming {
        Some(events) => events,
        None => Seq::empty(),
    }
}

/// The job that sends a message of the network into the room.
pub open spec fn sending(local_mac: MacAddress, event: Event) -> Job {
    Job {
        state: ChatState::TXTransfer,
        payload: Some(message_payload(local_mac.octets@, event->content)),
        counter: 0,
        offset: 0,
    }
}

/// All that is to be done after the job at hand: the jobs that wait, and after them the messages
/// that wait, each in its order.
pub open spec fn agenda(chat: Chat, local_mac: MacAddress) -> Seq<Job> {
    chat.queue + news(chat).map_values(|event: Event| sending(local_mac, event))
}

/// How many polls the job at hand still takes.
pub open spec fn polls_left(chat: Chat) -> int {
    match chat.state {
        ChatState::Idle => 0,
        ChatState::IdentConsole { .. } => 4 - (chat.tracker->0).counter,
        ChatState::TXTransfer => 1 + pieces_of(((chat.tracker->0).payload->0).len()) - (
        chat.tracker->0).counter,
        _ => 1,
    }
}

/// How many polls jobs take, one after the other.
pub open spec fn polls_for_all(jobs: Seq<Job>) -> int
    decreases jobs.len(),
{
    if jobs.len() == 0 {
        0
    } else {
        polls_for_all(jobs.drop_last()) + polls_for(jobs.last())
    }
}

/// The poll at which a job of the agenda has its turn.
pub open spec fn turn_of(chat: Chat, local_mac: MacAddress, k: int) -> int {
    polls_left(chat) + polls_for_all(agenda(chat, local_mac).take(k))
}

/// Whether an application is one that began with this agenda, so many polls ago, and has taken so
/// many jobs of it: the others wait in their order, and the messages not yet taken still wait.
spec fn keeps(chat: Chat, start: Chat, local_mac: MacAddress, polls: int, taken: int) -> bool {
    let count = news(start).len() as int;
    let seen = if polls < count {
        polls
    } else {
        count
    };
    &&& chat.queue == agenda(start, local_mac).subrange(taken, start.queue.len() + seen)
    &&& chat.incoming is Some <==> start.incoming is Some
    &&& news(chat) == news(start).skip(seen)
}

/// Whether all messages that wait are messages, and can be sent.
proof fn lemma_news_is_sound(chat: Chat, i: int)
    requires
        chat.steady(),
        0 <= i < news(chat).len(),
    ensures
        event_sound(news(chat)[i]),
{
}

/// Looking for one event takes the next message onto the agenda, or finds none.
proof fn lemma_listening(chat: Chat, start: Chat, local_mac: MacAddress, polls: int, taken: int)
    requires
        start.steady(),
        keeps(chat, start, local_mac, polls, taken),
        0 <= polls,
        0 <= taken <= start.queue.len() + (if polls < news(start).len() {
            polls
        } else {
            news(start).len() as int
        }),
    ensures
        keeps(chat.counted().listened(local_mac), start, local_mac, polls + 1, taken),
        chat.counted().listened(local_mac).state == chat.state,
        chat.counted().listened(local_mac).tracker == chat.tracker,
        chat.counted().listened(local_mac).members == chat.members,
{
    let listened = chat.counted().listened(local_mac);
    let jobs = agenda(start, local_mac);
    let count = news(start).len() as int;
    if polls < count {
        let event = news(start)[polls];
        lemma_news_is_sound(start, polls);
        assert(news(chat)[0] == event);
        assert(jobs[start.queue.len() + polls] == sending(local_mac, event));
        assert(listened.queue =~= jobs.subrange(taken, start.queue.len() + polls + 1));
        assert(news(listened) =~= news(start).skip(polls + 1));
    } else {
        assert(news(chat).len() == 0);
    }
}

/// The poll after one finds what that one left.
proof fn lemma_next_poll(
    polls: Seq<Poll<PictochatAppDriver>>,
    local_mac: MacAddress,
    p: int,
)
    requires
        in_a_row(polls, local_mac),
        0 <= p,
        p + 1 < polls.len(),
    ensures
        goes_on(polls[p].before@.polled(local_mac).advanced(), polls[p + 1].before@),
{
    let poll = polls[p];
    assert(goes_on(polls[p].after@, polls[p + 1].before@));
    let magic = choose|magic: Seq<u8>| magic.len() == 4 && #[trigger] filled(
        poll.before@,
        poll.layer,
        poll.after@,
        poll.layer_after,
        magic,
    );
    assert(filled(poll.before@, poll.layer, poll.after@, poll.layer_after, magic));
}

/// The job at hand.
spec fn at_hand(chat: Chat) -> Job {
    Job { state: chat.state, ..chat.tracker->0 }
}

/// At which of its steps the job at hand is.
spec fn step_at_hand(chat: Chat) -> int {
    if chat.state is IdentConsole || chat.state is TXTransfer {
        (chat.tracker->0).counter as int
    } else {
        0
    }
}

/// A steady application that is busy has a job at hand, with as many polls left as it says.
proof fn lemma_at_hand(chat: Chat)
    requires
        chat.steady(),
        chat.state != ChatState::Idle,
    ensures
        holds(chat, at_hand(chat), step_at_hand(chat)),
        at_hand(chat).state is TXTransfer ==> workable(at_hand(chat)),
        0 <= step_at_hand(chat) < polls_for(at_hand(chat)),
        polls_left(chat) == polls_for(at_hand(chat)) - step_at_hand(chat),
{
}

/// While the job at hand goes on, nothing is taken off the agenda. When it is done the application
/// is idle.
proof fn lemma_busy(
    polls: Seq<Poll<PictochatAppDriver>>,
    local_mac: MacAddress,
    p: int,
)
    requires
        in_a_row(polls, local_mac),
        0 <= p < polls.len(),
        polls[0].before@.steady(),
        p <= polls_left(polls[0].before@),
    ensures
        ({
            let start = polls[0].before@;
            let chat = polls[p].before@;
            &&& keeps(chat, start, local_mac, p, 0)
            &&& p == polls_left(start) ==> chat.state == ChatState::Idle
            &&& p < polls_left(start) ==> holds(chat, at_hand(start), step_at_hand(start) + p)
        }),
    decreases p,
{
    let start = polls[0].before@;
    if start.state != ChatState::Idle {
        lemma_at_hand(start);
    }
    if p == 0 {
        assert(start.queue =~= agenda(start, local_mac).subrange(0, start.queue.len() as int));
        assert(news(start) =~= news(start).skip(0));
    } else {
        lemma_busy(polls, local_mac, p - 1);
        lemma_next_poll(polls, local_mac, p - 1);
        let before = polls[p - 1].before@;
        lemma_listening(before, start, local_mac, p - 1, 0);
        let polled = before.polled(local_mac);
        assert(polled == before.counted().listened(local_mac));
        lemma_job_goes_on(polled, at_hand(start), step_at_hand(start) + p - 1);
    }
}

/// The number of polls for jobs is at least the number of jobs, and one more job comes after them.
proof fn lemma_polls_for_all(jobs: Seq<Job>, k: int)
    requires
        0 <= k <= jobs.len(),
    ensures
        polls_for_all(jobs.take(k)) >= k,
        k < jobs.len() ==> polls_for_all(jobs.take(k + 1)) == polls_for_all(jobs.take(k))
            + polls_for(jobs[k]),
    decreases k,
{
    if k > 0 {
        lemma_polls_for_all(jobs, k - 1);
    }
    if k < jobs.len() {
        assert(jobs.take(k + 1).drop_last() =~= jobs.take(k));
    }
}

/// An idle application takes the next job of the agenda.
proof fn lemma_taking(chat: Chat, start: Chat, local_mac: MacAddress, polls: int, taken: int)
    requires
        start.steady(),
        keeps(chat, start, local_mac, polls, taken),
        chat.state == ChatState::Idle,
        0 <= taken <= polls,
        taken <= start.queue.len() + (if polls < news(start).len() {
            polls
        } else {
            news(start).len() as int
        }),
        taken < agenda(start, local_mac).len(),
    ensures
        chat.polled(local_mac).state == agenda(start, local_mac)[taken].state,
        chat.polled(local_mac).tracker == Some(agenda(start, local_mac)[taken]),
        keeps(chat.polled(local_mac), start, local_mac, polls + 1, taken + 1),
        chat.polled(local_mac).members == chat.members,
{
    lemma_listening(chat, start, local_mac, polls, taken);
    let listened = chat.counted().listened(local_mac);
    let jobs = agenda(start, local_mac);
    assert(listened.queue[0] == jobs[taken]);
    assert(chat.polled(local_mac).queue =~= listened.queue.skip(1));
    let seen = if polls + 1 < news(start).len() {
        polls + 1
    } else {
        news(start).len() as int
    };
    assert(listened.queue.skip(1) =~= jobs.subrange(taken + 1, start.queue.len() + seen));
}

/// The jobs of a steady application's agenda have not begun, and can be worked on.
proof fn lemma_agenda_is_workable(app: PictochatAppDriver, local_mac: MacAddress, k: int)
    requires
        app@.steady(),
        0 <= k < agenda(app@, local_mac).len(),
    ensures
        workable(agenda(app@, local_mac)[k]),
        agenda(app@, local_mac)[k] == at_step(agenda(app@, local_mac)[k], 0),
{
    let job = agenda(app@, local_mac)[k];
    if k < app@.queue.len() {
        assert(job == app@.queue[k]);
        assert(job_sound(app@.queue[k]));
        assert(job == app.desired_state_queue@[k]@);
    } else {
        let event = news(app@)[k - app@.queue.len()];
        lemma_news_is_sound(app@, k - app@.queue.len());
        assert(job == sending(local_mac, event));
    }
}

/// Each job of the agenda is at hand when its turn comes, and goes on from step to step.
proof fn lemma_turn(polls: Seq<Poll<PictochatAppDriver>>, local_mac: MacAddress, k: int, step: int)
    requires
        in_a_row(polls, local_mac),
        polls.len() > 0,
        polls[0].before@.steady(),
        0 <= k < agenda(polls[0].before@, local_mac).len(),
        0 <= step < polls_for(agenda(polls[0].before@, local_mac)[k]),
        turn_of(polls[0].before@, local_mac, k) + step < polls.len(),
    ensures
        ({
            let start = polls[0].before@;
            let p = turn_of(start, local_mac, k) + step;
            let job = agenda(start, local_mac)[k];
            let polled = polls[p].before@.polled(local_mac);
            &&& k <= p
            &&& polled.state == job.state
            &&& polled.tracker == Some(at_step(job, step))
            &&& polled.members == polls[p].before@.members
            &&& keeps(polled, start, local_mac, p + 1, k + 1)
        }),
    decreases k, step,
{
    let start = polls[0].before@;
    let jobs = agenda(start, local_mac);
    let p = turn_of(start, local_mac, k) + step;
    let chat = polls[p].before@;
    lemma_polls_for_all(jobs, k);
    lemma_agenda_is_workable(polls[0].before, local_mac, k);
    if start.state != ChatState::Idle {
        lemma_at_hand(start);
    }
    if step > 0 {
        lemma_turn(polls, local_mac, k, step - 1);
        lemma_next_poll(polls, local_mac, p - 1);
        let earlier = polls[p - 1].before@.polled(local_mac);
        lemma_job_goes_on(earlier, jobs[k], step - 1);
        assert(keeps(chat, start, local_mac, p, k + 1));
        lemma_listening(chat, start, local_mac, p, k + 1);
    } else if k > 0 {
        lemma_polls_for_all(jobs, k - 1);
        lemma_agenda_is_workable(polls[0].before, local_mac, k - 1);
        let last = polls_for(jobs[k - 1]) - 1;
        lemma_turn(polls, local_mac, k - 1, last);
        lemma_next_poll(polls, local_mac, p - 1);
        let earlier = polls[p - 1].before@.polled(local_mac);
        lemma_job_goes_on(earlier, jobs[k - 1], last);
        assert(keeps(chat, start, local_mac, p, k));
        lemma_taking(chat, start, local_mac, p, k);
    } else {
        assert(jobs.take(0) =~= Seq::empty());
        lemma_busy(polls, local_mac, p);
        lemma_taking(chat, start, local_mac, p, 0);
    }
}

/// Work is done in order. However busy a steady application is and however much waits, each job
/// that waits and each message from the network has its turn: first the job at hand is brought to
/// its end, then every job goes out whole, poll by poll, in the order in which they came.
pub proof fn law_work_is_done_in_order(
    polls: Seq<Poll<PictochatAppDriver>>,
    local_mac: MacAddress,
    k: int,
    step: int,
)
    requires
        in_a_row(polls, local_mac),
        polls.len() > 0,
        polls[0].before@.steady(),
        0 <= k < agenda(polls[0].before@, local_mac).len(),
        0 <= step < polls_for(agenda(polls[0].before@, local_mac)[k]),
        turn_of(polls[0].before@, local_mac, k) + step < polls.len(),
    ensures
        ({
            let poll = polls[turn_of(polls[0].before@, local_mac, k) + step];
            &&& poll.layer_after.frame matches Some(frame)
            &&& carries(
                frame,
                agenda(polls[0].before@, local_mac)[k],
                step,
                poll.before@.members,
            )
            &&& frame.rx_console_mask == poll.layer.client_mask
        }),
{
    let start = polls[0].before@;
    let p = turn_of(start, local_mac, k) + step;
    let job = agenda(start, local_mac)[k];
    let poll = polls[p];
    lemma_turn(polls, local_mac, k, step);
    lemma_agenda_is_workable(polls[0].before, local_mac, k);
    lemma_polls_for_all(agenda(start, local_mac), k);
    if start.state != ChatState::Idle {
        lemma_at_hand(start);
    }
    let magic = choose|magic: Seq<u8>| magic.len() == 4 && #[trigger] filled(
        poll.before@,
        poll.layer,
        poll.after@,
        poll.layer_after,
        magic,
    );
    assert(filled(poll.before@, poll.layer, poll.after@, poll.layer_after, magic));
    lemma_frame_carries(poll.before@.polled(local_mac), job, step, magic);
}

/// The turns on the agenda follow each other without a gap, and no two jobs have the same turn.
pub proof fn law_turns_follow_each_other(chat: Chat, local_mac: MacAddress, k: int)
    requires
        0 <= k,
        k + 1 < agenda(chat, local_mac).len(),
    ensures
        turn_of(chat, local_mac, 0) == polls_left(chat),
        turn_of(chat, local_mac, k + 1) == turn_of(chat, local_mac, k) + polls_for(
            agenda(chat, local_mac)[k],
        ),
        turn_of(chat, local_mac, k + 1) > turn_of(chat, local_mac, k),
{
    assert(agenda(chat, local_mac).take(0) =~= Seq::empty());
    lemma_polls_for_all(agenda(chat, local_mac), k);
}

/// Messages from the network all go out, in order, whatever the application was doing and whatever
/// waited: each is announced under its size, and then goes out whole, in pieces of 180 bytes that
/// follow one another, of which only the last is marked.
pub proof fn law_messages_go_out_in_order(
    polls: Seq<Poll<PictochatAppDriver>>,
    local_mac: MacAddress,
    m: int,
    step: int,
)
    requires
        in_a_row(polls, local_mac),
        polls.len() > 0,
        polls[0].before@.steady(),
        0 <= m < news(polls[0].before@).len(),
        0 <= step <= pieces_of(36 + (news(polls[0].before@)[m]->content).len()),
        turn_of(polls[0].before@, local_mac, polls[0].before@.queue.len() + m) + step < polls.len(),
    ensures
        ({
            let start = polls[0].before@;
            let poll = polls[turn_of(start, local_mac, start.queue.len() + m) + step];
            let content = news(start)[m]->content;
            let payload = message_payload(local_mac.octets@, content);
            let total = pieces_of(payload.len());
            let from = 180 * (step - 1);
            let to = if step == total {
                payload.len() as int
            } else {
                180 * step
            };
            &&& payload.len() == 36 + content.len()
            &&& payload.skip(36) == content
            &&& poll.layer_after.frame matches Some(frame)
            &&& frame.payload matches Some(packet)
            &&& frame.rx_console_mask == poll.layer.client_mask
            &&& step == 0 ==> packet.len() == 20 && packet[0] == 1 && packet[8] + 256 * packet[9]
                == payload.len()
            &&& step > 0 ==> {
                &&& packet[0] == 2
                &&& packet.skip(12) == payload.subrange(from, to)
                &&& packet[6] == to - from
                &&& packet[8] + 256 * packet[9] == from
                &&& packet[7] == if step == total {
                    1u8
                } else {
                    0u8
                }
            }
        }),
{
    let start = polls[0].before@;
    let k = start.queue.len() + m;
    let event = news(start)[m];
    let payload = message_payload(local_mac.octets@, event->content);
    lemma_news_is_sound(start, m);
    assert(agenda(start, local_mac)[k] == sending(local_mac, event));
    assert(payload.skip(36) =~= event->content);
    law_work_is_done_in_order(polls, local_mac, k, step);
    let poll = polls[turn_of(start, local_mac, k) + step];
    let packet = (poll.layer_after.frame->0).payload->0;
    assert(step == 0 ==> packet[0] == packet.take(4)[0]);
    assert(step > 0 ==> packet[0] == packet.take(6)[0]);
}

/// Packets that wait to be repeated go out as they are, each when its turn comes.
pub proof fn law_waiting_packets_are_repeated(
    polls: Seq<Poll<PictochatAppDriver>>,
    local_mac: MacAddress,
    k: int,
)
    requires
        in_a_row(polls, local_mac),
        polls.len() > 0,
        polls[0].before@.steady(),
        0 <= k < polls[0].before@.queue.len(),
        polls[0].before@.queue[k].state == ChatState::Echo,
        turn_of(polls[0].before@, local_mac, k) < polls.len(),
    ensures
        ({
            let poll = polls[turn_of(polls[0].before@, local_mac, k)];
            &&& poll.layer_after.frame matches Some(frame)
            &&& frame.payload is Some
            &&& frame.payload == polls[0].before@.queue[k].payload
        }),
{
    assert(agenda(polls[0].before@, local_mac)[k] == polls[0].before@.queue[k]);
    law_work_is_done_in_order(polls, local_mac, k, 0);
}

/// Requests for identities that wait go out, each with the number of the console that it asks.
pub proof fn law_waiting_requests_go_out(
    polls: Seq<Poll<PictochatAppDriver>>,
    local_mac: MacAddress,
    k: int,
)
    requires
        in_a_row(polls, local_mac),
        polls.len() > 0,
        polls[0].before@.steady(),
        0 <= k < polls[0].before@.queue.len(),
        polls[0].before@.queue[k].state is RequestIdent,
        turn_of(polls[0].before@, local_mac, k) < polls.len(),
    ensures
        ({
            let poll = polls[turn_of(polls[0].before@, local_mac, k)];
            &&& poll.layer_after.frame matches Some(frame)
            &&& frame.payload matches Some(packet)
            &&& packet.len() == 20
            &&& packet[0] == 1
            &&& packet[4] + 256 * packet[5] == polls[0].before@.queue[k].state->console_id
            &&& packet[8] + 256 * packet[9] == 84
        }),
{
    assert(agenda(polls[0].before@, local_mac)[k] == polls[0].before@.queue[k]);
    law_work_is_done_in_order(polls, local_mac, k, 0);
    let poll = polls[turn_of(polls[0].before@, local_mac, k)];
    let packet = (poll.layer_after.frame->0).payload->0;
    assert(packet[0] == packet.take(4)[0]);
}

/// After the last job of the agenda there is nothing left to do.
proof fn lemma_agenda_ends(
    polls: Seq<Poll<PictochatAppDriver>>,
    local_mac: MacAddress,
    p: int,
)
    requires
        in_a_row(polls, local_mac),
        polls.len() > 0,
        polls[0].before@.steady(),
        turn_of(polls[0].before@, local_mac, agenda(polls[0].before@, local_mac).len() as int) <= p
            < polls.len(),
    ensures
        0 <= p,
        polls[p].before@.state == ChatState::Idle,
        polls[p].before@.queue.len() == 0,
        news(polls[p].before@).len() == 0,
    decreases p,
{
    let start = polls[0].before@;
    let jobs = agenda(start, local_mac);
    let count = jobs.len() as int;
    lemma_polls_for_all(jobs, count);
    if start.state != ChatState::Idle {
        lemma_at_hand(start);
    }
    if turn_of(start, local_mac, count) < p {
        lemma_agenda_ends(polls, local_mac, p - 1);
        lemma_next_poll(polls, local_mac, p - 1);
    } else if count > 0 {
        lemma_polls_for_all(jobs, count - 1);
        lemma_agenda_is_workable(polls[0].before, local_mac, count - 1);
        let last = polls_for(jobs[count - 1]) - 1;
        assert(jobs.take(count) =~= jobs);
        lemma_turn(polls, local_mac, count - 1, last);
        lemma_next_poll(polls, local_mac, p - 1);
        lemma_job_goes_on(polls[p - 1].before@.polled(local_mac), jobs[count - 1], last);
    } else {
        assert(jobs.take(0) =~= Seq::empty());
        lemma_busy(polls, local_mac, p);
    }
}

/// When all work is done, and not sooner, the polls carry the member list again.
pub proof fn law_all_work_comes_to_an_end(
    polls: Seq<Poll<PictochatAppDriver>>,
    local_mac: MacAddress,
    p: int,
)
    requires
        in_a_row(polls, local_mac),
        polls.len() > 0,
        polls[0].before@.steady(),
        turn_of(polls[0].before@, local_mac, agenda(polls[0].before@, local_mac).len() as int) <= p
            < polls.len(),
    ensures
        polls[p].layer_after.frame matches Some(frame) && {
            &&& frame.payload matches Some(packet)
            &&& lists_members(packet, 5, polls[p].before@.members)
        },
        polls[p].after@.state == ChatState::Idle,
        polls[p].after@.queue.len() == 0,
{
    lemma_agenda_ends(polls, local_mac, p);
    law_members_go_out_meanwhile(
        polls[p].before,
        polls[p].layer,
        polls[p].after,
        polls[p].layer_after,
    );
}

/// The polls for two lists of jobs add up.
proof fn lemma_polls_add_up(jobs: Seq<Job>, more: Seq<Job>)
    ensures
        polls_for_all(jobs + more) == polls_for_all(jobs) + polls_for_all(more),
    decreases more.len(),
{
    if more.len() == 0 {
        assert(jobs + more =~= jobs);
    } else {
        lemma_polls_add_up(jobs, more.drop_last());
        assert((jobs + more).drop_last() =~= jobs + more.drop_last());
    }
}

/// Jobs that take one poll each take as many polls as there are jobs.
proof fn lemma_short_jobs(jobs: Seq<Job>)
    requires
        forall|i: int| 0 <= i < jobs.len() ==> polls_for(#[trigger] jobs[i]) == 1,
    ensures
        polls_for_all(jobs) == jobs.len(),
    decreases jobs.len(),
{
    if jobs.len() > 0 {
        let earlier = jobs.drop_last();
        assert forall|i: int| 0 <= i < earlier.len() implies polls_for(#[trigger] earlier[i])
            == 1 by {
            assert(earlier[i] == jobs[i]);
        }
        lemma_short_jobs(earlier);
        assert(polls_for(jobs[jobs.len() - 1]) == 1);
    }
}

/// A job in the middle of the queue has its turn when those before it had theirs.
proof fn lemma_turn_in_queue(chat: Chat, local_mac: MacAddress, first: Seq<Job>, k: int)
    requires
        0 <= k <= chat.queue.len(),
        first == chat.queue.take(k),
    ensures
        turn_of(chat, local_mac, k) == polls_left(chat) + polls_for_all(first),
{
    assert(agenda(chat, local_mac).take(k) =~= first);
}

/// A transfer of a console is repeated to all. Where a console announced a message and sent its
/// pieces, the polls that follow, once what waited before is done, carry the announcement, under
/// packet type 1, and then every piece as it came, one after the other, one in each poll.
pub proof fn law_transfer_is_repeated(
    chat: Chat,
    local_mac: MacAddress,
    device: LocalWifiClientDevice,
    announcement: Seq<u8>,
    pieces: Seq<Seq<u8>>,
    payload: Seq<u8>,
    polls: Seq<Poll<PictochatAppDriver>>,
    j: int,
)
    requires
        chat.steady(),
        device.assoc_id_num < 16,
        chat.members.len() == 16,
        36 <= payload.len() <= MAX_PACKET_ALLOC_SIZE,
        !is_console_id(payload),
        announces(announcement, payload),
        spell(pieces, payload),
        chat.outgoing is Some,
        announcement.len() % 2 == 0,
        forall|i: int| 0 <= i < pieces.len() ==> (#[trigger] pieces[i]).len() % 2 == 0,
        in_a_row(polls, local_mac),
        polls.len() > 0,
        polls[0].before@ == fed(chat, local_mac, device, seq![announcement] + pieces),
        0 <= j <= pieces.len(),
        polls_left(chat) + polls_for_all(chat.queue) + j < polls.len(),
    ensures
        ({
            let poll = polls[polls_left(chat) + polls_for_all(chat.queue) + j];
            &&& poll.layer_after.frame matches Some(frame)
            &&& frame.payload matches Some(packet)
            &&& j > 0 ==> packet == pieces[j - 1]
            &&& j == 0 ==> {
                &&& packet.len() == announcement.len()
                &&& packet[0] == 1
                &&& forall|i: int|
                    0 < i < announcement.len() ==> #[trigger] packet[i] == announcement[i]
            }
        }),
{
    law_message_arrives(chat, local_mac, device, announcement, pieces, payload);
    let start = polls[0].before@;
    let waiting = start.queue.skip(chat.queue.len() as int);
    assert(start.queue =~= chat.queue + waiting);
    assert forall|i: int| 0 <= i < waiting.len() implies #[trigger] waiting[i] == (Job {
        state: ChatState::Echo,
        payload: Some(
            if i == 0 {
                announcement.update(0, 1)
            } else {
                pieces[i - 1]
            },
        ),
        counter: 0,
        offset: 0,
    }) by {}
    assert(start.steady()) by {
        assert forall|i: int| 0 <= i < start.queue.len() implies job_sound(
            #[trigger] start.queue[i],
        ) by {
            if i < chat.queue.len() {
                assert(start.queue[i] == chat.queue[i]);
            } else {
                assert(start.queue[i] == waiting[i - chat.queue.len()]);
            }
        }
    }
    let k = chat.queue.len() + j;
    let short = waiting.take(j);
    assert forall|i: int| 0 <= i < short.len() implies polls_for(#[trigger] short[i]) == 1 by {
        assert(short[i] == waiting[i]);
    }
    lemma_short_jobs(short);
    lemma_polls_add_up(chat.queue, short);
    assert(start.queue.take(k) =~= chat.queue + short);
    lemma_turn_in_queue(start, local_mac, chat.queue + short, k);
    assert(start.queue[k] == waiting[j]);
    law_waiting_packets_are_repeated(polls, local_mac, k);
}

/// Every console is asked for its identity. Where a console identified itself for the first time,
/// the polls that follow, once what waited before is done and the host has introduced itself, ask
/// each of the known consoles, from number 1 on, one in each poll and none left out.
pub proof fn law_every_console_is_asked(
    before: PictochatAppDriver,
    device: LocalWifiClientDevice,
    data_frame: ClientFrame,
    layer: LayerState,
    layer_after: LayerState,
    polls: Seq<Poll<PictochatAppDriver>>,
    i: int,
)
    requires
        before.can_take(data_frame, device),
        before@.steady(),
        (data_frame.payload->0).len() % 2 == 0,
        (data_frame.payload->0)[0] == 2,
        (data_frame.payload->0)[7] == 1,
        before@.buffer is Some,
        byte_after(before@.buffer->0, data_frame.payload->0, 1) <= 1,
        before@.outgoing is Some,
        !before@.consoles.contains_key(device.addr.number()),
        in_a_row(polls, layer.local_mac),
        polls.len() > 0,
        PictochatAppDriver::packet_effect(
            before,
            layer,
            data_frame,
            device,
            polls[0].before,
            layer_after,
        ),
        0 <= i < polls[0].before@.consoles.len(),
        i < 0xffff,
        polls_left(before@) + polls_for_all(before@.queue) + 6 + i < polls.len(),
    ensures
        polls[0].before@.consoles.dom() == before@.consoles.dom().insert(device.addr.number()),
        ({
            let poll = polls[polls_left(before@) + polls_for_all(before@.queue) + 6 + i];
            &&& poll.layer_after.frame matches Some(frame)
            &&& frame.payload matches Some(packet)
            &&& packet.len() == 20
            &&& packet[0] == 1
            &&& packet[4] + 256 * packet[5] == i + 1
            &&& packet[8] + 256 * packet[9] == 84
        }),
{
    let start = polls[0].before@;
    let packet = data_frame.payload->0;
    law_new_console_is_welcomed(before, layer, data_frame, device, polls[0].before, layer_after);
    law_packet_leaves_the_rest_alone(
        before,
        layer,
        data_frame,
        device,
        polls[0].before,
        layer_after,
    );
    law_packet_keeps_application_steady(before@, layer.local_mac, device, packet);
    let first = before@.queue.len() as int;
    let k = first + 3 + i;
    let welcome = start.queue.subrange(first, first + 3);
    let asked = start.queue.subrange(first + 3, k);
    assert forall|n: int| 0 <= n < asked.len() implies polls_for(#[trigger] asked[n]) == 1 by {
        assert(asked[n] == start.queue[first + 3 + n]);
    }
    lemma_short_jobs(asked);
    assert(polls_for_all(welcome) == 6) by {
        assert(welcome.drop_last().drop_last().drop_last() =~= Seq::empty());
        assert(welcome.drop_last().drop_last().last() == start.queue[first]);
        assert(welcome.drop_last().last() == start.queue[first + 1]);
        assert(welcome.last() == start.queue[first + 2]);
        reveal_with_fuel(polls_for_all, 4);
    }
    lemma_polls_add_up(welcome, asked);
    lemma_polls_add_up(before@.queue, welcome + asked);
    assert(start.queue.take(k) =~= before@.queue + (welcome + asked)) by {
        assert(start.queue.take(first) =~= before@.queue);
    }
    lemma_turn_in_queue(start, layer.local_mac, before@.queue + (welcome + asked), k);
    law_waiting_requests_go_out(polls, layer.local_mac, k);
}

/// A transfer that is past its last piece sends the packet that ends one.
pub proof fn law_transfer_past_its_pieces(
    before: PictochatAppDriver,
    layer: LayerState,
    after: PictochatAppDriver,
    layer_after: LayerState,
)
    requires
        PictochatAppDriver::fill_effect(before, layer, after, layer_after),
        before@.state == ChatState::TXTransfer,
        before@.tracker matches Some(job) && job.payload matches Some(payload) && payload.len()
            < 0x1_0000 && job.counter > pieces_of(payload.len()),
    ensures
        layer_after.frame matches Some(frame) && {
            &&& frame.flags == 141
            &&& frame.payload == Some(
                seq![
                    3u8, 0, 20, 0, 1, 4, 0xff, 0xff, 0x81, 0x93,
                    0x32, 2, 1, 0x69, 0x35, 2, 0x6f, 2, 0x33, 2,
                ],
            )
        },
{
    let magic = choose|magic: Seq<u8>| magic.len() == 4 && #[trigger] filled(
        before@,
        layer,
        after@,
        layer_after,
        magic,
    );
    assert(filled(before@, layer, after@, layer_after, magic));
    let packet = (layer_after.frame->0).payload->0;
    assert(packet =~= seq![
        3u8, 0, 20, 0, 1, 4, 0xff, 0xff, 0x81, 0x93,
        0x32, 2, 1, 0x69, 0x35, 2, 0x6f, 2, 0x33, 2,
    ]);
}

} // verus!
