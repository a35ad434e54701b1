//! What holds of the chat application as a whole.

use crate::ds_local_wifi_driver::cycle::{DriverPhase, Found};
use crate::ds_local_wifi_driver::frames::{client_frame, HostToClientDataFrameFooter};
use crate::ds_local_wifi_driver::layer::{
    ClientEvents, LayerState, LocalWifiApplicationLayer, LocalWifiClientDevice,
};
use crate::ds_local_wifi_driver::link::Inbound;
use crate::ds_local_wifi_driver::properties::{
    law_mask_matches_after_events, law_mask_matches_at_the_start, law_somebody_to_poll,
};
use crate::ds_local_wifi_driver::state::{carries_payload, elapsed, DriverState};
use crate::mac_address::MacAddress;
use crate::pictochat_app_driver::chat::{
    chat_frame, chunk_at, chunk_size, is_console_id, joined_event, message_announcement_magic,
    piece_written, short_size, total_chunks, transfer_piece, whole_readable, without_member, Chat,
    MAX_PACKET_ALLOC_SIZE, MESSAGE_CHUNK_SIZE,
};
use crate::pictochat_app_driver::events::{ChatState, Event, Job};
use crate::pictochat_app_driver::pictochat_app_driver::{filled, PictochatAppDriver};
use crate::pictochat_app_driver::pictochat_packets::{
    console_id_of, holds_console_id, law_console_id_round_trip, law_piece_round_trip,
    message_payload, piece_of, type1_packet, ConsoleId, BIO_SIZE, MESSAGE_HEADER, NAME_SIZE,
    TYPE_1_SIZE, TYPE_2_HEADER,
};
use crate::wide_string::utf16_valid;
use crate::wire::{le16_at, resized, zeros};
use vstd::prelude::*;

verus! {

/// Whether a payload can be sent in pieces: of even size, and short enough to be announced.
pub open spec fn sendable(payload: Seq<u8>) -> bool {
    payload.len() % 2 == 0 && payload.len() < 0x1_0000
}

/// The job of a transfer before one of its steps.
pub open spec fn transfer_job(payload: Seq<u8>, step: int) -> Job {
    Job {
        state: ChatState::TXTransfer,
        payload: Some(payload),
        counter: step as u16,
        offset: (if step == 0 {
            0int
        } else {
            MESSAGE_CHUNK_SIZE * (step - 1)
        }) as u16,
    }
}

/// Whether a job that waits has what it needs, and has not begun.
pub open spec fn job_sound(job: Job) -> bool {
    &&& job.counter == 0
    &&& job.offset == 0
    &&& match job.state {
        ChatState::Echo => job.payload matches Some(payload) && payload.len() % 2 == 0,
        ChatState::TXTransfer => job.payload matches Some(payload) && sendable(payload),
        _ => true,
    }
}

/// Whether the job at hand has what its state needs.
pub open spec fn work_sound(state: ChatState, tracker: Option<Job>) -> bool {
    match state {
        ChatState::IdentConsole { .. } => tracker matches Some(job) && job.counter <= 3,
        ChatState::Echo => tracker matches Some(job) && job.payload matches Some(payload)
            && payload.len() % 2 == 0,
        ChatState::TXTransfer => tracker matches Some(job) && job.payload matches Some(payload) && {
            &&& sendable(payload)
            &&& job.counter <= total_chunks(payload.len())
            &&& job == transfer_job(payload, job.counter as int)
        },
        _ => true,
    }
}

/// Whether an event from the network is a message that can be sent.
pub open spec fn event_sound(event: Event) -> bool {
    event matches Event::Message { content, .. } && content.len() % 2 == 0 && content.len() + 36
        < 0x1_0000
}

impl Chat {
    /// Whether the application is steady: the job at hand, the jobs that wait and the events that
    /// wait are all sound.
    pub open spec fn steady(self) -> bool {
        &&& work_sound(self.state, self.tracker)
        &&& forall|i: int| 0 <= i < self.queue.len() ==> job_sound(#[trigger] self.queue[i])
        &&& self.incoming matches Some(events) ==> forall|i: int|
            0 <= i < events.len() ==> event_sound(#[trigger] events[i])
    }
}

/// The number of pieces of a payload that can be announced.
proof fn lemma_total_chunks(size: nat)
    requires
        size < 0x1_0000,
    ensures
        total_chunks(size) == (size + 179) / 180,
        180 * (total_chunks(size) - 1) < size <= 180 * total_chunks(size) || size == 0,
        size == 0 ==> total_chunks(size) == 0,
        size > 0 ==> total_chunks(size) > 0,
        total_chunks(size) < 1000,
{
}

/// The size of each piece of a payload that can be announced: all but the last are full.
proof fn lemma_chunk(payload: Seq<u8>, step: int)
    requires
        payload.len() < 0x1_0000,
        0 < step <= total_chunks(payload.len()),
    ensures
        ({
            let offset = transfer_job(payload, step).offset;
            let size = payload.len();
            &&& offset == 180 * (step - 1)
            &&& offset < size
            &&& short_size(size) == size
            &&& 0 < chunk_size(size, offset) <= 180
            &&& step < total_chunks(size) ==> chunk_size(size, offset) == 180
            &&& step == total_chunks(size) ==> offset + chunk_size(size, offset) == size
            &&& offset + chunk_size(size, offset) == if 180 * step <= size {
                180 * step
            } else {
                size as int
            }
            &&& size % 2 == 0 ==> chunk_size(size, offset) % 2 == 0
        }),
{
    lemma_total_chunks(payload.len());
}

/// A steady application can make the next poll, as long as the sequence number can go up, and has a
/// frame to send.
pub proof fn law_steady_application_can_poll(chat: Chat)
    requires
        chat.steady(),
        chat.seq_no < u16::MAX,
    ensures
        chat.can_fill(),
        chat.has_frame(),
{
    let scheduled = chat.scheduled();
    if chat.state == ChatState::Idle && chat.queue.len() > 0 {
        assert(job_sound(chat.queue[0]));
    }
    if let Some(events) = chat.incoming {
        if events.len() > 0 {
            assert(event_sound(events[0]));
        }
    }
    if scheduled.state == ChatState::TXTransfer {
        let job = scheduled.tracker->0;
        let payload = job.payload->0;
        lemma_total_chunks(payload.len());
        if 0 < job.counter {
            lemma_chunk(payload, job.counter as int);
        }
    }
}

/// A poll leaves a steady application steady.
pub proof fn law_poll_keeps_application_steady(chat: Chat, local_mac: MacAddress)
    requires
        chat.steady(),
    ensures
        chat.polled(local_mac).advanced().steady(),
{
    let listened = chat.counted().listened(local_mac);
    if let Some(events) = chat.incoming {
        if events.len() > 0 {
            assert(event_sound(events[0]));
            assert(forall|i: int|
                0 <= i < events.len() - 1 ==> events.skip(1)[i] == #[trigger] events[i + 1]);
        }
    }
    assert(forall|i: int|
        0 <= i < listened.queue.len() ==> job_sound(#[trigger] listened.queue[i]));
    let polled = chat.polled(local_mac);
    assert(polled == listened.scheduled());
    if listened.state == ChatState::Idle && listened.queue.len() > 0 {
        assert(job_sound(listened.queue[0]));
        if listened.queue[0].state == ChatState::TXTransfer {
            let job = listened.queue[0];
            assert(job == transfer_job(job.payload->0, 0));
        }
    }
    assert(work_sound(polled.state, polled.tracker));
    if polled.state == ChatState::TXTransfer {
        let job = polled.tracker->0;
        let payload = job.payload->0;
        lemma_total_chunks(payload.len());
        if 0 < job.counter {
            lemma_chunk(payload, job.counter as int);
        }
        if job.counter < total_chunks(payload.len()) {
            let next = polled.advanced().tracker->0;
            assert(next == transfer_job(payload, job.counter + 1));
        }
    }
}

/// A packet of even size leaves a steady application steady.
pub proof fn law_packet_keeps_application_steady(
    chat: Chat,
    local_mac: MacAddress,
    device: LocalWifiClientDevice,
    packet: Seq<u8>,
)
    requires
        chat.steady(),
        chat.can_take(Some(packet), device),
        packet.len() % 2 == 0,
    ensures
        chat.with_packet(local_mac, device, packet).steady(),
{
}

/// A console that comes or goes leaves a steady application steady.
pub proof fn law_event_keeps_application_steady(chat: Chat, event: ClientEvents)
    requires
        chat.steady(),
    ensures
        chat.with_event(event).steady(),
{
}

/// An application that has nothing to do, once it is set up, is steady.
pub proof fn law_application_starts_steady(chat: Chat, local_mac: MacAddress)
    requires
        chat.state == ChatState::Idle,
        chat.queue.len() == 0,
        chat.incoming matches Some(events) ==> events.len() == 0,
    ensures
        chat.set_up(local_mac).steady(),
{
}

/// A host with consoles connected can poll them, while its application is steady and its sequence
/// number can go up.
pub proof fn law_host_can_poll_its_consoles(driver: DriverState<PictochatAppDriver>)
    requires
        driver.resting(),
        driver.mask_matches(),
        exists|k: u64| #[trigger] driver.ledger.clients.contains_key(k),
        (driver.ledger.app->0)@.steady(),
        (driver.ledger.app->0)@.seq_no < u16::MAX,
    ensures
        driver.can_send(),
{
    law_somebody_to_poll(driver);
    law_steady_application_can_poll((driver.ledger.app->0)@);
}

/// A sound host never comes to an end of its cycle: in every phase it can go on, though nothing was
/// found, as long as its sequence number can go up.
pub proof fn law_sound_host_can_go_on(
    driver: DriverState<PictochatAppDriver>,
    phase: DriverPhase,
    found: Found,
)
    requires
        host_sound(driver, (driver.ledger.app->0)@),
        (driver.ledger.app->0)@.seq_no < u16::MAX,
        found.event is None,
        found.packet is None,
    ensures
        driver.can_step(phase, found),
{
    let clients = driver.ledger.clients;
    if clients.len() > 0 {
        if forall|k: u64| !#[trigger] clients.contains_key(k) {
            assert(clients.dom() =~= Set::empty());
        }
        law_host_can_poll_its_consoles(driver);
    }
}

/// A poll that has a frame to send asks every connected console for a reply, under a sequence
/// number one above the last.
pub proof fn law_poll_asks_every_console(
    before: Chat,
    layer: LayerState,
    after: Chat,
    layer_after: LayerState,
    magic: Seq<u8>,
)
    requires
        before.can_fill(),
        before.has_frame(),
        filled(before, layer, after, layer_after, magic),
    ensures
        after.seq_no == before.seq_no + 1,
        layer_after.frame matches Some(frame) && {
            &&& frame.rx_console_mask == layer.client_mask
            &&& frame.footer == Some(HostToClientDataFrameFooter { seq_no: after.seq_no, idk: 0 })
        },
{
    let listened = before.counted().listened(layer.local_mac);
    if before.state == ChatState::Idle && before.queue.len() > 0 {
        assert(listened.queue[0] == before.queue[0]);
    }
}

/// A transfer goes on piece by piece, and the application is idle again after its last piece.
pub proof fn law_transfer_progresses(chat: Chat, payload: Seq<u8>, step: int)
    requires
        payload.len() < 0x1_0000,
        0 <= step <= total_chunks(payload.len()),
        chat.state == ChatState::TXTransfer,
        chat.tracker == Some(transfer_job(payload, step)),
    ensures
        step < total_chunks(payload.len()) ==> chat.advanced() == (Chat {
            tracker: Some(transfer_job(payload, step + 1)),
            ..chat
        }),
        step == total_chunks(payload.len()) ==> chat.advanced() == (Chat {
            state: ChatState::Idle,
            tracker: None,
            ..chat
        }),
{
    lemma_total_chunks(payload.len());
    if 0 < step {
        lemma_chunk(payload, step);
    }
}

/// The piece of a payload that a step of its transfer sends.
pub open spec fn nth_piece(payload: Seq<u8>, step: int) -> Seq<u8> {
    transfer_piece(payload, step as u16, transfer_job(payload, step).offset).encoded()
}

/// What a piece of a transfer says when it is read.
proof fn lemma_nth_piece(payload: Seq<u8>, step: int)
    requires
        payload.len() < 0x1_0000,
        0 < step <= total_chunks(payload.len()),
    ensures
        ({
            let offset = transfer_job(payload, step).offset;
            let packet = nth_piece(payload, step);
            &&& piece_of(packet) == transfer_piece(payload, step as u16, offset)
            &&& packet.len() >= 12
            &&& packet[0] == 2
            &&& packet.len() == 12 + chunk_size(payload.len(), offset)
            &&& piece_of(packet).write_offset == offset
            &&& piece_of(packet).payload == Some(chunk_at(payload, offset))
            &&& piece_of(packet).payload_length == chunk_size(payload.len(), offset)
            &&& piece_of(packet).transfer_flags == if step == total_chunks(payload.len()) {
                1u8
            } else {
                0u8
            }
        }),
{
    lemma_total_chunks(payload.len());
    lemma_chunk(payload, step);
    let offset = transfer_job(payload, step).offset;
    let piece = transfer_piece(payload, step as u16, offset);
    assert(chunk_at(payload, offset).len() == chunk_size(payload.len(), offset));
    law_piece_round_trip(piece);
}

/// Only the last piece of a transfer is marked as the last.
pub proof fn law_last_piece_is_marked(payload: Seq<u8>, step: int)
    requires
        payload.len() < 0x1_0000,
        0 < step <= total_chunks(payload.len()),
    ensures
        piece_of(nth_piece(payload, step)).transfer_flags == 1 <==> step == total_chunks(
            payload.len(),
        ),
        piece_of(nth_piece(payload, step)).transfer_flags <= 1,
{
    lemma_nth_piece(payload, step);
}

/// Whether a packet announces a transfer of a payload.
pub open spec fn announces(announcement: Seq<u8>, payload: Seq<u8>) -> bool {
    &&& announcement.len() >= TYPE_1_SIZE
    &&& announcement[0] == 0
    &&& le16_at(announcement, 8) == payload.len()
}

/// Whether a packet is a piece of a payload: it carries some of the payload's bytes, for the place
/// where they stand.
pub open spec fn piece_agrees(packet: Seq<u8>, payload: Seq<u8>) -> bool {
    let piece = piece_of(packet);
    &&& packet.len() >= TYPE_2_HEADER
    &&& packet[0] == 2
    &&& piece.payload_length != 0
    &&& piece.write_offset + piece.payload_length <= payload.len()
    &&& piece.payload == Some(
        payload.subrange(
            piece.write_offset as int,
            piece.write_offset + piece.payload_length,
        ),
    )
}

/// Whether a packet carries the byte at a place of a payload.
pub open spec fn piece_covers(packet: Seq<u8>, place: int) -> bool {
    piece_of(packet).write_offset <= place < piece_of(packet).write_offset + piece_of(
        packet,
    ).payload_length
}

/// Whether one of the packets carries the byte at a place of a payload.
pub open spec fn covered(pieces: Seq<Seq<u8>>, place: int) -> bool {
    exists|j: int| 0 <= j < pieces.len() && #[trigger] piece_covers(pieces[j], place)
}

/// Whether packets make up a payload: each is a piece of it, together they leave no byte out, and
/// only the last is marked as the last. Their sizes and their order are free, and they may overlap.
pub open spec fn spell(pieces: Seq<Seq<u8>>, payload: Seq<u8>) -> bool {
    &&& pieces.len() > 0
    &&& forall|j: int| 0 <= j < pieces.len() ==> piece_agrees(#[trigger] pieces[j], payload)
    &&& forall|j: int|
        0 <= j < pieces.len() ==> (piece_of(#[trigger] pieces[j]).transfer_flags == 1 <==> j
            == pieces.len() - 1)
    &&& forall|place: int| 0 <= place < payload.len() ==> #[trigger] covered(pieces, place)
}

/// An application after packets of a console came in, one after the other.
pub open spec fn fed(
    chat: Chat,
    local_mac: MacAddress,
    device: LocalWifiClientDevice,
    packets: Seq<Seq<u8>>,
) -> Chat
    decreases packets.len(),
{
    if packets.len() == 0 {
        chat
    } else {
        fed(chat, local_mac, device, packets.drop_last()).with_packet(
            local_mac,
            device,
            packets.last(),
        )
    }
}

/// The jobs that repeat packets to all, in order.
pub open spec fn echoes(packets: Seq<Seq<u8>>) -> Seq<Job> {
    packets.map_values(|packet: Seq<u8>| Job::new(ChatState::Echo, Some(packet)))
}

/// The packets of a transfer as they are repeated: the announcement under the host's packet type,
/// the pieces as they are.
pub open spec fn repeated(announcement: Seq<u8>, pieces: Seq<Seq<u8>>) -> Seq<Seq<u8>> {
    seq![announcement.update(0, 1)] + pieces
}

/// The buffer of a transfer after pieces came in.
pub open spec fn gathered(size: nat, pieces: Seq<Seq<u8>>) -> Seq<u8>
    decreases pieces.len(),
{
    if pieces.len() == 0 {
        zeros(size)
    } else {
        piece_written(gathered(size, pieces.drop_last()), pieces.last())
    }
}

/// Wherever a piece was written, the buffer agrees with the payload.
proof fn lemma_gathered(payload: Seq<u8>, pieces: Seq<Seq<u8>>)
    requires
        forall|j: int| 0 <= j < pieces.len() ==> piece_agrees(#[trigger] pieces[j], payload),
    ensures
        gathered(payload.len(), pieces).len() == payload.len(),
        forall|place: int, j: int|
            0 <= place < payload.len() && 0 <= j < pieces.len() && #[trigger] piece_covers(
                pieces[j],
                place,
            ) ==> gathered(payload.len(), pieces)[place] == payload[place],
    decreases pieces.len(),
{
    if pieces.len() > 0 {
        let earlier = pieces.drop_last();
        assert forall|j: int| 0 <= j < earlier.len() implies piece_agrees(
            #[trigger] earlier[j],
            payload,
        ) by {
            assert(earlier[j] == pieces[j]);
        }
        lemma_gathered(payload, earlier);
        assert(piece_agrees(pieces[pieces.len() - 1], payload));
        assert forall|place: int, j: int|
            0 <= place < payload.len() && 0 <= j < pieces.len() && #[trigger] piece_covers(
                pieces[j],
                place,
            ) implies gathered(payload.len(), pieces)[place] == payload[place] by {
            if !piece_covers(pieces.last(), place) {
                assert(earlier[j] == pieces[j]);
                assert(piece_covers(earlier[j], place));
            }
        }
    }
}

/// Pieces that make up a payload, written into a buffer of its size, give the payload.
pub proof fn law_pieces_give_the_payload(payload: Seq<u8>, pieces: Seq<Seq<u8>>)
    requires
        spell(pieces, payload),
    ensures
        gathered(payload.len(), pieces) == payload,
{
    lemma_gathered(payload, pieces);
    let buffer = gathered(payload.len(), pieces);
    assert forall|place: int| 0 <= place < payload.len() implies buffer[place]
        == payload[place] by {
        assert(covered(pieces, place));
        let j = choose|j: int| 0 <= j < pieces.len() && #[trigger] piece_covers(pieces[j], place);
        assert(piece_covers(pieces[j], place));
    }
    assert(buffer =~= payload);
}

/// The application while a transfer comes in: the console is a member, the buffer holds what came,
/// and the packets wait to be repeated. Nothing else has changed.
pub open spec fn gathering(
    chat: Chat,
    device: LocalWifiClientDevice,
    announcement: Seq<u8>,
    size: nat,
    pieces: Seq<Seq<u8>>,
) -> Chat {
    Chat {
        members: chat.members.update(device.assoc_id_num as int, device.addr),
        buffer: Some(gathered(size, pieces)),
        queue: chat.queue + echoes(repeated(announcement, pieces)),
        ..chat
    }
}

/// One more piece that is not the last is gathered.
proof fn lemma_one_more_piece(
    chat: Chat,
    local_mac: MacAddress,
    device: LocalWifiClientDevice,
    announcement: Seq<u8>,
    payload: Seq<u8>,
    pieces: Seq<Seq<u8>>,
    piece: Seq<u8>,
)
    requires
        device.assoc_id_num < 16,
        chat.members.len() == 16,
        piece_agrees(piece, payload),
        piece_of(piece).transfer_flags != 1,
    ensures
        gathering(chat, device, announcement, payload.len(), pieces).with_packet(
            local_mac,
            device,
            piece,
        ) == gathering(chat, device, announcement, payload.len(), pieces.push(piece)),
{
    let before = gathering(chat, device, announcement, payload.len(), pieces);
    let after = gathering(chat, device, announcement, payload.len(), pieces.push(piece));
    let taken = before.with_packet(local_mac, device, piece);
    assert(pieces.push(piece).drop_last() =~= pieces);
    assert(taken.members =~= after.members);
    assert(taken.buffer == after.buffer);
    assert(taken.queue =~= after.queue);
}

/// While its pieces come in, a transfer is only gathered and repeated.
proof fn lemma_fed(
    chat: Chat,
    local_mac: MacAddress,
    device: LocalWifiClientDevice,
    announcement: Seq<u8>,
    payload: Seq<u8>,
    pieces: Seq<Seq<u8>>,
)
    requires
        device.assoc_id_num < 16,
        chat.members.len() == 16,
        payload.len() <= MAX_PACKET_ALLOC_SIZE,
        announces(announcement, payload),
        forall|j: int| 0 <= j < pieces.len() ==> piece_agrees(#[trigger] pieces[j], payload),
        forall|j: int|
            0 <= j < pieces.len() ==> piece_of(#[trigger] pieces[j]).transfer_flags != 1,
    ensures
        fed(chat, local_mac, device, seq![announcement] + pieces) == gathering(
            chat,
            device,
            announcement,
            payload.len(),
            pieces,
        ),
    decreases pieces.len(),
{
    let packets = seq![announcement] + pieces;
    if pieces.len() == 0 {
        assert(packets.drop_last() =~= Seq::empty());
        assert(packets.last() == announcement);
        let after = gathering(chat, device, announcement, payload.len(), pieces);
        let taken = chat.with_packet(local_mac, device, announcement);
        assert(fed(chat, local_mac, device, packets.drop_last()) == chat);
        assert(taken.queue =~= after.queue);
        assert(taken == after);
    } else {
        let earlier = pieces.drop_last();
        assert forall|j: int| 0 <= j < earlier.len() implies piece_agrees(
            #[trigger] earlier[j],
            payload,
        ) && piece_of(earlier[j]).transfer_flags != 1 by {
            assert(earlier[j] == pieces[j]);
        }
        lemma_fed(chat, local_mac, device, announcement, payload, earlier);
        assert(packets.drop_last() =~= seq![announcement] + earlier);
        assert(packets.last() == pieces[pieces.len() - 1]);
        lemma_one_more_piece(
            chat,
            local_mac,
            device,
            announcement,
            payload,
            earlier,
            pieces.last(),
        );
        assert(earlier.push(pieces.last()) =~= pieces);
    }
}

/// The pieces before the last are pieces of the payload, and none of them is marked.
proof fn lemma_earlier_pieces(payload: Seq<u8>, pieces: Seq<Seq<u8>>, count: int)
    requires
        spell(pieces, payload),
        0 <= count < pieces.len(),
    ensures
        forall|j: int|
            0 <= j < count ==> piece_agrees(#[trigger] pieces.take(count)[j], payload),
        forall|j: int|
            0 <= j < count ==> piece_of(#[trigger] pieces.take(count)[j]).transfer_flags != 1,
        gathered(payload.len(), pieces.take(count)).len() == payload.len(),
{
    assert forall|j: int| 0 <= j < count implies piece_agrees(
        #[trigger] pieces.take(count)[j],
        payload,
    ) && piece_of(pieces.take(count)[j]).transfer_flags != 1 by {
        assert(pieces.take(count)[j] == pieces[j]);
    }
    lemma_gathered(payload, pieces.take(count));
}

/// The announcement of a transfer and each of its pieces can be taken in its turn, where the whole
/// can be read as what it is.
pub proof fn law_pieces_can_be_taken(
    chat: Chat,
    local_mac: MacAddress,
    device: LocalWifiClientDevice,
    announcement: Seq<u8>,
    pieces: Seq<Seq<u8>>,
    payload: Seq<u8>,
    count: int,
)
    requires
        device.assoc_id_num < 16,
        chat.members.len() == 16,
        payload.len() <= MAX_PACKET_ALLOC_SIZE,
        announces(announcement, payload),
        spell(pieces, payload),
        whole_readable(payload),
        0 <= count < pieces.len(),
    ensures
        chat.can_take(Some(announcement), device),
        fed(chat, local_mac, device, seq![announcement] + pieces.take(count)).can_take(
            Some(pieces[count]),
            device,
        ),
{
    lemma_earlier_pieces(payload, pieces, count);
    lemma_fed(chat, local_mac, device, announcement, payload, pieces.take(count));
    let buffer = gathered(payload.len(), pieces.take(count));
    assert(piece_agrees(pieces[count], payload));
    if count == pieces.len() - 1 {
        law_pieces_give_the_payload(payload, pieces);
        assert(pieces.drop_last() =~= pieces.take(count));
        assert(piece_written(buffer, pieces[count]) == payload);
    }
}

/// A transfer is received: when the last of its pieces is in, whatever their sizes and their order,
/// the application reads the payload, once, and every packet waits to be repeated, in order. The
/// console is a member, the buffer is given up, and nothing else has changed.
pub proof fn law_transfer_is_received(
    chat: Chat,
    local_mac: MacAddress,
    device: LocalWifiClientDevice,
    announcement: Seq<u8>,
    pieces: Seq<Seq<u8>>,
    payload: Seq<u8>,
)
    requires
        device.assoc_id_num < 16,
        chat.members.len() == 16,
        payload.len() <= MAX_PACKET_ALLOC_SIZE,
        announces(announcement, payload),
        spell(pieces, payload),
    ensures
        fed(chat, local_mac, device, seq![announcement] + pieces) == (Chat {
            buffer: None,
            ..gathering(chat, device, announcement, payload.len(), pieces.drop_last())
        }).received(local_mac, device, payload).with_job(ChatState::Echo, Some(pieces.last())),
{
    let packets = seq![announcement] + pieces;
    let count = pieces.len() - 1;
    lemma_earlier_pieces(payload, pieces, count);
    assert(pieces.take(count) =~= pieces.drop_last());
    lemma_fed(chat, local_mac, device, announcement, payload, pieces.drop_last());
    assert(packets.drop_last() =~= seq![announcement] + pieces.drop_last());
    assert(packets.last() == pieces[count]);
    assert(piece_agrees(pieces[count], payload));
    assert(piece_of(pieces[count]).transfer_flags == 1);
    law_pieces_give_the_payload(payload, pieces);
    let before = gathering(chat, device, announcement, payload.len(), pieces.drop_last());
    assert(before.members.update(device.assoc_id_num as int, device.addr) =~= before.members);
    assert(piece_written(before.buffer->0, pieces.last()) == payload);
}

/// The packets of a transfer and the last of them are repeated one after the other.
proof fn lemma_all_are_repeated(queue: Seq<Job>, announcement: Seq<u8>, pieces: Seq<Seq<u8>>)
    requires
        pieces.len() > 0,
    ensures
        (queue + echoes(repeated(announcement, pieces.drop_last()))).push(
            Job::new(ChatState::Echo, Some(pieces.last())),
        ) == queue + echoes(repeated(announcement, pieces)),
{
    assert((queue + echoes(repeated(announcement, pieces.drop_last()))).push(
        Job::new(ChatState::Echo, Some(pieces.last())),
    ) =~= queue + echoes(repeated(announcement, pieces)));
}

/// A message arrives: where a console announces a message and sends pieces that make it up, of any
/// size and in any order, the network is told of that message once, with all of its content and
/// with that console as its sender, and every packet is repeated, in order.
pub proof fn law_message_arrives(
    chat: Chat,
    local_mac: MacAddress,
    device: LocalWifiClientDevice,
    announcement: Seq<u8>,
    pieces: Seq<Seq<u8>>,
    payload: Seq<u8>,
)
    requires
        device.assoc_id_num < 16,
        chat.members.len() == 16,
        MESSAGE_HEADER <= payload.len() <= MAX_PACKET_ALLOC_SIZE,
        !is_console_id(payload),
        announces(announcement, payload),
        spell(pieces, payload),
        chat.outgoing is Some,
    ensures
        fed(chat, local_mac, device, seq![announcement] + pieces) == (Chat {
            members: chat.members.update(device.assoc_id_num as int, device.addr),
            buffer: None,
            outgoing: Some(
                (chat.outgoing->0).push(
                    Event::Message { sender: Some(device.addr@), content: payload.skip(36) },
                ),
            ),
            queue: chat.queue + echoes(repeated(announcement, pieces)),
            ..chat
        }),
{
    law_transfer_is_received(chat, local_mac, device, announcement, pieces, payload);
    lemma_all_are_repeated(chat.queue, announcement, pieces);
}

/// What the network is told of a message that was sent is what its sender put in.
pub proof fn law_message_content_is_kept(from: Seq<u8>, content: Seq<u8>)
    ensures
        message_payload(from, content).len() == MESSAGE_HEADER + content.len(),
        !is_console_id(message_payload(from, content)),
        message_payload(from, content).skip(36) == content,
{
    assert(message_payload(from, content)[1] == 2);
    assert(message_payload(from, content).skip(36) =~= content);
}

/// An identity arrives: where a console announces its identity and sends pieces that make it up, of
/// any size and in any order, the network is told once who joined. A console that was not known is
/// known from then on, and is welcomed before the last piece is repeated.
pub proof fn law_identity_arrives(
    chat: Chat,
    local_mac: MacAddress,
    device: LocalWifiClientDevice,
    announcement: Seq<u8>,
    pieces: Seq<Seq<u8>>,
    payload: Seq<u8>,
)
    requires
        device.assoc_id_num < 16,
        chat.members.len() == 16,
        payload.len() <= MAX_PACKET_ALLOC_SIZE,
        is_console_id(payload),
        holds_console_id(payload),
        announces(announcement, payload),
        spell(pieces, payload),
        chat.outgoing is Some,
    ensures
        ({
            let id = console_id_of(payload);
            let told = Chat {
                members: chat.members.update(device.assoc_id_num as int, device.addr),
                buffer: None,
                outgoing: Some((chat.outgoing->0).push(joined_event(device.addr, id))),
                ..chat
            };
            let after = fed(chat, local_mac, device, seq![announcement] + pieces);
            if chat.consoles.contains_key(device.addr.number()) {
                after == (Chat {
                    queue: chat.queue + echoes(repeated(announcement, pieces)),
                    ..told
                })
            } else {
                after == (Chat {
                    queue: chat.queue + echoes(repeated(announcement, pieces.drop_last())),
                    ..told
                }).welcoming(local_mac, device.addr, id).with_job(
                    ChatState::Echo,
                    Some(pieces.last()),
                )
            }
        }),
{
    law_transfer_is_received(chat, local_mac, device, announcement, pieces, payload);
    lemma_all_are_repeated(chat.queue, announcement, pieces);
}

/// What the network is told of an identity that was sent is what its console put in, with its texts
/// padded to their fields.
pub proof fn law_identity_is_kept(mac: MacAddress, id: ConsoleId)
    requires
        id.magic.len() == 2,
        id.magic[1] <= 1,
        id.to.len() == 6,
        utf16_valid(id.name),
        utf16_valid(id.bio),
        id.name.len() <= NAME_SIZE,
        id.bio.len() <= BIO_SIZE,
    ensures
        is_console_id(id.encoded()),
        holds_console_id(id.encoded()),
        joined_event(mac, console_id_of(id.encoded())) == (Event::State {
            mac: mac@,
            is_leaving: false,
            birthday: id.birth_day,
            birthmonth: id.birth_month,
            name: resized(id.name, NAME_SIZE as nat),
            bio: resized(id.bio, BIO_SIZE as nat),
        }),
{
    assert(id.encoded()[1] == id.magic[1]);
    law_console_id_round_trip(id);
}

/// Without a network a transfer is only repeated: nobody is told, and nobody is welcomed.
pub proof fn law_transfer_without_a_network(
    chat: Chat,
    local_mac: MacAddress,
    device: LocalWifiClientDevice,
    announcement: Seq<u8>,
    pieces: Seq<Seq<u8>>,
    payload: Seq<u8>,
)
    requires
        device.assoc_id_num < 16,
        chat.members.len() == 16,
        payload.len() <= MAX_PACKET_ALLOC_SIZE,
        announces(announcement, payload),
        spell(pieces, payload),
        chat.outgoing is None,
    ensures
        fed(chat, local_mac, device, seq![announcement] + pieces) == (Chat {
            members: chat.members.update(device.assoc_id_num as int, device.addr),
            buffer: None,
            queue: chat.queue + echoes(repeated(announcement, pieces)),
            ..chat
        }),
{
    law_transfer_is_received(chat, local_mac, device, announcement, pieces, payload);
    lemma_all_are_repeated(chat.queue, announcement, pieces);
}

/// The pieces in which the application sends a payload.
pub open spec fn own_pieces(payload: Seq<u8>) -> Seq<Seq<u8>> {
    Seq::new(total_chunks(payload.len()) as nat, |i: int| nth_piece(payload, i + 1))
}

/// The pieces in which the application sends a payload make it up, so that another application
/// receives what this one sends.
pub proof fn law_own_pieces_spell_the_payload(payload: Seq<u8>)
    requires
        0 < payload.len() < 0x1_0000,
    ensures
        spell(own_pieces(payload), payload),
{
    let pieces = own_pieces(payload);
    lemma_total_chunks(payload.len());
    assert forall|j: int| 0 <= j < pieces.len() implies piece_agrees(#[trigger] pieces[j], payload)
        && (piece_of(pieces[j]).transfer_flags == 1 <==> j == pieces.len() - 1) by {
        lemma_nth_piece(payload, j + 1);
        lemma_chunk(payload, j + 1);
    }
    assert forall|place: int| 0 <= place < payload.len() implies #[trigger] covered(
        pieces,
        place,
    ) by {
        let j = place / 180;
        lemma_nth_piece(payload, j + 1);
        lemma_chunk(payload, j + 1);
        assert(piece_covers(pieces[j], place));
    }
}

/// The pieces in which the application sends a payload, written one after the other into a buffer
/// of the announced size, give the payload.
pub proof fn law_transfer_carries_the_payload(payload: Seq<u8>)
    requires
        payload.len() < 0x1_0000,
    ensures
        gathered(payload.len(), own_pieces(payload)) == payload,
{
    lemma_total_chunks(payload.len());
    if payload.len() > 0 {
        law_own_pieces_spell_the_payload(payload);
        law_pieces_give_the_payload(payload, own_pieces(payload));
    } else {
        assert(gathered(payload.len(), own_pieces(payload)) =~= payload);
    }
}

/// An introduction takes four polls: each has a frame to send, and after the fourth the application
/// is idle.
pub proof fn law_introduction_takes_four_polls(chat: Chat, step: int)
    requires
        chat.state is IdentConsole,
        chat.tracker matches Some(job) && job.counter == step,
        0 <= step <= 3,
    ensures
        forall|magic: Seq<u8>| (#[trigger] chat.frame(magic)) is Some,
        step < 3 ==> chat.advanced().state == chat.state && chat.advanced().tracker == Some(
            Job { counter: (step + 1) as u16, ..chat.tracker->0 },
        ),
        step == 3 ==> chat.advanced().state == ChatState::Idle && chat.advanced().tracker is None,
{
}

/// A console that went is no longer a member, and the others stay in their places.
pub proof fn law_lost_console_is_no_member(
    members: Seq<MacAddress>,
    mac: MacAddress,
    place: int,
)
    requires
        0 <= place < members.len(),
    ensures
        members[place] != mac ==> without_member(members, mac)[place] == members[place],
        members[place] == mac ==> without_member(members, mac)[place]@ == zeros(6),
        mac@ != zeros(6) ==> without_member(members, mac)[place] != mac,
{
    let nobody = MacAddress { octets: [0, 0, 0, 0, 0, 0] };
    assert(nobody@ =~= zeros(6));
}

/// A console that sent a packet is a member, in the place of its number, and the others stay in
/// their places.
pub proof fn law_sender_is_a_member(
    chat: Chat,
    local_mac: MacAddress,
    device: LocalWifiClientDevice,
    packet: Seq<u8>,
    place: int,
)
    requires
        chat.members.len() == 16,
        chat.can_take(Some(packet), device),
        0 <= place < 16,
    ensures
        chat.with_packet(local_mac, device, packet).members[place] == if place
            == device.assoc_id_num {
            device.addr
        } else {
            chat.members[place]
        },
{
}

/// A console that is already known is not welcomed again: its identity is told to the network, and
/// nothing but the packet's echo is queued.
pub proof fn law_known_console_is_not_welcomed_again(
    chat: Chat,
    local_mac: MacAddress,
    device: LocalWifiClientDevice,
    packet: Seq<u8>,
)
    requires
        chat.can_take(Some(packet), device),
        packet[0] == 2,
        chat.consoles.contains_key(device.addr.number()),
    ensures
        chat.with_packet(local_mac, device, packet).queue == chat.queue.push(
            Job::new(ChatState::Echo, Some(packet)),
        ),
        chat.with_packet(local_mac, device, packet).consoles == chat.consoles,
{
}

/// Jobs are done in the order in which they came: a poll takes the first job that waits, if the
/// application is idle, and leaves the others in their order.
pub proof fn law_jobs_are_done_in_order(chat: Chat)
    ensures
        chat.state == ChatState::Idle && chat.queue.len() > 0 ==> {
            &&& chat.scheduled().state == chat.queue[0].state
            &&& chat.scheduled().tracker == Some(chat.queue[0])
            &&& chat.scheduled().queue == chat.queue.skip(1)
        },
        chat.state != ChatState::Idle ==> chat.scheduled() == chat,
{
}

/// An application after a number of polls.
pub open spec fn after_polls(chat: Chat, local_mac: MacAddress, polls: nat) -> Chat
    decreases polls,
{
    if polls == 0 {
        chat
    } else {
        after_polls(chat, local_mac, (polls - 1) as nat).polled(local_mac).advanced()
    }
}

/// A message from the network becomes the job at hand, and stays it until its last piece is out.
proof fn lemma_message_is_at_hand(chat: Chat, local_mac: MacAddress, polls: nat)
    requires
        chat.state == ChatState::Idle,
        chat.queue.len() == 0,
        chat.incoming matches Some(events) && events.len() > 0 && events[0] is Message,
        message_payload(local_mac@, (chat.incoming->0)[0]->content).len() < 0x1_0000,
        polls <= total_chunks(
            message_payload(local_mac@, (chat.incoming->0)[0]->content).len(),
        ),
    ensures
        ({
            let payload = message_payload(local_mac@, (chat.incoming->0)[0]->content);
            let polled = after_polls(chat, local_mac, polls).polled(local_mac);
            &&& polled.state == ChatState::TXTransfer
            &&& polled.tracker == Some(transfer_job(payload, polls as int))
        }),
    decreases polls,
{
    let payload = message_payload(local_mac@, (chat.incoming->0)[0]->content);
    lemma_total_chunks(payload.len());
    if polls == 0 {
        let listened = chat.counted().listened(local_mac);
        assert(listened.queue[0] == Job::new(ChatState::TXTransfer, Some(payload)));
        assert(listened.queue[0] == transfer_job(payload, 0));
    } else {
        let earlier = (polls - 1) as nat;
        lemma_message_is_at_hand(chat, local_mac, earlier);
        let before = after_polls(chat, local_mac, earlier).polled(local_mac);
        law_transfer_progresses(before, payload, earlier as int);
    }
}

/// A message goes out: where an idle application has a message from the network, the next poll
/// announces it, the polls after that carry its pieces one by one, and after the last piece the
/// application is idle.
pub proof fn law_message_goes_out(chat: Chat, local_mac: MacAddress, polls: nat, magic: Seq<u8>)
    requires
        chat.state == ChatState::Idle,
        chat.queue.len() == 0,
        chat.incoming matches Some(events) && events.len() > 0 && events[0] is Message,
        message_payload(local_mac@, (chat.incoming->0)[0]->content).len() < 0x1_0000,
        polls <= total_chunks(
            message_payload(local_mac@, (chat.incoming->0)[0]->content).len(),
        ),
    ensures
        ({
            let payload = message_payload(local_mac@, (chat.incoming->0)[0]->content);
            let polled = after_polls(chat, local_mac, polls).polled(local_mac);
            let total = total_chunks(payload.len());
            &&& polled.frame(magic) == if polls == 0 {
                Some(
                    chat_frame(
                        29,
                        type1_packet(0, payload.len() as u16, message_announcement_magic()),
                        polled.seq_no,
                    ),
                )
            } else {
                Some(
                    chat_frame(
                        if polls == total {
                            158
                        } else {
                            30
                        },
                        nth_piece(payload, polls as int),
                        polled.seq_no,
                    ),
                )
            }
            &&& polls == total ==> polled.advanced().state == ChatState::Idle
        }),
{
    let payload = message_payload(local_mac@, (chat.incoming->0)[0]->content);
    lemma_total_chunks(payload.len());
    lemma_message_is_at_hand(chat, local_mac, polls);
}

/// Whether a host with this chat application is sound: it is at rest, its console mask names
/// exactly the connected consoles, and its application is steady.
pub open spec fn host_sound<T: LocalWifiApplicationLayer>(
    driver: DriverState<T>,
    chat: Chat,
) -> bool {
    driver.resting() && driver.mask_matches() && chat.steady()
}

/// Whether a reply carries an even payload, or none at all.
pub open spec fn even_reply(packet: Inbound) -> bool {
    packet.data matches Some(bytes) ==> carries_payload(bytes) ==> (client_frame(
        bytes,
    ).payload->0).len() % 2 == 0
}

/// Whether what a host finds fits what it knows: client events that it expects, and replies with
/// even payloads.
pub open spec fn host_expects<T: LocalWifiApplicationLayer>(
    driver: DriverState<T>,
    found: Found,
) -> bool {
    &&& found.event matches Some(event) ==> driver.expects(event)
    &&& found.packet matches Some(packet) ==> even_reply(packet)
}

/// A reply leaves a sound host sound.
proof fn lemma_reply_keeps_host_sound(
    driver: DriverState<PictochatAppDriver>,
    packet: Inbound,
    after: DriverState<PictochatAppDriver>,
)
    requires
        host_sound(driver, (driver.ledger.app->0)@),
        driver.can_receive(packet),
        even_reply(packet),
        driver.receives(packet, after),
    ensures
        host_sound(after, (after.ledger.app->0)@),
{
    let device = driver.client(packet.mac);
    let replied = driver.replied(device.assoc_id);
    assert(host_sound(replied, (replied.ledger.app->0)@));
    if let Some(bytes) = packet.data {
        if carries_payload(bytes) {
            let frame = client_frame(bytes);
            let before = driver.ledger.app->0;
            let (app, layer) = choose|app: PictochatAppDriver, layer: LayerState| #[trigger]
                PictochatAppDriver::packet_effect(
                    replied.ledger.app->0,
                    replied.layer,
                    frame,
                    device,
                    app,
                    layer,
                ) && replied.layer.used(layer) && after == replied.returned(app, layer);
            law_packet_keeps_application_steady(
                before@,
                driver.layer.local_mac,
                device,
                frame.payload->0,
            );
        }
    }
}

/// A poll leaves a sound host sound.
proof fn lemma_poll_keeps_host_sound(
    driver: DriverState<PictochatAppDriver>,
    after: DriverState<PictochatAppDriver>,
)
    requires
        host_sound(driver, (driver.ledger.app->0)@),
        driver.can_send(),
        driver.sends(after),
    ensures
        host_sound(after, (after.ledger.app->0)@),
{
    if (driver.layer.frame->0).rx_console_mask == 0 {
        let before = driver.ledger.app->0;
        let asked = LayerState { frame: None, ..driver.layer };
        let (app, layer) = choose|app: PictochatAppDriver, layer: LayerState| #[trigger]
            PictochatAppDriver::fill_effect(before, asked, app, layer) && asked.used(layer)
                && layer.frame is Some && after == driver.returned(app, layer).transmitted();
        let magic = choose|magic: Seq<u8>| magic.len() == 4 && #[trigger] filled(
            before@,
            asked,
            app@,
            layer,
            magic,
        );
        law_poll_keeps_application_steady(before@, asked.local_mac);
        law_poll_asks_every_console(before@, asked, app@, layer, magic);
    }
}

/// Every step of its cycle leaves a sound host sound.
pub proof fn law_host_stays_sound(
    driver: DriverState<PictochatAppDriver>,
    phase: DriverPhase,
    found: Found,
    after: DriverState<PictochatAppDriver>,
    next: DriverPhase,
)
    requires
        host_sound(driver, (driver.ledger.app->0)@),
        host_expects(driver, found),
        driver.can_step(phase, found),
        driver.steps(phase, found, after, next),
    ensures
        host_sound(after, (after.ledger.app->0)@),
{
    match phase {
        DriverPhase::Events => {
            if let Some(event) = found.event {
                let before = driver.ledger.app->0;
                let app = choose|app: PictochatAppDriver| #[trigger]
                    PictochatAppDriver::event_effect(before, event, app) && after
                        == driver.connecting(event).returned(app, driver.connecting(event).layer);
                law_event_keeps_application_steady(before@, event);
                law_mask_matches_after_events(driver, event);
            }
        },
        DriverPhase::Drain { left } => {
            if left > 0 {
                if let Some(packet) = found.packet {
                    let taken = choose|taken: DriverState<PictochatAppDriver>| #[trigger]
                        driver.receives(packet, taken) && after == taken.timed(
                            elapsed(found.now_us, packet.handed_on),
                        );
                    lemma_reply_keeps_host_sound(driver, packet, taken);
                }
            } else {
                let reported = driver.reported();
                assert(host_sound(reported, (reported.ledger.app->0)@));
                if driver.ledger.clients.len() > 0 {
                    lemma_poll_keeps_host_sound(reported, after);
                }
            }
        },
        DriverPhase::Await { mask } => {
            if mask != 0 && !found.window_over {
                if let Some(packet) = found.packet {
                    let taken = choose|taken: DriverState<PictochatAppDriver>| #[trigger]
                        driver.receives(packet, taken) && after == taken.timed_awaited(
                            elapsed(found.now_us, packet.handed_on),
                            elapsed(found.now_us, packet.received),
                        );
                    lemma_reply_keeps_host_sound(driver, packet, taken);
                }
            }
        },
    }
}

/// A host that has just been set up is sound.
pub proof fn law_host_starts_sound(
    driver: DriverState<PictochatAppDriver>,
    app: PictochatAppDriver,
    local_mac: [u8; 6],
    after: DriverState<PictochatAppDriver>,
)
    requires
        driver.begins(app, local_mac),
        app@.state == ChatState::Idle,
        app@.queue.len() == 0,
        app@.incoming matches Some(events) ==> events.len() == 0,
        driver.sets_up(after),
    ensures
        host_sound(after, (after.ledger.app->0)@),
{
    let (set_up, layer) = choose|set_up: PictochatAppDriver, layer: LayerState| #[trigger]
        PictochatAppDriver::setup_effect(app, driver.layer, set_up, layer) && driver.layer.used(
            layer,
        ) && after == driver.returned(set_up, layer);
    law_mask_matches_at_the_start(driver, app, local_mac);
    law_application_starts_steady(app@, driver.layer.local_mac);
}

} // verus!
