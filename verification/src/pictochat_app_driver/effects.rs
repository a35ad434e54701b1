//! What each event, each packet and each poll does to the chat application: what becomes of every
//! part of it, and what is left alone.

use crate::ds_local_wifi_driver::frames::ClientFrame;
use crate::ds_local_wifi_driver::layer::{
    Action, BeaconType, ClientEvents, LayerState, LocalWifiApplicationLayer, LocalWifiClientDevice,
};
use crate::mac_address::MacAddress;
use crate::pictochat_app_driver::chat::{piece_written, Chat};
use crate::pictochat_app_driver::events::{ChatState, Event, Job};
use crate::pictochat_app_driver::pictochat_app_driver::{filled, PictochatAppDriver};
use crate::pictochat_app_driver::pictochat_packets::{message_payload, ConsoleId};
use crate::wide_string::{law_text_round_trip, utf16_decoded, utf16_valid};
use vstd::prelude::*;

verus! {

impl Chat {
    /// Whether another application has the same work before it: the same job at hand and the same
    /// jobs that wait.
    pub open spec fn same_work(self, other: Chat) -> bool {
        &&& other.state == self.state
        &&& other.tracker == self.tracker
        &&& other.queue == self.queue
    }

    /// Whether another application has told and been told the same, and knows the same consoles.
    pub open spec fn same_talk(self, other: Chat) -> bool {
        &&& other.incoming == self.incoming
        &&& other.outgoing == self.outgoing
        &&& other.consoles == self.consoles
    }

    /// Whether another application is the same in what only its setup gives it, and in what nothing
    /// changes.
    pub open spec fn same_host(self, other: Chat) -> bool {
        &&& other.identity == self.identity
        &&& other.i == self.i
        &&& other.next_pkt == self.next_pkt
        &&& other.read_offset == self.read_offset
        &&& other.current_note == self.current_note
    }
}

/// A console that comes or goes changes nothing of the application but the member list: all work,
/// the transfer that comes in, the events and the known consoles stay. One that comes is no member
/// yet. The places of one that goes hold the zero address, and every other place is as it was.
pub proof fn law_event_changes_only_the_members(
    before: PictochatAppDriver,
    event: ClientEvents,
    after: PictochatAppDriver,
)
    requires
        PictochatAppDriver::event_effect(before, event, after),
    ensures
        before@.same_work(after@),
        before@.same_talk(after@),
        before@.same_host(after@),
        after@.seq_no == before@.seq_no,
        after@.buffer == before@.buffer,
        event is NewClient ==> after@.members == before@.members,
        event matches ClientEvents::LostClient((mac, _)) ==> {
            &&& after@.members.len() == before@.members.len()
            &&& forall|place: int|
                0 <= place < before@.members.len() ==> {
                    let member = before@.members[place];
                    #[trigger] after@.members[place] == if member == mac {
                        MacAddress { octets: [0, 0, 0, 0, 0, 0] }
                    } else {
                        member
                    }
                }
        },
{
}

/// Which packets the application takes: every one that is not empty, from a console with a place in
/// the member list. An announcement has to be whole, and a piece has to fit the transfer that comes
/// in, if there is one.
pub proof fn law_which_packets_are_taken(
    app: PictochatAppDriver,
    data_frame: ClientFrame,
    device: LocalWifiClientDevice,
)
    requires
        device.assoc_id_num < 16,
        data_frame.payload matches Some(packet) && packet.len() >= 1,
    ensures
        (data_frame.payload->0)[0] == 0 ==> (app.can_take(data_frame, device) <==> (
        data_frame.payload->0).len() >= 20),
        (data_frame.payload->0)[0] == 2 && app@.buffer is None ==> app.can_take(data_frame, device),
        (data_frame.payload->0)[0] != 0 && (data_frame.payload->0)[0] != 2 ==> app.can_take(
            data_frame,
            device,
        ),
{
}

/// Which pieces are taken while a transfer comes in: those that carry something, for a place within
/// the transfer. The last one has to leave a transfer that can be read: of a message, all of its
/// fixed part; of an identity, all 84 bytes with well-formed texts.
pub proof fn law_which_pieces_are_taken(
    app: PictochatAppDriver,
    data_frame: ClientFrame,
    device: LocalWifiClientDevice,
)
    requires
        device.assoc_id_num < 16,
        data_frame.payload matches Some(packet) && packet.len() >= 12 && packet[0] == 2,
        app@.buffer is Some,
    ensures
        ({
            let packet = data_frame.payload->0;
            let buffer = app@.buffer->0;
            let fits = packet[6] != 0 && packet[8] + 256 * packet[9] + packet[6] <= buffer.len();
            &&& !fits ==> !app.can_take(data_frame, device)
            &&& fits && packet[7] != 1 ==> app.can_take(data_frame, device)
            &&& fits && packet[7] == 1 && buffer.len() >= 2 && byte_after(buffer, packet, 1) > 1
                ==> (app.can_take(data_frame, device) <==> buffer.len() >= 36)
            &&& fits && packet[7] == 1 && buffer.len() >= 2 && byte_after(buffer, packet, 1) <= 1
                ==> (app.can_take(data_frame, device) <==> {
                &&& buffer.len() >= 84
                &&& utf16_valid(Seq::new(20, |i: int| byte_after(buffer, packet, 8 + i)))
                &&& utf16_valid(Seq::new(52, |i: int| byte_after(buffer, packet, 28 + i)))
            })
        }),
{
    let packet = data_frame.payload->0;
    let buffer = app@.buffer->0;
    if packet[6] != 0 {
        lemma_byte_after(buffer, packet);
        let whole = piece_written(buffer, packet);
        if buffer.len() >= 2 {
            assert(whole[1] == byte_after(buffer, packet, 1));
        }
        if buffer.len() >= 84 {
            assert(whole.subrange(8, 28) =~= Seq::new(
                20,
                |i: int| byte_after(buffer, packet, 8 + i),
            ));
            assert(whole.subrange(28, 80) =~= Seq::new(
                52,
                |i: int| byte_after(buffer, packet, 28 + i),
            ));
        }
    }
}

/// A packet makes its sender a member, in the place of its number, and moves no other member. The
/// poll's frame and the beacons stay, and so do the job at hand, the events from the network and
/// who the host is. Jobs that wait are neither lost nor moved: at most some are added behind them.
pub proof fn law_packet_leaves_the_rest_alone(
    before: PictochatAppDriver,
    layer: LayerState,
    data_frame: ClientFrame,
    device: LocalWifiClientDevice,
    after: PictochatAppDriver,
    layer_after: LayerState,
)
    requires
        before.can_take(data_frame, device),
        PictochatAppDriver::packet_effect(before, layer, data_frame, device, after, layer_after),
    ensures
        layer_after == layer,
        after@.state == before@.state,
        after@.tracker == before@.tracker,
        after@.seq_no == before@.seq_no,
        after@.incoming == before@.incoming,
        before@.same_host(after@),
        before@.queue.is_prefix_of(after@.queue),
        after@.members.len() == 16,
        forall|place: int|
            0 <= place < 16 ==> #[trigger] after@.members[place] == if place
                == device.assoc_id_num {
                device.addr
            } else {
                before@.members[place]
            },
{
    assert(before@.queue.is_prefix_of(after@.queue)) by {
        assert(before@.queue.len() <= after@.queue.len());
        assert(after@.queue.subrange(0, before@.queue.len() as int) =~= before@.queue);
    }
}

/// A packet of a type that the room knows nothing of does no more than that.
pub proof fn law_other_packets_do_nothing(
    before: PictochatAppDriver,
    layer: LayerState,
    data_frame: ClientFrame,
    device: LocalWifiClientDevice,
    after: PictochatAppDriver,
    layer_after: LayerState,
)
    requires
        before.can_take(data_frame, device),
        PictochatAppDriver::packet_effect(before, layer, data_frame, device, after, layer_after),
        (data_frame.payload->0)[0] != 0,
        (data_frame.payload->0)[0] != 2,
        (data_frame.payload->0)[0] != 6,
    ensures
        before@.same_work(after@),
        before@.same_talk(after@),
        after@.buffer == before@.buffer,
{
}

/// A console that asks to join is to be answered: one job for that waits, behind all others.
pub proof fn law_join_request_waits(
    before: PictochatAppDriver,
    layer: LayerState,
    data_frame: ClientFrame,
    device: LocalWifiClientDevice,
    after: PictochatAppDriver,
    layer_after: LayerState,
)
    requires
        before.can_take(data_frame, device),
        PictochatAppDriver::packet_effect(before, layer, data_frame, device, after, layer_after),
        (data_frame.payload->0)[0] == 6,
    ensures
        after@.queue == before@.queue.push(
            Job { state: ChatState::NewClient, payload: None, counter: 0, offset: 0 },
        ),
        before@.same_talk(after@),
        after@.buffer == before@.buffer,
{
}

/// An announcement sets aside a buffer of the size that it announces, all zeros, unless that size
/// is over 16384 bytes, and waits to be repeated: as it came, but that its first byte is 1.
pub proof fn law_announcement_is_noted(
    before: PictochatAppDriver,
    layer: LayerState,
    data_frame: ClientFrame,
    device: LocalWifiClientDevice,
    after: PictochatAppDriver,
    layer_after: LayerState,
)
    requires
        before.can_take(data_frame, device),
        PictochatAppDriver::packet_effect(before, layer, data_frame, device, after, layer_after),
        (data_frame.payload->0)[0] == 0,
    ensures
        ({
            let packet = data_frame.payload->0;
            let size = packet[8] + 256 * packet[9];
            &&& before@.same_talk(after@)
            &&& size > 16384 ==> after@.buffer == before@.buffer
            &&& size <= 16384 ==> {
                &&& after@.buffer matches Some(buffer)
                &&& buffer.len() == size
                &&& forall|i: int| 0 <= i < size ==> #[trigger] buffer[i] == 0
            }
            &&& after@.queue.len() == before@.queue.len() + 1
            &&& after@.queue.drop_last() == before@.queue
            &&& after@.queue.last() matches Job { state, payload, counter, offset } && {
                &&& state == ChatState::Echo
                &&& counter == 0
                &&& offset == 0
                &&& payload matches Some(repeated)
                &&& repeated.len() == packet.len()
                &&& repeated[0] == 1
                &&& forall|i: int| 0 < i < packet.len() ==> #[trigger] repeated[i] == packet[i]
            }
        }),
{
    assert(after@.queue.drop_last() =~= before@.queue);
}

/// The byte at a place of a transfer after a piece came in: the piece's, where the piece covers
/// that place, and the one that was there elsewhere. The piece says its length and its offset;
/// where it is cut short, it counts as zeros.
pub open spec fn byte_after(buffer: Seq<u8>, packet: Seq<u8>, place: int) -> u8 {
    let length = packet[6] as int;
    let offset = packet[8] + 256 * packet[9];
    if offset <= place < offset + length {
        if 12 + length <= packet.len() {
            packet[12 + place - offset]
        } else {
            0u8
        }
    } else {
        buffer[place]
    }
}

/// What `piece_written` gives, place by place.
proof fn lemma_byte_after(buffer: Seq<u8>, packet: Seq<u8>)
    requires
        packet.len() >= 12,
        packet[6] != 0,
    ensures
        piece_written(buffer, packet).len() == buffer.len(),
        forall|i: int|
            0 <= i < buffer.len() ==> #[trigger] piece_written(buffer, packet)[i] == byte_after(
                buffer,
                packet,
                i,
            ),
{
}

/// A piece for which no buffer was set aside is only repeated, as it came.
pub proof fn law_stray_piece_is_only_repeated(
    before: PictochatAppDriver,
    layer: LayerState,
    data_frame: ClientFrame,
    device: LocalWifiClientDevice,
    after: PictochatAppDriver,
    layer_after: LayerState,
)
    requires
        before.can_take(data_frame, device),
        PictochatAppDriver::packet_effect(before, layer, data_frame, device, after, layer_after),
        (data_frame.payload->0)[0] == 2,
        before@.buffer is None,
    ensures
        before@.same_talk(after@),
        after@.buffer is None,
        after@.queue == before@.queue.push(
            Job { state: ChatState::Echo, payload: data_frame.payload, counter: 0, offset: 0 },
        ),
{
}

/// A piece that is not the last is written into the buffer, at its offset, and repeated as it came.
pub proof fn law_piece_is_written_and_repeated(
    before: PictochatAppDriver,
    layer: LayerState,
    data_frame: ClientFrame,
    device: LocalWifiClientDevice,
    after: PictochatAppDriver,
    layer_after: LayerState,
)
    requires
        before.can_take(data_frame, device),
        PictochatAppDriver::packet_effect(before, layer, data_frame, device, after, layer_after),
        (data_frame.payload->0)[0] == 2,
        (data_frame.payload->0)[7] != 1,
        before@.buffer is Some,
    ensures
        before@.same_talk(after@),
        after@.queue == before@.queue.push(
            Job { state: ChatState::Echo, payload: data_frame.payload, counter: 0, offset: 0 },
        ),
        after@.buffer matches Some(buffer) && {
            &&& buffer.len() == (before@.buffer->0).len()
            &&& forall|i: int|
                0 <= i < buffer.len() ==> #[trigger] buffer[i] == byte_after(
                    before@.buffer->0,
                    data_frame.payload->0,
                    i,
                )
        },
{
    lemma_byte_after(before@.buffer->0, data_frame.payload->0);
}

/// The last piece of a message ends the transfer: the network, where there is one, is told of one
/// message of that console, which is all that follows the first 36 bytes. The piece is repeated as
/// it came, and the buffer is given up.
pub proof fn law_last_piece_of_a_message(
    before: PictochatAppDriver,
    layer: LayerState,
    data_frame: ClientFrame,
    device: LocalWifiClientDevice,
    after: PictochatAppDriver,
    layer_after: LayerState,
)
    requires
        before.can_take(data_frame, device),
        PictochatAppDriver::packet_effect(before, layer, data_frame, device, after, layer_after),
        (data_frame.payload->0)[0] == 2,
        (data_frame.payload->0)[7] == 1,
        before@.buffer is Some,
        byte_after(before@.buffer->0, data_frame.payload->0, 1) > 1,
    ensures
        after@.buffer is None,
        after@.incoming == before@.incoming,
        after@.consoles == before@.consoles,
        after@.queue == before@.queue.push(
            Job { state: ChatState::Echo, payload: data_frame.payload, counter: 0, offset: 0 },
        ),
        before@.outgoing is None ==> after@.outgoing is None,
        before@.outgoing matches Some(told) ==> {
            &&& after@.outgoing matches Some(telling)
            &&& telling.len() == told.len() + 1
            &&& telling.drop_last() == told
            &&& telling.last() matches Event::Message { sender, content }
            &&& sender == Some(device.addr.octets@)
            &&& content.len() == (before@.buffer->0).len() - 36
            &&& forall|i: int|
                0 <= i < content.len() ==> #[trigger] content[i] == byte_after(
                    before@.buffer->0,
                    data_frame.payload->0,
                    36 + i,
                )
        },
{
    let buffer = before@.buffer->0;
    let packet = data_frame.payload->0;
    lemma_byte_after(buffer, packet);
    let whole = piece_written(buffer, packet);
    assert(whole[1] == byte_after(buffer, packet, 1));
    if let Some(told) = before@.outgoing {
        let telling = after@.outgoing->0;
        assert(telling.drop_last() =~= told);
        assert(telling.last()->content == whole.skip(36));
        assert forall|i: int| 0 <= i < whole.len() - 36 implies #[trigger] whole.skip(36)[i]
            == byte_after(buffer, packet, 36 + i) by {
            assert(whole[36 + i] == byte_after(buffer, packet, 36 + i));
        }
    }
}

/// Without a network nothing comes of an identity: its last piece is only repeated.
pub proof fn law_last_piece_of_an_identity_without_a_network(
    before: PictochatAppDriver,
    layer: LayerState,
    data_frame: ClientFrame,
    device: LocalWifiClientDevice,
    after: PictochatAppDriver,
    layer_after: LayerState,
)
    requires
        before.can_take(data_frame, device),
        PictochatAppDriver::packet_effect(before, layer, data_frame, device, after, layer_after),
        (data_frame.payload->0)[0] == 2,
        (data_frame.payload->0)[7] == 1,
        before@.buffer is Some,
        before@.outgoing is None,
    ensures
        before@.same_talk(after@),
        after@.buffer is None,
        after@.queue == before@.queue.push(
            Job { state: ChatState::Echo, payload: data_frame.payload, counter: 0, offset: 0 },
        ),
{
}

/// The last piece of an identity ends the transfer: the network is told once who joined, under
/// which address, with the name, the biography and the birthday that the console sent.
pub proof fn law_last_piece_of_an_identity(
    before: PictochatAppDriver,
    layer: LayerState,
    data_frame: ClientFrame,
    device: LocalWifiClientDevice,
    after: PictochatAppDriver,
    layer_after: LayerState,
)
    requires
        before.can_take(data_frame, device),
        PictochatAppDriver::packet_effect(before, layer, data_frame, device, after, layer_after),
        (data_frame.payload->0)[0] == 2,
        (data_frame.payload->0)[7] == 1,
        before@.buffer is Some,
        byte_after(before@.buffer->0, data_frame.payload->0, 1) <= 1,
        before@.outgoing is Some,
    ensures
        after@.buffer is None,
        after@.incoming == before@.incoming,
        ({
            let packet = data_frame.payload->0;
            let buffer = before@.buffer->0;
            &&& after@.outgoing matches Some(telling)
            &&& telling.len() == (before@.outgoing->0).len() + 1
            &&& telling.drop_last() == before@.outgoing->0
            &&& telling.last() matches Event::State {
                mac,
                is_leaving,
                birthday,
                birthmonth,
                name,
                bio,
            }
            &&& mac == device.addr.octets@
            &&& !is_leaving
            &&& birthday == byte_after(buffer, packet, 82)
            &&& birthmonth == byte_after(buffer, packet, 83)
            &&& name.len() == 20
            &&& forall|i: int|
                0 <= i < 20 ==> #[trigger] name[i] == byte_after(buffer, packet, 8 + i)
            &&& bio.len() == 52
            &&& forall|i: int|
                0 <= i < 52 ==> #[trigger] bio[i] == byte_after(buffer, packet, 28 + i)
        }),
{
    let buffer = before@.buffer->0;
    let packet = data_frame.payload->0;
    lemma_byte_after(buffer, packet);
    let whole = piece_written(buffer, packet);
    assert(whole[1] == byte_after(buffer, packet, 1));
    let telling = after@.outgoing->0;
    assert(telling.drop_last() =~= before@.outgoing->0);
    assert(whole[82] == byte_after(buffer, packet, 82));
    assert(whole[83] == byte_after(buffer, packet, 83));
    assert forall|i: int| 0 <= i < 20 implies #[trigger] whole.subrange(8, 28)[i] == byte_after(
        buffer,
        packet,
        8 + i,
    ) by {
        assert(whole[8 + i] == byte_after(buffer, packet, 8 + i));
    }
    assert forall|i: int| 0 <= i < 52 implies #[trigger] whole.subrange(28, 80)[i] == byte_after(
        buffer,
        packet,
        28 + i,
    ) by {
        assert(whole[28 + i] == byte_after(buffer, packet, 28 + i));
    }
}

/// A console that is known already is not welcomed again when it identifies itself: its last piece
/// is repeated, and no other job is added.
pub proof fn law_known_console_is_only_repeated(
    before: PictochatAppDriver,
    layer: LayerState,
    data_frame: ClientFrame,
    device: LocalWifiClientDevice,
    after: PictochatAppDriver,
    layer_after: LayerState,
)
    requires
        before.can_take(data_frame, device),
        PictochatAppDriver::packet_effect(before, layer, data_frame, device, after, layer_after),
        (data_frame.payload->0)[0] == 2,
        before@.consoles.contains_key(device.addr.number()),
    ensures
        after@.consoles == before@.consoles,
        after@.queue == before@.queue.push(
            Job { state: ChatState::Echo, payload: data_frame.payload, counter: 0, offset: 0 },
        ),
{
}

/// A console that identifies itself for the first time is known from then on, by what it sent, and
/// is welcomed. After all jobs that waited come a member list, the introduction of the host,
/// another member list, and one request for each known console, numbered from 1. The console's last
/// piece is repeated after that.
pub proof fn law_new_console_is_welcomed(
    before: PictochatAppDriver,
    layer: LayerState,
    data_frame: ClientFrame,
    device: LocalWifiClientDevice,
    after: PictochatAppDriver,
    layer_after: LayerState,
)
    requires
        before.can_take(data_frame, device),
        PictochatAppDriver::packet_effect(before, layer, data_frame, device, after, layer_after),
        (data_frame.payload->0)[0] == 2,
        (data_frame.payload->0)[7] == 1,
        before@.buffer is Some,
        byte_after(before@.buffer->0, data_frame.payload->0, 1) <= 1,
        before@.outgoing is Some,
        !before@.consoles.contains_key(device.addr.number()),
    ensures
        ({
            let packet = data_frame.payload->0;
            let buffer = before@.buffer->0;
            let id = after@.consoles[device.addr.number()];
            &&& after@.consoles.dom() == before@.consoles.dom().insert(device.addr.number())
            &&& forall|k: u64| #[trigger]
                before@.consoles.contains_key(k) ==> after@.consoles[k] == before@.consoles[k]
            &&& id.name.len() == 20
            &&& forall|i: int|
                0 <= i < 20 ==> #[trigger] id.name[i] == byte_after(buffer, packet, 8 + i)
            &&& id.bio.len() == 52
            &&& forall|i: int|
                0 <= i < 52 ==> #[trigger] id.bio[i] == byte_after(buffer, packet, 28 + i)
            &&& id.colour == byte_after(buffer, packet, 80) + 256 * byte_after(buffer, packet, 81)
            &&& id.birth_day == byte_after(buffer, packet, 82)
            &&& id.birth_month == byte_after(buffer, packet, 83)
        }),
        ({
            let first = before@.queue.len() as int;
            let known = after@.consoles.len() as int;
            let queue = after@.queue;
            &&& queue.len() == first + 3 + known + 1
            &&& queue.take(first) == before@.queue
            &&& queue[first] == (Job {
                state: ChatState::Idle,
                payload: None,
                counter: 0,
                offset: 0,
            })
            &&& queue[first + 1] == (Job {
                state: ChatState::IdentConsole {
                    mac: layer.local_mac.octets@,
                    id: before@.identity,
                },
                payload: None,
                counter: 0,
                offset: 0,
            })
            &&& queue[first + 2] == queue[first]
            &&& forall|i: int|
                0 <= i < known ==> #[trigger] queue[first + 3 + i] == (Job {
                    state: ChatState::RequestIdent { console_id: ((i + 1) % 0x1_0000) as u16 },
                    payload: None,
                    counter: 0,
                    offset: 0,
                })
            &&& queue.last() == (Job {
                state: ChatState::Echo,
                payload: data_frame.payload,
                counter: 0,
                offset: 0,
            })
        }),
{
    let buffer = before@.buffer->0;
    let packet = data_frame.payload->0;
    lemma_byte_after(buffer, packet);
    let whole = piece_written(buffer, packet);
    let first = before@.queue.len() as int;
    assert(whole[1] == byte_after(buffer, packet, 1));
    assert(after@.consoles.dom() =~= before@.consoles.dom().insert(device.addr.number()));
    assert(whole[80] == byte_after(buffer, packet, 80));
    assert(whole[81] == byte_after(buffer, packet, 81));
    assert(whole[82] == byte_after(buffer, packet, 82));
    assert(whole[83] == byte_after(buffer, packet, 83));
    assert forall|i: int| 0 <= i < 20 implies #[trigger] whole.subrange(8, 28)[i] == byte_after(
        buffer,
        packet,
        8 + i,
    ) by {
        assert(whole[8 + i] == byte_after(buffer, packet, 8 + i));
    }
    assert forall|i: int| 0 <= i < 52 implies #[trigger] whole.subrange(28, 80)[i] == byte_after(
        buffer,
        packet,
        28 + i,
    ) by {
        assert(whole[28 + i] == byte_after(buffer, packet, 28 + i));
    }
    assert(after@.queue.take(first) =~= before@.queue);
}

/// A poll counts itself, takes the first event from the network, if one waits, and sets nothing of
/// the layer but the frame. Members, known consoles, the events for the network, the transfer that
/// comes in and who the host is stay as they were.
pub proof fn law_poll_leaves_the_rest_alone(
    before: PictochatAppDriver,
    layer: LayerState,
    after: PictochatAppDriver,
    layer_after: LayerState,
)
    requires
        before.can_fill(),
        PictochatAppDriver::fill_effect(before, layer, after, layer_after),
    ensures
        after@.seq_no == before@.seq_no + 1,
        after@.members == before@.members,
        after@.outgoing == before@.outgoing,
        after@.consoles == before@.consoles,
        after@.buffer == before@.buffer,
        before@.same_host(after@),
        match before@.incoming {
            None => after@.incoming is None,
            Some(events) => after@.incoming == Some(
                if events.len() > 0 {
                    events.skip(1)
                } else {
                    events
                },
            ),
        },
        layer_after == (LayerState { frame: layer_after.frame, ..layer }),
{
    let magic = choose|magic: Seq<u8>| magic.len() == 4 && #[trigger] filled(
        before@,
        layer,
        after@,
        layer_after,
        magic,
    );
    assert(filled(before@, layer, after@, layer_after, magic));
}

/// A poll that takes a message from the network adds exactly one job for it, behind all that wait,
/// whatever the application is doing and however much waits. No job is lost or moved: an idle
/// application takes the first, and a busy one takes none. Only where it was idle and nothing else
/// waited is the message at hand at once.
pub proof fn law_poll_queues_every_message(
    before: PictochatAppDriver,
    layer: LayerState,
    after: PictochatAppDriver,
    layer_after: LayerState,
)
    requires
        before.can_fill(),
        PictochatAppDriver::fill_effect(before, layer, after, layer_after),
        before@.incoming matches Some(events) && events.len() > 0,
    ensures
        (before@.incoming->0)[0] matches Event::Message { content, .. } && {
            let job = Job {
                state: ChatState::TXTransfer,
                payload: Some(message_payload(layer.local_mac.octets@, content)),
                counter: 0,
                offset: 0,
            };
            &&& before@.state != ChatState::Idle ==> after@.queue == before@.queue.push(job)
            &&& before@.state == ChatState::Idle && before@.queue.len() > 0 ==> after@.queue
                == before@.queue.skip(1).push(job)
            &&& before@.state == ChatState::Idle && before@.queue.len() == 0 && content.len() + 36
                < 0x1_0000 ==> {
                &&& after@.queue.len() == 0
                &&& after@.state == ChatState::TXTransfer
                &&& after@.tracker == Some(Job { counter: 1, ..job })
            }
        },
{
    let magic = choose|magic: Seq<u8>| magic.len() == 4 && #[trigger] filled(
        before@,
        layer,
        after@,
        layer_after,
        magic,
    );
    assert(filled(before@, layer, after@, layer_after, magic));
    let content = (before@.incoming->0)[0]->content;
    let payload = message_payload(layer.local_mac@, content);
    let listened = before@.counted().listened(layer.local_mac);
    assert(payload.len() == 36 + content.len());
    assert(listened.queue.len() == before@.queue.len() + 1);
    if before@.state == ChatState::Idle {
        if before@.queue.len() > 0 {
            assert(listened.queue.skip(1) =~= before@.queue.skip(1).push(
                listened.queue[before@.queue.len() as int],
            ));
        } else {
            assert(listened.queue.skip(1) =~= Seq::<Job>::empty());
        }
    }
}

/// A poll that finds no message adds no job, and loses or moves none: an idle application takes the
/// first that waits, and a busy one takes none.
pub proof fn law_poll_takes_at_most_one_job(
    before: PictochatAppDriver,
    layer: LayerState,
    after: PictochatAppDriver,
    layer_after: LayerState,
)
    requires
        before.can_fill(),
        PictochatAppDriver::fill_effect(before, layer, after, layer_after),
        before@.incoming matches Some(events) ==> events.len() == 0,
    ensures
        after@.queue == if before@.state == ChatState::Idle && before@.queue.len() > 0 {
            before@.queue.skip(1)
        } else {
            before@.queue
        },
{
    let magic = choose|magic: Seq<u8>| magic.len() == 4 && #[trigger] filled(
        before@,
        layer,
        after@,
        layer_after,
        magic,
    );
    assert(filled(before@, layer, after@, layer_after, magic));
}

/// The setup makes the host the first member and gives it a blank name, the text of its biography,
/// and its own address. It changes no other member, no work and no event.
pub proof fn law_setup_presents_the_host(
    before: PictochatAppDriver,
    layer: LayerState,
    after: PictochatAppDriver,
    layer_after: LayerState,
)
    requires
        PictochatAppDriver::setup_effect(before, layer, after, layer_after),
    ensures
        before@.same_work(after@),
        before@.same_talk(after@),
        after@.seq_no == before@.seq_no,
        after@.buffer == before@.buffer,
        after@.members.len() == 16,
        after@.members[0] == layer.local_mac,
        forall|place: int|
            0 < place < 16 ==> #[trigger] after@.members[place] == before@.members[place],
        after@.identity.to == layer.local_mac.octets@,
        after@.identity.name.len() == 0,
        utf16_decoded(after@.identity.bio) == "Hello World!"@,
        after@.identity.colour == 0,
        after@.identity == (ConsoleId {
            to: after@.identity.to,
            name: after@.identity.name,
            bio: after@.identity.bio,
            colour: after@.identity.colour,
            ..before@.identity
        }),
{
    reveal_strlit("");
    law_text_round_trip("Hello World!"@);
}

/// The setup has the radio announce a chat room, once: with the room's beacon, an empty game code,
/// and room for 192 bytes each way. The beacon's contents are kept, and nothing else of the layer
/// changes.
pub proof fn law_setup_announces_the_room(
    before: PictochatAppDriver,
    layer: LayerState,
    after: PictochatAppDriver,
    layer_after: LayerState,
)
    requires
        PictochatAppDriver::setup_effect(before, layer, after, layer_after),
    ensures
        layer_after == (LayerState {
            broadcast: layer_after.broadcast,
            actions: layer_after.actions,
            ..layer
        }),
        layer_after.broadcast.enabled == layer.broadcast.enabled,
        layer_after.broadcast.payload == Some(seq![0x48u8, 0x23, 0x11, 0x0a, 1, 1, 4, 0]),
        layer_after.broadcast.interval_us == 100_000,
        layer_after.broadcast.game_id == [0u8, 0, 0, 0],
        layer_after.broadcast.beacon_type == BeaconType::MULTICART,
        layer_after.broadcast.cmd_size == 192,
        layer_after.broadcast.cmd_reply_size == 192,
        layer_after.actions.len() == layer.actions.len() + 1,
        layer_after.actions.drop_last() == layer.actions,
        layer_after.actions.last() matches Action::SetVendorIe { enabled, tag, payload } && {
            &&& enabled
            &&& payload == layer_after.broadcast.payload
            &&& tag.game_id == [0u8, 0, 0, 0]
            &&& tag.beacon_type == BeaconType::MULTICART
            &&& tag.cmd_data_size == 192
            &&& tag.reply_data_size == 192
            &&& tag.stream_code == layer.stream_code
        },
{
    assert(layer_after.actions.drop_last() =~= layer.actions);
}

} // verus!
