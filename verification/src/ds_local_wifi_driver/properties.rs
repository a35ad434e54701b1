//! What holds of the driver as a whole.

use crate::ds_local_wifi_driver::cycle::{DriverPhase, Found};
use crate::ds_local_wifi_driver::flags::ClientToHostFlags;
use crate::ds_local_wifi_driver::frames::{
    client_footer_present, client_frame, client_payload_present, ClientFrame, HostFrame,
};
use crate::ds_local_wifi_driver::layer::{
    only_announces, Action, ClientEvents, LayerState, LocalWifiApplicationLayer,
    LocalWifiClientDevice,
};
use crate::ds_local_wifi_driver::link::{
    client_ack_octets, data_header, inbound_of, is_data_frame, is_reply, link_frame, Inbound,
    LinkFrame,
};
use crate::ds_local_wifi_driver::run::{
    calls_of, events_found, events_heard, AppCall, RunState, Turn,
};
use crate::ds_local_wifi_driver::state::{
    ack_frame, carries_payload, console_bit, elapsed, event_aid, poll_frame, DriverState,
};
use crate::wire::{le16, le16_at};
use vstd::prelude::*;

verus! {

/// Whether a console mask names a console.
pub open spec fn names(mask: u16, aid: u8) -> bool {
    mask & console_bit(aid) != 0
}

/// Setting a console's bit names that console and keeps the others as they are.
proof fn lemma_set_bit(mask: u16, aid: u8, other: u8)
    requires
        aid < 16,
        other < 16,
    ensures
        names(mask | console_bit(aid), other) <==> other == aid || names(mask, other),
{
    let (m, a, b) = (mask, aid, other);
    assert((m | (1u16 << a)) & (1u16 << b) != 0 <==> b == a || m & (1u16 << b) != 0) by (bit_vector)
        requires
            a < 16,
            b < 16,
    ;
}

/// Striking a console off a mask takes that console's name out and no other.
pub proof fn law_reply_clears_one_console(mask: u16, aid: u8, other: u8)
    requires
        aid < 16,
        other < 16,
    ensures
        names(mask & !console_bit(aid), other) <==> other != aid && names(mask, other),
{
    let (m, a, b) = (mask, aid, other);
    assert((m & !(1u16 << a)) & (1u16 << b) != 0 <==> b != a && m & (1u16 << b) != 0)
        by (bit_vector)
        requires
            a < 16,
            b < 16,
    ;
}

/// A mask that names nobody is zero.
pub proof fn law_empty_mask_is_zero(mask: u16)
    ensures
        mask == 0 <==> forall|aid: u8| aid < 16 ==> !#[trigger] names(mask, aid),
{
    let m = mask;
    assert(forall|b: u8| (0u16 & (1u16 << b)) == 0) by (bit_vector);
    if forall|aid: u8| aid < 16 ==> !#[trigger] names(mask, aid) {
        assert(!names(m, 0) && !names(m, 1) && !names(m, 2) && !names(m, 3));
        assert(!names(m, 4) && !names(m, 5) && !names(m, 6) && !names(m, 7));
        assert(!names(m, 8) && !names(m, 9) && !names(m, 10) && !names(m, 11));
        assert(!names(m, 12) && !names(m, 13) && !names(m, 14) && !names(m, 15));
        assert(m == 0) by (bit_vector)
            requires
                m & (1u16 << 0u8) == 0,
                m & (1u16 << 1u8) == 0,
                m & (1u16 << 2u8) == 0,
                m & (1u16 << 3u8) == 0,
                m & (1u16 << 4u8) == 0,
                m & (1u16 << 5u8) == 0,
                m & (1u16 << 6u8) == 0,
                m & (1u16 << 7u8) == 0,
                m & (1u16 << 8u8) == 0,
                m & (1u16 << 9u8) == 0,
                m & (1u16 << 10u8) == 0,
                m & (1u16 << 11u8) == 0,
                m & (1u16 << 12u8) == 0,
                m & (1u16 << 13u8) == 0,
                m & (1u16 << 14u8) == 0,
                m & (1u16 << 15u8) == 0,
        ;
    }
}

/// What is left of a mask of missing replies after these consoles replied.
pub open spec fn missing_after(mask: u16, replies: Seq<u8>) -> u16
    decreases replies.len(),
{
    if replies.len() == 0 {
        mask
    } else {
        missing_after(mask, replies.drop_last()) & !console_bit(replies.last())
    }
}

/// Which replies are still missing does not depend on the order in which the others came, nor on
/// whether one came twice: exactly those consoles are named that were named and did not reply.
pub proof fn law_missing_replies(mask: u16, replies: Seq<u8>, aid: u8)
    requires
        aid < 16,
        forall|i: int| 0 <= i < replies.len() ==> replies[i] < 16,
    ensures
        names(missing_after(mask, replies), aid) <==> names(mask, aid) && !replies.contains(aid),
    decreases replies.len(),
{
    if replies.len() > 0 {
        let earlier = replies.drop_last();
        law_missing_replies(mask, earlier, aid);
        law_reply_clears_one_console(missing_after(mask, earlier), replies.last(), aid);
        assert(replies =~= earlier.push(replies.last()));
        if earlier.contains(aid) {
            let i = choose|i: int| 0 <= i < earlier.len() && earlier[i] == aid;
            assert(replies[i] == aid);
        }
        if replies.contains(aid) && replies.last() != aid {
            let i = choose|i: int| 0 <= i < replies.len() && replies[i] == aid;
            assert(earlier[i] == aid);
        }
        if replies.last() == aid {
            assert(replies[replies.len() - 1] == aid);
        }
    }
}

/// When every console that was polled has replied, no reply is missing.
pub proof fn law_all_replies_complete_a_cycle(mask: u16, replies: Seq<u8>)
    requires
        forall|i: int| 0 <= i < replies.len() ==> replies[i] < 16,
        forall|aid: u8| aid < 16 && names(mask, aid) ==> #[trigger] replies.contains(aid),
    ensures
        missing_after(mask, replies) == 0,
{
    let left = missing_after(mask, replies);
    assert forall|aid: u8| aid < 16 implies !#[trigger] names(left, aid) by {
        law_missing_replies(mask, replies, aid);
        if names(mask, aid) {
            assert(replies.contains(aid));
        }
    }
    law_empty_mask_is_zero(left);
}

/// Whether a table of consoles is in order: each stands under the number of its address, has the
/// bit of its number, and no two have the same number.
pub open spec fn table_sound(clients: Map<u64, LocalWifiClientDevice>) -> bool {
    &&& forall|k: u64| #[trigger]
        clients.contains_key(k) ==> {
            &&& clients[k].addr.number() == k
            &&& clients[k].assoc_id_num < 16
            &&& clients[k].assoc_id == console_bit(clients[k].assoc_id_num)
        }
    &&& forall|k: u64, other: u64| #[trigger]
        clients.contains_key(k) && #[trigger] clients.contains_key(other) && clients[k].assoc_id_num
            == clients[other].assoc_id_num ==> k == other
}

/// Whether a console of this number is connected.
pub open spec fn connected(clients: Map<u64, LocalWifiClientDevice>, aid: u8) -> bool {
    exists|k: u64| #[trigger] clients.contains_key(k) && clients[k].assoc_id_num == aid
}

impl<T: LocalWifiApplicationLayer> DriverState<T> {
    /// Whether the table of consoles is in order and the console mask names exactly those in it.
    pub open spec fn mask_matches(self) -> bool {
        &&& table_sound(self.ledger.clients)
        &&& forall|aid: u8|
            aid < 16 ==> (#[trigger] names(self.layer.client_mask, aid) <==> connected(
                self.ledger.clients,
                aid,
            ))
    }

    /// Whether another driver has the same consoles, the same host address and the same stream
    /// code, and has its beacons enabled or not as this one has.
    pub open spec fn agrees(self, other: DriverState<T>) -> bool {
        &&& other.ledger.clients == self.ledger.clients
        &&& other.layer.client_mask == self.layer.client_mask
        &&& other.layer.local_mac == self.layer.local_mac
        &&& other.layer.stream_code == self.layer.stream_code
        &&& other.layer.broadcast.enabled == self.layer.broadcast.enabled
    }

    /// Whether a client event fits what the driver knows: a console that comes is new and has a
    /// number of its own, and one that goes is known under its number.
    pub open spec fn expects(self, event: ClientEvents) -> bool {
        match event {
            ClientEvents::NewClient((mac, aid)) => {
                &&& aid < 16
                &&& !self.ledger.clients.contains_key(mac.number())
                &&& !connected(self.ledger.clients, aid)
            },
            ClientEvents::LostClient((mac, aid)) => {
                &&& self.ledger.clients.contains_key(mac.number())
                &&& self.ledger.clients[mac.number()].assoc_id_num == aid
            },
        }
    }
}

/// A driver begins with a console mask that matches: nobody is connected.
pub proof fn law_mask_matches_at_the_start<T: LocalWifiApplicationLayer>(
    driver: DriverState<T>,
    app: T,
    local_mac: [u8; 6],
)
    requires
        driver.begins(app, local_mac),
    ensures
        driver.mask_matches(),
{
    law_empty_mask_is_zero(0);
}

/// Consoles that come and go keep the console mask right: it names exactly the connected consoles.
pub proof fn law_mask_matches_after_events<T: LocalWifiApplicationLayer>(
    driver: DriverState<T>,
    event: ClientEvents,
)
    requires
        driver.mask_matches(),
        driver.expects(event),
    ensures
        driver.connecting(event).mask_matches(),
{
    let before = driver.ledger.clients;
    let after = driver.connecting(event);
    let clients = after.ledger.clients;
    let aid = event_aid(event);
    match event {
        ClientEvents::NewClient((mac, _)) => {
            let number = mac.number();
            assert forall|other: u8| other < 16 implies (#[trigger] names(
                after.layer.client_mask,
                other,
            ) <==> connected(clients, other)) by {
                lemma_set_bit(driver.layer.client_mask, aid, other);
                if connected(before, other) {
                    let k = choose|k: u64| #[trigger]
                        before.contains_key(k) && before[k].assoc_id_num == other;
                    assert(clients.contains_key(k) && clients[k] == before[k]);
                }
                if connected(clients, other) && other != aid {
                    let k = choose|k: u64| #[trigger]
                        clients.contains_key(k) && clients[k].assoc_id_num == other;
                    assert(before.contains_key(k));
                }
                if other == aid {
                    assert(clients.contains_key(number));
                }
                assert(names(driver.layer.client_mask, other) <==> connected(before, other));
            }
            assert(forall|k: u64|
                clients.contains_key(k) && k != number ==> before.contains_key(k) && clients[k]
                    == before[k]);
        },
        ClientEvents::LostClient((mac, _)) => {
            let number = mac.number();
            assert forall|other: u8| other < 16 implies (#[trigger] names(
                after.layer.client_mask,
                other,
            ) <==> connected(clients, other)) by {
                law_reply_clears_one_console(driver.layer.client_mask, aid, other);
                assert(names(driver.layer.client_mask, other) <==> connected(before, other));
                if connected(before, other) && other != aid {
                    let k = choose|k: u64| #[trigger]
                        before.contains_key(k) && before[k].assoc_id_num == other;
                    assert(clients.contains_key(k));
                }
                if connected(clients, other) {
                    let k = choose|k: u64| #[trigger]
                        clients.contains_key(k) && clients[k].assoc_id_num == other;
                    assert(before.contains_key(k) && before[k].assoc_id_num == other);
                    assert(before.contains_key(number));
                    assert(other != aid);
                }
            }
        },
    }
}

/// While the console mask matches, it is zero exactly when nobody is connected.
pub proof fn law_somebody_to_poll<T: LocalWifiApplicationLayer>(driver: DriverState<T>)
    requires
        driver.mask_matches(),
    ensures
        driver.layer.client_mask != 0 <==> exists|k: u64| #[trigger]
            driver.ledger.clients.contains_key(k),
{
    law_empty_mask_is_zero(driver.layer.client_mask);
    let clients = driver.ledger.clients;
    if exists|k: u64| #[trigger] clients.contains_key(k) {
        let k = choose|k: u64| #[trigger] clients.contains_key(k);
        assert(names(driver.layer.client_mask, clients[k].assoc_id_num)) by {
            assert(connected(clients, clients[k].assoc_id_num));
        }
    }
    if driver.layer.client_mask != 0 {
        let aid = choose|aid: u8| aid < 16 && #[trigger] names(driver.layer.client_mask, aid);
        assert(connected(clients, aid));
    }
}

/// A reply closes the cycle exactly when it is the last one that was missing: the radio is told to
/// send one acknowledgement, or nothing. All else but the mask and the sequence number stays.
pub proof fn law_last_reply_closes_the_cycle<T: LocalWifiApplicationLayer>(
    driver: DriverState<T>,
    bit: u16,
)
    requires
        driver.resting(),
    ensures
        ({
            let before = driver.layer.frame->0;
            let after = driver.replied(bit);
            let missing = before.rx_console_mask & !bit;
            &&& after.layer.frame == Some(HostFrame { rx_console_mask: missing, ..before })
            &&& after.layer.actions == if missing == 0 {
                driver.layer.actions.push(
                    Action::Transmit {
                        frame: ack_frame(driver.layer.local_mac@, driver.ledger.last_seq),
                    },
                )
            } else {
                driver.layer.actions
            }
            &&& after.ledger.app == driver.ledger.app
            &&& after.ledger.clients == driver.ledger.clients
            &&& after.layer.client_mask == driver.layer.client_mask
        }),
{
}

/// While a reply is missing, a poll repeats the frame as it is, and the application is not asked.
pub proof fn law_unanswered_poll_is_repeated<T: LocalWifiApplicationLayer>(
    driver: DriverState<T>,
    after: DriverState<T>,
)
    requires
        driver.resting(),
        (driver.layer.frame->0).rx_console_mask != 0,
        driver.sends(after),
    ensures
        after.layer.frame == driver.layer.frame,
        after.ledger.app == driver.ledger.app,
        after.layer.actions == driver.layer.actions.push(
            Action::PacedTransmit {
                wait_us: driver.ledger.packet_wait_us,
                frame: poll_frame(
                    driver.layer.local_mac@,
                    driver.ledger.last_seq,
                    driver.layer.frame->0,
                ),
            },
        ),
{
}

/// When all replies are in, the next poll asks every connected console: the application sets a new
/// frame, which carries a payload, and the radio is told to send it last.
pub proof fn law_new_poll_asks_everybody<T: LocalWifiApplicationLayer>(
    driver: DriverState<T>,
    after: DriverState<T>,
)
    requires
        driver.resting(),
        (driver.layer.frame->0).rx_console_mask == 0,
        driver.layer.client_mask != 0,
        driver.sends(after),
    ensures
        after.layer.frame matches Some(frame) && {
            &&& frame.rx_console_mask == driver.layer.client_mask
            &&& frame.payload is Some
            &&& after.layer.actions.last() == Action::PacedTransmit {
                wait_us: driver.ledger.packet_wait_us,
                frame: poll_frame(driver.layer.local_mac@, driver.ledger.last_seq, frame),
            }
        },
{
    let asked = LayerState { frame: None, ..driver.layer };
    let (app, layer) = choose|app: T, layer: LayerState| #[trigger]
        T::fill_effect(driver.ledger.app->0, asked, app, layer) && asked.used(layer)
            && layer.frame is Some && after == driver.returned(app, layer).transmitted();
}

/// A poll tells the radio of what it already had to do first: no action is lost or overtaken.
pub proof fn law_actions_keep_their_order<T: LocalWifiApplicationLayer>(
    driver: DriverState<T>,
    bit: u16,
)
    requires
        driver.resting(),
    ensures
        driver.layer.actions.is_prefix_of(driver.transmitted().layer.actions),
        driver.layer.actions.is_prefix_of(driver.replied(bit).layer.actions),
{
}

/// The size byte of a frame from the host tells the size of its payload, where the payload has an
/// even size that the byte can hold.
pub proof fn law_host_frame_announces_its_size(frame: HostFrame)
    requires
        frame.body().len() % 2 == 0,
        frame.body().len() < 512,
    ensures
        2 * frame.encoded()[4] == frame.body().len(),
        frame.encoded().subrange(6, 6 + frame.body().len() as int) == frame.body(),
{
    let bytes = frame.encoded();
    assert(bytes.subrange(6, 6 + frame.body().len() as int) =~= frame.body());
}

/// A frame of a client as a console builds it: the size of an even payload in half-words, flags
/// that announce a footer, the payload and a sequence number.
pub open spec fn client_frame_bytes(flags: u8, payload: Seq<u8>, seq_no: u16) -> Seq<u8> {
    seq![(payload.len() / 2) as u8, flags] + payload + le16(seq_no)
}

/// Reading a frame that a console built gives its payload and its sequence number.
pub proof fn law_client_frame_round_trip(flags: u8, payload: Seq<u8>, seq_no: u16)
    requires
        flags & ClientToHostFlags::HAS_FOOTER == ClientToHostFlags::HAS_FOOTER,
        flags & ClientToHostFlags::LENGTH_IS_BYTES != ClientToHostFlags::LENGTH_IS_BYTES,
        payload.len() % 2 == 0,
        0 < payload.len() < 512,
    ensures
        client_payload_present(client_frame_bytes(flags, payload, seq_no)),
        client_footer_present(client_frame_bytes(flags, payload, seq_no)),
        client_frame(client_frame_bytes(flags, payload, seq_no)) == (ClientFrame {
            payload_size: payload.len() as u16,
            flags,
            payload: Some(payload),
            footer_seq_no: Some(seq_no),
        }),
{
    let bytes = client_frame_bytes(flags, payload, seq_no);
    let size = payload.len() as int;
    assert(bytes.subrange(2, 2 + size) =~= payload);
    assert(bytes.subrange(2 + size, 4 + size) =~= le16(seq_no));
    assert(le16_at(bytes, 2 + size) == le16_at(bytes.subrange(2 + size, 4 + size), 0));
}

/// A frame that the host sends reads back, at a station, as what it was built of.
pub proof fn law_host_frame_reads_back(
    subtype: u8,
    receiver: Seq<u8>,
    transmitter: Seq<u8>,
    source: Seq<u8>,
    sequence: u16,
    body: Seq<u8>,
)
    requires
        subtype < 4,
        receiver.len() == 6,
        transmitter.len() == 6,
        source.len() == 6,
    ensures
        ({
            let bytes = data_header(subtype, true, receiver, transmitter, source, sequence) + body;
            &&& is_data_frame(bytes)
            &&& link_frame(bytes) == (LinkFrame {
                subtype,
                destination: Some(receiver),
                source: Some(source),
                payload: Some(body),
            })
        }),
{
    let bytes = data_header(subtype, true, receiver, transmitter, source, sequence) + body;
    assert(bytes[0] == 16 * subtype + 8);
    assert(bytes[1] == 2);
    assert(bytes.subrange(4, 10) =~= receiver);
    assert(bytes.subrange(16, 22) =~= source);
    assert(bytes.skip(24) =~= body);
}

/// A reply as a console sends it: data and an acknowledgement, to the distribution system.
pub open spec fn reply_bytes(
    host: Seq<u8>,
    console: Seq<u8>,
    sequence: u16,
    body: Seq<u8>,
) -> Seq<u8> {
    seq![0x18u8, 0x01u8, 0x00u8, 0x00u8] + host + console + client_ack_octets() + le16(sequence)
        + body
}

/// The driver is told of a console's reply: who sent it, and all that it carries.
pub proof fn law_reply_is_recognised(
    host: Seq<u8>,
    console: Seq<u8>,
    sequence: u16,
    body: Seq<u8>,
    now: u64,
    received: u64,
)
    requires
        host.len() == 6,
        console.len() == 6,
    ensures
        ({
            let bytes = reply_bytes(host, console, sequence, body);
            &&& is_data_frame(bytes)
            &&& is_reply(link_frame(bytes))
            &&& inbound_of(link_frame(bytes), now, received) == (Inbound {
                mac: console,
                data: Some(body),
                handed_on: now,
                received,
            })
        }),
{
    let bytes = reply_bytes(host, console, sequence, body);
    assert(bytes[0] == 0x18);
    assert(bytes[1] == 1);
    assert(bytes.subrange(10, 16) =~= console);
    assert(bytes.subrange(16, 22) =~= client_ack_octets());
    assert(bytes.skip(24) =~= body);
}

/// Whether a list of actions went on with nothing but reports on latencies.
pub open spec fn only_reports(before: Seq<Action>, after: Seq<Action>) -> bool {
    &&& before.is_prefix_of(after)
    &&& forall|i: int| before.len() <= i < after.len() ==> (#[trigger] after[i]) is ReportLatency
}

/// Nobody is polled while nobody is connected: a step that finds nobody connected has the radio
/// send nothing, and adds no action but reports on latencies.
pub proof fn law_nobody_is_polled_alone<T: LocalWifiApplicationLayer>(
    driver: DriverState<T>,
    phase: DriverPhase,
    found: Found,
    after: DriverState<T>,
    next: DriverPhase,
)
    requires
        driver.alone(),
        driver.can_step(phase, found),
        driver.steps(phase, found, after, next),
    ensures
        only_reports(driver.layer.actions, after.layer.actions),
{
    assert(driver.ledger.clients.dom() =~= Set::empty());
}

/// The beginning of a beginning is a beginning.
proof fn lemma_prefix_of_longer(first: Seq<Action>, second: Seq<Action>, third: Seq<Action>)
    requires
        first.is_prefix_of(second),
        second.is_prefix_of(third),
    ensures
        first.is_prefix_of(third),
{
    assert forall|i: int| 0 <= i < first.len() implies first[i] == third[i] by {
        assert(first[i] == second.subrange(0, first.len() as int)[i]);
        assert(second[i] == third.subrange(0, second.len() as int)[i]);
    }
}

/// A reply only adds to what the radio has to do.
proof fn lemma_reply_keeps_actions<T: LocalWifiApplicationLayer>(
    driver: DriverState<T>,
    packet: Inbound,
    after: DriverState<T>,
)
    requires
        driver.receives(packet, after),
    ensures
        driver.layer.actions.is_prefix_of(after.layer.actions),
{
    let device = driver.client(packet.mac);
    let replied = driver.replied(device.assoc_id);
    assert(driver.layer.actions.is_prefix_of(replied.layer.actions));
    if let Some(bytes) = packet.data {
        if carries_payload(bytes) {
            let (app, layer) = choose|app: T, layer: LayerState| #[trigger]
                T::packet_effect(
                    replied.ledger.app->0,
                    replied.layer,
                    client_frame(bytes),
                    device,
                    app,
                    layer,
                ) && replied.layer.used(layer) && after == replied.returned(app, layer);
            lemma_prefix_of_longer(
                driver.layer.actions,
                replied.layer.actions,
                after.layer.actions,
            );
        }
    }
}

/// No step loses an action or lets one overtake another: what the radio had to do before comes
/// first.
pub proof fn law_step_keeps_the_order_of_actions<T: LocalWifiApplicationLayer>(
    driver: DriverState<T>,
    phase: DriverPhase,
    found: Found,
    after: DriverState<T>,
    next: DriverPhase,
)
    requires
        driver.steps(phase, found, after, next),
    ensures
        driver.layer.actions.is_prefix_of(after.layer.actions),
{
    match phase {
        DriverPhase::Events => {
            assert(after.layer.actions =~= driver.layer.actions);
        },
        DriverPhase::Drain { left } => {
            if left > 0 {
                if let Some(packet) = found.packet {
                    let taken = choose|taken: DriverState<T>| #[trigger]
                        driver.receives(packet, taken) && after == taken.timed(
                            elapsed(found.now_us, packet.handed_on),
                        );
                    lemma_reply_keeps_actions(driver, packet, taken);
                }
            } else {
                let reported = driver.reported();
                let had = driver.layer.actions;
                assert(had.is_prefix_of(reported.layer.actions));
                if driver.ledger.clients.len() > 0 {
                    if (reported.layer.frame->0).rx_console_mask == 0 {
                        let asked = LayerState { frame: None, ..reported.layer };
                        let (app, layer) = choose|app: T, layer: LayerState| #[trigger]
                            T::fill_effect(reported.ledger.app->0, asked, app, layer)
                                && asked.used(layer) && layer.frame is Some && after
                                == reported.returned(app, layer).transmitted();
                        lemma_prefix_of_longer(had, reported.layer.actions, layer.actions);
                        assert(layer.actions.is_prefix_of(after.layer.actions));
                        lemma_prefix_of_longer(had, layer.actions, after.layer.actions);
                    } else {
                        assert(reported.layer.actions.is_prefix_of(after.layer.actions));
                        lemma_prefix_of_longer(had, reported.layer.actions, after.layer.actions);
                    }
                }
            }
        },
        DriverPhase::Await { mask } => {
            if mask != 0 && !found.window_over {
                if let Some(packet) = found.packet {
                    let taken = choose|taken: DriverState<T>| #[trigger]
                        driver.receives(packet, taken) && after == taken.timed_awaited(
                            elapsed(found.now_us, packet.handed_on),
                            elapsed(found.now_us, packet.received),
                        );
                    lemma_reply_keeps_actions(driver, packet, taken);
                }
            }
        },
    }
}

/// A reply leaves alone who is connected, the host's address, the stream code and whether beacons
/// are enabled.
proof fn lemma_reply_keeps_clients<T: LocalWifiApplicationLayer>(
    driver: DriverState<T>,
    packet: Inbound,
    after: DriverState<T>,
)
    requires
        driver.receives(packet, after),
    ensures
        driver.agrees(after),
{
    let device = driver.client(packet.mac);
    let replied = driver.replied(device.assoc_id);
    if let Some(bytes) = packet.data {
        if carries_payload(bytes) {
            let (app, layer) = choose|app: T, layer: LayerState| #[trigger]
                T::packet_effect(
                    replied.ledger.app->0,
                    replied.layer,
                    client_frame(bytes),
                    device,
                    app,
                    layer,
                ) && replied.layer.used(layer) && after == replied.returned(app, layer);
        }
    }
}

/// Only client events change who is connected, whatever the application does: the table of consoles
/// and the console mask change as the event says that a step found, and stay otherwise. The host's
/// address, the stream code and whether beacons are enabled never change.
pub proof fn law_only_events_change_the_clients<T: LocalWifiApplicationLayer>(
    driver: DriverState<T>,
    phase: DriverPhase,
    found: Found,
    after: DriverState<T>,
    next: DriverPhase,
)
    requires
        driver.steps(phase, found, after, next),
    ensures
        match (phase, found.event) {
            (DriverPhase::Events, Some(event)) => driver.connecting(event).agrees(after),
            _ => driver.agrees(after),
        },
{
    match phase {
        DriverPhase::Events => {},
        DriverPhase::Drain { left } => {
            if left > 0 {
                if let Some(packet) = found.packet {
                    let taken = choose|taken: DriverState<T>| #[trigger]
                        driver.receives(packet, taken) && after == taken.timed(
                            elapsed(found.now_us, packet.handed_on),
                        );
                    lemma_reply_keeps_clients(driver, packet, taken);
                }
            } else {
                let reported = driver.reported();
                if driver.ledger.clients.len() > 0 && (
                reported.layer.frame->0).rx_console_mask == 0 {
                    let asked = LayerState { frame: None, ..reported.layer };
                    let (app, layer) = choose|app: T, layer: LayerState| #[trigger]
                        T::fill_effect(reported.ledger.app->0, asked, app, layer) && asked.used(
                            layer,
                        ) && layer.frame is Some && after == reported.returned(
                            app,
                            layer,
                        ).transmitted();
                }
            }
        },
        DriverPhase::Await { mask } => {
            if mask != 0 && !found.window_over {
                if let Some(packet) = found.packet {
                    let taken = choose|taken: DriverState<T>| #[trigger]
                        driver.receives(packet, taken) && after == taken.timed_awaited(
                            elapsed(found.now_us, packet.handed_on),
                            elapsed(found.now_us, packet.received),
                        );
                    lemma_reply_keeps_clients(driver, packet, taken);
                }
            }
        },
    }
}

/// Taking a reply makes at most one call to the application: the one for the payload that the reply
/// carries. Without a payload the application is as it was.
proof fn lemma_reply_makes_its_call<T: LocalWifiApplicationLayer>(
    driver: DriverState<T>,
    packet: Inbound,
    after: DriverState<T>,
)
    requires
        driver.resting(),
        driver.receives(packet, after),
    ensures
        match driver.reply_call(packet) {
            Some((call, layer)) => exists|layer_after: LayerState| #[trigger]
                call.made(driver.ledger.app->0, layer, after.ledger.app->0, layer_after),
            None => after.ledger.app == driver.ledger.app,
        },
{
    let device = driver.client(packet.mac);
    let replied = driver.replied(device.assoc_id);
    if let Some(bytes) = packet.data {
        if carries_payload(bytes) {
            let (app, layer) = choose|app: T, layer: LayerState| #[trigger]
                T::packet_effect(
                    replied.ledger.app->0,
                    replied.layer,
                    client_frame(bytes),
                    device,
                    app,
                    layer,
                ) && replied.layer.used(layer) && after == replied.returned(app, layer);
            let call = AppCall::Packet { data_frame: client_frame(bytes), device };
            assert(app == after.ledger.app->0);
            assert(call.made(driver.ledger.app->0, replied.layer, after.ledger.app->0, layer));
        }
    }
}

/// A step makes exactly the call to the application that it is to make: a client event reaches the
/// application once, in the step that found it, and so does a payload; the application is asked for
/// a frame when all replies are in. A step that makes no call leaves the application as it was.
pub proof fn law_step_makes_its_call<T: LocalWifiApplicationLayer>(
    driver: DriverState<T>,
    phase: DriverPhase,
    found: Found,
    after: DriverState<T>,
    next: DriverPhase,
)
    requires
        driver.resting(),
        driver.steps(phase, found, after, next),
    ensures
        match driver.call(phase, found) {
            Some((call, layer)) => exists|layer_after: LayerState| #[trigger]
                call.made(driver.ledger.app->0, layer, after.ledger.app->0, layer_after),
            None => after.ledger.app == driver.ledger.app,
        },
        phase == DriverPhase::Events ==> (found.event matches Some(event) ==> T::event_effect(
            driver.ledger.app->0,
            event,
            after.ledger.app->0,
        )),
{
    match phase {
        DriverPhase::Events => {
            if let Some(event) = found.event {
                let app = choose|app: T| #[trigger]
                    T::event_effect(driver.ledger.app->0, event, app) && after
                        == driver.connecting(event).returned(app, driver.connecting(event).layer);
                let call = AppCall::Event { event };
                let layer = driver.connecting(event).layer;
                assert(app == after.ledger.app->0);
                assert(call.made(driver.ledger.app->0, layer, after.ledger.app->0, layer));
            }
        },
        DriverPhase::Drain { left } => {
            if left > 0 {
                if let Some(packet) = found.packet {
                    let taken = choose|taken: DriverState<T>| #[trigger]
                        driver.receives(packet, taken) && after == taken.timed(
                            elapsed(found.now_us, packet.handed_on),
                        );
                    lemma_reply_makes_its_call(driver, packet, taken);
                }
            } else {
                let reported = driver.reported();
                if driver.ledger.clients.len() > 0 && (
                reported.layer.frame->0).rx_console_mask == 0 {
                    let asked = LayerState { frame: None, ..reported.layer };
                    let (app, layer) = choose|app: T, layer: LayerState| #[trigger]
                        T::fill_effect(reported.ledger.app->0, asked, app, layer)
                            && asked.used(layer) && layer.frame is Some && after
                            == reported.returned(app, layer).transmitted();
                    assert(app == after.ledger.app->0);
                    assert(AppCall::Fill.made(
                        driver.ledger.app->0,
                        asked,
                        after.ledger.app->0,
                        layer,
                    ));
                }
            }
        },
        DriverPhase::Await { mask } => {
            if mask != 0 && !found.window_over {
                if let Some(packet) = found.packet {
                    let taken = choose|taken: DriverState<T>| #[trigger]
                        driver.receives(packet, taken) && after == taken.timed_awaited(
                            elapsed(found.now_us, packet.handed_on),
                            elapsed(found.now_us, packet.received),
                        );
                    lemma_reply_makes_its_call(driver, packet, taken);
                }
            }
        },
    }
}

/// The steps of a run set nothing up.
proof fn lemma_steps_set_nothing_up<T: LocalWifiApplicationLayer>(turns: Seq<Turn<T>>)
    ensures
        forall|i: int|
            0 <= i < calls_of(turns).len() ==> !((#[trigger] calls_of(turns)[i]) is Setup),
    decreases turns.len(),
{
    if turns.len() > 0 {
        lemma_steps_set_nothing_up(turns.drop_last());
    }
}

/// A run sets its application up exactly once, before every other call: the first call is the setup
/// of the application that the driver began with, and no later call is one. Setting up has the
/// radio send nothing and connects nobody, and the first step goes on from there.
pub proof fn law_run_sets_up_first<T: LocalWifiApplicationLayer>(run: RunState<T>)
    requires
        run.follows(),
    ensures
        run.set_up.alone(),
        run.set_up.layer.client_mask == 0,
        run.set_up.layer.local_mac == run.start.layer.local_mac,
        run.set_up.layer.stream_code == run.start.layer.stream_code,
        run.calls().len() > 0,
        run.calls()[0] is Setup,
        forall|i: int| 0 < i < run.calls().len() ==> !((#[trigger] run.calls()[i]) is Setup),
        exists|layer_after: LayerState| #[trigger]
            AppCall::Setup.made(
                run.start.ledger.app->0,
                run.start.layer,
                run.set_up.ledger.app->0,
                layer_after,
            ),
        only_announces(run.start.layer.actions, run.set_up.layer.actions),
        run.turns.len() > 0 ==> run.set_up.tended(run.turns[0].before) && run.turns[0].phase
            == DriverPhase::Events,
{
    lemma_steps_set_nothing_up(run.turns);
    assert forall|i: int| 0 < i < run.calls().len() implies !((
    #[trigger] run.calls()[i]) is Setup) by {
        assert(run.calls()[i] == calls_of(run.turns)[i - 1]);
    }
    let (app, layer) = choose|app: T, layer: LayerState| #[trigger]
        T::setup_effect(run.start.ledger.app->0, run.start.layer, app, layer)
            && run.start.layer.used(layer) && run.set_up == run.start.returned(app, layer);
    assert(app == run.set_up.ledger.app->0);
    assert(AppCall::Setup.made(
        run.start.ledger.app->0,
        run.start.layer,
        run.set_up.ledger.app->0,
        layer,
    ));
    if run.turns.len() > 0 {
        assert(run.turn_follows(0));
    }
}

/// Each step of a run makes exactly the call that it is to make, from where the step before it and
/// the owner left the application.
pub proof fn law_run_makes_its_calls<T: LocalWifiApplicationLayer>(run: RunState<T>, i: int)
    requires
        run.follows(),
        0 <= i < run.turns.len(),
    ensures
        run.left(i).tended(run.turns[i].before),
        match run.turns[i].before.call(run.turns[i].phase, run.turns[i].found) {
            Some((call, layer)) => exists|layer_after: LayerState| #[trigger]
                call.made(
                    run.turns[i].before.ledger.app->0,
                    layer,
                    run.turns[i].after.ledger.app->0,
                    layer_after,
                ),
            None => run.turns[i].after.ledger.app == run.turns[i].before.ledger.app,
        },
{
    assert(run.turn_follows(i));
    let turn = run.turns[i];
    law_step_makes_its_call(turn.before, turn.phase, turn.found, turn.after, turn.next);
}

/// What an application hears of through one more call.
proof fn lemma_one_more_call(calls: Seq<AppCall>, call: AppCall)
    ensures
        events_heard(calls.push(call)) == match call {
            AppCall::Event { event } => events_heard(calls).push(event),
            _ => events_heard(calls),
        },
{
    assert(calls.push(call).drop_last() =~= calls);
}

/// What an application hears of through its setup and the steps after it.
proof fn lemma_steps_are_heard<T: LocalWifiApplicationLayer>(turns: Seq<Turn<T>>)
    ensures
        events_heard(seq![AppCall::Setup] + calls_of(turns)) == events_found(turns),
    decreases turns.len(),
{
    let first = seq![AppCall::Setup];
    if turns.len() == 0 {
        assert(first + calls_of(turns) =~= Seq::<AppCall>::empty().push(AppCall::Setup));
        lemma_one_more_call(Seq::empty(), AppCall::Setup);
    } else {
        let turn = turns.last();
        let earlier = calls_of(turns.drop_last());
        lemma_steps_are_heard(turns.drop_last());
        if let Some((call, _)) = turn.before.call(turn.phase, turn.found) {
            assert(first + calls_of(turns) =~= (first + earlier).push(call));
            lemma_one_more_call(first + earlier, call);
        }
    }
}

/// An application hears of every client event that its run found: of each once, with that event,
/// and in the order in which they were found.
pub proof fn law_run_hands_on_every_event<T: LocalWifiApplicationLayer>(run: RunState<T>)
    requires
        run.follows(),
    ensures
        events_heard(run.calls()) == events_found(run.turns),
{
    lemma_steps_are_heard(run.turns);
}

/// In no step of a run is anybody polled while nobody is connected, and the owner adds nothing to
/// what the radio has to do.
pub proof fn law_run_polls_nobody_alone<T: LocalWifiApplicationLayer>(run: RunState<T>, i: int)
    requires
        run.follows(),
        0 <= i < run.turns.len(),
        run.turns[i].before.alone(),
    ensures
        only_reports(run.turns[i].before.layer.actions, run.turns[i].after.layer.actions),
        run.turns[i].before.layer.actions.is_prefix_of(run.left(i).layer.actions),
{
    assert(run.turn_follows(i));
    let turn = run.turns[i];
    law_nobody_is_polled_alone(turn.before, turn.phase, turn.found, turn.after, turn.next);
}

/// Throughout a run whose client events fit, the console mask names exactly the connected consoles,
/// whatever the application does: after its setup, and after every step.
pub proof fn law_run_keeps_the_mask_right<T: LocalWifiApplicationLayer>(
    run: RunState<T>,
    steps: int,
)
    requires
        run.follows(),
        run.events_fit(),
        0 <= steps <= run.turns.len(),
    ensures
        run.left(steps).mask_matches(),
        run.left(steps).layer.local_mac == run.start.layer.local_mac,
        run.left(steps).layer.stream_code == run.start.layer.stream_code,
    decreases steps,
{
    if steps == 0 {
        law_run_sets_up_first(run);
        law_empty_mask_is_zero(0);
    } else {
        law_run_keeps_the_mask_right(run, steps - 1);
        let turn = run.turns[steps - 1];
        assert(run.turn_follows(steps - 1));
        assert(turn.fits());
        law_only_events_change_the_clients(
            turn.before,
            turn.phase,
            turn.found,
            turn.after,
            turn.next,
        );
        match (turn.phase, turn.found.event) {
            (DriverPhase::Events, Some(event)) => {
                law_mask_matches_after_events(turn.before, event);
            },
            _ => {},
        }
    }
}

} // verus!
