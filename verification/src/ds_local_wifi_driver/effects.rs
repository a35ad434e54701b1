//! What each event, each reply, each poll and each step does to the driver: what becomes of every
//! part of it, what is left alone, and what goes out on the air, byte by byte.

use crate::ds_local_wifi_driver::cycle::{DriverPhase, Found};
use crate::ds_local_wifi_driver::frames::{client_frame, ClientFrame, HostFrame};
use crate::ds_local_wifi_driver::layer::{
    Action, BeaconType, ClientEvents, DSWiFiBeaconTag, LayerState, LocalWifiApplicationLayer,
    LocalWifiClientDevice,
};
use crate::ds_local_wifi_driver::link::{
    ack_octets, client_ack_octets, cmd_octets, data_header, inbound_of, is_data_frame, is_reply,
    link_frame, Inbound, LinkFrame,
};
use crate::ds_local_wifi_driver::properties::{
    connected, law_new_poll_asks_everybody, law_only_events_change_the_clients,
    law_run_keeps_the_mask_right, law_somebody_to_poll, names,
};
use crate::ds_local_wifi_driver::run::{events_found, RunState, Turn};
use crate::ds_local_wifi_driver::state::{
    ack_frame, elapsed, poll_frame, takes_frame, DriverState, Ledger,
};
use crate::mac_address::{mac_number, MacAddress};
use crate::wire::zeros;
use vstd::prelude::*;

verus! {

/// One bit set or cleared in a mask leaves the others as they are.
proof fn lemma_other_bits(mask: u16, aid: u8, other: u8)
    requires
        aid < 16,
        other < 16,
    ensures
        (mask | (1u16 << aid)) & (1u16 << other) != 0 <==> other == aid || mask & (1u16 << other)
            != 0,
        (mask & !(1u16 << aid)) & (1u16 << other) != 0 <==> other != aid && mask & (1u16 << other)
            != 0,
{
    let (m, a, b) = (mask, aid, other);
    assert((m | (1u16 << a)) & (1u16 << b) != 0 <==> b == a || m & (1u16 << b) != 0) by (bit_vector)
        requires
            a < 16,
            b < 16,
    ;
    assert((m & !(1u16 << a)) & (1u16 << b) != 0 <==> b != a && m & (1u16 << b) != 0)
        by (bit_vector)
        requires
            a < 16,
            b < 16,
    ;
}

/// A console that comes is connected from then on, under its address and its number, and its bit of
/// the console mask is set. Every console that was connected still is, with the same number, and
/// every other bit of the mask is as it was. The application hears of the event, and nothing else
/// of the driver changes.
pub proof fn law_console_comes<T: LocalWifiApplicationLayer>(
    driver: DriverState<T>,
    mac: MacAddress,
    aid: u8,
    after: DriverState<T>,
)
    requires
        aid < 16,
        driver.notes(ClientEvents::NewClient((mac, aid)), after),
    ensures
        after.ledger.clients == driver.ledger.clients.insert(
            mac.number(),
            LocalWifiClientDevice { assoc_id: 1u16 << aid, assoc_id_num: aid, addr: mac },
        ),
        forall|k: u64| #[trigger]
            driver.ledger.clients.contains_key(k) && k != mac.number()
                ==> after.ledger.clients.contains_key(k) && after.ledger.clients[k]
                == driver.ledger.clients[k],
        forall|other: u8|
            other < 16 ==> ((#[trigger] (1u16 << other)) & after.layer.client_mask != 0 <==> other
                == aid || (1u16 << other) & driver.layer.client_mask != 0),
        after.layer == (LayerState { client_mask: after.layer.client_mask, ..driver.layer }),
        after.ledger == (Ledger {
            clients: after.ledger.clients,
            app: after.ledger.app,
            ..driver.ledger
        }),
        after.ledger.app matches Some(app) && T::event_effect(
            driver.ledger.app->0,
            ClientEvents::NewClient((mac, aid)),
            app,
        ),
{
    assert forall|other: u8| other < 16 implies ((#[trigger] (1u16 << other))
        & after.layer.client_mask != 0 <==> other == aid || (1u16 << other)
        & driver.layer.client_mask != 0) by {
        lemma_other_bits(driver.layer.client_mask, aid, other);
        let (m, n, b) = (driver.layer.client_mask, after.layer.client_mask, 1u16 << other);
        assert(m & b == b & m && n & b == b & n) by (bit_vector);
    }
}

/// A console that goes is not connected any more, and its bit of the console mask is cleared. Every
/// other console is connected as it was, and every other bit of the mask is as it was. The
/// application hears of the event, and nothing else of the driver changes.
pub proof fn law_console_goes<T: LocalWifiApplicationLayer>(
    driver: DriverState<T>,
    mac: MacAddress,
    aid: u8,
    after: DriverState<T>,
)
    requires
        aid < 16,
        driver.notes(ClientEvents::LostClient((mac, aid)), after),
    ensures
        after.ledger.clients == driver.ledger.clients.remove(mac.number()),
        !after.ledger.clients.contains_key(mac.number()),
        forall|k: u64| #[trigger]
            driver.ledger.clients.contains_key(k) && k != mac.number()
                ==> after.ledger.clients.contains_key(k) && after.ledger.clients[k]
                == driver.ledger.clients[k],
        forall|other: u8|
            other < 16 ==> ((#[trigger] (1u16 << other)) & after.layer.client_mask != 0 <==> other
                != aid && (1u16 << other) & driver.layer.client_mask != 0),
        after.layer == (LayerState { client_mask: after.layer.client_mask, ..driver.layer }),
        after.ledger == (Ledger {
            clients: after.ledger.clients,
            app: after.ledger.app,
            ..driver.ledger
        }),
        after.ledger.app matches Some(app) && T::event_effect(
            driver.ledger.app->0,
            ClientEvents::LostClient((mac, aid)),
            app,
        ),
{
    assert forall|other: u8| other < 16 implies ((#[trigger] (1u16 << other))
        & after.layer.client_mask != 0 <==> other != aid && (1u16 << other)
        & driver.layer.client_mask != 0) by {
        lemma_other_bits(driver.layer.client_mask, aid, other);
        let (m, n, b) = (driver.layer.client_mask, after.layer.client_mask, 1u16 << other);
        assert(m & b == b & m && n & b == b & n) by (bit_vector);
    }
}

/// Whether one frame is another with one console struck off those that are to reply.
pub open spec fn struck_off(before: HostFrame, after: HostFrame, bit: u16) -> bool {
    after == (HostFrame { rx_console_mask: before.rx_console_mask & !bit, ..before })
}

/// How many bytes of payload a console's frame announces: its first byte counts half-words, or
/// bytes where flag 0x20 is set.
pub open spec fn announced(bytes: Seq<u8>) -> int {
    if bytes[1] & 0x20 == 0x20 {
        bytes[0] as int
    } else {
        2 * bytes[0]
    }
}

/// Whether a console's frame holds a payload, all of it.
pub open spec fn is_laden(bytes: Seq<u8>) -> bool {
    bytes.len() > 2 && bytes[0] != 0 && 2 + announced(bytes) <= bytes.len()
}

/// Whether a driver is another after a console replied, before the application hears of it: the
/// console is struck off, and the last reply closes the cycle, with one frame under the next
/// sequence number. Nothing else changes.
pub open spec fn has_replied<T>(before: DriverState<T>, after: DriverState<T>, bit: u16) -> bool {
    &&& before.layer.frame matches Some(polled)
    &&& after.layer.frame matches Some(left)
    &&& struck_off(polled, left, bit)
    &&& if left.rx_console_mask == 0 {
        &&& after.layer.actions == before.layer.actions.push(
            Action::Transmit { frame: ack_frame(before.layer.local_mac@, before.ledger.last_seq) },
        )
        &&& after.ledger.last_seq == (before.ledger.last_seq + 1) % 0x1_0000
    } else {
        &&& after.layer.actions == before.layer.actions
        &&& after.ledger.last_seq == before.ledger.last_seq
    }
    &&& after.layer == (LayerState {
        frame: after.layer.frame,
        actions: after.layer.actions,
        ..before.layer
    })
    &&& after.ledger == (Ledger { last_seq: after.ledger.last_seq, ..before.ledger })
}

/// A reply strikes its sender, and nobody else, off the list of those that are to reply. Where it
/// carries a payload, the application is handed that payload, all of it and as it came, with the
/// console that sent it. Without one the application hears nothing.
pub proof fn law_reply_is_taken<T: LocalWifiApplicationLayer>(
    driver: DriverState<T>,
    packet: Inbound,
    after: DriverState<T>,
)
    requires
        driver.resting(),
        driver.receives(packet, after),
    ensures
        ({
            let device = driver.ledger.clients[mac_number(packet.mac) as u64];
            match packet.data {
                Some(bytes) if is_laden(bytes) => exists|heard: DriverState<T>|
                    {
                        &&& #[trigger] has_replied(driver, heard, device.assoc_id)
                        &&& after.ledger == (Ledger { app: after.ledger.app, ..heard.ledger })
                        &&& after.ledger.app matches Some(app)
                        &&& T::packet_effect(
                            driver.ledger.app->0,
                            heard.layer,
                            ClientFrame {
                                payload_size: announced(bytes) as u16,
                                flags: bytes[1],
                                payload: Some(bytes.subrange(2, 2 + announced(bytes))),
                                footer_seq_no: if bytes[1] & 0x08 == 0x08 {
                                    Some(
                                        (bytes[2 + announced(bytes)] + 256 * bytes[3 + announced(
                                            bytes,
                                        )]) as u16,
                                    )
                                } else {
                                    None
                                },
                            },
                            device,
                            app,
                            after.layer,
                        )
                    },
                _ => has_replied(driver, after, device.assoc_id),
            }
        }),
{
    let device = driver.client(packet.mac);
    let replied = driver.replied(device.assoc_id);
    assert(has_replied(driver, replied, device.assoc_id));
}

/// Which replies a driver can take: those of connected consoles, with the footer that they
/// announce, if the application can take what they carry.
pub proof fn law_which_replies_are_taken<T: LocalWifiApplicationLayer>(
    driver: DriverState<T>,
    packet: Inbound,
)
    requires
        driver.ledger.clients.contains_key(mac_number(packet.mac) as u64),
        packet.data matches Some(bytes) ==> !is_laden(bytes),
        packet.data matches Some(bytes) ==> bytes.len() > 2 && bytes[0] == 0 && bytes[1] & 0x08
            == 0x08 ==> bytes.len() >= 4,
    ensures
        driver.can_receive(packet),
{
}

/// A reply that carries a payload is taken where the application can take that payload of that
/// console, and the footer that it announces is there.
pub proof fn law_which_payloads_are_taken<T: LocalWifiApplicationLayer>(
    driver: DriverState<T>,
    packet: Inbound,
)
    requires
        driver.ledger.clients.contains_key(mac_number(packet.mac) as u64),
        packet.data matches Some(bytes) && is_laden(bytes),
    ensures
        ({
            let bytes = packet.data->0;
            let size = announced(bytes);
            let footed = bytes[1] & 0x08 == 0x08;
            driver.can_receive(packet) <==> {
                &&& footed ==> 4 + size <= bytes.len()
                &&& (driver.ledger.app->0).can_take(
                    ClientFrame {
                        payload_size: size as u16,
                        flags: bytes[1],
                        payload: Some(bytes.subrange(2, 2 + size)),
                        footer_seq_no: if footed {
                            Some((bytes[2 + size] + 256 * bytes[3 + size]) as u16)
                        } else {
                            None
                        },
                    },
                    driver.ledger.clients[mac_number(packet.mac) as u64],
                )
            }
        }),
{
}

/// When a step can be made: with a console of a number below sixteen that comes or goes, with a
/// reply that can be taken, with a poll for which replies are missing or the application has a
/// frame, and always where nothing was found or nothing is asked for.
pub proof fn law_when_a_step_can_be_made<T: LocalWifiApplicationLayer>(
    driver: DriverState<T>,
    phase: DriverPhase,
    found: Found,
)
    ensures
        phase is Events ==> (driver.can_step(phase, found) <==> match found.event {
            Some(ClientEvents::NewClient((_, aid))) => aid < 16,
            Some(ClientEvents::LostClient((_, aid))) => aid < 16,
            None => true,
        }),
        phase is Drain && phase->left > 0 || phase is Await && phase->mask != 0
            && !found.window_over ==> (driver.can_step(phase, found) <==> (
        found.packet matches Some(packet) ==> driver.can_receive(packet))),
        phase is Drain && phase->left == 0 ==> (driver.can_step(phase, found) <==> {
            ||| driver.ledger.clients.len() == 0
            ||| (driver.layer.frame->0).rx_console_mask != 0
            ||| (driver.ledger.app->0).can_fill() && (driver.ledger.app->0).delivers(
                driver.layer.client_mask,
            )
        }),
        phase is Await && (phase->mask == 0 || found.window_over) ==> driver.can_step(
            phase,
            found,
        ),
{
}

/// A frame that is taken as it is: data of a console goes to the application as it came, a bare
/// acknowledgement strikes its sender off, and neither closes the cycle. Frames to anybody else,
/// and of other kinds, do nothing.
pub proof fn law_frame_is_taken_as_it_is<T: LocalWifiApplicationLayer>(
    driver: DriverState<T>,
    frame: LinkFrame,
    after: DriverState<T>,
)
    requires
        driver.resting(),
        takes_frame(driver, frame, after),
    ensures
        ({
            let device = driver.ledger.clients[mac_number(frame.source->0) as u64];
            let reply = frame.destination == Some(seq![3u8, 9, 0xbf, 0, 0, 0x10]);
            &&& !reply || (frame.subtype != 1 && frame.subtype != 5) ==> after == driver
            &&& reply && frame.subtype == 5 ==> {
                &&& after.layer.frame matches Some(left)
                &&& struck_off(driver.layer.frame->0, left, device.assoc_id)
                &&& after.layer == (LayerState { frame: Some(left), ..driver.layer })
                &&& after.ledger == driver.ledger
            }
            &&& reply && frame.subtype == 1 ==> match frame.payload {
                Some(bytes) if is_laden(bytes) => {
                    &&& after.ledger == (Ledger { app: after.ledger.app, ..driver.ledger })
                    &&& after.ledger.app matches Some(app)
                    &&& exists|footer: Option<u16>| #[trigger]
                        T::packet_effect(
                            driver.ledger.app->0,
                            driver.layer,
                            ClientFrame {
                                payload_size: announced(bytes) as u16,
                                flags: bytes[1],
                                payload: Some(bytes.subrange(2, 2 + announced(bytes))),
                                footer_seq_no: footer,
                            },
                            device,
                            app,
                            after.layer,
                        )
                },
                _ => after == driver,
            }
        }),
{
    assert(client_ack_octets() =~= seq![
        3u8,
        9,
        0xbf,
        0,
        0,
        0x10,
    ]);
    if let Some(bytes) = frame.payload {
        if frame.subtype == 1 && is_laden(bytes) && is_reply(frame) {
            let read = client_frame(bytes);
            let app = after.ledger.app->0;
            let device = driver.client(frame.source->0);
            assert(T::packet_effect(
                driver.ledger.app->0,
                driver.layer,
                ClientFrame {
                    payload_size: announced(bytes) as u16,
                    flags: bytes[1],
                    payload: Some(bytes.subrange(2, 2 + announced(bytes))),
                    footer_seq_no: read.footer_seq_no,
                },
                device,
                app,
                after.layer,
            ));
        }
    }
}

/// Whether a driver is another after the radio was told to send a poll that awaits replies: the
/// poll comes last of all that the radio has to do, no sooner than the driver says, and the next
/// may follow after 3200 microseconds. The frame stays as it is, and nothing else changes.
pub open spec fn has_polled<T>(before: DriverState<T>, after: DriverState<T>) -> bool {
    &&& before.layer.frame matches Some(frame)
    &&& after.layer == (LayerState {
        actions: before.layer.actions.push(
            Action::PacedTransmit {
                wait_us: before.ledger.packet_wait_us,
                frame: poll_frame(before.layer.local_mac@, before.ledger.last_seq, frame),
            },
        ),
        ..before.layer
    })
    &&& after.ledger == (Ledger {
        last_seq: ((before.ledger.last_seq + 1) % 0x1_0000) as u16,
        packet_wait_us: 3200,
        data_duration_us: 6800,
        ..before.ledger
    })
}

/// While replies are missing, a poll sends the same frame once more, under the next sequence
/// number, and the application is left alone.
pub proof fn law_missing_replies_are_asked_for_again<T: LocalWifiApplicationLayer>(
    driver: DriverState<T>,
    after: DriverState<T>,
)
    requires
        driver.resting(),
        (driver.layer.frame->0).rx_console_mask != 0,
        driver.sends(after),
    ensures
        has_polled(driver, after),
{
}

/// When all replies are in, the application is asked for the next frame, with none at hand, and
/// that frame is sent, to every connected console. Where nobody is to reply the poll is closed at
/// once: the closing frame follows it, and the frame has one cycle less to go.
pub proof fn law_next_frame_is_sent<T: LocalWifiApplicationLayer>(
    driver: DriverState<T>,
    after: DriverState<T>,
)
    requires
        driver.resting(),
        (driver.layer.frame->0).rx_console_mask == 0,
        driver.sends(after),
    ensures
        exists|asked: DriverState<T>|
            {
                &&& #[trigger] asked.ledger == (Ledger { app: asked.ledger.app, ..driver.ledger })
                &&& asked.ledger.app matches Some(app)
                &&& T::fill_effect(
                    driver.ledger.app->0,
                    LayerState { frame: None, ..driver.layer },
                    app,
                    asked.layer,
                )
                &&& asked.layer.frame matches Some(frame)
                &&& frame.rx_console_mask == driver.layer.client_mask
                &&& driver.layer.client_mask != 0 ==> has_polled(asked, after)
                &&& driver.layer.client_mask == 0 ==> {
                    let number = asked.ledger.last_seq;
                    &&& after.layer.frame == Some(
                        HostFrame {
                            broadcast_cycles_remaining: (frame.broadcast_cycles_remaining
                                - 1) as u8,
                            ..frame
                        },
                    )
                    &&& after.layer.actions == asked.layer.actions.push(
                        Action::PacedTransmit {
                            wait_us: asked.ledger.packet_wait_us,
                            frame: poll_frame(asked.layer.local_mac@, number, frame),
                        },
                    ).push(
                        Action::Transmit {
                            frame: ack_frame(
                                asked.layer.local_mac@,
                                ((number + 1) % 0x1_0000) as u16,
                            ),
                        },
                    )
                    &&& after.ledger == (Ledger {
                        last_seq: ((number + 2) % 0x1_0000) as u16,
                        packet_wait_us: 3200,
                        data_duration_us: 2800,
                        ..asked.ledger
                    })
                }
            },
{
    let none = LayerState { frame: None, ..driver.layer };
    let (app, layer) = choose|app: T, layer: LayerState| #[trigger]
        T::fill_effect(driver.ledger.app->0, none, app, layer) && none.used(layer)
            && layer.frame is Some && after == driver.returned(app, layer).transmitted();
    let asked = driver.returned(app, layer);
    assert(asked.ledger == (Ledger { app: asked.ledger.app, ..driver.ledger }));
}

/// Where a step leads: after the client events the driver looks once for a reply of each connected
/// console, then it polls, then it waits for the replies of the consoles that it polled, until the
/// window is over, and then it begins anew.
pub proof fn law_cycle_goes_round<T: LocalWifiApplicationLayer>(
    driver: DriverState<T>,
    phase: DriverPhase,
    found: Found,
    after: DriverState<T>,
    next: DriverPhase,
)
    requires
        driver.steps(phase, found, after, next),
    ensures
        phase is Events ==> next is Drain && next->left == after.ledger.clients.len(),
        phase matches DriverPhase::Drain { left } ==> {
            &&& left > 0 ==> next is Drain && next->left == left - 1
            &&& left == 0 ==> next is Await && next->mask
                == (after.layer.frame->0).rx_console_mask
        },
        phase matches DriverPhase::Await { mask } ==> if mask == 0 || found.window_over {
            next is Events
        } else {
            next == phase
        },
{
}

/// What a step takes and what it passes over: a client event only at the beginning of a cycle, a
/// reply only before the poll or while replies are awaited, and a poll goes out exactly between the
/// two, where anybody is connected. A step that finds nothing changes nothing but that it reports.
pub proof fn law_step_takes_what_it_finds<T: LocalWifiApplicationLayer>(
    driver: DriverState<T>,
    phase: DriverPhase,
    found: Found,
    after: DriverState<T>,
    next: DriverPhase,
)
    requires
        driver.resting(),
        driver.steps(phase, found, after, next),
    ensures
        phase is Events ==> match found.event {
            Some(event) => driver.notes(event, after),
            None => after == driver,
        },
        phase is Drain && phase->left > 0 ==> match found.packet {
            None => after == driver,
            Some(packet) => exists|taken: DriverState<T>|
                {
                    &&& #[trigger] driver.receives(packet, taken)
                    &&& after.layer == taken.layer
                    &&& after.ledger == (Ledger {
                        latencies: driver.ledger.latencies.push(
                            elapsed(found.now_us, packet.handed_on),
                        ),
                        ..taken.ledger
                    })
                },
        },
        phase is Drain && phase->left == 0 && driver.ledger.clients.len() > 0 ==> exists|
            reported: DriverState<T>,
        |
            {
                &&& #[trigger] reported.sends(after)
                &&& has_reported_drained(driver, reported)
            },
        phase is Drain && phase->left == 0 && driver.ledger.clients.len() == 0
            ==> has_reported_drained(driver, after),
        phase is Await && phase->mask != 0 && !found.window_over ==> match found.packet {
            None => after == driver,
            Some(packet) => exists|taken: DriverState<T>|
                {
                    &&& #[trigger] driver.receives(packet, taken)
                    &&& after.layer == taken.layer
                    &&& after.ledger == (Ledger {
                        awaited_latencies: driver.ledger.awaited_latencies.push(
                            elapsed(found.now_us, packet.handed_on),
                        ),
                        air_latencies: driver.ledger.air_latencies.push(
                            elapsed(found.now_us, packet.received),
                        ),
                        ..taken.ledger
                    })
                },
        },
        phase is Await && (phase->mask == 0 || found.window_over) ==> has_reported_awaited(
            driver,
            after,
        ),
{
    match phase {
        DriverPhase::Events => {},
        DriverPhase::Drain { left } => {
            if left > 0 {
                if let Some(packet) = found.packet {
                    let taken = choose|taken: DriverState<T>| #[trigger]
                        driver.receives(packet, taken) && after == taken.timed(
                            elapsed(found.now_us, packet.handed_on),
                        );
                    lemma_reply_keeps_latencies(driver, packet, taken);
                    assert(driver.receives(packet, taken));
                }
            } else {
                assert(has_reported_drained(driver, driver.reported()));
                if driver.ledger.clients.len() > 0 {
                    assert(driver.reported().sends(after));
                }
            }
        },
        DriverPhase::Await { mask } => {
            if mask != 0 && !found.window_over {
                if let Some(packet) = found.packet {
                    let taken = choose|taken: DriverState<T>| #[trigger]
                        driver.receives(packet, taken) && after == taken.timed_awaited(
                            elapsed(found.now_us, packet.handed_on),
                            elapsed(found.now_us, packet.received),
                        );
                    lemma_reply_keeps_latencies(driver, packet, taken);
                    assert(driver.receives(packet, taken));
                }
            }
        },
    }
}

/// Taking a reply notes no latency.
proof fn lemma_reply_keeps_latencies<T: LocalWifiApplicationLayer>(
    driver: DriverState<T>,
    packet: Inbound,
    after: DriverState<T>,
)
    requires
        driver.receives(packet, after),
    ensures
        after.ledger.latencies == driver.ledger.latencies,
        after.ledger.awaited_latencies == driver.ledger.awaited_latencies,
        after.ledger.air_latencies == driver.ledger.air_latencies,
{
}

/// Whether a driver is another after it looked at the latencies of replies before a poll: a hundred
/// or more are reported, all of them and as they came, and forgotten. Fewer are kept.
pub open spec fn has_reported_drained<T>(before: DriverState<T>, after: DriverState<T>) -> bool {
    let window = before.ledger.latencies;
    if window.len() >= 100 {
        &&& after.layer == (LayerState {
            actions: before.layer.actions.push(Action::ReportLatency { awaited: false, window }),
            ..before.layer
        })
        &&& after.ledger == (Ledger { latencies: Seq::empty(), ..before.ledger })
    } else {
        after == before
    }
}

/// Whether a driver is another after it looked at the latencies of replies that were awaited, first
/// since they were handed on, then since they were received: a hundred or more are reported, all of
/// them and as they came, and forgotten. Fewer are kept.
pub open spec fn has_reported_awaited<T>(before: DriverState<T>, after: DriverState<T>) -> bool {
    let awaited = before.ledger.awaited_latencies;
    let air = before.ledger.air_latencies;
    let first = if awaited.len() >= 100 {
        seq![Action::ReportLatency { awaited: true, window: awaited }]
    } else {
        Seq::empty()
    };
    let second = if air.len() >= 100 {
        seq![Action::ReportLatency { awaited: true, window: air }]
    } else {
        Seq::empty()
    };
    &&& after.layer == (LayerState {
        actions: after.layer.actions,
        ..before.layer
    })
    &&& after.layer.actions =~= before.layer.actions + first + second
    &&& after.ledger == (Ledger {
        awaited_latencies: if awaited.len() >= 100 {
            Seq::empty()
        } else {
            awaited
        },
        air_latencies: if air.len() >= 100 {
            Seq::empty()
        } else {
            air
        },
        ..before.ledger
    })
}

/// A latency is the time that passed, in microseconds, as long as sixteen bits hold it.
pub proof fn law_latency_is_the_time_that_passed(now: u64, since: u64)
    ensures
        since <= now < since + 0x1_0000 ==> elapsed(now, since) == now - since,
        now < since ==> elapsed(now, since) == 0,
        since <= now ==> (now - since - elapsed(now, since)) % 0x1_0000 == 0,
{
}

/// A driver begins with nobody connected, nothing for the radio to do, nothing announced, and no
/// reply missing, so that the first poll asks the application and need not wait.
pub proof fn law_driver_begins_with_nobody<T: LocalWifiApplicationLayer>(
    driver: DriverState<T>,
    app: T,
    local_mac: [u8; 6],
)
    requires
        driver.begins(app, local_mac),
    ensures
        driver.ledger.app == Some(app),
        driver.layer.local_mac.octets == local_mac,
        forall|k: u64| !#[trigger] driver.ledger.clients.contains_key(k),
        driver.layer.client_mask == 0,
        driver.layer.actions.len() == 0,
        !driver.layer.broadcast.enabled,
        driver.layer.broadcast.payload is None,
        driver.layer.stream_code == 1,
        driver.layer.frame matches Some(frame) && frame.rx_console_mask == 0
            && frame.payload is None,
        driver.ledger.last_seq == 0,
        driver.ledger.packet_wait_us == 0,
        driver.ledger.latencies.len() == 0,
        driver.ledger.awaited_latencies.len() == 0,
        driver.ledger.air_latencies.len() == 0,
{
}

/// Setting up lets the application set itself up, once, on the layer as it is, and does nothing
/// else.
pub proof fn law_setup_is_the_applications<T: LocalWifiApplicationLayer>(
    driver: DriverState<T>,
    after: DriverState<T>,
)
    requires
        driver.sets_up(after),
    ensures
        after.ledger == (Ledger { app: after.ledger.app, ..driver.ledger }),
        after.ledger.app matches Some(app) && T::setup_effect(
            driver.ledger.app->0,
            driver.layer,
            app,
            after.layer,
        ),
{
}

/// What an application sets the beacons to is what they say from then on, and a switch of the
/// vendor tag carries exactly that, with the host's stream code.
pub proof fn law_beacons_say_what_was_set(
    layer: LayerState,
    interval_us: u64,
    packet: Seq<u8>,
    game_id: [u8; 4],
    beacon_type: BeaconType,
    cmd_size: u16,
    cmd_reply_size: u16,
    enabled: bool,
)
    ensures
        ({
            let set = layer.broadcasting(
                interval_us,
                packet,
                game_id,
                beacon_type,
                cmd_size,
                cmd_reply_size,
            );
            let after = set.announcing(enabled);
            &&& set == (LayerState { broadcast: set.broadcast, ..layer })
            &&& set.broadcast.interval_us == interval_us
            &&& set.broadcast.payload == Some(packet)
            &&& set.broadcast.enabled == layer.broadcast.enabled
            &&& after == (LayerState { actions: after.actions, ..set })
            &&& after.actions == layer.actions.push(
                Action::SetVendorIe {
                    enabled,
                    tag: DSWiFiBeaconTag {
                        game_id,
                        beacon_type,
                        cmd_data_size: cmd_size,
                        reply_data_size: cmd_reply_size,
                        stream_code: layer.stream_code,
                    },
                    payload: Some(packet),
                },
            )
        }),
{
}

/// A frame that an application sets is the one to poll with, as it is, but that all connected
/// consoles are to reply to it.
pub proof fn law_set_frame_is_the_one_polled_with(layer: LayerState, frame: HostFrame)
    ensures
        ({
            let after = layer.polling_with(frame);
            &&& after == (LayerState { frame: after.frame, ..layer })
            &&& after.frame == Some(HostFrame { rx_console_mask: layer.client_mask, ..frame })
        }),
{
}

/// Where the parts of a header stand that the host sends.
proof fn lemma_header(
    subtype: u8,
    receiver: Seq<u8>,
    transmitter: Seq<u8>,
    third: Seq<u8>,
    number: u16,
)
    requires
        subtype < 15,
        receiver.len() == 6,
        transmitter.len() == 6,
        third.len() == 6,
        number < 4096,
    ensures
        ({
            let header = data_header(subtype, true, receiver, transmitter, third, number);
            &&& header.len() == 24
            &&& header.take(4) == seq![(16 * subtype + 8) as u8, 2u8, 0u8, 0u8]
            &&& header.subrange(4, 10) == receiver
            &&& header.subrange(10, 16) == transmitter
            &&& header.subrange(16, 22) == third
            &&& header[22] + 256 * header[23] == 16 * number
        }),
{
    let header = data_header(subtype, true, receiver, transmitter, third, number);
    assert(header.take(4) =~= seq![(16 * subtype + 8) as u8, 2u8, 0u8, 0u8]);
    assert(header.subrange(4, 10) =~= receiver);
    assert(header.subrange(10, 16) =~= transmitter);
    assert(header.subrange(16, 22) =~= third);
}

/// The frame that closes a cycle, byte by byte: data and an acknowledgement from the distribution
/// system, of the host, to the group that a cycle is closed to, with the low twelve bits of the
/// counter as its sequence number.
pub proof fn law_closing_frame_layout(host: MacAddress, counter: u16)
    ensures
        ({
            let bytes = ack_frame(host@, counter);
            &&& bytes.len() == 28
            &&& bytes.take(4) == seq![0x18u8, 0x02, 0, 0]
            &&& bytes.subrange(4, 10) == seq![3u8, 9, 0xbf, 0, 0, 3]
            &&& bytes.subrange(10, 16) == host.octets@
            &&& bytes.subrange(16, 22) == seq![3u8, 9, 0xbf, 0, 0, 3]
            &&& bytes[22] + 256 * bytes[23] == 16 * (counter % 4096)
            &&& bytes.skip(24) == seq![0x33u8, 0, 0, 0]
        }),
{
    let group = ack_octets();
    let header = data_header(1, true, group, host@, group, (counter % 4096) as u16);
    lemma_header(1, group, host@, group, (counter % 4096) as u16);
    let bytes = ack_frame(host@, counter);
    assert(group =~= seq![3u8, 9, 0xbf, 0, 0, 3]);
    assert(bytes.take(4) =~= header.take(4));
    assert(bytes.subrange(4, 10) =~= header.subrange(4, 10));
    assert(bytes.subrange(10, 16) =~= header.subrange(10, 16));
    assert(bytes.subrange(16, 22) =~= header.subrange(16, 22));
    assert(bytes.skip(24) =~= seq![0x33u8, 0, 0, 0]);
}

/// A frame to the consoles, byte by byte: how long each may take to reply, who is to reply, the
/// size in half-words, the flags, the payload, and behind it, where there is a footer, the sequence
/// number and once more who is to reply.
pub proof fn law_host_frame_layout(frame: HostFrame)
    ensures
        ({
            let bytes = frame.encoded();
            let body = match frame.payload {
                Some(payload) => payload,
                None => Seq::empty(),
            };
            let end = 6 + body.len() as int;
            &&& bytes[0] + 256 * bytes[1] == frame.us_per_client_reply
            &&& bytes[2] + 256 * bytes[3] == frame.rx_console_mask
            &&& bytes[4] == (body.len() / 2) % 256
            &&& bytes[5] == frame.flags
            &&& bytes.subrange(6, end) == body
            &&& match frame.footer {
                Some(footer) => {
                    &&& bytes.len() == end + 4
                    &&& bytes[end] + 256 * bytes[end + 1] == footer.seq_no
                    &&& bytes[end + 2] + 256 * bytes[end + 3] == frame.rx_console_mask
                },
                None => bytes.len() == end,
            }
        }),
{
    let bytes = frame.encoded();
    assert(bytes.subrange(6, 6 + frame.body().len() as int) =~= frame.body());
}

/// A poll, byte by byte: data and a poll from the distribution system, of the host, to the group
/// that is polled, with time for replies where any are awaited, the low twelve bits of the counter
/// as its sequence number, and the frame behind it.
pub proof fn law_poll_layout(host: MacAddress, counter: u16, frame: HostFrame)
    ensures
        ({
            let bytes = poll_frame(host@, counter, frame);
            &&& bytes.len() >= 24
            &&& bytes.take(4) == if frame.rx_console_mask != 0 {
                seq![0x28u8, 0x02, 0xe0, 0x04]
            } else {
                seq![0x28u8, 0x02, 0xf0, 0x00]
            }
            &&& bytes.subrange(4, 10) == seq![3u8, 9, 0xbf, 0, 0, 0]
            &&& bytes.subrange(10, 16) == host.octets@
            &&& bytes.subrange(16, 22) == seq![0u8, 0, 0, 0, 0, 0]
            &&& bytes[22] + 256 * bytes[23] == 16 * (counter % 4096)
            &&& bytes.skip(24) == frame.encoded()
        }),
{
    let group = cmd_octets();
    let none = zeros(6);
    let header = data_header(2, true, group, host@, none, (counter % 4096) as u16);
    lemma_header(2, group, host@, none, (counter % 4096) as u16);
    let bytes = poll_frame(host@, counter, frame);
    assert(group =~= seq![3u8, 9, 0xbf, 0, 0, 0]);
    assert(none =~= seq![0u8, 0, 0, 0, 0, 0]);
    assert(header[0] == header.take(4)[0] && header[1] == header.take(4)[1]);
    assert(bytes.take(4) =~= if frame.rx_console_mask != 0 {
        seq![0x28u8, 0x02, 0xe0, 0x04]
    } else {
        seq![0x28u8, 0x02, 0xf0, 0x00]
    });
    assert(bytes.subrange(4, 10) =~= header.subrange(4, 10));
    assert(bytes.subrange(10, 16) =~= header.subrange(10, 16));
    assert(bytes.subrange(16, 22) =~= header.subrange(16, 22));
    assert(bytes.skip(24) =~= frame.encoded());
}

/// Which frames are replies, and what the driver is told of one: data and an acknowledgement, or an
/// acknowledgement alone, to the group that clients reply to. The driver is told who sent it and
/// when, and all that it carries; an acknowledgement alone carries nothing.
pub proof fn law_replies_are_told_from_others(frame: LinkFrame, now: u64, received: u64)
    ensures
        is_reply(frame) <==> (frame.subtype == 1 || frame.subtype == 5) && frame.destination
            == Some(seq![3u8, 9, 0xbf, 0, 0, 0x10]),
        inbound_of(frame, now, received).mac == frame.source->0,
        inbound_of(frame, now, received).handed_on == now,
        inbound_of(frame, now, received).received == received,
        frame.subtype == 1 ==> inbound_of(frame, now, received).data == frame.payload,
        frame.subtype == 5 ==> inbound_of(frame, now, received).data is None,
{
    assert(client_ack_octets() =~= seq![
        3u8,
        9,
        0xbf,
        0,
        0,
        0x10,
    ]);
}

/// The consoles that are connected after client events, in order: each that came and has not gone
/// since, with the number that it last came with.
pub open spec fn connected_after(events: Seq<ClientEvents>) -> Map<u64, LocalWifiClientDevice>
    decreases events.len(),
{
    if events.len() == 0 {
        Map::empty()
    } else {
        let earlier = connected_after(events.drop_last());
        match events.last() {
            ClientEvents::NewClient((mac, aid)) => earlier.insert(
                mac.number(),
                LocalWifiClientDevice { assoc_id: 1u16 << aid, assoc_id_num: aid, addr: mac },
            ),
            ClientEvents::LostClient((mac, _)) => earlier.remove(mac.number()),
        }
    }
}

/// Only finitely many consoles are connected.
proof fn lemma_finitely_many(events: Seq<ClientEvents>)
    ensures
        connected_after(events).dom().finite(),
    decreases events.len(),
{
    if events.len() > 0 {
        lemma_finitely_many(events.drop_last());
    }
}

/// Throughout a run the driver knows exactly who is connected: those that came, by the client
/// events that it found so far, and have not gone since. Polls, replies and the application change
/// nothing of that.
pub proof fn law_run_knows_who_is_connected<T: LocalWifiApplicationLayer>(
    run: RunState<T>,
    steps: int,
)
    requires
        run.follows(),
        0 <= steps <= run.turns.len(),
    ensures
        run.left(steps).ledger.clients == connected_after(events_found(run.turns.take(steps))),
    decreases steps,
{
    if steps == 0 {
        assert(run.turns.take(0) =~= Seq::<Turn<T>>::empty());
    } else {
        law_run_knows_who_is_connected(run, steps - 1);
        assert(run.turn_follows(steps - 1));
        let turn = run.turns[steps - 1];
        let turns = run.turns.take(steps);
        assert(turns.drop_last() =~= run.turns.take(steps - 1));
        assert(turns.last() == turn);
        law_only_events_change_the_clients(
            turn.before,
            turn.phase,
            turn.found,
            turn.after,
            turn.next,
        );
        let earlier = events_found(turns.drop_last());
        if turn.phase == DriverPhase::Events {
            if let Some(event) = turn.found.event {
                assert(earlier.push(event).drop_last() =~= earlier);
            }
        }
    }
}

/// A bare acknowledgement as a console sends it is taken for a reply of that console that carries
/// nothing.
pub proof fn law_bare_acknowledgement_is_recognised(
    host: Seq<u8>,
    console: Seq<u8>,
    sequence: Seq<u8>,
    rest: Seq<u8>,
    now: u64,
    received: u64,
)
    requires
        host.len() == 6,
        console.len() == 6,
        sequence.len() == 2,
    ensures
        ({
            let bytes = seq![0x58u8, 0x01, 0, 0] + host + console + seq![3u8, 9, 0xbf, 0, 0, 0x10]
                + sequence + rest;
            &&& is_data_frame(bytes)
            &&& is_reply(link_frame(bytes))
            &&& inbound_of(link_frame(bytes), now, received) == (Inbound {
                mac: console,
                data: None,
                handed_on: now,
                received,
            })
        }),
{
    let group = seq![3u8, 9, 0xbf, 0, 0, 0x10];
    let bytes = seq![0x58u8, 0x01, 0, 0] + host + console + group + sequence + rest;
    assert(client_ack_octets() =~= group);
    assert(bytes[0] == 0x58);
    assert(bytes[1] == 1);
    assert(bytes.subrange(10, 16) =~= console);
    assert(bytes.subrange(16, 22) =~= group);
}

/// A poll of a run asks exactly the consoles that are connected. Where the client events fit and
/// all replies to the last poll are in, the step that polls awaits a reply of every console that
/// came and has not gone since, and of nobody else.
pub proof fn law_run_polls_exactly_the_connected<T: LocalWifiApplicationLayer>(
    run: RunState<T>,
    i: int,
    aid: u8,
)
    requires
        run.follows(),
        run.events_fit(),
        0 <= i < run.turns.len(),
        run.turns[i].phase == (DriverPhase::Drain { left: 0 }),
        exists|k: u64| #[trigger]
            connected_after(events_found(run.turns.take(i))).contains_key(k),
        (run.turns[i].before.layer.frame->0).rx_console_mask == 0,
        aid < 16,
    ensures
        run.turns[i].next is Await,
        run.turns[i].next->mask & (1u16 << aid) != 0 <==> exists|k: u64|
            {
                &&& #[trigger] connected_after(events_found(run.turns.take(i))).contains_key(k)
                &&& connected_after(events_found(run.turns.take(i)))[k].assoc_id_num == aid
            },
{
    let turn = run.turns[i];
    let there = connected_after(events_found(run.turns.take(i)));
    assert(run.turn_follows(i));
    law_run_knows_who_is_connected(run, i);
    law_run_keeps_the_mask_right(run, i);
    assert(turn.before.ledger.clients == there);
    assert(turn.before.mask_matches());
    law_somebody_to_poll(turn.before);
    let k = choose|k: u64| #[trigger] there.contains_key(k);
    assert(there.dom().contains(k));
    lemma_finitely_many(events_found(run.turns.take(i)));
    assert(turn.before.ledger.clients.len() > 0);
    law_new_poll_asks_everybody(turn.before.reported(), turn.after);
    assert(turn.next->mask == turn.before.layer.client_mask);
    assert(names(turn.before.layer.client_mask, aid) <==> connected(there, aid));
}

} // verus!
