//! The state of a driver as a mathematical object, and how polls, replies and client events change
//! it.

use crate::ds_local_wifi_driver::frames::{
    client_footer_present, client_frame, client_payload_present, HostFrame,
};
use crate::ds_local_wifi_driver::layer::{
    Action, BeaconType, Broadcast, ClientEvents, LayerState, LocalWifiApplicationLayer,
    LocalWifiClientDevice,
};
use crate::ds_local_wifi_driver::link::{
    ack_octets, cmd_octets, data_header, is_reply, names_its_ends, Inbound, LinkFrame, DATA_CF_ACK,
    DATA_CF_POLL,
};
use crate::mac_address::{mac_number, MacAddress};
use crate::wire::zeros;
use vstd::prelude::*;

verus! {

/// How many latencies make a window to report on.
pub const LATENCY_WINDOW: usize = 100;

/// The wait after a poll, in microseconds, before the next one may be sent.
pub const POLL_SPACING_US: u64 = 3200;

/// How long a poll lasts, in microseconds, to which nobody replies.
pub const QUIET_POLL_US: u64 = 2800;

/// How long a poll lasts, in microseconds, to which consoles reply.
pub const ANSWERED_POLL_US: u64 = 6800;

/// The time slots of a beacon interval, in microseconds, and the packets that wait for one.
pub struct Slots {
    pub slot_1_duration_us: u64,
    pub slot_2_duration_us: u64,
    pub slot_3_duration_us: u64,
    pub slot_4_duration_us: u64,
    pub slot_2_packet: Option<Vec<u8>>,
    pub slot_3_packet: Option<Vec<u8>>,
    pub slot_4_packet: Option<Vec<u8>>,
}

/// What the driver keeps to itself.
pub struct Ledger<T> {
    /// The application. It is away while it runs.
    pub app: Option<T>,
    /// The sequence number of the next frame.
    pub last_seq: u16,
    /// The connected consoles, by the number of their address.
    pub clients: Map<u64, LocalWifiClientDevice>,
    pub assoc_id: u8,
    /// How long the last poll lasts.
    pub data_duration_us: u64,
    pub slots: Slots,
    /// How long to wait between the last poll and the next.
    pub packet_wait_us: u64,
    /// Latencies of the replies that came in before a poll.
    pub latencies: Seq<u16>,
    /// Latencies of the replies that were awaited, since they were handed on.
    pub awaited_latencies: Seq<u16>,
    /// Latencies of the replies that were awaited, since they were received.
    pub air_latencies: Seq<u16>,
}

/// The state of a driver.
pub struct DriverState<T> {
    pub layer: LayerState,
    pub ledger: Ledger<T>,
}

/// The addresses of the consoles in a table.
pub open spec fn addresses(clients: Map<u64, LocalWifiClientDevice>) -> Set<MacAddress> {
    Set::new(
        |mac: MacAddress|
            exists|k: u64| #[trigger] clients.contains_key(k) && clients[k].addr == mac,
    )
}

/// The frame with which the host closes a cycle.
pub open spec fn ack_frame(local_mac: Seq<u8>, counter: u16) -> Seq<u8> {
    data_header(
        DATA_CF_ACK,
        true,
        ack_octets(),
        local_mac,
        ack_octets(),
        (counter % 4096) as u16,
    ) + seq![0x33u8, 0x00u8, 0x00u8, 0x00u8]
}

/// The frame with which the host polls. Its duration field leaves room for replies, where some are
/// awaited.
pub open spec fn poll_frame(local_mac: Seq<u8>, counter: u16, frame: HostFrame) -> Seq<u8> {
    let header = data_header(
        DATA_CF_POLL,
        true,
        cmd_octets(),
        local_mac,
        zeros(6),
        (counter % 4096) as u16,
    );
    let timed = if frame.rx_console_mask != 0 {
        header.update(2, 0xe0).update(3, 0x04)
    } else {
        header.update(2, 0xf0).update(3, 0x00)
    };
    timed + frame.encoded()
}

/// The sequence number after this one.
pub open spec fn next_seq(last_seq: u16) -> u16 {
    if last_seq == u16::MAX {
        0
    } else {
        (last_seq + 1) as u16
    }
}

impl<T> DriverState<T> {
    /// Whether this is the state in which a driver begins: nobody is connected, and one empty frame
    /// is at hand.
    pub open spec fn begins(self, app: T, local_mac: [u8; 6]) -> bool {
        &&& self.ledger.app == Some(app)
        &&& self.ledger.last_seq == 0
        &&& self.ledger.clients == Map::<u64, LocalWifiClientDevice>::empty()
        &&& self.ledger.assoc_id == 1
        &&& self.ledger.data_duration_us == 5_000
        &&& self.ledger.slots == (Slots {
            slot_1_duration_us: 100_000,
            slot_2_duration_us: 3_000,
            slot_3_duration_us: 3_000,
            slot_4_duration_us: 3_000,
            slot_2_packet: None,
            slot_3_packet: None,
            slot_4_packet: None,
        })
        &&& self.ledger.packet_wait_us == 0
        &&& self.ledger.latencies == Seq::<u16>::empty()
        &&& self.ledger.awaited_latencies == Seq::<u16>::empty()
        &&& self.ledger.air_latencies == Seq::<u16>::empty()
        &&& self.layer == (LayerState {
            local_mac: MacAddress { octets: local_mac },
            client_mask: 0,
            broadcast: Broadcast {
                enabled: false,
                payload: None,
                interval_us: 0,
                game_id: [0x00, 0x00, 0xff, 0x00],
                beacon_type: BeaconType::EMPTY,
                cmd_size: 0,
                cmd_reply_size: 0,
            },
            stream_code: 1,
            frame: Some(
                HostFrame {
                    us_per_client_reply: 998,
                    rx_console_mask: 0,
                    flags: 0,
                    broadcast_cycles_remaining: 1,
                    payload: None,
                    footer: None,
                },
            ),
            actions: Seq::empty(),
        })
    }

    /// The driver with one more action for the radio.
    pub open spec fn doing(self, action: Action) -> DriverState<T> {
        DriverState { layer: self.layer.doing(action), ..self }
    }

    /// The driver after it closed a cycle.
    pub open spec fn acknowledged(self) -> DriverState<T> {
        let sent = self.doing(
            Action::Transmit { frame: ack_frame(self.layer.local_mac@, self.ledger.last_seq) },
        );
        DriverState {
            ledger: Ledger { last_seq: next_seq(self.ledger.last_seq), ..sent.ledger },
            ..sent
        }
    }

    /// The driver with another frame to poll with.
    pub open spec fn with_frame(self, frame: HostFrame) -> DriverState<T> {
        DriverState { layer: LayerState { frame: Some(frame), ..self.layer }, ..self }
    }
}

/// The time since `then`, in microseconds, in sixteen bits. A time to come counts as none.
pub open spec fn elapsed(now: u64, then: u64) -> u16 {
    if now >= then {
        ((now - then) % 0x1_0000) as u16
    } else {
        0
    }
}

/// Whether the bytes of a reply are a frame with a payload for the application.
pub open spec fn carries_payload(bytes: Seq<u8>) -> bool {
    client_payload_present(bytes) && client_frame(bytes).payload is Some
}

/// The bit of a console in the console masks.
pub open spec fn console_bit(aid: u8) -> u16 {
    1u16 << aid
}

impl<T: LocalWifiApplicationLayer> DriverState<T> {
    /// Whether the driver is at rest: the application is not running, and there is a frame to poll
    /// with.
    pub open spec fn resting(self) -> bool {
        self.ledger.app is Some && self.layer.frame is Some
    }

    /// Whether a poll can be sent. Where all replies to the last frame are in, the application sets
    /// the next one, and has to be able to.
    pub open spec fn can_send(self) -> bool {
        (self.layer.frame->0).rx_console_mask == 0 ==> {
            &&& (self.ledger.app->0).can_fill()
            &&& (self.ledger.app->0).delivers(self.layer.client_mask)
        }
    }

    /// The driver after the radio was told to send the frame at hand. A frame to which nobody
    /// replies is closed at once, and has one cycle less to go.
    pub open spec fn transmitted(self) -> DriverState<T> {
        let frame = self.layer.frame->0;
        let sent = self.doing(
            Action::PacedTransmit {
                wait_us: self.ledger.packet_wait_us,
                frame: poll_frame(self.layer.local_mac@, self.ledger.last_seq, frame),
            },
        );
        let counted = DriverState {
            ledger: Ledger {
                last_seq: next_seq(self.ledger.last_seq),
                packet_wait_us: POLL_SPACING_US,
                data_duration_us: if frame.rx_console_mask == 0 {
                    QUIET_POLL_US
                } else {
                    ANSWERED_POLL_US
                },
                ..self.ledger
            },
            ..sent
        };
        if frame.rx_console_mask == 0 {
            counted.acknowledged().with_frame(
                HostFrame {
                    broadcast_cycles_remaining: (frame.broadcast_cycles_remaining - 1) as u8,
                    ..frame
                },
            )
        } else {
            counted
        }
    }

    /// The driver with its application back, after the application ran.
    pub open spec fn returned(self, app: T, layer: LayerState) -> DriverState<T> {
        DriverState { layer, ledger: Ledger { app: Some(app), ..self.ledger } }
    }

    /// How sending a poll changes the driver. While replies are missing the same frame goes out
    /// again; when all are in, the application sets the next one.
    pub open spec fn sends(self, after: DriverState<T>) -> bool {
        if (self.layer.frame->0).rx_console_mask != 0 {
            after == self.transmitted()
        } else {
            let asked = LayerState { frame: None, ..self.layer };
            exists|app: T, layer: LayerState| #[trigger]
                T::fill_effect(self.ledger.app->0, asked, app, layer) && asked.used(layer)
                    && layer.frame is Some && after == self.returned(app, layer).transmitted()
        }
    }

    /// The console that an address belongs to.
    pub open spec fn client(self, mac: Seq<u8>) -> LocalWifiClientDevice {
        self.ledger.clients[mac_number(mac) as u64]
    }

    /// Whether an address belongs to a connected console.
    pub open spec fn knows(self, mac: Seq<u8>) -> bool {
        self.ledger.clients.contains_key(mac_number(mac) as u64)
    }

    /// The driver with one console less to wait for.
    pub open spec fn cleared(self, bit: u16) -> DriverState<T> {
        let frame = self.layer.frame->0;
        self.with_frame(HostFrame { rx_console_mask: frame.rx_console_mask & !bit, ..frame })
    }

    /// The driver after a console replied. The last reply closes the cycle.
    pub open spec fn replied(self, bit: u16) -> DriverState<T> {
        let cleared = self.cleared(bit);
        if (cleared.layer.frame->0).rx_console_mask == 0 {
            cleared.acknowledged()
        } else {
            cleared
        }
    }

    /// Whether what a console sent can be handed to the application.
    pub open spec fn can_hand_on(self, bytes: Seq<u8>, device: LocalWifiClientDevice) -> bool {
        &&& client_footer_present(bytes)
        &&& carries_payload(bytes) ==> (self.ledger.app->0).can_take(client_frame(bytes), device)
    }

    /// How handing on what a console sent changes the driver. Only a frame with a payload reaches
    /// the application.
    pub open spec fn hands_on(
        self,
        bytes: Seq<u8>,
        device: LocalWifiClientDevice,
        after: DriverState<T>,
    ) -> bool {
        if carries_payload(bytes) {
            exists|app: T, layer: LayerState| #[trigger]
                T::packet_effect(
                    self.ledger.app->0,
                    self.layer,
                    client_frame(bytes),
                    device,
                    app,
                    layer,
                ) && self.layer.used(layer) && after == self.returned(app, layer)
        } else {
            after == self
        }
    }

    /// Whether a reply can be taken.
    pub open spec fn can_receive(self, packet: Inbound) -> bool {
        &&& self.knows(packet.mac)
        &&& packet.data matches Some(bytes) ==> self.can_hand_on(bytes, self.client(packet.mac))
    }

    /// How a reply changes the driver.
    pub open spec fn receives(self, packet: Inbound, after: DriverState<T>) -> bool {
        let device = self.client(packet.mac);
        let replied = self.replied(device.assoc_id);
        match packet.data {
            Some(bytes) => replied.hands_on(bytes, device, after),
            None => after == replied,
        }
    }
}

/// Whether a received frame can be taken as it is.
pub open spec fn can_take_frame<T: LocalWifiApplicationLayer>(
    driver: DriverState<T>,
    frame: LinkFrame,
) -> bool {
    &&& names_its_ends(frame)
    &&& is_reply(frame) ==> {
        &&& driver.knows(frame.source->0)
        &&& frame.subtype == DATA_CF_ACK ==> (frame.payload matches Some(bytes)
            ==> driver.can_hand_on(bytes, driver.client(frame.source->0)))
    }
}

/// How a received frame, taken as it is, changes the driver: data goes to the application, a bare
/// acknowledgement strikes its sender off the list. Neither closes the cycle.
pub open spec fn takes_frame<T: LocalWifiApplicationLayer>(
    driver: DriverState<T>,
    frame: LinkFrame,
    after: DriverState<T>,
) -> bool {
    let device = driver.client(frame.source->0);
    if !is_reply(frame) {
        after == driver
    } else if frame.subtype == DATA_CF_ACK {
        match frame.payload {
            Some(bytes) => driver.hands_on(bytes, device, after),
            None => after == driver,
        }
    } else {
        after == driver.cleared(device.assoc_id)
    }
}

impl<T: LocalWifiApplicationLayer> DriverState<T> {
    /// The driver after a console came or went.
    pub open spec fn connecting(self, event: ClientEvents) -> DriverState<T> {
        match event {
            ClientEvents::NewClient((mac, aid)) => DriverState {
                layer: LayerState {
                    client_mask: self.layer.client_mask | console_bit(aid),
                    ..self.layer
                },
                ledger: Ledger {
                    clients: self.ledger.clients.insert(
                        mac.number(),
                        LocalWifiClientDevice {
                            assoc_id: console_bit(aid),
                            assoc_id_num: aid,
                            addr: mac,
                        },
                    ),
                    ..self.ledger
                },
            },
            ClientEvents::LostClient((mac, aid)) => DriverState {
                layer: LayerState {
                    client_mask: self.layer.client_mask & !console_bit(aid),
                    ..self.layer
                },
                ledger: Ledger { clients: self.ledger.clients.remove(mac.number()), ..self.ledger },
            },
        }
    }

    /// How a client event changes the driver: its own table first, the application next.
    pub open spec fn notes(self, event: ClientEvents, after: DriverState<T>) -> bool {
        exists|app: T| #[trigger]
            T::event_effect(self.ledger.app->0, event, app) && after == self.connecting(
                event,
            ).returned(app, self.connecting(event).layer)
    }

    /// How the application's `setup` changes the driver.
    pub open spec fn sets_up(self, after: DriverState<T>) -> bool {
        exists|app: T, layer: LayerState| #[trigger]
            T::setup_effect(self.ledger.app->0, self.layer, app, layer) && self.layer.used(layer)
                && after == self.returned(app, layer)
    }
}

/// The number by which a console is known in a client event.
pub open spec fn event_aid(event: ClientEvents) -> u8 {
    match event {
        ClientEvents::NewClient((_, aid)) => aid,
        ClientEvents::LostClient((_, aid)) => aid,
    }
}

impl<T: LocalWifiApplicationLayer> DriverState<T> {
    /// The driver with the latency of a reply noted that came in before a poll.
    pub open spec fn timed(self, latency: u16) -> DriverState<T> {
        DriverState {
            ledger: Ledger {
                latencies: self.ledger.latencies.push(latency),
                ..self.ledger
            },
            ..self
        }
    }

    /// The driver with the latencies of a reply noted that was awaited.
    pub open spec fn timed_awaited(self, latency: u16, air_latency: u16) -> DriverState<T> {
        DriverState {
            ledger: Ledger {
                awaited_latencies: self.ledger.awaited_latencies.push(latency),
                air_latencies: self.ledger.air_latencies.push(air_latency),
                ..self.ledger
            },
            ..self
        }
    }

    /// The driver after it looked whether the replies before a poll make a window to report on.
    pub open spec fn reported(self) -> DriverState<T> {
        let window = self.ledger.latencies;
        if window.len() >= LATENCY_WINDOW {
            let told = self.doing(Action::ReportLatency { awaited: false, window });
            DriverState { ledger: Ledger { latencies: Seq::empty(), ..told.ledger }, ..told }
        } else {
            self
        }
    }

    /// The driver after it looked whether the awaited replies make a window to report on, by when
    /// they were handed on.
    pub open spec fn reported_awaited(self) -> DriverState<T> {
        let window = self.ledger.awaited_latencies;
        if window.len() >= LATENCY_WINDOW {
            let told = self.doing(Action::ReportLatency { awaited: true, window });
            DriverState {
                ledger: Ledger { awaited_latencies: Seq::empty(), ..told.ledger },
                ..told
            }
        } else {
            self
        }
    }

    /// The driver after it looked whether the awaited replies make a window to report on, by when
    /// they were received.
    pub open spec fn reported_air(self) -> DriverState<T> {
        let window = self.ledger.air_latencies;
        if window.len() >= LATENCY_WINDOW {
            let told = self.doing(Action::ReportLatency { awaited: true, window });
            DriverState { ledger: Ledger { air_latencies: Seq::empty(), ..told.ledger }, ..told }
        } else {
            self
        }
    }
}

} // verus!
