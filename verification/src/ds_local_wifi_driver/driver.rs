//! The driver: polls the connected consoles, collects their replies, and runs the application.

use crate::ds_local_wifi_driver::flags::HostToClientFlags;
use crate::ds_local_wifi_driver::frames::{
    bytes_of, client_frame, ClientToHostDataFrame, HostFrame, HostToClientDataFrame,
};
use crate::ds_local_wifi_driver::layer::{
    actions_of, Action, BeaconType, Broadcast, ClientEvents, DSWiFiBeaconTag, DriverAction,
    LayerState, LocalWifiApplicationLayer, LocalWifiClientDevice, LocalWifiLayer,
};
use crate::ds_local_wifi_driver::link::{
    ack_mac, client_ack_mac, cmd_mac, host_header, same_octets, InboundPacket, ReceivedFrame,
    CF_ACK, DATA_CF_ACK, DATA_CF_POLL,
};
use crate::ds_local_wifi_driver::state::{
    ack_frame, addresses, can_take_frame, elapsed, event_aid, poll_frame, takes_frame, DriverState,
    Ledger, Slots, ANSWERED_POLL_US, LATENCY_WINDOW, POLL_SPACING_US, QUIET_POLL_US,
};
use crate::mac_address::MacAddress;
use crate::wire::{copy_range, zeros};
use std::collections::HashMap;
use vstd::prelude::*;

verus! {

broadcast use vstd::std_specs::hash::group_hash_axioms;

/// What the beacons are to say.
pub struct BroadcastData {
    pub enabled: bool,
    pub payload: Option<Vec<u8>>,
    pub interval_us: u64,
    pub game_id: [u8; 4],
    pub beacon_type: BeaconType,
    pub cmd_size: u16,
    pub cmd_reply_size: u16,
}

impl View for BroadcastData {
    type V = Broadcast;

    open spec fn view(&self) -> Broadcast {
        Broadcast {
            enabled: self.enabled,
            payload: bytes_of(self.payload),
            interval_us: self.interval_us,
            game_id: self.game_id,
            beacon_type: self.beacon_type,
            cmd_size: self.cmd_size,
            cmd_reply_size: self.cmd_reply_size,
        }
    }
}

/// The running driver.
pub struct LocalWifiDriverInner<T: LocalWifiApplicationLayer> {
    next_layer: Option<T>,
    last_seq: u16,
    local_mac: MacAddress,
    gbl_stream_code: u16,
    broadcast_data: BroadcastData,
    client_map: HashMap<u64, LocalWifiClientDevice>,
    curr_data_frame: Option<HostToClientDataFrame>,
    curr_assoc_id: u8,
    curr_data_duration_us: u64,
    slots: Slots,
    last_packet_duration_us: u64,
    all_client_mask: u16,
    latency_avg: Vec<u16>,
    latency_avg_2: Vec<u16>,
    latency_avg_3: Vec<u16>,
    outbox: Vec<DriverAction>,
}

/// What an optional frame says.
pub open spec fn frame_of(frame: Option<HostToClientDataFrame>) -> Option<HostFrame> {
    match frame {
        Some(frame) => Some(frame@),
        None => None,
    }
}

impl<T: LocalWifiApplicationLayer> View for LocalWifiDriverInner<T> {
    type V = DriverState<T>;

    closed spec fn view(&self) -> DriverState<T> {
        DriverState {
            layer: LayerState {
                local_mac: self.local_mac,
                client_mask: self.all_client_mask,
                broadcast: self.broadcast_data@,
                stream_code: self.gbl_stream_code,
                frame: frame_of(self.curr_data_frame),
                actions: actions_of(self.outbox@),
            },
            ledger: Ledger {
                app: self.next_layer,
                last_seq: self.last_seq,
                clients: self.client_map@,
                assoc_id: self.curr_assoc_id,
                data_duration_us: self.curr_data_duration_us,
                slots: self.slots,
                packet_wait_us: self.last_packet_duration_us,
                latencies: self.latency_avg@,
                awaited_latencies: self.latency_avg_2@,
                air_latencies: self.latency_avg_3@,
            },
        }
    }
}

impl<T: LocalWifiApplicationLayer> LocalWifiDriverInner<T> {
    /// A driver that has not begun: nobody is connected, and one empty poll is due.
    pub fn new(next_layer: T, local_mac: [u8; 6]) -> (driver: Self)
        ensures
            driver@.begins(next_layer, local_mac),
            driver@.resting(),
    {
        let driver = LocalWifiDriverInner {
            next_layer: Some(next_layer),
            last_seq: 0,
            local_mac: MacAddress::new(local_mac),
            gbl_stream_code: 1,
            broadcast_data: BroadcastData {
                enabled: false,
                payload: None,
                interval_us: 0,
                game_id: [0x00, 0x00, 0xff, 0x00],
                beacon_type: BeaconType::EMPTY,
                cmd_size: 0,
                cmd_reply_size: 0,
            },
            client_map: HashMap::new(),
            curr_data_frame: Some(
                HostToClientDataFrame {
                    us_per_client_reply: 998,
                    rx_console_mask: 0,
                    flags: HostToClientFlags::empty(),
                    broadcast_cycles_remaining: 1,
                    payload: None,
                    footer: None,
                },
            ),
            curr_assoc_id: 1,
            curr_data_duration_us: 5_000,
            slots: Slots {
                slot_1_duration_us: 100_000,
                slot_2_duration_us: 3_000,
                slot_3_duration_us: 3_000,
                slot_4_duration_us: 3_000,
                slot_2_packet: None,
                slot_3_packet: None,
                slot_4_packet: None,
            },
            last_packet_duration_us: 0,
            all_client_mask: 0,
            latency_avg: Vec::new(),
            latency_avg_2: Vec::new(),
            latency_avg_3: Vec::new(),
            outbox: Vec::new(),
        };
        assert(driver@.layer.actions =~= Seq::<Action>::empty());
        driver
    }

    /// Adds an action for the radio.
    fn push_action(&mut self, action: DriverAction)
        ensures
            final(self)@ == old(self)@.doing(action@),
    {
        self.outbox.push(action);
        assert(self@.layer.actions =~= old(self)@.layer.actions.push(action@));
    }

    /// Closes a cycle: tells the consoles that all replies are in.
    fn send_hardware_ack_frame(&mut self)
        ensures
            final(self)@ == old(self)@.acknowledged(),
    {
        let ack = ack_mac();
        let mut frame = host_header(DATA_CF_ACK, &ack, &self.local_mac, &ack, self.last_seq);
        frame.push(0x33);
        frame.push(0x00);
        frame.push(0x00);
        frame.push(0x00);
        assert(frame@ =~= ack_frame(self.local_mac@, self.last_seq));
        self.push_action(DriverAction::Transmit { frame });
        self.last_seq = self.last_seq.wrapping_add(1);
    }
}

impl<T: LocalWifiApplicationLayer> LocalWifiLayer for LocalWifiDriverInner<T> {
    type Rest = Ledger<T>;

    open spec fn layer(&self) -> LayerState {
        self@.layer
    }

    open spec fn clients(&self) -> Set<MacAddress> {
        addresses(self@.ledger.clients)
    }

    open spec fn rest(&self) -> Ledger<T> {
        self@.ledger
    }

    fn get_local_mac(&self) -> (mac: MacAddress) {
        self.local_mac
    }

    fn get_console_hack(&self) -> (mac: MacAddress) {
        let mut found: Option<MacAddress> = None;
        for device in devices: self.client_map.values()
            invariant
                devices.seq().unref().to_set() == self.client_map@.values(),
                found is None ==> devices.index() == 0,
                found matches Some(mac) ==> self.clients().contains(mac),
        {
            proof {
                let place = devices.index() as int;
                assert(devices.seq().unref()[place] == *device);
                assert(devices.seq().unref().contains(*device));
                assert(self.client_map@.values().contains(*device));
                assert(exists|k: u64| #[trigger]
                    self.client_map@.contains_key(k) && self.client_map@[k] == *device);
                assert(self.clients().contains(device.addr));
            }
            if found.is_none() {
                found = Some(device.addr);
            }
        }
        proof {
            let client = choose|client: MacAddress| self.clients().contains(client);
            let k = choose|k: u64| #[trigger]
                self.client_map@.contains_key(k) && self.client_map@[k].addr == client;
            assert(self.client_map@.values().contains(self.client_map@[k]));
        }
        found.unwrap()
    }

    fn set_broadcast_packet(
        &mut self,
        interval_us: u64,
        packet: Vec<u8>,
        game_id: [u8; 4],
        beacon_type: BeaconType,
        cmd_size: u16,
        cmd_reply_size: u16,
    ) {
        self.broadcast_data.payload = Some(packet);
        self.broadcast_data.interval_us = interval_us;
        self.broadcast_data.game_id = game_id;
        self.broadcast_data.beacon_type = beacon_type;
        self.broadcast_data.cmd_size = cmd_size;
        self.broadcast_data.cmd_reply_size = cmd_reply_size;
    }

    fn set_broadcast_enabled(&mut self, enabled: bool) {
        let tag = DSWiFiBeaconTag {
            game_id: self.broadcast_data.game_id,
            beacon_type: self.broadcast_data.beacon_type,
            cmd_data_size: self.broadcast_data.cmd_size,
            reply_data_size: self.broadcast_data.cmd_reply_size,
            stream_code: self.gbl_stream_code,
        };
        let payload: Option<Vec<u8>> = match &self.broadcast_data.payload {
            Some(payload) => Some(copy_range(payload.as_slice(), 0, payload.len())),
            None => None,
        };
        assert(bytes_of(payload) == self@.layer.broadcast.payload) by {
            if let Some(bytes) = self.broadcast_data.payload {
                assert(bytes@.subrange(0, bytes@.len() as int) =~= bytes@);
            }
        }
        self.push_action(DriverAction::SetVendorIe { enabled, tag, payload });
    }

    fn set_next_data_frame(&mut self, dataframe: HostToClientDataFrame) {
        let mut dataframe = dataframe;
        dataframe.rx_console_mask = self.all_client_mask;
        self.curr_data_frame = Some(dataframe);
    }
}

impl<T: LocalWifiApplicationLayer> LocalWifiDriverInner<T> {
    /// Polls: has the radio send the frame at hand, or the next one where all replies are in.
    pub fn send_current_data_frame(&mut self)
        requires
            old(self)@.resting(),
            old(self)@.can_send(),
        ensures
            old(self)@.sends(final(self)@),
            final(self)@.resting(),
    {
        let frame = self.curr_data_frame.take().unwrap();
        let mut next_layer = self.next_layer.take().unwrap();
        if frame.rx_console_mask == 0 {
            next_layer.fill_next_packet(self);
            assert(T::fill_effect(
                old(self)@.ledger.app->0,
                LayerState { frame: None, ..old(self)@.layer },
                next_layer,
                self@.layer,
            ));
            self.next_layer = Some(next_layer);
            assert(self@ == old(self)@.returned(next_layer, self@.layer));
            self.transmit();
        } else {
            self.curr_data_frame = Some(frame);
            self.next_layer = Some(next_layer);
            assert(self@ == old(self)@);
            self.transmit();
        }
    }

    /// Has the radio send the frame at hand.
    fn transmit(&mut self)
        requires
            old(self)@.resting(),
            (old(self)@.layer.frame->0).rx_console_mask == 0 ==> (old(
                self,
            )@.layer.frame->0).broadcast_cycles_remaining >= 1,
        ensures
            final(self)@ == old(self)@.transmitted(),
            final(self)@.resting(),
    {
        let mut frame = self.curr_data_frame.take().unwrap();
        let bytes = frame.to_bytes();
        let mut net_bytes = host_header(
            DATA_CF_POLL,
            &cmd_mac(),
            &self.local_mac,
            &MacAddress::zero(),
            self.last_seq,
        );
        if frame.rx_console_mask != 0 {
            net_bytes.set(2, 0xe0);
            net_bytes.set(3, 0x04);
        } else {
            net_bytes.set(2, 0xf0);
            net_bytes.set(3, 0x00);
        }
        net_bytes.extend_from_slice(bytes.as_slice());
        assert(zeros(6) =~= seq![0u8, 0u8, 0u8, 0u8, 0u8, 0u8]);
        assert(net_bytes@ =~= poll_frame(self.local_mac@, self.last_seq, frame@));
        let wait_us: u64 = self.last_packet_duration_us;
        self.push_action(DriverAction::PacedTransmit { wait_us, frame: net_bytes });
        self.last_packet_duration_us = POLL_SPACING_US;
        self.last_seq = self.last_seq.wrapping_add(1);
        if frame.rx_console_mask == 0 {
            self.send_hardware_ack_frame();
            frame.broadcast_cycles_remaining -= 1;
            self.curr_data_duration_us = QUIET_POLL_US;
        } else {
            self.curr_data_duration_us = ANSWERED_POLL_US;
        }
        self.curr_data_frame = Some(frame);
    }
}

/// The time since `then`, in microseconds, in sixteen bits.
fn micros_since(now: u64, then: u64) -> (micros: u16)
    ensures
        micros == elapsed(now, then),
{
    if now >= then {
        ((now - then) % 0x1_0000) as u16
    } else {
        0
    }
}

impl<T: LocalWifiApplicationLayer> LocalWifiDriverInner<T> {
    /// Looks a console up.
    fn find(&self, mac: &MacAddress) -> (device: Option<LocalWifiClientDevice>)
        ensures
            device is Some <==> self@.knows(mac@),
            device matches Some(found) ==> found == self@.client(mac@),
    {
        match self.client_map.get(&mac.to_number()) {
            Some(device) => Some(*device),
            None => None,
        }
    }

    /// Strikes a console off the list of those whose replies are missing.
    fn clear(&mut self, bit: u16)
        requires
            old(self)@.layer.frame is Some,
        ensures
            final(self)@ == old(self)@.cleared(bit),
    {
        let mut frame = self.curr_data_frame.take().unwrap();
        frame.rx_console_mask = frame.rx_console_mask & !bit;
        self.curr_data_frame = Some(frame);
    }

    /// Notes the reply of a console.
    fn note_reply(&mut self, device: &LocalWifiClientDevice)
        requires
            old(self)@.resting(),
        ensures
            final(self)@ == old(self)@.replied(device.assoc_id),
            final(self)@.resting(),
    {
        self.clear(device.assoc_id);
        let all_in = match &self.curr_data_frame {
            Some(frame) => frame.rx_console_mask == 0,
            None => false,
        };
        if all_in {
            self.send_hardware_ack_frame();
        }
    }

    /// Hands what a console sent to the application, where it is a frame with a payload.
    fn hand_on(&mut self, bytes: &[u8], device: &LocalWifiClientDevice)
        requires
            old(self)@.resting(),
            old(self)@.can_hand_on(bytes@, *device),
        ensures
            old(self)@.hands_on(bytes@, *device, final(self)@),
            final(self)@.resting(),
    {
        match ClientToHostDataFrame::from_bytes(bytes) {
            None => {},
            Some(mut data_frame) => {
                if data_frame.payload.is_some() {
                    let mut layer = self.next_layer.take().unwrap();
                    layer.on_packet(self, &mut data_frame, device);
                    assert(T::packet_effect(
                        old(self)@.ledger.app->0,
                        old(self)@.layer,
                        client_frame(bytes@),
                        *device,
                        layer,
                        self@.layer,
                    ));
                    self.next_layer = Some(layer);
                    assert(self@ == old(self)@.returned(layer, self@.layer));
                }
            },
        }
    }

    /// Takes a reply, and gives its latencies in microseconds: since it was handed on, and since it
    /// was received.
    pub fn on_packet_real(&mut self, data: &InboundPacket, now: u64) -> (latencies: (u16, u16))
        requires
            old(self)@.resting(),
            old(self)@.can_receive(data@),
        ensures
            old(self)@.receives(data@, final(self)@),
            final(self)@.resting(),
            latencies == (elapsed(now, data@.handed_on), elapsed(now, data@.received)),
    {
        match data {
            InboundPacket::ACK((mac, handed_on, received)) => {
                let client = self.find(mac).unwrap();
                self.note_reply(&client);
                (micros_since(now, *handed_on), micros_since(now, *received))
            },
            InboundPacket::DATA((mac, payload, handed_on, received)) => {
                let client = self.find(mac).unwrap();
                self.note_reply(&client);
                self.hand_on(payload.as_slice(), &client);
                (micros_since(now, *handed_on), micros_since(now, *received))
            },
        }
    }

    /// Takes a received frame as it is.
    pub fn on_data_frame(&mut self, data: &ReceivedFrame)
        requires
            old(self)@.resting(),
            can_take_frame(old(self)@, data@),
        ensures
            takes_frame(old(self)@, data@, final(self)@),
            final(self)@.resting(),
    {
        if data.subtype == DATA_CF_ACK {
            let destination = data.destination.unwrap();
            if same_octets(&destination, &client_ack_mac()) {
                let source = data.source.unwrap();
                let client = self.find(&source).unwrap();
                match &data.payload {
                    None => {},
                    Some(bytes) => {
                        self.hand_on(bytes.as_slice(), &client);
                    },
                }
            }
        } else if data.subtype == CF_ACK {
            let destination = data.destination.unwrap();
            if same_octets(&destination, &client_ack_mac()) {
                let source = data.source.unwrap();
                let client = self.find(&source).unwrap();
                self.clear(client.assoc_id);
            }
        }
    }

    /// Lets the application set itself up, before the first cycle.
    pub fn setup(&mut self)
        requires
            old(self)@.resting(),
        ensures
            old(self)@.sets_up(final(self)@),
            final(self)@.resting(),
    {
        let mut next_layer = self.next_layer.take().unwrap();
        next_layer.setup(self);
        assert(T::setup_effect(
            old(self)@.ledger.app->0,
            old(self)@.layer,
            next_layer,
            self@.layer,
        ));
        self.next_layer = Some(next_layer);
        assert(self@ == old(self)@.returned(next_layer, self@.layer));
    }

    /// Notes that a console came or went. Only sixteen consoles have a bit.
    pub fn on_client_event(&mut self, event: ClientEvents)
        requires
            old(self)@.resting(),
            event_aid(event) < 16,
        ensures
            old(self)@.notes(event, final(self)@),
            final(self)@.resting(),
    {
        match event {
            ClientEvents::NewClient((mac, aid)) => {
                let device = LocalWifiClientDevice {
                    assoc_id: 1u16 << aid,
                    assoc_id_num: aid,
                    addr: mac,
                };
                self.client_map.insert(mac.to_number(), device);
                self.all_client_mask = self.all_client_mask | 1u16 << aid;
            },
            ClientEvents::LostClient((mac, aid)) => {
                self.client_map.remove(&mac.to_number());
                self.all_client_mask = self.all_client_mask & !(1u16 << aid);
            },
        }
        assert(self@.ledger.clients =~= old(self)@.connecting(event).ledger.clients);
        assert(self@ == old(self)@.connecting(event));
        let mut next_layer = self.next_layer.take().unwrap();
        next_layer.on_client_event(event);
        self.next_layer = Some(next_layer);
        assert(T::event_effect(old(self)@.ledger.app->0, event, next_layer));
    }

    /// What the radio has to do, in order. The driver forgets it.
    pub fn take_actions(&mut self) -> (actions: Vec<DriverAction>)
        ensures
            actions_of(actions@) == old(self)@.layer.actions,
            final(self)@ == (DriverState {
                layer: LayerState { actions: Seq::empty(), ..old(self)@.layer },
                ..old(self)@
            }),
    {
        let mut actions: Vec<DriverAction> = Vec::new();
        std::mem::swap(&mut actions, &mut self.outbox);
        assert(self@.layer.actions =~= Seq::<Action>::empty());
        actions
    }

    /// The application, for its owner to give it events and to take events from it.
    pub fn application(&mut self) -> (app: &mut T)
        requires
            old(self)@.resting(),
        ensures
            *app == old(self)@.ledger.app->0,
            final(self)@ == old(self)@.returned(*final(app), old(self)@.layer),
    {
        self.next_layer.as_mut().unwrap()
    }

    /// How many consoles are connected.
    pub fn client_count(&self) -> (count: usize)
        ensures
            count == self@.ledger.clients.len(),
    {
        self.client_map.len()
    }

    /// The consoles whose replies are missing.
    pub fn missing_replies(&self) -> (mask: u16)
        requires
            self@.resting(),
        ensures
            mask == (self@.layer.frame->0).rx_console_mask,
    {
        match &self.curr_data_frame {
            Some(frame) => frame.rx_console_mask,
            None => 0,
        }
    }

    /// Whether a poll can be sent.
    pub fn is_ready_to_send(&self) -> (ready: bool)
        requires
            self@.resting(),
        ensures
            ready <==> self@.can_send(),
    {
        if self.missing_replies() != 0 {
            return true;
        }
        match &self.next_layer {
            Some(app) => app.ready_to_fill(self.all_client_mask),
            None => false,
        }
    }

    /// Whether a reply can be taken.
    pub fn is_ready_for_reply(&self, data: &InboundPacket) -> (ready: bool)
        requires
            self@.resting(),
        ensures
            ready <==> self@.can_receive(data@),
    {
        match data {
            InboundPacket::ACK((mac, _, _)) => self.find(mac).is_some(),
            InboundPacket::DATA((mac, payload, _, _)) => match self.find(mac) {
                None => false,
                Some(client) => {
                    let bytes = payload.as_slice();
                    ClientToHostDataFrame::is_complete(bytes) && match (
                        ClientToHostDataFrame::from_bytes(bytes),
                        &self.next_layer,
                    ) {
                        (Some(data_frame), Some(app)) => data_frame.payload.is_none()
                            || app.ready_for_packet(&data_frame, &client),
                        _ => true,
                    }
                },
            },
        }
    }
}

/// Empties a window.
fn take_window(window: &mut Vec<u16>) -> (taken: Vec<u16>)
    ensures
        taken@ == old(window)@,
        final(window)@ == Seq::<u16>::empty(),
{
    let mut taken: Vec<u16> = Vec::new();
    std::mem::swap(&mut taken, window);
    taken
}

impl<T: LocalWifiApplicationLayer> LocalWifiDriverInner<T> {
    /// Notes the latency of a reply that came in before a poll.
    pub(crate) fn note_latency(&mut self, latency: u16)
        ensures
            final(self)@ == old(self)@.timed(latency),
    {
        self.latency_avg.push(latency);
    }

    /// Notes the latencies of a reply that was awaited.
    pub(crate) fn note_awaited_latency(&mut self, latency: u16, air_latency: u16)
        ensures
            final(self)@ == old(self)@.timed_awaited(latency, air_latency),
    {
        self.latency_avg_2.push(latency);
        self.latency_avg_3.push(air_latency);
    }

    /// Reports on the replies that came in before a poll, where they make a window.
    pub(crate) fn report(&mut self)
        ensures
            final(self)@ == old(self)@.reported(),
    {
        if self.latency_avg.len() >= LATENCY_WINDOW {
            let window = take_window(&mut self.latency_avg);
            self.push_action(DriverAction::ReportLatency { awaited: false, window });
        }
    }

    /// Reports on the replies that were awaited, by when they were handed on.
    pub(crate) fn report_awaited(&mut self)
        ensures
            final(self)@ == old(self)@.reported_awaited(),
    {
        if self.latency_avg_2.len() >= LATENCY_WINDOW {
            let window = take_window(&mut self.latency_avg_2);
            self.push_action(DriverAction::ReportLatency { awaited: true, window });
        }
    }

    /// Reports on the replies that were awaited, by when they were received.
    pub(crate) fn report_air(&mut self)
        ensures
            final(self)@ == old(self)@.reported_air(),
    {
        if self.latency_avg_3.len() >= LATENCY_WINDOW {
            let window = take_window(&mut self.latency_avg_3);
            self.push_action(DriverAction::ReportLatency { awaited: true, window });
        }
    }
}

/// A driver that is not running yet.
pub struct LocalWifiDriver<T: LocalWifiApplicationLayer> {
    next_layer: Option<T>,
}

impl<T: LocalWifiApplicationLayer> LocalWifiDriver<T> {
    /// The application that waits to be run, until the driver is started.
    pub closed spec fn application(self) -> Option<T> {
        self.next_layer
    }

    /// A driver for an application.
    pub fn new(next_layer: T) -> (driver: Self)
        ensures
            driver.application() == Some(next_layer),
    {
        LocalWifiDriver { next_layer: Some(next_layer) }
    }

    /// Starts the driver at an address. It can be started once.
    pub fn start(&mut self, local_mac: [u8; 6]) -> (running: LocalWifiDriverInner<T>)
        requires
            old(self).application() is Some,
        ensures
            final(self).application() is None,
            running@.begins(old(self).application()->0, local_mac),
    {
        let next_layer = self.next_layer.take().unwrap();
        LocalWifiDriverInner::new(next_layer, local_mac)
    }
}

} // verus!
