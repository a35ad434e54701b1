//! What the driver offers to the application on top of it, and what it asks of that application.

use crate::ds_local_wifi_driver::frames::{
    bytes_of, ClientFrame, ClientToHostDataFrame, HostFrame, HostToClientDataFrame,
};
use crate::mac_address::MacAddress;
use vstd::prelude::*;

verus! {

/// What a beacon announces.
#[derive(Clone, Copy, Debug, PartialEq, Eq, Structural)]
pub enum BeaconType {
    EMPTY,
    MULTICART,
}

/// The fields of the vendor tag in a beacon.
#[derive(Clone, Copy, Debug, PartialEq, Eq)]
pub struct DSWiFiBeaconTag {
    pub game_id: [u8; 4],
    pub beacon_type: BeaconType,
    pub cmd_data_size: u16,
    pub reply_data_size: u16,
    pub stream_code: u16,
}

/// What the driver has the radio do. The driver collects actions, and its owner performs them in
/// order.
#[derive(Debug, PartialEq)]
pub enum DriverAction {
    /// Send a frame, but no sooner than `wait_us` microseconds after the last paced frame.
    PacedTransmit { wait_us: u64, frame: Vec<u8> },
    /// Send a frame now.
    Transmit { frame: Vec<u8> },
    /// Switch the vendor tag of the beacons on or off.
    SetVendorIe { enabled: bool, tag: DSWiFiBeaconTag, payload: Option<Vec<u8>> },
    /// Report on a full window of latencies, in microseconds: those of replies that were awaited,
    /// or those of replies that came in before a poll.
    ReportLatency { awaited: bool, window: Vec<u16> },
}

/// What an action says.
pub enum Action {
    PacedTransmit { wait_us: u64, frame: Seq<u8> },
    Transmit { frame: Seq<u8> },
    SetVendorIe { enabled: bool, tag: DSWiFiBeaconTag, payload: Option<Seq<u8>> },
    ReportLatency { awaited: bool, window: Seq<u16> },
}

impl View for DriverAction {
    type V = Action;

    open spec fn view(&self) -> Action {
        match self {
            DriverAction::PacedTransmit { wait_us, frame } => Action::PacedTransmit {
                wait_us: *wait_us,
                frame: frame@,
            },
            DriverAction::Transmit { frame } => Action::Transmit { frame: frame@ },
            DriverAction::SetVendorIe { enabled, tag, payload } => Action::SetVendorIe {
                enabled: *enabled,
                tag: *tag,
                payload: bytes_of(*payload),
            },
            DriverAction::ReportLatency { awaited, window } => Action::ReportLatency {
                awaited: *awaited,
                window: window@,
            },
        }
    }
}

/// What a list of actions says.
pub open spec fn actions_of(actions: Seq<DriverAction>) -> Seq<Action> {
    actions.map_values(|action: DriverAction| action@)
}

/// Whether a list of actions went on with nothing but switches of the beacons' vendor tag, which is
/// all that an application can have the radio do.
pub open spec fn only_announces(before: Seq<Action>, after: Seq<Action>) -> bool {
    &&& before.is_prefix_of(after)
    &&& forall|i: int| before.len() <= i < after.len() ==> (#[trigger] after[i]) is SetVendorIe
}

/// What the beacons are to say.
pub struct Broadcast {
    pub enabled: bool,
    pub payload: Option<Seq<u8>>,
    pub interval_us: u64,
    pub game_id: [u8; 4],
    pub beacon_type: BeaconType,
    pub cmd_size: u16,
    pub cmd_reply_size: u16,
}

/// The part of a driver that its application sees and sets.
pub struct LayerState {
    /// Address of the host.
    pub local_mac: MacAddress,
    /// One bit for each connected console.
    pub client_mask: u16,
    pub broadcast: Broadcast,
    pub stream_code: u16,
    /// The frame that the host polls with.
    pub frame: Option<HostFrame>,
    /// What the radio still has to do.
    pub actions: Seq<Action>,
}

impl LayerState {
    /// The layer with other beacon contents. Whether beacons are enabled stays as it is.
    pub open spec fn broadcasting(
        self,
        interval_us: u64,
        packet: Seq<u8>,
        game_id: [u8; 4],
        beacon_type: BeaconType,
        cmd_size: u16,
        cmd_reply_size: u16,
    ) -> LayerState {
        LayerState {
            broadcast: Broadcast {
                enabled: self.broadcast.enabled,
                payload: Some(packet),
                interval_us,
                game_id,
                beacon_type,
                cmd_size,
                cmd_reply_size,
            },
            ..self
        }
    }

    /// The tag that beacons with these contents carry.
    pub open spec fn tag(self) -> DSWiFiBeaconTag {
        DSWiFiBeaconTag {
            game_id: self.broadcast.game_id,
            beacon_type: self.broadcast.beacon_type,
            cmd_data_size: self.broadcast.cmd_size,
            reply_data_size: self.broadcast.cmd_reply_size,
            stream_code: self.stream_code,
        }
    }

    /// The layer with one more action.
    pub open spec fn doing(self, action: Action) -> LayerState {
        LayerState { actions: self.actions.push(action), ..self }
    }

    /// The layer with the radio told to switch the vendor tag of the beacons on or off.
    pub open spec fn announcing(self, enabled: bool) -> LayerState {
        self.doing(
            Action::SetVendorIe { enabled, tag: self.tag(), payload: self.broadcast.payload },
        )
    }

    /// The layer with another frame to poll with. All connected consoles are to reply to it.
    pub open spec fn polling_with(self, frame: HostFrame) -> LayerState {
        LayerState {
            frame: Some(HostFrame { rx_console_mask: self.client_mask, ..frame }),
            ..self
        }
    }

    /// Whether a layer is this one after an application used it. The address of the host, the
    /// connected consoles, the stream code and whether beacons are enabled are the driver's own.
    /// The frame to poll with stays, or is one that the application set: all connected consoles are
    /// to reply to it, and it carries a payload, of even size.
    pub open spec fn used(self, after: LayerState) -> bool {
        &&& after.local_mac == self.local_mac
        &&& after.client_mask == self.client_mask
        &&& after.stream_code == self.stream_code
        &&& after.broadcast.enabled == self.broadcast.enabled
        &&& after.frame == self.frame || {
            &&& after.frame matches Some(frame)
            &&& frame.rx_console_mask == self.client_mask
            &&& frame.payload matches Some(payload)
            &&& payload.len() % 2 == 0
        }
        &&& only_announces(self.actions, after.actions)
    }
}

/// A console that is connected to the host.
#[derive(Clone, Copy, Debug, PartialEq, Eq)]
pub struct LocalWifiClientDevice {
    /// The console's bit in the console masks.
    pub assoc_id: u16,
    /// The number of that bit.
    pub assoc_id_num: u8,
    pub addr: MacAddress,
}

/// A console that came or went.
#[derive(Clone, Copy, Debug, PartialEq, Eq)]
pub enum ClientEvents {
    NewClient((MacAddress, u8)),
    LostClient((MacAddress, u8)),
}

/// What the access point reports of a station.
#[derive(Clone, Copy, Debug, PartialEq, Eq, Structural)]
pub enum StationEvent {
    Connected,
    Disconnected,
    Other,
}

/// The client event that a report of the access point stands for. Other reports stand for none.
pub fn on_wifievent(event: StationEvent, mac: [u8; 6], aid: u8) -> (client_event: Option<
    ClientEvents,
>)
    ensures
        client_event == match event {
            StationEvent::Connected => Some(
                ClientEvents::NewClient((MacAddress { octets: mac }, aid)),
            ),
            StationEvent::Disconnected => Some(
                ClientEvents::LostClient((MacAddress { octets: mac }, aid)),
            ),
            StationEvent::Other => None,
        },
{
    match event {
        StationEvent::Connected => Some(ClientEvents::NewClient((MacAddress::new(mac), aid))),
        StationEvent::Disconnected => Some(ClientEvents::LostClient((MacAddress::new(mac), aid))),
        StationEvent::Other => None,
    }
}

/// What the driver offers to its application.
pub trait LocalWifiLayer: Sized {
    /// What the application cannot touch.
    type Rest;

    /// The part that the application sees and sets.
    spec fn layer(&self) -> LayerState;

    /// The addresses of the connected consoles.
    spec fn clients(&self) -> Set<MacAddress>;

    /// All the rest.
    spec fn rest(&self) -> Self::Rest;

    /// The address of the host.
    fn get_local_mac(&self) -> (mac: MacAddress)
        ensures
            mac == self.layer().local_mac,
    ;

    /// The address of a connected console. Which one is left open.
    fn get_console_hack(&self) -> (mac: MacAddress)
        requires
            exists|client: MacAddress| self.clients().contains(client),
        ensures
            self.clients().contains(mac),
    ;

    /// Sets what the beacons are to say. The interval is in microseconds.
    fn set_broadcast_packet(
        &mut self,
        interval_us: u64,
        packet: Vec<u8>,
        game_id: [u8; 4],
        beacon_type: BeaconType,
        cmd_size: u16,
        cmd_reply_size: u16,
    )
        ensures
            final(self).layer() == old(self).layer().broadcasting(
                interval_us,
                packet@,
                game_id,
                beacon_type,
                cmd_size,
                cmd_reply_size,
            ),
            final(self).clients() == old(self).clients(),
            final(self).rest() == old(self).rest(),
    ;

    /// Has the radio switch the vendor tag of the beacons on or off.
    fn set_broadcast_enabled(&mut self, enabled: bool)
        ensures
            final(self).layer() == old(self).layer().announcing(enabled),
            final(self).clients() == old(self).clients(),
            final(self).rest() == old(self).rest(),
    ;

    /// Sets the frame to poll with. It carries a payload, of even size.
    fn set_next_data_frame(&mut self, dataframe: HostToClientDataFrame)
        requires
            dataframe@.payload matches Some(payload) && payload.len() % 2 == 0,
        ensures
            final(self).layer() == old(self).layer().polling_with(dataframe@),
            final(self).clients() == old(self).clients(),
            final(self).rest() == old(self).rest(),
    ;
}

/// What the driver asks of its application.
pub trait LocalWifiApplicationLayer: Sized {
    /// How `setup` changes the application and its layer.
    spec fn setup_effect(before: Self, layer: LayerState, after: Self, layer_after: LayerState)
        -> bool;

    /// Whether the application is in order for the next poll.
    spec fn can_fill(&self) -> bool;

    /// Whether the next poll sets a frame that can be sent while these consoles are connected.
    spec fn delivers(&self, client_mask: u16) -> bool;

    /// How `fill_next_packet` changes the application and its layer.
    spec fn fill_effect(before: Self, layer: LayerState, after: Self, layer_after: LayerState)
        -> bool;

    /// Whether the application can take a frame of a console.
    spec fn can_take(&self, data_frame: ClientFrame, device: LocalWifiClientDevice) -> bool;

    /// How `on_packet` changes the application and its layer.
    spec fn packet_effect(
        before: Self,
        layer: LayerState,
        data_frame: ClientFrame,
        device: LocalWifiClientDevice,
        after: Self,
        layer_after: LayerState,
    ) -> bool;

    /// How `on_client_event` changes the application.
    spec fn event_effect(before: Self, client_event: ClientEvents, after: Self) -> bool;

    /// Called once, before the first poll.
    fn setup<L: LocalWifiLayer>(&mut self, upper_layer: &mut L)
        ensures
            Self::setup_effect(
                *old(self),
                old(upper_layer).layer(),
                *final(self),
                final(upper_layer).layer(),
            ),
            old(upper_layer).layer().used(final(upper_layer).layer()),
            final(upper_layer).clients() == old(upper_layer).clients(),
            final(upper_layer).rest() == old(upper_layer).rest(),
    ;

    /// Whether `fill_next_packet` may be called and will set a frame that can be sent.
    fn ready_to_fill(&self, client_mask: u16) -> (ready: bool)
        ensures
            ready <==> self.can_fill() && self.delivers(client_mask),
    ;

    /// Called when all replies are in: sets the next frame to poll with.
    fn fill_next_packet<L: LocalWifiLayer>(&mut self, upper_layer: &mut L)
        requires
            old(self).can_fill(),
        ensures
            Self::fill_effect(
                *old(self),
                old(upper_layer).layer(),
                *final(self),
                final(upper_layer).layer(),
            ),
            old(self).delivers(old(upper_layer).layer().client_mask) ==> {
                final(upper_layer).layer().frame matches Some(frame) && (frame.rx_console_mask == 0
                    ==> frame.broadcast_cycles_remaining >= 1)
            },
            old(upper_layer).layer().used(final(upper_layer).layer()),
            final(upper_layer).clients() == old(upper_layer).clients(),
            final(upper_layer).rest() == old(upper_layer).rest(),
    ;

    /// Whether `on_packet` may be called with this frame and this console.
    fn ready_for_packet(
        &self,
        data_frame: &ClientToHostDataFrame,
        device: &LocalWifiClientDevice,
    ) -> (ready: bool)
        ensures
            ready <==> self.can_take(data_frame@, *device),
    ;

    /// Called with each frame of a console that carries a payload.
    fn on_packet<L: LocalWifiLayer>(
        &mut self,
        upper_layer: &mut L,
        data_frame: &mut ClientToHostDataFrame,
        device: &LocalWifiClientDevice,
    )
        requires
            old(self).can_take(old(data_frame)@, *device),
        ensures
            Self::packet_effect(
                *old(self),
                old(upper_layer).layer(),
                old(data_frame)@,
                *device,
                *final(self),
                final(upper_layer).layer(),
            ),
            old(upper_layer).layer().used(final(upper_layer).layer()),
            final(upper_layer).clients() == old(upper_layer).clients(),
            final(upper_layer).rest() == old(upper_layer).rest(),
    ;

    /// Called when a console came or went.
    fn on_client_event(&mut self, client_event: ClientEvents)
        ensures
            Self::event_effect(*old(self), client_event, *final(self)),
    ;
}

/// An application that does nothing.
pub struct DummyLocalWifiApplicationLayer {}

impl LocalWifiApplicationLayer for DummyLocalWifiApplicationLayer {
    open spec fn setup_effect(
        before: Self,
        layer: LayerState,
        after: Self,
        layer_after: LayerState,
    ) -> bool {
        after == before && layer_after == layer
    }

    open spec fn can_fill(&self) -> bool {
        true
    }

    open spec fn delivers(&self, client_mask: u16) -> bool {
        false
    }

    open spec fn fill_effect(
        before: Self,
        layer: LayerState,
        after: Self,
        layer_after: LayerState,
    ) -> bool {
        after == before && layer_after == layer
    }

    open spec fn can_take(&self, data_frame: ClientFrame, device: LocalWifiClientDevice) -> bool {
        true
    }

    open spec fn packet_effect(
        before: Self,
        layer: LayerState,
        data_frame: ClientFrame,
        device: LocalWifiClientDevice,
        after: Self,
        layer_after: LayerState,
    ) -> bool {
        after == before && layer_after == layer
    }

    open spec fn event_effect(before: Self, client_event: ClientEvents, after: Self) -> bool {
        after == before
    }

    fn setup<L: LocalWifiLayer>(&mut self, upper_layer: &mut L) {
    }

    fn ready_to_fill(&self, client_mask: u16) -> (ready: bool) {
        false
    }

    fn fill_next_packet<L: LocalWifiLayer>(&mut self, upper_layer: &mut L) {
    }

    fn ready_for_packet(
        &self,
        data_frame: &ClientToHostDataFrame,
        device: &LocalWifiClientDevice,
    ) -> (ready: bool) {
        true
    }

    fn on_packet<L: LocalWifiLayer>(
        &mut self,
        upper_layer: &mut L,
        data_frame: &mut ClientToHostDataFrame,
        device: &LocalWifiClientDevice,
    ) {
    }

    fn on_client_event(&mut self, client_event: ClientEvents) {
    }
}

} // verus!
