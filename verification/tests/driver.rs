//! The driver and its polling cycle.

use pictochat_rs::ds_local_wifi_driver::cycle::{
    is_window_over, DriverPhase, StepInput, REPLY_WINDOW_US,
};
use pictochat_rs::ds_local_wifi_driver::driver::{LocalWifiDriver, LocalWifiDriverInner};
use pictochat_rs::ds_local_wifi_driver::frames::{
    ClientFrame, ClientToHostDataFrame, HostToClientDataFrame,
};
use pictochat_rs::ds_local_wifi_driver::layer::{
    on_wifievent, BeaconType, ClientEvents, DSWiFiBeaconTag, DriverAction,
    DummyLocalWifiApplicationLayer, LayerState, LocalWifiApplicationLayer, LocalWifiClientDevice,
    LocalWifiLayer, StationEvent,
};
use pictochat_rs::ds_local_wifi_driver::link::{
    client_ack_mac, cmd_mac, InboundPacket, ReceivedFrame, CF_ACK, DATA_CF_ACK,
};
use pictochat_rs::ds_local_wifi_driver::run::Run;
use pictochat_rs::mac_address::MacAddress;
use pictochat_rs::pictochat_app_driver::pictochat_app_driver::PictochatAppDriver;

const HOST: [u8; 6] = [0x00, 0x09, 0xbf, 1, 2, 3];
const ONE: MacAddress = MacAddress { octets: [0x00, 0x09, 0xbf, 1, 1, 1] };
const TWO: MacAddress = MacAddress { octets: [0x00, 0x09, 0xbf, 2, 2, 2] };

type Host = LocalWifiDriverInner<PictochatAppDriver>;

fn host() -> Host {
    let mut driver = LocalWifiDriver::new(PictochatAppDriver::default());
    let mut running = driver.start(HOST);
    running.setup();
    running.take_actions();
    running
}

fn input() -> StepInput {
    StepInput { event: None, packet: None, window_over: false, now_us: 0 }
}

fn event(event: ClientEvents) -> StepInput {
    StepInput { event: Some(event), ..input() }
}

fn packet(packet: InboundPacket) -> StepInput {
    StepInput { packet: Some(packet), now_us: 1000, ..input() }
}

fn over() -> StepInput {
    StepInput { window_over: true, ..input() }
}

fn step(host: &mut Host, phase: DriverPhase, input: &StepInput) -> DriverPhase {
    assert!(host.step_ready(phase, input));
    host.step(phase, input)
}

/// Connects a console and goes on to the poll that comes next.
fn connect(host: &mut Host, mac: MacAddress, aid: u8) {
    let phase = step(host, DriverPhase::Events, &event(ClientEvents::NewClient((mac, aid))));
    assert_eq!(phase, DriverPhase::Drain { left: host.client_count() });
}

fn poll(host: &mut Host) -> (DriverPhase, Vec<DriverAction>) {
    let phase = step(host, DriverPhase::Drain { left: 0 }, &input());
    (phase, host.take_actions())
}

fn ack_frame(sequence: u16) -> Vec<u8> {
    let mut frame = vec![0x18, 0x02, 0, 0, 0x03, 0x09, 0xbf, 0, 0, 3];
    frame.extend_from_slice(&HOST);
    frame.extend_from_slice(&[0x03, 0x09, 0xbf, 0, 0, 3]);
    frame.extend_from_slice(&(16 * sequence).to_le_bytes());
    frame.extend_from_slice(&[0x33, 0, 0, 0]);
    frame
}

fn sent(action: &DriverAction) -> (u64, Vec<u8>) {
    match action {
        DriverAction::PacedTransmit { wait_us, frame } => (*wait_us, frame.clone()),
        other => panic!("no poll: {:?}", other),
    }
}

#[test]
fn stations_that_come_and_go_are_client_events() {
    let mac = ONE.octets;
    let come = on_wifievent(StationEvent::Connected, mac, 3);
    assert_eq!(come, Some(ClientEvents::NewClient((ONE, 3))));
    let go = on_wifievent(StationEvent::Disconnected, mac, 3);
    assert_eq!(go, Some(ClientEvents::LostClient((ONE, 3))));
    assert_eq!(on_wifievent(StationEvent::Other, mac, 3), None);
}

#[test]
fn setup_announces_a_chat_room() {
    let mut driver = LocalWifiDriver::new(PictochatAppDriver::default());
    let mut running = driver.start(HOST);
    assert_eq!(running.take_actions(), vec![]);
    running.setup();
    let expected = DriverAction::SetVendorIe {
        enabled: true,
        tag: DSWiFiBeaconTag {
            game_id: [0, 0, 0, 0],
            beacon_type: BeaconType::MULTICART,
            cmd_data_size: 0xc0,
            reply_data_size: 0xc0,
            stream_code: 1,
        },
        payload: Some(vec![0x48, 0x23, 0x11, 0x0a, 1, 1, 4, 0]),
    };
    assert_eq!(running.take_actions(), vec![expected]);
    assert_eq!(running.take_actions(), vec![]);
}

#[test]
fn a_fresh_driver_announces_nothing() {
    let mut running = LocalWifiDriverInner::new(DummyLocalWifiApplicationLayer {}, HOST);
    running.setup();
    assert_eq!(running.take_actions(), vec![]);
    running.set_broadcast_enabled(false);
    let expected = DriverAction::SetVendorIe {
        enabled: false,
        tag: DSWiFiBeaconTag {
            game_id: [0, 0, 0xff, 0],
            beacon_type: BeaconType::EMPTY,
            cmd_data_size: 0,
            reply_data_size: 0,
            stream_code: 1,
        },
        payload: None,
    };
    assert_eq!(running.take_actions(), vec![expected]);
    assert_eq!(running.get_local_mac(), MacAddress::new(HOST));
}

#[test]
fn nobody_is_polled_while_nobody_is_connected() {
    let mut host = host();
    let phase = step(&mut host, DriverPhase::Events, &input());
    assert_eq!(phase, DriverPhase::Drain { left: 0 });
    assert!(!host.asks_application(phase));
    let (phase, actions) = poll(&mut host);
    assert_eq!(phase, DriverPhase::Await { mask: 0 });
    assert_eq!(actions, vec![]);
    assert_eq!(step(&mut host, phase, &input()), DriverPhase::Events);
}

#[test]
fn a_connected_console_is_polled() {
    let mut host = host();
    connect(&mut host, ONE, 1);
    assert_eq!(host.get_console_hack(), ONE);
    let phase = step(&mut host, DriverPhase::Drain { left: 1 }, &input());
    assert_eq!(phase, DriverPhase::Drain { left: 0 });
    assert!(host.asks_application(phase));
    let (phase, actions) = poll(&mut host);
    assert_eq!(phase, DriverPhase::Await { mask: 2 });
    assert_eq!(actions.len(), 1);
    let (wait_us, frame) = sent(&actions[0]);
    assert_eq!(wait_us, 0);
    let mut header = vec![0x28, 0x02, 0xe0, 0x04, 0x03, 0x09, 0xbf, 0, 0, 0];
    header.extend_from_slice(&HOST);
    header.extend_from_slice(&[0; 8]);
    assert_eq!(&frame[..24], header.as_slice());
    assert_eq!(&frame[24..30], &[0xe6, 0x03, 2, 0, 52, 28]);
    assert_eq!(&frame[30..34], &[5, 0, 104, 0]);
    assert_eq!(&frame[38..44], &[9, 0, 1, 0xbf, 3, 2]);
    assert_eq!(&frame[134..], &[1, 0, 2, 0]);
}

#[test]
fn the_last_reply_closes_the_cycle() {
    let mut host = host();
    connect(&mut host, ONE, 1);
    connect(&mut host, TWO, 2);
    let (phase, _) = poll(&mut host);
    assert_eq!(phase, DriverPhase::Await { mask: 6 });
    let phase = step(&mut host, phase, &packet(InboundPacket::ACK((ONE, 0, 0))));
    assert_eq!(phase, DriverPhase::Await { mask: 6 });
    assert_eq!(host.take_actions(), vec![]);
    assert_eq!(host.missing_replies(), 4);
    step(&mut host, phase, &packet(InboundPacket::ACK((TWO, 0, 0))));
    assert_eq!(host.missing_replies(), 0);
    assert_eq!(host.take_actions(), vec![DriverAction::Transmit { frame: ack_frame(1) }]);
    assert_eq!(step(&mut host, phase, &over()), DriverPhase::Events);
}

#[test]
fn an_unanswered_poll_is_repeated() {
    let mut host = host();
    connect(&mut host, ONE, 1);
    let (phase, first) = poll(&mut host);
    assert_eq!(step(&mut host, phase, &over()), DriverPhase::Events);
    assert!(!host.asks_application(DriverPhase::Drain { left: 0 }));
    let (_, second) = poll(&mut host);
    let (_, first) = sent(&first[0]);
    let (wait_us, second) = sent(&second[0]);
    assert_eq!(wait_us, 3200);
    assert_eq!(&first[..22], &second[..22]);
    assert_eq!(&second[22..24], &[0x10, 0]);
    assert_eq!(&first[24..], &second[24..]);
    assert_eq!(host.application().seq_no, 1);
}

#[test]
fn an_answered_poll_is_followed_by_the_next() {
    let mut host = host();
    connect(&mut host, ONE, 1);
    let (phase, _) = poll(&mut host);
    step(&mut host, phase, &packet(InboundPacket::ACK((ONE, 0, 0))));
    assert!(host.asks_application(DriverPhase::Drain { left: 0 }));
    poll(&mut host);
    assert_eq!(host.application().seq_no, 2);
}

#[test]
fn a_data_reply_reaches_the_application() {
    let mut host = host();
    connect(&mut host, ONE, 1);
    let (phase, _) = poll(&mut host);
    let reply = InboundPacket::DATA((ONE, vec![1, 0, 6, 0], 0, 0));
    step(&mut host, phase, &packet(reply));
    assert_eq!(host.application().member_list[1], ONE);
    assert_eq!(host.take_actions(), vec![DriverAction::Transmit { frame: ack_frame(1) }]);
    let (_, actions) = poll(&mut host);
    let (_, frame) = sent(&actions[0]);
    assert_eq!(&frame[30..34], &[4, 0, 104, 0]);
    assert_eq!(&frame[44..50], &[9, 0, 1, 0xbf, 1, 1]);
}

#[test]
fn a_reply_without_a_payload_does_not_reach_the_application() {
    let mut host = host();
    connect(&mut host, ONE, 1);
    let (phase, _) = poll(&mut host);
    step(&mut host, phase, &packet(InboundPacket::DATA((ONE, vec![0, 0, 0], 0, 0))));
    step(&mut host, phase, &packet(InboundPacket::DATA((ONE, vec![9, 0, 0], 0, 0))));
    assert_eq!(host.application().member_list[1], MacAddress::zero());
}

#[test]
fn consoles_that_come_and_go_change_the_mask() {
    let mut host = host();
    connect(&mut host, ONE, 1);
    connect(&mut host, TWO, 5);
    assert_eq!(host.client_count(), 2);
    assert_eq!(poll(&mut host).0, DriverPhase::Await { mask: 0x22 });
    host.on_packet_real(&InboundPacket::ACK((ONE, 0, 0)), 0);
    host.on_packet_real(&InboundPacket::ACK((TWO, 0, 0)), 0);
    let lost = event(ClientEvents::LostClient((ONE, 1)));
    let phase = step(&mut host, DriverPhase::Events, &lost);
    assert_eq!(phase, DriverPhase::Drain { left: 1 });
    assert_eq!(poll(&mut host).0, DriverPhase::Await { mask: 0x20 });
}

#[test]
fn replies_complete_a_cycle_in_any_order() {
    for order in [[ONE, TWO], [TWO, ONE]] {
        let mut host = host();
        connect(&mut host, ONE, 0);
        connect(&mut host, TWO, 15);
        assert_eq!(poll(&mut host).0, DriverPhase::Await { mask: 0x8001 });
        host.on_packet_real(&InboundPacket::ACK((order[0], 0, 0)), 0);
        host.on_packet_real(&InboundPacket::ACK((order[0], 0, 0)), 0);
        assert_ne!(host.missing_replies(), 0);
        host.on_packet_real(&InboundPacket::ACK((order[1], 0, 0)), 0);
        assert_eq!(host.missing_replies(), 0);
    }
}

#[test]
fn latencies_are_counted_in_sixteen_bits() {
    let mut host = host();
    connect(&mut host, ONE, 1);
    assert_eq!(host.on_packet_real(&InboundPacket::ACK((ONE, 900, 500)), 1000), (100, 500));
    assert_eq!(host.on_packet_real(&InboundPacket::ACK((ONE, 0, 1)), 65_537), (1, 0));
    assert_eq!(host.on_packet_real(&InboundPacket::ACK((ONE, 10, 20)), 5), (0, 0));
}

#[test]
fn replies_before_a_poll_make_a_window() {
    let mut host = host();
    connect(&mut host, ONE, 1);
    for _ in 0..99 {
        let reply = packet(InboundPacket::ACK((ONE, 990, 0)));
        step(&mut host, DriverPhase::Drain { left: 1 }, &reply);
    }
    host.take_actions();
    let (_, actions) = poll(&mut host);
    assert_eq!(actions.len(), 1);
    let reply = packet(InboundPacket::ACK((ONE, 990, 0)));
    step(&mut host, DriverPhase::Drain { left: 1 }, &reply);
    host.take_actions();
    let (_, actions) = poll(&mut host);
    assert_eq!(actions.len(), 2);
    let expected = DriverAction::ReportLatency { awaited: false, window: vec![10; 100] };
    assert_eq!(actions[0], expected);
}

#[test]
fn awaited_replies_make_two_windows() {
    let mut host = host();
    connect(&mut host, ONE, 1);
    let phase = DriverPhase::Await { mask: 2 };
    for _ in 0..100 {
        assert_eq!(step(&mut host, phase, &input()), phase);
        step(&mut host, phase, &packet(InboundPacket::ACK((ONE, 990, 980))));
    }
    host.take_actions();
    assert_eq!(step(&mut host, phase, &over()), DriverPhase::Events);
    let expected = vec![
        DriverAction::ReportLatency { awaited: true, window: vec![10; 100] },
        DriverAction::ReportLatency { awaited: true, window: vec![20; 100] },
    ];
    assert_eq!(host.take_actions(), expected);
    assert_eq!(step(&mut host, phase, &over()), DriverPhase::Events);
    assert_eq!(host.take_actions(), vec![]);
}

#[test]
fn steps_that_cannot_be_made() {
    let mut host = host();
    let far = event(ClientEvents::NewClient((ONE, 16)));
    assert!(!host.step_ready(DriverPhase::Events, &far));
    let gone = event(ClientEvents::LostClient((ONE, 200)));
    assert!(!host.step_ready(DriverPhase::Events, &gone));
    let stranger = packet(InboundPacket::ACK((ONE, 0, 0)));
    assert!(!host.step_ready(DriverPhase::Drain { left: 1 }, &stranger));
    assert!(!host.step_ready(DriverPhase::Await { mask: 2 }, &stranger));
    assert!(host.step_ready(DriverPhase::Await { mask: 0 }, &stranger));
    connect(&mut host, ONE, 1);
    assert!(host.step_ready(DriverPhase::Drain { left: 1 }, &stranger));
    let cut = packet(InboundPacket::DATA((ONE, vec![0, 8, 1], 0, 0)));
    assert!(!host.step_ready(DriverPhase::Drain { left: 1 }, &cut));
    let short = packet(InboundPacket::DATA((ONE, vec![1, 0, 0, 0], 0, 0)));
    assert!(!host.step_ready(DriverPhase::Drain { left: 1 }, &short));
}

#[test]
fn a_console_that_leaves_under_another_number_leaves_no_one_to_poll() {
    let mut host = host();
    connect(&mut host, ONE, 1);
    step(&mut host, DriverPhase::Events, &event(ClientEvents::LostClient((TWO, 1))));
    assert_eq!(host.client_count(), 1);
    assert!(!host.is_ready_to_send());
}

#[test]
fn an_application_without_frames_cannot_poll() {
    let mut running = LocalWifiDriverInner::new(DummyLocalWifiApplicationLayer {}, HOST);
    running.on_client_event(ClientEvents::NewClient((ONE, 1)));
    assert!(!running.step_ready(DriverPhase::Drain { left: 0 }, &input()));
    let reply = InboundPacket::DATA((ONE, vec![1, 0, 1, 2], 0, 0));
    assert!(running.is_ready_for_reply(&reply));
    running.on_packet_real(&reply, 0);
    assert_eq!(running.take_actions(), vec![DriverAction::Transmit { frame: ack_frame(0) }]);
}

fn received(subtype: u8, destination: MacAddress, payload: Option<Vec<u8>>) -> ReceivedFrame {
    ReceivedFrame { subtype, destination: Some(destination), source: Some(ONE), payload }
}

#[test]
fn raw_acknowledgement_clears_its_sender_only() {
    let mut host = host();
    connect(&mut host, ONE, 1);
    connect(&mut host, TWO, 2);
    poll(&mut host);
    host.on_data_frame(&received(CF_ACK, cmd_mac(), None));
    assert_eq!(host.missing_replies(), 6);
    host.on_data_frame(&received(CF_ACK, client_ack_mac(), None));
    assert_eq!(host.missing_replies(), 4);
    assert_eq!(host.take_actions(), vec![]);
}

#[test]
fn raw_data_reaches_the_application() {
    let mut host = host();
    connect(&mut host, ONE, 1);
    poll(&mut host);
    let data = Some(vec![1, 0, 6, 0]);
    host.on_data_frame(&received(DATA_CF_ACK, cmd_mac(), data.clone()));
    host.on_data_frame(&received(0, client_ack_mac(), data.clone()));
    host.on_data_frame(&received(DATA_CF_ACK, client_ack_mac(), None));
    assert_eq!(host.application().member_list[1], MacAddress::zero());
    host.on_data_frame(&received(DATA_CF_ACK, client_ack_mac(), data));
    assert_eq!(host.application().member_list[1], ONE);
    assert_eq!(host.missing_replies(), 2);
    assert_eq!(host.take_actions(), vec![]);
}

#[test]
fn sequence_numbers_wrap() {
    let mut host = host();
    connect(&mut host, ONE, 1);
    let (phase, _) = poll(&mut host);
    for _ in 0..4096 {
        step(&mut host, DriverPhase::Drain { left: 0 }, &input());
    }
    let actions = host.take_actions();
    let (_, frame) = sent(&actions[4094]);
    assert_eq!(&frame[22..24], &[0xf0, 0xff]);
    let (_, frame) = sent(&actions[4095]);
    assert_eq!(&frame[22..24], &[0, 0]);
    assert_eq!(phase, DriverPhase::Await { mask: 2 });
}

/// An application that counts its calls, and whose frames may go unanswered.
struct Counter {
    fills: u32,
    events: u32,
}

impl LocalWifiApplicationLayer for Counter {
    fn setup_effect(_: Self, _: LayerState, _: Self, _: LayerState) -> bool {
        true
    }

    fn can_fill(&self) -> bool {
        true
    }

    fn delivers(&self, _: u16) -> bool {
        true
    }

    fn fill_effect(_: Self, _: LayerState, _: Self, _: LayerState) -> bool {
        true
    }

    fn can_take(&self, _: ClientFrame, _: LocalWifiClientDevice) -> bool {
        true
    }

    fn packet_effect(
        _: Self,
        _: LayerState,
        _: ClientFrame,
        _: LocalWifiClientDevice,
        _: Self,
        _: LayerState,
    ) -> bool {
        true
    }

    fn event_effect(_: Self, _: ClientEvents, _: Self) -> bool {
        true
    }

    fn setup<L: LocalWifiLayer>(&mut self, upper_layer: &mut L) {
        upper_layer.set_broadcast_packet(1, vec![1], [1, 2, 3, 4], BeaconType::EMPTY, 5, 6);
        upper_layer.set_broadcast_enabled(true);
    }

    fn ready_to_fill(&self, _client_mask: u16) -> bool {
        true
    }

    fn fill_next_packet<L: LocalWifiLayer>(&mut self, upper_layer: &mut L) {
        self.fills += 1;
        upper_layer.set_next_data_frame(HostToClientDataFrame {
            payload: Some(vec![7, 7]),
            ..Default::default()
        });
    }

    fn ready_for_packet(
        &self,
        _data_frame: &ClientToHostDataFrame,
        _device: &LocalWifiClientDevice,
    ) -> bool {
        true
    }

    fn on_packet<L: LocalWifiLayer>(
        &mut self,
        _upper_layer: &mut L,
        _data_frame: &mut ClientToHostDataFrame,
        _device: &LocalWifiClientDevice,
    ) {
    }

    fn on_client_event(&mut self, _client_event: ClientEvents) {
        self.events += 1;
    }
}

#[test]
fn a_frame_that_nobody_answers_is_closed_at_once() {
    let mut running = LocalWifiDriverInner::new(Counter { fills: 0, events: 0 }, HOST);
    assert!(running.is_ready_to_send());
    running.send_current_data_frame();
    let actions = running.take_actions();
    assert_eq!(actions.len(), 2);
    let (_, frame) = sent(&actions[0]);
    assert_eq!(&frame[..4], &[0x28, 0x02, 0xf0, 0x00]);
    assert_eq!(&frame[24..], &[0xde, 0x03, 0, 0, 1, 0, 7, 7]);
    assert_eq!(actions[1], DriverAction::Transmit { frame: ack_frame(1) });
    running.send_current_data_frame();
    assert_eq!(running.application().fills, 2);
}

#[test]
fn the_application_is_told_of_consoles() {
    let mut running = LocalWifiDriverInner::new(Counter { fills: 0, events: 0 }, HOST);
    running.setup();
    running.on_client_event(ClientEvents::NewClient((ONE, 1)));
    running.on_client_event(ClientEvents::LostClient((ONE, 1)));
    assert_eq!(running.application().events, 2);
    let expected = DriverAction::SetVendorIe {
        enabled: true,
        tag: DSWiFiBeaconTag {
            game_id: [1, 2, 3, 4],
            beacon_type: BeaconType::EMPTY,
            cmd_data_size: 5,
            reply_data_size: 6,
            stream_code: 1,
        },
        payload: Some(vec![1]),
    };
    assert_eq!(running.take_actions(), vec![expected]);
}

#[test]
fn a_sound_host_goes_on() {
    let mut host = host();
    let mut phase = DriverPhase::Events;
    let consoles = [(ONE, 1), (TWO, 9)];
    let mut waited = 0;
    for round in 0..2000u64 {
        let mut found = StepInput { now_us: round, ..input() };
        let (mac, aid) = consoles[(round % 2) as usize];
        match phase {
            DriverPhase::Events => {
                found.event = match host.client_count() {
                    0 => Some(ClientEvents::NewClient((ONE, 1))),
                    1 if round % 5 == 0 => Some(ClientEvents::NewClient((TWO, 9))),
                    2 if round % 97 == 0 => Some(ClientEvents::LostClient((mac, aid))),
                    _ => None,
                };
                if let Some(ClientEvents::LostClient(_)) = found.event {
                    break;
                }
            }
            DriverPhase::Drain { .. } => {}
            DriverPhase::Await { .. } => {
                waited += 1;
                found.window_over = waited % 4 == 0;
                let body = if round % 3 == 0 { vec![1, 0, 6, 0] } else { vec![0, 0, 0] };
                if host.client_count() == 2 || mac == ONE {
                    found.packet = Some(InboundPacket::DATA((mac, body, round, round)));
                }
            }
        }
        phase = step(&mut host, phase, &found);
        host.take_actions();
    }
    assert!(host.application().seq_no > 10);
}

/// An application that writes down what it is called for.
struct Diary {
    calls: Vec<String>,
}

impl LocalWifiApplicationLayer for Diary {
    fn setup_effect(_: Self, _: LayerState, _: Self, _: LayerState) -> bool {
        true
    }

    fn can_fill(&self) -> bool {
        true
    }

    fn delivers(&self, _: u16) -> bool {
        true
    }

    fn fill_effect(_: Self, _: LayerState, _: Self, _: LayerState) -> bool {
        true
    }

    fn can_take(&self, _: ClientFrame, _: LocalWifiClientDevice) -> bool {
        true
    }

    fn packet_effect(
        _: Self,
        _: LayerState,
        _: ClientFrame,
        _: LocalWifiClientDevice,
        _: Self,
        _: LayerState,
    ) -> bool {
        true
    }

    fn event_effect(_: Self, _: ClientEvents, _: Self) -> bool {
        true
    }

    fn setup<L: LocalWifiLayer>(&mut self, _upper_layer: &mut L) {
        self.calls.push(String::from("setup"));
    }

    fn ready_to_fill(&self, _client_mask: u16) -> bool {
        true
    }

    fn fill_next_packet<L: LocalWifiLayer>(&mut self, upper_layer: &mut L) {
        self.calls.push(String::from("fill"));
        upper_layer.set_next_data_frame(HostToClientDataFrame {
            payload: Some(vec![7, 7]),
            ..Default::default()
        });
    }

    fn ready_for_packet(
        &self,
        _data_frame: &ClientToHostDataFrame,
        _device: &LocalWifiClientDevice,
    ) -> bool {
        true
    }

    fn on_packet<L: LocalWifiLayer>(
        &mut self,
        _upper_layer: &mut L,
        data_frame: &mut ClientToHostDataFrame,
        device: &LocalWifiClientDevice,
    ) {
        let payload = data_frame.payload.clone().unwrap();
        self.calls.push(format!("packet {:?} of {}", payload, device.assoc_id_num));
    }

    fn on_client_event(&mut self, client_event: ClientEvents) {
        self.calls.push(match client_event {
            ClientEvents::NewClient((_, aid)) => format!("{} came", aid),
            ClientEvents::LostClient((_, aid)) => format!("{} went", aid),
        });
    }
}

fn go_on(run: &mut Run<Diary>, input: &StepInput) -> DriverPhase {
    assert!(run.step_ready(input));
    run.step(input);
    run.phase()
}

#[test]
fn a_run_sets_its_application_up_first() {
    let mut driver = LocalWifiDriver::new(Diary { calls: Vec::new() });
    let mut run = driver.start(HOST).run();
    assert_eq!(run.phase(), DriverPhase::Events);
    assert_eq!(run.application().calls, vec!["setup"]);
    assert_eq!(run.take_actions(), vec![]);
}

#[test]
fn a_run_calls_for_each_event_once_and_in_order() {
    let mut driver = LocalWifiDriver::new(Diary { calls: Vec::new() });
    let mut run = driver.start(HOST).run();
    let phase = go_on(&mut run, &event(ClientEvents::NewClient((ONE, 1))));
    assert_eq!(phase, DriverPhase::Drain { left: 1 });
    let data = packet(InboundPacket::DATA((ONE, vec![1, 0, 5, 6], 0, 0)));
    assert_eq!(go_on(&mut run, &data), DriverPhase::Drain { left: 0 });
    assert!(run.asks_application());
    let phase = go_on(&mut run, &event(ClientEvents::NewClient((TWO, 2))));
    assert_eq!(phase, DriverPhase::Await { mask: 2 });
    go_on(&mut run, &packet(InboundPacket::ACK((ONE, 0, 0))));
    assert_eq!(go_on(&mut run, &over()), DriverPhase::Events);
    go_on(&mut run, &event(ClientEvents::LostClient((ONE, 1))));
    let expected = vec!["setup", "1 came", "packet [5, 6] of 1", "fill", "1 went"];
    assert_eq!(run.application().calls, expected);
    assert_eq!(run.take_actions().len(), 3);
    assert_eq!(run.take_actions(), vec![]);
}

#[test]
fn a_run_polls_nobody_while_nobody_is_connected() {
    let mut driver = LocalWifiDriver::new(PictochatAppDriver::default());
    let mut run = driver.start(HOST).run();
    assert_eq!(run.take_actions().len(), 1);
    for _ in 0..30 {
        assert!(run.step_ready(&input()));
        assert!(!run.asks_application());
        run.step(&input());
        assert_eq!(run.take_actions(), vec![]);
    }
    assert_eq!(run.application().seq_no, 0);
    assert_eq!(run.phase(), DriverPhase::Events);
}

#[test]
fn the_reply_window_is_open_for_ten_milliseconds() {
    assert_eq!(REPLY_WINDOW_US, 10_000);
    assert!(!is_window_over(0));
    assert!(!is_window_over(10_000));
    assert!(is_window_over(10_001));
    assert!(is_window_over(u64::MAX));
}

#[test]
fn a_run_polls_exactly_the_connected_consoles() {
    let mut driver = LocalWifiDriver::new(Diary { calls: Vec::new() });
    let mut run = driver.start(HOST).run();
    let rounds = [
        (ClientEvents::NewClient((ONE, 1)), vec![ONE], 0x0002),
        (ClientEvents::NewClient((TWO, 9)), vec![TWO, ONE], 0x0202),
        (ClientEvents::LostClient((ONE, 1)), vec![TWO], 0x0200),
    ];
    for (change, connected, mask) in rounds {
        let phase = go_on(&mut run, &event(change));
        assert_eq!(phase, DriverPhase::Drain { left: connected.len() });
        for _ in 0..connected.len() {
            go_on(&mut run, &input());
        }
        run.take_actions();
        assert_eq!(go_on(&mut run, &input()), DriverPhase::Await { mask });
        let actions = run.take_actions();
        assert_eq!(actions.len(), 1);
        let (_, frame) = sent(&actions[0]);
        assert_eq!(&frame[10..16], &HOST);
        assert_eq!(&frame[26..28], &mask.to_le_bytes());
        for mac in connected {
            go_on(&mut run, &packet(InboundPacket::DATA((mac, vec![1, 0, 5, 6], 0, 0))));
        }
        assert_eq!(go_on(&mut run, &over()), DriverPhase::Events);
    }
}
