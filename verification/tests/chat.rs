//! The chat application: what it sends, and what it makes of what consoles send.

use pictochat_rs::ds_local_wifi_driver::driver::LocalWifiDriverInner;
use pictochat_rs::ds_local_wifi_driver::flags::ClientToHostFlags;
use pictochat_rs::ds_local_wifi_driver::frames::ClientToHostDataFrame;
use pictochat_rs::ds_local_wifi_driver::layer::{
    ClientEvents, DriverAction, DummyLocalWifiApplicationLayer, LocalWifiApplicationLayer,
    LocalWifiClientDevice,
};
use pictochat_rs::ds_local_wifi_driver::link::InboundPacket;
use pictochat_rs::mac_address::MacAddress;
use pictochat_rs::pictochat_app_driver::events::{
    PictochatAppState, PictochatEvent, PictochatStateObject, PictochatUserMessageEvent,
    PictochatUserStateEvent,
};
use pictochat_rs::pictochat_app_driver::pictochat_app_driver::{is_zero, PictochatAppDriver};
use pictochat_rs::pictochat_app_driver::pictochat_packets::{
    ConsoleIdPayload, MessagePayload, PictochatType1, PictochatType2,
};
use pictochat_rs::wide_string::WStringWrapper;
use std::collections::VecDeque;

const HOST: [u8; 6] = [0x00, 0x09, 0xbf, 1, 2, 3];
const ONE: MacAddress = MacAddress { octets: [0x00, 0x09, 0xbf, 1, 1, 1] };
const MAGIC: [u8; 4] = [0xa1, 0xa2, 0xa3, 0xa4];
const MASK: u16 = 2;

type Layer = LocalWifiDriverInner<DummyLocalWifiApplicationLayer>;

fn layer() -> Layer {
    let mut layer = LocalWifiDriverInner::new(DummyLocalWifiApplicationLayer {}, HOST);
    layer.on_client_event(ClientEvents::NewClient((ONE, 1)));
    layer
}

fn device() -> LocalWifiClientDevice {
    LocalWifiClientDevice { assoc_id: 2, assoc_id_num: 1, addr: ONE }
}

fn networked() -> PictochatAppDriver {
    PictochatAppDriver {
        incoming_events: Some(VecDeque::new()),
        outgoing_events: Some(Vec::new()),
        ..Default::default()
    }
}

/// Polls once: gives the flags and the payload that go out, and checks the rest of the frame.
fn poll(chat: &mut PictochatAppDriver, layer: &mut Layer) -> (u8, Vec<u8>) {
    assert!(chat.ready_to_fill(MASK));
    chat.fill_with_magic(layer, MAGIC);
    take_frame(chat, layer)
}

fn take_frame(chat: &PictochatAppDriver, layer: &mut Layer) -> (u8, Vec<u8>) {
    layer.take_actions();
    layer.send_current_data_frame();
    let actions = layer.take_actions();
    layer.on_packet_real(&InboundPacket::ACK((ONE, 0, 0)), 0);
    match &actions[0] {
        DriverAction::PacedTransmit { frame, .. } => {
            let body = &frame[24..];
            let size = body[4] as usize * 2;
            assert_eq!(&body[..4], &[0xe6, 0x03, 2, 0]);
            let mut footer = chat.seq_no.to_le_bytes().to_vec();
            footer.extend_from_slice(&[2, 0]);
            assert_eq!(&body[6 + size..], footer.as_slice());
            (body[5], body[6..6 + size].to_vec())
        }
        other => panic!("no poll: {:?}", other),
    }
}

fn client_frame(payload: Option<Vec<u8>>) -> ClientToHostDataFrame {
    ClientToHostDataFrame {
        payload_size: 0,
        flags: ClientToHostFlags { bits: 0 },
        payload,
        footer_seq_no: None,
    }
}

fn takes(chat: &PictochatAppDriver, packet: Vec<u8>) -> bool {
    chat.ready_for_packet(&client_frame(Some(packet)), &device())
}

fn give(chat: &mut PictochatAppDriver, layer: &mut Layer, packet: Vec<u8>) {
    let mut frame = client_frame(Some(packet));
    assert!(chat.ready_for_packet(&frame, &device()));
    chat.on_packet(layer, &mut frame, &device());
}

fn announcement(size: u16) -> Vec<u8> {
    let mut bytes = PictochatType1 { data_size: size, ..Default::default() }.to_bytes();
    bytes[0] = 0;
    bytes
}

fn piece(offset: u16, last: bool, payload: &[u8]) -> Vec<u8> {
    PictochatType2 {
        payload_length: payload.len() as u8,
        transfer_flags: last as u8,
        write_offset: offset,
        payload: Some(payload.to_vec()),
        ..Default::default()
    }
    .to_bytes()
}

fn send_whole(chat: &mut PictochatAppDriver, layer: &mut Layer, whole: &[u8]) {
    give(chat, layer, announcement(whole.len() as u16));
    let count = whole.chunks(180).count();
    for (i, chunk) in whole.chunks(180).enumerate() {
        give(chat, layer, piece(180 * i as u16, i + 1 == count, chunk));
    }
}

fn identity() -> ConsoleIdPayload {
    ConsoleIdPayload {
        magic: [3, 0],
        to: ONE,
        name: WStringWrapper::from_text("Ann"),
        bio: WStringWrapper::from_text("Hi!"),
        colour: 3,
        birth_day: 24,
        birth_month: 12,
    }
}

fn message(content: Vec<u8>) -> PictochatEvent {
    PictochatEvent::MESSAGE(PictochatUserMessageEvent {
        mac_address: None,
        message_content: content,
    })
}

fn member_list(kind: u8, chat: &PictochatAppDriver) -> Vec<u8> {
    let mut bytes = vec![kind, 0, 104, 0];
    bytes.extend_from_slice(&MAGIC);
    for member in chat.member_list.iter() {
        let o = member.octets;
        bytes.extend_from_slice(&[o[1], o[0], o[3], o[2], o[5], o[4]]);
    }
    bytes
}

fn request(console_id: u16) -> Vec<u8> {
    PictochatType1 { console_id, data_size: 84, ..Default::default() }.to_bytes()
}

fn introduction(chat: &PictochatAppDriver, stage: u8) -> Vec<u8> {
    let mut id = chat.identity.clone();
    id.magic = [3, stage];
    let mut bytes = vec![2, 0, 96, 0, 0, 5, 84, 1, 0, 0, 0, 0];
    bytes.extend_from_slice(&id.to_bytes());
    bytes
}

#[test]
fn default_application() {
    let chat = PictochatAppDriver::default();
    assert_eq!(chat.seq_no, 0);
    assert_eq!(chat.state, PictochatAppState::Idle);
    assert_eq!(chat.member_list, [MacAddress::zero(); 16]);
    assert_eq!(chat.desired_state_queue.len(), 0);
    assert!(chat.state_tracker.is_none());
    assert!(chat.incoming_events.is_none() && chat.outgoing_events.is_none());
    assert_eq!(chat.identity, ConsoleIdPayload::default());
}

#[test]
fn setup_makes_the_host_a_member() {
    let mut chat = PictochatAppDriver::default();
    let mut layer = layer();
    chat.setup(&mut layer);
    assert_eq!(chat.get_member_list(&layer)[0], MacAddress::new(HOST));
    assert_eq!(chat.identity.to, MacAddress::new(HOST));
    assert_eq!(chat.identity.bio.to_utf8(), "Hello World!");
    assert_eq!(chat.identity.name.to_utf8(), "");
    assert_eq!(chat.identity.magic, [3, 0]);
    assert_eq!(layer.take_actions().len(), 1);
}

#[test]
fn idle_application_sends_the_member_list() {
    let mut chat = PictochatAppDriver::default();
    let mut layer = layer();
    chat.setup(&mut layer);
    for _ in 0..3 {
        assert_eq!(poll(&mut chat, &mut layer), (28, member_list(5, &chat)));
    }
    assert_eq!(chat.seq_no, 3);
}

#[test]
fn member_lists_carry_a_magic_drawn_by_chance() {
    let mut chat = PictochatAppDriver::default();
    let mut layer = layer();
    let mut magics = Vec::new();
    for _ in 0..8 {
        chat.fill_next_packet(&mut layer);
        let (flags, payload) = take_frame(&chat, &mut layer);
        assert_eq!(flags, 28);
        assert_eq!(&payload[..4], &[5, 0, 104, 0]);
        assert_eq!(&payload[8..], &[0; 96]);
        magics.push(payload[4..8].to_vec());
    }
    assert!(magics.iter().any(|magic| magic != &magics[0]));
}

#[test]
fn joining_console_gets_the_other_member_list_once() {
    let mut chat = PictochatAppDriver::default();
    let mut layer = layer();
    give(&mut chat, &mut layer, vec![6, 0]);
    assert_eq!(chat.member_list[1], ONE);
    assert_eq!(poll(&mut chat, &mut layer), (28, member_list(4, &chat)));
    assert_eq!(poll(&mut chat, &mut layer), (28, member_list(5, &chat)));
}

#[test]
fn unknown_packets_only_make_a_member() {
    let mut chat = PictochatAppDriver::default();
    let mut layer = layer();
    give(&mut chat, &mut layer, vec![9]);
    assert_eq!(chat.member_list[1], ONE);
    assert_eq!(chat.desired_state_queue.len(), 0);
}

#[test]
fn identity_is_told_and_answered() {
    let mut chat = networked();
    let mut layer = layer();
    chat.setup(&mut layer);
    send_whole(&mut chat, &mut layer, &identity().to_bytes());
    let mut name = identity().name.as_bytes().to_vec();
    name.resize(20, 0);
    let mut bio = identity().bio.as_bytes().to_vec();
    bio.resize(52, 0);
    let expected = PictochatEvent::STATE(PictochatUserStateEvent {
        mac_address: ONE,
        is_leaving: false,
        birthday: 24,
        birthmonth: 12,
        name: WStringWrapper::from_utf16le(name).unwrap(),
        bio: WStringWrapper::from_utf16le(bio).unwrap(),
    });
    assert_eq!(chat.outgoing_events, Some(vec![expected]));
    assert!(chat.temp_buffer.is_none());
    assert_eq!(chat.console_state_map.len(), 1);
    assert!(chat.console_state_map.contains_key(&ONE.to_number()));

    let mut echoed = announcement(84);
    echoed[0] = 1;
    assert_eq!(poll(&mut chat, &mut layer), (29, echoed));
    assert_eq!(poll(&mut chat, &mut layer), (28, member_list(5, &chat)));
    assert_eq!(poll(&mut chat, &mut layer), (29, request(0)));
    assert_eq!(poll(&mut chat, &mut layer), (30, introduction(&chat, 0)));
    assert_eq!(poll(&mut chat, &mut layer), (29, request(0)));
    assert_eq!(poll(&mut chat, &mut layer), (30, introduction(&chat, 1)));
    assert_eq!(poll(&mut chat, &mut layer), (28, member_list(5, &chat)));
    assert_eq!(poll(&mut chat, &mut layer), (29, request(1)));
    assert_eq!(poll(&mut chat, &mut layer), (158, piece(0, true, &identity().to_bytes())));
    assert_eq!(poll(&mut chat, &mut layer), (28, member_list(5, &chat)));
}

#[test]
fn known_console_is_not_welcomed_again() {
    let mut chat = networked();
    let mut layer = layer();
    send_whole(&mut chat, &mut layer, &identity().to_bytes());
    let queued = chat.desired_state_queue.len();
    send_whole(&mut chat, &mut layer, &identity().to_bytes());
    assert_eq!(chat.desired_state_queue.len(), queued + 2);
    assert_eq!(chat.console_state_map.len(), 1);
    assert_eq!(chat.outgoing_events.as_ref().unwrap().len(), 2);
}

#[test]
fn second_console_makes_requests_to_both() {
    let mut chat = networked();
    let mut layer = layer();
    send_whole(&mut chat, &mut layer, &identity().to_bytes());
    let other = LocalWifiClientDevice {
        assoc_id: 4,
        assoc_id_num: 2,
        addr: MacAddress::new([9; 6]),
    };
    for packet in [announcement(84), piece(0, true, &identity().to_bytes())] {
        chat.on_packet(&mut layer, &mut client_frame(Some(packet)), &other);
    }
    let requests: Vec<PictochatAppState> = chat
        .desired_state_queue
        .iter()
        .map(|job| job.desired_state.clone())
        .filter(|state| matches!(state, PictochatAppState::RequestIdent(_)))
        .collect();
    assert_eq!(
        requests,
        vec![
            PictochatAppState::RequestIdent(1),
            PictochatAppState::RequestIdent(1),
            PictochatAppState::RequestIdent(2),
        ]
    );
    assert_eq!(chat.member_list[2], MacAddress::new([9; 6]));
}

#[test]
fn message_arrives() {
    let mut chat = networked();
    let mut layer = layer();
    let content: Vec<u8> = (0..400u16).map(|i| i as u8).collect();
    let payload = MessagePayload { from: ONE, message: content.clone(), ..Default::default() };
    send_whole(&mut chat, &mut layer, &payload.to_bytes());
    let expected = PictochatEvent::MESSAGE(PictochatUserMessageEvent {
        mac_address: Some(ONE),
        message_content: content,
    });
    assert_eq!(chat.outgoing_events, Some(vec![expected]));
    assert_eq!(chat.desired_state_queue.len(), 4);
    assert_eq!(chat.console_state_map.len(), 0);
}

#[test]
fn pieces_of_any_size_and_order_arrive() {
    let content: Vec<u8> = (0..100u8).collect();
    let payload = MessagePayload { from: ONE, message: content.clone(), ..Default::default() };
    let whole = payload.to_bytes();
    let ranges = [(100, 136), (0, 2), (1, 60), (50, 101)];
    let mut chat = networked();
    let mut layer = layer();
    give(&mut chat, &mut layer, announcement(136));
    let mut echoed = vec![announcement(136)];
    echoed[0][0] = 1;
    for (i, (from, to)) in ranges.iter().enumerate() {
        let mut packet = piece(*from as u16, i == 3, &whole[*from..*to]);
        packet[4] = 7;
        packet[5] = i as u8;
        assert_eq!(chat.outgoing_events, Some(vec![]));
        echoed.push(packet.clone());
        give(&mut chat, &mut layer, packet);
    }
    let expected = PictochatEvent::MESSAGE(PictochatUserMessageEvent {
        mac_address: Some(ONE),
        message_content: content,
    });
    assert_eq!(chat.outgoing_events, Some(vec![expected]));
    let queued: Vec<Vec<u8>> =
        chat.desired_state_queue.iter().map(|job| job.payload.clone().unwrap()).collect();
    assert_eq!(queued, echoed);
    assert!(chat.temp_buffer.is_none());
}

#[test]
fn an_identity_in_two_pieces_arrives() {
    let whole = identity().to_bytes();
    let mut chat = networked();
    let mut layer = layer();
    give(&mut chat, &mut layer, announcement(84));
    give(&mut chat, &mut layer, piece(40, false, &whole[40..]));
    give(&mut chat, &mut layer, piece(0, true, &whole[..40]));
    assert_eq!(chat.outgoing_events.as_ref().unwrap().len(), 1);
    assert!(chat.console_state_map.contains_key(&ONE.to_number()));
    assert_eq!(chat.desired_state_queue.len(), 7);
    let last = chat.desired_state_queue.back().unwrap();
    assert_eq!(last.payload, Some(piece(0, true, &whole[..40])));
}

#[test]
fn without_a_network_transfers_are_only_repeated() {
    let mut chat = PictochatAppDriver::default();
    let mut layer = layer();
    send_whole(&mut chat, &mut layer, &identity().to_bytes());
    assert_eq!(chat.console_state_map.len(), 0);
    assert_eq!(chat.desired_state_queue.len(), 2);
    assert!(chat.outgoing_events.is_none());
    let (flags, _) = poll(&mut chat, &mut layer);
    assert_eq!(flags, 29);
    let (flags, payload) = poll(&mut chat, &mut layer);
    assert_eq!((flags, payload), (158, piece(0, true, &identity().to_bytes())));
}

#[test]
fn pieces_without_an_announcement_are_only_repeated() {
    let mut chat = networked();
    let mut layer = layer();
    give(&mut chat, &mut layer, vec![2, 0]);
    assert!(chat.temp_buffer.is_none());
    assert_eq!(poll(&mut chat, &mut layer), (29, vec![2, 0]));
}

#[test]
fn too_large_announcements_set_no_buffer_aside() {
    let mut chat = networked();
    let mut layer = layer();
    give(&mut chat, &mut layer, announcement(16385));
    assert!(chat.temp_buffer.is_none());
    give(&mut chat, &mut layer, announcement(16384));
    assert_eq!(chat.temp_buffer, Some(vec![0; 16384]));
}

#[test]
fn pieces_go_to_their_offset() {
    let mut chat = networked();
    let mut layer = layer();
    give(&mut chat, &mut layer, announcement(6));
    give(&mut chat, &mut layer, piece(2, false, &[7, 8]));
    assert_eq!(chat.temp_buffer, Some(vec![0, 0, 7, 8, 0, 0]));
    give(&mut chat, &mut layer, piece(1, false, &[9, 9]));
    assert_eq!(chat.temp_buffer, Some(vec![0, 9, 9, 8, 0, 0]));
}

#[test]
fn packets_that_cannot_be_taken() {
    let mut chat = networked();
    let mut layer = layer();
    assert!(!chat.ready_for_packet(&client_frame(None), &device()));
    assert!(!takes(&chat, vec![]));
    let far = LocalWifiClientDevice { assoc_id: 0, assoc_id_num: 16, addr: ONE };
    assert!(!chat.ready_for_packet(&client_frame(Some(vec![6])), &far));
    assert!(!takes(&chat, announcement(4)[..19].to_vec()));
    assert!(takes(&chat, vec![2]));
    give(&mut chat, &mut layer, announcement(4));
    assert!(!takes(&chat, vec![2]));
    assert!(!takes(&chat, piece(0, false, &[])));
    assert!(takes(&chat, piece(0, false, &[1, 2, 3, 4])));
    assert!(!takes(&chat, piece(1, false, &[1, 2, 3, 4])));
    assert!(!takes(&chat, piece(0, true, &[3, 1, 0, 0])));
    assert!(!takes(&chat, piece(0, true, &[3, 2, 0, 0])));
    give(&mut chat, &mut layer, announcement(1));
    assert!(!takes(&chat, piece(0, true, &[3])));
    give(&mut chat, &mut layer, announcement(36));
    assert!(takes(&chat, piece(0, true, &[3, 2])));
    give(&mut chat, &mut layer, announcement(84));
    assert!(takes(&chat, piece(0, true, &[3, 1])));
    assert!(!takes(&chat, piece(26, true, &[0x00, 0xd8])));
}

fn numbered(content: usize) -> Vec<u8> {
    (0..content).map(|i| (i % 251) as u8).collect()
}

#[test]
fn message_goes_out_in_pieces() {
    let mut chat = networked();
    let mut layer = layer();
    chat.incoming_events.as_mut().unwrap().push_back(message(numbered(400)));
    let payload = MessagePayload {
        from: MacAddress::new(HOST),
        message: numbered(400),
        ..Default::default()
    }
    .to_bytes();

    let (flags, packet) = poll(&mut chat, &mut layer);
    assert_eq!(flags, 29);
    assert_eq!(&packet[..10], &[1, 0, 20, 0, 0, 0, 0xff, 0xff, 0xb4, 0x01]);
    assert_eq!(&packet[10..], &[0, 0, 0x58, 0x2b, 0, 3, 0xdb, 0xa2, 0xfa, 0xea]);

    let mut buffer = vec![0; payload.len()];
    let shapes = [(30, 0xff, 180, 0, 0), (30, 0x97, 180, 0, 180), (158, 0x04, 76, 1, 360)];
    for (flags, kind, size, last, offset) in shapes {
        let (sent_flags, packet) = poll(&mut chat, &mut layer);
        assert_eq!(sent_flags, flags);
        let piece = PictochatType2::from_bytes(&packet);
        assert_eq!(piece.payload_type, kind);
        assert_eq!(piece.payload_length, size);
        assert_eq!(piece.transfer_flags, last);
        assert_eq!(piece.write_offset, offset);
        let data = piece.payload.unwrap();
        buffer[offset as usize..][..data.len()].copy_from_slice(&data);
    }
    assert_eq!(buffer, payload);
    assert_eq!(chat.state, PictochatAppState::Idle);
    assert!(chat.state_tracker.is_none());
    assert_eq!(poll(&mut chat, &mut layer), (28, member_list(5, &chat)));
}

#[test]
fn message_of_one_piece() {
    let mut chat = networked();
    let mut layer = layer();
    chat.incoming_events.as_mut().unwrap().push_back(message(numbered(144)));
    poll(&mut chat, &mut layer);
    let (flags, packet) = poll(&mut chat, &mut layer);
    assert_eq!(flags, 158);
    assert_eq!(&packet[4..12], &[0, 4, 180, 1, 0, 0, 0, 0]);
    assert_eq!(chat.state, PictochatAppState::Idle);
}

#[test]
fn sent_message_arrives_at_another_application() {
    let mut sender = networked();
    let mut receiver = networked();
    let mut layer = layer();
    sender.incoming_events.as_mut().unwrap().push_back(message(numbered(1000)));
    let (_, mut first) = poll(&mut sender, &mut layer);
    first[0] = 0;
    give(&mut receiver, &mut layer, first);
    while sender.state != PictochatAppState::Idle {
        let (_, packet) = poll(&mut sender, &mut layer);
        give(&mut receiver, &mut layer, packet);
    }
    let expected = PictochatEvent::MESSAGE(PictochatUserMessageEvent {
        mac_address: Some(ONE),
        message_content: numbered(1000),
    });
    assert_eq!(receiver.outgoing_events, Some(vec![expected]));
}

#[test]
fn messages_wait_for_the_job_at_hand() {
    let mut chat = networked();
    let mut layer = layer();
    give(&mut chat, &mut layer, vec![6, 0]);
    chat.incoming_events.as_mut().unwrap().push_back(message(vec![1, 2]));
    chat.incoming_events.as_mut().unwrap().push_back(message(vec![3, 4]));
    assert_eq!(poll(&mut chat, &mut layer).1[0], 4);
    assert_eq!(chat.desired_state_queue.len(), 1);
    assert_eq!(poll(&mut chat, &mut layer).1[0], 1);
    assert_eq!(chat.desired_state_queue.len(), 1);
    assert_eq!(poll(&mut chat, &mut layer).1[0], 2);
    assert_eq!(poll(&mut chat, &mut layer).1[0], 1);
    assert_eq!(poll(&mut chat, &mut layer).1[0], 2);
    assert_eq!(poll(&mut chat, &mut layer).1[0], 5);
}

#[test]
fn transfer_past_its_last_piece_sends_the_end() {
    let mut chat = PictochatAppDriver::default();
    let mut layer = layer();
    chat.set_state(PictochatAppState::TXTransfer);
    chat.state_tracker = Some(PictochatStateObject {
        desired_state: PictochatAppState::TXTransfer,
        payload: Some(vec![0; 2]),
        counter: 5,
        offset: 2,
    });
    let end = vec![
        0x03, 0x00, 0x14, 0x00, 0x01, 0x04, 0xff, 0xff, 0x81, 0x93, 0x32, 0x02, 0x01, 0x69, 0x35,
        0x02, 0x6f, 0x02, 0x33, 0x02,
    ];
    assert_eq!(poll(&mut chat, &mut layer), (141, end));
    assert_eq!(chat.state_tracker.as_ref().unwrap().counter, 6);
    assert_eq!(chat.state_tracker.as_ref().unwrap().offset, 2);
}

#[test]
fn empty_transfer_ends_with_its_announcement() {
    let mut chat = PictochatAppDriver::default();
    let mut layer = layer();
    chat.desired_state_queue
        .push_back(PictochatStateObject::new(PictochatAppState::TXTransfer, Some(vec![])));
    let (flags, packet) = poll(&mut chat, &mut layer);
    assert_eq!((flags, &packet[8..10]), (29, &[0u8, 0][..]));
    assert_eq!(chat.state, PictochatAppState::Idle);
}

#[test]
fn short_echoes_have_other_flags() {
    for (size, flags) in [(2, 29), (24, 29), (26, 158)] {
        let mut chat = PictochatAppDriver::default();
        let mut layer = layer();
        let mut packet = vec![2; size];
        packet[1] = 0;
        give(&mut chat, &mut layer, packet.clone());
        assert_eq!(poll(&mut chat, &mut layer), (flags, packet));
    }
}

#[test]
fn polls_that_cannot_be_made() {
    let mut chat = networked();
    assert!(chat.ready_to_fill(MASK));
    assert!(!chat.ready_to_fill(0));
    chat.seq_no = u16::MAX;
    assert!(!chat.ready_to_fill(MASK));
    chat.seq_no = 0;

    chat.incoming_events.as_mut().unwrap().push_back(PictochatEvent::STATE(
        PictochatUserStateEvent {
            mac_address: ONE,
            is_leaving: true,
            birthday: 1,
            birthmonth: 1,
            name: WStringWrapper::from_text(""),
            bio: WStringWrapper::from_text(""),
        },
    ));
    assert!(!chat.ready_to_fill(MASK));
    chat.incoming_events = None;

    let mut layer = layer();
    give(&mut chat, &mut layer, vec![2, 0, 0]);
    assert!(!chat.ready_to_fill(MASK));
    chat.desired_state_queue.clear();

    chat.state = PictochatAppState::IdentConsole((ONE, identity()));
    assert!(!chat.ready_to_fill(MASK));
    let mut job = PictochatStateObject::new(PictochatAppState::Idle, None);
    job.counter = 3;
    chat.state_tracker = Some(job.clone());
    assert!(chat.ready_to_fill(MASK));
    job.counter = 4;
    chat.state_tracker = Some(job);
    assert!(!chat.ready_to_fill(MASK));

    chat.state = PictochatAppState::Echo;
    assert!(!chat.ready_to_fill(MASK));
    chat.state = PictochatAppState::TXTransfer;
    assert!(!chat.ready_to_fill(MASK));
    let mut job = PictochatStateObject::new(PictochatAppState::TXTransfer, Some(vec![0; 3]));
    chat.state_tracker = Some(job.clone());
    assert!(chat.ready_to_fill(MASK));
    job.counter = 1;
    chat.state_tracker = Some(job.clone());
    assert!(!chat.ready_to_fill(MASK));
    job.offset = 1;
    chat.state_tracker = Some(job.clone());
    assert!(chat.ready_to_fill(MASK));
    job.offset = 4;
    chat.state_tracker = Some(job);
    assert!(!chat.ready_to_fill(MASK));
}

#[test]
fn lost_console_is_no_member() {
    let mut chat = PictochatAppDriver::default();
    chat.member_list[0] = MacAddress::new(HOST);
    chat.member_list[1] = ONE;
    chat.member_list[7] = ONE;
    chat.on_client_event(ClientEvents::NewClient((ONE, 1)));
    assert_eq!(chat.member_list[7], ONE);
    chat.on_client_event(ClientEvents::LostClient((ONE, 1)));
    assert_eq!(chat.member_list[0], MacAddress::new(HOST));
    assert_eq!(chat.member_list[1], MacAddress::zero());
    assert_eq!(chat.member_list[7], MacAddress::zero());
}

#[test]
fn steady_application_can_always_poll() {
    let mut chat = networked();
    let mut layer = layer();
    chat.setup(&mut layer);
    for round in 0..60u16 {
        if round % 7 == 0 {
            chat.incoming_events.as_mut().unwrap().push_back(message(numbered(200)));
        }
        if round % 11 == 0 {
            send_whole(&mut chat, &mut layer, &identity().to_bytes());
        }
        if round % 13 == 0 {
            chat.on_client_event(ClientEvents::LostClient((ONE, 1)));
        }
        poll(&mut chat, &mut layer);
    }
    assert_eq!(chat.seq_no, 60);
}

#[test]
fn zero_buffers() {
    assert!(is_zero(&[]));
    assert!(is_zero(&[0; 33]));
    assert!(!is_zero(&[0, 0, 1]));
    assert!(!is_zero(&[1, 0, 0]));
}
