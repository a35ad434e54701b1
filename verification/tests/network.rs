//! The network side, the firmware hooks and the raw receiver.

use pictochat_rs::hooks::{ieee80211_add_dsparams, ieee80211_raw_frame_sanity_check};
use pictochat_rs::mac_address::MacAddress;
use pictochat_rs::network::{
    from_network, is_for_room, is_size_accepted, to_network, LinkEvent, MdnsAction, NetworkLink,
    PictochatEventNetwork, PictochatMessageEventNetwork, PictochatStateEventNetwork,
};
use pictochat_rs::pictochat_app_driver::events::{
    PictochatEvent, PictochatUserMessageEvent, PictochatUserStateEvent,
};
use pictochat_rs::raw_wifi::{without_checksum, RawPacket, RawWifi, RawWifiInstanceHolder};
use pictochat_rs::wide_string::WStringWrapper;
use std::cell::RefCell;

const CONSOLE: MacAddress = MacAddress { octets: [0, 9, 0xbf, 1, 2, 3] };

#[test]
fn state_event_goes_to_the_network() {
    let event = PictochatEvent::STATE(PictochatUserStateEvent {
        mac_address: CONSOLE,
        is_leaving: false,
        birthday: 24,
        birthmonth: 12,
        name: WStringWrapper::from_text("Ann"),
        bio: WStringWrapper::from_text("ピクト"),
    });
    let expected = PictochatEventNetwork::STATE(PictochatStateEventNetwork {
        mac_address: vec![0, 9, 0xbf, 1, 2, 3],
        is_leaving: false,
        birthday: 24,
        birthmonth: 12,
        name: String::from("Ann"),
        bio: String::from("ピクト"),
    });
    assert_eq!(to_network(event), expected);
}

#[test]
fn message_event_goes_to_the_network() {
    let event = PictochatEvent::MESSAGE(PictochatUserMessageEvent {
        mac_address: Some(CONSOLE),
        message_content: vec![1, 2, 3],
    });
    let expected = PictochatEventNetwork::MESSAGE(PictochatMessageEventNetwork {
        mac_address: Some(vec![0, 9, 0xbf, 1, 2, 3]),
        message_content: vec![1, 2, 3],
    });
    assert_eq!(to_network(event), expected);
}

#[test]
fn message_from_the_network_is_the_hosts() {
    let network_event = PictochatEventNetwork::MESSAGE(PictochatMessageEventNetwork {
        mac_address: Some(vec![1, 2]),
        message_content: vec![7, 8],
    });
    assert!(is_for_room(&network_event));
    let expected = PictochatEvent::MESSAGE(PictochatUserMessageEvent {
        mac_address: None,
        message_content: vec![7, 8],
    });
    assert_eq!(from_network(network_event), expected);
}

#[test]
fn state_from_the_network_is_not_for_the_room() {
    let network_event = PictochatEventNetwork::STATE(PictochatStateEventNetwork {
        mac_address: vec![],
        is_leaving: true,
        birthday: 1,
        birthmonth: 1,
        name: String::new(),
        bio: String::new(),
    });
    assert!(!is_for_room(&network_event));
}

#[test]
fn large_network_events_are_not_accepted() {
    assert!(is_size_accepted(0));
    assert!(is_size_accepted(20480));
    assert!(!is_size_accepted(20481));
}

#[test]
fn service_is_announced_while_there_is_an_address() {
    let mut link = NetworkLink::new();
    assert_eq!(link.on_ethevent(LinkEvent::Connected), MdnsAction::Nothing);
    assert_eq!(link.on_ethevent(LinkEvent::GotIp), MdnsAction::Start);
    assert_eq!(link, NetworkLink { announced: true, has_ip: true });
    assert_eq!(link.on_ethevent(LinkEvent::GotIp), MdnsAction::Nothing);
    assert_eq!(link.on_ethevent(LinkEvent::Other), MdnsAction::Nothing);
    assert_eq!(link.on_ethevent(LinkEvent::Disconnected), MdnsAction::Stop);
    assert_eq!(link, NetworkLink { announced: false, has_ip: true });
    assert_eq!(link.on_ethevent(LinkEvent::Disconnected), MdnsAction::Nothing);
    assert_eq!(link.on_ethevent(LinkEvent::LostIp), MdnsAction::Nothing);
    assert_eq!(link, NetworkLink { announced: false, has_ip: false });
    link.on_ethevent(LinkEvent::GotIp);
    assert_eq!(link.on_ethevent(LinkEvent::LostIp), MdnsAction::Stop);
}

#[test]
fn waiting_for_an_address_ends() {
    let mut link = NetworkLink::new();
    assert!(link.keeps_waiting(0));
    assert!(link.keeps_waiting(9_999));
    assert!(!link.keeps_waiting(10_000));
    link.on_ethevent(LinkEvent::GotIp);
    assert!(!link.keeps_waiting(0));
}

#[test]
fn channel_tag_takes_the_place_of_the_name_tag() {
    let mut beacon: Vec<u8> = (0u8..16).collect();
    let next = ieee80211_add_dsparams(&mut beacon, 10);
    assert_eq!(next, 11);
    assert_eq!(beacon, vec![0, 1, 4, 5, 6, 7, 8, 9, 3, 1, 7, 11, 12, 13, 14, 15]);
}

#[test]
fn channel_tag_at_the_end_of_a_window() {
    let mut window: Vec<u8> = (0u8..9).collect();
    assert_eq!(ieee80211_add_dsparams(&mut window, 8), 9);
    assert_eq!(window, vec![2, 3, 4, 5, 6, 7, 3, 1, 7]);
}

#[test]
fn every_raw_frame_passes() {
    assert_eq!(ieee80211_raw_frame_sanity_check(1, -2, 3), 0);
}

#[test]
fn receiver_is_set_up_on_channel_one() {
    let mut holder: RawWifiInstanceHolder<fn(&[u8])> = RawWifiInstanceHolder { instance: None };
    holder.init();
    assert_eq!(holder.get().channel(), 1);
    holder.get().set_channel(7);
    assert_eq!(holder.get().channel(), 7);
}

#[test]
fn checksum_is_cut_off() {
    let bytes = [1, 2, 3, 4, 5, 6];
    assert_eq!(without_checksum(&RawPacket { sig_len: 6, bytes: &bytes }), &[1, 2]);
    assert_eq!(without_checksum(&RawPacket { sig_len: 10, bytes: &bytes }), &bytes);
    assert_eq!(without_checksum(&RawPacket { sig_len: 4, bytes: &bytes }), &[] as &[u8]);
}

#[test]
fn received_frames_are_shown() {
    let seen: RefCell<Vec<Vec<u8>>> = RefCell::new(Vec::new());
    let mut receiver = RawWifi::new(1);
    receiver.set_log(|frame: &[u8]| seen.borrow_mut().push(frame.to_vec()));
    receiver.rx_cb(None);
    receiver.rx_cb(Some(RawPacket { sig_len: 7, bytes: &[1, 2, 3, 9, 9, 9, 9] }));
    drop(receiver);
    assert_eq!(seen.into_inner(), vec![vec![1, 2, 3]]);
}

#[test]
fn nobody_has_to_look() {
    let receiver: RawWifi<fn(&[u8])> = RawWifi::new(3);
    receiver.rx_cb(Some(RawPacket { sig_len: 4, bytes: &[] }));
    assert_eq!(receiver.channel(), 3);
}
