//! The 802.11 frames on concrete bytes.

use pictochat_rs::ds_local_wifi_driver::link::{
    ack_mac, classify_frame, client_ack_mac, cmd_mac, host_header, read_frame, receive_frame,
    InboundPacket, ReceivedFrame, CF_ACK, DATA_CF_ACK, DATA_CF_POLL,
};
use pictochat_rs::mac_address::MacAddress;

const HOST: MacAddress = MacAddress { octets: [0x00, 0x09, 0xbf, 1, 2, 3] };
const CONSOLE: MacAddress = MacAddress { octets: [0x00, 0x09, 0xbf, 9, 8, 7] };

fn reply(control: u8, destination: &MacAddress, body: &[u8]) -> Vec<u8> {
    let mut bytes = vec![control, 0x01, 0, 0];
    bytes.extend_from_slice(&HOST.octets);
    bytes.extend_from_slice(&CONSOLE.octets);
    bytes.extend_from_slice(&destination.octets);
    bytes.extend_from_slice(&[0x50, 0x00]);
    bytes.extend_from_slice(body);
    bytes
}

#[test]
fn group_addresses() {
    assert_eq!(cmd_mac().octets, [0x03, 0x09, 0xbf, 0, 0, 0]);
    assert_eq!(ack_mac().octets, [0x03, 0x09, 0xbf, 0, 0, 3]);
    assert_eq!(client_ack_mac().octets, [0x03, 0x09, 0xbf, 0, 0, 0x10]);
}

#[test]
fn host_header_bytes() {
    let bytes = host_header(DATA_CF_POLL, &cmd_mac(), &HOST, &CONSOLE, 0x1234);
    let mut expected = vec![0x28, 0x02, 0, 0];
    expected.extend_from_slice(&cmd_mac().octets);
    expected.extend_from_slice(&HOST.octets);
    expected.extend_from_slice(&CONSOLE.octets);
    expected.extend_from_slice(&[0x40, 0x23]);
    assert_eq!(bytes, expected);
}

#[test]
fn host_frame_reads_back_at_a_station() {
    for subtype in [0, DATA_CF_ACK, DATA_CF_POLL, 3] {
        let mut bytes = host_header(subtype, &ack_mac(), &HOST, &CONSOLE, 7);
        bytes.extend_from_slice(&[1, 2, 3]);
        let frame = read_frame(&bytes).unwrap();
        assert_eq!(frame.subtype, subtype);
        assert_eq!(frame.destination, Some(ack_mac()));
        assert_eq!(frame.source, Some(CONSOLE));
        assert_eq!(frame.payload, Some(vec![1, 2, 3]));
    }
}

#[test]
fn only_whole_data_frames_are_read() {
    assert!(read_frame(&[]).is_none());
    assert!(read_frame(&[0x18]).is_none());
    assert!(read_frame(&[0x18, 0x01]).is_none());
    let bytes = reply(0x18, &client_ack_mac(), &[]);
    assert!(read_frame(&bytes[..23]).is_none());
    assert!(read_frame(&bytes).is_some());
    assert!(read_frame(&reply(0x10, &client_ack_mac(), &[])).is_none());
    assert!(read_frame(&reply(0x14, &client_ack_mac(), &[])).is_none());
}

#[test]
fn optional_header_fields_are_skipped() {
    let mut ordered = reply(0x18, &client_ack_mac(), &[1, 2, 3, 4, 5]);
    ordered[1] = 0x81;
    assert_eq!(read_frame(&ordered).unwrap().payload, Some(vec![5]));
    let quality = reply(0x88, &client_ack_mac(), &[1, 2, 3]);
    assert_eq!(read_frame(&quality).unwrap().payload, Some(vec![3]));
    let mut bridged = reply(0x08, &client_ack_mac(), &[1, 2, 3, 4, 5, 6, 7]);
    bridged[1] = 0x03;
    let frame = read_frame(&bridged).unwrap();
    assert_eq!(frame.source, Some(MacAddress::new([1, 2, 3, 4, 5, 6])));
    assert_eq!(frame.destination, Some(client_ack_mac()));
    assert_eq!(frame.payload, Some(vec![7]));
}

#[test]
fn a_bundle_names_no_destination_of_its_own() {
    let bundle = reply(0x88, &client_ack_mac(), &[0x80, 0, 9]);
    let frame = read_frame(&bundle).unwrap();
    assert_eq!(frame.destination, None);
    assert_eq!(frame.source, Some(CONSOLE));
    assert_eq!(frame.payload, Some(vec![9]));
}

#[test]
fn data_reply_is_recognised() {
    let bytes = reply(0x18, &client_ack_mac(), &[4, 5, 6]);
    let packet = receive_frame(&bytes, 20, 10).unwrap();
    assert_eq!(packet, InboundPacket::DATA((CONSOLE, vec![4, 5, 6], 20, 10)));
    assert_eq!(packet.clone(), packet);
}

#[test]
fn bare_acknowledgement_is_recognised() {
    let bytes = reply(0x58, &client_ack_mac(), &[]);
    assert_eq!(receive_frame(&bytes, 2, 1), Some(InboundPacket::ACK((CONSOLE, 2, 1))));
}

#[test]
fn other_frames_are_dropped() {
    assert_eq!(receive_frame(&reply(0x18, &ack_mac(), &[1]), 0, 0), None);
    assert_eq!(receive_frame(&reply(0x58, &cmd_mac(), &[]), 0, 0), None);
    assert_eq!(receive_frame(&reply(0x28, &client_ack_mac(), &[1]), 0, 0), None);
    assert_eq!(receive_frame(&reply(0x48, &client_ack_mac(), &[]), 0, 0), None);
    assert_eq!(receive_frame(&reply(0x80, &client_ack_mac(), &[]), 0, 0), None);
    assert_eq!(receive_frame(&[], 0, 0), None);
}

#[test]
fn data_reply_without_data_counts_as_acknowledgement() {
    let frame = ReceivedFrame {
        subtype: DATA_CF_ACK,
        destination: Some(client_ack_mac()),
        source: Some(CONSOLE),
        payload: None,
    };
    assert_eq!(classify_frame(frame, 6, 5), Some(InboundPacket::ACK((CONSOLE, 6, 5))));
}

#[test]
fn acknowledgement_hands_no_data_on() {
    let frame = ReceivedFrame {
        subtype: CF_ACK,
        destination: Some(client_ack_mac()),
        source: Some(CONSOLE),
        payload: Some(vec![1]),
    };
    assert_eq!(classify_frame(frame, 6, 5), Some(InboundPacket::ACK((CONSOLE, 6, 5))));
}
