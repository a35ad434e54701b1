//! The packets of the chat application on concrete bytes.

use pictochat_rs::mac_address::MacAddress;
use pictochat_rs::pictochat_app_driver::pictochat_packets::{
    ConsoleIdPayload, MessagePayload, PictochatHeader, PictochatType1, PictochatType2,
    PictochatType4, PictochatType5,
};
use pictochat_rs::wide_string::WStringWrapper;

#[test]
fn type5_swaps_the_octets_of_every_member() {
    let mut packet = PictochatType5::default();
    packet.member_list[0] = MacAddress::new([1, 2, 3, 4, 5, 6]);
    packet.member_list[15] = MacAddress::new([7, 8, 9, 10, 11, 12]);
    let bytes = packet.to_bytes();
    assert_eq!(bytes.len(), 104);
    assert_eq!(&bytes[..8], &[5, 0, 104, 0, 0xfd, 0x32, 0xea, 0x59]);
    assert_eq!(&bytes[8..14], &[2, 1, 4, 3, 6, 5]);
    assert_eq!(&bytes[14..98], &[0; 84]);
    assert_eq!(&bytes[98..], &[8, 7, 10, 9, 12, 11]);
}

#[test]
fn type4_differs_in_type_and_magic() {
    let mut packet = PictochatType4::default();
    packet.member_list[1] = MacAddress::new([1, 2, 3, 4, 5, 6]);
    let bytes = packet.to_bytes();
    assert_eq!(bytes.len(), 104);
    assert_eq!(&bytes[..8], &[4, 0, 104, 0, 0x34, 0xfb, 0xad, 0x8c]);
    assert_eq!(&bytes[14..20], &[2, 1, 4, 3, 6, 5]);
}

#[test]
fn type1_default_bytes() {
    let bytes = PictochatType1::default().to_bytes();
    assert_eq!(
        bytes,
        vec![1, 0, 20, 0, 0, 0, 0xff, 0xff, 0, 0, 0, 0, 0, 0, 0, 0, 0xb7, 0x78, 0xd5, 0x29]
    );
}

#[test]
fn type1_round_trips() {
    let packet = PictochatType1 {
        hdr: PictochatHeader { pkt_type: 0x0201, pkt_size_with_header: 0x0403 },
        console_id: 0x0605,
        magic_1: [7, 8],
        data_size: 0x0a09,
        magic_2: [11, 12, 13, 14, 15, 16, 17, 18, 19, 20],
    };
    let mut bytes = packet.to_bytes();
    assert_eq!(bytes, (1u8..=20).collect::<Vec<u8>>());
    bytes.push(99);
    let read = PictochatType1::from_bytes(&bytes);
    assert_eq!(read.hdr, packet.hdr);
    assert_eq!(read.console_id, packet.console_id);
    assert_eq!(read.magic_1, packet.magic_1);
    assert_eq!(read.data_size, packet.data_size);
    assert_eq!(read.magic_2, packet.magic_2);
}

#[test]
fn message_payload_bytes() {
    let payload = MessagePayload {
        from: MacAddress::new([1, 2, 3, 4, 5, 6]),
        message: vec![0xaa, 0xbb],
        ..Default::default()
    };
    let mut expected = vec![3, 2, 2, 1, 4, 3, 6, 5];
    expected.extend_from_slice(&[0, 5, 0, 0, 0, 0, 3, 6, 8, 13, 8, 13, 18, 27]);
    expected.extend_from_slice(&[0; 14]);
    expected.extend_from_slice(&[0xaa, 0xbb]);
    assert_eq!(payload.to_bytes(), expected);
}

#[test]
fn message_payload_round_trips() {
    let bytes: Vec<u8> = (0u8..50).collect();
    let payload = MessagePayload::from_bytes(&bytes);
    assert_eq!(payload.magic, 0);
    assert_eq!(payload.subtype, 1);
    assert_eq!(payload.from, MacAddress::new([3, 2, 5, 4, 7, 6]));
    assert_eq!(payload.magic_1.to_vec(), (8u8..22).collect::<Vec<u8>>());
    assert_eq!(payload.safezone.to_vec(), (22u8..36).collect::<Vec<u8>>());
    assert_eq!(payload.message, (36u8..50).collect::<Vec<u8>>());
    assert_eq!(payload.to_bytes(), bytes);
}

#[test]
fn message_payload_may_be_empty() {
    let payload = MessagePayload::from_bytes(&MessagePayload::default().to_bytes());
    assert_eq!(payload.message, Vec::<u8>::new());
}

fn identity() -> ConsoleIdPayload {
    ConsoleIdPayload {
        magic: [3, 1],
        to: MacAddress::new([1, 2, 3, 4, 5, 6]),
        name: WStringWrapper::from_text("Ann"),
        bio: WStringWrapper::from_text("Hi!"),
        colour: 0x0201,
        birth_day: 24,
        birth_month: 12,
    }
}

#[test]
fn console_id_bytes() {
    let bytes = identity().to_bytes();
    assert_eq!(bytes.len(), 84);
    assert_eq!(&bytes[..8], &[3, 1, 2, 1, 4, 3, 6, 5]);
    assert_eq!(&bytes[8..16], &[0x41, 0, 0x6e, 0, 0x6e, 0, 0, 0]);
    assert_eq!(&bytes[16..28], &[0; 12]);
    assert_eq!(&bytes[28..34], &[0x48, 0, 0x69, 0, 0x21, 0]);
    assert_eq!(&bytes[34..80], &[0; 46]);
    assert_eq!(&bytes[80..], &[1, 2, 24, 12]);
}

#[test]
fn console_id_default() {
    let id = ConsoleIdPayload::default();
    assert_eq!(id.magic, [3, 0]);
    assert_eq!(id.to, MacAddress::zero());
    assert_eq!(id.name.to_utf8(), "name");
    assert_eq!(id.bio.to_utf8(), "bio");
    assert_eq!((id.colour, id.birth_day, id.birth_month), (0, 1, 1));
}

#[test]
fn console_id_reads_back_padded_and_without_its_address() {
    let bytes = identity().to_bytes();
    assert!(ConsoleIdPayload::is_readable(&bytes));
    let read = ConsoleIdPayload::from_bytes(&bytes);
    assert_eq!(read.magic, [3, 1]);
    assert_eq!(read.to, MacAddress::zero());
    assert_eq!(read.name.to_utf8(), "Ann\0\0\0\0\0\0\0");
    assert_eq!(read.bio.as_bytes().len(), 52);
    assert_eq!(read.colour, 0x0201);
    assert_eq!((read.birth_day, read.birth_month), (24, 12));
    assert_eq!(read.clone(), read);
}

#[test]
fn console_id_that_cannot_be_read() {
    let mut bytes = identity().to_bytes();
    assert!(!ConsoleIdPayload::is_readable(&bytes[..83]));
    bytes[27] = 0xd8;
    assert!(!ConsoleIdPayload::is_readable(&bytes));
    bytes[27] = 0;
    bytes[79] = 0xdc;
    assert!(!ConsoleIdPayload::is_readable(&bytes));
}

#[test]
fn long_names_are_cut() {
    let id = ConsoleIdPayload {
        name: WStringWrapper::from_text("abcdefghijkl"),
        ..Default::default()
    };
    let read = ConsoleIdPayload::from_bytes(&id.to_bytes());
    assert_eq!(read.name.to_utf8(), "abcdefghij");
}

#[test]
fn type2_bytes() {
    let packet = PictochatType2 {
        sending_console_id: 1,
        payload_type: 4,
        payload_length: 3,
        transfer_flags: 1,
        write_offset: 0x0102,
        payload: Some(vec![7, 8, 9]),
        ..Default::default()
    };
    assert_eq!(packet.to_bytes(), vec![2, 0, 96, 0, 1, 4, 3, 1, 2, 1, 0, 0, 7, 8, 9]);
    assert_eq!(PictochatType2::default().to_bytes(), vec![2, 0, 96, 0, 0, 0, 0, 0, 0, 0, 0, 0]);
}

#[test]
fn type2_round_trips() {
    let bytes = vec![2, 0, 96, 0, 1, 4, 3, 1, 2, 1, 0, 0, 7, 8, 9];
    let packet = PictochatType2::from_bytes(&bytes);
    assert_eq!(packet.hdr, PictochatHeader { pkt_type: 2, pkt_size_with_header: 96 });
    assert_eq!(packet.sending_console_id, 1);
    assert_eq!(packet.payload_type, 4);
    assert_eq!(packet.payload_length, 3);
    assert_eq!(packet.transfer_flags, 1);
    assert_eq!(packet.write_offset, 0x0102);
    assert_eq!(packet.payload, Some(vec![7, 8, 9]));
    assert_eq!(packet.to_bytes(), bytes);
}

#[test]
fn type2_without_payload() {
    let packet = PictochatType2::from_bytes(&vec![2, 0, 96, 0, 0, 0, 0, 0, 0, 0, 0, 0, 7]);
    assert_eq!(packet.payload, None);
}

#[test]
fn type2_payload_that_is_cut_short_reads_as_zeros() {
    let packet = PictochatType2::from_bytes(&vec![2, 0, 96, 0, 0, 0, 4, 0, 0, 0, 0, 0, 7, 8]);
    assert_eq!(packet.payload, Some(vec![0; 4]));
}
