//! Addresses, numbers and texts on concrete bytes.

use pictochat_rs::ds_local_wifi_driver::flags::{ClientToHostFlags, HostToClientFlags};
use pictochat_rs::mac_address::MacAddress;
use pictochat_rs::wide_string::WStringWrapper;
use pictochat_rs::wire::{copy_range, push_u16, read_u16_at};

#[test]
fn address_number_puts_the_first_octet_first() {
    let mac = MacAddress::new([0x00, 0x09, 0xbf, 0x11, 0x22, 0x33]);
    assert_eq!(mac.to_number(), 0x0009_bf11_2233);
    assert_eq!(MacAddress::new([0xff; 6]).to_number(), 0xffff_ffff_ffff);
}

#[test]
fn addresses_are_equal_when_all_octets_are() {
    let mac = MacAddress::new([1, 2, 3, 4, 5, 6]);
    assert_eq!(mac, MacAddress { octets: [1, 2, 3, 4, 5, 6] });
    for place in 0..6 {
        let mut octets = [1, 2, 3, 4, 5, 6];
        octets[place] = 0;
        let other = MacAddress::new(octets);
        assert_ne!(mac, other);
        assert_ne!(mac.to_number(), other.to_number());
    }
    assert_eq!(MacAddress::zero().octets, [0; 6]);
}

#[test]
fn numbers_are_low_byte_first() {
    let bytes = [0xaa, 0x34, 0x12, 0xbb];
    assert_eq!(read_u16_at(&bytes, 1), 0x1234);
    assert_eq!(read_u16_at(&bytes, 2), 0xbb12);
    let mut buffer = vec![7];
    push_u16(&mut buffer, 0x1234);
    assert_eq!(buffer, vec![7, 0x34, 0x12]);
}

#[test]
fn numbers_round_trip() {
    for number in [0u16, 1, 255, 256, 0x7fff, 0xffff] {
        let mut buffer = Vec::new();
        push_u16(&mut buffer, number);
        assert_eq!(read_u16_at(&buffer, 0), number);
    }
}

#[test]
fn ranges_are_copied() {
    let bytes = [1, 2, 3, 4];
    assert_eq!(copy_range(&bytes, 1, 3), vec![2, 3]);
    assert_eq!(copy_range(&bytes, 4, 4), Vec::<u8>::new());
}

#[test]
fn text_is_encoded_low_byte_first() {
    let string = WStringWrapper::from_text("Hé");
    assert_eq!(string.as_bytes(), &[0x48, 0x00, 0xe9, 0x00]);
}

#[test]
fn text_beyond_the_basic_plane_takes_two_units() {
    let string = WStringWrapper::from_text("😀");
    assert_eq!(string.as_bytes(), &[0x3d, 0xd8, 0x00, 0xde]);
    assert_eq!(string.to_utf8(), "😀");
}

#[test]
fn text_round_trips() {
    for text in ["", "Hello World!", "ピクトチャット", "a😀b"] {
        assert_eq!(WStringWrapper::from_text(text).to_utf8(), text);
    }
}

#[test]
fn well_formed_bytes_make_a_string() {
    let bytes = vec![0x41, 0x00, 0x3d, 0xd8, 0x00, 0xde];
    let string = WStringWrapper::from_utf16le(bytes.clone()).unwrap();
    assert_eq!(string.as_bytes(), bytes.as_slice());
    assert_eq!(string.to_utf8(), "A😀");
    assert_eq!(string.clone(), string);
}

#[test]
fn malformed_bytes_make_no_string() {
    assert!(WStringWrapper::from_utf16le(vec![0x41]).is_none());
    assert!(WStringWrapper::from_utf16le(vec![0x3d, 0xd8]).is_none());
    assert!(WStringWrapper::from_utf16le(vec![0x00, 0xde]).is_none());
    assert!(WStringWrapper::from_utf16le(vec![0x3d, 0xd8, 0x41, 0x00]).is_none());
    assert!(WStringWrapper::from_utf16le(vec![]).is_some());
}

#[test]
fn padding_keeps_text_well_formed() {
    let mut bytes = WStringWrapper::from_text("name").as_bytes().to_vec();
    bytes.resize(20, 0);
    let padded = WStringWrapper::from_utf16le(bytes).unwrap();
    assert_eq!(padded.to_utf8(), "name\0\0\0\0\0\0");
}

#[test]
fn host_flags_are_a_byte() {
    assert_eq!(HostToClientFlags::empty().bits(), 0);
    let flags = HostToClientFlags::from_bits(158).unwrap();
    assert_eq!(flags.bits(), 158);
    assert!(flags.contains(HostToClientFlags::HAS_FOOTER));
    assert!(flags.contains(HostToClientFlags::NEXT_TRANSACTION_DELAYED));
    assert!(!flags.contains(HostToClientFlags::RESERVED_0));
    assert!(!flags.contains(HostToClientFlags::HAS_FOOTER | HostToClientFlags::RESERVED_0));
}

#[test]
fn client_flags_are_a_byte() {
    let flags = ClientToHostFlags::from_bits(0x28).unwrap();
    assert_eq!(flags.bits(), 0x28);
    assert!(flags.contains(ClientToHostFlags::HAS_FOOTER));
    assert!(flags.contains(ClientToHostFlags::LENGTH_IS_BYTES));
    assert!(!flags.contains(ClientToHostFlags::RESERVED_7));
}
