//! The data frames of the polling cycle on concrete bytes.

use pictochat_rs::ds_local_wifi_driver::flags::HostToClientFlags;
use pictochat_rs::ds_local_wifi_driver::frames::{
    ClientToHostDataFrame, HostToClientDataFrame, HostToClientDataFrameFooter,
};

#[test]
fn short_client_frames_are_refused() {
    assert!(ClientToHostDataFrame::from_bytes(&[]).is_none());
    assert!(ClientToHostDataFrame::from_bytes(&[0, 0]).is_none());
    assert!(ClientToHostDataFrame::from_bytes(&[2, 0, 1, 2, 3]).is_none());
}

#[test]
fn client_frame_size_counts_half_words() {
    let frame = ClientToHostDataFrame::from_bytes(&[2, 0, 1, 2, 3, 4, 9]).unwrap();
    assert_eq!(frame.payload_size, 4);
    assert_eq!(frame.flags.bits(), 0);
    assert_eq!(frame.payload, Some(vec![1, 2, 3, 4]));
    assert_eq!(frame.footer_seq_no, None);
}

#[test]
fn client_frame_size_counts_bytes_where_flagged() {
    let frame = ClientToHostDataFrame::from_bytes(&[3, 0x20, 1, 2, 3]).unwrap();
    assert_eq!(frame.payload_size, 3);
    assert_eq!(frame.payload, Some(vec![1, 2, 3]));
}

#[test]
fn client_frame_without_payload() {
    let frame = ClientToHostDataFrame::from_bytes(&[0, 0, 9]).unwrap();
    assert_eq!(frame.payload_size, 0);
    assert_eq!(frame.payload, None);
}

#[test]
fn client_frame_footer_follows_the_payload() {
    let frame = ClientToHostDataFrame::from_bytes(&[1, 0x08, 5, 6, 0x34, 0x12]).unwrap();
    assert_eq!(frame.payload, Some(vec![5, 6]));
    assert_eq!(frame.footer_seq_no, Some(0x1234));
}

#[test]
fn client_frame_footer_has_to_be_there() {
    assert!(ClientToHostDataFrame::is_complete(&[1, 0x08, 5, 6, 0x34, 0x12]));
    assert!(!ClientToHostDataFrame::is_complete(&[1, 0x08, 5, 6, 0x34]));
    assert!(!ClientToHostDataFrame::is_complete(&[0, 0x08, 1]));
    assert!(ClientToHostDataFrame::is_complete(&[0, 0x08]));
    assert!(ClientToHostDataFrame::is_complete(&[9, 0x08, 5]));
}

fn host_frame(
    payload: Option<Vec<u8>>,
    footer: Option<HostToClientDataFrameFooter>,
) -> HostToClientDataFrame {
    HostToClientDataFrame {
        us_per_client_reply: 998,
        rx_console_mask: 6,
        flags: HostToClientFlags::from_bits(28).unwrap(),
        broadcast_cycles_remaining: 0,
        payload,
        footer,
    }
}

#[test]
fn host_frame_with_nothing() {
    assert_eq!(host_frame(None, None).to_bytes(), vec![0xe6, 0x03, 6, 0, 0, 28]);
}

#[test]
fn host_frame_with_payload() {
    let bytes = host_frame(Some(vec![1, 2, 3, 4]), None).to_bytes();
    assert_eq!(bytes, vec![0xe6, 0x03, 6, 0, 2, 28, 1, 2, 3, 4]);
}

#[test]
fn host_frame_footer_repeats_the_mask() {
    let footer = HostToClientDataFrameFooter { seq_no: 0x0102, idk: 0x7777 };
    let bytes = host_frame(None, Some(footer)).to_bytes();
    assert_eq!(bytes, vec![0xe6, 0x03, 6, 0, 0, 28, 2, 1, 6, 0]);
    assert_eq!(footer.to_parts(), vec![2, 1, 0x77, 0x77]);
}

#[test]
fn host_frame_with_payload_and_footer() {
    let footer = HostToClientDataFrameFooter { seq_no: 5, idk: 0 };
    let bytes = host_frame(Some(vec![9, 8]), Some(footer)).to_bytes();
    assert_eq!(bytes, vec![0xe6, 0x03, 6, 0, 1, 28, 9, 8, 5, 0, 6, 0]);
}

#[test]
fn host_frame_announces_its_size() {
    for size in [0usize, 2, 104, 510] {
        let bytes = host_frame(Some(vec![0; size]), None).to_bytes();
        assert_eq!(bytes[4] as usize * 2, size);
        assert_eq!(bytes.len(), 6 + size);
    }
}

#[test]
fn host_frame_size_byte_wraps() {
    assert_eq!(host_frame(Some(vec![0; 512]), None).to_bytes()[4], 0);
    assert_eq!(host_frame(Some(vec![0; 514]), None).to_bytes()[4], 1);
}

#[test]
fn default_host_frame() {
    let frame = HostToClientDataFrame::default();
    assert_eq!(frame.us_per_client_reply, 990);
    assert_eq!(frame.rx_console_mask, 0);
    assert_eq!(frame.flags.bits(), 0);
    assert_eq!(frame.broadcast_cycles_remaining, 4);
    assert_eq!(frame.payload, None);
    assert_eq!(frame.footer, None);
}
