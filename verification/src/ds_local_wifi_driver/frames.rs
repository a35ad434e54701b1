//! The data frames that the host and its clients exchange inside a polling cycle.

use crate::ds_local_wifi_driver::flags::{ClientToHostFlags, HostToClientFlags};
use crate::wire::{copy_range, le16, le16_at, push_u16, read_u16_at};
use vstd::prelude::*;

verus! {

/// The bytes of an optional vector.
pub open spec fn bytes_of(bytes: Option<Vec<u8>>) -> Option<Seq<u8>> {
    match bytes {
        Some(bytes) => Some(bytes@),
        None => None,
    }
}

/// A frame from a client to the host.
pub struct ClientToHostDataFrame {
    pub payload_size: u16,
    pub flags: ClientToHostFlags,
    pub payload: Option<Vec<u8>>,
    pub footer_seq_no: Option<u16>,
}

/// What a frame from a client to the host says.
pub struct ClientFrame {
    pub payload_size: u16,
    pub flags: u8,
    pub payload: Option<Seq<u8>>,
    pub footer_seq_no: Option<u16>,
}

impl View for ClientToHostDataFrame {
    type V = ClientFrame;

    open spec fn view(&self) -> ClientFrame {
        ClientFrame {
            payload_size: self.payload_size,
            flags: self.flags.bits,
            payload: bytes_of(self.payload),
            footer_seq_no: self.footer_seq_no,
        }
    }
}

/// The payload size that the two header bytes of a client frame announce: a count of half-words, or
/// of bytes where the flags say so.
pub open spec fn announced_size(bytes: Seq<u8>) -> int {
    if bytes[1] & ClientToHostFlags::LENGTH_IS_BYTES == ClientToHostFlags::LENGTH_IS_BYTES {
        bytes[0] as int
    } else {
        2 * bytes[0]
    }
}

/// Whether the flags of a client frame announce a footer.
pub open spec fn announces_footer(bytes: Seq<u8>) -> bool {
    bytes[1] & ClientToHostFlags::HAS_FOOTER == ClientToHostFlags::HAS_FOOTER
}

/// Whether a client frame holds a header, something after it, and all of the announced payload.
pub open spec fn client_payload_present(bytes: Seq<u8>) -> bool {
    bytes.len() > 2 && 2 + announced_size(bytes) <= bytes.len()
}

/// Whether a client frame whose payload is there also holds the footer that it announces.
pub open spec fn client_footer_present(bytes: Seq<u8>) -> bool {
    client_payload_present(bytes) && announces_footer(bytes) ==> 4 + announced_size(bytes)
        <= bytes.len()
}

/// The client frame that the bytes spell.
pub open spec fn client_frame(bytes: Seq<u8>) -> ClientFrame {
    let size = announced_size(bytes);
    ClientFrame {
        payload_size: size as u16,
        flags: bytes[1],
        payload: if size == 0 {
            None
        } else {
            Some(bytes.subrange(2, 2 + size))
        },
        footer_seq_no: if announces_footer(bytes) {
            Some(le16_at(bytes, 2 + size))
        } else {
            None
        },
    }
}

impl ClientToHostDataFrame {
    /// Whether `from_bytes` can read the bytes: a footer that the frame announces is there.
    pub fn is_complete(bytes: &[u8]) -> (complete: bool)
        ensures
            complete <==> client_footer_present(bytes@),
    {
        if bytes.len() <= 2 {
            return true;
        }
        let flags = ClientToHostFlags { bits: bytes[1] };
        let size: usize = if flags.contains(ClientToHostFlags::LENGTH_IS_BYTES) {
            bytes[0] as usize
        } else {
            bytes[0] as usize * 2
        };
        let left: usize = bytes.len() - 2;
        left < size || !flags.contains(ClientToHostFlags::HAS_FOOTER) || left - size >= 2
    }

    /// Reads a frame: a size byte, a flag byte, the payload and a sequence number where the flags
    /// announce one. Nothing comes of bytes too short for the header or for the payload.
    pub fn from_bytes(bytes: &[u8]) -> (frame: Option<Self>)
        requires
            client_footer_present(bytes@),
        ensures
            frame is Some <==> client_payload_present(bytes@),
            frame matches Some(f) ==> f@ == client_frame(bytes@),
    {
        if bytes.len() <= 2 {
            return None;
        }
        let flags = ClientToHostFlags { bits: bytes[1] };
        let mut size: u16 = bytes[0] as u16 * 2;
        if flags.contains(ClientToHostFlags::LENGTH_IS_BYTES) {
            size = size / 2;
        }
        let end: usize = 2 + size as usize;
        let mut payload: Option<Vec<u8>> = None;
        if size != 0 {
            if end > bytes.len() {
                return None;
            }
            payload = Some(copy_range(bytes, 2, end));
        }
        let footer_seq_no: Option<u16> = if flags.contains(ClientToHostFlags::HAS_FOOTER) {
            Some(read_u16_at(bytes, end))
        } else {
            None
        };
        Some(ClientToHostDataFrame { payload_size: size, flags, payload, footer_seq_no })
    }
}

/// The footer of a frame from the host.
#[derive(Clone, Copy, Debug, PartialEq, Eq, Structural)]
pub struct HostToClientDataFrameFooter {
    pub seq_no: u16,
    pub idk: u16,
}

impl HostToClientDataFrameFooter {
    /// The two halves of the footer, one after the other.
    pub fn to_parts(&self) -> (bytes: Vec<u8>)
        ensures
            bytes@ == le16(self.seq_no) + le16(self.idk),
    {
        let mut bytes: Vec<u8> = Vec::new();
        push_u16(&mut bytes, self.seq_no);
        push_u16(&mut bytes, self.idk);
        assert(bytes@ =~= le16(self.seq_no) + le16(self.idk));
        bytes
    }
}

/// A frame from the host to its clients: how long each reply may take, which consoles are to
/// reply, the flags, the payload and the footer.
pub struct HostToClientDataFrame {
    pub us_per_client_reply: u16,
    pub rx_console_mask: u16,
    pub flags: HostToClientFlags,
    /// Only goes down when no reply is awaited.
    pub broadcast_cycles_remaining: u8,
    pub payload: Option<Vec<u8>>,
    pub footer: Option<HostToClientDataFrameFooter>,
}

/// What a frame from the host says.
pub struct HostFrame {
    pub us_per_client_reply: u16,
    pub rx_console_mask: u16,
    pub flags: u8,
    pub broadcast_cycles_remaining: u8,
    pub payload: Option<Seq<u8>>,
    pub footer: Option<HostToClientDataFrameFooter>,
}

impl View for HostToClientDataFrame {
    type V = HostFrame;

    open spec fn view(&self) -> HostFrame {
        HostFrame {
            us_per_client_reply: self.us_per_client_reply,
            rx_console_mask: self.rx_console_mask,
            flags: self.flags.bits,
            broadcast_cycles_remaining: self.broadcast_cycles_remaining,
            payload: bytes_of(self.payload),
            footer: self.footer,
        }
    }
}

impl HostFrame {
    /// The payload, where a missing one counts as empty.
    pub open spec fn body(self) -> Seq<u8> {
        match self.payload {
            Some(payload) => payload,
            None => Seq::empty(),
        }
    }

    /// What follows the payload: the sequence number and, in the place of the footer's second half,
    /// the console mask once more.
    pub open spec fn tail(self) -> Seq<u8> {
        match self.footer {
            Some(footer) => le16(footer.seq_no) + le16(self.rx_console_mask),
            None => Seq::empty(),
        }
    }

    /// The frame on the air: reply time, console mask, size in half-words, flags, payload, footer.
    pub open spec fn encoded(self) -> Seq<u8> {
        le16(self.us_per_client_reply) + le16(self.rx_console_mask) + seq![
            ((self.body().len() / 2) % 256) as u8,
            self.flags,
        ] + self.body() + self.tail()
    }
}

impl HostToClientDataFrame {
    /// The frame on the air.
    pub fn to_bytes(&self) -> (bytes: Vec<u8>)
        ensures
            bytes@ == self@.encoded(),
    {
        let mut bytes: Vec<u8> = Vec::new();
        push_u16(&mut bytes, self.us_per_client_reply);
        push_u16(&mut bytes, self.rx_console_mask);
        match &self.payload {
            None => {
                bytes.push(0);
                bytes.push(self.flags.bits());
            },
            Some(payload) => {
                bytes.push(((payload.len() / 2) % 256) as u8);
                bytes.push(self.flags.bits());
                bytes.extend_from_slice(payload.as_slice());
            },
        }
        match &self.footer {
            None => {},
            Some(footer) => {
                push_u16(&mut bytes, footer.seq_no);
                push_u16(&mut bytes, self.rx_console_mask);
            },
        }
        assert(bytes@ =~= self@.encoded());
        bytes
    }
}

impl Default for HostToClientDataFrame {
    fn default() -> (frame: Self)
        ensures
            frame@ == (HostFrame {
                us_per_client_reply: 990,
                rx_console_mask: 0,
                flags: 0,
                broadcast_cycles_remaining: 4,
                payload: None,
                footer: None,
            }),
    {
        HostToClientDataFrame {
            us_per_client_reply: 990,
            rx_console_mask: 0,
            flags: HostToClientFlags::empty(),
            broadcast_cycles_remaining: 4,
            payload: None,
            footer: None,
        }
    }
}

} // verus!
