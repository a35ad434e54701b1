//! The flag bytes of the two data frames.

use vstd::prelude::*;

verus! {

/// The flags of a frame from the host to its clients.
#[derive(Clone, Copy, Debug, PartialEq, Eq, Hash, Structural)]
pub struct HostToClientFlags {
    pub bits: u8,
}

impl HostToClientFlags {
    pub const RESERVED_0: u8 = 0x01;

    pub const RESERVED_1: u8 = 0x02;

    pub const RESERVED_2: u8 = 0x04;

    pub const HAS_FOOTER: u8 = 0x08;

    pub const RESERVED_4: u8 = 0x10;

    pub const RESERVED_5: u8 = 0x20;

    pub const RESERVED_6: u8 = 0x40;

    pub const NEXT_TRANSACTION_DELAYED: u8 = 0x80;

    /// No flag.
    pub fn empty() -> (flags: Self)
        ensures
            flags.bits == 0,
    {
        HostToClientFlags { bits: 0 }
    }

    /// The flags of a byte. Every bit names a flag, so every byte is one.
    pub fn from_bits(bits: u8) -> (flags: Option<Self>)
        ensures
            flags == Some(HostToClientFlags { bits }),
    {
        Some(HostToClientFlags { bits })
    }

    /// The byte of the flags.
    pub fn bits(&self) -> (bits: u8)
        ensures
            bits == self.bits,
    {
        self.bits
    }

    /// Whether all the flags of `mask` are set.
    pub fn contains(&self, mask: u8) -> (all: bool)
        ensures
            all <==> self.bits & mask == mask,
    {
        self.bits & mask == mask
    }
}

/// The flags of a frame from a client to the host.
#[derive(Clone, Copy, Debug, PartialEq, Eq, Hash, Structural)]
pub struct ClientToHostFlags {
    pub bits: u8,
}

impl ClientToHostFlags {
    pub const RESERVED_0: u8 = 0x01;

    pub const RESERVED_1: u8 = 0x02;

    pub const RESERVED_2: u8 = 0x04;

    pub const HAS_FOOTER: u8 = 0x08;

    pub const RESERVED_4: u8 = 0x10;

    pub const LENGTH_IS_BYTES: u8 = 0x20;

    pub const RESERVED_6: u8 = 0x40;

    pub const RESERVED_7: u8 = 0x80;

    /// The flags of a byte. Every bit names a flag, so every byte is one.
    pub fn from_bits(bits: u8) -> (flags: Option<Self>)
        ensures
            flags == Some(ClientToHostFlags { bits }),
    {
        Some(ClientToHostFlags { bits })
    }

    /// The byte of the flags.
    pub fn bits(&self) -> (bits: u8)
        ensures
            bits == self.bits,
    {
        self.bits
    }

    /// Whether all the flags of `mask` are set.
    pub fn contains(&self, mask: u8) -> (all: bool)
        ensures
            all <==> self.bits & mask == mask,
    {
        self.bits & mask == mask
    }
}

} // verus!
