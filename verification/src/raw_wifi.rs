//! The receiver of raw frames: a channel, and somebody to show the frames to.

use vstd::prelude::*;

verus! {

/// Size of the checksum that ends a received frame.
pub const CHECKSUM_SIZE: u32 = 4;

/// The place of the receiver, empty until it is set up.
pub struct RawWifiInstanceHolder<F> {
    pub instance: Option<RawWifi<F>>,
}

impl<F> RawWifiInstanceHolder<F> {
    /// Sets the receiver up, on channel 1 and with nobody to show frames to.
    pub fn init(&mut self)
        ensures
            final(self).instance matches Some(receiver) && {
                &&& receiver.channel_number() == 1
                &&& receiver.logger() is None
            },
    {
        self.instance = Some(RawWifi::new(1));
    }

    /// The receiver.
    pub fn get(&mut self) -> (receiver: &mut RawWifi<F>)
        requires
            old(self).instance is Some,
        ensures
            *receiver == old(self).instance->0,
            final(self).instance == Some(*final(receiver)),
    {
        self.instance.as_mut().unwrap()
    }
}

/// The receiver of raw frames.
pub struct RawWifi<F> {
    channel: u8,
    log_fn: Option<F>,
}

/// A frame as the radio delivers it: the length that the radio measured, checksum counted in, and
/// the bytes.
pub struct RawPacket<'a> {
    pub sig_len: u32,
    pub bytes: &'a [u8],
}

impl<F> RawWifi<F> {
    /// The channel to receive on.
    pub closed spec fn channel_number(self) -> u8 {
        self.channel
    }

    /// Whom frames are shown to.
    pub closed spec fn logger(self) -> Option<F> {
        self.log_fn
    }

    /// A receiver on a channel, with nobody to show frames to.
    pub fn new(wifi_channel: u8) -> (receiver: Self)
        ensures
            receiver.channel_number() == wifi_channel,
            receiver.logger() is None,
    {
        RawWifi { channel: wifi_channel, log_fn: None }
    }

    /// Changes the channel.
    pub fn set_channel(&mut self, wifi_channel: u8)
        ensures
            final(self).channel_number() == wifi_channel,
            final(self).logger() == old(self).logger(),
    {
        self.channel = wifi_channel;
    }

    /// The channel to receive on.
    pub fn channel(&self) -> (channel: u8)
        ensures
            channel == self.channel_number(),
    {
        self.channel
    }

    /// Sets whom frames are shown to.
    pub fn set_log(&mut self, log_fn: F)
        ensures
            final(self).logger() == Some(log_fn),
            final(self).channel_number() == old(self).channel_number(),
    {
        self.log_fn = Some(log_fn);
    }
}

/// A received frame without its checksum.
pub fn without_checksum<'a>(packet: &RawPacket<'a>) -> (frame: &'a [u8])
    requires
        CHECKSUM_SIZE <= packet.sig_len,
        packet.sig_len - CHECKSUM_SIZE <= packet.bytes@.len(),
    ensures
        frame@ == packet.bytes@.take(packet.sig_len - CHECKSUM_SIZE),
{
    let size: usize = (packet.sig_len - CHECKSUM_SIZE) as usize;
    &packet.bytes[0..size]
}

impl<F: Fn(&[u8])> RawWifi<F> {
    /// Shows a received frame, without its checksum, to whoever is to see it.
    pub fn rx_cb(&self, packet: Option<RawPacket>)
        requires
            packet matches Some(p) ==> {
                &&& CHECKSUM_SIZE <= p.sig_len
                &&& p.sig_len - CHECKSUM_SIZE <= p.bytes@.len()
            },
            self.logger() matches Some(log) ==> forall|frame: &[u8]| #[trigger]
                log.requires((frame,)),
        ensures
            packet matches Some(p) ==> (self.logger() matches Some(log) ==> exists|frame: &[u8]|
                frame@ == p.bytes@.take(p.sig_len - CHECKSUM_SIZE) && #[trigger] log.ensures(
                    (frame,),
                    (),
                )),
    {
        match packet {
            None => {},
            Some(packet) => {
                let frame = without_checksum(&packet);
                match &self.log_fn {
                    Some(log) => {
                        log(frame);
                    },
                    None => {},
                }
            },
        }
    }
}

} // verus!
