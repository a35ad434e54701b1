//! The polling cycle, step by step. The owner of a driver waits and receives; each step says what
//! comes next.

use crate::ds_local_wifi_driver::driver::LocalWifiDriverInner;
use crate::ds_local_wifi_driver::layer::{ClientEvents, LocalWifiApplicationLayer};
use crate::ds_local_wifi_driver::link::{Inbound, InboundPacket};
use crate::ds_local_wifi_driver::state::{elapsed, event_aid, DriverState};
use vstd::prelude::*;

verus! {

/// How long the reply window is open after a poll, in microseconds.
pub const REPLY_WINDOW_US: u64 = 10_000;

/// Whether the reply window is over, after a wait in microseconds.
pub fn is_window_over(waited_us: u64) -> (over: bool)
    ensures
        over <==> waited_us > REPLY_WINDOW_US,
        over <==> waited_us > 10_000,
{
    waited_us > REPLY_WINDOW_US
}

/// Where in its cycle a driver is.
#[derive(Clone, Copy, Debug, PartialEq, Eq, Structural)]
pub enum DriverPhase {
    /// A client event may have come in.
    Events,
    /// This many times more, a reply may have come in before the poll.
    Drain { left: usize },
    /// The poll is out, and the consoles in the mask were to reply. Their replies may come in until
    /// the reply window is over.
    Await { mask: u16 },
}

/// What the owner of a driver found when it waited. A phase looks only at what it asks for.
pub struct StepInput {
    pub event: Option<ClientEvents>,
    pub packet: Option<InboundPacket>,
    pub window_over: bool,
    /// The time, in microseconds.
    pub now_us: u64,
}

/// What a driver's owner found.
pub struct Found {
    pub event: Option<ClientEvents>,
    pub packet: Option<Inbound>,
    pub window_over: bool,
    pub now_us: u64,
}

impl View for StepInput {
    type V = Found;

    open spec fn view(&self) -> Found {
        Found {
            event: self.event,
            packet: match self.packet {
                Some(packet) => Some(packet@),
                None => None,
            },
            window_over: self.window_over,
            now_us: self.now_us,
        }
    }
}

impl<T: LocalWifiApplicationLayer> DriverState<T> {
    /// Whether a step can be made.
    pub open spec fn can_step(self, phase: DriverPhase, found: Found) -> bool {
        match phase {
            DriverPhase::Events => found.event matches Some(event) ==> event_aid(event) < 16,
            DriverPhase::Drain { left } => if left > 0 {
                found.packet matches Some(packet) ==> self.can_receive(packet)
            } else {
                self.ledger.clients.len() > 0 ==> self.can_send()
            },
            DriverPhase::Await { mask } => mask != 0 && !found.window_over ==> (
            found.packet matches Some(packet) ==> self.can_receive(packet)),
        }
    }

    /// How a step changes the driver, and what comes next. After the client events the driver looks
    /// for one reply for each console. It polls where any console is connected, and waits for the
    /// replies of the consoles that it polled.
    pub open spec fn steps(
        self,
        phase: DriverPhase,
        found: Found,
        after: DriverState<T>,
        next: DriverPhase,
    ) -> bool {
        match phase {
            DriverPhase::Events => {
                &&& match found.event {
                    Some(event) => self.notes(event, after),
                    None => after == self,
                }
                &&& next matches DriverPhase::Drain { left } && left == after.ledger.clients.len()
            },
            DriverPhase::Drain { left } => if left > 0 {
                &&& match found.packet {
                    Some(packet) => exists|taken: DriverState<T>| #[trigger]
                        self.receives(packet, taken) && after == taken.timed(
                            elapsed(found.now_us, packet.handed_on),
                        ),
                    None => after == self,
                }
                &&& next == DriverPhase::Drain { left: (left - 1) as usize }
            } else {
                &&& if self.ledger.clients.len() > 0 {
                    self.reported().sends(after)
                } else {
                    after == self.reported()
                }
                &&& next == DriverPhase::Await { mask: (after.layer.frame->0).rx_console_mask }
            },
            DriverPhase::Await { mask } => if mask == 0 || found.window_over {
                &&& after == self.reported_awaited().reported_air()
                &&& next == DriverPhase::Events
            } else {
                &&& match found.packet {
                    Some(packet) => exists|taken: DriverState<T>| #[trigger]
                        self.receives(packet, taken) && after == taken.timed_awaited(
                            elapsed(found.now_us, packet.handed_on),
                            elapsed(found.now_us, packet.received),
                        ),
                    None => after == self,
                }
                &&& next == phase
            },
        }
    }
}

impl<T: LocalWifiApplicationLayer> LocalWifiDriverInner<T> {
    /// Whether `step` may be called.
    pub fn step_ready(&self, phase: DriverPhase, input: &StepInput) -> (ready: bool)
        requires
            self@.resting(),
        ensures
            ready <==> self@.can_step(phase, input@),
    {
        match phase {
            DriverPhase::Events => match &input.event {
                Some(ClientEvents::NewClient((_, aid))) => *aid < 16,
                Some(ClientEvents::LostClient((_, aid))) => *aid < 16,
                None => true,
            },
            DriverPhase::Drain { left } => if left > 0 {
                match &input.packet {
                    Some(packet) => self.is_ready_for_reply(packet),
                    None => true,
                }
            } else {
                self.client_count() == 0 || self.is_ready_to_send()
            },
            DriverPhase::Await { mask } => if mask != 0 && !input.window_over {
                match &input.packet {
                    Some(packet) => self.is_ready_for_reply(packet),
                    None => true,
                }
            } else {
                true
            },
        }
    }

    /// Whether the next step asks the application for a frame.
    pub fn asks_application(&self, phase: DriverPhase) -> (asks: bool)
        requires
            self@.resting(),
        ensures
            asks <==> phase == (DriverPhase::Drain { left: 0 }) && self@.ledger.clients.len() > 0
                && (self@.layer.frame->0).rx_console_mask == 0,
    {
        match phase {
            DriverPhase::Drain { left } => left == 0 && self.client_count() > 0
                && self.missing_replies() == 0,
            _ => false,
        }
    }

    /// Makes one step of the cycle, with what the owner found when it waited, and says what comes
    /// next.
    pub fn step(&mut self, phase: DriverPhase, input: &StepInput) -> (next: DriverPhase)
        requires
            old(self)@.resting(),
            old(self)@.can_step(phase, input@),
        ensures
            old(self)@.steps(phase, input@, final(self)@, next),
            final(self)@.resting(),
    {
        match phase {
            DriverPhase::Events => {
                match input.event {
                    Some(event) => {
                        self.on_client_event(event);
                    },
                    None => {},
                }
                DriverPhase::Drain { left: self.client_count() }
            },
            DriverPhase::Drain { left } => {
                if left > 0 {
                    match &input.packet {
                        Some(packet) => {
                            let (latency, _) = self.on_packet_real(packet, input.now_us);
                            self.note_latency(latency);
                        },
                        None => {},
                    }
                    DriverPhase::Drain { left: left - 1 }
                } else {
                    self.report();
                    if self.client_count() > 0 {
                        self.send_current_data_frame();
                    }
                    DriverPhase::Await { mask: self.missing_replies() }
                }
            },
            DriverPhase::Await { mask } => {
                if mask == 0 || input.window_over {
                    self.report_awaited();
                    self.report_air();
                    DriverPhase::Events
                } else {
                    match &input.packet {
                        Some(packet) => {
                            let (latency, air) = self.on_packet_real(packet, input.now_us);
                            self.note_awaited_latency(latency, air);
                        },
                        None => {},
                    }
                    phase
                }
            },
        }
    }
}

} // verus!
