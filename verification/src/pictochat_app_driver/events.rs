//! What the chat application is told and tells, and the jobs that it works through.

use crate::ds_local_wifi_driver::frames::bytes_of;
use crate::ds_local_wifi_driver::link::octets_of;
use crate::mac_address::MacAddress;
use crate::pictochat_app_driver::pictochat_packets::{ConsoleId, ConsoleIdPayload};
use crate::wide_string::WStringWrapper;
use crate::wire::copy_range;
use vstd::prelude::*;

verus! {

/// Something that happens in the chat room.
#[derive(Debug, PartialEq)]
pub enum PictochatEvent {
    STATE(PictochatUserStateEvent),
    MESSAGE(PictochatUserMessageEvent),
}

/// A user joined or left.
#[derive(Debug, PartialEq)]
pub struct PictochatUserStateEvent {
    pub mac_address: MacAddress,
    pub is_leaving: bool,
    pub birthday: u8,
    pub birthmonth: u8,
    pub name: WStringWrapper,
    pub bio: WStringWrapper,
}

/// A user wrote something. A message without an address is one of the host.
#[derive(Debug, PartialEq)]
pub struct PictochatUserMessageEvent {
    pub mac_address: Option<MacAddress>,
    pub message_content: Vec<u8>,
}

/// What an event says.
pub enum Event {
    State {
        mac: Seq<u8>,
        is_leaving: bool,
        birthday: u8,
        birthmonth: u8,
        name: Seq<u8>,
        bio: Seq<u8>,
    },
    Message { sender: Option<Seq<u8>>, content: Seq<u8> },
}

impl View for PictochatEvent {
    type V = Event;

    open spec fn view(&self) -> Event {
        match self {
            PictochatEvent::STATE(state) => Event::State {
                mac: state.mac_address@,
                is_leaving: state.is_leaving,
                birthday: state.birthday,
                birthmonth: state.birthmonth,
                name: state.name@,
                bio: state.bio@,
            },
            PictochatEvent::MESSAGE(message) => Event::Message {
                sender: octets_of(message.mac_address),
                content: message.message_content@,
            },
        }
    }
}

/// What a list of events says.
pub open spec fn events_of(events: Seq<PictochatEvent>) -> Seq<Event> {
    events.map_values(|event: PictochatEvent| event@)
}

/// What the application is busy with.
#[derive(PartialEq, Debug)]
pub enum PictochatAppState {
    /// Nothing: the member list goes out.
    Idle,
    /// A console asked to join.
    NewClient,
    /// A console's identity is sent to all.
    IdentConsole((MacAddress, ConsoleIdPayload)),
    /// A console is asked for its identity.
    RequestIdent(u16),
    /// A packet of a console is repeated to all.
    Echo,
    /// A long payload goes out in pieces.
    TXTransfer,
}

/// What a state says.
pub enum ChatState {
    Idle,
    NewClient,
    IdentConsole { mac: Seq<u8>, id: ConsoleId },
    RequestIdent { console_id: u16 },
    Echo,
    TXTransfer,
}

impl View for PictochatAppState {
    type V = ChatState;

    open spec fn view(&self) -> ChatState {
        match self {
            PictochatAppState::Idle => ChatState::Idle,
            PictochatAppState::NewClient => ChatState::NewClient,
            PictochatAppState::IdentConsole((mac, id)) => ChatState::IdentConsole {
                mac: mac@,
                id: id@,
            },
            PictochatAppState::RequestIdent(console_id) => ChatState::RequestIdent {
                console_id: *console_id,
            },
            PictochatAppState::Echo => ChatState::Echo,
            PictochatAppState::TXTransfer => ChatState::TXTransfer,
        }
    }
}

impl Clone for PictochatAppState {
    fn clone(&self) -> (copy: Self)
        ensures
            copy@ == self@,
    {
        match self {
            PictochatAppState::Idle => PictochatAppState::Idle,
            PictochatAppState::NewClient => PictochatAppState::NewClient,
            PictochatAppState::IdentConsole((mac, id)) => PictochatAppState::IdentConsole(
                (*mac, id.clone()),
            ),
            PictochatAppState::RequestIdent(console_id) => PictochatAppState::RequestIdent(
                *console_id,
            ),
            PictochatAppState::Echo => PictochatAppState::Echo,
            PictochatAppState::TXTransfer => PictochatAppState::TXTransfer,
        }
    }
}

/// A state that the application is to enter, with what it needs there: a payload, the number of
/// the next step and the offset of the next piece.
pub struct PictochatStateObject {
    pub desired_state: PictochatAppState,
    pub payload: Option<Vec<u8>>,
    pub counter: u16,
    pub offset: u16,
}

/// What a job says.
pub struct Job {
    pub state: ChatState,
    pub payload: Option<Seq<u8>>,
    pub counter: u16,
    pub offset: u16,
}

impl Job {
    /// A job that has not begun.
    pub open spec fn new(state: ChatState, payload: Option<Seq<u8>>) -> Job {
        Job { state, payload, counter: 0, offset: 0 }
    }
}

impl View for PictochatStateObject {
    type V = Job;

    open spec fn view(&self) -> Job {
        Job {
            state: self.desired_state@,
            payload: bytes_of(self.payload),
            counter: self.counter,
            offset: self.offset,
        }
    }
}

impl PictochatStateObject {
    /// A job that has not begun.
    pub fn new(desired_state: PictochatAppState, payload: Option<Vec<u8>>) -> (job: Self)
        ensures
            job@ == Job::new(desired_state@, bytes_of(payload)),
    {
        PictochatStateObject { desired_state, payload, counter: 0, offset: 0 }
    }
}

impl Clone for PictochatStateObject {
    fn clone(&self) -> (copy: Self)
        ensures
            copy@ == self@,
    {
        let payload: Option<Vec<u8>> = match &self.payload {
            Some(payload) => Some(copy_range(payload.as_slice(), 0, payload.len())),
            None => None,
        };
        assert(bytes_of(payload) == bytes_of(self.payload)) by {
            if let Some(bytes) = self.payload {
                assert(bytes@.subrange(0, bytes@.len() as int) =~= bytes@);
            }
        }
        PictochatStateObject {
            desired_state: self.desired_state.clone(),
            payload,
            counter: self.counter,
            offset: self.offset,
        }
    }
}

/// What a list of jobs says.
pub open spec fn jobs_of(jobs: Seq<PictochatStateObject>) -> Seq<Job> {
    jobs.map_values(|job: PictochatStateObject| job@)
}

} // verus!
