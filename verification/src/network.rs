//! The chat room's side towards the network: events as the network has them, and the rules of the
//! network link.

use crate::mac_address::MacAddress;
use crate::pictochat_app_driver::events::{Event, PictochatEvent, PictochatUserMessageEvent};
use crate::wide_string::{law_text_round_trip, utf16_decoded, utf16_encoded};
use vstd::prelude::*;

verus! {

/// The largest event that is taken from the network.
pub const MAX_NETWORK_EVENT: usize = 20480;

/// How long to wait for an address before going on without one, in milliseconds.
pub const ADDRESS_WAIT_MS: u64 = 10_000;

/// An event as the network has it.
#[derive(Debug, PartialEq)]
pub enum PictochatEventNetwork {
    STATE(PictochatStateEventNetwork),
    MESSAGE(PictochatMessageEventNetwork),
}

/// A user joined or left.
#[derive(Debug, PartialEq)]
pub struct PictochatStateEventNetwork {
    pub mac_address: Vec<u8>,
    pub is_leaving: bool,
    pub birthday: u8,
    pub birthmonth: u8,
    pub name: String,
    pub bio: String,
}

/// A user wrote something.
#[derive(Debug, PartialEq)]
pub struct PictochatMessageEventNetwork {
    pub mac_address: Option<Vec<u8>>,
    pub message_content: Vec<u8>,
}

/// What an event of the network says.
pub enum NetworkEvent {
    State {
        mac: Seq<u8>,
        is_leaving: bool,
        birthday: u8,
        birthmonth: u8,
        name: Seq<char>,
        bio: Seq<char>,
    },
    Message { sender: Option<Seq<u8>>, content: Seq<u8> },
}

impl View for PictochatEventNetwork {
    type V = NetworkEvent;

    open spec fn view(&self) -> NetworkEvent {
        match self {
            PictochatEventNetwork::STATE(state) => NetworkEvent::State {
                mac: state.mac_address@,
                is_leaving: state.is_leaving,
                birthday: state.birthday,
                birthmonth: state.birthmonth,
                name: state.name@,
                bio: state.bio@,
            },
            PictochatEventNetwork::MESSAGE(message) => NetworkEvent::Message {
                sender: crate::ds_local_wifi_driver::frames::bytes_of(message.mac_address),
                content: message.message_content@,
            },
        }
    }
}

/// An event of the chat room in the network's terms.
pub open spec fn for_network(event: Event) -> NetworkEvent {
    match event {
        Event::State { mac, is_leaving, birthday, birthmonth, name, bio } => NetworkEvent::State {
            mac,
            is_leaving,
            birthday,
            birthmonth,
            name: utf16_decoded(name),
            bio: utf16_decoded(bio),
        },
        Event::Message { sender, content } => NetworkEvent::Message { sender, content },
    }
}

/// The octets of an address.
fn octets_vec(mac: &MacAddress) -> (octets: Vec<u8>)
    ensures
        octets@ == mac@,
{
    let mut octets: Vec<u8> = Vec::new();
    octets.extend_from_slice(mac.octets.as_slice());
    assert(octets@ =~= mac@);
    octets
}

/// Puts an event of the chat room in the network's terms. A message of the room has a sender.
pub fn to_network(event: PictochatEvent) -> (network_event: PictochatEventNetwork)
    requires
        event@ matches Event::Message { sender, .. } ==> sender is Some,
    ensures
        network_event@ == for_network(event@),
{
    match event {
        PictochatEvent::STATE(state) => PictochatEventNetwork::STATE(
            PictochatStateEventNetwork {
                mac_address: octets_vec(&state.mac_address),
                is_leaving: state.is_leaving,
                birthday: state.birthday,
                birthmonth: state.birthmonth,
                name: state.name.to_utf8(),
                bio: state.bio.to_utf8(),
            },
        ),
        PictochatEvent::MESSAGE(message) => {
            let sender = message.mac_address.unwrap();
            PictochatEventNetwork::MESSAGE(
                PictochatMessageEventNetwork {
                    mac_address: Some(octets_vec(&sender)),
                    message_content: message.message_content,
                },
            )
        },
    }
}

/// Whether an event of the network is one that the chat room takes.
pub fn is_for_room(network_event: &PictochatEventNetwork) -> (taken: bool)
    ensures
        taken <==> network_event@ is Message,
{
    matches!(network_event, PictochatEventNetwork::MESSAGE(_))
}

/// An event of the network in the chat room's terms. Only messages are taken.
pub open spec fn for_room(network_event: NetworkEvent) -> Event {
    Event::Message { sender: None, content: network_event->content }
}

/// Puts an event of the network in the chat room's terms. Only messages are taken, and whoever sent
/// one, in the room it is the host's.
pub fn from_network(network_event: PictochatEventNetwork) -> (event: PictochatEvent)
    requires
        network_event@ is Message,
    ensures
        event@ == (Event::Message { sender: None, content: network_event@->content }),
        event@ == for_room(network_event@),
{
    let content: Vec<u8> = match network_event {
        PictochatEventNetwork::MESSAGE(message) => message.message_content,
        PictochatEventNetwork::STATE(_) => Vec::new(),
    };
    PictochatEvent::MESSAGE(
        PictochatUserMessageEvent { mac_address: None, message_content: content },
    )
}

/// Whether an event of this size is taken from the network.
pub fn is_size_accepted(size: usize) -> (accepted: bool)
    ensures
        accepted <==> size <= MAX_NETWORK_EVENT,
        accepted <==> size <= 20480,
{
    size <= MAX_NETWORK_EVENT
}

/// Something that happens to the network link.
#[derive(Clone, Copy, Debug, PartialEq, Eq, Structural)]
pub enum LinkEvent {
    Connected,
    Disconnected,
    GotIp,
    LostIp,
    Other,
}

/// What is to be done about the service announcement.
#[derive(Clone, Copy, Debug, PartialEq, Eq, Structural)]
pub enum MdnsAction {
    Nothing,
    Start,
    Stop,
}

/// What is known of the network link: whether the service is announced, and whether there is an
/// address.
#[derive(Clone, Copy, Debug, PartialEq, Eq, Structural)]
pub struct NetworkLink {
    pub announced: bool,
    pub has_ip: bool,
}

impl NetworkLink {
    /// A link that is down.
    pub fn new() -> (link: Self)
        ensures
            link == (NetworkLink { announced: false, has_ip: false }),
    {
        NetworkLink { announced: false, has_ip: false }
    }

    /// The link after an event. The service is announced when an address comes, and no more when
    /// the address or the link goes.
    pub open spec fn after(self, event: LinkEvent) -> NetworkLink {
        match event {
            LinkEvent::GotIp => NetworkLink { announced: true, has_ip: true },
            LinkEvent::LostIp => NetworkLink { announced: false, has_ip: false },
            LinkEvent::Disconnected => NetworkLink { announced: false, has_ip: self.has_ip },
            LinkEvent::Connected => self,
            LinkEvent::Other => self,
        }
    }

    /// Notes an event, and says what is to be done. What is running is not started again, and what
    /// is not running is not stopped.
    pub fn on_ethevent(&mut self, event: LinkEvent) -> (action: MdnsAction)
        ensures
            *final(self) == old(self).after(event),
            action == (if final(self).announced == old(self).announced {
                MdnsAction::Nothing
            } else if final(self).announced {
                MdnsAction::Start
            } else {
                MdnsAction::Stop
            }),
    {
        let before = self.announced;
        match event {
            LinkEvent::GotIp => {
                self.announced = true;
                self.has_ip = true;
            },
            LinkEvent::LostIp => {
                self.announced = false;
                self.has_ip = false;
            },
            LinkEvent::Disconnected => {
                self.announced = false;
            },
            LinkEvent::Connected => {},
            LinkEvent::Other => {},
        }
        if self.announced == before {
            MdnsAction::Nothing
        } else if self.announced {
            MdnsAction::Start
        } else {
            MdnsAction::Stop
        }
    }

    /// Whether to go on waiting for an address.
    pub fn keeps_waiting(&self, waited_ms: u64) -> (waits: bool)
        ensures
            waits <==> !self.has_ip && waited_ms < ADDRESS_WAIT_MS,
        waits <==> !self.has_ip && waited_ms < 10_000,
    {
        !self.has_ip && waited_ms < ADDRESS_WAIT_MS
    }
}

/// The service is announced only while there is an address.
pub proof fn law_announced_only_with_an_address(link: NetworkLink, event: LinkEvent)
    requires
        link.announced ==> link.has_ip,
    ensures
        link.after(event).announced ==> link.after(event).has_ip,
{
}

/// A name that was made of a text reaches the network as that text.
pub proof fn law_names_reach_the_network(
    mac: Seq<u8>,
    is_leaving: bool,
    birthday: u8,
    birthmonth: u8,
    name: Seq<char>,
    bio: Seq<char>,
)
    ensures
        for_network(
            Event::State {
                mac,
                is_leaving,
                birthday,
                birthmonth,
                name: utf16_encoded(name),
                bio: utf16_encoded(bio),
            },
        ) == (NetworkEvent::State { mac, is_leaving, birthday, birthmonth, name, bio }),
{
    law_text_round_trip(name);
    law_text_round_trip(bio);
}

/// A message keeps its content, all of it and as it is, on its way to the network and on its way
/// back into a room, and its sender on its way to the network. In the other room it is the host's.
pub proof fn law_messages_keep_their_content(sender: Option<Seq<u8>>, content: Seq<u8>)
    ensures
        for_network(Event::Message { sender, content }) matches NetworkEvent::Message {
            sender: told,
            content: carried,
        } && told == sender && carried == content,
        for_room(NetworkEvent::Message { sender, content }) == (Event::Message {
            sender: None,
            content,
        }),
        for_room(for_network(Event::Message { sender, content })) == (Event::Message {
            sender: None,
            content,
        }),
{
}

/// Who joined or left reaches the network as it is: the address, the birthday, whether it left, and
/// the texts that the name and the biography hold.
pub proof fn law_users_reach_the_network(
    mac: Seq<u8>,
    is_leaving: bool,
    birthday: u8,
    birthmonth: u8,
    name: Seq<u8>,
    bio: Seq<u8>,
)
    ensures
        for_network(Event::State { mac, is_leaving, birthday, birthmonth, name, bio }) == (
        NetworkEvent::State {
            mac,
            is_leaving,
            birthday,
            birthmonth,
            name: utf16_decoded(name),
            bio: utf16_decoded(bio),
        }),
{
}

/// What a network link is after an event: an address that comes is there and has the service
/// announced, an address that goes ends both, a link that goes down ends the announcement, and
/// anything else changes nothing.
pub proof fn law_link_follows_its_events(link: NetworkLink)
    ensures
        link.after(LinkEvent::GotIp).announced,
        link.after(LinkEvent::GotIp).has_ip,
        !link.after(LinkEvent::LostIp).announced,
        !link.after(LinkEvent::LostIp).has_ip,
        !link.after(LinkEvent::Disconnected).announced,
        link.after(LinkEvent::Disconnected).has_ip == link.has_ip,
        link.after(LinkEvent::Connected) == link,
        link.after(LinkEvent::Other) == link,
{
}

} // verus!
