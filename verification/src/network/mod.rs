//! Network commands and the decisions the network layer takes on messages
//! and signals; the transport itself (libp2p) is driven by the caller.
pub mod identity;
pub mod node;

use vstd::prelude::*;
use crate::types::{ChatMessage, DirectMessage, Channel, UserStatus};

verus! {

#[verifier::external_type_specification]
#[verifier::external_body]
pub struct ExMultiaddr(libp2p::Multiaddr);

/// Whether `libp2p::Multiaddr`'s `FromStr` accepts a text as a
/// multiaddress.
pub uninterp spec fn multiaddr_parses(s: Seq<char>) -> bool;

/// The multiaddress that `libp2p::Multiaddr`'s `FromStr` reads from a text
/// it accepts.
pub uninterp spec fn multiaddr_of(s: Seq<char>) -> libp2p::Multiaddr;

/// `<libp2p::Multiaddr as FromStr>::from_str`; the parse error becomes
/// `None`. Whether it succeeds, and the address it gives, depend on the
/// text alone.
#[verifier::external_body]
pub(crate) fn parse_multiaddr(s: &str) -> (r: Option<libp2p::Multiaddr>)
    ensures
        r is Some <==> multiaddr_parses(s@),
        r matches Some(a) ==> a == multiaddr_of(s@),
{
    s.parse().ok()
}

#[verifier::external_type_specification]
#[verifier::external_body]
pub struct ExPeerId(libp2p::PeerId);

/// Whether `libp2p::PeerId`'s `FromStr` accepts a text as a peer id.
pub uninterp spec fn peer_id_parses(s: Seq<char>) -> bool;

/// `<libp2p::PeerId as FromStr>::from_str`; the parse error becomes `None`.
/// Whether it succeeds depends on the text alone; which peer id it gives is
/// not stated.
#[verifier::external_body]
pub(crate) fn parse_peer_id(s: &str) -> (r: Option<libp2p::PeerId>)
    ensures
        r is Some <==> peer_id_parses(s@),
{
    s.parse().ok()
}

/// Commands from the interface to the network layer.
#[derive(Debug)]
pub enum NetCommand {
    SendMessage(ChatMessage),
    SendDirectMessage(DirectMessage),
    /// Subscribe to a channel topic and announce it.
    JoinServer(String),
    LeaveServer(String),
    CreateChannel { server_id: String, channel: Channel },
    UpdatePresence(UserStatus),
    Dial(libp2p::Multiaddr),
    /// Start voice in a channel topic.
    StartVoice(String),
    StopVoice,
    StartScreenShare(String),
    StopScreenShare,
}

} // verus!
