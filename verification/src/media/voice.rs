//! What the voice engine reports to the network layer. The engine itself
//! (capture, codecs, WebRTC) is the caller's.
use vstd::prelude::*;

verus! {

/// An event of the voice engine.
#[derive(Debug, Clone)]
pub enum VoiceEvent {
    /// A session description to send to a peer: an offer or an answer.
    SendSdp { peer_id: String, sdp: String, is_offer: bool },
    /// An ICE candidate to send to a peer.
    SendIceCandidate { peer_id: String, candidate: String },
    /// The connection to a peer came up or went down.
    StateChanged { peer_id: String, connected: bool },
}

} // verus!
