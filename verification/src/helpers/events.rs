//! The payloads that the back end hands to the front end.
use vstd::prelude::*;

use crate::network::tauri::HandshakeStatus;

verus! {

/// Sent when a partner asks for a chat key: the stage, the partner as
/// shown, and the partner's identifier.
pub struct HandshakeEvent {
    pub status: HandshakeStatus,
    pub sender: String,
    pub id: String,
}

/// Sent when a chat partner has connected.
pub struct ConnectedPayload {
    pub name: String,
}

/// Sent with the text of a chat message that arrived.
pub struct MessagePayload {
    pub content: String,
}

} // verus!
