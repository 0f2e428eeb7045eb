//! What the back end knows between commands: its identifier and name, the
//! keys of the server and of the chat, and the received packets.
use vstd::prelude::*;
use vstd::string::*;

use crate::appstate::session::Session;
use crate::text::copy_range;

verus! {

/// The keys that the client holds.
pub struct Keys {
    /// The key of the session with the server.
    pub server_key: Option<Vec<u8>>,
    /// The key of the chat with the partner.
    pub chat_key: Option<Vec<u8>>,
    /// The key that this client made for a partner's request.
    pub req_key: Option<Vec<u8>>,
    /// That key, encrypted for the partner.
    pub req_cipher: Option<Vec<u8>>,
    /// The RSA private key of the client's own pending request, as the
    /// big-endian bytes of its private exponent `d` and its modulus `n`.
    pub req_private: Option<(Vec<u8>, Vec<u8>)>,
}

/// The client's state.
pub struct Context {
    pub id: Option<String>,
    pub name: Option<String>,
    pub keys: Keys,
    pub session: Session,
}

/// The view of an optional key.
pub open spec fn key_view(k: Option<Vec<u8>>) -> Option<Seq<u8>> {
    match k {
        Some(v) => Some(v@),
        None => None,
    }
}

/// The view of an optional private key: `d` and `n`.
pub open spec fn private_view(k: Option<(Vec<u8>, Vec<u8>)>) -> Option<(Seq<u8>, Seq<u8>)> {
    match k {
        Some((d, n)) => Some((d@, n@)),
        None => None,
    }
}

/// The error for a key that the client does not hold yet.
pub open spec fn no_server_key_message() -> Seq<char> {
    "No server key!"@
}

impl Keys {
    /// No key yet.
    pub fn new() -> (k: Keys)
        ensures
            k.server_key is None,
            k.chat_key is None,
            k.req_key is None,
            k.req_cipher is None,
            k.req_private is None,
    {
        Keys { server_key: None, chat_key: None, req_key: None, req_cipher: None, req_private: None }
    }

    /// The server key, which every packet to the server is encrypted with.
    pub fn server_key_for_sending(&self) -> (res: Result<Vec<u8>, String>)
        ensures
            self.server_key matches Some(k) ==> (res matches Ok(r) && r@ == k@),
            self.server_key is None ==> (res matches Err(e) && e@ == no_server_key_message()),
    {
        match &self.server_key {
            Some(key) => Ok(copy_range(key, 0, key.len())),
            None => Err(String::from_str("No server key!")),
        }
    }

    /// The chat key, which a message's text is encrypted with; its absence
    /// is reported with the same words as that of the server key.
    pub fn chat_key_for_sending(&self) -> (res: Result<Vec<u8>, String>)
        ensures
            self.chat_key matches Some(k) ==> (res matches Ok(r) && r@ == k@),
            self.chat_key is None ==> (res matches Err(e) && e@ == no_server_key_message()),
    {
        match &self.chat_key {
            Some(key) => Ok(copy_range(key, 0, key.len())),
            None => Err(String::from_str("No server key!")),
        }
    }
}

} // verus!
