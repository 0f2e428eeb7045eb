//! The decisions of the thread that listens to the server. The thread
//! reads and decrypts each packet, makes and encrypts keys, and tells the
//! front end; between those steps it asks `Listener::on_packet` what the
//! packet means for the keys, the queue of received packets, and what to
//! do next.
use vstd::prelude::*;
use vstd::string::*;
use vstd::utf8::*;

use std::collections::VecDeque;

use crate::appstate::context::{key_view, private_view, Keys};
use crate::helpers::events::{HandshakeEvent, MessagePayload};
use crate::helpers::packet::{AssignPacket, ProcessedPacket};
use crate::network::tauri::{HandshakePacket, HandshakeStatus};
use crate::text::{copy_range, string_from_utf8};

verus! {

/// Where the listener is: before or after the server's name assignment.
pub struct Listener {
    pub assigned: bool,
}

/// A packet as the listener has decoded it.
pub enum ListenerEvent {
    /// The server assigns the client its identifier, with the key of the
    /// session with the server.
    Assign { aes_key: Vec<u8>, packet: AssignPacket },
    /// A partner asks for a chat key: `key` is the key made for it and
    /// `key_cipher` that key encrypted with the partner's public key;
    /// `sender` is the partner as shown, `src_id` its identifier.
    HandshakeRequest { sender: String, src_id: Option<String>, key: Vec<u8>, key_cipher: Vec<u8> },
    /// A partner accepted the client's request: the chat key, encrypted
    /// with the public part of the RSA key of that request.
    HandshakeAccept { aes_key: Vec<u8> },
    /// Any other step of a key exchange.
    Handshake(HandshakePacket),
    /// A chat message, still encrypted with the chat key.
    Message { content: Vec<u8> },
    /// Any other packet.
    Other(ProcessedPacket),
    /// A packet that did not decode.
    Undecodable,
}

/// What the listener does next.
pub enum ListenerAction {
    /// Nothing more: the packet is dealt with.
    Done,
    /// The packet is ignored.
    Ignore,
    /// Tell the front end of a partner's request.
    EmitHandshake(HandshakeEvent),
    /// Decrypt the chat key `cipher` with the private exponent `d` and
    /// modulus `n`, then hand it to `Listener::on_chat_key`.
    DecryptChatKey { cipher: Vec<u8>, d: Vec<u8>, n: Vec<u8> },
    /// Tell the front end that its request was accepted.
    EmitAccepted,
    /// Decrypt `content` with `key`, then hand the text to
    /// `Listener::on_message_text`.
    Decrypt { key: Vec<u8>, content: Vec<u8> },
    /// Tell the front end of a chat message.
    EmitMessage(MessagePayload),
    /// Stop listening.
    Stop,
}

/// The identifier that a request's event shows.
pub open spec fn shown_id(src_id: Option<String>) -> Seq<char> {
    match src_id {
        Some(i) => i@,
        None => "NO USER ID"@,
    }
}

/// A request's event shows the partner's identifier whenever the request
/// carries one; the placeholder appears only when it does not.
pub proof fn lemma_shown_id(src_id: Option<String>)
    ensures
        src_id matches Some(i) ==> shown_id(src_id) == i@,
        src_id is None ==> shown_id(src_id) == "NO USER ID"@,
{
}

impl Listener {
    /// A listener that waits for the server's name assignment.
    pub fn new() -> (l: Listener)
        ensures
            !l.assigned,
    {
        Listener { assigned: false }
    }

    /// What a decoded packet means. Before the assignment only the
    /// assignment counts: it sets the server key and is queued. After it,
    /// a request stores the key made for it and its encrypted copy, an
    /// acceptance is to be decrypted with the private key of the client's
    /// own request (ignored when there is none), a message is to be
    /// decrypted with the chat key (ignored when there is none), and every
    /// other packet, assignments and other key-exchange steps included, is
    /// queued. A packet that did not decode stops the listener. Only the
    /// first assignment sets the server key, and the queue only ever grows
    /// at its end, by the packet at hand.
    pub fn on_packet(
        &mut self,
        keys: &mut Keys,
        incoming: &mut VecDeque<ProcessedPacket>,
        ev: ListenerEvent,
    ) -> (act: ListenerAction)
        ensures
            final(self).assigned == (old(self).assigned || ev is Assign),
            // the server key: only the first assignment sets it
            !old(self).assigned ==> (ev matches ListenerEvent::Assign { aes_key, .. } ==> key_view(
                final(keys).server_key,
            ) == Some(aes_key@)),
            !(!old(self).assigned && ev is Assign) ==> key_view(final(keys).server_key)
                == key_view(old(keys).server_key),
            // the keys of a partner's request
            old(self).assigned ==> (ev matches ListenerEvent::HandshakeRequest {
                key,
                key_cipher,
                ..
            } ==> key_view(final(keys).req_key) == Some(key@) && key_view(
                final(keys).req_cipher,
            ) == Some(key_cipher@)),
            !(old(self).assigned && ev is HandshakeRequest) ==> key_view(final(keys).req_key)
                == key_view(old(keys).req_key) && key_view(final(keys).req_cipher) == key_view(
                old(keys).req_cipher,
            ),
            // no step here changes the chat key or the private key
            key_view(final(keys).chat_key) == key_view(old(keys).chat_key),
            final(keys).req_private == old(keys).req_private,
            // the queue only grows at its end, by the packet at hand
            ev matches ListenerEvent::Assign { packet, .. } ==> final(incoming)@ == old(
                incoming,
            )@.push(ProcessedPacket::Assign(packet)),
            old(self).assigned ==> (ev matches ListenerEvent::Handshake(p) ==> final(incoming)@
                == old(incoming)@.push(ProcessedPacket::Handshake(p))),
            old(self).assigned ==> (ev matches ListenerEvent::Other(p) ==> final(incoming)@ == old(
                incoming,
            )@.push(p)),
            !(ev is Assign) && !(old(self).assigned && (ev is Other || ev is Handshake))
                ==> final(incoming)@ == old(incoming)@,
            // what to do next
            ev is Undecodable ==> act is Stop,
            !old(self).assigned && ev is Assign ==> act is Done,
            !old(self).assigned && !(ev is Assign) && !(ev is Undecodable) ==> act is Ignore,
            old(self).assigned && (ev is Assign || ev is Other || ev is Handshake) ==> act is Done,
            old(self).assigned ==> (ev matches ListenerEvent::HandshakeRequest {
                sender,
                src_id,
                ..
            } ==> (act matches ListenerAction::EmitHandshake(e) && e.status
                == HandshakeStatus::Request && e.sender@ == sender@ && e.id@ == shown_id(src_id)
                && (src_id matches Some(i) ==> e.id@ == i@) && (src_id is None ==> e.id@
                == "NO USER ID"@))),
            old(self).assigned ==> (ev matches ListenerEvent::HandshakeAccept { aes_key } ==> (old(
                keys,
            ).req_private matches Some((d, n)) ==> (act matches ListenerAction::DecryptChatKey {
                cipher,
                d: d2,
                n: n2,
            } && cipher@ == aes_key@ && d2@ == d@ && n2@ == n@)) && (old(keys).req_private is None
                ==> act is Ignore)),
            old(self).assigned ==> (ev matches ListenerEvent::Message { content } ==> (old(
                keys,
            ).chat_key matches Some(k) ==> (act matches ListenerAction::Decrypt { key, content: c }
                && key@ == k@ && c@ == content@)) && (old(keys).chat_key is None ==> act is Ignore)),
    {
        if !self.assigned {
            return match ev {
                ListenerEvent::Assign { aes_key, packet } => {
                    keys.server_key = Some(aes_key);
                    incoming.push_back(ProcessedPacket::Assign(packet));
                    self.assigned = true;
                    ListenerAction::Done
                },
                ListenerEvent::Undecodable => ListenerAction::Stop,
                _ => ListenerAction::Ignore,
            };
        }
        match ev {
            ListenerEvent::Assign { aes_key: _, packet } => {
                incoming.push_back(ProcessedPacket::Assign(packet));
                ListenerAction::Done
            },
            ListenerEvent::HandshakeRequest { sender, src_id, key, key_cipher } => {
                let id = match src_id {
                    Some(i) => i,
                    None => String::from_str("NO USER ID"),
                };
                keys.req_key = Some(key);
                keys.req_cipher = Some(key_cipher);
                ListenerAction::EmitHandshake(
                    HandshakeEvent { status: HandshakeStatus::Request, sender, id },
                )
            },
            ListenerEvent::HandshakeAccept { aes_key } => match &keys.req_private {
                Some((d, n)) => ListenerAction::DecryptChatKey {
                    cipher: aes_key,
                    d: copy_range(d, 0, d.len()),
                    n: copy_range(n, 0, n.len()),
                },
                None => ListenerAction::Ignore,
            },
            ListenerEvent::Handshake(p) => {
                incoming.push_back(ProcessedPacket::Handshake(p));
                ListenerAction::Done
            },
            ListenerEvent::Message { content } => match &keys.chat_key {
                Some(k) => ListenerAction::Decrypt { key: copy_range(k, 0, k.len()), content },
                None => ListenerAction::Ignore,
            },
            ListenerEvent::Other(p) => {
                incoming.push_back(p);
                ListenerAction::Done
            },
            ListenerEvent::Undecodable => ListenerAction::Stop,
        }
    }

    /// The chat key of an accepted request, once decrypted, becomes the
    /// chat key, and the front end is told.
    pub fn on_chat_key(keys: &mut Keys, key: Vec<u8>) -> (act: ListenerAction)
        ensures
            final(keys).chat_key == Some(key),
            final(keys).server_key == old(keys).server_key,
            final(keys).req_key == old(keys).req_key,
            final(keys).req_cipher == old(keys).req_cipher,
            final(keys).req_private == old(keys).req_private,
            act is EmitAccepted,
    {
        keys.chat_key = Some(key);
        ListenerAction::EmitAccepted
    }

    /// What a decrypted chat message means: its text, when the bytes are
    /// UTF-8; otherwise it is ignored as mangled.
    pub fn on_message_text(plaintext: Vec<u8>) -> (act: ListenerAction)
        ensures
            valid_utf8(plaintext@) ==> (act matches ListenerAction::EmitMessage(m) && m.content@
                == decode_utf8(plaintext@)),
            !valid_utf8(plaintext@) ==> act is Ignore,
    {
        match string_from_utf8(plaintext) {
            Ok(text) => ListenerAction::EmitMessage(MessagePayload { content: text }),
            Err(_) => ListenerAction::Ignore,
        }
    }
}

} // verus!
