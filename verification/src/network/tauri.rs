//! The commands that the front end invokes, up to the point where the
//! packet they build is encrypted and written to the server, and from the
//! point where the server's answer is back.
use vstd::prelude::*;
use vstd::string::*;
use vstd::utf8::*;

use crate::appstate::context::{key_view, no_server_key_message, Context, Keys};
use crate::appstate::session::last_index_of_type;
use crate::helpers::network::no_name_message;
use crate::helpers::packet::{PacketType, ProcessedPacket};
use crate::text::copy_range;

verus! {

/// A chat message that the user wrote.
pub struct Message {
    pub id: u32,
    pub sender: String,
    pub dst: String,
    pub content: String,
}

/// The stage of a key exchange between two clients.
#[derive(Debug, Clone, Copy, PartialEq, Eq, Structural)]
pub enum HandshakeStatus {
    Request,
    Accept,
    Deny,
}

/// A client as a packet names it.
#[derive(Debug)]
pub struct User {
    pub id: Option<String>,
    pub name: Option<String>,
}

/// A step of a key exchange, as sent to the server for the partner `dst`.
#[derive(Debug)]
pub struct HandshakePacket {
    pub status: HandshakeStatus,
    pub src: User,
    pub dst: String,
    pub aes_key: Vec<u8>,
    pub e: Vec<u8>,
    pub n: Vec<u8>,
}

/// The server's answer to a name request.
#[derive(Debug)]
pub enum NameResponse {
    Success,
    Failure(String),
}

/// A request to be known by a name.
pub struct NameRequestPacket {
    pub sender: String,
    pub content: String,
}

/// A message's text before encryption, with the key to encrypt it with.
pub struct OutgoingMessage {
    pub chat_key: Vec<u8>,
    pub receiver: String,
    pub plaintext: Vec<u8>,
}

/// The error for a command that needs the identifier before it is known.
pub open spec fn no_id_message() -> Seq<char> {
    "Wait for the server to assign you an ID!"@
}

/// The view of an optional text.
pub open spec fn text_view(t: Option<String>) -> Option<Seq<char>> {
    match t {
        Some(s) => Some(s@),
        None => None,
    }
}

fn copy_text(t: &Option<String>) -> (r: Option<String>)
    ensures
        text_view(r) == text_view(*t),
{
    match t {
        Some(s) => Some(s.clone()),
        None => None,
    }
}

/// Takes the most recent name assignment out of the received packets and
/// records its identifier as the client's.
pub fn get_identifier(ctx: &mut Context) -> (res: Result<String, String>)
    ensures
        last_index_of_type(old(ctx).session.incoming@, PacketType::NameAssign) matches Some(k)
            ==> {
            let p = old(ctx).session.incoming@[k];
            &&& p is Assign
            &&& res matches Ok(id) && id@ == p->Assign_0.content@
            &&& text_view(final(ctx).id) == Some(p->Assign_0.content@)
            &&& final(ctx).session.incoming@ == old(ctx).session.incoming@.remove(k)
        },
        last_index_of_type(old(ctx).session.incoming@, PacketType::NameAssign) is None ==> {
            &&& res matches Err(e) && e@ == no_name_message()
            &&& text_view(final(ctx).id) == text_view(old(ctx).id)
            &&& final(ctx).session.incoming@ == old(ctx).session.incoming@
        },
        text_view(final(ctx).name) == text_view(old(ctx).name),
        final(ctx).keys == old(ctx).keys,
{
    let ghost before = ctx.session.incoming@;
    proof {
        crate::appstate::session::lemma_last_index_of_type(before, PacketType::NameAssign);
    }
    let packet = match ctx.session.remove_first(PacketType::NameAssign) {
        Some(packet) => packet,
        None => return Err(
            String::from_str(
                "No name packet found. This is likely becuase there are no packets (server is down)\n or because the client is asking for a name multiple times.",
            ),
        ),
    };
    let packet = match packet {
        ProcessedPacket::Assign(inner) => inner,
        _ => return Err(String::from_str("Packet doesn't match!")),
    };
    ctx.id = Some(packet.content.clone());
    Ok(packet.content)
}

/// The request to be known as `name`, and the key to encrypt it with;
/// it needs the identifier and the server key.
pub fn request_name(ctx: &Context, name: &String) -> (res: Result<
    (NameRequestPacket, Vec<u8>),
    String,
>)
    ensures
        ctx.id is None ==> (res matches Err(e) && e@ == no_id_message()),
        ctx.id matches Some(id) ==> (ctx.keys.server_key is None ==> (res matches Err(e) && e@
            == no_server_key_message())),
        ctx.id matches Some(id) ==> (ctx.keys.server_key matches Some(k) ==> (res matches Ok(r)
            && r.0.sender@ == id@ && r.0.content@ == name@ && r.1@ == k@)),
{
    let id = match &ctx.id {
        Some(val) => val.clone(),
        None => return Err(String::from_str("Wait for the server to assign you an ID!")),
    };
    let request_packet = NameRequestPacket { sender: id, content: name.clone() };
    let key = match ctx.keys.server_key_for_sending() {
        Ok(key) => key,
        Err(e) => return Err(e),
    };
    Ok((request_packet, key))
}

/// What the server's answer to a name request means: on success the client
/// is known as `name`; on failure the server's reason is the error.
pub fn name_response(ctx: &mut Context, name: String, status: NameResponse) -> (res: Result<
    (),
    String,
>)
    ensures
        status is Success ==> (res is Ok && text_view(final(ctx).name) == Some(name@)),
        status matches NameResponse::Failure(reason) ==> (res matches Err(e) && e@ == reason@
            && text_view(final(ctx).name) == text_view(old(ctx).name)),
        text_view(final(ctx).id) == text_view(old(ctx).id),
        final(ctx).session.incoming@ == old(ctx).session.incoming@,
        final(ctx).keys == old(ctx).keys,
{
    match status {
        NameResponse::Success => {
            ctx.name = Some(name);
            Ok(())
        },
        NameResponse::Failure(e) => Err(e),
    }
}

/// The client as it names itself when it asks a partner for a chat key;
/// it needs the identifier.
pub fn connect_source(ctx: &Context) -> (res: Result<User, String>)
    ensures
        ctx.id is None ==> (res matches Err(e) && e@ == no_id_message()),
        ctx.id matches Some(id) ==> (res matches Ok(u) && text_view(u.id) == Some(id@)
            && text_view(u.name) == text_view(ctx.name)),
{
    let id = match &ctx.id {
        Some(id) => id.clone(),
        None => return Err(String::from_str("Wait for the server to assign you an ID!")),
    };
    Ok(User { id: Some(id), name: copy_text(&ctx.name) })
}

/// The request for a chat key that the client sends to `dst`, and the
/// server key to encrypt it with. `e` and `n` are the public exponent and
/// the modulus of the RSA key made for the exchange, `d` its private
/// exponent. Once the identifier is known the private key is stored, even
/// when the server key is then found missing.
pub fn connect_request(ctx: &mut Context, dst: String, e: Vec<u8>, n: Vec<u8>, d: Vec<u8>) -> (res:
    Result<(HandshakePacket, Vec<u8>), String>)
    ensures
        old(ctx).id is None ==> (res matches Err(m) && m@ == no_id_message() && *final(ctx) == *old(
            ctx,
        )),
        old(ctx).id is Some ==> {
            &&& final(ctx).keys.req_private == Some((d, n))
            &&& final(ctx).keys.server_key == old(ctx).keys.server_key
            &&& final(ctx).keys.chat_key == old(ctx).keys.chat_key
            &&& final(ctx).keys.req_key == old(ctx).keys.req_key
            &&& final(ctx).keys.req_cipher == old(ctx).keys.req_cipher
            &&& final(ctx).id == old(ctx).id
            &&& final(ctx).name == old(ctx).name
            &&& final(ctx).session == old(ctx).session
        },
        old(ctx).id is Some && old(ctx).keys.server_key is None ==> (res matches Err(m) && m@
            == no_server_key_message()),
        old(ctx).id matches Some(id) ==> (old(ctx).keys.server_key matches Some(k) ==> (
        res matches Ok(r) && {
            let p = r.0;
            &&& p.status == HandshakeStatus::Request
            &&& text_view(p.src.id) == Some(id@)
            &&& text_view(p.src.name) == text_view(old(ctx).name)
            &&& p.dst@ == dst@
            &&& p.e@ == e@
            &&& p.n@ == n@
            &&& p.aes_key@.len() == 0
            &&& r.1@ == k@
        })),
{
    let src = match connect_source(ctx) {
        Ok(src) => src,
        Err(m) => return Err(m),
    };
    let handshake = HandshakePacket {
        status: HandshakeStatus::Request,
        src,
        dst,
        e,
        n: copy_range(&n, 0, n.len()),
        aes_key: Vec::new(),
    };
    ctx.keys.req_private = Some((d, n));
    let aes_key = match ctx.keys.server_key_for_sending() {
        Ok(key) => key,
        Err(m) => return Err(m),
    };
    Ok((handshake, aes_key))
}

/// How long a client waits for its partner to accept: 15 s.
pub const CONNECT_TIMEOUT_NANOS: u64 = 15_000_000_000;

/// One look while waiting for the partner's acceptance.
pub enum ConnectWait {
    /// Not yet: look again.
    Waiting,
    /// The command's result.
    Finished(Result<String, String>),
}

/// One step of the wait for the partner's acceptance, `elapsed_nanos`
/// after the request was sent, where `accepted` tells whether the
/// acceptance has been heard: after 15 s the command fails with
/// `Timed out after 15s`; before that an acceptance ends it with the
/// partner's identifier.
pub fn connect_wait(accepted: bool, elapsed_nanos: u64, dst: &String) -> (w: ConnectWait)
    ensures
        elapsed_nanos >= CONNECT_TIMEOUT_NANOS ==> (w matches ConnectWait::Finished(Err(m)) && m@
            == "Timed out after 15s"@),
        elapsed_nanos < CONNECT_TIMEOUT_NANOS && accepted ==> (w matches ConnectWait::Finished(
            Ok(r),
        ) && r@ == dst@),
        elapsed_nanos < CONNECT_TIMEOUT_NANOS && !accepted ==> w is Waiting,
{
    if elapsed_nanos >= CONNECT_TIMEOUT_NANOS {
        ConnectWait::Finished(Err(String::from_str("Timed out after 15s")))
    } else if accepted {
        ConnectWait::Finished(Ok(dst.clone()))
    } else {
        ConnectWait::Waiting
    }
}

/// How long a client waits for the answer to a name request: 10 s.
pub const NAME_TIMEOUT_NANOS: u64 = 10_000_000_000;

/// What the wait for the answer to a name request ends in: the wait's
/// error, the answer's meaning (as `name_response` gives it), or, for a
/// packet of another kind, `Packet doesn't match!`.
pub fn name_reply(ctx: &mut Context, name: String, taken: Result<ProcessedPacket, String>) -> (res:
    Result<(), String>)
    ensures
        taken matches Err(e) ==> (res matches Err(m) && m@ == e@),
        taken matches Ok(ProcessedPacket::NameResponse(p)) ==> (p.status is Success ==> (res is Ok
            && text_view(final(ctx).name) == Some(name@))),
        taken matches Ok(ProcessedPacket::NameResponse(p)) ==> (p.status matches NameResponse::Failure(
            reason,
        ) ==> (res matches Err(m) && m@ == reason@)),
        taken matches Ok(p) ==> (!(p is NameResponse) ==> (res matches Err(m) && m@
            == "Packet doesn't match!"@)),
        !(taken matches Ok(ProcessedPacket::NameResponse(p)) && p.status is Success) ==> text_view(
            final(ctx).name,
        ) == text_view(old(ctx).name),
        text_view(final(ctx).id) == text_view(old(ctx).id),
        final(ctx).session.incoming@ == old(ctx).session.incoming@,
        final(ctx).keys == old(ctx).keys,
{
    let packet = match taken {
        Ok(packet) => packet,
        Err(e) => return Err(e),
    };
    match packet {
        ProcessedPacket::NameResponse(p) => name_response(ctx, name, p.status),
        _ => Err(String::from_str("Packet doesn't match!")),
    }
}

/// What a name request ends in when writing it to the server failed: the
/// write's error, after `Couldn't write to stream: `.
pub fn name_request_sent(write: Result<(), String>) -> (res: Result<(), String>)
    ensures
        write is Ok ==> res is Ok,
        write matches Err(e) ==> (res matches Err(m) && m@ == "Couldn't write to stream: "@ + e@),
{
    match write {
        Ok(_) => Ok(()),
        Err(e) => {
            let mut m = String::from_str("Couldn't write to stream: ");
            m.append(e.as_str());
            Err(m)
        },
    }
}

/// The answer to a partner's request for a chat key, and the server key to
/// encrypt it with. Accepting makes the key that was prepared for the
/// request the chat key and sends its encrypted copy; denying sends
/// nothing. The client names itself by its identifier twice.
pub fn handle_request(ctx: &mut Context, dst: String, accept: bool) -> (res: Result<
    (HandshakePacket, Vec<u8>),
    String,
>)
    ensures
        accept && old(ctx).keys.req_key is None ==> (res matches Err(e) && e@
            == "Request key doesn't exist!"@ && key_view(final(ctx).keys.chat_key) == key_view(
            old(ctx).keys.chat_key,
        )),
        accept && old(ctx).keys.req_key is Some ==> key_view(final(ctx).keys.chat_key)
            == key_view(old(ctx).keys.req_key),
        accept && old(ctx).keys.req_key is Some && old(ctx).keys.req_cipher is None ==> (
        res matches Err(e) && e@ == "Request cipher doesn't exist!"@),
        !accept ==> key_view(final(ctx).keys.chat_key) == key_view(old(ctx).keys.chat_key),
        (!accept || (old(ctx).keys.req_key is Some && old(ctx).keys.req_cipher is Some))
            ==> (old(ctx).keys.server_key is None ==> (res matches Err(e) && e@
            == no_server_key_message())),
        (!accept || (old(ctx).keys.req_key is Some && old(ctx).keys.req_cipher is Some))
            ==> (old(ctx).keys.server_key matches Some(sk) ==> (res matches Ok(r) && {
            let p = r.0;
            &&& p.status == (if accept {
                HandshakeStatus::Accept
            } else {
                HandshakeStatus::Deny
            })
            &&& p.aes_key@ == (if accept {
                old(ctx).keys.req_cipher->0@
            } else {
                Seq::<u8>::empty()
            })
            &&& text_view(p.src.id) == text_view(old(ctx).id)
            &&& text_view(p.src.name) == text_view(old(ctx).id)
            &&& p.dst@ == dst@
            &&& p.e@.len() == 0 && p.n@.len() == 0
            &&& r.1@ == sk@
        })),
        key_view(final(ctx).keys.server_key) == key_view(old(ctx).keys.server_key),
        key_view(final(ctx).keys.req_key) == key_view(old(ctx).keys.req_key),
        key_view(final(ctx).keys.req_cipher) == key_view(old(ctx).keys.req_cipher),
        final(ctx).keys.req_private == old(ctx).keys.req_private,
        text_view(final(ctx).id) == text_view(old(ctx).id),
        text_view(final(ctx).name) == text_view(old(ctx).name),
        final(ctx).session.incoming@ == old(ctx).session.incoming@,
{
    let (status, key_cipher) = if accept {
        ctx.keys.chat_key = match &ctx.keys.req_key {
            Some(key) => Some(copy_range(key, 0, key.len())),
            None => return Err(String::from_str("Request key doesn't exist!")),
        };
        let key_cipher = match &ctx.keys.req_cipher {
            Some(ciphertext) => copy_range(ciphertext, 0, ciphertext.len()),
            None => return Err(String::from_str("Request cipher doesn't exist!")),
        };
        (HandshakeStatus::Accept, key_cipher)
    } else {
        (HandshakeStatus::Deny, Vec::new())
    };
    let me = User { id: copy_text(&ctx.id), name: copy_text(&ctx.id) };
    let handshake_packet = HandshakePacket {
        status,
        src: me,
        dst,
        aes_key: key_cipher,
        e: Vec::new(),
        n: Vec::new(),
    };
    let aes_key = match ctx.keys.server_key_for_sending() {
        Ok(key) => key,
        Err(e) => return Err(e),
    };
    Ok((handshake_packet, aes_key))
}

/// What the front end hears once the answer is sent: denying a request
/// ends in the error `Rejected`.
pub fn request_answered(accept: bool) -> (res: Result<(), String>)
    ensures
        accept ==> res is Ok,
        !accept ==> (res matches Err(e) && e@ == "Rejected"@),
{
    if accept {
        Ok(())
    } else {
        Err(String::from_str("Rejected"))
    }
}

/// A message's text as bytes, addressed to its receiver, with the chat key
/// to encrypt it with. The server key that the encrypted message is then
/// sent with is asked for afterwards.
pub fn send_message(keys: &Keys, message: Message) -> (res: Result<OutgoingMessage, String>)
    ensures
        keys.chat_key is None ==> (res matches Err(e) && e@ == no_server_key_message()),
        keys.chat_key matches Some(k) ==> (res matches Ok(m) && m.chat_key@ == k@
            && m.receiver@ == message.dst@ && m.plaintext@ == encode_utf8(message.content@)),
{
    let chat_key = match keys.chat_key_for_sending() {
        Ok(key) => key,
        Err(e) => return Err(e),
    };
    let plaintext = crate::text::utf8_bytes(message.content.as_str());
    let dst = message.dst;
    Ok(OutgoingMessage { chat_key, receiver: dst, plaintext })
}

} // verus!
