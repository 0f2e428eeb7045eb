use std::collections::VecDeque;

use chat_client::appstate::context::{Context, Keys};
use chat_client::appstate::session::Session;
use chat_client::helpers::packet::{AssignPacket, MessagePacket, NameResponsePacket, ProcessedPacket};
use chat_client::network::tauri::{
    connect_request, connect_source, connect_wait, get_identifier, name_reply, name_request_sent,
    ConnectWait, handle_request, name_response, request_answered, request_name,
    send_message, HandshakeStatus, Message, NameResponse,
};

fn context(packets: Vec<ProcessedPacket>) -> Context {
    Context {
        id: None,
        name: None,
        keys: Keys::new(),
        session: Session::new(VecDeque::from(packets)),
    }
}

fn assign(s: &str) -> ProcessedPacket {
    ProcessedPacket::Assign(AssignPacket { content: s.to_string() })
}

fn message(s: &str) -> ProcessedPacket {
    ProcessedPacket::Message(MessagePacket {
        sender: "a".to_string(),
        receiver: "b".to_string(),
        content: s.to_string(),
    })
}

#[test]
fn identifier_from_latest_assignment() {
    let mut ctx = context(vec![assign("old"), message("m"), assign("new")]);
    assert_eq!(get_identifier(&mut ctx).unwrap(), "new");
    assert_eq!(ctx.id.as_deref(), Some("new"));
    assert_eq!(ctx.session.incoming.len(), 2);
    assert_eq!(get_identifier(&mut ctx).unwrap(), "old");
    let err = get_identifier(&mut ctx).unwrap_err();
    assert!(err.starts_with("No name packet found."));
    assert_eq!(ctx.id.as_deref(), Some("old"));
    assert_eq!(ctx.session.incoming.len(), 1);
}

#[test]
fn name_request_needs_id_and_server_key() {
    let mut ctx = context(vec![]);
    let name = "alice".to_string();
    assert_eq!(request_name(&ctx, &name).err().unwrap(), "Wait for the server to assign you an ID!");
    ctx.id = Some("id-7".to_string());
    assert_eq!(request_name(&ctx, &name).err().unwrap(), "No server key!");
    ctx.keys.server_key = Some(vec![1, 2, 3]);
    let (packet, key) = request_name(&ctx, &name).ok().unwrap();
    assert_eq!(packet.sender, "id-7");
    assert_eq!(packet.content, "alice");
    assert_eq!(key, vec![1, 2, 3]);
}

#[test]
fn name_response_sets_name_on_success() {
    let mut ctx = context(vec![]);
    assert_eq!(name_response(&mut ctx, "bob".to_string(), NameResponse::Failure("taken".to_string())).unwrap_err(), "taken");
    assert!(ctx.name.is_none());
    assert!(name_response(&mut ctx, "bob".to_string(), NameResponse::Success).is_ok());
    assert_eq!(ctx.name.as_deref(), Some("bob"));
}

#[test]
fn connect_source_names_client() {
    let mut ctx = context(vec![]);
    assert_eq!(connect_source(&ctx).err().unwrap(), "Wait for the server to assign you an ID!");
    ctx.id = Some("id-1".to_string());
    ctx.name = Some("carol".to_string());
    let u = connect_source(&ctx).ok().unwrap();
    assert_eq!(u.id.as_deref(), Some("id-1"));
    assert_eq!(u.name.as_deref(), Some("carol"));
}

#[test]
fn accepting_a_request() {
    let mut ctx = context(vec![]);
    ctx.id = Some("me".to_string());
    assert_eq!(handle_request(&mut ctx, "you".to_string(), true).err().unwrap(), "Request key doesn't exist!");
    ctx.keys.req_key = Some(vec![9, 9]);
    assert_eq!(handle_request(&mut ctx, "you".to_string(), true).err().unwrap(), "Request cipher doesn't exist!");
    assert_eq!(ctx.keys.chat_key, Some(vec![9, 9]));
    ctx.keys.req_cipher = Some(vec![7]);
    assert_eq!(handle_request(&mut ctx, "you".to_string(), true).err().unwrap(), "No server key!");
    ctx.keys.server_key = Some(vec![5]);
    let (packet, key) = handle_request(&mut ctx, "you".to_string(), true).ok().unwrap();
    assert_eq!(packet.status, HandshakeStatus::Accept);
    assert_eq!(packet.aes_key, vec![7]);
    assert_eq!(packet.src.id.as_deref(), Some("me"));
    assert_eq!(packet.src.name.as_deref(), Some("me"));
    assert_eq!(packet.dst, "you");
    assert!(packet.e.is_empty() && packet.n.is_empty());
    assert_eq!(key, vec![5]);
    assert!(request_answered(true).is_ok());
}

#[test]
fn denying_a_request() {
    let mut ctx = context(vec![]);
    ctx.keys.server_key = Some(vec![5]);
    let (packet, _) = handle_request(&mut ctx, "you".to_string(), false).ok().unwrap();
    assert_eq!(packet.status, HandshakeStatus::Deny);
    assert!(packet.aes_key.is_empty());
    assert!(ctx.keys.chat_key.is_none());
    assert_eq!(request_answered(false).unwrap_err(), "Rejected");
}

#[test]
fn outgoing_message_needs_chat_key() {
    let mut keys = Keys::new();
    let msg = || Message { id: 1, sender: "a".to_string(), dst: "b".to_string(), content: "héllo".to_string() };
    assert_eq!(send_message(&keys, msg()).err().unwrap(), "No server key!");
    keys.chat_key = Some(vec![4, 2]);
    let out = send_message(&keys, msg()).ok().unwrap();
    assert_eq!(out.chat_key, vec![4, 2]);
    assert_eq!(out.receiver, "b");
    assert_eq!(out.plaintext, "héllo".as_bytes().to_vec());
    assert_eq!(keys.server_key_for_sending().unwrap_err(), "No server key!");
    keys.server_key = Some(vec![3]);
    assert_eq!(keys.server_key_for_sending().unwrap(), vec![3]);
}

#[test]
fn connection_request_packet() {
    let mut ctx = context(vec![]);
    let req = || (vec![1u8, 0, 1], vec![0xAB, 0xCD], vec![0x77]);
    let (e, n, d) = req();
    assert_eq!(connect_request(&mut ctx, "peer".to_string(), e, n, d).err().unwrap(), "Wait for the server to assign you an ID!");
    assert!(ctx.keys.req_private.is_none());
    ctx.id = Some("id-3".to_string());
    let (e, n, d) = req();
    assert_eq!(connect_request(&mut ctx, "peer".to_string(), e, n, d).err().unwrap(), "No server key!");
    assert_eq!(ctx.keys.req_private, Some((vec![0x77], vec![0xAB, 0xCD])));
    ctx.keys.server_key = Some(vec![6]);
    let (e, n, d) = req();
    let (p, key) = connect_request(&mut ctx, "peer".to_string(), e, n, d).ok().unwrap();
    assert_eq!(p.status, HandshakeStatus::Request);
    assert_eq!(p.src.id.as_deref(), Some("id-3"));
    assert!(p.src.name.is_none());
    assert_eq!(p.dst, "peer");
    assert_eq!(p.e, vec![1, 0, 1]);
    assert_eq!(p.n, vec![0xAB, 0xCD]);
    assert!(p.aes_key.is_empty());
    assert_eq!(key, vec![6]);
}

#[test]
fn waiting_for_acceptance() {
    let dst = "peer".to_string();
    assert!(matches!(connect_wait(false, 0, &dst), ConnectWait::Waiting));
    match connect_wait(true, 14_999_999_999, &dst) {
        ConnectWait::Finished(Ok(d)) => assert_eq!(d, "peer"),
        _ => panic!("expected the partner"),
    }
    match connect_wait(true, 15_000_000_000, &dst) {
        ConnectWait::Finished(Err(m)) => {
            assert_eq!(m, "Timed out after 15s");
            assert_eq!(m, format!("Timed out after {:?}", std::time::Duration::from_secs_f32(15.0)));
        }
        _ => panic!("expected the timeout"),
    }
}

#[test]
fn name_reply_outcomes() {
    let mut ctx = context(vec![]);
    assert_eq!(name_reply(&mut ctx, "eve".to_string(), Err("Timed out after: 10".to_string())).unwrap_err(), "Timed out after: 10");
    assert_eq!(name_reply(&mut ctx, "eve".to_string(), Ok(message("m"))).unwrap_err(), "Packet doesn't match!");
    let failure = ProcessedPacket::NameResponse(NameResponsePacket { status: NameResponse::Failure("taken".to_string()) });
    assert_eq!(name_reply(&mut ctx, "eve".to_string(), Ok(failure)).unwrap_err(), "taken");
    assert!(ctx.name.is_none());
    let success = ProcessedPacket::NameResponse(NameResponsePacket { status: NameResponse::Success });
    assert!(name_reply(&mut ctx, "eve".to_string(), Ok(success)).is_ok());
    assert_eq!(ctx.name.as_deref(), Some("eve"));
}

#[test]
fn failed_name_request_write() {
    assert!(name_request_sent(Ok(())).is_ok());
    assert_eq!(
        name_request_sent(Err("broken pipe".to_string())).unwrap_err(),
        "Couldn't write to stream: broken pipe"
    );
}

#[test]
fn answering_keeps_name() {
    let mut ctx = context(vec![]);
    ctx.name = Some("dora".to_string());
    ctx.keys.server_key = Some(vec![1]);
    let _ = handle_request(&mut ctx, "you".to_string(), false);
    assert_eq!(ctx.name.as_deref(), Some("dora"));
}
