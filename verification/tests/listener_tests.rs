use std::collections::VecDeque;

use chat_client::appstate::context::Keys;
use chat_client::helpers::packet::{AssignPacket, MessagePacket, ProcessedPacket};
use chat_client::network::tauri::{HandshakePacket, HandshakeStatus, User};
use chat_client::threads::{Listener, ListenerAction, ListenerEvent};

fn assign_event(id: &str, key: u8) -> ListenerEvent {
    ListenerEvent::Assign { aes_key: vec![key], packet: AssignPacket { content: id.to_string() } }
}

fn message_packet(s: &str) -> ProcessedPacket {
    ProcessedPacket::Message(MessagePacket {
        sender: "a".to_string(),
        receiver: "b".to_string(),
        content: s.to_string(),
    })
}

#[test]
fn only_the_assignment_counts_before_it() {
    let mut l = Listener::new();
    let mut keys = Keys::new();
    let mut q: VecDeque<ProcessedPacket> = VecDeque::new();
    let act = l.on_packet(&mut keys, &mut q, ListenerEvent::Other(message_packet("early")));
    assert!(matches!(act, ListenerAction::Ignore));
    assert!(q.is_empty() && !l.assigned);
    let act = l.on_packet(&mut keys, &mut q, assign_event("id-1", 7));
    assert!(matches!(act, ListenerAction::Done));
    assert!(l.assigned);
    assert_eq!(keys.server_key, Some(vec![7]));
    assert_eq!(q.len(), 1);
    // a later assignment is queued but leaves the server key alone
    let act = l.on_packet(&mut keys, &mut q, assign_event("id-2", 8));
    assert!(matches!(act, ListenerAction::Done));
    assert_eq!(keys.server_key, Some(vec![7]));
    assert_eq!(q.len(), 2);
    match &q[1] {
        ProcessedPacket::Assign(a) => assert_eq!(a.content, "id-2"),
        other => panic!("unexpected {:?}", other),
    }
}

#[test]
fn key_exchange_steps() {
    let mut l = Listener { assigned: true };
    let mut keys = Keys::new();
    let mut q: VecDeque<ProcessedPacket> = VecDeque::new();
    let act = l.on_packet(
        &mut keys,
        &mut q,
        ListenerEvent::HandshakeRequest {
            sender: "bob".to_string(),
            src_id: None,
            key: vec![1],
            key_cipher: vec![2],
        },
    );
    match act {
        ListenerAction::EmitHandshake(e) => {
            assert_eq!(e.status, HandshakeStatus::Request);
            assert_eq!(e.sender, "bob");
            assert_eq!(e.id, "NO USER ID");
        }
        _ => panic!("expected an event"),
    }
    assert_eq!(keys.req_key, Some(vec![1]));
    assert_eq!(keys.req_cipher, Some(vec![2]));
    let act = l.on_packet(&mut keys, &mut q, ListenerEvent::HandshakeAccept { aes_key: vec![8] });
    assert!(matches!(act, ListenerAction::Ignore));
    assert!(keys.chat_key.is_none());
    keys.req_private = Some((vec![4], vec![5]));
    match l.on_packet(&mut keys, &mut q, ListenerEvent::HandshakeAccept { aes_key: vec![8] }) {
        ListenerAction::DecryptChatKey { cipher, d, n } => {
            assert_eq!(cipher, vec![8]);
            assert_eq!(d, vec![4]);
            assert_eq!(n, vec![5]);
        }
        _ => panic!("expected a key to decrypt"),
    }
    assert!(keys.chat_key.is_none());
    let act = Listener::on_chat_key(&mut keys, vec![3]);
    assert!(matches!(act, ListenerAction::EmitAccepted));
    assert_eq!(keys.chat_key, Some(vec![3]));
    let deny = HandshakePacket {
        status: HandshakeStatus::Deny,
        src: User { id: Some("x".to_string()), name: None },
        dst: "me".to_string(),
        aes_key: vec![],
        e: vec![],
        n: vec![],
    };
    let act = l.on_packet(&mut keys, &mut q, ListenerEvent::Handshake(deny));
    assert!(matches!(act, ListenerAction::Done));
    assert_eq!(q.len(), 1);
    match &q[0] {
        ProcessedPacket::Handshake(p) => assert_eq!(p.status, HandshakeStatus::Deny),
        other => panic!("unexpected {:?}", other),
    }
    assert!(matches!(l.on_packet(&mut keys, &mut q, ListenerEvent::Undecodable), ListenerAction::Stop));
    let mut fresh = Listener::new();
    assert!(matches!(fresh.on_packet(&mut keys, &mut q, ListenerEvent::Undecodable), ListenerAction::Stop));
}

#[test]
fn messages_and_other_packets() {
    let mut l = Listener { assigned: true };
    let mut keys = Keys::new();
    let mut q: VecDeque<ProcessedPacket> = VecDeque::new();
    let act = l.on_packet(&mut keys, &mut q, ListenerEvent::Message { content: vec![9] });
    assert!(matches!(act, ListenerAction::Ignore));
    keys.chat_key = Some(vec![5, 5]);
    match l.on_packet(&mut keys, &mut q, ListenerEvent::Message { content: vec![9] }) {
        ListenerAction::Decrypt { key, content } => {
            assert_eq!(key, vec![5, 5]);
            assert_eq!(content, vec![9]);
        }
        _ => panic!("expected a decryption"),
    }
    let act = l.on_packet(&mut keys, &mut q, ListenerEvent::Other(message_packet("m1")));
    assert!(matches!(act, ListenerAction::Done));
    let act = l.on_packet(&mut keys, &mut q, ListenerEvent::Other(message_packet("m2")));
    assert!(matches!(act, ListenerAction::Done));
    let texts: Vec<String> = q
        .iter()
        .map(|p| match p {
            ProcessedPacket::Message(m) => m.content.clone(),
            _ => String::new(),
        })
        .collect();
    assert_eq!(texts, vec!["m1", "m2"]);
    match Listener::on_message_text("héllo".as_bytes().to_vec()) {
        ListenerAction::EmitMessage(m) => assert_eq!(m.content, "héllo"),
        _ => panic!("expected the text"),
    }
    assert!(matches!(Listener::on_message_text(vec![0xff, 0xfe]), ListenerAction::Ignore));
}
