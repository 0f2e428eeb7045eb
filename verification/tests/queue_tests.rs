use std::collections::VecDeque;

use chat_client::appstate::session::{Session, WaitStep};
use chat_client::helpers::network::{get_identifier, try_connect};
use chat_client::helpers::packet::{AssignPacket, MessagePacket, PacketKind, PacketType, ProcessedPacket};

fn assign(s: &str) -> ProcessedPacket {
    ProcessedPacket::Assign(AssignPacket { content: s.to_string() })
}

fn message(s: &str) -> ProcessedPacket {
    ProcessedPacket::Message(MessagePacket {
        sender: "a".to_string(),
        receiver: "b".to_string(),
        content: s.to_string(),
    })
}

fn contents(q: &VecDeque<ProcessedPacket>) -> Vec<String> {
    q.iter()
        .map(|p| match p {
            ProcessedPacket::Assign(a) => format!("A:{}", a.content),
            ProcessedPacket::Message(m) => format!("M:{}", m.content),
            other => format!("{:?}", other),
        })
        .collect()
}

#[test]
fn remove_first_takes_latest_match() {
    let q: VecDeque<ProcessedPacket> = vec![assign("1"), message("x"), assign("2"), message("y")].into();
    let mut s = Session::new(q);
    match s.remove_first(PacketType::NameAssign) {
        Some(ProcessedPacket::Assign(a)) => assert_eq!(a.content, "2"),
        other => panic!("unexpected {:?}", other),
    }
    assert_eq!(contents(&s.incoming), vec!["A:1", "M:x", "M:y"]);
    assert!(matches!(s.remove_first(PacketType::NameAssign), Some(ProcessedPacket::Assign(_))));
    assert!(s.remove_first(PacketType::NameAssign).is_none());
    assert_eq!(contents(&s.incoming), vec!["M:x", "M:y"]);
}

#[test]
fn get_identifier_takes_all_assignments() {
    let mut q: VecDeque<ProcessedPacket> =
        vec![assign("first"), message("x"), assign("second"), message("y")].into();
    assert_eq!(get_identifier(&mut q).unwrap(), "second");
    assert_eq!(contents(&q), vec!["M:x", "M:y"]);
    let err = get_identifier(&mut q).unwrap_err();
    assert!(err.starts_with("No name packet found."));
    assert_eq!(contents(&q), vec!["M:x", "M:y"]);
}

#[test]
fn try_connect_is_refused() {
    assert_eq!(try_connect("a-b-c-d-e-f".to_string()).unwrap_err(), "Unimplemented");
}

#[test]
fn waiting_step_by_step() {
    let q: VecDeque<ProcessedPacket> = vec![message("x"), assign("a")].into();
    let mut s = Session::new(q);
    match s.wait_and_remove_first(PacketKind::Assign, 5, 10) {
        WaitStep::Found(ProcessedPacket::Assign(a)) => assert_eq!(a.content, "a"),
        other => panic!("unexpected {:?}", other),
    }
    assert!(matches!(s.wait_and_remove_first(PacketKind::Assign, 6, 10), WaitStep::Pending));
    match s.wait_and_remove_first(PacketKind::Message, 12_300_000_000, 10_000_000_000) {
        WaitStep::TimedOut(m) => assert_eq!(m, "Timed out after: 12"),
        other => panic!("unexpected {:?}", other),
    }
    assert_eq!(contents(&s.incoming), vec!["M:x"]);
}
