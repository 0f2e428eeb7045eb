use chat_client::appstate::addr::Addr;
use chat_client::utils::{generate_identifier, parse_stun, stun_request};
use chat_client::words::WordList;
use chat_client::MAGIC_COOKIE;

#[test]
fn binding_request_layout() {
    let id = [1u8, 2, 3, 4, 5, 6, 7, 8, 9, 10, 11, 12];
    let r = stun_request(1, 0, id);
    assert_eq!(r.len(), 20);
    assert_eq!(&r[0..4], &[0x00, 0x01, 0x00, 0x00]);
    assert_eq!(&r[4..8], &MAGIC_COOKIE.to_be_bytes());
    assert_eq!(&r[8..], &id);
    let r = stun_request(0xABCD, 0x1234, [0; 12]);
    assert_eq!(&r[0..4], &[0xAB, 0xCD, 0x12, 0x34]);
}

#[test]
fn mapped_address_is_unmasked() {
    let tid = MAGIC_COOKIE.to_be_bytes();
    let mut response = [0u8; 512];
    let addr = [203u8, 0, 113, 7];
    let port = 54321u16.to_be_bytes();
    response[26] = port[0] ^ tid[0];
    response[27] = port[1] ^ tid[1];
    for k in 0..4 {
        response[28 + k] = addr[k] ^ tid[k];
    }
    let a = parse_stun(&response, tid);
    assert_eq!(a.addr, addr);
    assert_eq!(a.port, port);
    assert_eq!(a.to_string(), "203.0.113.7:54321");
}

#[test]
fn identifier_text() {
    let words: Vec<String> = (0..256).map(|i| format!("w{}", i)).collect();
    let t = WordList::new(words).unwrap();
    assert_eq!(generate_identifier(None, &t), "No host address!");
    let a = Addr { addr: [1, 2, 3, 4], port: [5, 6] };
    assert_eq!(generate_identifier(Some(a), &t), "w1-w2-w3-w4-w5-w6");
}
