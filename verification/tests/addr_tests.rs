use chat_client::addr::Addr as CliAddr;
use chat_client::appstate::addr::Addr;
use chat_client::text::{decimal_string, split_char};
use chat_client::words::WordList;

fn table(prefix: &str) -> WordList {
    let words: Vec<String> = (0..256).map(|i| format!("{}{}", prefix, i)).collect();
    WordList::new(words).expect("256 words")
}

#[test]
fn word_list_needs_256_words() {
    let short: Vec<String> = (0..255).map(|i| format!("w{}", i)).collect();
    assert!(WordList::new(short).is_none());
    let long: Vec<String> = (0..257).map(|i| format!("w{}", i)).collect();
    assert!(WordList::new(long).is_none());
    let t = table("w");
    assert_eq!(t.word(0).as_str(), "w0");
    assert_eq!(t.word(255).as_str(), "w255");
}

#[test]
fn as_sequence_spells_address_then_port() {
    let t = table("w");
    let a = Addr { addr: [192, 168, 0, 1], port: [0x1f, 0x90] };
    assert_eq!(a.as_sequence(&t), "w192-w168-w0-w1-w31-w144");
}

#[test]
fn from_sequence_reads_port_from_first_words() {
    let t = table("w");
    let a = Addr::from_sequence(&"w10-w20-w30-w40-w50-w60".to_string(), &t).unwrap();
    assert_eq!(a.addr, [10, 20, 30, 40]);
    assert_eq!(a.port, [10, 20]);
}

#[test]
fn code_roundtrip_when_port_repeats_address() {
    let t = table("w");
    let a = Addr { addr: [7, 8, 9, 10], port: [7, 8] };
    let back = Addr::from_sequence(&a.as_sequence(&t), &t).unwrap();
    assert_eq!(back.addr, a.addr);
    assert_eq!(back.port, a.port);
    let b = Addr { addr: [1, 2, 3, 4], port: [0x1f, 0x90] };
    let back = Addr::from_sequence(&b.as_sequence(&t), &t).unwrap();
    assert_eq!(back.addr, [1, 2, 3, 4]);
    assert_eq!(back.port, [1, 2]);
}

#[test]
fn from_sequence_wrong_word_count() {
    let t = table("w");
    for code in ["", "w1", "w1-w2-w3-w4-w5", "w1-w2-w3-w4-w5-w6-w7", "w1-w2-w3-w4-w5-w6-"] {
        let err = Addr::from_sequence(&code.to_string(), &t).unwrap_err();
        assert_eq!(err, "Incorrect number of words in code. Must be 6.");
    }
}

#[test]
fn from_sequence_unknown_word() {
    let t = table("w");
    let err = Addr::from_sequence(&"w1-w2-cat-dog-w5-w6".to_string(), &t).unwrap_err();
    assert_eq!(err, "Word \"cat\" not found in database. Check spelling.");
    let err = Addr::from_sequence(&"w1-w2-w3-w4-bad-worse".to_string(), &t);
    let a = err.unwrap();
    assert_eq!(a.addr, [1, 2, 3, 4]);
    assert_eq!(a.port, [1, 2]);
}

#[test]
fn from_sequence_takes_first_of_repeated_words() {
    let mut words: Vec<String> = (0..256).map(|i| format!("w{}", i)).collect();
    words[200] = "w5".to_string();
    let t = WordList::new(words).unwrap();
    let a = Addr::from_sequence(&"w5-w5-w5-w5-w5-w5".to_string(), &t).unwrap();
    assert_eq!(a.addr, [5, 5, 5, 5]);
}

#[test]
fn port_and_display() {
    let a = Addr { addr: [192, 168, 0, 1], port: [0x1f, 0x90] };
    assert_eq!(a.port_str(), "8080");
    assert_eq!(a.to_string(), "192.168.0.1:8080");
    let z = Addr { addr: [0, 0, 0, 0], port: [0, 0] };
    assert_eq!(z.port_str(), "0");
    assert_eq!(z.to_string(), "0.0.0.0:0");
    let m = Addr { addr: [255, 255, 255, 255], port: [255, 255] };
    assert_eq!(m.to_string(), "255.255.255.255:65535");
}

#[test]
fn cli_address_code_is_lower_case() {
    let t = table("Word");
    let a = CliAddr { addr: [1, 2, 3, 4], port: [5, 6] };
    assert_eq!(a.as_sequence(&t), "word1-word2-word3-word4-word5-word6");
    assert_eq!(a.to_string(), "1.2.3.4:1286");
}

#[test]
fn split_and_decimal() {
    assert_eq!(split_char("a-b-", '-'), vec!["a", "b", ""]);
    assert_eq!(split_char("", '-'), vec![""]);
    assert_eq!(split_char("--", '-'), vec!["", "", ""]);
    assert_eq!(split_char("été-x", '-'), vec!["été", "x"]);
    assert_eq!(decimal_string(0), "0");
    assert_eq!(decimal_string(4294967295), "4294967295");
}

#[test]
fn decoded_code_spells_back() {
    let t = table("w");
    let code = "w10-w20-w30-w40-w10-w20".to_string();
    let a = Addr::from_sequence(&code, &t).unwrap();
    assert_eq!(a.as_sequence(&t), code);
    let other = "w10-w20-w30-w40-w50-w60".to_string();
    let b = Addr::from_sequence(&other, &t).unwrap();
    assert_eq!(b.as_sequence(&t), code);
}
