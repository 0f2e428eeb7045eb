//! The address type of the command-line client: it shows its code in
//! lower case.
use vstd::prelude::*;

use crate::appstate::addr::{
    all_ascii, ascii_lowered, code_bytes, code_text, code_words, join_code, lowered, socket_string,
    socket_text,
};
use crate::text::{
    ascii_lowercase, free_of, lemma_ascii_lowercase, lemma_join_no_upper, lemma_split_join,
    no_ascii_upper, split_spec,
};
use crate::words::WordList;

verus! {

/// An IPv4 address and a port, as the bytes they have on the wire (the port
/// in network order).
pub struct Addr {
    pub addr: [u8; 4],
    pub port: [u8; 2],
}

impl Addr {
    /// The code of six words, each in lower case, joined by `-`: the four
    /// address bytes, then the two port bytes.
    pub fn as_sequence(&self, words: &WordList) -> (s: String)
        ensures
            s@ == code_text(lowered(words.view()), code_bytes(self.addr, self.port)),
            all_ascii(words.view()) ==> s@ == code_text(
                ascii_lowered(words.view()),
                code_bytes(self.addr, self.port),
            ),
    {
        let bytes: Vec<u8> = vec![
            self.addr[0],
            self.addr[1],
            self.addr[2],
            self.addr[3],
            self.port[0],
            self.port[1],
        ];
        assert(bytes@ =~= code_bytes(self.addr, self.port));
        join_code(words, &bytes, true)
    }

    /// `a.b.c.d:port`, as the address displays.
    pub fn to_string(&self) -> (s: String)
        ensures
            s@ == socket_text(self.addr, self.port),
    {
        socket_string(self.addr, self.port)
    }
}

/// The code of an address, spelled from a table of ASCII words, holds no
/// upper-case ASCII letter, and, when no word holds `-`, its six pieces are
/// the table's words for the six bytes, each in lower case.
pub proof fn lemma_cli_code_lowercase(words: &WordList, a: Addr)
    ensures
        no_ascii_upper(code_text(ascii_lowered(words.view()), code_bytes(a.addr, a.port))),
        (forall|i: int| 0 <= i < words.view().len() ==> free_of(#[trigger] words.view()[i], '-'))
            ==> split_spec(code_text(ascii_lowered(words.view()), code_bytes(a.addr, a.port)), '-')
            == code_bytes(a.addr, a.port).map_values(
            |b: u8| ascii_lowercase(words.view()[b as int]),
        ),
{
    let ws = words.view();
    words.lemma_view_len();
    let bytes = code_bytes(a.addr, a.port);
    let cw = code_words(ascii_lowered(ws), bytes);
    assert forall|k: int| 0 <= k < cw.len() implies no_ascii_upper(#[trigger] cw[k]) by {
        assert(cw[k] == ascii_lowercase(ws[bytes[k] as int]));
        lemma_ascii_lowercase(ws[bytes[k] as int]);
    }
    lemma_join_no_upper(cw, '-');
    if forall|i: int| 0 <= i < ws.len() ==> free_of(#[trigger] ws[i], '-') {
        assert forall|k: int| 0 <= k < cw.len() implies free_of(#[trigger] cw[k], '-') by {
            let w = ws[bytes[k] as int];
            assert(free_of(w, '-'));
            lemma_ascii_lowercase(w);
            assert(cw[k] == ascii_lowercase(w));
            assert forall|j: int| 0 <= j < cw[k].len() implies cw[k][j] != '-' by {
                assert(w[j] != '-');
            }
        }
        lemma_split_join(cw, '-');
        assert(cw =~= bytes.map_values(|b: u8| ascii_lowercase(ws[b as int])));
    }
}

} // verus!
