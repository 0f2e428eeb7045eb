//! A peer's public IPv4 address and port, and the six-word code that
//! users exchange in its place.
use vstd::prelude::*;
use vstd::string::*;
use vstd::utf8::*;

use crate::text::{
    ascii_lowercase, decimal, free_of, join_spec, lemma_join_split, lemma_split_join, lowercase,
    push_char, push_decimal, split_char, split_spec, to_lowercase, views,
};
use crate::words::{
    in_table, lemma_position_found, lemma_position_from, lemma_position_in_table, position, WordList,
    WORD_COUNT,
};

verus! {

/// An IPv4 address and a port, both as the bytes they have on the wire
/// (the port in network order).
#[derive(Debug, Clone, Copy)]
pub struct Addr {
    pub addr: [u8; 4],
    pub port: [u8; 2],
}

/// The number of words in a code.
pub const CODE_WORDS: usize = 6;

/// The error for a code that does not have six words.
pub open spec fn word_count_message() -> Seq<char> {
    "Incorrect number of words in code. Must be 6."@
}

/// The error for a word of a code that the table does not hold.
pub open spec fn missing_word_message(w: Seq<char>) -> Seq<char> {
    "Word \""@ + w + "\" not found in database. Check spelling."@
}

/// The port as the number it encodes, most significant byte first.
pub open spec fn port_number(port: [u8; 2]) -> nat {
    port[0] as nat * 256 + port[1] as nat
}

/// `a.b.c.d:port`, each part in decimal.
pub open spec fn socket_text(addr: [u8; 4], port: [u8; 2]) -> Seq<char> {
    decimal(addr[0] as nat) + seq!['.'] + decimal(addr[1] as nat) + seq!['.'] + decimal(
        addr[2] as nat,
    ) + seq!['.'] + decimal(addr[3] as nat) + seq![':'] + decimal(port_number(port))
}

/// The six bytes that a code spells: the address, then the port.
pub open spec fn code_bytes(addr: [u8; 4], port: [u8; 2]) -> Seq<u8> {
    seq![addr[0], addr[1], addr[2], addr[3], port[0], port[1]]
}

/// The words of the table that spell `bytes`.
pub open spec fn code_words(ws: Seq<Seq<char>>, bytes: Seq<u8>) -> Seq<Seq<char>> {
    bytes.map_values(|b: u8| ws[b as int])
}

/// The code for the six bytes: their words joined by `-`.
pub open spec fn code_text(ws: Seq<Seq<char>>, bytes: Seq<u8>) -> Seq<char> {
    join_spec(code_words(ws, bytes), '-')
}

/// What reading a code gives: the error, or the six bytes that the
/// address is built from. The port is read from the first two words, as
/// the address's first two bytes are, so a missing fifth or sixth word is
/// never reported.
pub open spec fn decode_code(ws: Seq<Seq<char>>, s: Seq<char>) -> Result<Seq<u8>, Seq<char>> {
    let parts = split_spec(s, '-');
    if parts.len() != CODE_WORDS {
        Err(word_count_message())
    } else if position(ws, parts[0]) is None {
        Err(missing_word_message(parts[0]))
    } else if position(ws, parts[1]) is None {
        Err(missing_word_message(parts[1]))
    } else if position(ws, parts[2]) is None {
        Err(missing_word_message(parts[2]))
    } else if position(ws, parts[3]) is None {
        Err(missing_word_message(parts[3]))
    } else {
        let b0 = position(ws, parts[0]).unwrap() as u8;
        let b1 = position(ws, parts[1]).unwrap() as u8;
        let b2 = position(ws, parts[2]).unwrap() as u8;
        let b3 = position(ws, parts[3]).unwrap() as u8;
        Ok(seq![b0, b1, b2, b3, b0, b1])
    }
}

/// Renders `a.b.c.d:port`.
pub fn socket_string(addr: [u8; 4], port: [u8; 2]) -> (s: String)
    ensures
        s@ == socket_text(addr, port),
{
    let mut s = String::new();
    push_decimal(&mut s, addr[0] as u64);
    push_char(&mut s, '.');
    push_decimal(&mut s, addr[1] as u64);
    push_char(&mut s, '.');
    push_decimal(&mut s, addr[2] as u64);
    push_char(&mut s, '.');
    push_decimal(&mut s, addr[3] as u64);
    push_char(&mut s, ':');
    let p: u64 = port[0] as u64 * 256 + port[1] as u64;
    push_decimal(&mut s, p);
    assert(s@ =~= socket_text(addr, port));
    s
}

/// The table with every word in lower case.
pub open spec fn lowered(ws: Seq<Seq<char>>) -> Seq<Seq<char>> {
    ws.map_values(|w: Seq<char>| lowercase(w))
}

/// The table with every word in ASCII lower case.
pub open spec fn ascii_lowered(ws: Seq<Seq<char>>) -> Seq<Seq<char>> {
    ws.map_values(|w: Seq<char>| ascii_lowercase(w))
}

/// Every word of the table is ASCII.
pub open spec fn all_ascii(ws: Seq<Seq<char>>) -> bool {
    forall|i: int| 0 <= i < ws.len() ==> is_ascii_chars(#[trigger] ws[i])
}

/// The table that a code is spelled from: `ws`, or `ws` in lower case.
pub open spec fn spelled_with(ws: Seq<Seq<char>>, lower: bool) -> Seq<Seq<char>> {
    if lower {
        lowered(ws)
    } else {
        ws
    }
}

/// Joins the words for `bytes` with `-`, each in lower case when `lower`.
pub(crate) fn join_code(words: &WordList, bytes: &Vec<u8>, lower: bool) -> (s: String)
    requires
        bytes@.len() == CODE_WORDS,
    ensures
        s@ == code_text(spelled_with(words.view(), lower), bytes@),
        lower && all_ascii(words.view()) ==> s@ == code_text(ascii_lowered(words.view()), bytes@),
{
    proof {
        words.lemma_view_len();
    }
    let ghost ws = code_words(spelled_with(words.view(), lower), bytes@);
    let mut s = String::new();
    let mut i: usize = 0;
    while i < CODE_WORDS
        invariant
            bytes@.len() == CODE_WORDS,
            ws == code_words(spelled_with(words.view(), lower), bytes@),
            words.view().len() == WORD_COUNT,
            i <= CODE_WORDS,
            i == 0 ==> s@ == Seq::<char>::empty(),
            i > 0 ==> s@ == join_spec(ws.take(i as int), '-'),
            lower && all_ascii(words.view()) ==> forall|j: int|
                0 <= j < i ==> lowercase(words.view()[#[trigger] bytes@[j] as int]) == ascii_lowercase(
                    words.view()[bytes@[j] as int],
                ),
        decreases CODE_WORDS - i,
    {
        let raw = words.word(bytes[i]);
        proof {
            if lower && all_ascii(words.view()) {
                assert(is_ascii_chars(words.view()[bytes@[i as int] as int]));
            }
        }
        let w = if lower {
            to_lowercase(raw.as_str())
        } else {
            raw.clone()
        };
        assert(ws[i as int] == w@);
        assert(ws.take(i + 1).drop_last() =~= ws.take(i as int));
        assert(ws.take(i + 1).last() == w@);
        if i > 0 {
            push_char(&mut s, '-');
        } else {
            assert(ws.take(1) =~= seq![w@]);
        }
        s.append(w.as_str());
        proof {
            if i == 0 {
                assert(s@ =~= w@);
            }
        }
        i = i + 1;
    }
    assert(ws.take(6) =~= ws);
    proof {
        if lower && all_ascii(words.view()) {
            assert(code_words(spelled_with(words.view(), lower), bytes@) =~= code_words(
                ascii_lowered(words.view()),
                bytes@,
            ));
        }
    }
    s
}

/// The error for a word that the table lacks.
fn missing_word(w: &String) -> (m: String)
    ensures
        m@ == missing_word_message(w@),
{
    let mut m = String::from_str("Word \"");
    m.append(w.as_str());
    m.append("\" not found in database. Check spelling.");
    m
}

impl Addr {
    /// The six bytes that this address's code spells.
    pub open spec fn bytes(&self) -> Seq<u8> {
        code_bytes(self.addr, self.port)
    }

    /// The code of six words, joined by `-`, that stands for this address:
    /// the four address bytes, then the two port bytes.
    pub fn as_sequence(&self, words: &WordList) -> (s: String)
        ensures
            s@ == code_text(words.view(), self.bytes()),
    {
        let bytes: Vec<u8> = vec![
            self.addr[0],
            self.addr[1],
            self.addr[2],
            self.addr[3],
            self.port[0],
            self.port[1],
        ];
        assert(bytes@ =~= self.bytes());
        join_code(words, &bytes, false)
    }

    /// Reads a code of six words joined by `-` back into an address. Each
    /// word stands for the first index at which the table holds it; the
    /// port is read from the first two words.
    pub fn from_sequence(seq: &String, words: &WordList) -> (res: Result<Addr, String>)
        ensures
            decode_code(words.view(), seq@) matches Ok(b) ==> (res matches Ok(a) && a.bytes()
                == b),
            decode_code(words.view(), seq@) matches Err(m) ==> (res matches Err(e) && e@ == m),
            res is Ok <==> (split_spec(seq@, '-').len() == CODE_WORDS && forall|k: int|
                0 <= k < 4 ==> in_table(words.view(), #[trigger] split_spec(seq@, '-')[k])),
            res matches Ok(a) ==> (forall|k: int|
                0 <= k < 4 ==> words.view()[#[trigger] a.bytes()[k] as int] == split_spec(
                    seq@,
                    '-',
                )[k]) && a.port[0] == a.addr[0] && a.port[1] == a.addr[1],
    {
        proof {
            lemma_decode_code_meaning(words, seq@);
        }
        let ghost ws = words.view();
        proof {
            words.lemma_view_len();
        }
        let split = split_char(seq.as_str(), '-');
        let ghost parts = split_spec(seq@, '-');
        assert(views(split@) == parts);
        if split.len() != CODE_WORDS {
            return Err(String::from_str("Incorrect number of words in code. Must be 6."));
        }
        assert(split@[0]@ == parts[0]);
        assert(split@[1]@ == parts[1]);
        assert(split@[2]@ == parts[2]);
        assert(split@[3]@ == parts[3]);
        assert(split@[4]@ == parts[4]);
        assert(split@[5]@ == parts[5]);
        // the address, from the first four words
        let b0 = match words.position(&split[0]) {
            None => return Err(missing_word(&split[0])),
            Some(index) => index as u8,
        };
        let b1 = match words.position(&split[1]) {
            None => return Err(missing_word(&split[1])),
            Some(index) => index as u8,
        };
        let b2 = match words.position(&split[2]) {
            None => return Err(missing_word(&split[2])),
            Some(index) => index as u8,
        };
        let b3 = match words.position(&split[3]) {
            None => return Err(missing_word(&split[3])),
            Some(index) => index as u8,
        };
        // the port, from the first two words
        let p0 = match words.position(&split[0]) {
            None => return Err(missing_word(&split[4])),
            Some(index) => index as u8,
        };
        let p1 = match words.position(&split[1]) {
            None => return Err(missing_word(&split[5])),
            Some(index) => index as u8,
        };
        let a = Addr { addr: [b0, b1, b2, b3], port: [p0, p1] };
        assert(a.bytes() =~= decode_code(ws, seq@)->Ok_0);
        Ok(a)
    }

    /// The port in decimal.
    pub fn port_str(&self) -> (s: String)
        ensures
            s@ == decimal(port_number(self.port)),
    {
        let p: u64 = self.port[0] as u64 * 256 + self.port[1] as u64;
        crate::text::decimal_string(p)
    }

    /// `a.b.c.d:port`, as the address displays.
    pub fn to_string(&self) -> (s: String)
        ensures
            s@ == socket_text(self.addr, self.port),
    {
        socket_string(self.addr, self.port)
    }
}

/// Reading the code of an address gives back its four address bytes, and
/// the first two of them again as the port, for any table whose words are
/// distinct and hold no `-`.
pub proof fn lemma_code_roundtrip(words: &WordList, a: Addr)
    requires
        words.distinct(),
        forall|i: int| 0 <= i < WORD_COUNT ==> free_of(#[trigger] words.view()[i], '-'),
    ensures
        decode_code(words.view(), code_text(words.view(), a.bytes())) == Ok::<Seq<u8>, Seq<char>>(
            seq![a.addr[0], a.addr[1], a.addr[2], a.addr[3], a.addr[0], a.addr[1]],
        ),
{
    let ws = words.view();
    words.lemma_view_len();
    let cw = code_words(ws, a.bytes());
    assert forall|i: int| 0 <= i < cw.len() implies free_of(#[trigger] cw[i], '-') by {
        assert(cw[i] == ws[a.bytes()[i] as int]);
    }
    lemma_split_join(cw, '-');
    assert forall|k: int| 0 <= k < WORD_COUNT implies position(ws, #[trigger] ws[k]) == Some(k) by {
        assert forall|j: int| 0 <= j < k implies ws[j] != ws[k] by {}
        lemma_position_from(ws, ws[k], 0, k);
    }
    assert(cw[0] == ws[a.addr[0] as int]);
    assert(cw[1] == ws[a.addr[1] as int]);
    assert(cw[2] == ws[a.addr[2] as int]);
    assert(cw[3] == ws[a.addr[3] as int]);
    assert(position(ws, cw[0]) == Some(a.addr[0] as int));
    assert(position(ws, cw[1]) == Some(a.addr[1] as int));
    assert(position(ws, cw[2]) == Some(a.addr[2] as int));
    assert(position(ws, cw[3]) == Some(a.addr[3] as int));
}

/// Spelling out the address read from a code gives the code back, when the
/// code's fifth and sixth words repeat its first and second (the words
/// that the port is read from).
pub proof fn lemma_sequence_of_decoded(words: &WordList, s: Seq<char>)
    requires
        decode_code(words.view(), s) is Ok,
        split_spec(s, '-')[4] == split_spec(s, '-')[0],
        split_spec(s, '-')[5] == split_spec(s, '-')[1],
    ensures
        code_text(words.view(), decode_code(words.view(), s)->Ok_0) == s,
{
    let ws = words.view();
    words.lemma_view_len();
    let parts = split_spec(s, '-');
    let b = decode_code(ws, s)->Ok_0;
    assert forall|k: int| 0 <= k < 4 implies ws[b[k] as int] == #[trigger] parts[k] by {
        lemma_position_found(ws, parts[k], 0);
    }
    assert(ws[b[4] as int] == parts[4]);
    assert(ws[b[5] as int] == parts[5]);
    assert(code_words(ws, b) =~= parts);
    lemma_join_split(s, '-');
}

/// What reading a code means, over all codes: it succeeds exactly when the
/// code has six words and the table holds each of the first four; then each
/// of the four address bytes is the first index of its word in the table
/// (so the table's word at that byte is the code's word), and the port
/// repeats the first two bytes. A failure names the wrong word count, or
/// the first of the first four words that the table lacks.
pub proof fn lemma_decode_code_meaning(words: &WordList, s: Seq<char>)
    ensures
        ({
            let ws = words.view();
            let parts = split_spec(s, '-');
            &&& decode_code(ws, s) is Ok <==> (parts.len() == CODE_WORDS && forall|k: int|
                0 <= k < 4 ==> in_table(ws, #[trigger] parts[k]))
            &&& decode_code(ws, s) matches Ok(b) ==> {
                &&& b.len() == CODE_WORDS
                &&& b[4] == b[0] && b[5] == b[1]
                &&& forall|k: int|
                    0 <= k < 4 ==> ws[#[trigger] b[k] as int] == parts[k] && forall|j: int|
                        0 <= j < b[k] ==> ws[j] != parts[k]
            }
            &&& parts.len() != CODE_WORDS ==> decode_code(ws, s) == Err::<Seq<u8>, Seq<char>>(
                word_count_message(),
            )
            &&& decode_code(ws, s) matches Err(m) ==> (parts.len() != CODE_WORDS || exists|k: int|
                0 <= k < 4 && !in_table(ws, #[trigger] parts[k]) && (forall|j: int|
                    0 <= j < k ==> in_table(ws, parts[j])) && m == missing_word_message(parts[k]))
        }),
{
    let ws = words.view();
    words.lemma_view_len();
    let parts = split_spec(s, '-');
    if parts.len() == CODE_WORDS {
        lemma_position_in_table(ws, parts[0]);
        lemma_position_in_table(ws, parts[1]);
        lemma_position_in_table(ws, parts[2]);
        lemma_position_in_table(ws, parts[3]);
        if decode_code(ws, s) is Ok {
            let b = decode_code(ws, s)->Ok_0;
            assert forall|k: int| 0 <= k < 4 implies ws[#[trigger] b[k] as int] == parts[k] && forall|
                j: int,
            | 0 <= j < b[k] ==> ws[j] != parts[k] by {
                if k == 0 {
                } else if k == 1 {
                } else if k == 2 {
                } else {
                }
            }
        } else {
            let m = decode_code(ws, s)->Err_0;
            if !in_table(ws, parts[0]) {
                assert(m == missing_word_message(parts[0]));
            } else if !in_table(ws, parts[1]) {
                assert(m == missing_word_message(parts[1]));
            } else if !in_table(ws, parts[2]) {
                assert(m == missing_word_message(parts[2]));
            } else {
                assert(m == missing_word_message(parts[3]));
            }
        }
    }
}

} // verus!
