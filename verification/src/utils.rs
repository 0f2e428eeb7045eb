//! STUN (RFC 5389) binding requests and the reading of the mapped
//! address from a response, and the identifier shown to the user.
use vstd::prelude::*;
use vstd::string::*;

use crate::appstate::addr::{code_bytes, code_text, Addr};
use crate::words::WordList;
use crate::MAGIC_COOKIE;

verus! {

/// The two bytes of `v`, most significant first.
pub open spec fn be16(v: u16) -> Seq<u8> {
    seq![(v / 256) as u8, (v % 256) as u8]
}

/// The four bytes of `v`, most significant first.
pub open spec fn be32(v: u32) -> Seq<u8> {
    seq![(v / 0x1000000) as u8, ((v / 0x10000) % 256) as u8, ((v / 256) % 256) as u8, (v % 256) as u8]
}

/// A STUN message header: type, length, magic cookie and transaction id.
pub open spec fn stun_header(ty: u16, length: u16, id: Seq<u8>) -> Seq<u8> {
    be16(ty) + be16(length) + be32(MAGIC_COOKIE) + id
}

/// The six bytes (address, then port) that a response maps to: the bytes
/// of the attribute, each XORed with the matching byte of `tid`.
pub open spec fn mapped_bytes(response: Seq<u8>, tid: [u8; 4]) -> Seq<u8> {
    seq![
        response[28] ^ tid[0],
        response[29] ^ tid[1],
        response[30] ^ tid[2],
        response[31] ^ tid[3],
        response[26] ^ tid[0],
        response[27] ^ tid[1],
    ]
}

/// The message that asks a STUN server for the client's public address:
/// the type and length in network order, the magic cookie, then the
/// transaction id.
pub fn stun_request(ty: u16, length: u16, id: [u8; 12]) -> (retval: Vec<u8>)
    ensures
        retval@ == stun_header(ty, length, id@),
{
    let mut retval: Vec<u8> = Vec::new();
    retval.push((ty / 256) as u8);
    retval.push((ty % 256) as u8);
    retval.push((length / 256) as u8);
    retval.push((length % 256) as u8);
    // magic cookie
    retval.push((MAGIC_COOKIE / 0x1000000) as u8);
    retval.push(((MAGIC_COOKIE / 0x10000) % 256) as u8);
    retval.push(((MAGIC_COOKIE / 256) % 256) as u8);
    retval.push((MAGIC_COOKIE % 256) as u8);
    let ghost head = retval@;
    let mut i: usize = 0;
    while i < 12
        invariant
            i <= 12,
            retval@ == head + id@.take(i as int),
        decreases 12 - i,
    {
        retval.push(id[i]);
        i = i + 1;
        assert(retval@ =~= head + id@.take(i as int));
    }
    assert(id@.take(12) =~= id@);
    assert(retval@ =~= stun_header(ty, length, id@));
    retval
}

/// Reads the client's public address from a STUN response: the port at
/// bytes 26 and 27 and the address at bytes 28 to 31, each XORed with the
/// matching byte of `tid` (the magic cookie's bytes).
pub fn parse_stun(response: &[u8], tid: [u8; 4]) -> (a: Addr)
    requires
        response@.len() >= 32,
    ensures
        code_bytes(a.addr, a.port) == mapped_bytes(response@, tid),
{
    let res0 = response[26];
    let res1 = response[27];
    let res2 = response[28];
    let res3 = response[29];
    let res4 = response[30];
    let res5 = response[31];
    let a = Addr {
        addr: [res2 ^ tid[0], res3 ^ tid[1], res4 ^ tid[2], res5 ^ tid[3]],
        port: [res0 ^ tid[0], res1 ^ tid[1]],
    };
    assert(code_bytes(a.addr, a.port) =~= mapped_bytes(response@, tid));
    a
}

/// The mapped address reads back the address that the server XORed with the
/// transaction bytes.
pub proof fn lemma_mapped_address_roundtrip(response: Seq<u8>, tid: [u8; 4], a: Addr)
    requires
        response.len() >= 32,
        response[26] == a.port[0] ^ tid[0],
        response[27] == a.port[1] ^ tid[1],
        response[28] == a.addr[0] ^ tid[0],
        response[29] == a.addr[1] ^ tid[1],
        response[30] == a.addr[2] ^ tid[2],
        response[31] == a.addr[3] ^ tid[3],
    ensures
        mapped_bytes(response, tid) == code_bytes(a.addr, a.port),
{
    assert(forall|x: u8, t: u8| #[trigger] ((x ^ t) ^ t) == x) by (bit_vector);
    assert(mapped_bytes(response, tid) =~= code_bytes(a.addr, a.port));
}

/// The code that the user shares: the code of the public address when it
/// is known.
pub fn generate_identifier(src: Option<Addr>, words: &WordList) -> (s: String)
    ensures
        src matches Some(a) ==> s@ == code_text(words.view(), a.bytes()),
        src is None ==> s@ == "No host address!"@,
{
    match src {
        Some(val) => val.as_sequence(words),
        None => String::from_str("No host address!"),
    }
}

} // verus!
