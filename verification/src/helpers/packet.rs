//! Frames read from the server, and what they decode to.
use vstd::prelude::*;
use vstd::string::*;
use vstd::utf8::*;

use crate::network::tauri::{HandshakePacket, NameResponse};
use crate::text::{copy_range, hex_byte, push_hex_byte, string_from_utf8, utf8_error_text};

verus! {

/// The kinds of frame, by the first byte of their header.
#[derive(Debug, Clone, Copy, PartialEq, Eq, Structural)]
pub enum PacketType {
    /// The server assigns the client its identifier (`0xF0`).
    NameAssign,
}

/// The bytes with a meaning of their own on the wire.
#[derive(Debug, Clone, Copy, PartialEq, Eq, Structural)]
pub enum PacketSymbols {
    /// Ends every frame (`0x04`).
    Eof,
}

/// A frame as read: an eight-byte header and the data that follows it.
#[derive(Debug)]
pub struct Packet {
    pub header: Vec<u8>,
    pub data: Vec<u8>,
}

/// A frame decoded by its type.
#[derive(Debug)]
pub enum ProcessedPacket {
    Assign(AssignPacket),
    Message(MessagePacket),
    /// A step of a key exchange between two clients.
    Handshake(HandshakePacket),
    /// The server's answer to a name request.
    NameResponse(NameResponsePacket),
}

/// The server's answer to a name request.
#[derive(Debug)]
pub struct NameResponsePacket {
    pub status: NameResponse,
}

/// The kinds of decoded packet, as the queue of received packets tells
/// them apart.
#[derive(Debug, Clone, Copy, PartialEq, Eq, Structural)]
pub enum PacketKind {
    Assign,
    Message,
    Handshake,
    NameResponse,
}

/// The identifier that the server assigned.
#[derive(Debug)]
pub struct AssignPacket {
    pub content: String,
}

/// A chat message between two clients.
#[derive(Debug)]
pub struct MessagePacket {
    pub sender: String,
    pub receiver: String,
    pub content: String,
}

/// The number of header bytes in a frame.
pub const HEADER_LEN: usize = 8;

/// The byte of a packet type.
pub open spec fn type_code(t: PacketType) -> u8 {
    match t {
        PacketType::NameAssign => 0xF0u8,
    }
}

/// The packet type whose byte is `b`, if any.
pub open spec fn type_of_byte(b: u8) -> Option<PacketType> {
    if b == 0xF0 {
        Some(PacketType::NameAssign)
    } else {
        None
    }
}

/// The error for a header byte that names no packet type.
pub open spec fn invalid_type_message(b: u8) -> Seq<char> {
    "Invalid packet type: "@ + hex_byte(b)
}

impl From<PacketType> for u8 {
    fn from(val: PacketType) -> (b: u8) {
        match val {
            PacketType::NameAssign => 0xF0,
        }
    }
}

impl vstd::std_specs::convert::FromSpecImpl<PacketType> for u8 {
    open spec fn obeys_from_spec() -> bool {
        true
    }

    open spec fn from_spec(v: PacketType) -> u8 {
        type_code(v)
    }
}

impl PacketType {
    /// The packet type whose byte is `value`, or the error naming the byte.
    pub fn try_from(value: u8) -> (res: Result<PacketType, String>)
        ensures
            type_of_byte(value) matches Some(t) ==> res == Ok::<PacketType, String>(t),
            type_of_byte(value) is None ==> (res matches Err(e) && e@ == invalid_type_message(
                value,
            )),
    {
        if value == 0xF0 {
            Ok(PacketType::NameAssign)
        } else {
            let mut m = String::from_str("Invalid packet type: ");
            push_hex_byte(&mut m, value);
            Err(m)
        }
    }
}

/// The byte that `u8::from` gives a packet type is the one that
/// `PacketType::try_from` reads back as that type; no other byte is.
pub proof fn lemma_type_code_roundtrip(t: PacketType, b: u8)
    ensures
        type_of_byte(type_code(t)) == Some(t),
        type_of_byte(b) == Some(t) ==> b == type_code(t),
{
}

impl PacketSymbols {
    /// The byte of the symbol.
    pub fn value(&self) -> (b: u8)
        ensures
            b == 0x04,
    {
        match self {
            PacketSymbols::Eof => 0x04,
        }
    }
}

impl Packet {
    /// Splits a frame into its eight header bytes and its data, dropping
    /// the final byte (the end-of-frame symbol).
    pub fn from_bytes(bytes: Vec<u8>) -> (p: Packet)
        requires
            bytes@.len() > HEADER_LEN,
        ensures
            p.header@ == bytes@.subrange(0, HEADER_LEN as int),
            p.data@ == bytes@.subrange(HEADER_LEN as int, bytes@.len() - 1),
    {
        let header = copy_range(&bytes, 0, HEADER_LEN);
        let data = copy_range(&bytes, HEADER_LEN, bytes.len() - 1);
        Packet { header, data }
    }

    /// Decodes the frame by its type byte (the header's first byte): a name
    /// assignment carries its identifier as UTF-8 text.
    pub fn process(&self) -> (res: Result<ProcessedPacket, String>)
        requires
            self.header@.len() >= 1,
        ensures
            self.header@[0] == 0xF0 && valid_utf8(self.data@) ==> (res matches Ok(
                ProcessedPacket::Assign(a),
            ) && a.content@ == decode_utf8(self.data@)),
            self.header@[0] == 0xF0 && !valid_utf8(self.data@) ==> (res matches Err(e) && e@
                == utf8_error_text(self.data@)),
            self.header@[0] != 0xF0 ==> (res matches Err(e) && e@ == invalid_type_message(
                self.header@[0],
            )),
    {
        match PacketType::try_from(self.header[0]) {
            Ok(PacketType::NameAssign) => {
                let bytes = copy_range(&self.data, 0, self.data.len());
                assert(bytes@ =~= self.data@);
                let content = match string_from_utf8(bytes) {
                    Ok(content) => content,
                    Err(e) => return Err(e),
                };
                Ok(ProcessedPacket::Assign(AssignPacket { content }))
            },
            Err(e) => Err(e),
        }
    }
}

/// The kind of the packets of type `t`.
pub open spec fn type_kind(t: PacketType) -> PacketKind {
    match t {
        PacketType::NameAssign => PacketKind::Assign,
    }
}

impl PacketType {
    /// The kind of the packets of this type.
    pub fn kind(&self) -> (k: PacketKind)
        ensures
            k == type_kind(*self),
    {
        match self {
            PacketType::NameAssign => PacketKind::Assign,
        }
    }
}

/// A packet's kind names its own variant, and a packet type's kind is
/// that of the packets the type stands for.
pub proof fn lemma_kind_names_variant(p: ProcessedPacket)
    ensures
        p.kind_of() == PacketKind::Assign <==> p is Assign,
        p.kind_of() == PacketKind::Message <==> p is Message,
        p.kind_of() == PacketKind::Handshake <==> p is Handshake,
        p.kind_of() == PacketKind::NameResponse <==> p is NameResponse,
        p.has_type(PacketType::NameAssign) <==> p is Assign,
{
}

impl ProcessedPacket {
    /// The packet's kind.
    pub open spec fn kind_of(&self) -> PacketKind {
        match self {
            ProcessedPacket::Assign(_) => PacketKind::Assign,
            ProcessedPacket::Message(_) => PacketKind::Message,
            ProcessedPacket::Handshake(_) => PacketKind::Handshake,
            ProcessedPacket::NameResponse(_) => PacketKind::NameResponse,
        }
    }

    /// The packet is of type `t`.
    pub open spec fn has_type(&self, t: PacketType) -> bool {
        self.kind_of() == type_kind(t)
    }

    /// The packet's kind.
    pub fn kind(&self) -> (k: PacketKind)
        ensures
            k == self.kind_of(),
            (k == PacketKind::Assign) == (self is Assign),
            (k == PacketKind::Message) == (self is Message),
            (k == PacketKind::Handshake) == (self is Handshake),
            (k == PacketKind::NameResponse) == (self is NameResponse),
    {
        match self {
            ProcessedPacket::Assign(_) => PacketKind::Assign,
            ProcessedPacket::Message(_) => PacketKind::Message,
            ProcessedPacket::Handshake(_) => PacketKind::Handshake,
            ProcessedPacket::NameResponse(_) => PacketKind::NameResponse,
        }
    }
}

} // verus!
