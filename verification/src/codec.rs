//! The SOCKS4 wire formats.
//!
//! Request: `[version:1][command:1][port:2][addr:4][identifier:N][0x00:1]`.
//! Reply: `[0x00:1][status:1][port:2][addr:4]`, port and address zeroed.
//! All integers are big-endian.

use vstd::prelude::*;
use vstd::utf8::{decode_utf8, encode_utf8, valid_utf8};

verus! {

/// The protocol version a request has to carry.
pub const SOCKS_VERSION: u8 = 4;

/// The command code of CONNECT, the only command served.
pub const TCP_CONNECT_COMMAND_CODE: u8 = 0x01;

/// Reply status: request granted.
pub const TCP_CONNECT_RESPONSE_OK: u8 = 0x5a;

/// Reply status: request rejected or failed.
pub const TCP_CONNECT_RESPONSE_BAD: u8 = 0x5b;

/// Length of the fixed part of a request: version, command, port, address.
pub const REQUEST_HEADER_LEN: usize = 8;

/// Length of a reply.
pub const REPLY_LEN: usize = 8;

/// The value of a big-endian 16-bit field.
pub open spec fn be16(hi: u8, lo: u8) -> u16 {
    (hi as int * 256 + lo as int) as u16
}

/// The high byte of a 16-bit value.
pub open spec fn hi_byte(value: u16) -> u8 {
    (value as int / 256) as u8
}

/// The low byte of a 16-bit value.
pub open spec fn lo_byte(value: u16) -> u8 {
    (value as int % 256) as u8
}

/// The eight bytes of a reply with the given status.
pub open spec fn reply_bytes(status: u8) -> Seq<u8> {
    seq![0u8, status, 0u8, 0u8, 0u8, 0u8, 0u8, 0u8]
}

/// Builds the reply for `status`: a zero byte, the status, and six zero bytes
/// where the port and the address would stand.
pub fn encode_reply(status: u8) -> (reply: [u8; 8])
    ensures
        reply@ == reply_bytes(status),
{
    [0, status, 0, 0, 0, 0, 0, 0]
}

/// Reads the status out of a reply: the byte at offset 1.
pub fn decode_reply(reply: &[u8; 8]) -> (status: u8)
    ensures
        status == reply@[1],
{
    reply[1]
}

/// Encoding a status and decoding the reply gives the status back, and every
/// other byte of the reply is zero.
pub proof fn lemma_reply_round_trip(status: u8)
    ensures
        reply_bytes(status).len() == REPLY_LEN,
        reply_bytes(status)[1] == status,
        forall|i: int| 0 <= i < 8 && i != 1 ==> reply_bytes(status)[i] == 0,
{
}

/// The fixed part of a request as it was read off the wire.
#[derive(Debug)]
pub struct Socks4Info {
    pub version: u8,
    pub command: u8,
    pub port: u16,
    pub ipv4: Vec<u8>,
}

/// A request: the fixed part and the identifier that follows it. On the wire
/// it takes eight bytes, the identifier's bytes and one terminating zero byte.
#[derive(Debug)]
pub struct Socks4Request {
    pub version: u8,
    pub command: u8,
    pub port: u16,
    pub ipv4: Vec<u8>,
    pub identifier: String,
}

/// Why a request could not be decoded.
#[derive(Debug, Clone, Copy, PartialEq, Eq, Structural)]
pub enum DecodeError {
    /// The bytes ended before the request did.
    UnexpectedEof,
    /// The identifier is not UTF-8 text.
    InvalidUtf8,
}

/// What a `Socks4Info` stands for.
pub struct InfoView {
    pub version: u8,
    pub command: u8,
    pub port: u16,
    pub ipv4: Seq<u8>,
}

/// What a `Socks4Request` stands for.
pub struct RequestView {
    pub version: u8,
    pub command: u8,
    pub port: u16,
    pub ipv4: Seq<u8>,
    pub identifier: Seq<char>,
}

impl View for Socks4Info {
    type V = InfoView;

    open spec fn view(&self) -> InfoView {
        InfoView {
            version: self.version,
            command: self.command,
            port: self.port,
            ipv4: self.ipv4@,
        }
    }
}

impl View for Socks4Request {
    type V = RequestView;

    open spec fn view(&self) -> RequestView {
        RequestView {
            version: self.version,
            command: self.command,
            port: self.port,
            ipv4: self.ipv4@,
            identifier: self.identifier@,
        }
    }
}

impl RequestView {
    /// The number of bytes the request takes on the wire.
    pub open spec fn wire_len(self) -> nat {
        8 + encode_utf8(self.identifier).len() + 1
    }
}

/// The fixed part that a byte sequence of at least eight bytes starts with.
pub open spec fn header_of(bytes: Seq<u8>) -> InfoView {
    InfoView {
        version: bytes[0],
        command: bytes[1],
        port: be16(bytes[2], bytes[3]),
        ipv4: bytes.subrange(4, 8),
    }
}

/// `t` is the offset of the first zero byte of `bytes`.
pub open spec fn is_first_zero(bytes: Seq<u8>, t: int) -> bool {
    &&& 0 <= t < bytes.len()
    &&& bytes[t] == 0
    &&& forall|i: int| 0 <= i < t ==> bytes[i] != 0
}

/// `bytes` holds a zero byte.
pub open spec fn has_zero(bytes: Seq<u8>) -> bool {
    exists|t: int| is_first_zero(bytes, t)
}

/// The offset of the first zero byte of `bytes`, where it has one.
pub open spec fn first_zero(bytes: Seq<u8>) -> int {
    choose|t: int| is_first_zero(bytes, t)
}

/// `bytes` starts with a whole request frame: the fixed part, an identifier
/// and the zero byte that ends it.
pub open spec fn has_frame(bytes: Seq<u8>) -> bool {
    bytes.len() >= 8 && has_zero(bytes.skip(8))
}

/// The identifier's bytes of the frame at the start of `bytes`.
pub open spec fn identifier_bytes(bytes: Seq<u8>) -> Seq<u8> {
    bytes.skip(8).take(first_zero(bytes.skip(8)))
}

/// The length of the frame at the start of `bytes`: the fixed part, the
/// identifier and its terminator.
pub open spec fn frame_len(bytes: Seq<u8>) -> int {
    8 + first_zero(bytes.skip(8)) + 1
}

/// The request that `bytes` starts with, or why there is none.
pub open spec fn decoded(bytes: Seq<u8>) -> Result<RequestView, DecodeError> {
    if !has_frame(bytes) {
        Err(DecodeError::UnexpectedEof)
    } else if !valid_utf8(identifier_bytes(bytes)) {
        Err(DecodeError::InvalidUtf8)
    } else {
        Ok(
            RequestView {
                version: bytes[0],
                command: bytes[1],
                port: be16(bytes[2], bytes[3]),
                ipv4: bytes.subrange(4, 8),
                identifier: decode_utf8(identifier_bytes(bytes)),
            },
        )
    }
}

/// The bytes of a version 4 request.
pub open spec fn request_bytes(command: u8, port: u16, addr: Seq<u8>, identifier: Seq<char>) -> Seq<
    u8,
> {
    seq![SOCKS_VERSION, command, hi_byte(port), lo_byte(port)] + addr + encode_utf8(identifier)
        + seq![0u8]
}

/// A byte sequence has one first zero byte only.
pub proof fn lemma_first_zero_unique(bytes: Seq<u8>, t: int)
    requires
        is_first_zero(bytes, t),
    ensures
        has_zero(bytes),
        first_zero(bytes) == t,
{
    let u = first_zero(bytes);
    assert(is_first_zero(bytes, u));
    if u < t {
        assert(bytes[u] != 0);
    }
    if t < u {
        assert(bytes[t] != 0);
    }
}

/// Splitting a 16-bit value into its two bytes and joining them again gives
/// the value back.
pub proof fn lemma_be16_round_trip(value: u16)
    ensures
        be16(hi_byte(value), lo_byte(value)) == value,
{
}

/// Builds a version 4 request: the fixed part, the identifier's bytes and the
/// terminating zero byte.
pub fn encode_request(command: u8, port: u16, addr: &[u8; 4], identifier: &str) -> (bytes: Vec<u8>)
    ensures
        bytes@ == request_bytes(command, port, addr@, identifier@),
{
    let mut bytes: Vec<u8> = Vec::new();
    bytes.push(SOCKS_VERSION);
    bytes.push(command);
    bytes.push((port / 256) as u8);
    bytes.push((port % 256) as u8);
    bytes.push(addr[0]);
    bytes.push(addr[1]);
    bytes.push(addr[2]);
    bytes.push(addr[3]);
    let text = identifier.as_bytes();
    let mut i: usize = 0;
    while i < text.len()
        invariant
            i <= text.len(),
            text@ == encode_utf8(identifier@),
            bytes@ == seq![SOCKS_VERSION, command, hi_byte(port), lo_byte(port)] + addr@
                + text@.subrange(0, i as int),
        decreases text.len() - i,
    {
        bytes.push(text[i]);
        i = i + 1;
    }
    bytes.push(0);
    bytes
}

/// The bytes of the request that a client of this proxy sends: CONNECT, with
/// an empty identifier.
pub open spec fn connect_request(addr: Seq<u8>, port: u16) -> Seq<u8> {
    request_bytes(TCP_CONNECT_COMMAND_CODE, port, addr, Seq::empty())
}

/// Decoding an encoded request gives back the command, the port, the address
/// and the identifier, whatever follows the request on the wire, and leaves
/// exactly what follows it. The identifier's encoding must hold no zero byte,
/// since the first one ends the frame.
pub proof fn lemma_request_round_trip(
    command: u8,
    port: u16,
    addr: Seq<u8>,
    identifier: Seq<char>,
    rest: Seq<u8>,
)
    requires
        addr.len() == 4,
        forall|i: int| 0 <= i < encode_utf8(identifier).len() ==> encode_utf8(identifier)[i] != 0,
    ensures
        decoded(request_bytes(command, port, addr, identifier) + rest) == Ok::<
            RequestView,
            DecodeError,
        >(RequestView { version: SOCKS_VERSION, command, port, ipv4: addr, identifier }),
        frame_len(request_bytes(command, port, addr, identifier) + rest) == request_bytes(
            command,
            port,
            addr,
            identifier,
        ).len(),
        (request_bytes(command, port, addr, identifier) + rest).skip(
            frame_len(request_bytes(command, port, addr, identifier) + rest),
        ) == rest,
{
    let text = encode_utf8(identifier);
    let bytes = request_bytes(command, port, addr, identifier) + rest;
    let tail = bytes.skip(8);
    assert(tail =~= text + seq![0u8] + rest);
    assert(is_first_zero(tail, text.len() as int));
    lemma_first_zero_unique(tail, text.len() as int);
    assert(identifier_bytes(bytes) =~= text);
    vstd::utf8::encode_utf8_valid_utf8(identifier);
    vstd::utf8::encode_utf8_decode_utf8(identifier);
    lemma_be16_round_trip(port);
    assert(bytes.subrange(4, 8) =~= addr);
    assert(bytes.skip(frame_len(bytes)) =~= rest);
}

/// Decoding the request that a client sends for a destination gives back the
/// destination's port and address exactly.
pub proof fn lemma_connect_round_trip(port: u16, addr: Seq<u8>)
    requires
        addr.len() == 4,
    ensures
        decoded(connect_request(addr, port)) == Ok::<RequestView, DecodeError>(
            RequestView {
                version: SOCKS_VERSION,
                command: TCP_CONNECT_COMMAND_CODE,
                port,
                ipv4: addr,
                identifier: Seq::empty(),
            },
        ),
        connect_request(addr, port).len() == 9,
{
    let none = Seq::<char>::empty();
    assert(encode_utf8(none) =~= Seq::<u8>::empty());
    lemma_request_round_trip(TCP_CONNECT_COMMAND_CODE, port, addr, none, Seq::empty());
    assert(connect_request(addr, port) + Seq::<u8>::empty() =~= connect_request(addr, port));
}

/// A decoded request takes on the wire exactly the bytes that were read for
/// it: the fixed part, the identifier and its terminator.
pub proof fn lemma_decoded_wire_len(bytes: Seq<u8>)
    requires
        decoded(bytes) is Ok,
    ensures
        decoded(bytes)->Ok_0.wire_len() == frame_len(bytes),
        frame_len(bytes) <= bytes.len(),
{
    let tail = bytes.skip(8);
    let t = first_zero(tail);
    assert(is_first_zero(tail, t));
    vstd::utf8::decode_utf8_encode_utf8(identifier_bytes(bytes));
}

} // verus!
