//! The SOCKS4 handshake, on the proxy's side and on the client's, over an
//! in-memory byte stream.

use crate::codec::{
    be16, connect_request, decode_reply, decoded, encode_reply, encode_request, first_zero,
    frame_len, has_frame, has_zero, header_of, identifier_bytes, is_first_zero,
    lemma_first_zero_unique, lemma_request_round_trip, reply_bytes, request_bytes, DecodeError,
    RequestView, Socks4Info, Socks4Request, REPLY_LEN, REQUEST_HEADER_LEN, SOCKS_VERSION,
    TCP_CONNECT_COMMAND_CODE, TCP_CONNECT_RESPONSE_BAD, TCP_CONNECT_RESPONSE_OK,
};
use std::collections::VecDeque;
use vstd::prelude::*;
use vstd::utf8::{decode_utf8, encode_utf8, valid_utf8};

verus! {

/// Why a handshake failed.
#[derive(Debug, Clone, Copy, PartialEq, Eq, Structural)]
pub enum HandshakeError {
    /// The request could not be decoded, or its address is not four bytes.
    Malformed,
    /// The request's version is not 4.
    UnsupportedVersion,
    /// The request's command is not CONNECT.
    UnsupportedCommand,
    /// The proxy's reply ended before its eighth byte.
    Truncated,
    /// The proxy answered with a status other than granted.
    Rejected,
    /// The request did not arrive within the handshake's deadline.
    Timeout,
}

/// What is left unread once a request was read off `bytes`, or once the
/// attempt ran into the end of the input.
pub open spec fn after_decode(bytes: Seq<u8>) -> Seq<u8> {
    if has_frame(bytes) {
        bytes.skip(frame_len(bytes))
    } else {
        Seq::empty()
    }
}

/// The destination that a request asks for, or why the proxy refuses it:
/// the version is checked first, then the command, then the address.
pub open spec fn validated(request: RequestView) -> Result<(Seq<u8>, u16), HandshakeError> {
    if request.version != SOCKS_VERSION {
        Err(HandshakeError::UnsupportedVersion)
    } else if request.command != TCP_CONNECT_COMMAND_CODE {
        Err(HandshakeError::UnsupportedCommand)
    } else if request.ipv4.len() != 4 {
        Err(HandshakeError::Malformed)
    } else {
        Ok((request.ipv4, request.port))
    }
}

/// How the proxy's handshake ends on a client that has sent `bytes`.
pub open spec fn server_result(bytes: Seq<u8>) -> Result<(Seq<u8>, u16), HandshakeError> {
    match decoded(bytes) {
        Ok(request) => validated(request),
        Err(_) => Err(HandshakeError::Malformed),
    }
}

/// What the proxy writes to a client that has sent `bytes`: nothing where no
/// request could be decoded, else one reply, granted or rejected.
pub open spec fn server_reply(bytes: Seq<u8>) -> Seq<u8> {
    match decoded(bytes) {
        Ok(request) => if validated(request) is Ok {
            reply_bytes(TCP_CONNECT_RESPONSE_OK)
        } else {
            reply_bytes(TCP_CONNECT_RESPONSE_BAD)
        },
        Err(_) => Seq::empty(),
    }
}

/// How the client's handshake ends on a proxy that answers with `bytes`.
pub open spec fn client_result(bytes: Seq<u8>) -> Result<(), HandshakeError> {
    if bytes.len() < 8 {
        Err(HandshakeError::Truncated)
    } else if bytes[1] != TCP_CONNECT_RESPONSE_OK {
        Err(HandshakeError::Rejected)
    } else {
        Ok(())
    }
}

/// What is left unread once the client has read the proxy's answer off
/// `bytes`.
pub open spec fn after_reply(bytes: Seq<u8>) -> Seq<u8> {
    if bytes.len() < 8 {
        Seq::empty()
    } else {
        bytes.skip(8)
    }
}

/// Where a handshake on the proxy's side stands.
#[derive(Debug)]
pub enum HandshakeState {
    /// The request has not been read yet.
    AwaitRequest,
    /// The request was read and has not been answered yet.
    Validating(Socks4Request),
    /// The request was granted: the destination's address and port.
    Accepted([u8; 4], u16),
    /// The handshake failed.
    Rejected(HandshakeError),
}

/// What a `HandshakeState` stands for.
pub enum HandshakeStateView {
    AwaitRequest,
    Validating(RequestView),
    Accepted(Seq<u8>, u16),
    Rejected(HandshakeError),
}

impl View for HandshakeState {
    type V = HandshakeStateView;

    open spec fn view(&self) -> HandshakeStateView {
        match self {
            HandshakeState::AwaitRequest => HandshakeStateView::AwaitRequest,
            HandshakeState::Validating(request) => HandshakeStateView::Validating(request@),
            HandshakeState::Accepted(addr, port) => HandshakeStateView::Accepted(addr@, *port),
            HandshakeState::Rejected(error) => HandshakeStateView::Rejected(*error),
        }
    }
}

impl HandshakeStateView {
    /// No step leads out of this state.
    pub open spec fn is_terminal(self) -> bool {
        self is Accepted || self is Rejected
    }

    /// How the handshake has ended, in a terminal state.
    pub open spec fn outcome(self) -> Option<Result<(Seq<u8>, u16), HandshakeError>> {
        match self {
            HandshakeStateView::Accepted(addr, port) => Some(Ok((addr, port))),
            HandshakeStateView::Rejected(error) => Some(Err(error)),
            _ => None,
        }
    }
}

/// A handshake in progress: its state, what the client has sent and was not
/// read yet, and what was written to the client.
pub struct Exchange {
    pub state: HandshakeStateView,
    pub unread: Seq<u8>,
    pub sent: Seq<u8>,
}

/// One step of the proxy's handshake. Awaiting the request, it reads one and
/// goes on to validate it, or fails as malformed with nothing written.
/// Validating, it writes the one reply and ends accepted or rejected. In a
/// terminal state nothing happens.
pub open spec fn handshake_step(exchange: Exchange) -> Exchange {
    match exchange.state {
        HandshakeStateView::AwaitRequest => Exchange {
            state: match decoded(exchange.unread) {
                Ok(request) => HandshakeStateView::Validating(request),
                Err(_) => HandshakeStateView::Rejected(HandshakeError::Malformed),
            },
            unread: after_decode(exchange.unread),
            sent: exchange.sent,
        },
        HandshakeStateView::Validating(request) => match validated(request) {
            Ok((addr, port)) => Exchange {
                state: HandshakeStateView::Accepted(addr, port),
                unread: exchange.unread,
                sent: exchange.sent + reply_bytes(TCP_CONNECT_RESPONSE_OK),
            },
            Err(error) => Exchange {
                state: HandshakeStateView::Rejected(error),
                unread: exchange.unread,
                sent: exchange.sent + reply_bytes(TCP_CONNECT_RESPONSE_BAD),
            },
        },
        _ => exchange,
    }
}

/// `n` steps of the proxy's handshake.
pub open spec fn handshake_steps(exchange: Exchange, n: nat) -> Exchange
    decreases n,
{
    if n == 0 {
        exchange
    } else {
        handshake_steps(handshake_step(exchange), (n - 1) as nat)
    }
}

/// The handshake before its first step, on a client that has sent `unread`
/// and to which `sent` was written.
pub open spec fn handshake_start(unread: Seq<u8>, sent: Seq<u8>) -> Exchange {
    Exchange { state: HandshakeStateView::AwaitRequest, unread, sent }
}

/// The handshake after its last step, on a client that has sent `unread` and
/// to which `sent` was written.
pub open spec fn handshake_end(unread: Seq<u8>, sent: Seq<u8>) -> Exchange {
    Exchange {
        state: match server_result(unread) {
            Ok((addr, port)) => HandshakeStateView::Accepted(addr, port),
            Err(error) => HandshakeStateView::Rejected(error),
        },
        unread: after_decode(unread),
        sent: sent + server_reply(unread),
    }
}

/// One end of a connection, held in memory: the bytes that the peer has sent
/// and that were not read yet, and the bytes written to the peer so far.
#[derive(Debug)]
pub struct Socks4IO {
    input: VecDeque<u8>,
    output: Vec<u8>,
}

impl Socks4IO {
    /// The bytes received from the peer and not read yet, oldest first.
    pub closed spec fn unread(&self) -> Seq<u8> {
        self.input@
    }

    /// The bytes written to the peer, oldest first.
    pub closed spec fn sent(&self) -> Seq<u8> {
        self.output@
    }

    /// A stream on which `input` has arrived and nothing was written.
    pub fn new(input: Vec<u8>) -> (stream: Self)
        ensures
            stream.unread() == input@,
            stream.sent() == Seq::<u8>::empty(),
    {
        let mut stream = Socks4IO { input: VecDeque::new(), output: Vec::new() };
        stream.feed(input.as_slice());
        stream
    }

    /// Takes in bytes that have arrived from the peer, behind those already
    /// there.
    pub fn feed(&mut self, bytes: &[u8])
        ensures
            final(self).unread() == old(self).unread() + bytes@,
            final(self).sent() == old(self).sent(),
    {
        let mut i: usize = 0;
        while i < bytes.len()
            invariant
                i <= bytes.len(),
                self.output == old(self).output,
                self.input@ == old(self).input@ + bytes@.take(i as int),
            decreases bytes.len() - i,
        {
            self.input.push_back(bytes[i]);
            i = i + 1;
        }
    }

    /// The number of bytes that can still be read.
    pub fn remaining(&self) -> (n: usize)
        ensures
            n == self.unread().len(),
    {
        self.input.len()
    }

    /// The bytes written so far.
    pub fn output(&self) -> (bytes: &Vec<u8>)
        ensures
            bytes@ == self.sent(),
    {
        &self.output
    }

    /// Reads one byte. At the end of the input the read fails.
    pub fn read_u8(&mut self) -> (r: Result<u8, DecodeError>)
        ensures
            final(self).sent() == old(self).sent(),
            old(self).unread().len() >= 1 ==> r == Ok::<u8, DecodeError>(old(self).unread()[0])
                && final(self).unread() == old(self).unread().skip(1),
            old(self).unread().len() == 0 ==> r == Err::<u8, DecodeError>(
                DecodeError::UnexpectedEof,
            ) && final(self).unread() == old(self).unread(),
    {
        match self.input.pop_front() {
            Some(byte) => Ok(byte),
            None => Err(DecodeError::UnexpectedEof),
        }
    }

    /// Reads a big-endian 16-bit value. Where fewer than two bytes are left,
    /// they are consumed and the read fails.
    pub fn read_u16(&mut self) -> (r: Result<u16, DecodeError>)
        ensures
            final(self).sent() == old(self).sent(),
            old(self).unread().len() >= 2 ==> r == Ok::<u16, DecodeError>(
                be16(old(self).unread()[0], old(self).unread()[1]),
            ) && final(self).unread() == old(self).unread().skip(2),
            old(self).unread().len() < 2 ==> r == Err::<u16, DecodeError>(
                DecodeError::UnexpectedEof,
            ) && final(self).unread().len() == 0,
    {
        let hi = match self.read_u8() {
            Ok(byte) => byte,
            Err(e) => {
                return Err(e);
            },
        };
        let lo = match self.read_u8() {
            Ok(byte) => byte,
            Err(e) => {
                return Err(e);
            },
        };
        let value: u16 = (hi as u16) * 256 + (lo as u16);
        Ok(value)
    }

    /// Reads `size` bytes. Where fewer are left, they are consumed and the
    /// read fails.
    pub fn read_exact(&mut self, size: usize) -> (r: Result<Vec<u8>, DecodeError>)
        ensures
            final(self).sent() == old(self).sent(),
            old(self).unread().len() >= size ==> final(self).unread() == old(self).unread().skip(
                size as int,
            ) && (r matches Ok(buf) && buf@ == old(self).unread().take(size as int)),
            old(self).unread().len() < size ==> final(self).unread().len() == 0 && (r matches Err(
                e,
            ) && e == DecodeError::UnexpectedEof),
    {
        let mut buf: Vec<u8> = Vec::new();
        while buf.len() < size
            invariant
                buf.len() <= size,
                buf.len() <= old(self).unread().len(),
                self.sent() == old(self).sent(),
                buf@ == old(self).unread().take(buf.len() as int),
                self.unread() == old(self).unread().skip(buf.len() as int),
            decreases size - buf.len(),
        {
            match self.read_u8() {
                Ok(byte) => {
                    buf.push(byte);
                },
                Err(e) => {
                    return Err(e);
                },
            }
        }
        Ok(buf)
    }

    /// Reads the fixed part of a request: version, command, port, address.
    pub fn read_socks_info(&mut self) -> (r: Result<Socks4Info, DecodeError>)
        ensures
            final(self).sent() == old(self).sent(),
            old(self).unread().len() >= 8 ==> final(self).unread() == old(self).unread().skip(8)
                && (r matches Ok(info) && info@ == header_of(old(self).unread())),
            old(self).unread().len() < 8 ==> final(self).unread().len() == 0 && (r matches Err(e)
                && e == DecodeError::UnexpectedEof),
    {
        let ghost bytes = self.unread();
        let version = match self.read_u8() {
            Ok(byte) => byte,
            Err(e) => {
                return Err(e);
            },
        };
        let command = match self.read_u8() {
            Ok(byte) => byte,
            Err(e) => {
                return Err(e);
            },
        };
        assert(self.unread() == bytes.skip(2));
        let port = match self.read_u16() {
            Ok(value) => value,
            Err(e) => {
                return Err(e);
            },
        };
        assert(self.unread() == bytes.skip(4));
        let ipv4 = match self.read_exact(4) {
            Ok(buf) => buf,
            Err(e) => {
                return Err(e);
            },
        };
        assert(self.unread() == bytes.skip(8));
        assert(ipv4@ == bytes.subrange(4, 8));
        Ok(Socks4Info { version, command, port, ipv4 })
    }

    /// Reads a zero-terminated string: the bytes up to the first zero byte,
    /// which is consumed too, taken as UTF-8 text. Where no zero byte is
    /// left, everything is consumed and the read fails.
    pub fn read_c_string(&mut self) -> (r: Result<String, DecodeError>)
        ensures
            final(self).sent() == old(self).sent(),
            has_zero(old(self).unread()) ==> final(self).unread() == old(self).unread().skip(
                first_zero(old(self).unread()) + 1,
            ),
            has_zero(old(self).unread()) && valid_utf8(
                old(self).unread().take(first_zero(old(self).unread())),
            ) ==> (r matches Ok(text) && text@ == decode_utf8(
                old(self).unread().take(first_zero(old(self).unread())),
            )),
            has_zero(old(self).unread()) && !valid_utf8(
                old(self).unread().take(first_zero(old(self).unread())),
            ) ==> (r matches Err(e) && e == DecodeError::InvalidUtf8),
            !has_zero(old(self).unread()) ==> final(self).unread().len() == 0 && (r matches Err(e)
                && e == DecodeError::UnexpectedEof),
    {
        let mut vector: Vec<u8> = Vec::new();
        loop
            invariant_except_break
                self.unread() == old(self).unread().skip(vector.len() as int),
            invariant
                self.sent() == old(self).sent(),
                vector.len() <= old(self).unread().len(),
                vector@ == old(self).unread().take(vector.len() as int),
                forall|i: int| 0 <= i < vector.len() ==> old(self).unread()[i] != 0,
            ensures
                is_first_zero(old(self).unread(), vector.len() as int),
                self.unread() == old(self).unread().skip(vector.len() + 1),
            decreases old(self).unread().len() - vector.len(),
        {
            match self.read_u8() {
                Ok(ch) => {
                    if ch == 0 {
                        proof {
                            lemma_first_zero_unique(old(self).unread(), vector.len() as int);
                        }
                        break ;
                    }
                    vector.push(ch);
                },
                Err(e) => {
                    proof {
                        if has_zero(old(self).unread()) {
                            let t = first_zero(old(self).unread());
                            assert(is_first_zero(old(self).unread(), t));
                            assert(old(self).unread()[t] != 0);
                        }
                    }
                    return Err(e);
                },
            }
        }
        proof {
            lemma_first_zero_unique(old(self).unread(), vector.len() as int);
        }
        match string_from_utf8(vector) {
            Some(text) => {
                proof {
                    vstd::utf8::encode_utf8_decode_utf8(text@);
                }
                Ok(text)
            },
            None => Err(DecodeError::InvalidUtf8),
        }
    }

    /// Reads a whole request: the fixed part, then the identifier up to its
    /// terminating zero byte.
    pub fn decode_request(&mut self) -> (r: Result<Socks4Request, DecodeError>)
        ensures
            final(self).sent() == old(self).sent(),
            final(self).unread() == after_decode(old(self).unread()),
            match decoded(old(self).unread()) {
                Ok(request) => r matches Ok(req) && req@ == request,
                Err(error) => r matches Err(e) && e == error,
            },
    {
        let ghost bytes = self.unread();
        let info = match self.read_socks_info() {
            Ok(info) => info,
            Err(e) => {
                return Err(e);
            },
        };
        let identifier = match self.read_c_string() {
            Ok(text) => text,
            Err(e) => {
                return Err(e);
            },
        };
        assert(self.unread() == bytes.skip(frame_len(bytes)));
        Ok(
            Socks4Request {
                version: info.version,
                command: info.command,
                port: info.port,
                ipv4: info.ipv4,
                identifier,
            },
        )
    }

    /// The number of bytes that have to arrive before the next read: zero
    /// once a whole request frame is there, what the fixed part still lacks
    /// before that, and then one byte at a time up to the terminator.
    pub fn missing(&self) -> (n: usize)
        ensures
            has_frame(self.unread()) ==> n == 0,
            self.unread().len() < 8 ==> n == 8 - self.unread().len(),
            self.unread().len() >= 8 && !has_frame(self.unread()) ==> n == 1,
    {
        let len = self.input.len();
        if len < REQUEST_HEADER_LEN {
            return REQUEST_HEADER_LEN - len;
        }
        let ghost rest = self.unread().skip(8);
        let mut i: usize = REQUEST_HEADER_LEN;
        while i < len
            invariant
                8 <= i <= len,
                len == self.input@.len(),
                rest == self.input@.skip(8),
                forall|k: int| 0 <= k < i - 8 ==> rest[k] != 0,
            decreases len - i,
        {
            if self.input[i] == 0 {
                proof {
                    assert(rest[i - 8] == self.input@[i as int]);
                    lemma_first_zero_unique(rest, i - 8);
                }
                return 0;
            }
            i = i + 1;
        }
        proof {
            if has_zero(rest) {
                let t = first_zero(rest);
                assert(is_first_zero(rest, t));
                assert(rest[t] != 0);
            }
        }
        1
    }

    /// Writes bytes to the peer, behind those already written.
    pub fn write_all(&mut self, bytes: &[u8])
        ensures
            final(self).sent() == old(self).sent() + bytes@,
            final(self).unread() == old(self).unread(),
    {
        let mut i: usize = 0;
        while i < bytes.len()
            invariant
                i <= bytes.len(),
                self.input == old(self).input,
                self.output@ == old(self).output@ + bytes@.take(i as int),
            decreases bytes.len() - i,
        {
            self.output.push(bytes[i]);
            i = i + 1;
        }
    }

    /// Writes the reply with the given status.
    pub fn write_socks_response(&mut self, response: u8)
        ensures
            final(self).sent() == old(self).sent() + reply_bytes(response),
            final(self).unread() == old(self).unread(),
    {
        let reply = encode_reply(response);
        self.write_all(reply.as_slice());
    }

    /// Writes a version 4 request.
    pub fn write_request(&mut self, command: u8, port: u16, addr: &[u8; 4], identifier: &str)
        ensures
            final(self).sent() == old(self).sent() + request_bytes(
                command,
                port,
                addr@,
                identifier@,
            ),
            final(self).unread() == old(self).unread(),
    {
        let request = encode_request(command, port, addr, identifier);
        self.write_all(request.as_slice());
    }

    /// The first four bytes of `data` as an address.
    pub fn ipv4_from_vector(data: &Vec<u8>) -> (addr: [u8; 4])
        requires
            data.len() >= 4,
        ensures
            addr@ == data@.take(4),
    {
        [data[0], data[1], data[2], data[3]]
    }

    /// Takes the handshake one step further: see `handshake_step`.
    pub fn advance(&mut self, state: HandshakeState) -> (next: HandshakeState)
        ensures
            (Exchange { state: next@, unread: final(self).unread(), sent: final(self).sent() })
                == handshake_step(
                (Exchange { state: state@, unread: old(self).unread(), sent: old(self).sent() }),
            ),
    {
        match state {
            HandshakeState::AwaitRequest => match self.decode_request() {
                Ok(request) => HandshakeState::Validating(request),
                Err(_) => HandshakeState::Rejected(HandshakeError::Malformed),
            },
            HandshakeState::Validating(request) => match validate_request(&request) {
                Ok((addr, port)) => {
                    self.write_socks_response(TCP_CONNECT_RESPONSE_OK);
                    HandshakeState::Accepted(addr, port)
                },
                Err(error) => {
                    self.write_socks_response(TCP_CONNECT_RESPONSE_BAD);
                    HandshakeState::Rejected(error)
                },
            },
            HandshakeState::Accepted(addr, port) => HandshakeState::Accepted(addr, port),
            HandshakeState::Rejected(error) => HandshakeState::Rejected(error),
        }
    }

    /// The proxy's side of the handshake: reads the client's request, writes
    /// the reply and returns the destination, or the reason why there is
    /// none. Nothing is written where the request cannot be decoded.
    pub fn make_server_handshake(&mut self) -> (r: Result<([u8; 4], u16), HandshakeError>)
        ensures
            final(self).unread() == after_decode(old(self).unread()),
            final(self).sent() == old(self).sent() + server_reply(old(self).unread()),
            match server_result(old(self).unread()) {
                Ok((addr, port)) => r matches Ok((a, p)) && a@ == addr && p == port,
                Err(error) => r matches Err(e) && e == error,
            },
    {
        proof {
            lemma_handshake_takes_two_steps(self.unread(), self.sent());
        }
        let mut state = HandshakeState::AwaitRequest;
        let ghost mut taken: nat = 0;
        loop
            invariant
                taken <= 2,
                (Exchange { state: state@, unread: self.unread(), sent: self.sent() })
                    == handshake_steps(
                    handshake_start(old(self).unread(), old(self).sent()),
                    taken,
                ),
                handshake_steps(handshake_start(old(self).unread(), old(self).sent()), 2)
                    == handshake_end(old(self).unread(), old(self).sent()),
            decreases 2 - taken,
        {
            match state.outcome() {
                Some(outcome) => {
                    proof {
                        lemma_steps_at_rest(
                            handshake_start(old(self).unread(), old(self).sent()),
                            taken,
                            (2 - taken) as nat,
                        );
                    }
                    return outcome;
                },
                None => {},
            }
            proof {
                lemma_steps_unfold_last(
                    handshake_start(old(self).unread(), old(self).sent()),
                    taken,
                );
                if taken == 2 {
                    assert(handshake_end(old(self).unread(), old(self).sent()).state.is_terminal());
                }
            }
            state = self.advance(state);
            proof {
                taken = taken + 1;
            }
        }
    }

    /// The client's request: CONNECT to the destination, with an empty
    /// identifier.
    pub fn send_connect(&mut self, target_host: &[u8; 4], target_port: u16)
        ensures
            final(self).sent() == old(self).sent() + connect_request(target_host@, target_port),
            final(self).unread() == old(self).unread(),
    {
        proof {
            reveal_strlit("");
        }
        assert(""@ == Seq::<char>::empty());
        self.write_request(TCP_CONNECT_COMMAND_CODE, target_port, target_host, "");
    }

    /// Reads the proxy's reply, eight bytes, and tells whether the request
    /// was granted.
    pub fn await_grant(&mut self) -> (r: Result<(), HandshakeError>)
        ensures
            final(self).sent() == old(self).sent(),
            final(self).unread() == after_reply(old(self).unread()),
            r == client_result(old(self).unread()),
    {
        let buf = match self.read_exact(REPLY_LEN) {
            Ok(buf) => buf,
            Err(_) => {
                return Err(HandshakeError::Truncated);
            },
        };
        let reply: [u8; 8] = [buf[0], buf[1], buf[2], buf[3], buf[4], buf[5], buf[6], buf[7]];
        if decode_reply(&reply) != TCP_CONNECT_RESPONSE_OK {
            return Err(HandshakeError::Rejected);
        }
        Ok(())
    }

    /// The client's side of the handshake, on a stream that is connected to
    /// the proxy: writes the request for the destination, reads the reply and
    /// hands the stream back once the proxy has granted the request.
    pub fn make_client_tcp_stream(stream: Socks4IO, target_host: [u8; 4], target_port: u16) -> (r:
        Result<Socks4IO, HandshakeError>)
        ensures
            match client_result(stream.unread()) {
                Ok(_) => r matches Ok(proxied) && proxied.unread() == stream.unread().skip(8)
                    && proxied.sent() == stream.sent() + connect_request(
                    target_host@,
                    target_port,
                ),
                Err(error) => r matches Err(e) && e == error,
            },
    {
        let mut stream = stream;
        stream.send_connect(&target_host, target_port);
        match stream.await_grant() {
            Ok(_) => Ok(stream),
            Err(e) => Err(e),
        }
    }
}

/// `String::from_utf8` of the standard library: the bytes become a string
/// exactly when they are valid UTF-8, and the string then holds those bytes.
#[verifier::external_body]
fn string_from_utf8(bytes: Vec<u8>) -> (text: Option<String>)
    ensures
        text is Some <==> valid_utf8(bytes@),
        text matches Some(s) ==> encode_utf8(s@) == bytes@,
{
    match String::from_utf8(bytes) {
        Ok(s) => Some(s),
        Err(_) => None,
    }
}

impl HandshakeState {
    /// How the handshake has ended, in a terminal state.
    pub fn outcome(&self) -> (r: Option<Result<([u8; 4], u16), HandshakeError>>)
        ensures
            match self@.outcome() {
                Some(Ok((addr, port))) => r matches Some(Ok((a, p))) && a@ == addr && p == port,
                Some(Err(error)) => r matches Some(Err(e)) && e == error,
                None => r is None,
            },
    {
        match self {
            HandshakeState::Accepted(addr, port) => Some(Ok((*addr, *port))),
            HandshakeState::Rejected(error) => Some(Err(*error)),
            _ => None,
        }
    }
}

/// Checks a request as the proxy does before it answers: the version has to
/// be 4, the command CONNECT and the address four bytes long. Returns the
/// destination, or the first check that failed.
pub fn validate_request(request: &Socks4Request) -> (r: Result<([u8; 4], u16), HandshakeError>)
    ensures
        match validated(request@) {
            Ok((addr, port)) => r matches Ok((a, p)) && a@ == addr && p == port,
            Err(error) => r matches Err(e) && e == error,
        },
{
    if request.version != SOCKS_VERSION {
        Err(HandshakeError::UnsupportedVersion)
    } else if request.command != TCP_CONNECT_COMMAND_CODE {
        Err(HandshakeError::UnsupportedCommand)
    } else if request.ipv4.len() != 4 {
        Err(HandshakeError::Malformed)
    } else {
        Ok((Socks4IO::ipv4_from_vector(&request.ipv4), request.port))
    }
}

/// Taking `n` steps and then one more is taking `n + 1`.
pub proof fn lemma_steps_unfold_last(exchange: Exchange, n: nat)
    ensures
        handshake_steps(exchange, n + 1) == handshake_step(handshake_steps(exchange, n)),
    decreases n,
{
    reveal_with_fuel(handshake_steps, 2);
    if n > 0 {
        lemma_steps_unfold_last(handshake_step(exchange), (n - 1) as nat);
    }
}

/// Once a handshake is in a terminal state, further steps change nothing:
/// neither the state, nor what was read, nor what was written.
pub proof fn lemma_steps_at_rest(exchange: Exchange, n: nat, more: nat)
    requires
        handshake_steps(exchange, n).state.is_terminal(),
    ensures
        handshake_steps(exchange, n + more) == handshake_steps(exchange, n),
    decreases more,
{
    if more > 0 {
        lemma_steps_at_rest(exchange, n, (more - 1) as nat);
        lemma_steps_unfold_last(exchange, (n + more - 1) as nat);
    }
}

/// A handshake is over after two steps: it ends as `server_result` says,
/// having read one request and written what `server_reply` says.
pub proof fn lemma_handshake_takes_two_steps(unread: Seq<u8>, sent: Seq<u8>)
    ensures
        handshake_steps(handshake_start(unread, sent), 2) == handshake_end(unread, sent),
        handshake_end(unread, sent).state.is_terminal(),
{
    reveal_with_fuel(handshake_steps, 3);
    let first = handshake_step(handshake_start(unread, sent));
    assert(handshake_steps(handshake_start(unread, sent), 2) == handshake_step(first));
    assert(handshake_end(unread, sent).sent =~= handshake_step(first).sent);
}

/// A handshake never writes more than one reply: after any number of steps
/// the client has been sent either nothing or exactly one eight-byte reply,
/// and it has been sent nothing exactly when no request could be decoded.
pub proof fn lemma_at_most_one_reply(unread: Seq<u8>, sent: Seq<u8>, n: nat)
    ensures
        ({
            let written = handshake_steps(handshake_start(unread, sent), n).sent;
            ||| written == sent
            ||| written == sent + reply_bytes(TCP_CONNECT_RESPONSE_OK)
            ||| written == sent + reply_bytes(TCP_CONNECT_RESPONSE_BAD)
        }),
        n >= 2 ==> handshake_steps(handshake_start(unread, sent), n).sent == sent + server_reply(
            unread,
        ),
        server_reply(unread).len() == 0 <==> decoded(unread) is Err,
{
    reveal_with_fuel(handshake_steps, 3);
    lemma_handshake_takes_two_steps(unread, sent);
    if n >= 2 {
        lemma_steps_at_rest(handshake_start(unread, sent), 2, (n - 2) as nat);
        assert(sent + Seq::<u8>::empty() =~= sent);
    } else if n == 1 {
        assert(handshake_steps(handshake_start(unread, sent), 1) == handshake_step(
            handshake_start(unread, sent),
        ));
    }
}

/// A request that decodes and whose version is not 4 is answered with a
/// rejected reply, and the handshake fails with `UnsupportedVersion`,
/// whatever its command, port, address and identifier are.
pub proof fn lemma_wrong_version_rejected(bytes: Seq<u8>)
    requires
        decoded(bytes) is Ok,
        bytes[0] != SOCKS_VERSION,
    ensures
        server_result(bytes) == Err::<(Seq<u8>, u16), HandshakeError>(
            HandshakeError::UnsupportedVersion,
        ),
        server_reply(bytes) == reply_bytes(TCP_CONNECT_RESPONSE_BAD),
{
}

/// A version 4 request that decodes and whose command is not CONNECT is
/// answered with a rejected reply, and the handshake fails with
/// `UnsupportedCommand`.
pub proof fn lemma_wrong_command_rejected(bytes: Seq<u8>)
    requires
        decoded(bytes) is Ok,
        bytes[0] == SOCKS_VERSION,
        bytes[1] != TCP_CONNECT_COMMAND_CODE,
    ensures
        server_result(bytes) == Err::<(Seq<u8>, u16), HandshakeError>(
            HandshakeError::UnsupportedCommand,
        ),
        server_reply(bytes) == reply_bytes(TCP_CONNECT_RESPONSE_BAD),
{
}

/// A request whose identifier is not UTF-8 text makes the handshake fail with
/// `Malformed`, and nothing is written to the client.
pub proof fn lemma_identifier_not_utf8(bytes: Seq<u8>)
    requires
        has_frame(bytes),
        !valid_utf8(identifier_bytes(bytes)),
    ensures
        server_result(bytes) == Err::<(Seq<u8>, u16), HandshakeError>(HandshakeError::Malformed),
        server_reply(bytes) == Seq::<u8>::empty(),
{
}

/// A request that ends before its terminator makes the handshake fail with
/// `Malformed`, and nothing is written to the client.
pub proof fn lemma_incomplete_request(bytes: Seq<u8>)
    requires
        !has_frame(bytes),
    ensures
        server_result(bytes) == Err::<(Seq<u8>, u16), HandshakeError>(HandshakeError::Malformed),
        server_reply(bytes) == Seq::<u8>::empty(),
{
}

/// The proxy grants what a client of this library asks for: on the request
/// that `send_connect` writes for a destination, followed by whatever the
/// client sends next, the handshake ends with that destination, a granted
/// reply is written, and what followed the request is left unread. The
/// client in turn accepts that reply.
pub proof fn lemma_client_request_granted(addr: Seq<u8>, port: u16, rest: Seq<u8>)
    requires
        addr.len() == 4,
    ensures
        server_result(connect_request(addr, port) + rest) == Ok::<(Seq<u8>, u16), HandshakeError>(
            (addr, port),
        ),
        server_reply(connect_request(addr, port) + rest) == reply_bytes(TCP_CONNECT_RESPONSE_OK),
        after_decode(connect_request(addr, port) + rest) == rest,
        client_result(server_reply(connect_request(addr, port) + rest)) == Ok::<
            (),
            HandshakeError,
        >(()),
{
    let none = Seq::<char>::empty();
    assert(encode_utf8(none) =~= Seq::<u8>::empty());
    lemma_request_round_trip(TCP_CONNECT_COMMAND_CODE, port, addr, none, rest);
}

} // verus!
