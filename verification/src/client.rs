//! The client's side: a connection through a SOCKS4 proxy.

use crate::codec::connect_request;
use crate::protocol::{client_result, HandshakeError, Socks4IO};
use vstd::prelude::*;

verus! {

/// Makes a stream that is connected to a proxy into a stream to the
/// destination: asks the proxy to connect to `target_host` and `target_port`
/// and hands the stream back once the proxy has granted it.
pub fn make_client_tcp_stream(stream: Socks4IO, target_host: [u8; 4], target_port: u16) -> (r:
    Result<Socks4IO, HandshakeError>)
    ensures
        match client_result(stream.unread()) {
            Ok(_) => r matches Ok(proxied) && proxied.unread() == stream.unread().skip(8)
                && proxied.sent() == stream.sent() + connect_request(target_host@, target_port),
            Err(error) => r matches Err(e) && e == error,
        },
{
    Socks4IO::make_client_tcp_stream(stream, target_host, target_port)
}

} // verus!
