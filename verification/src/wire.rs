//! The heartbeat datagram: a fixed fingerprint tag followed by a TCP port.
//!
//! A heartbeat is exactly 34 bytes long. Bytes `[0, 32)` hold the fingerprint
//! tag, bytes `[32, 34)` hold the advertised TCP port as an unsigned 16-bit
//! integer in little-endian order.

use vstd::prelude::*;

verus! {

/// Length in bytes of the fingerprint tag that opens every protocol datagram.
pub const MAGIC_BYTES_SIZE: usize = 32;

/// Length in bytes of an encoded TCP port.
pub const PORT_SIZE: usize = 2;

/// Length in bytes of a heartbeat datagram.
pub const HEARTBEAT_SIZE: usize = 34;

/// The fingerprint tag: the SHA-256 digest of the text "Hello World!".
pub const MAGIC_BYTES: [u8; MAGIC_BYTES_SIZE] = [
    0x03, 0xba, 0x20, 0x4e, 0x50, 0xd1, 0x26, 0xe4, 0x67, 0x4c, 0x00, 0x5e, 0x04, 0xd8, 0x2e, 0x84,
    0xc2, 0x13, 0x66, 0x78, 0x0a, 0xf1, 0xf4, 0x3b, 0xd5, 0x4a, 0x37, 0x81, 0x6b, 0x6a, 0xb3, 0x40,
];

/// The fingerprint tag as a sequence of bytes.
pub open spec fn magic_bytes() -> Seq<u8> {
    MAGIC_BYTES@
}

/// A message made of the fingerprint tag followed by `body`.
pub open spec fn with_header(body: Seq<u8>) -> Seq<u8> {
    magic_bytes() + body
}

/// Whether `msg` opens with the fingerprint tag.
pub open spec fn has_header(msg: Seq<u8>) -> bool {
    &&& msg.len() >= MAGIC_BYTES_SIZE
    &&& msg.subrange(0, MAGIC_BYTES_SIZE as int) == magic_bytes()
}

/// What follows the first 32 bytes of `msg`.
pub open spec fn body_of(msg: Seq<u8>) -> Seq<u8>
    recommends
        msg.len() >= MAGIC_BYTES_SIZE,
{
    msg.subrange(MAGIC_BYTES_SIZE as int, msg.len() as int)
}

/// The two bytes that stand for `port` on the wire, low byte first.
pub open spec fn port_bytes(port: u16) -> Seq<u8> {
    seq![(port % 256) as u8, (port / 256) as u8]
}

/// The port that two wire bytes stand for, the first being the low byte.
pub open spec fn port_of_bytes(bytes: Seq<u8>) -> u16
    recommends
        bytes.len() == PORT_SIZE,
{
    (bytes[0] + 256 * bytes[1]) as u16
}

/// The heartbeat datagram that advertises `port`.
pub open spec fn heartbeat_payload(port: u16) -> Seq<u8> {
    with_header(port_bytes(port))
}

/// Whether `msg` is a well-formed heartbeat: the tag and exactly two more bytes.
pub open spec fn is_heartbeat(msg: Seq<u8>) -> bool {
    &&& msg.len() == HEARTBEAT_SIZE
    &&& has_header(msg)
}

/// The port that a heartbeat advertises.
pub open spec fn advertised_port(msg: Seq<u8>) -> u16
    recommends
        is_heartbeat(msg),
{
    port_of_bytes(body_of(msg))
}

/// Builds a message: the fingerprint tag, then `body`.
pub fn prepend_magic_bytes(body: &[u8]) -> (msg: Vec<u8>)
    ensures
        msg@ == with_header(body@),
{
    let mut msg: Vec<u8> = Vec::new();
    let mut i: usize = 0;
    while i < MAGIC_BYTES_SIZE
        invariant
            i <= MAGIC_BYTES_SIZE,
            msg@ == magic_bytes().subrange(0, i as int),
        decreases MAGIC_BYTES_SIZE - i,
    {
        msg.push(MAGIC_BYTES[i]);
        i += 1;
    }
    assert(msg@ == magic_bytes());
    let mut j: usize = 0;
    while j < body.len()
        invariant
            j <= body@.len(),
            msg@ == magic_bytes() + body@.subrange(0, j as int),
        decreases body@.len() - j,
    {
        msg.push(body[j]);
        j += 1;
    }
    assert(body@.subrange(0, j as int) == body@);
    msg
}

/// Strips the fingerprint tag. Returns what follows it when `msg` opens with
/// the tag, and `None` for every other message, too short ones included.
pub fn remove_header(msg: &[u8]) -> (body: Option<&[u8]>)
    ensures
        body is Some <==> has_header(msg@),
        body matches Some(rest) ==> rest@ == body_of(msg@),
{
    if msg.len() < MAGIC_BYTES_SIZE {
        return None;
    }
    let mut i: usize = 0;
    while i < MAGIC_BYTES_SIZE
        invariant
            i <= MAGIC_BYTES_SIZE,
            msg@.len() >= MAGIC_BYTES_SIZE,
            msg@.subrange(0, i as int) == magic_bytes().subrange(0, i as int),
        decreases MAGIC_BYTES_SIZE - i,
    {
        if msg[i] != MAGIC_BYTES[i] {
            assert(msg@.subrange(0, MAGIC_BYTES_SIZE as int)[i as int] != magic_bytes()[i as int]);
            return None;
        }
        assert(msg@.subrange(0, i + 1) == msg@.subrange(0, i as int).push(msg@[i as int]));
        assert(magic_bytes().subrange(0, i + 1) == magic_bytes().subrange(0, i as int).push(
            magic_bytes()[i as int],
        ));
        i += 1;
    }
    assert(magic_bytes().subrange(0, MAGIC_BYTES_SIZE as int) == magic_bytes());
    Some(vstd::slice::slice_subrange(msg, MAGIC_BYTES_SIZE, msg.len()))
}

/// Writes `port` as two bytes, low byte first.
pub fn encode_port(port: u16) -> (bytes: [u8; 2])
    ensures
        bytes@ == port_bytes(port),
{
    let bytes: [u8; 2] = [(port % 256) as u8, (port / 256) as u8];
    assert(bytes@ =~= port_bytes(port));
    bytes
}

/// Reads a port from its wire form. Succeeds exactly on inputs of two bytes.
pub fn decode_port(bytes: &[u8]) -> (port: Option<u16>)
    ensures
        port is Some <==> bytes@.len() == PORT_SIZE,
        port matches Some(p) ==> p == port_of_bytes(bytes@),
{
    if bytes.len() != PORT_SIZE {
        return None;
    }
    let low: u16 = bytes[0] as u16;
    let high: u16 = bytes[1] as u16;
    Some(low + 256 * high)
}

/// Builds the heartbeat datagram that advertises `port`.
pub fn encode_heartbeat(port: u16) -> (msg: Vec<u8>)
    ensures
        msg@ == heartbeat_payload(port),
{
    let bytes = encode_port(port);
    prepend_magic_bytes(bytes.as_slice())
}

/// Reads the advertised port out of a datagram. Succeeds exactly on
/// well-formed heartbeats; any other length or tag gives `None`.
pub fn decode_heartbeat(msg: &[u8]) -> (port: Option<u16>)
    ensures
        port is Some <==> is_heartbeat(msg@),
        port matches Some(p) ==> p == advertised_port(msg@),
{
    match remove_header(msg) {
        Some(body) => decode_port(body),
        None => None,
    }
}

/// Encoding a port and decoding the two bytes gives the port back.
pub proof fn lemma_port_round_trip(port: u16)
    ensures
        port_bytes(port).len() == PORT_SIZE,
        port_of_bytes(port_bytes(port)) == port,
{
}

/// Decoding two bytes and encoding the port gives the two bytes back, so the
/// wire form of a port is unique.
pub proof fn lemma_port_bytes_round_trip(bytes: Seq<u8>)
    requires
        bytes.len() == PORT_SIZE,
    ensures
        port_bytes(port_of_bytes(bytes)) == bytes,
{
    assert(port_bytes(port_of_bytes(bytes)) =~= bytes);
}

/// Putting the tag in front of a body and stripping it gives the body back.
pub proof fn lemma_header_round_trip(body: Seq<u8>)
    ensures
        has_header(with_header(body)),
        body_of(with_header(body)) == body,
{
    let msg = with_header(body);
    assert(msg.subrange(0, MAGIC_BYTES_SIZE as int) =~= magic_bytes());
    assert(body_of(msg) =~= body);
}

/// The heartbeat built for a port is well formed and advertises that port.
pub proof fn lemma_heartbeat_round_trip(port: u16)
    ensures
        is_heartbeat(heartbeat_payload(port)),
        advertised_port(heartbeat_payload(port)) == port,
{
    lemma_header_round_trip(port_bytes(port));
    lemma_port_round_trip(port);
}

/// A well-formed heartbeat is the one built for the port it advertises: no
/// two different datagrams advertise the same port.
pub proof fn lemma_heartbeat_is_canonical(msg: Seq<u8>)
    requires
        is_heartbeat(msg),
    ensures
        msg == heartbeat_payload(advertised_port(msg)),
{
    lemma_port_bytes_round_trip(body_of(msg));
    assert(msg =~= msg.subrange(0, MAGIC_BYTES_SIZE as int) + body_of(msg));
}

} // verus!
