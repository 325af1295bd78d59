//! The wire format of a destination address.
//!
//! A frame starts with a tag byte. Tag 1 is followed by the four bytes of an
//! IPv4 address, tag 4 by the sixteen bytes of an IPv6 address, tag 3 by one
//! length byte and that many bytes of a UTF-8 domain name. Every frame ends
//! with the port, high byte first. Nothing separates a frame from what follows.

use crate::buf::{append, copy_range};
use crate::error::{ProtocolError, RelayError};
use crate::event::{Poll, PollView, Request, RequestView};
use vstd::array::*;
use vstd::prelude::*;
use vstd::slice::*;
use vstd::string::*;
use vstd::utf8::*;

verus! {

/// Tag of an IPv4 frame.
pub const TYPE_IPV4: u8 = 1;

/// Tag of a domain name frame.
pub const TYPE_DOMAIN: u8 = 3;

/// Tag of an IPv6 frame.
pub const TYPE_IPV6: u8 = 4;

/// The longest domain name, in bytes, that a frame can carry.
pub const MAX_DOMAIN_LEN: usize = 255;

/// The seconds that a client is given to name its destination.
pub const HANDSHAKE_TIMEOUT_SECS: u64 = 3;

/// A destination: where the far end of the tunnel is asked to connect.
#[derive(Clone, Debug, PartialEq, Eq)]
#[allow(inconsistent_fields)]
pub enum Address {
    V4 { octets: [u8; 4], port: u16 },
    V6 { octets: [u8; 16], port: u16 },
    Domain { name: String, port: u16 },
}

/// The mathematical value of an [`Address`].
pub enum AddressView {
    V4 { octets: Seq<u8>, port: u16 },
    V6 { octets: Seq<u8>, port: u16 },
    Domain { name: Seq<char>, port: u16 },
}

impl View for Address {
    type V = AddressView;

    open spec fn view(&self) -> AddressView {
        match *self {
            Address::V4 { octets, port } => AddressView::V4 { octets: octets@, port },
            Address::V6 { octets, port } => AddressView::V6 { octets: octets@, port },
            Address::Domain { name, port } => AddressView::Domain { name: name@, port },
        }
    }
}

impl Address {
    /// The address of the host `name`, if the name is short enough for a frame.
    pub fn domain(name: String, port: u16) -> (r: Result<Address, ProtocolError>)
        ensures
            encode_utf8(name@).len() <= MAX_DOMAIN_LEN ==> r == Ok::<Address, ProtocolError>(
                Address::Domain { name, port },
            ),
            encode_utf8(name@).len() > MAX_DOMAIN_LEN ==> r == Err::<Address, ProtocolError>(
                ProtocolError::HostnameTooLong,
            ),
    {
        if name.as_str().as_bytes().len() > MAX_DOMAIN_LEN {
            Err(ProtocolError::HostnameTooLong)
        } else {
            Ok(Address::Domain { name, port })
        }
    }

    /// The port of the destination.
    pub fn port(&self) -> (p: u16)
        ensures
            p == self@.port(),
    {
        match self {
            Address::V4 { port, .. } => *port,
            Address::V6 { port, .. } => *port,
            Address::Domain { port, .. } => *port,
        }
    }
}

/// The two bytes of a port on the wire, high byte first.
pub open spec fn port_bytes(port: u16) -> Seq<u8> {
    seq![(port / 256) as u8, (port % 256) as u8]
}

/// The port that the two bytes `hi`, `lo` stand for.
pub open spec fn port_value(hi: u8, lo: u8) -> u16 {
    (hi as int * 256 + lo as int) as u16
}

impl AddressView {
    /// The port of the destination.
    pub open spec fn port(self) -> u16 {
        match self {
            AddressView::V4 { port, .. } => port,
            AddressView::V6 { port, .. } => port,
            AddressView::Domain { port, .. } => port,
        }
    }

    /// An address is well formed when its IP address has the length of its
    /// family and its domain name fits the frame's length byte.
    pub open spec fn wf(self) -> bool {
        match self {
            AddressView::V4 { octets, .. } => octets.len() == 4,
            AddressView::V6 { octets, .. } => octets.len() == 16,
            AddressView::Domain { name, .. } => encode_utf8(name).len() <= MAX_DOMAIN_LEN,
        }
    }

    /// The frame of a well-formed address.
    pub open spec fn encode(self) -> Seq<u8> {
        match self {
            AddressView::V4 { octets, port } => seq![TYPE_IPV4] + octets + port_bytes(port),
            AddressView::V6 { octets, port } => seq![TYPE_IPV6] + octets + port_bytes(port),
            AddressView::Domain { name, port } => seq![TYPE_DOMAIN, encode_utf8(name).len() as u8]
                + encode_utf8(name) + port_bytes(port),
        }
    }
}

/// How long the frame at the start of `bytes` is, as far as `bytes` tells:
/// `None` while the tag, or the length byte of a domain name, is still missing.
/// An unknown tag ends the frame at once.
pub open spec fn frame_len(bytes: Seq<u8>) -> Option<nat> {
    if bytes.len() == 0 {
        None
    } else if bytes[0] == TYPE_IPV4 {
        Some(7)
    } else if bytes[0] == TYPE_IPV6 {
        Some(19)
    } else if bytes[0] == TYPE_DOMAIN {
        if bytes.len() < 2 {
            None
        } else {
            Some((4 + bytes[1]) as nat)
        }
    } else {
        Some(1)
    }
}

/// What the frame at the start of `bytes` means: the address and the number of
/// bytes it takes, or the reason why there is none. Bytes after the frame are
/// not looked at. A frame that `bytes` holds only in part is an unexpected end;
/// of a complete frame the tag is judged first, then the name.
pub open spec fn decode_spec(bytes: Seq<u8>) -> Result<(AddressView, nat), RelayError> {
    match frame_len(bytes) {
        None => Err(RelayError::UnexpectedEof),
        Some(n) => if bytes[0] != TYPE_IPV4 && bytes[0] != TYPE_IPV6 && bytes[0] != TYPE_DOMAIN {
            Err(RelayError::Protocol(ProtocolError::UnknownAddressType))
        } else if bytes.len() < n {
            Err(RelayError::UnexpectedEof)
        } else {
            let port = port_value(bytes[n - 2], bytes[n - 1]);
            if bytes[0] == TYPE_IPV4 {
                Ok((AddressView::V4 { octets: bytes.subrange(1, 5), port }, n))
            } else if bytes[0] == TYPE_IPV6 {
                Ok((AddressView::V6 { octets: bytes.subrange(1, 17), port }, n))
            } else if valid_utf8(bytes.subrange(2, n - 2)) {
                Ok((AddressView::Domain { name: decode_utf8(bytes.subrange(2, n - 2)), port }, n))
            } else {
                Err(RelayError::Protocol(ProtocolError::InvalidHostname))
            }
        },
    }
}

/// The mathematical value of what [`decode`] returns.
pub open spec fn decoded(r: Result<(Address, usize), RelayError>) -> Result<
    (AddressView, nat),
    RelayError,
> {
    match r {
        Ok((a, n)) => Ok((a@, n as nat)),
        Err(e) => Err(e),
    }
}

/// Decoding the frame of a well-formed address gives back that address and
/// the frame's length, whatever bytes follow the frame.
pub proof fn lemma_decode_encode(a: AddressView, rest: Seq<u8>)
    requires
        a.wf(),
    ensures
        decode_spec(a.encode() + rest) == Ok::<(AddressView, nat), RelayError>(
            (a, a.encode().len()),
        ),
{
    let frame = a.encode();
    let bytes = frame + rest;
    match a {
        AddressView::V4 { octets, port } => {
            assert(bytes.subrange(1, 5) =~= octets);
            lemma_port_bytes(port);
        },
        AddressView::V6 { octets, port } => {
            assert(bytes.subrange(1, 17) =~= octets);
            lemma_port_bytes(port);
        },
        AddressView::Domain { name, port } => {
            let raw = encode_utf8(name);
            let n = (4 + raw.len()) as nat;
            assert(bytes[1] == raw.len());
            assert(frame.len() == n);
            assert(bytes.subrange(2, n - 2) =~= raw);
            encode_utf8_valid_utf8(name);
            encode_utf8_decode_utf8(name);
            lemma_port_bytes(port);
        },
    }
}

/// Decoding the frame of a well-formed address gives back that address and
/// the frame's length.
pub proof fn lemma_round_trip(a: AddressView)
    requires
        a.wf(),
    ensures
        decode_spec(a.encode()) == Ok::<(AddressView, nat), RelayError>((a, a.encode().len())),
{
    lemma_decode_encode(a, Seq::empty());
    assert(a.encode() + Seq::<u8>::empty() =~= a.encode());
}

/// The length byte of a domain name frame is the length of the name, and the
/// name follows it unchanged.
pub proof fn lemma_domain_length_byte(name: Seq<char>, port: u16)
    requires
        (AddressView::Domain { name, port }).wf(),
    ensures
        (AddressView::Domain { name, port }).encode()[1] == encode_utf8(name).len(),
        (AddressView::Domain { name, port }).encode().len() == 4 + encode_utf8(name).len(),
        (AddressView::Domain { name, port }).encode().subrange(2, 2 + encode_utf8(name).len() as int)
            == encode_utf8(name),
{
    let raw = encode_utf8(name);
    let frame = (AddressView::Domain { name, port }).encode();
    assert(frame.subrange(2, 2 + raw.len() as int) =~= raw);
}

/// A frame whose tag is none of the three known tags is refused on the tag
/// alone: one byte decides, and what follows it plays no part.
pub proof fn lemma_unknown_tag(bytes: Seq<u8>)
    requires
        bytes.len() > 0,
        bytes[0] != TYPE_IPV4,
        bytes[0] != TYPE_DOMAIN,
        bytes[0] != TYPE_IPV6,
    ensures
        frame_len(bytes) == Some(1nat),
        decode_spec(bytes) == Err::<(AddressView, nat), RelayError>(
            RelayError::Protocol(ProtocolError::UnknownAddressType),
        ),
        decode_spec(bytes) == decode_spec(bytes.subrange(0, 1)),
{
}

/// The two bytes of a port stand for that port.
pub proof fn lemma_port_bytes(port: u16)
    ensures
        port_value(port_bytes(port)[0], port_bytes(port)[1]) == port,
{
}

/// The port that the bytes `hi`, `lo` stand for.
pub fn port_from_bytes(hi: u8, lo: u8) -> (port: u16)
    ensures
        port == port_value(hi, lo),
{
    let port: u16 = ((hi as u16) << 8) | (lo as u16);
    assert(((hi as u16) << 8) | (lo as u16) == (hi as u16) * 256 + (lo as u16)) by (bit_vector);
    port
}

/// The two bytes of `port`, high byte first.
pub fn port_to_bytes(port: u16) -> (bytes: [u8; 2])
    ensures
        bytes@ == port_bytes(port),
{
    let hi: u8 = ((port >> 8) & 0xff) as u8;
    let lo: u8 = (port & 0xff) as u8;
    assert((port >> 8) & 0xff == port / 256) by (bit_vector);
    assert(port & 0xff == port % 256) by (bit_vector);
    let bytes: [u8; 2] = [hi, lo];
    assert(bytes@ =~= port_bytes(port));
    bytes
}

/// Turns bytes into a `String` by `String::from_utf8`. The contract claims what
/// the standard library documents: the call succeeds exactly on UTF-8, and the
/// string then holds the bytes it was given.
#[verifier::external_body]
fn string_from_utf8(bytes: Vec<u8>) -> (r: Option<String>)
    ensures
        r is Some <==> valid_utf8(bytes@),
        r matches Some(s) ==> encode_utf8(s@) == bytes@,
{
    String::from_utf8(bytes).ok()
}

/// Encodes `addr` as a frame. A domain name of more than 255 bytes has no
/// frame and is refused; every other address is encoded.
pub fn generate_raw_addr(addr: &Address) -> (r: Result<Vec<u8>, ProtocolError>)
    ensures
        addr@.wf() ==> (r matches Ok(frame) && frame@ == addr@.encode()),
        !addr@.wf() ==> r == Err::<Vec<u8>, ProtocolError>(ProtocolError::HostnameTooLong),
{
    match addr {
        Address::V4 { octets, port } => {
            let mut rawaddr: Vec<u8> = Vec::new();
            rawaddr.push(TYPE_IPV4);
            append(&mut rawaddr, octets.as_slice());
            append(&mut rawaddr, port_to_bytes(*port).as_slice());
            assert(rawaddr@ =~= addr@.encode());
            Ok(rawaddr)
        },
        Address::V6 { octets, port } => {
            let mut rawaddr: Vec<u8> = Vec::new();
            rawaddr.push(TYPE_IPV6);
            append(&mut rawaddr, octets.as_slice());
            append(&mut rawaddr, port_to_bytes(*port).as_slice());
            assert(rawaddr@ =~= addr@.encode());
            Ok(rawaddr)
        },
        Address::Domain { name, port } => {
            let host: &[u8] = name.as_str().as_bytes();
            let dm_len: usize = host.len();
            if dm_len > MAX_DOMAIN_LEN {
                return Err(ProtocolError::HostnameTooLong);
            }
            let mut rawaddr: Vec<u8> = Vec::new();
            rawaddr.push(TYPE_DOMAIN);
            rawaddr.push(dm_len as u8);
            append(&mut rawaddr, host);
            append(&mut rawaddr, port_to_bytes(*port).as_slice());
            assert(rawaddr@ =~= addr@.encode());
            Ok(rawaddr)
        },
    }
}

/// Decodes the frame at the start of `bytes`.
pub fn decode(bytes: &[u8]) -> (r: Result<(Address, usize), RelayError>)
    ensures
        decoded(r) == decode_spec(bytes@),
{
    let len: usize = bytes.len();
    if len == 0 {
        return Err(RelayError::UnexpectedEof);
    }
    let tag: u8 = bytes[0];
    if tag == TYPE_IPV4 {
        if len < 7 {
            return Err(RelayError::UnexpectedEof);
        }
        let octets: [u8; 4] = [bytes[1], bytes[2], bytes[3], bytes[4]];
        let port: u16 = port_from_bytes(bytes[5], bytes[6]);
        assert(octets@ =~= bytes@.subrange(1, 5));
        Ok((Address::V4 { octets, port }, 7))
    } else if tag == TYPE_IPV6 {
        if len < 19 {
            return Err(RelayError::UnexpectedEof);
        }
        let octets: [u8; 16] = [
            bytes[1],
            bytes[2],
            bytes[3],
            bytes[4],
            bytes[5],
            bytes[6],
            bytes[7],
            bytes[8],
            bytes[9],
            bytes[10],
            bytes[11],
            bytes[12],
            bytes[13],
            bytes[14],
            bytes[15],
            bytes[16],
        ];
        let port: u16 = port_from_bytes(bytes[17], bytes[18]);
        assert(octets@ =~= bytes@.subrange(1, 17));
        Ok((Address::V6 { octets, port }, 19))
    } else if tag == TYPE_DOMAIN {
        if len < 2 {
            return Err(RelayError::UnexpectedEof);
        }
        let dm_len: usize = bytes[1] as usize;
        let end: usize = dm_len + 4;
        if len < end {
            return Err(RelayError::UnexpectedEof);
        }
        let hostname: Vec<u8> = copy_range(bytes, 2, end - 2);
        let port: u16 = port_from_bytes(bytes[end - 2], bytes[end - 1]);
        match string_from_utf8(hostname) {
            Some(name) => {
                proof {
                    encode_utf8_decode_utf8(name@);
                }
                Ok((Address::Domain { name, port }, end))
            },
            None => Err(RelayError::Protocol(ProtocolError::InvalidHostname)),
        }
    } else {
        Err(RelayError::Protocol(ProtocolError::UnknownAddressType))
    }
}

/// How many bytes are still missing before the next decision can be made on a
/// frame of which `bytes` have arrived: the tag, then the rest of an IP frame,
/// or the length byte and then the rest of a domain name frame.
pub open spec fn frame_need(bytes: Seq<u8>) -> nat {
    match frame_len(bytes) {
        None => 1,
        Some(n) => if bytes.len() < n {
            (n - bytes.len()) as nat
        } else {
            0
        },
    }
}

/// `bytes` do not reach beyond the frame that they begin.
pub open spec fn within_frame(bytes: Seq<u8>) -> bool {
    frame_len(bytes) matches Some(n) ==> bytes.len() <= n
}

/// Where the reading of a frame stands when `bytes` have arrived: more bytes
/// are needed, or the frame is complete and is decoded.
pub open spec fn address_poll(bytes: Seq<u8>) -> PollView<AddressView> {
    if frame_need(bytes) > 0 {
        PollView::Pending(RequestView::Read(frame_need(bytes)))
    } else {
        match decode_spec(bytes) {
            Ok((a, _)) => PollView::Ready(a),
            Err(e) => PollView::Failed(e),
        }
    }
}

/// A reader that is ready has read exactly one frame: its bytes decode to the
/// address it gives, and the frame is as long as what was read.
pub proof fn lemma_address_poll_exact(bytes: Seq<u8>)
    requires
        within_frame(bytes),
    ensures
        address_poll(bytes) matches PollView::Ready(a) ==> decode_spec(bytes) == Ok::<
            (AddressView, nat),
            RelayError,
        >((a, bytes.len())),
        address_poll(bytes) matches PollView::Failed(e) ==> decode_spec(bytes) == Err::<
            (AddressView, nat),
            RelayError,
        >(e) && e != RelayError::UnexpectedEof,
{
}

/// After an unknown tag the reader fails without asking for another byte.
pub proof fn lemma_unknown_tag_stops(bytes: Seq<u8>)
    requires
        bytes.len() == 1,
        bytes[0] != TYPE_IPV4,
        bytes[0] != TYPE_DOMAIN,
        bytes[0] != TYPE_IPV6,
    ensures
        frame_need(bytes) == 0,
        address_poll(bytes) == PollView::<AddressView>::Failed(
            RelayError::Protocol(ProtocolError::UnknownAddressType),
        ),
{
}

/// Reads one address frame from bytes that arrive in pieces, never asking for
/// a byte beyond the frame.
#[derive(Debug)]
pub struct AddressReader {
    collected: Vec<u8>,
}

impl View for AddressReader {
    type V = Seq<u8>;

    /// The bytes of the frame that have arrived.
    closed spec fn view(&self) -> Seq<u8> {
        self.collected@
    }
}

impl AddressReader {
    /// A reader that has seen no byte yet.
    pub fn new() -> (reader: AddressReader)
        ensures
            reader@ == Seq::<u8>::empty(),
            within_frame(reader@),
    {
        AddressReader { collected: Vec::new() }
    }

    /// How many bytes to read next; 0 once the frame is complete or refused.
    pub fn need(&self) -> (n: usize)
        requires
            within_frame(self@),
        ensures
            n == frame_need(self@),
    {
        let len: usize = self.collected.len();
        if len == 0 {
            return 1;
        }
        let tag: u8 = self.collected[0];
        let total: usize = if tag == TYPE_IPV4 {
            7
        } else if tag == TYPE_IPV6 {
            19
        } else if tag == TYPE_DOMAIN {
            if len < 2 {
                return 1;
            }
            self.collected[1] as usize + 4
        } else {
            1
        };
        if len < total {
            total - len
        } else {
            0
        }
    }

    /// Where the reading stands.
    pub fn poll(&self) -> (r: Poll<Address>)
        requires
            within_frame(self@),
        ensures
            r@ == address_poll(self@),
    {
        let need: usize = self.need();
        if need > 0 {
            Poll::Pending(Request::Read(need))
        } else {
            match decode(self.collected.as_slice()) {
                Ok((addr, _)) => Poll::Ready(addr),
                Err(e) => Poll::Failed(e),
            }
        }
    }

    /// What becomes of the reading when the time allowed for it has passed: a
    /// frame that is complete by then counts, and an incomplete one is a
    /// timeout.
    pub fn deadline_elapsed(&self) -> (r: Poll<Address>)
        requires
            within_frame(self@),
        ensures
            r@ == if frame_need(self@) > 0 {
                PollView::Failed(RelayError::HandshakeTimeout)
            } else {
                address_poll(self@)
            },
    {
        if self.need() > 0 {
            Poll::Failed(RelayError::HandshakeTimeout)
        } else {
            self.poll()
        }
    }

    /// Takes in the bytes that a read of at most [`need`](Self::need) bytes
    /// delivered. No bytes while some are needed mean that the stream ended
    /// inside the frame.
    pub fn push(&mut self, chunk: &[u8]) -> (r: Poll<Address>)
        requires
            within_frame(old(self)@),
            chunk@.len() <= frame_need(old(self)@),
        ensures
            within_frame(final(self)@),
            chunk@.len() == 0 && frame_need(old(self)@) > 0 ==> final(self)@ == old(self)@ && r@
                == PollView::<AddressView>::Failed(RelayError::UnexpectedEof),
            !(chunk@.len() == 0 && frame_need(old(self)@) > 0) ==> final(self)@ == old(self)@
                + chunk@ && r@ == address_poll(final(self)@),
    {
        if chunk.len() == 0 && self.need() > 0 {
            return Poll::Failed(RelayError::UnexpectedEof);
        }
        proof {
            lemma_within_frame_grows(self@, chunk@);
        }
        append(&mut self.collected, chunk);
        self.poll()
    }
}

/// Bytes that stay within what is needed stay within the frame.
pub proof fn lemma_within_frame_grows(bytes: Seq<u8>, chunk: Seq<u8>)
    requires
        within_frame(bytes),
        chunk.len() <= frame_need(bytes),
    ensures
        within_frame(bytes + chunk),
{
    let all = bytes + chunk;
    if bytes.len() > 0 {
        assert(all[0] == bytes[0]);
        if bytes.len() >= 2 {
            assert(all[1] == bytes[1]);
        }
    }
}

} // verus!
