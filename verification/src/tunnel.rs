//! The opening of a tunnel: the destination's address frame, sent encrypted
//! ahead of the payload by the side that dials, and read by the side that
//! listens before it connects anywhere.

use crate::address::{
    address_poll, frame_need, within_frame, Address, AddressReader, AddressView, TYPE_DOMAIN,
    TYPE_IPV4, TYPE_IPV6,
};
use crate::buf::{append, copy_range};
use crate::cipher::{handshake_outcome, seal, Cipher, CipherView, Handshake, HandshakeView};
use crate::error::{ProtocolError, RelayError};
use crate::event::{Direction, Event, Poll, PollView, Request, RequestView};
use vstd::prelude::*;
use vstd::slice::*;

verus! {

/// The state of reading the address frame from the tunnel.
#[derive(Debug)]
pub struct AddrInfo {
    reader: AddressReader,
    raw: Vec<u8>,
}

/// The mathematical value of an [`AddrInfo`].
pub struct AddrInfoView {
    /// The decrypted bytes of the frame that have arrived.
    pub clear: Seq<u8>,
    /// Bytes that were read and are not decrypted yet.
    pub raw: Seq<u8>,
}

impl AddrInfoView {
    /// No byte is read beyond the frame.
    pub open spec fn wf(self) -> bool {
        &&& within_frame(self.clear)
        &&& self.raw.len() <= frame_need(self.clear)
    }

    /// Where the reading stands: the request that is open, or the outcome.
    /// The peer's IV comes first, then the frame, piece by piece, each piece
    /// decrypted before the next is asked for.
    pub open spec fn poll(self, c: CipherView) -> PollView<AddressView> {
        match c.handshake_request(Direction::Decrypt) {
            Some(request) => PollView::Pending(request),
            None => if self.raw.len() > 0 {
                PollView::Pending(RequestView::Decrypt(self.raw))
            } else {
                address_poll(self.clear)
            },
        }
    }

    /// Whether `event` answers the request that is open once the decryptor is
    /// set up.
    pub open spec fn accepts(self, event: Event) -> bool {
        match event {
            Event::Read(bytes) => self.raw.len() == 0 && 0 < bytes@.len() <= frame_need(
                self.clear,
            ),
            Event::Transformed(bytes) => self.raw.len() > 0 && bytes@.len() == self.raw.len(),
            _ => false,
        }
    }

    /// The stream ended inside the frame.
    pub open spec fn starved(self, event: Event) -> bool {
        &&& self.raw.len() == 0
        &&& frame_need(self.clear) > 0
        &&& event matches Event::Read(bytes)
        &&& bytes@.len() == 0
    }

    /// The state after `event`, once the decryptor is set up.
    pub open spec fn apply(self, event: Event) -> AddrInfoView {
        if self.accepts(event) {
            match event {
                Event::Read(bytes) => AddrInfoView { raw: bytes@, ..self },
                Event::Transformed(bytes) => AddrInfoView {
                    clear: self.clear + bytes@,
                    raw: Seq::empty(),
                },
                _ => self,
            }
        } else {
            self
        }
    }
}

/// One step of reading the address frame: the state and the cipher after
/// `event`, and what [`get_addr_info`] returns.
pub open spec fn addr_info_step(v: AddrInfoView, c: CipherView, event: Event) -> (
    AddrInfoView,
    CipherView,
    PollView<AddressView>,
) {
    if !c.ready(Direction::Decrypt) {
        match handshake_outcome(c, Direction::Decrypt, event) {
            HandshakeView::Failed(e) => (v, c, PollView::Failed(e)),
            _ => {
                let c2 = c.handshake_apply(Direction::Decrypt, event);
                (v, c2, v.poll(c2))
            },
        }
    } else if v.starved(event) {
        (v, c, PollView::Failed(RelayError::UnexpectedEof))
    } else {
        (v.apply(event), c, v.apply(event).poll(c))
    }
}

/// An unknown tag is refused as soon as it is decrypted: the reading fails on
/// that one byte and asks for no other.
pub proof fn lemma_unknown_tag_ends_reading(c: CipherView, tag: Vec<u8>)
    requires
        c.ready(Direction::Decrypt),
        tag@.len() == 1,
        tag@[0] != TYPE_IPV4,
        tag@[0] != TYPE_DOMAIN,
        tag@[0] != TYPE_IPV6,
    ensures
        ({
            let v = AddrInfoView { clear: Seq::empty(), raw: tag@ };
            let (v2, c2, r) = addr_info_step(v, c, Event::Transformed(tag));
            &&& v2.clear == tag@
            &&& v2.raw.len() == 0
            &&& r == PollView::<AddressView>::Failed(
                RelayError::Protocol(ProtocolError::UnknownAddressType),
            )
        }),
{
    let v = AddrInfoView { clear: Seq::empty(), raw: tag@ };
    assert(v.apply(Event::Transformed(tag)).clear =~= tag@);
}

impl View for AddrInfo {
    type V = AddrInfoView;

    closed spec fn view(&self) -> AddrInfoView {
        AddrInfoView { clear: self.reader@, raw: self.raw@ }
    }
}

impl AddrInfo {
    /// The state before any byte of the tunnel is read.
    pub fn new() -> (state: AddrInfo)
        ensures
            state@ == (AddrInfoView { clear: Seq::empty(), raw: Seq::empty() }),
            state@.wf(),
    {
        AddrInfo { reader: AddressReader::new(), raw: Vec::new() }
    }
}

/// Reads the destination that the peer asks for: first the peer's IV, then the
/// address frame, decrypted piece by piece, and not one byte more.
///
/// Call it with [`Event::Resume`] to begin, carry out the request it returns,
/// and call it again with the answer, until it is ready or has failed. The end
/// of the stream before the frame is complete is an error, and so are an
/// unknown tag, seen as soon as the tag is decrypted, and a name that is not
/// UTF-8.
pub fn get_addr_info(state: &mut AddrInfo, cipher: &mut Cipher, event: Event) -> (r: Poll<
    Address,
>)
    requires
        old(state)@.wf(),
        old(cipher)@.wf(),
    ensures
        final(state)@.wf(),
        final(cipher)@.wf(),
        (final(state)@, final(cipher)@, r@) == addr_info_step(old(state)@, old(cipher)@, event),
{
    match cipher.handshake(Direction::Decrypt, &event) {
        Handshake::Failed(e) => {
            return Poll::Failed(e);
        },
        Handshake::Pending(request) => {
            return Poll::Pending(request);
        },
        Handshake::Completed => {
            return state.poll();
        },
        Handshake::Settled => {},
    }
    match event {
        Event::Read(bytes) => {
            if state.raw.len() == 0 {
                let need: usize = state.reader.need();
                if bytes.len() == 0 {
                    if need > 0 {
                        return Poll::Failed(RelayError::UnexpectedEof);
                    }
                } else if bytes.len() <= need {
                    state.raw = bytes;
                }
            }
        },
        Event::Transformed(bytes) => {
            if state.raw.len() > 0 && bytes.len() == state.raw.len() {
                let _ = state.reader.push(bytes.as_slice());
                state.raw = Vec::new();
            }
        },
        _ => {},
    }
    state.poll()
}

impl AddrInfo {
    /// What becomes of the reading when the connection's deadline has passed:
    /// a frame that is complete and decrypted by then counts, anything less is
    /// a timeout.
    pub fn deadline_elapsed(&self) -> (r: Poll<Address>)
        requires
            self@.wf(),
        ensures
            r@ == if self@.raw.len() == 0 && frame_need(self@.clear) == 0 {
                address_poll(self@.clear)
            } else {
                PollView::Failed(RelayError::RelayTimeout)
            },
    {
        if self.raw.len() == 0 && self.reader.need() == 0 {
            self.reader.poll()
        } else {
            Poll::Failed(RelayError::RelayTimeout)
        }
    }

    /// Where the reading stands once the decryptor is set up.
    fn poll(&self) -> (r: Poll<Address>)
        requires
            self@.wf(),
        ensures
            r@ == if self@.raw.len() > 0 {
                PollView::Pending(RequestView::Decrypt(self@.raw))
            } else {
                address_poll(self@.clear)
            },
    {
        if self.raw.len() > 0 {
            assert(self.raw@.subrange(0, self.raw@.len() as int) == self.raw@);
            Poll::Pending(Request::Decrypt(copy_range(self.raw.as_slice(), 0, self.raw.len())))
        } else {
            self.reader.poll()
        }
    }
}

/// The state of sending one message through the cipher, all of it.
#[derive(Debug)]
pub struct WriteAll {
    data: Vec<u8>,
    wire: Vec<u8>,
    prefix_len: usize,
    sealed: bool,
    written: usize,
}

/// The mathematical value of a [`WriteAll`].
pub struct WriteAllView {
    /// The message.
    pub data: Seq<u8>,
    /// The IV that goes ahead of the message; empty if the encryptor was set
    /// up before.
    pub prefix: Seq<u8>,
    /// The message as the cipher handed it back; empty until it has.
    pub body: Seq<u8>,
    /// The cipher has handed the message back.
    pub sealed: bool,
    /// How many bytes the destination has taken.
    pub written: nat,
}

impl WriteAllView {
    /// The state in which nothing of `data` has been sent.
    pub open spec fn start(data: Seq<u8>) -> WriteAllView {
        WriteAllView { data, prefix: Seq::empty(), body: Seq::empty(), sealed: false, written: 0 }
    }

    /// The bytes that go on the wire.
    pub open spec fn wire(self) -> Seq<u8> {
        seal(self.prefix, self.body)
    }

    /// Nothing is written before the cipher has handed the message back, and
    /// it hands back as many bytes as the message has.
    pub open spec fn wf(self) -> bool {
        &&& self.written <= self.wire().len()
        &&& !self.sealed ==> self.body.len() == 0 && self.written == 0
        &&& self.sealed ==> self.body.len() == self.data.len()
    }

    /// Where the sending stands once the encryptor is set up: the message has
    /// to be encrypted, then written until nothing is left.
    pub open spec fn poll(self) -> PollView<usize> {
        if !self.sealed {
            PollView::Pending(RequestView::Encrypt(self.data))
        } else if self.written < self.wire().len() {
            PollView::Pending(
                RequestView::Write(
                    self.wire().subrange(self.written as int, self.wire().len() as int),
                ),
            )
        } else {
            PollView::Ready(self.wire().len() as usize)
        }
    }

    /// Whether `event` answers the open request.
    pub open spec fn accepts(self, event: Event) -> bool {
        match event {
            Event::Transformed(bytes) => !self.sealed && bytes@.len() == self.data.len(),
            Event::Written(n) => self.sealed && 0 < n <= self.wire().len() - self.written,
            _ => false,
        }
    }

    /// The destination took nothing of a write that offered something.
    pub open spec fn stalled(self, event: Event) -> bool {
        &&& self.sealed
        &&& self.written < self.wire().len()
        &&& event matches Event::Written(n)
        &&& n == 0
    }

    /// The state after `event`, once the encryptor is set up.
    pub open spec fn apply(self, event: Event) -> WriteAllView {
        if self.accepts(event) {
            match event {
                Event::Transformed(bytes) => WriteAllView { body: bytes@, sealed: true, ..self },
                Event::Written(n) => WriteAllView { written: self.written + n as nat, ..self },
                _ => self,
            }
        } else {
            self
        }
    }
}

/// What has been sent belongs to a cipher that is set up; the IV that goes
/// ahead, if any, is that cipher's.
pub open spec fn write_all_attached(v: WriteAllView, c: CipherView) -> bool {
    &&& c.ready(Direction::Encrypt) || v == WriteAllView::start(v.data)
    &&& v.prefix.len() > 0 ==> c.enc_iv == Some(v.prefix)
}

/// One step of sending a message: the state and the cipher after `event`, and
/// what [`WriteAll::poll`] returns. If the encryptor is set up by this
/// sending, its IV goes out first.
pub open spec fn write_all_step(v: WriteAllView, c: CipherView, event: Event) -> (
    WriteAllView,
    CipherView,
    PollView<usize>,
) {
    if !c.ready(Direction::Encrypt) {
        let c2 = c.handshake_apply(Direction::Encrypt, event);
        match handshake_outcome(c, Direction::Encrypt, event) {
            HandshakeView::Failed(e) => (v, c, PollView::Failed(e)),
            HandshakeView::Pending(request) => (v, c2, PollView::Pending(request)),
            _ => {
                let v2 = WriteAllView { prefix: c2.enc_iv->0, ..v };
                (v2, c2, v2.poll())
            },
        }
    } else if v.stalled(event) {
        (v, c, PollView::Failed(RelayError::WriteZero))
    } else {
        (v.apply(event), c, v.apply(event).poll())
    }
}

impl View for WriteAll {
    type V = WriteAllView;

    closed spec fn view(&self) -> WriteAllView {
        WriteAllView {
            data: self.data@,
            prefix: self.wire@.subrange(0, self.prefix_len as int),
            body: self.wire@.subrange(self.prefix_len as int, self.wire@.len() as int),
            sealed: self.sealed,
            written: self.written as nat,
        }
    }
}

/// Begins the sending of `data`: the bytes will go out encrypted, behind the
/// IV if the encryptor is not set up yet, and all of them.
pub fn write_all(data: Vec<u8>) -> (state: WriteAll)
    ensures
        state.wf(),
        state@ == WriteAllView::start(data@),
{
    let state = WriteAll { data, wire: Vec::new(), prefix_len: 0, sealed: false, written: 0 };
    assert(state@.prefix =~= Seq::<u8>::empty());
    assert(state@.body =~= Seq::<u8>::empty());
    state
}

impl WriteAll {
    /// The cursors lie in the staged bytes, and the value is well formed.
    pub closed spec fn wf(&self) -> bool {
        &&& self.prefix_len <= self.wire@.len()
        &&& self@.wf()
    }

    /// Where the sending stands once the encryptor is set up.
    fn status(&self) -> (r: Poll<usize>)
        requires
            self.wf(),
        ensures
            r@ == self@.poll(),
    {
        assert(self@.wire() =~= self.wire@);
        if !self.sealed {
            assert(self.data@.subrange(0, self.data@.len() as int) == self.data@);
            Poll::Pending(Request::Encrypt(copy_range(self.data.as_slice(), 0, self.data.len())))
        } else if self.written < self.wire.len() {
            Poll::Pending(
                Request::Write(copy_range(self.wire.as_slice(), self.written, self.wire.len())),
            )
        } else {
            Poll::Ready(self.wire.len())
        }
    }

    /// Moves the sending forward by `event`; see [`write_all_step`].
    ///
    /// Call it with [`Event::Resume`] to begin, carry out the request it
    /// returns, and call it again with the answer. It is ready, with the
    /// number of bytes put on the wire, when the destination has taken every
    /// byte; a write of which the destination takes nothing is an error.
    pub fn poll(&mut self, cipher: &mut Cipher, event: Event) -> (r: Poll<usize>)
        requires
            old(self).wf(),
            old(cipher)@.wf(),
            write_all_attached(old(self)@, old(cipher)@),
        ensures
            final(self).wf(),
            final(self)@.wf(),
            final(cipher)@.wf(),
            write_all_attached(final(self)@, final(cipher)@),
            (final(self)@, final(cipher)@, r@) == write_all_step(old(self)@, old(cipher)@, event),
            r matches Poll::Ready(n) ==> n == final(self)@.prefix.len() + final(self)@.data.len(),
    {
        match cipher.handshake(Direction::Encrypt, &event) {
            Handshake::Failed(e) => {
                return Poll::Failed(e);
            },
            Handshake::Pending(request) => {
                return Poll::Pending(request);
            },
            Handshake::Completed => {
                match cipher.encrypt_iv() {
                    Some(iv) => {
                        self.prefix_len = iv.len();
                        self.wire = iv;
                        assert(self@.prefix =~= iv@);
                        assert(self@.body =~= Seq::<u8>::empty());
                    },
                    None => {},
                }
                return self.status();
            },
            Handshake::Settled => {},
        }
        let ghost before = self@;
        assert(before.wire() =~= self.wire@);
        match event {
            Event::Transformed(bytes) => {
                if !self.sealed && bytes.len() == self.data.len() {
                    append(&mut self.wire, bytes.as_slice());
                    self.sealed = true;
                    assert(self@.prefix =~= before.prefix);
                    assert(self@.body =~= bytes@);
                }
            },
            Event::Written(n) => {
                if self.sealed && self.written < self.wire.len() {
                    if n == 0 {
                        return Poll::Failed(RelayError::WriteZero);
                    } else if n <= self.wire.len() - self.written {
                        self.written = self.written + n;
                    }
                }
            },
            _ => {},
        }
        assert(self@ == before.apply(event));
        self.status()
    }
}

/// When a message has been sent, the wire holds the IV, if this sending set
/// the encryptor up, and then exactly as many bytes as the message has: the
/// destination has taken all of them.
pub proof fn lemma_write_all_ready(v: WriteAllView)
    requires
        v.wf(),
        v.poll() is Ready,
    ensures
        v.written == v.wire().len(),
        v.wire() == seal(v.prefix, v.body),
        v.wire().len() == v.prefix.len() + v.data.len(),
{
}

} // verus!
