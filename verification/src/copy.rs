//! The pump of one direction, and the engine that runs both.
//!
//! A pump fills its buffer from the source, has the cipher transform what it
//! read, drains the buffer into the destination, and flushes once the source
//! has ended and the buffer is empty. The engine runs one pump per direction,
//! closes a direction's destination when its pump is done, and is done itself
//! when both directions are.

use crate::buf::{copy_range, store};
use crate::cipher::{
    handshake_outcome, lemma_open_seal, seal, Cipher, CipherView, Handshake, HandshakeView,
};
use crate::error::RelayError;
use crate::event::{transform_request, Direction, Event, Poll, PollView, Request, RequestView};
use vstd::prelude::*;
use vstd::slice::*;

verus! {

/// The capacity of a pump's buffer, and so the most that one read asks for.
pub const BUFFER_SIZE: usize = 2048;

/// The buffer and the counters of one direction.
pub struct CopyBuffer {
    read_done: bool,
    pos: usize,
    cap: usize,
    amt: u64,
    buf: Vec<u8>,
    raw: bool,
    framing: bool,
    taken: Ghost<Seq<u8>>,
    given: Ghost<Seq<u8>>,
    sent: Ghost<Seq<u8>>,
    prefix: Ghost<Seq<u8>>,
}

/// The mathematical value of a [`CopyBuffer`]: what it holds, and what has
/// passed through it since it was made.
pub struct CopyBufferView {
    /// The source has ended.
    pub read_done: bool,
    /// The number of payload bytes that the destination has taken.
    pub amt: nat,
    /// The bytes in the buffer that the destination has not taken yet.
    pub window: Seq<u8>,
    /// The window is as the source delivered it: the cipher has not seen it.
    pub raw: bool,
    /// The window is the IV that goes ahead of the ciphertext.
    pub framing: bool,
    /// Every payload byte read from the source, in order.
    pub taken: Seq<u8>,
    /// Every byte that the cipher has handed back, in order.
    pub given: Seq<u8>,
    /// Every byte that the destination has taken, in order.
    pub sent: Seq<u8>,
    /// The IV that this pump sends ahead of the ciphertext; empty if it sends none.
    pub prefix: Seq<u8>,
}

impl CopyBufferView {
    /// A pump through which nothing has passed.
    pub open spec fn pristine() -> CopyBufferView {
        CopyBufferView {
            read_done: false,
            amt: 0,
            window: Seq::empty(),
            raw: false,
            framing: false,
            taken: Seq::empty(),
            given: Seq::empty(),
            sent: Seq::empty(),
            prefix: Seq::empty(),
        }
    }

    /// What holds of a pump at every moment.
    ///
    /// The destination receives the IV, if this pump sends one, and then what
    /// the cipher handed back, in that order and with nothing lost: what was
    /// sent and what waits in the window make up exactly that stream. The
    /// cipher is handed what the source delivered, in order, and hands back as
    /// many bytes as it was given. The counter counts the bytes sent after the IV.
    pub open spec fn wf(self) -> bool {
        &&& self.window.len() <= BUFFER_SIZE
        &&& self.amt <= u64::MAX
        &&& self.raw ==> {
            &&& self.window.len() > 0
            &&& !self.framing
            &&& self.sent == self.prefix + self.given
            &&& self.taken.len() == self.given.len() + self.window.len()
            &&& self.taken.subrange(self.given.len() as int, self.taken.len() as int)
                == self.window
        }
        &&& !self.raw ==> {
            &&& self.sent + self.window == self.prefix + self.given
            &&& self.taken.len() == self.given.len()
        }
        &&& self.framing ==> {
            &&& self.given.len() == 0
            &&& self.taken.len() == 0
            &&& self.amt == 0
        }
        &&& !self.framing ==> {
            &&& self.prefix.len() <= self.sent.len()
            &&& self.amt == self.sent.len() - self.prefix.len()
        }
        &&& self.read_done ==> self.window.len() == 0 && !self.raw
    }

    /// The source has ended and everything read from it has reached the destination.
    pub open spec fn drained(self) -> bool {
        self.read_done && self.window.len() == 0 && !self.raw
    }

    /// The request that is open once the cipher is set up: transform what was
    /// read, else write what is staged, else read more, else flush.
    pub open spec fn request(self, direction: Direction) -> RequestView {
        if self.raw {
            transform_request(direction, self.window)
        } else if self.window.len() > 0 {
            RequestView::Write(self.window)
        } else if !self.read_done {
            RequestView::Read(BUFFER_SIZE as nat)
        } else {
            RequestView::Flush
        }
    }

    /// Whether `event` answers the open request and moves the pump.
    pub open spec fn accepts(self, event: Event) -> bool {
        match event {
            Event::Transformed(bytes) => self.raw && bytes@.len() == self.window.len(),
            Event::Written(n) => !self.raw && 0 < n <= self.window.len(),
            Event::Read(bytes) => !self.raw && self.window.len() == 0 && !self.read_done
                && bytes@.len() <= BUFFER_SIZE,
            _ => false,
        }
    }

    /// The destination took nothing of a write that offered something.
    pub open spec fn stalled(self, event: Event) -> bool {
        &&& !self.raw
        &&& self.window.len() > 0
        &&& event matches Event::Written(n)
        &&& n == 0
    }

    /// The flush that ends the pump's work has been done.
    pub open spec fn completes(self, event: Event) -> bool {
        &&& self.drained()
        &&& event is Flushed
    }

    /// The pump after an event that it accepts; the same pump after any other.
    pub open spec fn apply(self, event: Event) -> CopyBufferView {
        if self.accepts(event) {
            match event {
                Event::Transformed(bytes) => CopyBufferView {
                    window: bytes@,
                    raw: false,
                    given: self.given + bytes@,
                    ..self
                },
                Event::Written(n) => CopyBufferView {
                    window: self.window.subrange(n as int, self.window.len() as int),
                    sent: self.sent + self.window.subrange(0, n as int),
                    amt: if self.framing {
                        self.amt
                    } else {
                        self.amt + n as nat
                    },
                    ..self
                },
                Event::Read(bytes) => if bytes@.len() == 0 {
                    CopyBufferView { read_done: true, ..self }
                } else {
                    CopyBufferView {
                        window: bytes@,
                        raw: true,
                        framing: false,
                        taken: self.taken + bytes@,
                        ..self
                    }
                },
                _ => self,
            }
        } else {
            self
        }
    }

    /// The pump that has staged `iv` to go out ahead of everything else.
    pub open spec fn stage_iv(self, iv: Seq<u8>) -> CopyBufferView {
        CopyBufferView { window: iv, framing: true, prefix: iv, ..self }
    }

    /// The counter will not overflow on `event`.
    pub open spec fn fits(self, event: Event) -> bool {
        event matches Event::Written(n) ==> self.amt + n <= u64::MAX
    }
}

/// A pump that has begun its work has a cipher that is set up for it. Only
/// the pump that encrypts ever sends an IV, and then it is its cipher's.
pub open spec fn attached(v: CopyBufferView, c: CipherView, direction: Direction) -> bool {
    &&& c.ready(direction) || v == CopyBufferView::pristine()
    &&& match direction {
        Direction::Encrypt => v.prefix.len() > 0 ==> c.enc_iv == Some(v.prefix),
        Direction::Decrypt => v.prefix.len() == 0 && !v.framing,
    }
}

/// One step of a pump: the pump and the cipher after `event`, and what the
/// pump returns.
///
/// Until the cipher is set up for the direction, the event belongs to the
/// handshake; the side that encrypts then stages its IV as the first bytes to
/// go out. After that a write of nothing is fatal, the flush of a drained pump
/// completes it with its count, and any other event is applied if it answers
/// the open request.
pub open spec fn pump_step(v: CopyBufferView, c: CipherView, direction: Direction, event: Event)
    -> (CopyBufferView, CipherView, PollView<u64>) {
    if !c.ready(direction) {
        let c2 = c.handshake_apply(direction, event);
        match handshake_outcome(c, direction, event) {
            HandshakeView::Failed(e) => (v, c, PollView::Failed(e)),
            HandshakeView::Pending(request) => (v, c2, PollView::Pending(request)),
            _ => {
                let v2 = match direction {
                    Direction::Encrypt => v.stage_iv(c2.enc_iv->0),
                    Direction::Decrypt => v,
                };
                (v2, c2, PollView::Pending(v2.request(direction)))
            },
        }
    } else if v.stalled(event) {
        (v, c, PollView::Failed(RelayError::WriteZero))
    } else if v.completes(event) {
        (v, c, PollView::Ready(v.amt as u64))
    } else {
        (v.apply(event), c, PollView::Pending(v.apply(event).request(direction)))
    }
}

/// A step keeps a pump well formed and attached to its cipher.
pub proof fn lemma_pump_step_wf(
    v: CopyBufferView,
    c: CipherView,
    direction: Direction,
    event: Event,
)
    requires
        v.wf(),
        c.wf(),
        c.iv_len <= BUFFER_SIZE,
        attached(v, c, direction),
        v.fits(event),
    ensures
        pump_step(v, c, direction, event).0.wf(),
        pump_step(v, c, direction, event).1.wf(),
        pump_step(v, c, direction, event).1.iv_len == c.iv_len,
        attached(
            pump_step(v, c, direction, event).0,
            pump_step(v, c, direction, event).1,
            direction,
        ),
{
    let (v2, c2, r) = pump_step(v, c, direction, event);
    if !c.ready(direction) {
        assert(v == CopyBufferView::pristine());
        match handshake_outcome(c, direction, event) {
            HandshakeView::Completed => {
                if direction == Direction::Encrypt {
                    let iv = c2.enc_iv->0;
                    assert(v2.sent + v2.window =~= v2.prefix + v2.given);
                }
            },
            _ => {},
        }
    } else if v.stalled(event) {
    } else if v.completes(event) {
    } else if v.accepts(event) {
        match event {
            Event::Transformed(bytes) => {
                assert(v2.sent + v2.window =~= v2.prefix + v2.given);
            },
            Event::Written(n) => {
                assert(v2.sent + v2.window =~= v.sent + v.window);
                if v.framing {
                    assert(v.sent.len() + v.window.len() == v.prefix.len());
                } else {
                    assert(v.sent.len() + v.window.len() == v.prefix.len() + v.given.len());
                }
            },
            Event::Read(bytes) => {
                if bytes@.len() > 0 {
                    assert(v.sent =~= v.sent + v.window);
                    assert(v2.taken.subrange(v2.given.len() as int, v2.taken.len() as int)
                        =~= bytes@);
                    assert(v.sent.len() == v.prefix.len() + v.given.len());
                }
            },
            _ => {},
        }
    }
}

impl View for CopyBuffer {
    type V = CopyBufferView;

    closed spec fn view(&self) -> CopyBufferView {
        CopyBufferView {
            read_done: self.read_done,
            amt: self.amt as nat,
            window: self.buf@.subrange(self.pos as int, self.cap as int),
            raw: self.raw,
            framing: self.framing,
            taken: self.taken@,
            given: self.given@,
            sent: self.sent@,
            prefix: self.prefix@,
        }
    }
}

impl CopyBuffer {
    /// The buffer is of the fixed capacity, the cursors lie in it in order,
    /// and the value is well formed.
    pub closed spec fn wf(&self) -> bool {
        &&& self.buf@.len() == BUFFER_SIZE
        &&& self.pos <= self.cap <= BUFFER_SIZE
        &&& self.raw ==> self.pos == 0
        &&& self@.wf()
    }

    /// A pump through which nothing has passed yet.
    pub fn new() -> (pump: CopyBuffer)
        ensures
            pump.wf(),
            pump@ == CopyBufferView::pristine(),
    {
        let pump = CopyBuffer {
            read_done: false,
            amt: 0,
            pos: 0,
            cap: 0,
            buf: vec![0u8; BUFFER_SIZE],
            raw: false,
            framing: false,
            taken: Ghost(Seq::empty()),
            given: Ghost(Seq::empty()),
            sent: Ghost(Seq::empty()),
            prefix: Ghost(Seq::empty()),
        };
        assert(pump@.window =~= Seq::<u8>::empty());
        assert(pump@.sent + pump@.window =~= pump@.prefix + pump@.given);
        pump
    }

    /// The number of payload bytes that the destination has taken so far.
    pub fn transferred(&self) -> (n: u64)
        ensures
            n == self@.amt,
    {
        self.amt
    }

    /// Whether the source has ended.
    pub fn is_read_done(&self) -> (b: bool)
        ensures
            b == self@.read_done,
    {
        self.read_done
    }

    /// The number of bytes in the buffer that the destination has not taken yet.
    pub fn buffered(&self) -> (n: usize)
        requires
            self.wf(),
        ensures
            n == self@.window.len(),
    {
        self.cap - self.pos
    }

    /// The request that is open once the cipher is set up.
    fn request(&self, direction: Direction) -> (r: Request)
        requires
            self.wf(),
        ensures
            r@ == self@.request(direction),
    {
        if self.raw {
            let chunk: Vec<u8> = copy_range(self.buf.as_slice(), 0, self.cap);
            match direction {
                Direction::Encrypt => Request::Encrypt(chunk),
                Direction::Decrypt => Request::Decrypt(chunk),
            }
        } else if self.pos < self.cap {
            Request::Write(copy_range(self.buf.as_slice(), self.pos, self.cap))
        } else if !self.read_done {
            Request::Read(BUFFER_SIZE)
        } else {
            Request::Flush
        }
    }

    /// Puts `bytes` into the buffer as its whole content.
    fn fill(&mut self, bytes: &[u8])
        requires
            old(self).buf@.len() == BUFFER_SIZE,
            bytes@.len() <= BUFFER_SIZE,
        ensures
            final(self).buf@.len() == BUFFER_SIZE,
            final(self).pos == 0,
            final(self).cap == bytes@.len(),
            final(self).buf@.subrange(0, bytes@.len() as int) == bytes@,
            final(self).read_done == old(self).read_done,
            final(self).amt == old(self).amt,
            final(self).raw == old(self).raw,
            final(self).framing == old(self).framing,
            final(self).taken == old(self).taken,
            final(self).given == old(self).given,
            final(self).sent == old(self).sent,
            final(self).prefix == old(self).prefix,
    {
        store(&mut self.buf, bytes);
        self.pos = 0;
        self.cap = bytes.len();
    }

    /// Moves one direction forward by `event`; see [`pump_step`].
    ///
    /// Call it with [`Event::Resume`] to begin, carry out the request it
    /// returns, and call it again with the answer. It is ready, with the number
    /// of payload bytes that the destination took, once the source has ended,
    /// the buffer is empty and the destination is flushed. When it is ready,
    /// that number is the length of all that was read from the source.
    pub fn poll_copy(&mut self, cipher: &mut Cipher, direction: Direction, event: Event) -> (r:
        Poll<u64>)
        requires
            old(self).wf(),
            old(cipher)@.wf(),
            old(cipher)@.iv_len <= BUFFER_SIZE,
            attached(old(self)@, old(cipher)@, direction),
            old(self)@.fits(event),
        ensures
            final(self).wf(),
            final(self)@.wf(),
            final(cipher)@.wf(),
            final(cipher)@.iv_len == old(cipher)@.iv_len,
            attached(final(self)@, final(cipher)@, direction),
            (final(self)@, final(cipher)@, r@) == pump_step(
                old(self)@,
                old(cipher)@,
                direction,
                event,
            ),
            r matches Poll::Ready(n) ==> n == final(self)@.taken.len() && final(self)@.drained(),
    {
        proof {
            lemma_pump_step_wf(self@, cipher@, direction, event);
        }
        match cipher.handshake(direction, &event) {
            Handshake::Failed(e) => {
                return Poll::Failed(e);
            },
            Handshake::Pending(request) => {
                return Poll::Pending(request);
            },
            Handshake::Completed => {
                match direction {
                    Direction::Encrypt => {
                        match cipher.encrypt_iv() {
                            Some(iv) => {
                                self.fill(iv.as_slice());
                                self.framing = true;
                                self.prefix = Ghost(iv@);
                                assert(self@.window =~= iv@);
                            },
                            None => {},
                        }
                    },
                    Direction::Decrypt => {},
                }
                return Poll::Pending(self.request(direction));
            },
            Handshake::Settled => {},
        }
        let ghost before = self@;
        if self.raw {
            match event {
                Event::Transformed(bytes) => {
                    if bytes.len() == self.cap {
                        self.fill(bytes.as_slice());
                        self.raw = false;
                        self.given = Ghost(self.given@ + bytes@);
                        assert(self@.window =~= bytes@);
                    }
                },
                _ => {},
            }
        } else if self.pos < self.cap {
            match event {
                Event::Written(i) => {
                    if i == 0 {
                        return Poll::Failed(RelayError::WriteZero);
                    } else if i <= self.cap - self.pos {
                        self.sent = Ghost(self.sent@ + before.window.subrange(0, i as int));
                        self.pos = self.pos + i;
                        if !self.framing {
                            self.amt = self.amt + i as u64;
                        }
                        assert(self@.window =~= before.window.subrange(
                            i as int,
                            before.window.len() as int,
                        ));
                    }
                },
                _ => {},
            }
        } else if !self.read_done {
            match event {
                Event::Read(bytes) => {
                    let n: usize = bytes.len();
                    if n == 0 {
                        self.read_done = true;
                    } else if n <= BUFFER_SIZE {
                        self.fill(bytes.as_slice());
                        self.raw = true;
                        self.framing = false;
                        self.taken = Ghost(self.taken@ + bytes@);
                        assert(self@.window =~= bytes@);
                    }
                },
                _ => {},
            }
        } else {
            match event {
                Event::Flushed => {
                    assert(self@.sent + self@.window =~= self@.sent);
                    return Poll::Ready(self.amt);
                },
                _ => {},
            }
        }
        assert(self@ == before.apply(event));
        Poll::Pending(self.request(direction))
    }

    /// Moves the flow that is encrypted forward by `event`: on first use the
    /// encryptor is set up and its IV goes out ahead of the first ciphertext.
    pub fn poll_encrypt(&mut self, cipher: &mut Cipher, event: Event) -> (r: Poll<u64>)
        requires
            old(self).wf(),
            old(cipher)@.wf(),
            old(cipher)@.iv_len <= BUFFER_SIZE,
            attached(old(self)@, old(cipher)@, Direction::Encrypt),
            old(self)@.fits(event),
        ensures
            final(self).wf(),
            final(self)@.wf(),
            final(cipher)@.wf(),
            final(cipher)@.iv_len == old(cipher)@.iv_len,
            attached(final(self)@, final(cipher)@, Direction::Encrypt),
            (final(self)@, final(cipher)@, r@) == pump_step(
                old(self)@,
                old(cipher)@,
                Direction::Encrypt,
                event,
            ),
            r matches Poll::Ready(n) ==> n == final(self)@.taken.len() && final(self)@.drained(),
    {
        self.poll_copy(cipher, Direction::Encrypt, event)
    }

    /// Moves the flow that is decrypted forward by `event`: on first use the
    /// first `iv_len` bytes of the source are taken as the peer's IV, and the
    /// decryptor is set up from them before any payload is read.
    pub fn poll_decrypt(&mut self, cipher: &mut Cipher, event: Event) -> (r: Poll<u64>)
        requires
            old(self).wf(),
            old(cipher)@.wf(),
            old(cipher)@.iv_len <= BUFFER_SIZE,
            attached(old(self)@, old(cipher)@, Direction::Decrypt),
            old(self)@.fits(event),
        ensures
            final(self).wf(),
            final(self)@.wf(),
            final(cipher)@.wf(),
            final(cipher)@.iv_len == old(cipher)@.iv_len,
            attached(final(self)@, final(cipher)@, Direction::Decrypt),
            (final(self)@, final(cipher)@, r@) == pump_step(
                old(self)@,
                old(cipher)@,
                Direction::Decrypt,
                event,
            ),
            r matches Poll::Ready(n) ==> n == final(self)@.taken.len() && final(self)@.drained(),
    {
        self.poll_copy(cipher, Direction::Decrypt, event)
    }
}

/// Where one direction of a connection stands. A direction only moves forward,
/// and its count is fixed once it leaves `Running`.
#[derive(Clone, Copy, Debug, PartialEq, Eq, Structural)]
pub enum TransferState {
    /// The pump is at work.
    Running,
    /// The pump is done with this count; the destination is being closed.
    ShuttingDown(u64),
    /// The destination is closed; this many payload bytes went across.
    Done(u64),
}

/// Where a connection stands after an activation.
#[derive(Clone, Debug, PartialEq, Eq)]
pub enum Progress {
    /// The connection goes on. The first field is for the flow that is
    /// encrypted, the second for the flow that is decrypted: the request that
    /// the direction waits for, or its count if it is done.
    Pending(Poll<u64>, Poll<u64>),
    /// Both directions are done; the counts of the encrypted and of the
    /// decrypted flow.
    Ready(u64, u64),
    /// The connection is to be dropped.
    Failed(RelayError),
}

/// The mathematical value of a [`Progress`].
pub enum ProgressView {
    Pending(PollView<u64>, PollView<u64>),
    Ready(u64, u64),
    Failed(RelayError),
}

impl View for Progress {
    type V = ProgressView;

    open spec fn view(&self) -> ProgressView {
        match *self {
            Progress::Pending(a, b) => ProgressView::Pending(a@, b@),
            Progress::Ready(a, b) => ProgressView::Ready(a, b),
            Progress::Failed(e) => ProgressView::Failed(e),
        }
    }
}

/// The two directions of one connection and the cipher they share.
pub struct CopyBidirectional {
    a_to_b: TransferState,
    b_to_a: TransferState,
    decrypter: CopyBuffer,
    encrypter: CopyBuffer,
    cipher: Cipher,
}

/// The mathematical value of a [`CopyBidirectional`].
pub struct CopyBidirectionalView {
    /// The state of the flow that is encrypted.
    pub a_to_b: TransferState,
    /// The state of the flow that is decrypted.
    pub b_to_a: TransferState,
    /// The pump of the flow that is encrypted.
    pub encrypter: CopyBufferView,
    /// The pump of the flow that is decrypted.
    pub decrypter: CopyBufferView,
    /// The cipher of the connection.
    pub cipher: CipherView,
}

impl CopyBidirectionalView {
    /// A connection on which nothing has happened yet.
    pub open spec fn start(cipher: CipherView) -> CopyBidirectionalView {
        CopyBidirectionalView {
            a_to_b: TransferState::Running,
            b_to_a: TransferState::Running,
            encrypter: CopyBufferView::pristine(),
            decrypter: CopyBufferView::pristine(),
            cipher,
        }
    }

    /// The state of `direction`.
    pub open spec fn state(self, direction: Direction) -> TransferState {
        match direction {
            Direction::Encrypt => self.a_to_b,
            Direction::Decrypt => self.b_to_a,
        }
    }

    /// The pump of `direction`.
    pub open spec fn pump(self, direction: Direction) -> CopyBufferView {
        match direction {
            Direction::Encrypt => self.encrypter,
            Direction::Decrypt => self.decrypter,
        }
    }

    /// The count of a direction that has left `Running` is the length of all
    /// that its pump read, and that pump is drained.
    pub open spec fn settled(self, direction: Direction) -> bool {
        match self.state(direction) {
            TransferState::Running => true,
            TransferState::ShuttingDown(n) | TransferState::Done(n) => {
                &&& self.pump(direction).drained()
                &&& n == self.pump(direction).taken.len()
            },
        }
    }

    /// What holds of a connection at every moment.
    pub open spec fn wf(self) -> bool {
        &&& self.cipher.wf()
        &&& self.cipher.iv_len <= BUFFER_SIZE
        &&& self.encrypter.wf()
        &&& self.decrypter.wf()
        &&& attached(self.encrypter, self.cipher, Direction::Encrypt)
        &&& attached(self.decrypter, self.cipher, Direction::Decrypt)
        &&& self.settled(Direction::Encrypt)
        &&& self.settled(Direction::Decrypt)
    }

    /// The counter of `direction` will not overflow on `event`.
    pub open spec fn fits(self, direction: Direction, event: Event) -> bool {
        self.state(direction) is Running ==> self.pump(direction).fits(event)
    }

    /// The connection in which `direction` has this state, this pump and this cipher.
    pub open spec fn with(
        self,
        direction: Direction,
        state: TransferState,
        pump: CopyBufferView,
        cipher: CipherView,
    ) -> CopyBidirectionalView {
        match direction {
            Direction::Encrypt => CopyBidirectionalView {
                a_to_b: state,
                encrypter: pump,
                cipher,
                ..self
            },
            Direction::Decrypt => CopyBidirectionalView {
                b_to_a: state,
                decrypter: pump,
                cipher,
                ..self
            },
        }
    }
}

/// One step of one direction: the connection after `event`, and what
/// [`CopyBidirectional::transfer_one_direction`] returns.
///
/// While the direction runs, the event is its pump's; when the pump is ready
/// the direction takes its count and asks for its destination to be closed.
/// Once that is done the direction is done, and stays so: it returns its count
/// whatever the event.
pub open spec fn transfer_step(v: CopyBidirectionalView, direction: Direction, event: Event) -> (
    CopyBidirectionalView,
    PollView<u64>,
) {
    match v.state(direction) {
        TransferState::Running => {
            let (pump, cipher, r) = pump_step(v.pump(direction), v.cipher, direction, event);
            match r {
                PollView::Ready(count) => (
                    v.with(direction, TransferState::ShuttingDown(count), pump, cipher),
                    PollView::Pending(RequestView::Close),
                ),
                _ => (v.with(direction, TransferState::Running, pump, cipher), r),
            }
        },
        TransferState::ShuttingDown(count) => if event is Closed {
            (
                v.with(direction, TransferState::Done(count), v.pump(direction), v.cipher),
                PollView::Ready(count),
            )
        } else {
            (v, PollView::Pending(RequestView::Close))
        },
        TransferState::Done(count) => (v, PollView::Ready(count)),
    }
}

/// One activation of a connection: the connection after both directions took
/// their step, the encrypted flow first, and what [`CopyBidirectional::poll`]
/// returns. A failure of either direction fails the connection; the
/// connection is ready only when both directions are.
pub open spec fn engine_step(v: CopyBidirectionalView, a_event: Event, b_event: Event) -> (
    CopyBidirectionalView,
    ProgressView,
) {
    let (v1, a) = transfer_step(v, Direction::Encrypt, a_event);
    match a {
        PollView::Failed(e) => (v1, ProgressView::Failed(e)),
        _ => {
            let (v2, b) = transfer_step(v1, Direction::Decrypt, b_event);
            match (a, b) {
                (_, PollView::Failed(e)) => (v2, ProgressView::Failed(e)),
                (PollView::Ready(x), PollView::Ready(y)) => (v2, ProgressView::Ready(x, y)),
                _ => (v2, ProgressView::Pending(a, b)),
            }
        },
    }
}

/// A step of one direction keeps the connection well formed.
pub proof fn lemma_transfer_step_wf(v: CopyBidirectionalView, direction: Direction, event: Event)
    requires
        v.wf(),
        v.fits(direction, event),
    ensures
        transfer_step(v, direction, event).0.wf(),
{
    if v.state(direction) is Running {
        lemma_pump_step_wf(v.pump(direction), v.cipher, direction, event);
        lemma_pump_ready_count(v.pump(direction), v.cipher, direction, event);
    }
}

/// When a pump is ready its count is the length of all that it read from its
/// source: every byte read was transformed and taken by the destination.
pub proof fn lemma_pump_ready_count(
    v: CopyBufferView,
    c: CipherView,
    direction: Direction,
    event: Event,
)
    requires
        v.wf(),
    ensures
        pump_step(v, c, direction, event).2 matches PollView::Ready(n) ==> {
            &&& n == v.taken.len()
            &&& v.given.len() == v.taken.len()
            &&& v.sent == v.prefix + v.given
            &&& v.drained()
            &&& pump_step(v, c, direction, event).0 == v
        },
{
    if pump_step(v, c, direction, event).2 is Ready {
        assert(v.sent + v.window =~= v.sent);
    }
}

impl View for CopyBidirectional {
    type V = CopyBidirectionalView;

    closed spec fn view(&self) -> CopyBidirectionalView {
        CopyBidirectionalView {
            a_to_b: self.a_to_b,
            b_to_a: self.b_to_a,
            encrypter: self.encrypter@,
            decrypter: self.decrypter@,
            cipher: self.cipher@,
        }
    }
}

/// The relay of one connection, before its first activation: both directions
/// run, nothing has been read, and `cipher` is as the opening of the tunnel
/// left it.
pub fn copy_bidirectional(cipher: Cipher) -> (relay: CopyBidirectional)
    requires
        cipher@.wf(),
        cipher@.iv_len <= BUFFER_SIZE,
    ensures
        relay.wf(),
        relay@ == CopyBidirectionalView::start(cipher@),
{
    CopyBidirectional {
        a_to_b: TransferState::Running,
        b_to_a: TransferState::Running,
        decrypter: CopyBuffer::new(),
        encrypter: CopyBuffer::new(),
        cipher,
    }
}

impl CopyBidirectional {
    /// Both pumps and the connection as a whole are well formed.
    pub closed spec fn wf(&self) -> bool {
        &&& self.encrypter.wf()
        &&& self.decrypter.wf()
        &&& self@.wf()
    }

    /// Moves `direction` forward by `event`; see [`transfer_step`].
    pub fn transfer_one_direction(&mut self, direction: Direction, event: Event) -> (r: Poll<u64>)
        requires
            old(self).wf(),
            old(self)@.fits(direction, event),
        ensures
            final(self).wf(),
            final(self)@.wf(),
            (final(self)@, r@) == transfer_step(old(self)@, direction, event),
    {
        proof {
            lemma_transfer_step_wf(self@, direction, event);
        }
        let state: TransferState = match direction {
            Direction::Encrypt => self.a_to_b,
            Direction::Decrypt => self.b_to_a,
        };
        match state {
            TransferState::Running => {
                let r: Poll<u64> = match direction {
                    Direction::Encrypt => self.encrypter.poll_encrypt(&mut self.cipher, event),
                    Direction::Decrypt => self.decrypter.poll_decrypt(&mut self.cipher, event),
                };
                match r {
                    Poll::Ready(count) => {
                        match direction {
                            Direction::Encrypt => {
                                self.a_to_b = TransferState::ShuttingDown(count);
                            },
                            Direction::Decrypt => {
                                self.b_to_a = TransferState::ShuttingDown(count);
                            },
                        }
                        Poll::Pending(Request::Close)
                    },
                    other => other,
                }
            },
            TransferState::ShuttingDown(count) => {
                match event {
                    Event::Closed => {
                        match direction {
                            Direction::Encrypt => {
                                self.a_to_b = TransferState::Done(count);
                            },
                            Direction::Decrypt => {
                                self.b_to_a = TransferState::Done(count);
                            },
                        }
                        Poll::Ready(count)
                    },
                    _ => Poll::Pending(Request::Close),
                }
            },
            TransferState::Done(count) => Poll::Ready(count),
        }
    }

    /// The state of `direction`.
    pub fn state(&self, direction: Direction) -> (state: TransferState)
        ensures
            state == self@.state(direction),
    {
        match direction {
            Direction::Encrypt => self.a_to_b,
            Direction::Decrypt => self.b_to_a,
        }
    }

    /// The number of payload bytes that the destination of `direction` has
    /// taken so far.
    pub fn transferred(&self, direction: Direction) -> (n: u64)
        ensures
            n == self@.pump(direction).amt,
    {
        match direction {
            Direction::Encrypt => self.encrypter.transferred(),
            Direction::Decrypt => self.decrypter.transferred(),
        }
    }

    /// The cipher of the connection.
    pub fn cipher(&self) -> (cipher: &Cipher)
        ensures
            cipher@ == self@.cipher,
    {
        &self.cipher
    }

    /// What becomes of the connection when its deadline has passed: it counts
    /// as complete only if both directions are done by then. Otherwise it is
    /// dropped as a whole, and the bytes that did go across are not reported.
    pub fn deadline_elapsed(&self) -> (r: Progress)
        ensures
            r@ == match (self@.a_to_b, self@.b_to_a) {
                (TransferState::Done(a), TransferState::Done(b)) => ProgressView::Ready(a, b),
                _ => ProgressView::Failed(RelayError::RelayTimeout),
            },
    {
        match (self.a_to_b, self.b_to_a) {
            (TransferState::Done(a), TransferState::Done(b)) => Progress::Ready(a, b),
            _ => Progress::Failed(RelayError::RelayTimeout),
        }
    }

    /// One activation: both directions take one step, whichever of them has
    /// news, the encrypted flow with `a_event` and the decrypted flow with
    /// `b_event`; see [`engine_step`].
    ///
    /// A direction without news is given [`Event::Resume`]. The connection is
    /// ready when both directions are done, and not before: a direction that
    /// is done waits, with its count, for the other.
    pub fn poll(&mut self, a_event: Event, b_event: Event) -> (r: Progress)
        requires
            old(self).wf(),
            old(self)@.fits(Direction::Encrypt, a_event),
            old(self)@.fits(Direction::Decrypt, b_event),
        ensures
            final(self).wf(),
            final(self)@.wf(),
            (final(self)@, r@) == engine_step(old(self)@, a_event, b_event),
            r matches Progress::Ready(a, b) ==> {
                &&& final(self)@.a_to_b == TransferState::Done(a)
                &&& final(self)@.b_to_a == TransferState::Done(b)
                &&& a == final(self)@.encrypter.taken.len()
                &&& b == final(self)@.decrypter.taken.len()
            },
    {
        proof {
            lemma_ready_iff_both_done(self@, a_event, b_event);
        }
        let a_to_b: Poll<u64> = self.transfer_one_direction(Direction::Encrypt, a_event);
        match a_to_b {
            Poll::Failed(e) => {
                return Progress::Failed(e);
            },
            _ => {},
        }
        let b_to_a: Poll<u64> = self.transfer_one_direction(Direction::Decrypt, b_event);
        match b_to_a {
            Poll::Failed(e) => {
                return Progress::Failed(e);
            },
            _ => {},
        }
        match (a_to_b, b_to_a) {
            (Poll::Ready(a), Poll::Ready(b)) => Progress::Ready(a, b),
            (a, b) => Progress::Pending(a, b),
        }
    }
}

/// A destination that takes nothing of a write fails the pump at once, and
/// the pump is left as it was: nothing is counted, nothing is retried.
pub proof fn lemma_write_zero_is_fatal(
    v: CopyBufferView,
    c: CipherView,
    direction: Direction,
    event: Event,
)
    requires
        c.ready(direction),
        v.request(direction) is Write,
        event == Event::Written(0),
    ensures
        pump_step(v, c, direction, event) == (
            v,
            c,
            PollView::<u64>::Failed(RelayError::WriteZero),
        ),
{
}

/// A failure of its pump fails the direction, and a failure of a direction
/// fails the connection, whatever the other direction reports.
pub proof fn lemma_failure_surfaces(v: CopyBidirectionalView, a_event: Event, b_event: Event)
    ensures
        transfer_step(v, Direction::Encrypt, a_event).1 matches PollView::Failed(e)
            ==> engine_step(v, a_event, b_event).1 == ProgressView::Failed(e),
        forall|direction: Direction, event: Event|
            v.state(direction) is Running && #[trigger] pump_step(
                v.pump(direction),
                v.cipher,
                direction,
                event,
            ).2 is Failed ==> transfer_step(v, direction, event).1 == pump_step(
                v.pump(direction),
                v.cipher,
                direction,
                event,
            ).2,
{
}

/// The cipher is handed what was read from the source, in the order in which
/// it was read and every byte once: what it has transformed so far is the
/// beginning of what was read, and each piece handed to it continues where
/// the last one ended. So the keystream stays in step with the stream,
/// however the stream is cut into pieces.
pub proof fn lemma_cipher_sees_source_in_order(
    v: CopyBufferView,
    direction: Direction,
    event: Event,
)
    requires
        v.wf(),
        v.raw,
        v.accepts(event),
    ensures
        v.request(direction) == transform_request(direction, v.window),
        v.taken == v.taken.subrange(0, v.given.len() as int) + v.window,
        v.apply(event).given.len() == v.given.len() + v.window.len(),
        v.apply(event).taken == v.taken,
        !v.apply(event).raw,
{
    assert(v.taken =~= v.taken.subrange(0, v.given.len() as int) + v.taken.subrange(
        v.given.len() as int,
        v.taken.len() as int,
    ));
}

/// What the destination of a pump that encrypts has received, once nothing
/// waits in the buffer, is the sealed stream: the IV and then all that the
/// cipher handed back, which is as long as all that was read.
pub proof fn lemma_sent_is_sealed(v: CopyBufferView)
    requires
        v.wf(),
        !v.raw,
        v.window.len() == 0,
    ensures
        v.sent == seal(v.prefix, v.given),
        v.given.len() == v.taken.len(),
{
    assert(v.sent + v.window =~= v.sent);
}

/// What the far side writes out is what the near side read.
///
/// `near` is a pump that encrypts and has written out all that it holds, with
/// its cipher `near_cipher`; `far` is a pump that decrypts what `near` sent,
/// with its cipher `far_cipher`. `encrypt` and `decrypt` stand for the cipher
/// of one method and key, of which is asked only that decryption undoes
/// encryption under the IV in use. Then the far side has keyed its decryptor
/// with the near side's IV, has handed it exactly the near side's ciphertext,
/// and has got back the near side's plaintext, however the stream was cut
/// into pieces on the way.
pub proof fn lemma_relay_round_trip(
    near: CopyBufferView,
    near_cipher: CipherView,
    far: CopyBufferView,
    far_cipher: CipherView,
    encrypt: spec_fn(Seq<u8>, Seq<u8>) -> Seq<u8>,
    decrypt: spec_fn(Seq<u8>, Seq<u8>) -> Seq<u8>,
)
    requires
        near.wf(),
        far.wf(),
        near_cipher.wf(),
        far_cipher.wf(),
        near_cipher.iv_len == far_cipher.iv_len,
        attached(near, near_cipher, Direction::Encrypt),
        attached(far, far_cipher, Direction::Decrypt),
        near.prefix.len() == near_cipher.iv_len,
        !near.raw,
        near.window.len() == 0,
        far_cipher.dec_ready,
        !far.raw,
        far_cipher.dec_iv + far.taken == near.sent,
        near.given == encrypt(near.prefix, near.taken),
        far.given == decrypt(far_cipher.dec_iv, far.taken),
        forall|x: Seq<u8>| #[trigger] decrypt(near.prefix, encrypt(near.prefix, x)) == x,
    ensures
        far_cipher.dec_iv == near.prefix,
        far.taken == near.given,
        far.given == near.taken,
        far.sent + far.window == near.taken,
{
    lemma_sent_is_sealed(near);
    lemma_open_seal(near.prefix, near.given);
    let wire = near.sent;
    assert(far_cipher.dec_iv =~= wire.subrange(0, near.prefix.len() as int));
    assert(far.taken =~= wire.subrange(near.prefix.len() as int, wire.len() as int));
    assert(far.prefix + far.given =~= far.given);
}

/// A destination is closed only when nothing is left to deliver to it: when
/// a direction asks for the close, its source has ended, every byte read from
/// it has gone through the cipher and been taken by the destination, and the
/// destination has been flushed. Nothing is cut off by the close.
pub proof fn lemma_close_after_drain(v: CopyBidirectionalView, direction: Direction, event: Event)
    requires
        v.wf(),
        v.fits(direction, event),
        transfer_step(v, direction, event).1 == PollView::<u64>::Pending(RequestView::Close),
    ensures
        ({
            let next = transfer_step(v, direction, event).0;
            let pump = next.pump(direction);
            &&& next.state(direction) == TransferState::ShuttingDown(pump.taken.len() as u64)
            &&& pump.drained()
            &&& pump.given.len() == pump.taken.len()
            &&& pump.sent == seal(pump.prefix, pump.given)
            &&& v.state(direction) is Running ==> event is Flushed
        }),
{
    lemma_transfer_step_wf(v, direction, event);
    let next = transfer_step(v, direction, event).0;
    lemma_sent_is_sealed(next.pump(direction));
    if v.state(direction) is Running {
        lemma_pump_ready_count(v.pump(direction), v.cipher, direction, event);
        lemma_pump_never_asks_close(v.pump(direction), v.cipher, direction, event);
    }
}

/// A pump asks for reads, writes, a flush and the cipher, never for a close:
/// closing is the connection's decision.
pub proof fn lemma_pump_never_asks_close(
    v: CopyBufferView,
    c: CipherView,
    direction: Direction,
    event: Event,
)
    ensures
        pump_step(v, c, direction, event).2 != PollView::<u64>::Pending(RequestView::Close),
        pump_step(v, c, direction, event).2 is Ready ==> event is Flushed,
{
}

/// The end of a source is passed on: once a direction has delivered all that
/// it read, the end of its source is answered by a flush, the flush by the
/// closing of the destination, and the close by the end of the direction,
/// with the length of all that it read as its count.
pub proof fn lemma_end_of_stream_closes(
    v: CopyBidirectionalView,
    direction: Direction,
    end: Event,
)
    requires
        v.wf(),
        v.state(direction) is Running,
        v.cipher.ready(direction),
        v.pump(direction).request(direction) is Read,
        end matches Event::Read(bytes) && bytes@.len() == 0,
    ensures
        ({
            let count = v.pump(direction).taken.len() as u64;
            let (v1, r1) = transfer_step(v, direction, end);
            let (v2, r2) = transfer_step(v1, direction, Event::Flushed);
            let (v3, r3) = transfer_step(v2, direction, Event::Closed);
            &&& r1 == PollView::<u64>::Pending(RequestView::Flush)
            &&& v1.state(direction) is Running
            &&& r2 == PollView::<u64>::Pending(RequestView::Close)
            &&& v2.state(direction) == TransferState::ShuttingDown(count)
            &&& r3 == PollView::<u64>::Ready(count)
            &&& v3.state(direction) == TransferState::Done(count)
            &&& v3.pump(direction).taken == v.pump(direction).taken
        }),
{
    let (v1, r1) = transfer_step(v, direction, end);
    lemma_transfer_step_wf(v, direction, end);
    lemma_pump_ready_count(v1.pump(direction), v1.cipher, direction, Event::Flushed);
}

/// A direction that is done stays done: whatever the event, it returns its
/// count and nothing changes.
pub proof fn lemma_done_is_final(v: CopyBidirectionalView, direction: Direction, event: Event)
    requires
        v.state(direction) is Done,
    ensures
        transfer_step(v, direction, event) == (v, PollView::<u64>::Ready(v.state(direction)->Done_0)),
{
}

/// A direction never goes back: from `ShuttingDown` it can only go to `Done`,
/// from `Done` nowhere, and its count does not change on the way.
pub proof fn lemma_state_moves_forward(
    v: CopyBidirectionalView,
    direction: Direction,
    event: Event,
)
    ensures
        v.state(direction) matches TransferState::ShuttingDown(n) ==> {
            let next = transfer_step(v, direction, event).0.state(direction);
            next == TransferState::ShuttingDown(n) || next == TransferState::Done(n)
        },
        v.state(direction) matches TransferState::Done(n) ==> transfer_step(
            v,
            direction,
            event,
        ).0.state(direction) == TransferState::Done(n),
        v.state(direction) is Running ==> !(transfer_step(v, direction, event).0.state(
            direction,
        ) is Done),
{
}

/// A step of one direction leaves the state and the pump of the other as they
/// are: neither its end nor its failure to move touches the other flow.
pub proof fn lemma_directions_independent(
    v: CopyBidirectionalView,
    direction: Direction,
    event: Event,
)
    ensures
        ({
            let other = match direction {
                Direction::Encrypt => Direction::Decrypt,
                Direction::Decrypt => Direction::Encrypt,
            };
            let next = transfer_step(v, direction, event).0;
            &&& next.state(other) == v.state(other)
            &&& next.pump(other) == v.pump(other)
            &&& next.cipher.ready(other) == v.cipher.ready(other)
        }),
{
}

/// The connection is ready exactly when both directions are done after the
/// activation, and then with their two counts, each the length of all that
/// its direction read. While one direction is done and the other is not, the
/// connection is pending or has failed; it is never ready.
pub proof fn lemma_ready_iff_both_done(v: CopyBidirectionalView, a_event: Event, b_event: Event)
    requires
        v.wf(),
        v.fits(Direction::Encrypt, a_event),
        v.fits(Direction::Decrypt, b_event),
    ensures
        ({
            let (next, r) = engine_step(v, a_event, b_event);
            &&& r matches ProgressView::Ready(x, y) ==> {
                &&& next.a_to_b == TransferState::Done(x)
                &&& next.b_to_a == TransferState::Done(y)
                &&& x == next.encrypter.taken.len()
                &&& y == next.decrypter.taken.len()
                &&& next.encrypter.drained()
                &&& next.decrypter.drained()
            }
            &&& next.a_to_b is Done && next.b_to_a is Done && !(r is Failed) ==> r is Ready
            &&& !(next.a_to_b is Done) || !(next.b_to_a is Done) ==> !(r is Ready)
        }),
{
    let (v1, a) = transfer_step(v, Direction::Encrypt, a_event);
    lemma_transfer_step_wf(v, Direction::Encrypt, a_event);
    if !(a is Failed) {
        lemma_transfer_step_wf(v1, Direction::Decrypt, b_event);
    }
}

} // verus!
