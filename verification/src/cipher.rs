//! The IV protocol of the stream cipher.
//!
//! Each direction of a connection is keyed by an IV of its own. The side that
//! encrypts draws a fresh IV on first use and sends it, in the clear, ahead of
//! its first ciphertext. The side that decrypts takes the first `iv_len` bytes
//! of the stream as the peer's IV, in however many pieces they arrive, and
//! decrypts what follows. The cipher itself is the driver's; this module keeps
//! track of which half is set up, and with which IV.

use crate::buf::{append, copy_range};
use crate::error::RelayError;
use crate::event::{Direction, Event, Request, RequestView};
use vstd::prelude::*;
use vstd::slice::*;

verus! {

/// The framing state of one connection's cipher: two halves, each set up once.
#[derive(Debug)]
pub struct Cipher {
    iv_len: usize,
    enc_iv: Option<Vec<u8>>,
    dec_iv: Vec<u8>,
    dec_ready: bool,
}

/// The mathematical value of a [`Cipher`].
pub struct CipherView {
    /// The length of an IV of the method in use.
    pub iv_len: nat,
    /// The IV that this side drew, once its encryptor is set up.
    pub enc_iv: Option<Seq<u8>>,
    /// The bytes of the peer's IV that have arrived.
    pub dec_iv: Seq<u8>,
    /// Whether the decryptor is set up.
    pub dec_ready: bool,
}

impl CipherView {
    /// A cipher of which neither half is set up.
    pub open spec fn fresh(iv_len: nat) -> CipherView {
        CipherView { iv_len, enc_iv: None, dec_iv: Seq::empty(), dec_ready: false }
    }

    /// An IV is never longer or shorter than the method's; the decryptor is
    /// set up only from a complete IV.
    pub open spec fn wf(self) -> bool {
        &&& self.enc_iv matches Some(iv) ==> iv.len() == self.iv_len
        &&& self.dec_iv.len() <= self.iv_len
        &&& self.dec_ready ==> self.dec_iv.len() == self.iv_len
    }

    /// Whether the half that serves `direction` is set up.
    pub open spec fn ready(self, direction: Direction) -> bool {
        match direction {
            Direction::Encrypt => self.enc_iv is Some,
            Direction::Decrypt => self.dec_ready,
        }
    }

    /// What has to happen next before `direction` can transform any byte:
    /// nothing once its half is set up.
    pub open spec fn handshake_request(self, direction: Direction) -> Option<RequestView> {
        if self.ready(direction) {
            None
        } else {
            match direction {
                Direction::Encrypt => Some(RequestView::InitEncrypt),
                Direction::Decrypt => if self.dec_iv.len() < self.iv_len {
                    Some(RequestView::Read((self.iv_len - self.dec_iv.len()) as nat))
                } else {
                    Some(RequestView::InitDecrypt(self.dec_iv))
                },
            }
        }
    }

    /// Whether `event` answers the handshake request of `direction`.
    pub open spec fn handshake_accepts(self, direction: Direction, event: Event) -> bool {
        match (self.handshake_request(direction), event) {
            (Some(RequestView::InitEncrypt), Event::IvGenerated(iv)) => iv@.len() == self.iv_len,
            (Some(RequestView::Read(n)), Event::Read(bytes)) => 0 < bytes@.len() <= n,
            (Some(RequestView::InitDecrypt(_)), Event::DecryptReady) => true,
            _ => false,
        }
    }

    /// The stream ended while the peer's IV was still incomplete.
    pub open spec fn handshake_starved(self, direction: Direction, event: Event) -> bool {
        &&& self.handshake_request(direction) matches Some(RequestView::Read(_))
        &&& event matches Event::Read(bytes)
        &&& bytes@.len() == 0
    }

    /// The cipher after `event`, as far as the handshake of `direction` goes.
    pub open spec fn handshake_apply(self, direction: Direction, event: Event) -> CipherView {
        if self.handshake_accepts(direction, event) {
            match event {
                Event::IvGenerated(iv) => CipherView { enc_iv: Some(iv@), ..self },
                Event::Read(bytes) => CipherView { dec_iv: self.dec_iv + bytes@, ..self },
                _ => CipherView { dec_ready: true, ..self },
            }
        } else {
            self
        }
    }
}

/// Where the handshake of one direction stands after an event.
#[derive(Clone, Debug, PartialEq, Eq)]
pub enum Handshake {
    /// The half was set up before; the event is not the handshake's.
    Settled,
    /// The event completed the handshake.
    Completed,
    /// The handshake needs this request carried out.
    Pending(Request),
    /// The handshake failed.
    Failed(RelayError),
}

/// The mathematical value of a [`Handshake`].
pub enum HandshakeView {
    Settled,
    Completed,
    Pending(RequestView),
    Failed(RelayError),
}

impl View for Handshake {
    type V = HandshakeView;

    open spec fn view(&self) -> HandshakeView {
        match *self {
            Handshake::Settled => HandshakeView::Settled,
            Handshake::Completed => HandshakeView::Completed,
            Handshake::Pending(request) => HandshakeView::Pending(request@),
            Handshake::Failed(error) => HandshakeView::Failed(error),
        }
    }
}

/// What [`Cipher::handshake`] returns on `event`.
pub open spec fn handshake_outcome(c: CipherView, direction: Direction, event: Event)
    -> HandshakeView {
    if c.ready(direction) {
        HandshakeView::Settled
    } else if c.handshake_starved(direction, event) {
        HandshakeView::Failed(RelayError::UnexpectedEof)
    } else {
        match c.handshake_apply(direction, event).handshake_request(direction) {
            Some(request) => HandshakeView::Pending(request),
            None => HandshakeView::Completed,
        }
    }
}

impl View for Cipher {
    type V = CipherView;

    closed spec fn view(&self) -> CipherView {
        CipherView {
            iv_len: self.iv_len as nat,
            enc_iv: match self.enc_iv {
                Some(iv) => Some(iv@),
                None => None,
            },
            dec_iv: self.dec_iv@,
            dec_ready: self.dec_ready,
        }
    }
}

impl Cipher {
    /// The cipher state of a new connection, for a method whose IVs are
    /// `iv_len` bytes long.
    pub fn new(iv_len: usize) -> (c: Cipher)
        ensures
            c@ == CipherView::fresh(iv_len as nat),
            c@.wf(),
    {
        Cipher { iv_len, enc_iv: None, dec_iv: Vec::new(), dec_ready: false }
    }

    /// The cipher state of another connection that uses the same method.
    pub fn reset(&self) -> (c: Cipher)
        ensures
            c@ == CipherView::fresh(self@.iv_len),
            c@.wf(),
    {
        Cipher::new(self.iv_len)
    }

    /// The length of an IV.
    pub fn iv_len(&self) -> (n: usize)
        ensures
            n == self@.iv_len,
    {
        self.iv_len
    }

    /// Whether the half that serves `direction` is set up.
    pub fn is_ready(&self, direction: Direction) -> (b: bool)
        ensures
            b == self@.ready(direction),
    {
        match direction {
            Direction::Encrypt => self.enc_iv.is_some(),
            Direction::Decrypt => self.dec_ready,
        }
    }

    /// The IV that this side drew, once its encryptor is set up.
    pub fn encrypt_iv(&self) -> (iv: Option<Vec<u8>>)
        ensures
            iv is Some == self@.enc_iv is Some,
            iv matches Some(bytes) ==> self@.enc_iv == Some(bytes@),
    {
        match &self.enc_iv {
            Some(iv) => Some(copy_range(iv.as_slice(), 0, iv.len())),
            None => None,
        }
    }

    /// The bytes of the peer's IV that have arrived so far.
    pub fn decrypt_iv(&self) -> (iv: Vec<u8>)
        ensures
            iv@ == self@.dec_iv,
    {
        copy_range(self.dec_iv.as_slice(), 0, self.dec_iv.len())
    }

    /// Moves the handshake of `direction` forward by `event`.
    ///
    /// Once the half is set up this does nothing and says so. Until then an
    /// event that answers the handshake's request is taken in, any other is
    /// passed over, and the result is the request that is open afterwards;
    /// `Completed` if none is. The end of the stream in the middle of the
    /// peer's IV is an error.
    pub fn handshake(&mut self, direction: Direction, event: &Event) -> (r: Handshake)
        requires
            old(self)@.wf(),
        ensures
            final(self)@.wf(),
            r@ == handshake_outcome(old(self)@, direction, *event),
            final(self)@ == if handshake_outcome(old(self)@, direction, *event) is Failed {
                old(self)@
            } else {
                old(self)@.handshake_apply(direction, *event)
            },
    {
        match direction {
            Direction::Encrypt => {
                if self.enc_iv.is_some() {
                    return Handshake::Settled;
                }
                match event {
                    Event::IvGenerated(iv) => {
                        if iv.len() == self.iv_len {
                            self.enc_iv = Some(copy_range(iv.as_slice(), 0, iv.len()));
                            assert(iv@.subrange(0, iv@.len() as int) == iv@);
                            return Handshake::Completed;
                        }
                    },
                    _ => {},
                }
                Handshake::Pending(Request::InitEncrypt)
            },
            Direction::Decrypt => {
                if self.dec_ready {
                    return Handshake::Settled;
                }
                let have: usize = self.dec_iv.len();
                if have < self.iv_len {
                    match event {
                        Event::Read(bytes) => {
                            if bytes.len() == 0 {
                                return Handshake::Failed(RelayError::UnexpectedEof);
                            }
                            if bytes.len() <= self.iv_len - have {
                                append(&mut self.dec_iv, bytes.as_slice());
                            }
                        },
                        _ => {},
                    }
                } else {
                    match event {
                        Event::DecryptReady => {
                            self.dec_ready = true;
                            return Handshake::Completed;
                        },
                        _ => {},
                    }
                }
                let have: usize = self.dec_iv.len();
                if have < self.iv_len {
                    Handshake::Pending(Request::Read(self.iv_len - have))
                } else {
                    assert(self.dec_iv@.subrange(0, have as int) == self.dec_iv@);
                    Handshake::Pending(
                        Request::InitDecrypt(copy_range(self.dec_iv.as_slice(), 0, have)),
                    )
                }
            },
        }
    }
}

/// Each half is set up once: after that no event changes its IV, and no
/// event of one direction ever touches the half of the other.
pub proof fn lemma_set_up_once(c: CipherView, direction: Direction, event: Event)
    requires
        c.wf(),
    ensures
        c.handshake_apply(direction, event).wf(),
        c.handshake_apply(direction, event).iv_len == c.iv_len,
        c.ready(direction) ==> c.handshake_apply(direction, event) == c,
        c.ready(direction) ==> handshake_outcome(c, direction, event) == HandshakeView::Settled,
        direction == Direction::Encrypt ==> {
            &&& c.handshake_apply(direction, event).dec_iv == c.dec_iv
            &&& c.handshake_apply(direction, event).dec_ready == c.dec_ready
        },
        direction == Direction::Decrypt ==> c.handshake_apply(direction, event).enc_iv
            == c.enc_iv,
        c.handshake_apply(direction, event).ready(direction) ==> match direction {
            Direction::Encrypt => c.handshake_apply(direction, event).enc_iv->0.len()
                == c.iv_len,
            Direction::Decrypt => c.handshake_apply(direction, event).dec_iv.len() == c.iv_len,
        },
{
}

/// The stream that one direction puts on the wire: the IV, in the clear, and
/// then the ciphertext.
pub open spec fn seal(iv: Seq<u8>, ciphertext: Seq<u8>) -> Seq<u8> {
    iv + ciphertext
}

/// The IV that the receiving side takes from the stream `wire`.
pub open spec fn wire_iv(wire: Seq<u8>, iv_len: nat) -> Seq<u8> {
    wire.subrange(0, iv_len as int)
}

/// What the receiving side decrypts of the stream `wire`.
pub open spec fn wire_body(wire: Seq<u8>, iv_len: nat) -> Seq<u8> {
    wire.subrange(iv_len as int, wire.len() as int)
}

/// The receiving side takes a sealed stream apart into the very IV and the
/// very ciphertext that it was made of.
pub proof fn lemma_open_seal(iv: Seq<u8>, ciphertext: Seq<u8>)
    ensures
        wire_iv(seal(iv, ciphertext), iv.len()) == iv,
        wire_body(seal(iv, ciphertext), iv.len()) == ciphertext,
{
    assert(wire_iv(seal(iv, ciphertext), iv.len()) =~= iv);
    assert(wire_body(seal(iv, ciphertext), iv.len()) =~= ciphertext);
}

/// Decrypting the framed encryption of `plain` gives `plain` back.
///
/// `encrypt` and `decrypt` stand for the cipher of one method and key: each
/// takes an IV and a whole stream. All that is asked of them is that, under
/// the IV in use, decryption undoes encryption.
pub proof fn lemma_framing_round_trip(
    iv: Seq<u8>,
    plain: Seq<u8>,
    encrypt: spec_fn(Seq<u8>, Seq<u8>) -> Seq<u8>,
    decrypt: spec_fn(Seq<u8>, Seq<u8>) -> Seq<u8>,
)
    requires
        forall|x: Seq<u8>| #[trigger] decrypt(iv, encrypt(iv, x)) == x,
    ensures
        decrypt(
            wire_iv(seal(iv, encrypt(iv, plain)), iv.len()),
            wire_body(seal(iv, encrypt(iv, plain)), iv.len()),
        ) == plain,
{
    lemma_open_seal(iv, encrypt(iv, plain));
}

} // verus!
