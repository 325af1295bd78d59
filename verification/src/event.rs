//! What the relay asks of its driver, and what the driver reports back.
//!
//! The relay performs no I/O and holds no cipher. Where the sockets or the
//! cipher are needed it hands out a [`Request`]; the driver carries it out and
//! answers with the [`Event`] that the request names. An event that does not
//! answer the request in hand changes nothing, and the request is handed out
//! again.

use crate::error::RelayError;
use vstd::prelude::*;

verus! {

/// The two flows of a connection, named by what the cipher does to them.
#[derive(Clone, Copy, Debug, PartialEq, Eq, Structural)]
pub enum Direction {
    /// From the plain side to the tunnel.
    Encrypt,
    /// From the tunnel to the plain side.
    Decrypt,
}

/// The outcome of an operation that the driver carried out.
#[derive(Clone, Debug, PartialEq, Eq)]
pub enum Event {
    /// Nothing happened: the relay is entered for the first time, or again
    /// after an operation that could not complete yet.
    Resume,
    /// The encryptor was set up; these are the bytes of its fresh IV.
    IvGenerated(Vec<u8>),
    /// The decryptor was set up from the IV it was given.
    DecryptReady,
    /// The source delivered these bytes; none at the end of the stream.
    Read(Vec<u8>),
    /// The cipher turned the bytes it was given into these.
    Transformed(Vec<u8>),
    /// The destination took this many of the bytes offered.
    Written(usize),
    /// The destination's buffered output was flushed.
    Flushed,
    /// The destination's write half was closed.
    Closed,
}

/// An operation that the driver is asked to carry out.
#[derive(Clone, Debug, PartialEq, Eq)]
pub enum Request {
    /// Set up the encryptor with a fresh random IV. Answer: [`Event::IvGenerated`].
    InitEncrypt,
    /// Set up the decryptor from this IV. Answer: [`Event::DecryptReady`].
    InitDecrypt(Vec<u8>),
    /// Read at most this many bytes from the source. Answer: [`Event::Read`].
    Read(usize),
    /// Encrypt these bytes, continuing the keystream. Answer: [`Event::Transformed`].
    Encrypt(Vec<u8>),
    /// Decrypt these bytes, continuing the keystream. Answer: [`Event::Transformed`].
    Decrypt(Vec<u8>),
    /// Offer these bytes to the destination. Answer: [`Event::Written`].
    Write(Vec<u8>),
    /// Flush the destination. Answer: [`Event::Flushed`].
    Flush,
    /// Close the destination's write half. Answer: [`Event::Closed`].
    Close,
}

/// The mathematical value of a [`Request`].
pub enum RequestView {
    InitEncrypt,
    InitDecrypt(Seq<u8>),
    Read(nat),
    Encrypt(Seq<u8>),
    Decrypt(Seq<u8>),
    Write(Seq<u8>),
    Flush,
    Close,
}

impl View for Request {
    type V = RequestView;

    open spec fn view(&self) -> RequestView {
        match *self {
            Request::InitEncrypt => RequestView::InitEncrypt,
            Request::InitDecrypt(iv) => RequestView::InitDecrypt(iv@),
            Request::Read(n) => RequestView::Read(n as nat),
            Request::Encrypt(bytes) => RequestView::Encrypt(bytes@),
            Request::Decrypt(bytes) => RequestView::Decrypt(bytes@),
            Request::Write(bytes) => RequestView::Write(bytes@),
            Request::Flush => RequestView::Flush,
            Request::Close => RequestView::Close,
        }
    }
}

/// Where a resumable operation stands.
#[derive(Clone, Debug, PartialEq, Eq)]
pub enum Poll<T> {
    /// The driver has to carry out this request before anything more can happen.
    Pending(Request),
    /// The operation is complete.
    Ready(T),
    /// The operation failed; the connection is to be dropped.
    Failed(RelayError),
}

/// The mathematical value of a [`Poll`].
pub enum PollView<V> {
    Pending(RequestView),
    Ready(V),
    Failed(RelayError),
}

impl<T: View> View for Poll<T> {
    type V = PollView<T::V>;

    open spec fn view(&self) -> PollView<T::V> {
        match *self {
            Poll::Pending(request) => PollView::Pending(request@),
            Poll::Ready(value) => PollView::Ready(value@),
            Poll::Failed(error) => PollView::Failed(error),
        }
    }
}

/// The request that transforms `bytes` in the given direction.
pub open spec fn transform_request(direction: Direction, bytes: Seq<u8>) -> RequestView {
    match direction {
        Direction::Encrypt => RequestView::Encrypt(bytes),
        Direction::Decrypt => RequestView::Decrypt(bytes),
    }
}

} // verus!
