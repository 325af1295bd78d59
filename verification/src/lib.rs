//! The core of an encrypting TCP relay, written without any I/O of its own.
//!
//! Every operation that touches a socket or the stream cipher is described by a
//! request; the caller performs it and reports the outcome as an event.
//! What the relay decides in between is verified.

pub mod address;
mod buf;
pub mod cipher;
pub mod copy;
pub mod error;
pub mod event;
pub mod tunnel;

pub use address::{decode, generate_raw_addr, Address, AddressReader};
pub use cipher::{Cipher, Handshake};
pub use copy::{
    copy_bidirectional, CopyBidirectional, CopyBuffer, Progress, TransferState, BUFFER_SIZE,
};
pub use error::{ProtocolError, RelayError};
pub use event::{Direction, Event, Poll, Request};
pub use tunnel::{get_addr_info, write_all, AddrInfo, WriteAll};
