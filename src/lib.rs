//! A WebSocket (RFC 6455) protocol engine: the frame codec, the close-frame
//! rules, the opening handshake checks and the per-connection shutdown state,
//! all as plain computations on bytes. Reading from and writing to a transport
//! is left to the caller, which hands the engine the bytes it has read and
//! writes the bytes the engine returns.
use vstd::prelude::*;

pub mod close;
pub mod error;
pub mod frame;
pub mod handshake;
pub mod opcode;
pub mod ws;

pub use close::{Close, CloseCode};
pub use error::{WSocketError, WSocketResult};
pub use opcode::OpCode;
pub use ws::{CloseState, Endpoint, Role};

verus! {

/// An application message: a view of a payload and the kind of frame that
/// carries it.
pub enum Message<'a> {
    Binary(&'a [u8]),
    Text(&'a str),
    Ping(&'a [u8]),
    Pong(&'a [u8]),
}

} // verus!
