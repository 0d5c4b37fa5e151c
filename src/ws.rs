use vstd::prelude::*;
use vstd::utf8::encode_utf8;

use crate::close::{
    close_body, close_code_sendable, close_code_value, close_encodable, close_parse_outcome,
    opt_view, reason_bytes, Close, CloseCode, MAX_CLOSE_REASON_LEN,
};
use crate::error::{error_close_code, error_message, WSocketError};
use crate::frame::{frame_bytes, Frame};
use crate::opcode::OpCode;
use crate::Message;

verus! {

/// Which end of the connection this is. A server never masks what it
/// sends; a client masks with a fresh key per frame unless `masking` is off.
#[derive(Debug, Clone, Copy, PartialEq, Eq, Structural)]
pub enum Role {
    Server,
    Client { masking: bool },
}

/// Whether frames sent in this role are masked.
pub open spec fn role_masks(role: Role) -> bool {
    match role {
        Role::Server => false,
        Role::Client { masking } => masking,
    }
}

/// The view of a close value: its code and the characters of its reason.
pub type CloseView = (CloseCode, Option<Seq<char>>);

/// The close state that both halves of a connection share. It goes from
/// open to closed once; the first close recorded is the one that stays.
pub struct CloseState {
    pub winner: Option<Close>,
}

impl View for CloseState {
    type V = Option<CloseView>;

    open spec fn view(&self) -> Option<CloseView> {
        match self.winner {
            Some(c) => Some(c@),
            None => None,
        }
    }
}

/// Recording a close: nothing changes once closed.
pub open spec fn close_transition(s: Option<CloseView>, c: CloseView) -> Option<CloseView> {
    match s {
        Some(w) => Some(w),
        None => Some(c),
    }
}

/// Recording several closes, in order.
pub open spec fn close_all(s: Option<CloseView>, cs: Seq<CloseView>) -> Option<CloseView>
    decreases cs.len(),
{
    if cs.len() == 0 {
        s
    } else {
        close_all(close_transition(s, cs[0]), cs.drop_first())
    }
}

/// What a send or a receive on a connection in state `s` fails with before
/// it touches the transport.
pub open spec fn gate(s: Option<CloseView>) -> Option<WSocketError> {
    match s {
        Some(_) => Some(WSocketError::NotConnected),
        None => None,
    }
}

/// Once closed, a connection stays closed with the same close value,
/// whatever either half records after, and every later send and receive on
/// either half fails with `NotConnected` before touching the transport.
pub proof fn lemma_closed_is_terminal(s: Option<CloseView>, cs: Seq<CloseView>)
    requires
        s is Some,
    ensures
        close_all(s, cs) == s,
        gate(close_all(s, cs)) == Some(WSocketError::NotConnected),
    decreases cs.len(),
{
    if cs.len() > 0 {
        lemma_closed_is_terminal(close_transition(s, cs[0]), cs.drop_first());
    }
}

/// Of several closes recorded on an open connection, the first one wins.
pub proof fn lemma_first_close_wins(cs: Seq<CloseView>)
    requires
        cs.len() > 0,
    ensures
        close_all(None, cs) == Some(cs[0]),
{
    lemma_closed_is_terminal(Some(cs[0]), cs.drop_first());
}

impl CloseState {
    /// An open connection.
    pub fn new() -> (r: CloseState)
        ensures
            r@ is None,
    {
        CloseState { winner: None }
    }

    pub fn is_closed(&self) -> (r: bool)
        ensures
            r == (self@ is Some),
    {
        self.winner.is_some()
    }

    /// Marks the connection closed with `close`, unless it already is.
    /// Returns whether this call closed it.
    pub fn set_closed(&mut self, close: Close) -> (won: bool)
        ensures
            won == (old(self)@ is None),
            final(self)@ == close_transition(old(self)@, close@),
    {
        if self.winner.is_some() {
            false
        } else {
            self.winner = Some(close);
            true
        }
    }

    /// The close value that closed the connection, if it is closed.
    pub fn winner(&self) -> (r: Option<Close>)
        ensures
            match r {
                Some(c) => self@ == Some(c@),
                None => self@ is None,
            },
    {
        match &self.winner {
            Some(c) => Some(c.duplicate()),
            None => None,
        }
    }
}

/// The failure that a half reports when the connection was closed while it
/// waited: the close value announced to it, or, where it missed the
/// announcement, the value recorded in the shared state. A closed state is
/// the same end either way; with no value at all it reports `NotConnected`.
pub fn closed_elsewhere(received: Option<Close>, state: &CloseState) -> (r: WSocketError)
    ensures
        received matches Some(c) ==> (r matches WSocketError::ConnectionClosed(x) && x@ == c@),
        received is None ==> match state@ {
            Some(w) => r matches WSocketError::ConnectionClosed(x) && x@ == w,
            None => r matches WSocketError::NotConnected,
        },
{
    match received {
        Some(c) => WSocketError::ConnectionClosed(c),
        None => match state.winner() {
            Some(c) => WSocketError::ConnectionClosed(c),
            None => WSocketError::NotConnected,
        },
    }
}

/// The opcode and payload bytes of a message.
pub open spec fn message_parts(m: Message<'_>) -> (OpCode, Seq<u8>) {
    match m {
        Message::Binary(d) => (OpCode::Binary, d@),
        Message::Text(t) => (OpCode::Text, encode_utf8(t@)),
        Message::Ping(d) => (OpCode::Ping, d@),
        Message::Pong(d) => (OpCode::Pong, d@),
    }
}

/// The close value recorded when a connection fails with `e`: the mapped
/// code (an internal error where none is mapped) and the failure's text.
pub open spec fn error_close_view(e: WSocketError) -> CloseView {
    (
        match error_close_code(e) {
            Some(c) => c,
            None => CloseCode::InternalError,
        },
        Some(error_message(e)),
    )
}

/// The close value recorded when a receive fails with `e`: the peer's own
/// close value when it closed the connection.
pub open spec fn recv_close_view(e: WSocketError) -> CloseView {
    match e {
        WSocketError::ConnectionClosed(c) => c@,
        _ => error_close_view(e),
    }
}

/// The optional masking key that a role uses for a given drawn key.
pub open spec fn role_key(role: Role, mask: [u8; 4]) -> Option<Seq<u8>> {
    if role_masks(role) {
        Some(mask@)
    } else {
        None
    }
}

/// The close value for a failure.
pub fn error_close(e: &WSocketError) -> (r: Close)
    ensures
        r@ == error_close_view(*e),
{
    let code = match e.close_code() {
        Some(c) => c,
        None => CloseCode::InternalError,
    };
    Close { code, reason: Some(e.message().to_owned()) }
}

/// The unfragmented frame that carries a message.
pub fn message_frame<'a>(message: Message<'a>) -> (r: Frame<'a>)
    ensures
        r.fin,
        (r.opcode, r.data@) == message_parts(message),
{
    match message {
        Message::Binary(d) => Frame::new(true, OpCode::Binary, d),
        Message::Text(t) => Frame::new(true, OpCode::Text, t.as_bytes()),
        Message::Ping(d) => Frame::new(true, OpCode::Ping, d),
        Message::Pong(d) => Frame::new(true, OpCode::Pong, d),
    }
}

/// Relies on `rand::random`: a value drawn from the thread-local generator.
/// Nothing is known of what it returns.
pub assume_specification<T>[ rand::random::<T> ]() -> (r: T)
    where
        rand::distributions::Standard: rand::distributions::Distribution<T>,
;

/// A fresh masking key.
pub fn random_mask() -> [u8; 4] {
    rand::random::<[u8; 4]>()
}

/// The per-half settings of a connection: the largest payload it takes or
/// sends, and its role.
#[derive(Debug, Clone, Copy)]
pub struct Endpoint {
    pub max_payload_len: usize,
    pub role: Role,
}

/// What an explicit close comes to: the close frame to write (or why there
/// is none), and the close value to announce to the other half when this
/// close closed the connection.
pub struct CloseStep {
    pub frame: Result<Vec<u8>, WSocketError>,
    pub announce: Option<Close>,
}

/// What is left to do after a send failed: a close frame to try to write,
/// whose failure is only worth a log line, and a close value to announce to
/// the other half when this send closed the connection.
pub struct SendCleanup {
    pub close_frame: Option<Vec<u8>>,
    pub announce: Option<Close>,
}

impl Endpoint {
    /// A server end.
    pub fn server(max_payload_len: usize) -> (r: Endpoint)
        ensures
            r.max_payload_len == max_payload_len,
            r.role == Role::Server,
    {
        Endpoint { max_payload_len, role: Role::Server }
    }

    /// A client end; `masking` off is only for testing.
    pub fn client(max_payload_len: usize, masking: bool) -> (r: Endpoint)
        ensures
            r.max_payload_len == max_payload_len,
            r.role == (Role::Client { masking }),
    {
        Endpoint { max_payload_len, role: Role::Client { masking } }
    }

    /// Whether this end masks the frames it sends.
    pub fn masking(&self) -> (r: bool)
        ensures
            r == role_masks(self.role),
    {
        match self.role {
            Role::Server => false,
            Role::Client { masking } => masking,
        }
    }

    /// The bytes of `frame` as this end sends it; `mask` is the key used
    /// when this end masks. Fails with `PayloadTooLarge` over the limit.
    pub fn frame_bytes(&self, frame: &Frame<'_>, mask: [u8; 4]) -> (r: Result<Vec<u8>, WSocketError>)
        ensures
            frame.data@.len() > self.max_payload_len ==> (r matches Err(
                WSocketError::PayloadTooLarge,
            )),
            frame.data@.len() <= self.max_payload_len ==> (r matches Ok(b) && b@ == frame_bytes(
                frame.fin,
                frame.opcode,
                frame.data@,
                role_key(self.role, mask),
            )),
    {
        if frame.data.len() > self.max_payload_len {
            return Err(WSocketError::PayloadTooLarge);
        }
        if self.masking() {
            Ok(frame.write_with_mask(mask))
        } else {
            Ok(frame.write_without_mask())
        }
    }

    /// Starts sending `message`: fails with `NotConnected` on a closed
    /// connection, before anything is written, and otherwise gives the
    /// bytes to write (or `PayloadTooLarge`).
    pub fn prepare_send(&self, state: &CloseState, message: Message<'_>, mask: [u8; 4]) -> (r: Result<
        Vec<u8>,
        WSocketError,
    >)
        ensures
            gate(state@) matches Some(g) ==> (r matches Err(e) && e == g),
            state@ is None && message_parts(message).1.len() > self.max_payload_len ==> (r matches Err(
                WSocketError::PayloadTooLarge,
            )),
            state@ is None && message_parts(message).1.len() <= self.max_payload_len ==> (r matches Ok(
                b,
            ) && b@ == frame_bytes(
                true,
                message_parts(message).0,
                message_parts(message).1,
                role_key(self.role, mask),
            )),
    {
        if state.is_closed() {
            return Err(WSocketError::NotConnected);
        }
        let frame = message_frame(message);
        self.frame_bytes(&frame, mask)
    }

    /// Starts a receive: fails with `NotConnected` on a closed connection,
    /// before anything is read.
    pub fn prepare_recv(&self, state: &CloseState) -> (r: Result<(), WSocketError>)
        ensures
            gate(state@) matches Some(g) ==> (r matches Err(e) && e == g),
            gate(state@) is None ==> r is Ok,
    {
        if state.is_closed() {
            Err(WSocketError::NotConnected)
        } else {
            Ok(())
        }
    }

    /// The bytes of a close frame carrying `close`. Fails where the value
    /// cannot be encoded (see `Close::encode`) or exceeds the payload limit.
    pub fn close_frame(&self, close: &Close, mask: [u8; 4]) -> (r: Result<Vec<u8>, WSocketError>)
        ensures
            r is Ok <==> close_encodable(*close) && reason_bytes(opt_view(close.reason)).len() + 2
                <= self.max_payload_len,
            r matches Ok(b) ==> b@ == frame_bytes(
                true,
                OpCode::Close,
                close_body(close_code_value(close.code), reason_bytes(opt_view(close.reason))),
                role_key(self.role, mask),
            ),
    {
        let body = match close.encode() {
            Ok(b) => b,
            Err(e) => return Err(e),
        };
        let frame = Frame::new(true, OpCode::Close, body.as_slice());
        self.frame_bytes(&frame, mask)
    }

    /// Closes the connection with `close`. A value that cannot be encoded
    /// (see `Close::encode`) changes nothing and fails. Otherwise the close is
    /// recorded first (it stays, if the connection was open), and then the
    /// frame is built, which fails with `PayloadTooLarge` over the limit.
    /// `announce` is the value to tell the other half about, when this call
    /// closed the connection.
    pub fn close(&self, state: &mut CloseState, close: Close, mask: [u8; 4]) -> (r: CloseStep)
        ensures
            !close_code_sendable(close.code) ==> (r.frame matches Err(
                WSocketError::InvalidCloseCode(v),
            ) && v == close_code_value(close.code)),
            close_code_sendable(close.code) && !close_encodable(close) ==> (r.frame matches Err(
                WSocketError::ControlFrameMustHaveAPayloadLengthOf125BytesOrLess,
            )),
            !close_encodable(close) ==> final(state)@ == old(state)@ && r.announce is None,
            close_encodable(close) ==> {
                &&& final(state)@ == close_transition(old(state)@, close@)
                &&& (r.announce is Some <==> old(state)@ is None)
                &&& (r.announce matches Some(a) ==> a@ == close@)
            },
            close_encodable(close) && reason_bytes(opt_view(close.reason)).len() + 2
                > self.max_payload_len ==> (r.frame matches Err(WSocketError::PayloadTooLarge)),
            close_encodable(close) && reason_bytes(opt_view(close.reason)).len() + 2
                <= self.max_payload_len ==> (r.frame matches Ok(b) && b@ == frame_bytes(
                true,
                OpCode::Close,
                close_body(close_code_value(close.code), reason_bytes(opt_view(close.reason))),
                role_key(self.role, mask),
            )),
    {
        let body = match close.encode() {
            Ok(b) => b,
            Err(e) => return CloseStep { frame: Err(e), announce: None },
        };
        let copy = close.duplicate();
        let announce = if state.set_closed(close) {
            Some(copy)
        } else {
            None
        };
        let frame = Frame::new(true, OpCode::Close, body.as_slice());
        CloseStep { frame: self.frame_bytes(&frame, mask), announce }
    }

    /// Settles a finished send. A failure other than the connection being
    /// over closes it with the failure's close value and, unless the
    /// transport itself failed, asks for a best-effort close frame. The
    /// result goes back to the caller as it came.
    pub fn finish_send(
        &self,
        state: &mut CloseState,
        result: &Result<(), WSocketError>,
        mask: [u8; 4],
    ) -> (r: SendCleanup)
        ensures
            match *result {
                Ok(_) => final(state)@ == old(state)@ && r.close_frame is None && r.announce is None,
                Err(e) => if e is NotConnected || e is ConnectionClosed {
                    final(state)@ == old(state)@ && r.close_frame is None && r.announce is None
                } else {
                    let cv = error_close_view(e);
                    &&& final(state)@ == close_transition(old(state)@, cv)
                    &&& (r.announce is Some <==> old(state)@ is None)
                    &&& (r.announce matches Some(a) ==> a@ == cv)
                    &&& (r.close_frame is Some <==> !(e is Io) && close_encodable_view(cv)
                        && reason_len(cv) + 2 <= self.max_payload_len)
                    &&& (r.close_frame matches Some(b) ==> b@ == frame_bytes(
                        true,
                        OpCode::Close,
                        close_body(close_code_value(cv.0), reason_bytes(cv.1)),
                        role_key(self.role, mask),
                    ))
                },
            },
    {
        match result {
            Ok(_) => SendCleanup { close_frame: None, announce: None },
            Err(WSocketError::NotConnected) => SendCleanup { close_frame: None, announce: None },
            Err(WSocketError::ConnectionClosed(_)) => SendCleanup {
                close_frame: None,
                announce: None,
            },
            Err(e) => {
                let close = error_close(e);
                let close_frame = if e.is_io_error() {
                    None
                } else {
                    match self.close_frame(&close, mask) {
                        Ok(b) => Some(b),
                        Err(_) => None,
                    }
                };
                let copy = close.duplicate();
                let announce = if state.set_closed(close) {
                    Some(copy)
                } else {
                    None
                };
                SendCleanup { close_frame, announce }
            },
        }
    }

    /// Turns a frame that was read into a message. Only unfragmented binary
    /// frames and pings and pongs are messages; a close frame ends the
    /// connection with the peer's close value.
    pub fn recv_message<'a>(&self, frame: Frame<'a>) -> (r: Result<Message<'a>, WSocketError>)
        ensures
            !frame.fin ==> (r matches Err(WSocketError::FramedMessagesAreNotSupported)),
            frame.fin ==> match frame.opcode {
                OpCode::Continuation => r matches Err(
                    WSocketError::FramedMessagesAreNotSupported,
                ),
                OpCode::Text => r matches Err(WSocketError::TextFramesAreNotSupported),
                OpCode::Binary => r matches Ok(Message::Binary(d)) && d@ == frame.data@,
                OpCode::Ping => r matches Ok(Message::Ping(d)) && d@ == frame.data@,
                OpCode::Pong => r matches Ok(Message::Pong(d)) && d@ == frame.data@,
                OpCode::Close => match r {
                    Err(WSocketError::ConnectionClosed(c)) => close_parse_outcome(
                        frame.data@,
                        Ok(c),
                    ),
                    Err(e) => close_parse_outcome(frame.data@, Err(e)),
                    Ok(_) => false,
                },
            },
    {
        if !frame.fin {
            return Err(WSocketError::FramedMessagesAreNotSupported);
        }
        match frame.opcode {
            OpCode::Continuation => Err(WSocketError::FramedMessagesAreNotSupported),
            OpCode::Text => Err(WSocketError::TextFramesAreNotSupported),
            OpCode::Binary => Ok(Message::Binary(frame.data)),
            OpCode::Ping => Ok(Message::Ping(frame.data)),
            OpCode::Pong => Ok(Message::Pong(frame.data)),
            OpCode::Close => match Close::parse(frame.data) {
                Ok(c) => Err(WSocketError::ConnectionClosed(c)),
                Err(e) => Err(e),
            },
        }
    }

    /// Settles a finished receive: any failure closes the connection, with
    /// the peer's close value when the peer closed it and with the
    /// failure's close value otherwise. Returns the value to announce to the
    /// other half when this receive closed the connection.
    pub fn finish_recv(
        &self,
        state: &mut CloseState,
        result: &Result<Message<'_>, WSocketError>,
    ) -> (r:
        Option<Close>)
        ensures
            match *result {
                Ok(_) => final(state)@ == old(state)@ && r is None,
                Err(e) => {
                    &&& final(state)@ == close_transition(old(state)@, recv_close_view(e))
                    &&& (r is Some <==> old(state)@ is None)
                    &&& (r matches Some(a) ==> a@ == recv_close_view(e))
                },
            },
    {
        match result {
            Ok(_) => None,
            Err(e) => {
                let close = match e {
                    WSocketError::ConnectionClosed(c) => c.duplicate(),
                    _ => error_close(e),
                };
                let copy = close.duplicate();
                if state.set_closed(close) {
                    Some(copy)
                } else {
                    None
                }
            },
        }
    }
}

/// Whether a close value's code may be sent and its reason fits.
pub open spec fn close_encodable_view(cv: CloseView) -> bool {
    close_code_sendable(cv.0) && reason_len(cv) <= MAX_CLOSE_REASON_LEN
}

/// The number of reason bytes in a close value.
pub open spec fn reason_len(cv: CloseView) -> nat {
    reason_bytes(cv.1).len()
}

} // verus!
