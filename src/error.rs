use vstd::prelude::*;

use crate::close::{Close, CloseCode};

verus! {

#[verifier::external_type_specification]
#[verifier::external_body]
pub struct ExIoError(std::io::Error);

#[verifier::external_type_specification]
#[verifier::external_body]
pub struct ExFromUtf8Error(std::string::FromUtf8Error);

#[verifier::external_type_specification]
#[verifier::external_body]
pub struct ExHyperError(hyper::Error);

/// Everything that can go wrong on a connection.
#[derive(Debug)]
pub enum WSocketError {
    UnknownOpCode(u8),
    UnknownCloseCode(u16),
    ReserveBitMustBeNull,
    ControlFrameMustNotBeFragmented,
    ControlFrameMustHaveAPayloadLengthOf125BytesOrLess,
    PayloadTooLarge,
    Io(std::io::Error),
    NotConnected,
    ConnectionClosed(Close),
    FramedMessagesAreNotSupported,
    TextFramesAreNotSupported,
    InvalidUtf8(std::string::FromUtf8Error),
    InvalidCloseCode(u16),
    InvalidStatusCode { actual: u16, expected: u16 },
    InvalidUpgradeHeader,
    InvalidConnectionHeader,
    Hyper(hyper::Error),
    MissingSecWebSocketKey,
    InvalidSecWebsocketVersion,
}

pub type WSocketResult<T> = Result<T, WSocketError>;

/// The close code to send when a connection fails with `e`; `None` where
/// the connection is already over or the failure is not the peer's.
pub open spec fn error_close_code(e: WSocketError) -> Option<CloseCode> {
    match e {
        WSocketError::UnknownOpCode(_) => Some(CloseCode::ProtocolError),
        WSocketError::UnknownCloseCode(_) => Some(CloseCode::ProtocolError),
        WSocketError::ReserveBitMustBeNull => Some(CloseCode::Unsupported),
        WSocketError::ControlFrameMustNotBeFragmented => Some(CloseCode::Unsupported),
        WSocketError::ControlFrameMustHaveAPayloadLengthOf125BytesOrLess => Some(
            CloseCode::ProtocolError,
        ),
        WSocketError::PayloadTooLarge => Some(CloseCode::MessageTooBig),
        WSocketError::Io(_) => Some(CloseCode::Abnormal),
        WSocketError::FramedMessagesAreNotSupported => Some(CloseCode::Unsupported),
        WSocketError::TextFramesAreNotSupported => Some(CloseCode::Unsupported),
        WSocketError::InvalidUtf8(_) => Some(CloseCode::InvalidPayload),
        _ => None,
    }
}

/// The text that describes a failure.
pub open spec fn error_message(e: WSocketError) -> Seq<char> {
    match e {
        WSocketError::UnknownOpCode(_) => "unknown opcode"@,
        WSocketError::UnknownCloseCode(_) => "unknown close code"@,
        WSocketError::ReserveBitMustBeNull => "reserve bit must be `0`"@,
        WSocketError::ControlFrameMustNotBeFragmented => "control frame must not be fragmented"@,
        WSocketError::ControlFrameMustHaveAPayloadLengthOf125BytesOrLess =>
            "control frame must have a payload length of 125 bytes or less"@,
        WSocketError::PayloadTooLarge => "payload too large"@,
        WSocketError::Io(_) => "io error"@,
        WSocketError::NotConnected => "not connected"@,
        WSocketError::ConnectionClosed(_) => "connection closed"@,
        WSocketError::FramedMessagesAreNotSupported => "framed messages are not supported"@,
        WSocketError::TextFramesAreNotSupported => "text frames are not supported"@,
        WSocketError::InvalidUtf8(_) => "invalid utf8"@,
        WSocketError::InvalidCloseCode(_) => "invalid close code"@,
        WSocketError::InvalidStatusCode { .. } => "invalid status code"@,
        WSocketError::InvalidUpgradeHeader => "invalid websocket http upgrade header"@,
        WSocketError::InvalidConnectionHeader => "invalid websocket http connection header"@,
        WSocketError::Hyper(_) => "hyper error"@,
        WSocketError::MissingSecWebSocketKey => "missing sec web socket key"@,
        WSocketError::InvalidSecWebsocketVersion => "invalid sec websocket version"@,
    }
}

impl WSocketError {
    /// The text that describes this failure.
    pub fn message(&self) -> (r: &'static str)
        ensures
            r@ == error_message(*self),
    {
        match self {
            WSocketError::UnknownOpCode(_) => "unknown opcode",
            WSocketError::UnknownCloseCode(_) => "unknown close code",
            WSocketError::ReserveBitMustBeNull => "reserve bit must be `0`",
            WSocketError::ControlFrameMustNotBeFragmented => "control frame must not be fragmented",
            WSocketError::ControlFrameMustHaveAPayloadLengthOf125BytesOrLess =>
                "control frame must have a payload length of 125 bytes or less",
            WSocketError::PayloadTooLarge => "payload too large",
            WSocketError::Io(_) => "io error",
            WSocketError::NotConnected => "not connected",
            WSocketError::ConnectionClosed(_) => "connection closed",
            WSocketError::FramedMessagesAreNotSupported => "framed messages are not supported",
            WSocketError::TextFramesAreNotSupported => "text frames are not supported",
            WSocketError::InvalidUtf8(_) => "invalid utf8",
            WSocketError::InvalidCloseCode(_) => "invalid close code",
            WSocketError::InvalidStatusCode { .. } => "invalid status code",
            WSocketError::InvalidUpgradeHeader => "invalid websocket http upgrade header",
            WSocketError::InvalidConnectionHeader => "invalid websocket http connection header",
            WSocketError::Hyper(_) => "hyper error",
            WSocketError::MissingSecWebSocketKey => "missing sec web socket key",
            WSocketError::InvalidSecWebsocketVersion => "invalid sec websocket version",
        }
    }

    /// Whether this is a failure of the transport itself.
    pub fn is_io_error(&self) -> (r: bool)
        ensures
            r == (*self is Io),
    {
        match self {
            WSocketError::Io(_) => true,
            _ => false,
        }
    }

    /// The close code that this failure maps to.
    pub fn close_code(&self) -> (r: Option<CloseCode>)
        ensures
            r == error_close_code(*self),
    {
        match self {
            WSocketError::UnknownOpCode(_) => Some(CloseCode::ProtocolError),
            WSocketError::UnknownCloseCode(_) => Some(CloseCode::ProtocolError),
            WSocketError::ReserveBitMustBeNull => Some(CloseCode::Unsupported),
            WSocketError::ControlFrameMustNotBeFragmented => Some(CloseCode::Unsupported),
            WSocketError::ControlFrameMustHaveAPayloadLengthOf125BytesOrLess => Some(
                CloseCode::ProtocolError,
            ),
            WSocketError::PayloadTooLarge => Some(CloseCode::MessageTooBig),
            WSocketError::Io(_) => Some(CloseCode::Abnormal),
            WSocketError::NotConnected => None,
            WSocketError::ConnectionClosed(_) => None,
            WSocketError::FramedMessagesAreNotSupported => Some(CloseCode::Unsupported),
            WSocketError::TextFramesAreNotSupported => Some(CloseCode::Unsupported),
            WSocketError::InvalidUtf8(_) => Some(CloseCode::InvalidPayload),
            WSocketError::InvalidCloseCode(_) => None,
            WSocketError::InvalidStatusCode { .. } => None,
            WSocketError::InvalidUpgradeHeader => None,
            WSocketError::InvalidConnectionHeader => None,
            WSocketError::Hyper(_) => None,
            WSocketError::MissingSecWebSocketKey => None,
            WSocketError::InvalidSecWebsocketVersion => None,
        }
    }
}

} // verus!
