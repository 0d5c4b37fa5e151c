use vstd::prelude::*;
use vstd::utf8::{
    decode_utf8, encode_utf8, encode_utf8_decode_utf8, encode_utf8_valid_utf8, valid_utf8,
};

use crate::error::WSocketError;

verus! {

/// The reason an endpoint gives when it closes a connection (RFC 6455, 7.4.1).
///
/// Codes an application defines (3000 to 4999) are read from the wire as
/// `Application`; they have no name of their own.
#[derive(Debug, Clone, Copy, PartialEq, Eq, Structural)]
pub enum CloseCode {
    /// The purpose for which the connection was established has been fulfilled.
    Normal,
    /// Server going down or a browser having navigated away from a page.
    Away,
    /// An endpoint is terminating the connection due to a protocol error.
    ProtocolError,
    /// It has received a type of data it cannot accept.
    Unsupported,
    /// No status code was actually present.
    NoStatusRcvd,
    /// Connection was closed abnormally.
    Abnormal,
    /// Data within a message was not consistent with the type of the message.
    InvalidPayload,
    /// A generic status code when there is no other more suitable one.
    PolicyViolation,
    /// A message was too big to process.
    MessageTooBig,
    /// The client expected the server to negotiate one or more extensions.
    MandatoryExt,
    /// The server met an unexpected condition.
    InternalError,
    /// The connection was closed due to a failure to perform a TLS handshake.
    TlsHandshake,
    /// An application-defined code.
    Application(u16),
}

/// The numeric value of a close code.
pub open spec fn close_code_value(c: CloseCode) -> u16 {
    match c {
        CloseCode::Normal => 1000,
        CloseCode::Away => 1001,
        CloseCode::ProtocolError => 1002,
        CloseCode::Unsupported => 1003,
        CloseCode::NoStatusRcvd => 1005,
        CloseCode::Abnormal => 1006,
        CloseCode::InvalidPayload => 1007,
        CloseCode::PolicyViolation => 1008,
        CloseCode::MessageTooBig => 1009,
        CloseCode::MandatoryExt => 1010,
        CloseCode::InternalError => 1011,
        CloseCode::TlsHandshake => 1015,
        CloseCode::Application(v) => v,
    }
}

/// Whether a numeric code lies in the application-defined ranges.
pub open spec fn is_application_code(v: u16) -> bool {
    3000 <= v <= 4999
}

/// The close code that a numeric value stands for, if any.
pub open spec fn close_code_of(v: u16) -> Option<CloseCode> {
    if v == 1000 {
        Some(CloseCode::Normal)
    } else if v == 1001 {
        Some(CloseCode::Away)
    } else if v == 1002 {
        Some(CloseCode::ProtocolError)
    } else if v == 1003 {
        Some(CloseCode::Unsupported)
    } else if v == 1005 {
        Some(CloseCode::NoStatusRcvd)
    } else if v == 1006 {
        Some(CloseCode::Abnormal)
    } else if v == 1007 {
        Some(CloseCode::InvalidPayload)
    } else if v == 1008 {
        Some(CloseCode::PolicyViolation)
    } else if v == 1009 {
        Some(CloseCode::MessageTooBig)
    } else if v == 1010 {
        Some(CloseCode::MandatoryExt)
    } else if v == 1011 {
        Some(CloseCode::InternalError)
    } else if v == 1015 {
        Some(CloseCode::TlsHandshake)
    } else if is_application_code(v) {
        Some(CloseCode::Application(v))
    } else {
        None
    }
}

/// Whether an endpoint may put this code in a close frame it sends. Codes
/// that describe a condition (no status, abnormal closure, TLS failure,
/// unsupported data) are never sent.
pub open spec fn close_code_sendable(c: CloseCode) -> bool {
    match c {
        CloseCode::Unsupported => false,
        CloseCode::NoStatusRcvd => false,
        CloseCode::Abnormal => false,
        CloseCode::TlsHandshake => false,
        CloseCode::Application(v) => is_application_code(v),
        _ => true,
    }
}

/// The largest number of reason bytes a close frame can carry: a control
/// frame holds at most 125 bytes, two of which are the code.
pub const MAX_CLOSE_REASON_LEN: usize = 123;

/// The body of a close frame: the code in big-endian order, then the reason.
pub open spec fn close_body(code: u16, reason: Seq<u8>) -> Seq<u8> {
    seq![(code / 256) as u8, (code % 256) as u8] + reason
}

/// The UTF-8 bytes of an optional reason; nothing when there is none.
pub open spec fn reason_bytes(reason: Option<Seq<char>>) -> Seq<u8> {
    match reason {
        Some(r) => encode_utf8(r),
        None => Seq::empty(),
    }
}

/// The view of an optional string.
pub open spec fn opt_view(s: Option<String>) -> Option<Seq<char>> {
    match s {
        Some(x) => Some(x@),
        None => None,
    }
}

/// Whether `c` can be encoded into a close frame.
pub open spec fn close_encodable(c: Close) -> bool {
    close_code_sendable(c.code) && reason_bytes(opt_view(c.reason)).len() <= MAX_CLOSE_REASON_LEN
}

/// The name of a close code.
pub open spec fn close_code_name(c: CloseCode) -> Seq<char> {
    match c {
        CloseCode::Normal => "Normal"@,
        CloseCode::Away => "Away"@,
        CloseCode::ProtocolError => "ProtocolError"@,
        CloseCode::Unsupported => "Unsupported"@,
        CloseCode::NoStatusRcvd => "NoStatusRcvd"@,
        CloseCode::Abnormal => "Abnormal"@,
        CloseCode::InvalidPayload => "InvalidPayload"@,
        CloseCode::PolicyViolation => "PolicyViolation"@,
        CloseCode::MessageTooBig => "MessageTooBig"@,
        CloseCode::MandatoryExt => "MandatoryExt"@,
        CloseCode::InternalError => "InternalError"@,
        CloseCode::TlsHandshake => "TlsHandshake"@,
        CloseCode::Application(_) => "Application"@,
    }
}

/// What reading the body `p` of a close frame gives. Under two bytes there
/// is no code: `NoStatusRcvd` with no reason. Otherwise the first two bytes
/// are the code in big-endian order; an unknown code fails with
/// `UnknownCloseCode`, and the bytes after the code, if any, are the reason,
/// which must be valid UTF-8 (else `InvalidUtf8`).
pub open spec fn close_parse_outcome(p: Seq<u8>, r: Result<Close, WSocketError>) -> bool {
    if p.len() < 2 {
        r matches Ok(c) && c.code == CloseCode::NoStatusRcvd && c.reason is None
    } else {
        let v = (p[0] as u16) * 256 + p[1] as u16;
        let rest = p.subrange(2, p.len() as int);
        match close_code_of(v as u16) {
            None => r matches Err(WSocketError::UnknownCloseCode(x)) && x == v,
            Some(code) => if rest.len() == 0 {
                r matches Ok(c) && c.code == code && c.reason is None
            } else if valid_utf8(rest) {
                r matches Ok(c) && c.code == code && opt_view(c.reason) == Some(decode_utf8(rest))
            } else {
                r matches Err(WSocketError::InvalidUtf8(_))
            },
        }
    }
}

/// Every close code is read back from its own numeric value.
pub proof fn lemma_close_code_round_trip(c: CloseCode)
    requires
        c is Application ==> is_application_code(close_code_value(c)),
    ensures
        close_code_of(close_code_value(c)) == Some(c),
{
}

/// Reading back an encoded close value gives the same code and reason. An
/// empty reason is the one exception: it reads back as no reason, since the
/// two encode alike.
pub proof fn lemma_close_round_trip(c: Close, r: Result<Close, WSocketError>)
    requires
        close_encodable(c),
        c.reason matches Some(s) ==> s@.len() > 0,
        close_parse_outcome(close_body(close_code_value(c.code), reason_bytes(opt_view(c.reason))), r),
    ensures
        r matches Ok(back) && back@ == c@,
{
    broadcast use encode_utf8_valid_utf8, encode_utf8_decode_utf8;

    let v = close_code_value(c.code);
    let rb = reason_bytes(opt_view(c.reason));
    let body = close_body(v, rb);
    lemma_close_code_round_trip(c.code);
    assert(((v / 256) as u8 as u16) * 256 + ((v % 256) as u8 as u16) == v);
    assert(body.subrange(2, body.len() as int) =~= rb);
    if let Some(s) = c.reason {
        assert(decode_utf8(encode_utf8(s@)) == s@);
        if rb.len() == 0 {
            assert(decode_utf8(rb) =~= Seq::<char>::empty());
        }
    }
}

impl CloseCode {
    /// Whether it is allowed to send this status code in a close frame.
    pub fn is_send_allowed(&self) -> (r: bool)
        ensures
            r == close_code_sendable(*self),
    {
        match self {
            CloseCode::Normal => true,
            CloseCode::Away => true,
            CloseCode::ProtocolError => true,
            CloseCode::Unsupported => false,
            CloseCode::NoStatusRcvd => false,
            CloseCode::Abnormal => false,
            CloseCode::InvalidPayload => true,
            CloseCode::PolicyViolation => true,
            CloseCode::MessageTooBig => true,
            CloseCode::MandatoryExt => true,
            CloseCode::InternalError => true,
            CloseCode::TlsHandshake => false,
            CloseCode::Application(v) => 3000 <= *v && *v <= 4999,
        }
    }

    /// The numeric value of this code.
    pub fn value(&self) -> (r: u16)
        ensures
            r == close_code_value(*self),
    {
        match self {
            CloseCode::Normal => 1000,
            CloseCode::Away => 1001,
            CloseCode::ProtocolError => 1002,
            CloseCode::Unsupported => 1003,
            CloseCode::NoStatusRcvd => 1005,
            CloseCode::Abnormal => 1006,
            CloseCode::InvalidPayload => 1007,
            CloseCode::PolicyViolation => 1008,
            CloseCode::MessageTooBig => 1009,
            CloseCode::MandatoryExt => 1010,
            CloseCode::InternalError => 1011,
            CloseCode::TlsHandshake => 1015,
            CloseCode::Application(v) => *v,
        }
    }

    /// Reads a close code from its numeric value.
    pub fn try_from(value: u16) -> (r: Result<CloseCode, WSocketError>)
        ensures
            close_code_of(value) matches Some(c) ==> r == Ok::<CloseCode, WSocketError>(c),
            close_code_of(value) is None ==> (r matches Err(WSocketError::UnknownCloseCode(v))
                && v == value),
    {
        match value {
            1000 => Ok(CloseCode::Normal),
            1001 => Ok(CloseCode::Away),
            1002 => Ok(CloseCode::ProtocolError),
            1003 => Ok(CloseCode::Unsupported),
            1005 => Ok(CloseCode::NoStatusRcvd),
            1006 => Ok(CloseCode::Abnormal),
            1007 => Ok(CloseCode::InvalidPayload),
            1008 => Ok(CloseCode::PolicyViolation),
            1009 => Ok(CloseCode::MessageTooBig),
            1010 => Ok(CloseCode::MandatoryExt),
            1011 => Ok(CloseCode::InternalError),
            1015 => Ok(CloseCode::TlsHandshake),
            code => {
                if 3000 <= code && code <= 4999 {
                    Ok(CloseCode::Application(code))
                } else {
                    Err(WSocketError::UnknownCloseCode(code))
                }
            },
        }
    }

    /// The name of this code, for messages.
    pub fn name(&self) -> (r: &'static str)
        ensures
            r@ == close_code_name(*self),
    {
        match self {
            CloseCode::Normal => "Normal",
            CloseCode::Away => "Away",
            CloseCode::ProtocolError => "ProtocolError",
            CloseCode::Unsupported => "Unsupported",
            CloseCode::NoStatusRcvd => "NoStatusRcvd",
            CloseCode::Abnormal => "Abnormal",
            CloseCode::InvalidPayload => "InvalidPayload",
            CloseCode::PolicyViolation => "PolicyViolation",
            CloseCode::MessageTooBig => "MessageTooBig",
            CloseCode::MandatoryExt => "MandatoryExt",
            CloseCode::InternalError => "InternalError",
            CloseCode::TlsHandshake => "TlsHandshake",
            CloseCode::Application(_) => "Application",
        }
    }
}

/// A close code with an optional UTF-8 reason.
#[derive(Debug, Clone, PartialEq, Eq)]
pub struct Close {
    pub code: CloseCode,
    pub reason: Option<String>,
}

/// Relies on `String::from_utf8`: it succeeds exactly when the bytes are valid
/// UTF-8, and the string then holds the characters those bytes encode.
#[verifier::external_body]
fn string_from_utf8(bytes: Vec<u8>) -> (r: Result<String, std::string::FromUtf8Error>)
    ensures
        r is Ok <==> valid_utf8(bytes@),
        r matches Ok(s) ==> s@ == decode_utf8(bytes@),
{
    String::from_utf8(bytes)
}

/// Builds the body of a close frame from a code and an optional reason,
/// without checking either.
pub fn encode_close_body(code: CloseCode, reason: Option<&str>) -> (r: Vec<u8>)
    requires
        reason matches Some(s) ==> encode_utf8(s@).len() <= MAX_CLOSE_REASON_LEN,
    ensures
        r@ == close_body(
            close_code_value(code),
            match reason {
                Some(s) => encode_utf8(s@),
                None => Seq::<u8>::empty(),
            },
        ),
{
    let v = code.value();
    let mut buf: Vec<u8> = Vec::new();
    buf.push((v / 256) as u8);
    buf.push((v % 256) as u8);
    if let Some(s) = reason {
        let bytes = s.as_bytes();
        let mut i: usize = 0;
        while i < bytes.len()
            invariant
                0 <= i <= bytes@.len(),
                bytes@ == encode_utf8(s@),
                buf@ == seq![(v / 256) as u8, (v % 256) as u8] + bytes@.subrange(0, i as int),
            decreases bytes@.len() - i,
        {
            buf.push(bytes[i]);
            i = i + 1;
        }
        assert(bytes@.subrange(0, bytes@.len() as int) == bytes@);
    } else {
        assert(buf@ == seq![(v / 256) as u8, (v % 256) as u8] + Seq::<u8>::empty());
    }
    buf
}

impl View for Close {
    type V = (CloseCode, Option<Seq<char>>);

    open spec fn view(&self) -> (CloseCode, Option<Seq<char>>) {
        (self.code, opt_view(self.reason))
    }
}

impl Close {
    /// A copy of this value.
    pub fn duplicate(&self) -> (r: Close)
        ensures
            r@ == self@,
    {
        let reason = match &self.reason {
            Some(s) => Some(s.clone()),
            None => None,
        };
        Close { code: self.code, reason }
    }

    pub fn new(code: CloseCode, reason: Option<String>) -> (r: Close)
        ensures
            r.code == code,
            r.reason == reason,
    {
        Close { code, reason }
    }

    /// The close code.
    pub fn code(&self) -> (r: CloseCode)
        ensures
            r == self.code,
    {
        self.code
    }

    /// The reason, if any.
    pub fn reason(&self) -> (r: Option<&str>)
        ensures
            match r {
                Some(s) => opt_view(self.reason) == Some(s@),
                None => self.reason is None,
            },
    {
        match &self.reason {
            Some(s) => Some(s.as_str()),
            None => None,
        }
    }

    /// Encodes this value as the body of a close frame. Fails with
    /// `InvalidCloseCode` when the code may not be sent, and with
    /// `ControlFrameMustHaveAPayloadLengthOf125BytesOrLess` when the reason
    /// would not fit in a control frame.
    pub fn encode(&self) -> (r: Result<Vec<u8>, WSocketError>)
        ensures
            close_encodable(*self) ==> (r matches Ok(b) && b@ == close_body(
                close_code_value(self.code),
                reason_bytes(opt_view(self.reason)),
            )),
            !close_code_sendable(self.code) ==> (r matches Err(WSocketError::InvalidCloseCode(v))
                && v == close_code_value(self.code)),
            close_code_sendable(self.code) && !close_encodable(*self) ==> (r matches Err(
                WSocketError::ControlFrameMustHaveAPayloadLengthOf125BytesOrLess,
            )),
    {
        if !self.code.is_send_allowed() {
            return Err(WSocketError::InvalidCloseCode(self.code.value()));
        }
        match &self.reason {
            Some(s) => {
                let bytes = s.as_str().as_bytes();
                if bytes.len() > MAX_CLOSE_REASON_LEN {
                    return Err(WSocketError::ControlFrameMustHaveAPayloadLengthOf125BytesOrLess);
                }
                Ok(encode_close_body(self.code, Some(s.as_str())))
            },
            None => Ok(encode_close_body(self.code, None)),
        }
    }

    /// Reads the body of a close frame. Under two bytes there is no code:
    /// the result is `NoStatusRcvd` with no reason. Otherwise the first two
    /// bytes are the code in big-endian order, and what follows them, if
    /// anything, is the reason in UTF-8.
    pub fn parse(payload: &[u8]) -> (r: Result<Close, WSocketError>)
        ensures
            close_parse_outcome(payload@, r),
    {
        let len = payload.len();
        if len < 2 {
            return Ok(Close { code: CloseCode::NoStatusRcvd, reason: None });
        }
        let raw: u16 = (payload[0] as u16) * 256 + payload[1] as u16;
        let code = match CloseCode::try_from(raw) {
            Ok(c) => c,
            Err(e) => return Err(e),
        };
        if len == 2 {
            return Ok(Close { code, reason: None });
        }
        let mut rest: Vec<u8> = Vec::new();
        let mut i: usize = 2;
        while i < len
            invariant
                2 <= i <= len,
                len == payload@.len(),
                rest@ == payload@.subrange(2, i as int),
            decreases len - i,
        {
            rest.push(payload[i]);
            i = i + 1;
        }
        match string_from_utf8(rest) {
            Ok(s) => Ok(Close { code, reason: Some(s) }),
            Err(e) => Err(WSocketError::InvalidUtf8(e)),
        }
    }
}

} // verus!
