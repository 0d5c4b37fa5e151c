use wsocket::close::encode_close_body;
use wsocket::{Close, CloseCode, WSocketError};

#[test]
fn empty_close_body_has_no_status() {
    let c = Close::parse(&[]).unwrap();
    assert_eq!(c.code(), CloseCode::NoStatusRcvd);
    assert_eq!(c.reason(), None);
}

#[test]
fn one_byte_close_body_has_no_status() {
    let c = Close::parse(&[0x03]).unwrap();
    assert_eq!(c.code(), CloseCode::NoStatusRcvd);
    assert_eq!(c.reason(), None);
}

#[test]
fn close_body_with_code_only() {
    let c = Close::parse(&[0x03, 0xE8]).unwrap();
    assert_eq!(c.code(), CloseCode::Normal);
    assert_eq!(c.reason(), None);
}

#[test]
fn close_body_with_reason() {
    let c = Close::parse(&[0x03, 0xE9, b'h', b'i']).unwrap();
    assert_eq!(c.code(), CloseCode::Away);
    assert_eq!(c.reason(), Some("hi"));
}

#[test]
fn close_body_with_application_code() {
    let c = Close::parse(&[0x0F, 0xA0]).unwrap();
    assert_eq!(c.code(), CloseCode::Application(4000));
}

#[test]
fn unknown_close_code_is_refused() {
    assert!(matches!(Close::parse(&[0x03, 0xEC]), Err(WSocketError::UnknownCloseCode(1004))));
    assert!(matches!(Close::parse(&[0x13, 0x88]), Err(WSocketError::UnknownCloseCode(5000))));
}

#[test]
fn invalid_utf8_reason_is_refused() {
    assert!(matches!(Close::parse(&[0x03, 0xE8, 0xFF, 0xFE]), Err(WSocketError::InvalidUtf8(_))));
}

#[test]
fn encoding_an_unsendable_code_fails() {
    let c = Close::new(CloseCode::Unsupported, None);
    assert!(matches!(c.encode(), Err(WSocketError::InvalidCloseCode(1003))));
    for code in [CloseCode::NoStatusRcvd, CloseCode::Abnormal, CloseCode::TlsHandshake] {
        assert!(Close::new(code, None).encode().is_err());
    }
}

#[test]
fn encoding_a_reason_that_does_not_fit_fails() {
    let c = Close::new(CloseCode::Normal, Some("x".repeat(124)));
    assert!(matches!(
        c.encode(),
        Err(WSocketError::ControlFrameMustHaveAPayloadLengthOf125BytesOrLess)
    ));
    let c = Close::new(CloseCode::Normal, Some("x".repeat(123)));
    assert_eq!(c.encode().unwrap().len(), 125);
}

#[test]
fn encode_then_parse() {
    let c = Close::new(CloseCode::PolicyViolation, Some("bye é".to_string()));
    let body = c.encode().unwrap();
    assert_eq!(&body[..2], &[0x03, 0xF0]);
    assert_eq!(Close::parse(&body).unwrap(), c);
    let c = Close::new(CloseCode::Normal, None);
    assert_eq!(c.encode().unwrap(), vec![0x03, 0xE8]);
}

#[test]
fn encode_close_body_writes_code_then_reason() {
    assert_eq!(encode_close_body(CloseCode::Away, Some("ok")), vec![0x03, 0xE9, b'o', b'k']);
    assert_eq!(encode_close_body(CloseCode::InternalError, None), vec![0x03, 0xF3]);
}

#[test]
fn close_codes_and_their_values() {
    let all = [
        (CloseCode::Normal, 1000u16, true),
        (CloseCode::Away, 1001, true),
        (CloseCode::ProtocolError, 1002, true),
        (CloseCode::Unsupported, 1003, false),
        (CloseCode::NoStatusRcvd, 1005, false),
        (CloseCode::Abnormal, 1006, false),
        (CloseCode::InvalidPayload, 1007, true),
        (CloseCode::PolicyViolation, 1008, true),
        (CloseCode::MessageTooBig, 1009, true),
        (CloseCode::MandatoryExt, 1010, true),
        (CloseCode::InternalError, 1011, true),
        (CloseCode::TlsHandshake, 1015, false),
        (CloseCode::Application(3000), 3000, true),
    ];
    for (code, value, sendable) in all {
        assert_eq!(code.value(), value);
        assert_eq!(CloseCode::try_from(value).unwrap(), code);
        assert_eq!(code.is_send_allowed(), sendable);
    }
    assert!(!CloseCode::Application(2999).is_send_allowed());
    assert_eq!(CloseCode::Away.name(), "Away");
}

#[test]
fn duplicate_keeps_code_and_reason() {
    let c = Close::new(CloseCode::Normal, Some("done".to_string()));
    assert_eq!(c.duplicate(), c);
}
