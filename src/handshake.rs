use vstd::prelude::*;
use vstd::utf8::encode_utf8;

use crate::error::WSocketError;

verus! {

/// The status of a response that switches protocols.
pub const SWITCHING_PROTOCOLS: u16 = 101;

/// The SHA-1 digest of some bytes.
pub uninterp spec fn sha1_of(data: Seq<u8>) -> Seq<u8>;

/// The standard, padded base64 text of some bytes.
pub uninterp spec fn base64_of(data: Seq<u8>) -> Seq<char>;

/// Relies on `sha1::Sha1::digest` (from the `Digest` trait): the SHA-1
/// digest of the bytes, which is twenty bytes long.
#[verifier::external_body]
fn sha1_digest(data: &[u8]) -> (r: Vec<u8>)
    ensures
        r@ == sha1_of(data@),
        r@.len() == 20,
{
    <sha1::Sha1 as sha1::Digest>::digest(data).to_vec()
}

/// Relies on `base64::Engine::encode` with the `STANDARD` engine: the
/// padded base64 text of the bytes, four characters for every three bytes
/// or part of three. It panics only when the length of the
/// text would overflow `usize`, which the bound rules out.
#[verifier::external_body]
fn base64_encode(data: &[u8]) -> (r: String)
    requires
        data@.len() <= usize::MAX / 2,
    ensures
        r@ == base64_of(data@),
        r@.len() == 4 * ((data@.len() + 2) / 3),
{
    base64::Engine::encode(&base64::engine::general_purpose::STANDARD, data)
}

/// Whether `b` is ASCII whitespace: space, tab, line feed, form feed or
/// carriage return.
pub open spec fn is_ws(b: u8) -> bool {
    b == 0x20 || b == 0x09 || b == 0x0A || b == 0x0C || b == 0x0D
}

/// The bytes without their leading whitespace.
pub open spec fn strip_start(s: Seq<u8>) -> Seq<u8>
    decreases s.len(),
{
    if s.len() > 0 && is_ws(s[0]) {
        strip_start(s.drop_first())
    } else {
        s
    }
}

/// The bytes without their trailing whitespace.
pub open spec fn strip_end(s: Seq<u8>) -> Seq<u8>
    decreases s.len(),
{
    if s.len() > 0 && is_ws(s.last()) {
        strip_end(s.drop_last())
    } else {
        s
    }
}

/// A byte with ASCII upper case letters folded to lower case.
pub open spec fn ascii_lower(b: u8) -> u8 {
    if 65 <= b <= 90 {
        (b + 32) as u8
    } else {
        b
    }
}

/// Equality of bytes up to ASCII case.
pub open spec fn eq_ignore_case(a: Seq<u8>, b: Seq<u8>) -> bool {
    a.len() == b.len() && forall|i: int| 0 <= i < a.len() ==> ascii_lower(a[i]) == ascii_lower(b[i])
}

/// The position of the first comma, or the length where there is none.
pub open spec fn first_comma(s: Seq<u8>) -> nat
    decreases s.len(),
{
    if s.len() == 0 {
        0
    } else if s[0] == 0x2C {
        0
    } else {
        1 + first_comma(s.drop_first())
    }
}

/// The pieces of a header value between commas.
pub open spec fn comma_pieces(s: Seq<u8>) -> Seq<Seq<u8>>
    decreases s.len(),
{
    let k = first_comma(s);
    if k >= s.len() {
        seq![s]
    } else {
        seq![s.subrange(0, k as int)] + comma_pieces(s.subrange((k + 1) as int, s.len() as int))
    }
}

/// Whether one comma-separated piece of `value`, trimmed, equals `token`
/// up to ASCII case.
pub open spec fn has_token(value: Seq<u8>, token: Seq<u8>) -> bool {
    exists|i: int|
        0 <= i < comma_pieces(value).len() && #[trigger] eq_ignore_case(
            strip_end(strip_start(comma_pieces(value)[i])),
            token,
        )
}

/// Whether some value of a header holds `token` (see `has_token`).
pub open spec fn values_have_token(values: Seq<Vec<u8>>, token: Seq<u8>) -> bool {
    exists|i: int| 0 <= i < values.len() && #[trigger] has_token(values[i]@, token)
}

proof fn lemma_first_comma(s: Seq<u8>)
    ensures
        first_comma(s) <= s.len(),
        first_comma(s) < s.len() ==> s[first_comma(s) as int] == 0x2C,
        forall|j: int| 0 <= j < first_comma(s) ==> s[j] != 0x2C,
    decreases s.len(),
{
    if s.len() > 0 && s[0] != 0x2C {
        let t = s.drop_first();
        lemma_first_comma(t);
        assert forall|j: int| 0 <= j < first_comma(s) implies s[j] != 0x2C by {
            if j > 0 {
                assert(s[j] == t[j - 1]);
            }
        }
    }
}

/// Whether `b` is ASCII whitespace.
pub fn is_ascii_whitespace(b: u8) -> (r: bool)
    ensures
        r == is_ws(b),
{
    b == 0x20 || b == 0x09 || b == 0x0A || b == 0x0C || b == 0x0D
}

/// The bytes without their leading ASCII whitespace.
pub fn trim_start(data: &[u8]) -> (r: &[u8])
    ensures
        r@ == strip_start(data@),
{
    let len = data.len();
    let mut i: usize = 0;
    assert(data@.subrange(0, len as int) == data@);
    while i < len && is_ascii_whitespace(data[i])
        invariant
            i <= len == data@.len(),
            strip_start(data@) == strip_start(data@.subrange(i as int, len as int)),
        decreases len - i,
    {
        assert(data@.subrange(i as int, len as int).drop_first() == data@.subrange(
            i + 1,
            len as int,
        ));
        i = i + 1;
    }
    &data[i..len]
}

/// The bytes without their trailing ASCII whitespace.
pub fn trim_end(data: &[u8]) -> (r: &[u8])
    ensures
        r@ == strip_end(data@),
{
    let mut end: usize = data.len();
    assert(data@.subrange(0, end as int) == data@);
    while end > 0 && is_ascii_whitespace(data[end - 1])
        invariant
            end <= data@.len(),
            strip_end(data@) == strip_end(data@.subrange(0, end as int)),
        decreases end,
    {
        assert(data@.subrange(0, end as int).drop_last() == data@.subrange(0, end - 1));
        end = end - 1;
    }
    &data[0..end]
}

/// The bytes without leading or trailing ASCII whitespace.
pub fn trim(data: &[u8]) -> (r: &[u8])
    ensures
        r@ == strip_end(strip_start(data@)),
{
    trim_end(trim_start(data))
}

/// Folds an ASCII upper case letter to lower case.
pub fn to_ascii_lower(b: u8) -> (r: u8)
    ensures
        r == ascii_lower(b),
{
    if 65 <= b && b <= 90 {
        b + 32
    } else {
        b
    }
}

/// Compares bytes up to ASCII case.
pub fn eq_ignore_ascii_case(a: &[u8], b: &[u8]) -> (r: bool)
    ensures
        r == eq_ignore_case(a@, b@),
{
    if a.len() != b.len() {
        return false;
    }
    let mut i: usize = 0;
    while i < a.len()
        invariant
            a@.len() == b@.len(),
            i <= a@.len(),
            forall|j: int| 0 <= j < i ==> ascii_lower(a@[j]) == ascii_lower(b@[j]),
        decreases a@.len() - i,
    {
        if to_ascii_lower(a[i]) != to_ascii_lower(b[i]) {
            return false;
        }
        i = i + 1;
    }
    true
}

/// Whether one comma-separated piece of `value`, trimmed, equals `token`
/// up to ASCII case.
pub fn value_has_token(value: &[u8], token: &[u8]) -> (r: bool)
    ensures
        r == has_token(value@, token@),
    decreases value@.len(),
{
    let len = value.len();
    let mut k: usize = 0;
    while k < len && value[k] != 0x2C
        invariant
            k <= len == value@.len(),
            forall|j: int| 0 <= j < k ==> value@[j] != 0x2C,
        decreases len - k,
    {
        k = k + 1;
    }
    proof {
        lemma_first_comma(value@);
        if first_comma(value@) < k {
            assert(value@[first_comma(value@) as int] == 0x2C);
        }
        assert(first_comma(value@) == k);
    }
    let ghost pieces = comma_pieces(value@);
    let first = eq_ignore_ascii_case(trim(&value[0..k]), token);
    if k >= len {
        assert(value@.subrange(0, k as int) == value@);
        if first {
            assert(eq_ignore_case(strip_end(strip_start(pieces[0])), token@));
        }
        first
    } else if first {
        assert(pieces[0] == value@.subrange(0, k as int));
        assert(eq_ignore_case(strip_end(strip_start(pieces[0])), token@));
        true
    } else {
        let rest = &value[k + 1..len];
        let found = value_has_token(rest, token);
        proof {
            let tail = comma_pieces(rest@);
            assert(pieces == seq![value@.subrange(0, k as int)] + tail);
            if found {
                let i = choose|i: int|
                    0 <= i < tail.len() && #[trigger] eq_ignore_case(
                        strip_end(strip_start(tail[i])),
                        token@,
                    );
                assert(pieces[i + 1] == tail[i]);
                assert(eq_ignore_case(strip_end(strip_start(pieces[i + 1])), token@));
            } else if has_token(value@, token@) {
                let i = choose|i: int|
                    0 <= i < pieces.len() && #[trigger] eq_ignore_case(
                        strip_end(strip_start(pieces[i])),
                        token@,
                    );
                assert(i != 0);
                assert(pieces[i] == tail[i - 1]);
                assert(eq_ignore_case(strip_end(strip_start(tail[i - 1])), token@));
            }
        }
        found
    }
}

/// Whether some value of a header holds `token` as one of its
/// comma-separated pieces, trimmed and up to ASCII case.
pub fn header_contains_value(values: &Vec<Vec<u8>>, token: &[u8]) -> (r: bool)
    ensures
        r == values_have_token(values@, token@),
{
    let mut i: usize = 0;
    while i < values.len()
        invariant
            i <= values@.len(),
            forall|j: int| 0 <= j < i ==> !#[trigger] has_token(values@[j]@, token@),
        decreases values@.len() - i,
    {
        if value_has_token(values[i].as_slice(), token) {
            return true;
        }
        i = i + 1;
    }
    false
}

/// The values of the headers that the opening handshake looks at, each
/// header with all of its values in order.
pub struct UpgradeHeaders {
    pub connection: Vec<Vec<u8>>,
    pub upgrade: Vec<Vec<u8>>,
    pub sec_websocket_key: Vec<Vec<u8>>,
    pub sec_websocket_version: Vec<Vec<u8>>,
}

/// Whether headers ask to upgrade to a WebSocket: `Connection` holds
/// `upgrade` and `Upgrade` holds `websocket`.
pub open spec fn is_upgrade_spec(h: UpgradeHeaders) -> bool {
    values_have_token(h.connection@, encode_utf8("upgrade"@)) && values_have_token(
        h.upgrade@,
        encode_utf8("websocket"@),
    )
}

/// The value that a server appends to the client's key before hashing it.
pub open spec fn websocket_guid() -> Seq<u8> {
    encode_utf8("258EAFA5-E914-47DA-95CA-C5AB0DC85B11"@)
}

/// The accept key that answers a client's key: the base64 text of the
/// SHA-1 digest of the key followed by the GUID.
pub open spec fn accept_key_of(key: Seq<u8>) -> Seq<char> {
    base64_of(sha1_of(key + websocket_guid()))
}

/// What a server makes of an upgrade request's headers: the accept key for
/// the first `Sec-WebSocket-Key` value, once the first
/// `Sec-WebSocket-Version` value is exactly `13`.
pub open spec fn accept_outcome(h: UpgradeHeaders, r: Result<String, WSocketError>) -> bool {
    if h.sec_websocket_key@.len() == 0 {
        r matches Err(WSocketError::MissingSecWebSocketKey)
    } else if h.sec_websocket_version@.len() == 0 || h.sec_websocket_version@[0]@ != encode_utf8(
        "13"@,
    ) {
        r matches Err(WSocketError::InvalidSecWebsocketVersion)
    } else {
        r matches Ok(k) && k@ == accept_key_of(h.sec_websocket_key@[0]@)
    }
}

/// The accept key that answers a client's key.
pub fn sec_websocket_protocol(key: &[u8]) -> (r: String)
    ensures
        r@ == accept_key_of(key@),
        r@.len() == 28,
{
    let guid = "258EAFA5-E914-47DA-95CA-C5AB0DC85B11".as_bytes();
    let mut input: Vec<u8> = Vec::new();
    let mut i: usize = 0;
    while i < key.len()
        invariant
            i <= key@.len(),
            input@ == key@.subrange(0, i as int),
        decreases key@.len() - i,
    {
        input.push(key[i]);
        i = i + 1;
    }
    let mut j: usize = 0;
    while j < guid.len()
        invariant
            i == key@.len(),
            j <= guid@.len(),
            input@ == key@.subrange(0, i as int) + guid@.subrange(0, j as int),
        decreases guid@.len() - j,
    {
        input.push(guid[j]);
        j = j + 1;
    }
    assert(input@ == key@ + websocket_guid()) by {
        assert(key@.subrange(0, i as int) == key@);
        assert(guid@.subrange(0, j as int) == guid@);
    }
    let digest = sha1_digest(input.as_slice());
    base64_encode(digest.as_slice())
}

/// Whether request headers ask to upgrade to a WebSocket.
pub fn is_upgrade_request(headers: &UpgradeHeaders) -> (r: bool)
    ensures
        r == is_upgrade_spec(*headers),
{
    header_contains_value(&headers.connection, "upgrade".as_bytes()) && header_contains_value(
        &headers.upgrade,
        "websocket".as_bytes(),
    )
}

/// Whether two byte strings are equal.
fn bytes_eq(a: &[u8], b: &[u8]) -> (r: bool)
    ensures
        r == (a@ == b@),
{
    if a.len() != b.len() {
        return false;
    }
    let mut i: usize = 0;
    while i < a.len()
        invariant
            a@.len() == b@.len(),
            i <= a@.len(),
            forall|j: int| 0 <= j < i ==> a@[j] == b@[j],
        decreases a@.len() - i,
    {
        if a[i] != b[i] {
            return false;
        }
        i = i + 1;
    }
    assert(a@ =~= b@);
    true
}

/// Checks a request to upgrade and gives the accept key to answer it with.
pub fn accept_upgrade(headers: &UpgradeHeaders) -> (r: Result<String, WSocketError>)
    ensures
        accept_outcome(*headers, r),
{
    if headers.sec_websocket_key.len() == 0 {
        return Err(WSocketError::MissingSecWebSocketKey);
    }
    if headers.sec_websocket_version.len() == 0 {
        return Err(WSocketError::InvalidSecWebsocketVersion);
    }
    let version = headers.sec_websocket_version[0].as_slice();
    if !bytes_eq(version, "13".as_bytes()) {
        return Err(WSocketError::InvalidSecWebsocketVersion);
    }
    Ok(sec_websocket_protocol(headers.sec_websocket_key[0].as_slice()))
}

/// Checks a server's answer to an upgrade request: the status must be 101,
/// `Upgrade` must hold `websocket` and `Connection` must hold `upgrade`,
/// checked in that order.
pub fn verify(status: u16, headers: &UpgradeHeaders) -> (r: Result<(), WSocketError>)
    ensures
        status != SWITCHING_PROTOCOLS ==> (r matches Err(
            WSocketError::InvalidStatusCode { actual, expected },
        ) && actual == status && expected == SWITCHING_PROTOCOLS),
        status == SWITCHING_PROTOCOLS && !values_have_token(
            headers.upgrade@,
            encode_utf8("websocket"@),
        ) ==> (r matches Err(WSocketError::InvalidUpgradeHeader)),
        status == SWITCHING_PROTOCOLS && values_have_token(
            headers.upgrade@,
            encode_utf8("websocket"@),
        ) && !values_have_token(headers.connection@, encode_utf8("upgrade"@)) ==> (r matches Err(
            WSocketError::InvalidConnectionHeader,
        )),
        status == SWITCHING_PROTOCOLS && is_upgrade_spec(*headers) ==> r is Ok,
{
    if status != SWITCHING_PROTOCOLS {
        return Err(
            WSocketError::InvalidStatusCode { actual: status, expected: SWITCHING_PROTOCOLS },
        );
    }
    if !header_contains_value(&headers.upgrade, "websocket".as_bytes()) {
        return Err(WSocketError::InvalidUpgradeHeader);
    }
    if !header_contains_value(&headers.connection, "upgrade".as_bytes()) {
        return Err(WSocketError::InvalidConnectionHeader);
    }
    Ok(())
}

/// The `Sec-WebSocket-Key` value for a sixteen-byte nonce: its base64 text.
pub fn encode_key(nonce: [u8; 16]) -> (r: String)
    ensures
        r@ == base64_of(nonce@),
        r@.len() == 24,
{
    base64_encode(nonce.as_slice())
}

/// A fresh `Sec-WebSocket-Key` value: the base64 text of sixteen random
/// bytes.
pub fn generate_key() -> (r: String)
    ensures
        exists|nonce: Seq<u8>| nonce.len() == 16 && r@ == base64_of(nonce),
        r@.len() == 24,
{
    let nonce = rand::random::<[u8; 16]>();
    encode_key(nonce)
}

} // verus!
