use vstd::prelude::*;

use crate::error::WSocketError;
use crate::opcode::{is_control_opcode, lemma_opcode_value_round_trip, opcode_of, opcode_value, OpCode};

verus! {

/// 256 to the power `n`.
pub open spec fn pow256(n: nat) -> nat
    decreases n,
{
    if n == 0 {
        1
    } else {
        256 * pow256((n - 1) as nat)
    }
}

/// The `n` bytes of `v` in big-endian order (most significant first).
pub open spec fn be_bytes(v: nat, n: nat) -> Seq<u8>
    decreases n,
{
    if n == 0 {
        Seq::empty()
    } else {
        be_bytes(v / 256, (n - 1) as nat).push((v % 256) as u8)
    }
}

/// The number that bytes stand for in big-endian order.
pub open spec fn be_value(s: Seq<u8>) -> nat
    decreases s.len(),
{
    if s.len() == 0 {
        0
    } else {
        be_value(s.drop_last()) * 256 + s.last() as nat
    }
}

/// XOR of each byte with the key byte at its position modulo four.
pub open spec fn mask_bytes(data: Seq<u8>, key: Seq<u8>) -> Seq<u8> {
    Seq::new(data.len(), |i: int| data[i] ^ key[i % 4])
}

/// The header of a frame: FIN and opcode, then MASK and the length, which
/// takes one byte under 126, a marker of 126 and two more bytes under 65536,
/// and otherwise a marker of 127 and eight more bytes.
pub open spec fn frame_header(fin: bool, op: OpCode, len: nat, masked: bool) -> Seq<u8> {
    let b0 = ((if fin { 128nat } else { 0nat }) + opcode_value(op)) as u8;
    let m: nat = if masked { 128 } else { 0 };
    if len < 126 {
        seq![b0, (m + len) as u8]
    } else if len < 65536 {
        seq![b0, (m + 126) as u8] + be_bytes(len, 2)
    } else {
        seq![b0, (m + 127) as u8] + be_bytes(len, 8)
    }
}

/// A whole frame on the wire; with a key, the key follows the header and the
/// payload is masked with it.
pub open spec fn frame_bytes(fin: bool, op: OpCode, data: Seq<u8>, key: Option<Seq<u8>>) -> Seq<
    u8,
> {
    match key {
        None => frame_header(fin, op, data.len(), false) + data,
        Some(k) => frame_header(fin, op, data.len(), true) + k + mask_bytes(data, k),
    }
}

/// What reading a frame from the front of some bytes comes to.
pub enum FrameRead {
    /// A whole frame, which took the first `consumed` bytes.
    Done { fin: bool, opcode: OpCode, data: Seq<u8>, consumed: nat },
    /// The frame cannot be told apart before `needed` bytes are there.
    Need { needed: nat },
    /// The bytes break the protocol, or the frame is larger than allowed.
    Fault { error: WSocketError },
}

/// How many extended length bytes follow the first two header bytes.
pub open spec fn ext_len_size(op: OpCode, len7: nat) -> nat {
    if is_control_opcode(op) {
        0
    } else if len7 == 126 {
        2
    } else if len7 == 127 {
        8
    } else {
        0
    }
}

/// Reads one frame from the front of `input`, with payloads longer than
/// `max` refused as soon as the header is there; so is a frame whose size
/// does not fit in memory at all.
pub open spec fn read_spec(input: Seq<u8>, max: nat) -> FrameRead {
    if input.len() < 2 {
        FrameRead::Need { needed: 2 }
    } else {
        let b0 = input[0];
        let b1 = input[1];
        let fin = b0 >= 128;
        let rsv = (b0 / 16) % 8;
        let masked = b1 >= 128;
        let len7 = (b1 % 128) as nat;
        match opcode_of(b0 % 16) {
            None => FrameRead::Fault { error: WSocketError::UnknownOpCode(b0 % 16) },
            Some(op) => if rsv != 0 {
                FrameRead::Fault { error: WSocketError::ReserveBitMustBeNull }
            } else if is_control_opcode(op) && !fin {
                FrameRead::Fault { error: WSocketError::ControlFrameMustNotBeFragmented }
            } else if is_control_opcode(op) && len7 > 125 {
                FrameRead::Fault {
                    error: WSocketError::ControlFrameMustHaveAPayloadLengthOf125BytesOrLess,
                }
            } else {
                let ext = ext_len_size(op, len7);
                if input.len() < 2 + ext {
                    FrameRead::Need { needed: 2 + ext }
                } else {
                    let len = if ext == 0 {
                        len7
                    } else {
                        be_value(input.subrange(2, (2 + ext) as int))
                    };
                    if len > max {
                        FrameRead::Fault { error: WSocketError::PayloadTooLarge }
                    } else {
                        let key_at = 2 + ext;
                        let start = key_at + if masked { 4nat } else { 0nat };
                        let end = start + len;
                        if end > usize::MAX {
                            FrameRead::Fault { error: WSocketError::PayloadTooLarge }
                        } else if input.len() < end {
                            FrameRead::Need { needed: end }
                        } else {
                            let payload = input.subrange(start as int, end as int);
                            FrameRead::Done {
                                fin,
                                opcode: op,
                                data: if masked {
                                    mask_bytes(payload, input.subrange(key_at as int, (key_at + 4) as int))
                                } else {
                                    payload
                                },
                                consumed: end,
                            }
                        }
                    }
                }
            },
        }
    }
}

/// One frame: the FIN flag, the opcode and a view of the (unmasked) payload
/// in a buffer that the caller owns.
pub struct Frame<'a> {
    pub fin: bool,
    pub opcode: OpCode,
    pub data: &'a [u8],
}

/// The outcome of a successful read.
pub enum ReadStatus<'a> {
    /// A frame, read from the first `consumed` bytes of the input.
    Complete { frame: Frame<'a>, consumed: usize },
    /// The input must hold at least `needed` bytes before the frame can be read.
    Incomplete { needed: usize },
}

/// Whether an executable read result is what `read_spec` gives.
pub open spec fn read_result_is(r: Result<ReadStatus<'_>, WSocketError>, s: FrameRead) -> bool {
    match s {
        FrameRead::Done { fin, opcode, data, consumed } => match r {
            Ok(ReadStatus::Complete { frame, consumed: c }) => frame.fin == fin && frame.opcode
                == opcode && frame.data@ == data && c == consumed,
            _ => false,
        },
        FrameRead::Need { needed } => match r {
            Ok(ReadStatus::Incomplete { needed: n }) => n == needed,
            _ => false,
        },
        FrameRead::Fault { error } => match r {
            Err(e) => e == error,
            _ => false,
        },
    }
}

proof fn lemma_be_value_bound(s: Seq<u8>)
    ensures
        be_value(s) < pow256(s.len()),
    decreases s.len(),
{
    if s.len() > 0 {
        lemma_be_value_bound(s.drop_last());
        let a = be_value(s.drop_last());
        let p = pow256((s.len() - 1) as nat);
        let b = s.last() as nat;
        assert(a * 256 + b < 256 * p) by (nonlinear_arith)
            requires
                a < p,
                b < 256,
        ;
    }
}

/// Big-endian bytes read back as the number they were written from.
pub proof fn lemma_be_round_trip(v: nat, n: nat)
    requires
        v < pow256(n),
    ensures
        be_bytes(v, n).len() == n,
        be_value(be_bytes(v, n)) == v,
    decreases n,
{
    if n > 0 {
        let p = pow256((n - 1) as nat);
        assert(v / 256 < p) by (nonlinear_arith)
            requires
                v < 256 * p,
        ;
        lemma_be_round_trip(v / 256, (n - 1) as nat);
        let s = be_bytes(v, n);
        assert(s.drop_last() == be_bytes(v / 256, (n - 1) as nat));
        assert((v / 256) * 256 + v % 256 == v) by (nonlinear_arith);
    }
}

/// Masking twice with the same key gives the bytes back.
pub proof fn lemma_mask_involution(data: Seq<u8>, key: Seq<u8>)
    requires
        key.len() == 4,
    ensures
        mask_bytes(mask_bytes(data, key), key) == data,
{
    let once = mask_bytes(data, key);
    let twice = mask_bytes(once, key);
    assert forall|i: int| 0 <= i < data.len() implies twice[i] == data[i] by {
        let a = data[i];
        let k = key[i % 4];
        assert((a ^ k) ^ k == a) by (bit_vector);
    }
    assert(twice =~= data);
}

/// Builds the `n` big-endian bytes of `v`.
fn be_encode(v: u64, n: usize) -> (r: Vec<u8>)
    ensures
        r@ == be_bytes(v as nat, n as nat),
        r@.len() == n,
    decreases n,
{
    if n == 0 {
        Vec::new()
    } else {
        let mut r = be_encode(v / 256, n - 1);
        r.push((v % 256) as u8);
        r
    }
}

/// Reads the big-endian number in `s[start..start + n]`.
fn be_decode(s: &[u8], start: usize, n: usize) -> (r: u64)
    requires
        start + n <= s@.len(),
        n <= 8,
    ensures
        r as nat == be_value(s@.subrange(start as int, start + n)),
{
    let total = s.len();
    let mut acc: u64 = 0;
    let mut i: usize = 0;
    while i < n
        invariant
            total == s@.len(),
            i <= n <= 8,
            start + n <= s@.len(),
            acc as nat == be_value(s@.subrange(start as int, start + i)),
        decreases n - i,
    {
        let ghost part = s@.subrange(start as int, start + i);
        let ghost next = s@.subrange(start as int, start + i + 1);
        assert(next.drop_last() == part);
        proof {
            lemma_be_value_bound(part);
            reveal_with_fuel(pow256, 9);
            assert(pow256(7) == 72057594037927936);
            assert(pow256(i as nat) <= pow256(7)) by {
                lemma_pow256_monotone(i as nat, 7);
            }
            let a = acc as nat;
            let p = pow256(i as nat);
            assert(a * 256 + 255 < 18446744073709551616) by (nonlinear_arith)
                requires
                    a < p,
                    p <= 72057594037927936,
            ;
        }
        assert(start + i < s@.len());
        let byte = s[start + i] as u64;
        assert(acc * 256 + byte <= u64::MAX);
        acc = acc * 256 + byte;
        i = i + 1;
    }
    acc
}

proof fn lemma_pow256_monotone(a: nat, b: nat)
    requires
        a <= b,
    ensures
        pow256(a) <= pow256(b),
    decreases b,
{
    if a < b {
        lemma_pow256_monotone(a, (b - 1) as nat);
    }
}

impl<'a> Frame<'a> {
    pub fn new(fin: bool, opcode: OpCode, data: &'a [u8]) -> (r: Frame<'a>)
        ensures
            r.fin == fin,
            r.opcode == opcode,
            r.data@ == data@,
    {
        Frame { fin, opcode, data }
    }

    /// Reads one frame from the front of `input`; see `read_spec`. A masked
    /// payload is unmasked where it lies, and the frame's data is a view of
    /// it, so no payload is copied.
    pub fn read(input: &'a mut [u8], max_payload_len: usize) -> (r: Result<
        ReadStatus<'a>,
        WSocketError,
    >)
        ensures
            read_result_is(r, read_spec(old(input)@, max_payload_len as nat)),
    {
        let ghost orig = input@;
        if input.len() < 2 {
            return Ok(ReadStatus::Incomplete { needed: 2 });
        }
        let b0 = input[0];
        let b1 = input[1];
        let fin = b0 >= 128;
        let rsv = (b0 / 16) % 8;
        let masked = b1 >= 128;
        let len7 = b1 % 128;
        let opcode = match OpCode::try_from(b0 % 16) {
            Ok(op) => op,
            Err(e) => return Err(e),
        };
        if rsv != 0 {
            return Err(WSocketError::ReserveBitMustBeNull);
        }
        let control = opcode.is_control();
        if control && !fin {
            return Err(WSocketError::ControlFrameMustNotBeFragmented);
        }
        if control && len7 > 125 {
            return Err(WSocketError::ControlFrameMustHaveAPayloadLengthOf125BytesOrLess);
        }
        let ext: usize = if control {
            0
        } else if len7 == 126 {
            2
        } else if len7 == 127 {
            8
        } else {
            0
        };
        if input.len() < 2 + ext {
            return Ok(ReadStatus::Incomplete { needed: 2 + ext });
        }
        let len: u64 = if ext == 0 {
            len7 as u64
        } else {
            be_decode(input, 2, ext)
        };
        if len > max_payload_len as u64 {
            return Err(WSocketError::PayloadTooLarge);
        }
        let len = len as usize;
        let key_at = 2 + ext;
        let start = if masked {
            key_at + 4
        } else {
            key_at
        };
        if len > usize::MAX - start {
            return Err(WSocketError::PayloadTooLarge);
        }
        let end = start + len;
        if input.len() < end {
            return Ok(ReadStatus::Incomplete { needed: end });
        }
        if masked {
            let key: [u8; 4] = [input[key_at], input[key_at + 1], input[key_at + 2], input[key_at + 3]];
            assert(key@ =~= orig.subrange(key_at as int, key_at + 4));
            let mut i: usize = 0;
            while i < len
                invariant
                    i <= len,
                    start == key_at + 4,
                    start + len == end <= orig.len(),
                    input@.len() == orig.len(),
                    key@ == orig.subrange(key_at as int, key_at + 4),
                    forall|j: int|
                        0 <= j < orig.len() ==> input@[j] == if start <= j < start + i {
                            orig[j] ^ key@[(j - start) % 4]
                        } else {
                            orig[j]
                        },
                decreases len - i,
            {
                let b = input[start + i] ^ key[i % 4];
                input[start + i] = b;
                i = i + 1;
            }
        }
        let view: &'a [u8] = input;
        let data = &view[start..end];
        proof {
            let payload = orig.subrange(start as int, end as int);
            if masked {
                assert(data@ =~= mask_bytes(payload, orig.subrange(key_at as int, key_at + 4)));
            } else {
                assert(data@ =~= payload);
            }
        }
        Ok(ReadStatus::Complete { frame: Frame { fin, opcode, data }, consumed: end })
    }

    /// The header of this frame, with the MASK bit set when `masked`.
    pub fn write_header(&self, masked: bool) -> (r: Vec<u8>)
        ensures
            r@ == frame_header(self.fin, self.opcode, self.data@.len(), masked),
    {
        let b0: u8 = (if self.fin {
            128u8
        } else {
            0u8
        }) + self.opcode.value();
        let m: u8 = if masked {
            128
        } else {
            0
        };
        let len = self.data.len();
        let mut r: Vec<u8> = Vec::new();
        r.push(b0);
        if len < 126 {
            r.push(m + len as u8);
        } else if len < 65536 {
            r.push(m + 126);
            let ext = be_encode(len as u64, 2);
            let mut i: usize = 0;
            while i < 2
                invariant
                    i <= 2,
                    ext@.len() == 2,
                    r@ == seq![b0, (m + 126) as u8] + ext@.subrange(0, i as int),
                decreases 2 - i,
            {
                r.push(ext[i]);
                i = i + 1;
            }
            assert(ext@.subrange(0, 2) == ext@);
        } else {
            r.push(m + 127);
            let ext = be_encode(len as u64, 8);
            let mut i: usize = 0;
            while i < 8
                invariant
                    i <= 8,
                    ext@.len() == 8,
                    r@ == seq![b0, (m + 127) as u8] + ext@.subrange(0, i as int),
                decreases 8 - i,
            {
                r.push(ext[i]);
                i = i + 1;
            }
            assert(ext@.subrange(0, 8) == ext@);
        }
        r
    }

    /// The whole frame on the wire, payload unmasked.
    pub fn write_without_mask(&self) -> (r: Vec<u8>)
        ensures
            r@ == frame_bytes(self.fin, self.opcode, self.data@, None),
    {
        let mut r = self.write_header(false);
        let ghost head = r@;
        let mut i: usize = 0;
        while i < self.data.len()
            invariant
                i <= self.data@.len(),
                r@ == head + self.data@.subrange(0, i as int),
            decreases self.data@.len() - i,
        {
            r.push(self.data[i]);
            i = i + 1;
        }
        assert(self.data@.subrange(0, self.data@.len() as int) == self.data@);
        r
    }

    /// The whole frame on the wire, with `mask` as its masking key.
    pub fn write_with_mask(&self, mask: [u8; 4]) -> (r: Vec<u8>)
        ensures
            r@ == frame_bytes(self.fin, self.opcode, self.data@, Some(mask@)),
    {
        let mut r = self.write_header(true);
        let ghost head = r@;
        r.push(mask[0]);
        r.push(mask[1]);
        r.push(mask[2]);
        r.push(mask[3]);
        assert(r@ == head + mask@) by {
            assert(mask@ =~= seq![mask[0], mask[1], mask[2], mask[3]]);
        }
        let mut i: usize = 0;
        while i < self.data.len()
            invariant
                i <= self.data@.len(),
                r@.len() == head.len() + 4 + i,
                r@.subrange(0, (head.len() + 4) as int) == head + mask@,
                forall|j: int|
                    0 <= j < i ==> r@[head.len() + 4 + j] == self.data@[j] ^ mask@[j % 4],
            decreases self.data@.len() - i,
        {
            r.push(self.data[i] ^ mask[i % 4]);
            i = i + 1;
        }
        assert(r@ =~= head + mask@ + mask_bytes(self.data@, mask@));
        r
    }
}

/// The length byte and extended length of a header, read back: what
/// `read_spec` takes for the payload length is the length written.
proof fn lemma_header_fields(fin: bool, op: OpCode, len: nat, masked: bool, rest: Seq<u8>)
    requires
        is_control_opcode(op) ==> len <= 125,
        len < pow256(8),
    ensures
        ({
            let bytes = frame_header(fin, op, len, masked) + rest;
            let b0 = bytes[0];
            let b1 = bytes[1];
            let ext = ext_len_size(op, (b1 % 128) as nat);
            &&& (b0 >= 128) == fin
            &&& b0 % 16 == opcode_value(op)
            &&& (b0 / 16) % 8 == 0
            &&& (b1 >= 128) == masked
            &&& (is_control_opcode(op) ==> (b1 % 128) as nat == len)
            &&& frame_header(fin, op, len, masked).len() == 2 + ext
            &&& bytes.len() >= 2 + ext
            &&& (if ext == 0 {
                (b1 % 128) as nat
            } else {
                be_value(bytes.subrange(2, (2 + ext) as int))
            }) == len
        }),
{
    let h = frame_header(fin, op, len, masked);
    let bytes = h + rest;
    lemma_opcode_value_round_trip(op);
    let v = opcode_value(op);
    let b0 = bytes[0];
    assert(b0 == ((if fin { 128nat } else { 0nat }) + v) as u8);
    assert(b0 % 16 == v && (b0 / 16) % 8 == 0 && (b0 >= 128) == fin);
    reveal_with_fuel(pow256, 9);
    if len < 126 {
    } else if len < 65536 {
        lemma_be_round_trip(len, 2);
        assert(bytes.subrange(2, 4) =~= be_bytes(len, 2));
    } else {
        lemma_be_round_trip(len, 8);
        assert(bytes.subrange(2, 10) =~= be_bytes(len, 8));
    }
}

/// Reading back a frame that was written gives its FIN flag, opcode and
/// payload, masked or not, with exactly the frame's bytes consumed, whatever
/// follows them.
pub proof fn lemma_frame_round_trip(
    fin: bool,
    op: OpCode,
    data: Seq<u8>,
    key: Option<Seq<u8>>,
    rest: Seq<u8>,
    max: nat,
)
    requires
        data.len() <= max,
        frame_bytes(fin, op, data, key).len() <= usize::MAX,
        is_control_opcode(op) ==> fin && data.len() <= 125,
        key matches Some(k) ==> k.len() == 4,
    ensures
        read_spec(frame_bytes(fin, op, data, key) + rest, max) == (FrameRead::Done {
            fin,
            opcode: op,
            data,
            consumed: frame_bytes(fin, op, data, key).len(),
        }),
{
    let masked = key is Some;
    let h = frame_header(fin, op, data.len(), masked);
    let body = match key {
        None => data,
        Some(k) => k + mask_bytes(data, k),
    };
    let bytes = frame_bytes(fin, op, data, key) + rest;
    assert(frame_bytes(fin, op, data, key) =~= h + body);
    assert(bytes =~= h + (body + rest));
    reveal_with_fuel(pow256, 9);
    assert(data.len() < pow256(8));
    lemma_header_fields(fin, op, data.len(), masked, body + rest);
    lemma_opcode_value_round_trip(op);
    let key_at = h.len();
    match key {
        None => {
            assert(bytes.subrange(key_at as int, (key_at + data.len()) as int) =~= data);
        },
        Some(k) => {
            assert(bytes.subrange(key_at as int, (key_at + 4) as int) =~= k);
            assert(bytes.subrange((key_at + 4) as int, (key_at + 4 + data.len()) as int)
                =~= mask_bytes(data, k));
            lemma_mask_involution(data, k);
        },
    }
}

/// A header that declares more than `max` payload bytes is refused as soon
/// as the header is there, whatever follows it: no payload byte is needed.
pub proof fn lemma_oversized_refused_at_header(
    fin: bool,
    op: OpCode,
    len: nat,
    masked: bool,
    rest: Seq<u8>,
    max: nat,
)
    requires
        len > max,
        len < pow256(8),
        is_control_opcode(op) ==> fin && len <= 125,
    ensures
        read_spec(frame_header(fin, op, len, masked) + rest, max) == (FrameRead::Fault {
            error: WSocketError::PayloadTooLarge,
        }),
{
    lemma_header_fields(fin, op, len, masked, rest);
    lemma_opcode_value_round_trip(op);
}

/// A control frame (Close, Ping, Pong) is refused when it is fragmented,
/// and, when it is not, when its length byte claims more than 125 bytes,
/// whatever follows the first two bytes and whatever the limit.
pub proof fn lemma_control_header_refused(b0: u8, b1: u8, rest: Seq<u8>, max: nat)
    requires
        (b0 / 16) % 8 == 0,
        b0 % 16 == 0x8 || b0 % 16 == 0x9 || b0 % 16 == 0xA,
        b0 < 128 || b1 % 128 > 125,
    ensures
        read_spec(seq![b0, b1] + rest, max) == (FrameRead::Fault {
            error: if b0 < 128 {
                WSocketError::ControlFrameMustNotBeFragmented
            } else {
                WSocketError::ControlFrameMustHaveAPayloadLengthOf125BytesOrLess
            },
        }),
{
    let input = seq![b0, b1] + rest;
    assert(input[0] == b0 && input[1] == b1);
}

} // verus!
