//! The permissive decoder. It never throws bytes away quietly: it
//! resynchronises on the `AA 55` pair, names the reason a frame was rejected,
//! and advances past exactly enough bytes that a later valid frame is still
//! found. [`DecodedFrame`] has no path back to the encoder.
use vstd::prelude::*;
use crate::saturn::opcode;
use crate::saturn::control::{ControlByte, ValveControl, spec_valve_control};
use crate::saturn::encode::{
    SaturnOpKind, expected_response_len, spec_expected_response_len, spec_control_byte, spec_frame_bytes,
};
use crate::saturn::faults::{FaultBitmap, RawErrorByte, TwoByteField};
use crate::saturn::frame::{
    Direction, FRAME_OVERHEAD, HEADER_LEN, MAX_DATA, MAX_DATA_LEN, MAX_FRAME, MasterAddr, SYNC1, SYNC2,
    bytes_of_14, checksum, master_byte, spec_checksum, spec_infer_direction, vec14_new, vec14_push, vec14_slice,
};

verus! {

/// Bytes the receiver holds while it waits for the rest of a frame: three
/// maximum frames.
pub const RX_CAPACITY: usize = 64;

/// The largest `DATA` field a decoded frame can carry.
pub const MAX_DECODED_DATA: usize = MAX_DATA;

/// What a receive buffer of the Saturn link holds, oldest byte first.
pub uninterp spec fn rx_contents(v: heapless::Vec<u8, 64>) -> Seq<u8>;

/// `heapless::Vec::new`: an empty vector.
#[verifier::external_body]
fn rx_vec_new() -> (v: heapless::Vec<u8, 64>)
    ensures
        rx_contents(v) == Seq::<u8>::empty(),
{
    heapless::Vec::new()
}

/// `heapless::Vec::as_slice`: the stored bytes, never more than the capacity.
#[verifier::external_body]
fn rx_vec_slice(v: &heapless::Vec<u8, 64>) -> (s: &[u8])
    ensures
        s@ == rx_contents(*v),
        s@.len() <= RX_CAPACITY,
{
    v.as_slice()
}

/// `heapless::Vec::push`: appends below capacity, and hands the byte back
/// unchanged at capacity.
#[verifier::external_body]
fn rx_vec_push(v: &mut heapless::Vec<u8, 64>, b: u8) -> (rejected: Option<u8>)
    ensures
        rejected is None <==> rx_contents(*old(v)).len() < RX_CAPACITY,
        rejected is Some ==> rejected == Some(b),
        rx_contents(*final(v)) == (if rx_contents(*old(v)).len() < RX_CAPACITY { rx_contents(*old(v)).push(b) } else { rx_contents(*old(v)) }),
{
    match v.push(b) {
        Ok(()) => None,
        Err(x) => Some(x),
    }
}

/// `heapless::Vec::clear`: empties the vector.
#[verifier::external_body]
fn rx_vec_clear(v: &mut heapless::Vec<u8, 64>)
    ensures
        rx_contents(*final(v)) == Seq::<u8>::empty(),
{
    v.clear()
}

/// A frame lifted off the wire, with nothing validated beyond framing and
/// checksum (and, in strict mode, destination, length and control).
#[derive(Clone, PartialEq, Eq, Debug)]
pub struct DecodedFrame {
    /// The `ADDRESS` field: the frame's destination, not its sender.
    pub address: u8,
    pub control: ControlByte,
    pub data: heapless::Vec<u8, MAX_DECODED_DATA>,
    /// From address alone, never from an echo.
    pub inferred_direction: Direction,
    /// Bytes discarded before this frame's sync pair.
    pub skipped_before: usize,
}

impl DecodedFrame {
    /// The `DATA` field.
    pub open spec fn spec_data(self) -> Seq<u8> {
        bytes_of_14(self.data)
    }

    /// Total on-wire length, `6 + DATA_LEN`.
    pub fn wire_len(&self) -> (n: usize)
        ensures
            n == FRAME_OVERHEAD + self.spec_data().len(),
    {
        FRAME_OVERHEAD + vec14_slice(&self.data).len()
    }

    /// The valve-to-master reading of the control byte.
    pub fn response(&self) -> (v: ValveControl)
        ensures
            v == spec_valve_control(self.control.0),
    {
        self.control.as_response()
    }

    /// The error code of a `0x80` response with exactly one data byte.
    pub fn error_byte(&self) -> (r: Option<RawErrorByte>)
        ensures
            r == (if self.control.0 == opcode::RESPONSE_ERROR && self.spec_data().len() == 1 {
                Some(RawErrorByte(self.spec_data()[0]))
            } else {
                None::<RawErrorByte>
            }),
    {
        if self.control.0 != opcode::RESPONSE_ERROR {
            return None;
        }
        let d = vec14_slice(&self.data);
        if d.len() == 1 {
            Some(RawErrorByte(d[0]))
        } else {
            None
        }
    }

    /// A two-byte payload in both byte orders.
    pub fn two_byte_payload(&self) -> (r: Option<TwoByteField>)
        ensures
            r is Some <==> self.spec_data().len() == 2,
            r matches Some(f) ==> f.raw@ == self.spec_data() && f.be == self.spec_data()[0] * 256 + self.spec_data()[1]
                && f.le == self.spec_data()[1] * 256 + self.spec_data()[0],
    {
        let d = vec14_slice(&self.data);
        if d.len() == 2 {
            let f = TwoByteField::new([d[0], d[1]]);
            proof { assert(f.raw@ =~= self.spec_data()); }
            Some(f)
        } else {
            None
        }
    }

    /// The fault bitmap of a `0x0F` read, big-endian first, then little-endian.
    pub fn fault_bitmaps(&self) -> (r: Option<(FaultBitmap, FaultBitmap)>)
        ensures
            r is Some <==> self.control.0 == opcode::READ_FAULT_FLAGS && self.spec_data().len() == 2,
            r matches Some((be, le)) ==> be.0 == self.spec_data()[0] * 256 + self.spec_data()[1] && le.0
                == self.spec_data()[1] * 256 + self.spec_data()[0],
    {
        if self.control.0 != opcode::READ_FAULT_FLAGS {
            return None;
        }
        match self.two_byte_payload() {
            Some(f) => Some((FaultBitmap(f.be), FaultBitmap(f.le))),
            None => None,
        }
    }
}

/// What the decoder may assume about the next frame.
#[derive(Copy, Clone, PartialEq, Eq, Debug, Structural)]
pub struct Expectation {
    /// The master identity this link speaks as.
    pub master: MasterAddr,
    /// The operation whose response is outstanding, if any.
    pub awaiting: Option<SaturnOpKind>,
    /// When false, no destination, length or control check runs.
    pub strict: bool,
}

impl Expectation {
    /// A live transaction: the reply to `op`, addressed to `master`.
    pub fn response_to(master: MasterAddr, op: SaturnOpKind) -> (e: Expectation)
        ensures
            e == (Expectation { master, awaiting: Some(op), strict: true }),
    {
        Expectation { master, awaiting: Some(op), strict: true }
    }

    /// Capture analysis: framing and checksum only.
    pub fn capture(master: MasterAddr) -> (e: Expectation)
        ensures
            e == (Expectation { master, awaiting: None, strict: false }),
    {
        Expectation { master, awaiting: None, strict: false }
    }
}

/// Why a frame was rejected.
#[derive(Copy, Clone, PartialEq, Eq, Debug, Structural)]
pub enum DecodeError {
    /// `DATA_LEN` above the maximum; checked before the checksum.
    LengthOutOfRange { found: u8, max: u8 },
    /// Not addressed to the configured master.
    WrongDestination { expected: MasterAddr, found: u8 },
    /// The checksum does not match; `DATA` is not parsed.
    BadChecksum { computed: u8, found: u8 },
    /// Well-formed, but the wrong size for the command it answers.
    UnexpectedLength { op: SaturnOpKind, expected: u8, found: u8 },
    /// Neither the request's echo, nor `0x80`, nor `0xFF`.
    UnexpectedControl { expected: u8, found: u8 },
}

/// The receive window: the last bytes received, at most [`RX_CAPACITY`].
pub open spec fn rx_window(s: Seq<u8>) -> Seq<u8> {
    if s.len() <= RX_CAPACITY {
        s
    } else {
        s.subrange(s.len() - RX_CAPACITY, s.len() as int)
    }
}

/// How many bytes a window drops: the excess over the capacity.
pub open spec fn rx_excess(s: Seq<u8>) -> nat {
    if s.len() <= RX_CAPACITY {
        0
    } else {
        (s.len() - RX_CAPACITY) as nat
    }
}

/// Adds to a counter, stopping at the top of `usize`.
pub open spec fn sat_add(a: int, b: int) -> int {
    if a + b > usize::MAX {
        usize::MAX as int
    } else {
        a + b
    }
}

/// Whether a sync pair starts at `i`.
pub open spec fn sync_at(s: Seq<u8>, i: int) -> bool {
    0 <= i && i + 1 < s.len() && s[i] == SYNC1 && s[i + 1] == SYNC2
}

/// How many leading bytes a resync discards: everything before the first
/// sync pair, or with no pair everything but a trailing lone `0xAA`.
#[verifier::opaque]
pub open spec fn resync_drop(s: Seq<u8>) -> nat {
    if exists|i: int| sync_at(s, i) {
        (choose|i: int| sync_at(s, i) && forall|j: int| 0 <= j < i ==> !sync_at(s, j)) as nat
    } else if s.len() > 0 && s.last() == SYNC1 {
        (s.len() - 1) as nat
    } else {
        s.len()
    }
}

/// One decode attempt on a buffer that starts at a sync pair (or holds no
/// frame): the outcome, how many bytes it consumes, and how many of those
/// count as skipped. A frame is `(address, control, data)`.
#[verifier::opaque]
pub open spec fn decode_step(s: Seq<u8>, expect: Expectation) -> (Result<Option<(u8, u8, Seq<u8>)>, DecodeError>, nat, nat) {
    if s.len() < HEADER_LEN {
        (Ok(None), 0, 0)
    } else {
        let address = s[2];
        let control = s[3];
        let data_len = s[4];
        if expect.strict && address != master_byte(expect.master) {
            (Err(DecodeError::WrongDestination { expected: expect.master, found: address }), 2, 2)
        } else if data_len > MAX_DATA_LEN {
            (Err(DecodeError::LengthOutOfRange { found: data_len, max: MAX_DATA_LEN }), 2, 2)
        } else if s.len() < FRAME_OVERHEAD + data_len {
            (Ok(None), 0, 0)
        } else {
            let total = FRAME_OVERHEAD + data_len;
            let data = s.subrange(HEADER_LEN as int, HEADER_LEN + data_len);
            let computed = spec_checksum(address, control, data_len, data);
            let found = s[total - 1];
            if computed != found {
                (Err(DecodeError::BadChecksum { computed, found }), 2, 2)
            } else {
                match expect.awaiting {
                    None => (Ok(Some((address, control, data))), total as nat, 0),
                    Some(op) => match response_check(op, total as u8, control) {
                        Some(e) => (Err(e), total as nat, 0),
                        None => (Ok(Some((address, control, data))), total as nat, 0),
                    },
                }
            }
        }
    }
}

/// The strict-mode checks on a well-formed response to `op`: its length,
/// then its control byte.
pub open spec fn response_check(op: SaturnOpKind, found_len: u8, control: u8) -> Option<DecodeError> {
    match spec_expected_response_len(op) {
        Some(expected) if found_len != expected => Some(
            DecodeError::UnexpectedLength { op, expected, found: found_len },
        ),
        _ => match spec_valve_control(control) {
            ValveControl::Echo(b) if b != spec_control_byte(op) => Some(
                DecodeError::UnexpectedControl { expected: spec_control_byte(op), found: b },
            ),
            _ => None,
        },
    }
}

/// The receive buffer: bounded, resynchronising, and it never silently drops
/// a frame it could have parsed. Overflow drops the oldest bytes and counts
/// them.
#[derive(Clone, Debug)]
pub struct RxBuffer {
    buf: heapless::Vec<u8, 64>,
    skipped: usize,
    overflowed: usize,
}

impl Default for RxBuffer {
    /// An empty buffer with nothing skipped or dropped.
    fn default() -> (r: RxBuffer)
        ensures
            r.spec_bytes() == Seq::<u8>::empty(),
            r.spec_skipped() == 0,
            r.spec_overflowed() == 0,
    {
        RxBuffer::new()
    }
}

impl RxBuffer {
    pub closed spec fn spec_bytes(self) -> Seq<u8> {
        rx_contents(self.buf)
    }

    pub closed spec fn spec_skipped(self) -> int {
        self.skipped as int
    }

    pub closed spec fn spec_overflowed(self) -> int {
        self.overflowed as int
    }

    /// Never more than the capacity.
    pub open spec fn wf(self) -> bool {
        self.spec_bytes().len() <= RX_CAPACITY
    }

    pub fn new() -> (r: RxBuffer)
        ensures
            r.spec_bytes() == Seq::<u8>::empty(),
            r.spec_skipped() == 0,
            r.spec_overflowed() == 0,
    {
        RxBuffer { buf: rx_vec_new(), skipped: 0, overflowed: 0 }
    }

    /// Bytes discarded because they were not part of a frame. Cumulative.
    pub fn skipped(&self) -> (n: usize)
        ensures
            n == self.spec_skipped(),
    {
        self.skipped
    }

    /// Bytes dropped because the buffer was full.
    pub fn overflowed(&self) -> (n: usize)
        ensures
            n == self.spec_overflowed(),
    {
        self.overflowed
    }

    pub fn len(&self) -> (n: usize)
        ensures
            n == self.spec_bytes().len(),
            n <= RX_CAPACITY,
    {
        rx_vec_slice(&self.buf).len()
    }

    pub fn is_empty(&self) -> (b: bool)
        ensures
            b == (self.spec_bytes().len() == 0),
    {
        rx_vec_slice(&self.buf).len() == 0
    }

    pub fn as_slice(&self) -> (s: &[u8])
        ensures
            s@ == self.spec_bytes(),
    {
        rx_vec_slice(&self.buf)
    }

    pub fn clear(&mut self)
        ensures
            final(self).spec_bytes() == Seq::<u8>::empty(),
            final(self).spec_skipped() == old(self).spec_skipped(),
            final(self).spec_overflowed() == old(self).spec_overflowed(),
    {
        rx_vec_clear(&mut self.buf);
    }

    /// Appends received bytes, dropping the oldest on overflow.
    pub fn extend(&mut self, bytes: &[u8])
        ensures
            final(self).spec_bytes() == rx_window(old(self).spec_bytes() + bytes@),
            final(self).spec_overflowed() == sat_add(
                old(self).spec_overflowed(),
                rx_excess(old(self).spec_bytes() + bytes@) as int,
            ),
            final(self).spec_skipped() == old(self).spec_skipped(),
    {
        let ghost start = self.spec_bytes();
        let ghost over0 = self.spec_overflowed();
        let _ = self.len();
        proof {
            assert(bytes@.take(0) =~= Seq::<u8>::empty());
            assert(start + bytes@.take(0) =~= start);
        }
        let mut i: usize = 0;
        while i < bytes.len()
            invariant
                i <= bytes.len(),
                start.len() <= RX_CAPACITY,
                self.spec_bytes() == rx_window(start + bytes@.take(i as int)),
                self.spec_overflowed() == sat_add(over0, rx_excess(start + bytes@.take(i as int)) as int),
                self.spec_skipped() == old(self).spec_skipped(),
            decreases bytes.len() - i,
        {
            let b = bytes[i];
            let ghost before = start + bytes@.take(i as int);
            let ghost after = start + bytes@.take(i + 1);
            proof {
                assert(after =~= before.push(b));
            }
            if self.len() >= RX_CAPACITY {
                self.drop_front(1);
                self.overflowed = if self.overflowed < usize::MAX { self.overflowed + 1 } else { self.overflowed };
                proof {
                    assert(self.spec_bytes().push(b) =~= rx_window(after));
                }
            } else {
                proof {
                    assert(before.len() <= RX_CAPACITY);
                    assert(after.len() <= RX_CAPACITY);
                }
            }
            let _ = rx_vec_push(&mut self.buf, b);
            i = i + 1;
        }
        proof {
            assert(bytes@.take(bytes@.len() as int) =~= bytes@);
        }
    }

    /// Removes up to `n` bytes from the front.
    fn drop_front(&mut self, n: usize)
        ensures
            final(self).spec_bytes() == old(self).spec_bytes().skip(
                if n <= old(self).spec_bytes().len() { n as int } else { old(self).spec_bytes().len() as int },
            ),
            final(self).spec_skipped() == old(self).spec_skipped(),
            final(self).spec_overflowed() == old(self).spec_overflowed(),
    {
        let s = rx_vec_slice(&self.buf);
        let len = s.len();
        let n = if n < len { n } else { len };
        let mut fresh = rx_vec_new();
        let mut i: usize = n;
        while i < len
            invariant
                n <= i <= len,
                len == s@.len(),
                len <= RX_CAPACITY,
                rx_contents(fresh) == s@.subrange(n as int, i as int),
            decreases len - i,
        {
            let _ = rx_vec_push(&mut fresh, s[i]);
            proof {
                assert(s@.subrange(n as int, i + 1) =~= s@.subrange(n as int, i as int).push(s@[i as int]));
            }
            i = i + 1;
        }
        proof {
            assert(s@.subrange(n as int, len as int) =~= s@.skip(n as int));
        }
        self.buf = fresh;
    }

    /// Discards everything before the first sync pair and returns how many
    /// bytes went. A trailing lone `0xAA` is kept.
    fn resync(&mut self) -> (d: usize)
        ensures
            d == resync_drop(old(self).spec_bytes()),
            final(self).spec_bytes() == old(self).spec_bytes().skip(d as int),
            final(self).spec_skipped() == sat_add(old(self).spec_skipped(), d as int),
            final(self).spec_overflowed() == old(self).spec_overflowed(),
    {
        proof { reveal(resync_drop); }
        let s = rx_vec_slice(&self.buf);
        let len = s.len();
        let mut i: usize = 0;
        while i + 1 < len
            invariant
                len == s@.len(),
                len <= RX_CAPACITY,
                i <= len,
                forall|j: int| 0 <= j < i ==> !sync_at(s@, j),
            ensures
                i + 1 < len ==> sync_at(s@, i as int),
                i + 1 >= len ==> forall|j: int| 0 <= j < i ==> !sync_at(s@, j),
            decreases len - i,
        {
            if s[i] == SYNC1 && s[i + 1] == SYNC2 {
                break;
            }
            i = i + 1;
        }
        let drop: usize = if i + 1 < len {
            proof {
                let c = choose|k: int| sync_at(s@, k) && forall|j: int| 0 <= j < k ==> !sync_at(s@, j);
                assert(sync_at(s@, i as int) && forall|j: int| 0 <= j < i ==> !sync_at(s@, j));
                if c < i { assert(!sync_at(s@, c)); }
                if c > i { assert(!sync_at(s@, i as int)); }
            }
            i
        } else {
            proof {
                assert forall|j: int| !sync_at(s@, j) by {
                    if 0 <= j < i {} else if j >= i { assert(!(j + 1 < len)) by {
                        if j + 1 < len { assert(i + 1 < len); }
                    } }
                }
            }
            if len > 0 && s[len - 1] == SYNC1 {
                len - 1
            } else {
                len
            }
        };
        self.drop_front(drop);
        self.skipped = if self.skipped <= usize::MAX - drop { self.skipped + drop } else { usize::MAX };
        drop
    }
}

/// The decode contract: how the buffer moves, and what comes back.
pub open spec fn decode_result(
    old_rx: RxBuffer,
    new_rx: RxBuffer,
    expect: Expectation,
    r: Result<Option<DecodedFrame>, DecodeError>,
) -> bool {
    let drop = resync_drop(old_rx.spec_bytes());
    let s = old_rx.spec_bytes().skip(drop as int);
    let (outcome, used, skip) = decode_step(s, expect);
    &&& new_rx.spec_bytes() == s.skip(used as int)
    &&& new_rx.spec_skipped() == sat_add(sat_add(old_rx.spec_skipped(), drop as int), skip as int)
    &&& new_rx.spec_overflowed() == old_rx.spec_overflowed()
    &&& match outcome {
        Ok(None) => r == Ok::<Option<DecodedFrame>, DecodeError>(None),
        Ok(Some((address, control, data))) => r matches Ok(Some(f)) && f.address == address
            && f.control == ControlByte(control) && f.spec_data() == data && f.inferred_direction
            == spec_infer_direction(address, expect.master) && f.skipped_before == drop,
        Err(e) => r == Err::<Option<DecodedFrame>, DecodeError>(e),
    }
}

/// Pulls one frame from `rx`: `Ok(None)` when more bytes are needed, the
/// frame when it passes every check `expect` asks for, or the named reason it
/// was rejected, with the buffer already past the offending sync pair.
#[verifier::rlimit(40)]
pub fn decode(rx: &mut RxBuffer, expect: &Expectation) -> (r: Result<Option<DecodedFrame>, DecodeError>)
    ensures
        decode_result(*old(rx), *final(rx), *expect, r),
{
    let ghost rx0 = *rx;
    let skipped_before = rx.resync();
    let ghost s = rx.spec_bytes();
    let ghost sk1 = rx.spec_skipped();
    assert(s == rx0.spec_bytes().skip(resync_drop(rx0.spec_bytes()) as int));
    let n = rx.len();
    if n < HEADER_LEN {
        assert(decode_step(s, *expect) == (Ok::<Option<(u8, u8, Seq<u8>)>, DecodeError>(None), 0nat, 0nat)) by { reveal(decode_step); }
        assert(s.skip(0) =~= s);
        return Ok(None);
    }
    let sl = rx.as_slice();
    let address = sl[2];
    let control = sl[3];
    let data_len = sl[4];
    if expect.strict && address != expect.master.byte() {
        rx.drop_front(2);
        rx.skipped = if rx.skipped <= usize::MAX - 2 { rx.skipped + 2 } else { usize::MAX };
        let e = DecodeError::WrongDestination { expected: expect.master, found: address };
        assert(decode_step(s, *expect) == (Err::<Option<(u8, u8, Seq<u8>)>, DecodeError>(e), 2nat, 2nat)) by { reveal(decode_step); }
        return Err(e);
    }
    if data_len > MAX_DATA_LEN {
        rx.drop_front(2);
        rx.skipped = if rx.skipped <= usize::MAX - 2 { rx.skipped + 2 } else { usize::MAX };
        let e = DecodeError::LengthOutOfRange { found: data_len, max: MAX_DATA_LEN };
        assert(decode_step(s, *expect) == (Err::<Option<(u8, u8, Seq<u8>)>, DecodeError>(e), 2nat, 2nat)) by { reveal(decode_step); }
        return Err(e);
    }
    let total: usize = FRAME_OVERHEAD + data_len as usize;
    if n < total {
        assert(decode_step(s, *expect) == (Ok::<Option<(u8, u8, Seq<u8>)>, DecodeError>(None), 0nat, 0nat)) by { reveal(decode_step); }
        assert(s.skip(0) =~= s);
        return Ok(None);
    }
    let mut payload: heapless::Vec<u8, MAX_DECODED_DATA> = vec14_new();
    let mut k: usize = HEADER_LEN;
    while k < HEADER_LEN + data_len as usize
        invariant
            HEADER_LEN <= k <= HEADER_LEN + data_len,
            HEADER_LEN + data_len < sl@.len(),
            bytes_of_14(payload) == sl@.subrange(HEADER_LEN as int, k as int),
            data_len <= MAX_DATA_LEN,
        decreases HEADER_LEN + data_len - k,
    {
        let _ = vec14_push(&mut payload, sl[k]);
        proof {
            assert(sl@.subrange(HEADER_LEN as int, k + 1) =~= sl@.subrange(HEADER_LEN as int, k as int).push(sl@[k as int]));
        }
        k = k + 1;
    }
    let computed = checksum(address, control, data_len, vec14_slice(&payload));
    let found = sl[total - 1];
    if computed != found {
        rx.drop_front(2);
        rx.skipped = if rx.skipped <= usize::MAX - 2 { rx.skipped + 2 } else { usize::MAX };
        let e = DecodeError::BadChecksum { computed, found };
        assert(decode_step(s, *expect) == (Err::<Option<(u8, u8, Seq<u8>)>, DecodeError>(e), 2nat, 2nat)) by { reveal(decode_step); }
        return Err(e);
    }
    let ghost data = bytes_of_14(payload);
    let frame = DecodedFrame {
        address,
        control: ControlByte(control),
        data: payload,
        inferred_direction: Direction::infer(address, expect.master),
        skipped_before,
    };
    rx.drop_front(total);
    assert(rx.spec_skipped() == sk1);
    match expect.awaiting {
        None => {
            assert(decode_step(s, *expect) == (Ok::<Option<(u8, u8, Seq<u8>)>, DecodeError>(Some((address, control, data))), total as nat, 0nat)) by { reveal(decode_step); }
        },
        Some(op) => {
            let found_len: u8 = total as u8;
            match expected_response_len(op) {
                Some(expected) => {
                    if found_len != expected {
                        let e = DecodeError::UnexpectedLength { op, expected, found: found_len };
                        assert(response_check(op, total as u8, control) == Some(e));
                        assert(decode_step(s, *expect) == (Err::<Option<(u8, u8, Seq<u8>)>, DecodeError>(e), total as nat, 0nat)) by { reveal(decode_step); }
                        return Err(e);
                    }
                },
                None => {},
            }
            let request_control = op.control_byte();
            match frame.response() {
                ValveControl::Echo(b) => {
                    if b != request_control {
                        let e = DecodeError::UnexpectedControl { expected: request_control, found: b };
                        assert(response_check(op, total as u8, control) == Some(e));
                        assert(decode_step(s, *expect) == (Err::<Option<(u8, u8, Seq<u8>)>, DecodeError>(e), total as nat, 0nat)) by { reveal(decode_step); }
                        return Err(e);
                    }
                },
                _ => {},
            }
            assert(response_check(op, total as u8, control) is None);
            assert(decode_step(s, *expect) == (Ok::<Option<(u8, u8, Seq<u8>)>, DecodeError>(Some((address, control, data))), total as nat, 0nat)) by { reveal(decode_step); }
        },
    }
    Ok(Some(frame))
}


/// A laid-out frame at the front of the buffer is found at once and read
/// back field for field, consuming exactly its own bytes.
pub proof fn lemma_frame_decodes(dest: u8, control: u8, data: Seq<u8>, expect: Expectation)
    requires
        data.len() <= MAX_DATA_LEN,
        !expect.strict,
    ensures
        resync_drop(spec_frame_bytes(dest, control, data)) == 0,
        decode_step(spec_frame_bytes(dest, control, data), expect) == (
            Ok::<Option<(u8, u8, Seq<u8>)>, DecodeError>(Some((dest, control, data))),
            (FRAME_OVERHEAD + data.len()) as nat,
            0nat,
        ) || expect.awaiting is Some,
{
    reveal(resync_drop);
    reveal(decode_step);
    let f = spec_frame_bytes(dest, control, data);
    assert(sync_at(f, 0));
    let c = choose|i: int| sync_at(f, i) && forall|j: int| 0 <= j < i ==> !sync_at(f, j);
    if c > 0 {
        assert(!sync_at(f, 0));
    }
    assert(f.subrange(HEADER_LEN as int, HEADER_LEN + data.len()) =~= data);
}

/// **Round trip.** Whatever the encoder lays out, a fresh receive buffer fed
/// exactly those bytes decodes in capture mode to the same destination,
/// control byte and data, with nothing skipped and nothing left over.
pub proof fn lemma_round_trip(
    before: RxBuffer,
    after: RxBuffer,
    master: MasterAddr,
    dest: u8,
    control: u8,
    data: Seq<u8>,
    r: Result<Option<DecodedFrame>, DecodeError>,
)
    requires
        data.len() <= MAX_DATA_LEN,
        before.spec_bytes() == spec_frame_bytes(dest, control, data),
        decode_result(before, after, Expectation { master, awaiting: None, strict: false }, r),
    ensures
        r matches Ok(Some(f)) && f.address == dest && f.control == ControlByte(control) && f.spec_data() == data
            && f.skipped_before == 0 && f.inferred_direction == spec_infer_direction(dest, master),
        after.spec_bytes().len() == 0,
        after.spec_skipped() == before.spec_skipped(),
{
    let e = Expectation { master, awaiting: None, strict: false };
    lemma_frame_decodes(dest, control, data, e);
    let f = before.spec_bytes();
    assert(f.skip(0) =~= f);
}

/// Line noise that cannot begin a frame: no sync pair in it, and no lone
/// `0xAA` at its end to pair with what follows.
pub open spec fn inert_garbage(g: Seq<u8>) -> bool {
    &&& forall|i: int| 0 <= i < g.len() - 1 ==> !(#[trigger] g[i] == SYNC1 && g[i + 1] == SYNC2)
    &&& (g.len() > 0 ==> g.last() != SYNC1)
}

/// **Garbage before a frame does not lose it.** Whatever inert noise sits in
/// front of a complete frame, one capture-mode decode skips exactly the
/// noise, counts it, and returns the frame with nothing left over.
pub proof fn lemma_resync_finds_frame(
    before: RxBuffer,
    after: RxBuffer,
    master: MasterAddr,
    garbage: Seq<u8>,
    dest: u8,
    control: u8,
    data: Seq<u8>,
    r: Result<Option<DecodedFrame>, DecodeError>,
)
    requires
        data.len() <= MAX_DATA_LEN,
        inert_garbage(garbage),
        before.spec_bytes() == garbage + spec_frame_bytes(dest, control, data),
        decode_result(before, after, Expectation { master, awaiting: None, strict: false }, r),
    ensures
        r matches Ok(Some(f)) && f.address == dest && f.control == ControlByte(control) && f.spec_data() == data
            && f.skipped_before == garbage.len() && f.inferred_direction == spec_infer_direction(dest, master),
        after.spec_bytes().len() == 0,
        after.spec_skipped() == sat_add(before.spec_skipped(), garbage.len() as int),
{
    let e = Expectation { master, awaiting: None, strict: false };
    let f = spec_frame_bytes(dest, control, data);
    let b = before.spec_bytes();
    let n = garbage.len() as int;
    assert(b.skip(n) =~= f);
    assert(sync_at(b, n));
    assert forall|j: int| 0 <= j < n implies !sync_at(b, j) by {
        if j + 1 < n {
            assert(b[j] == garbage[j] && b[j + 1] == garbage[j + 1]);
        } else {
            assert(b[j] == garbage.last());
        }
    }
    assert(resync_drop(b) == n) by {
        reveal(resync_drop);
        assert(sync_at(b, n) && forall|j: int| 0 <= j < n ==> !sync_at(b, j));
        let c = choose|i: int| sync_at(b, i) && forall|j: int| 0 <= j < i ==> !sync_at(b, j);
        if c < n {
            assert(!sync_at(b, c));
        }
        if c > n {
            assert(!sync_at(b, n));
        }
    }
    lemma_frame_decodes(dest, control, data, e);
    assert(f.skip((FRAME_OVERHEAD + data.len()) as int).len() == 0);
}

/// Where a resync leaves the buffer: at the first sync pair when there is
/// one, else with at most a lone `0xAA` left.
proof fn lemma_resync_lands(b: Seq<u8>)
    ensures
        resync_drop(b) <= b.len(),
        (exists|i: int| sync_at(b, i)) ==> sync_at(b, resync_drop(b) as int),
        !(exists|i: int| sync_at(b, i)) ==> b.len() - resync_drop(b) <= 1,
{
    reveal(resync_drop);
    if exists|i: int| sync_at(b, i) {
        let k = choose|i: int| sync_at(b, i);
        lemma_first_sync(b, k);
        let c = choose|i: int| sync_at(b, i) && forall|j: int| 0 <= j < i ==> !sync_at(b, j);
        assert(sync_at(b, c));
        assert(resync_drop(b) == c);
    }
}

/// Some sync pair comes first.
proof fn lemma_first_sync(b: Seq<u8>, k: int)
    requires
        sync_at(b, k),
    ensures
        exists|i: int| sync_at(b, i) && forall|j: int| 0 <= j < i ==> !sync_at(b, j),
    decreases k,
{
    if exists|j: int| 0 <= j < k && sync_at(b, j) {
        let j = choose|j: int| 0 <= j < k && sync_at(b, j);
        lemma_first_sync(b, j);
    } else {
        assert(sync_at(b, k) && forall|j: int| 0 <= j < k ==> !sync_at(b, j));
    }
}

/// **Decoding only ever consumes.** Whatever comes back, the buffer afterwards
/// is what it was with some bytes taken off the front; it never grows, so a
/// buffer within its capacity stays within it.
pub proof fn lemma_decode_only_consumes(
    before: RxBuffer,
    after: RxBuffer,
    expect: Expectation,
    r: Result<Option<DecodedFrame>, DecodeError>,
)
    requires
        decode_result(before, after, expect, r),
    ensures
        exists|k: int| 0 <= k <= before.spec_bytes().len() && after.spec_bytes() == before.spec_bytes().skip(k),
        after.spec_bytes().len() <= before.spec_bytes().len(),
{
    let b = before.spec_bytes();
    let drop = resync_drop(b);
    lemma_resync_lands(b);
    let s = b.skip(drop as int);
    let used = decode_step(s, expect).1;
    assert(used <= s.len()) by {
        reveal(decode_step);
    }
    assert(after.spec_bytes() =~= b.skip((drop + used) as int));
}

/// **Every decoded frame is genuine.** A frame comes back only when the
/// buffer held, after the skipped bytes, exactly the frame the encoder would
/// lay out for its fields, checksum included, with a legal `DATA_LEN` and
/// within the wire maximum; the rest of the buffer is what remains.
pub proof fn lemma_decoded_frames_are_genuine(
    before: RxBuffer,
    after: RxBuffer,
    expect: Expectation,
    r: Result<Option<DecodedFrame>, DecodeError>,
)
    requires
        decode_result(before, after, expect, r),
        r matches Ok(Some(_)),
    ensures
        r matches Ok(Some(f)) && f.spec_data().len() <= MAX_DATA_LEN && FRAME_OVERHEAD + f.spec_data().len() <= MAX_FRAME
            && before.spec_bytes() == before.spec_bytes().take(f.skipped_before as int) + spec_frame_bytes(
            f.address,
            f.control.0,
            f.spec_data(),
        ) + after.spec_bytes(),
{
    let b = before.spec_bytes();
    let drop = resync_drop(b);
    lemma_resync_lands(b);
    let s = b.skip(drop as int);
    reveal(decode_step);
    let f = r->Ok_0->Some_0;
    assert(s.len() >= HEADER_LEN);
    assert(sync_at(b, drop as int));
    let dl = s[4];
    let total = FRAME_OVERHEAD + dl;
    let data = s.subrange(HEADER_LEN as int, HEADER_LEN + dl);
    assert(f.spec_data() == data);
    assert(data.len() == dl);
    assert(s.take(total as int) =~= spec_frame_bytes(s[2], s[3], data));
    assert(b =~= b.take(drop as int) + s.take(total as int) + s.skip(total as int));
}

/// **An illegal `DATA_LEN` is always refused.** A frame whose length byte is
/// above the maximum is rejected on its five-byte header, before any checksum,
/// and the buffer moves past its sync pair only.
pub proof fn lemma_data_len_out_of_range_rejected(
    before: RxBuffer,
    after: RxBuffer,
    expect: Expectation,
    address: u8,
    control: u8,
    data_len: u8,
    rest: Seq<u8>,
    r: Result<Option<DecodedFrame>, DecodeError>,
)
    requires
        data_len > MAX_DATA_LEN,
        !expect.strict || address == master_byte(expect.master),
        before.spec_bytes() == seq![SYNC1, SYNC2, address, control, data_len] + rest,
        decode_result(before, after, expect, r),
    ensures
        r == Err::<Option<DecodedFrame>, DecodeError>(
            DecodeError::LengthOutOfRange { found: data_len, max: MAX_DATA_LEN },
        ),
        after.spec_bytes() == before.spec_bytes().skip(2),
{
    let b = before.spec_bytes();
    assert(sync_at(b, 0));
    assert(resync_drop(b) == 0) by {
        reveal(resync_drop);
        let c = choose|i: int| sync_at(b, i) && forall|j: int| 0 <= j < i ==> !sync_at(b, j);
        if c > 0 {
            assert(!sync_at(b, 0));
        }
    }
    assert(b.skip(0) =~= b);
    reveal(decode_step);
}

/// **A corrupted checksum is always refused.** A frame whose checksum byte is
/// not the checksum of its fields is rejected as such, never returned, and
/// what is left is too short to hold any frame with that much data.
pub proof fn lemma_corrupted_checksum_rejected(
    before: RxBuffer,
    after: RxBuffer,
    master: MasterAddr,
    address: u8,
    control: u8,
    data: Seq<u8>,
    found: u8,
    r: Result<Option<DecodedFrame>, DecodeError>,
)
    requires
        data.len() <= MAX_DATA_LEN,
        found != spec_checksum(address, control, data.len() as u8, data),
        before.spec_bytes() == seq![SYNC1, SYNC2, address, control, data.len() as u8] + data + seq![found],
        decode_result(before, after, Expectation { master, awaiting: None, strict: false }, r),
    ensures
        r == Err::<Option<DecodedFrame>, DecodeError>(
            DecodeError::BadChecksum {
                computed: spec_checksum(address, control, data.len() as u8, data),
                found,
            },
        ),
        after.spec_bytes() == before.spec_bytes().skip(2),
        after.spec_bytes().len() < FRAME_OVERHEAD + data.len(),
{
    let b = before.spec_bytes();
    assert(sync_at(b, 0));
    assert(resync_drop(b) == 0) by {
        reveal(resync_drop);
        let c = choose|i: int| sync_at(b, i) && forall|j: int| 0 <= j < i ==> !sync_at(b, j);
        if c > 0 {
            assert(!sync_at(b, 0));
        }
    }
    assert(b.skip(0) =~= b);
    assert(b.subrange(HEADER_LEN as int, HEADER_LEN + data.len()) =~= data);
    reveal(decode_step);
}

/// **A partial frame waits for the rest.** While only a proper prefix of a
/// laid-out frame has arrived, a pull answers "need more bytes" and leaves the
/// buffer exactly as it was; the frame completes later.
pub proof fn lemma_partial_frame_waits(
    before: RxBuffer,
    after: RxBuffer,
    expect: Expectation,
    dest: u8,
    control: u8,
    data: Seq<u8>,
    k: int,
    r: Result<Option<DecodedFrame>, DecodeError>,
)
    requires
        data.len() <= MAX_DATA_LEN,
        !expect.strict || dest == master_byte(expect.master),
        0 < k < spec_frame_bytes(dest, control, data).len(),
        before.spec_bytes() == spec_frame_bytes(dest, control, data).take(k),
        decode_result(before, after, expect, r),
    ensures
        r == Ok::<Option<DecodedFrame>, DecodeError>(None),
        after.spec_bytes() == before.spec_bytes(),
        after.spec_skipped() == before.spec_skipped(),
{
    let b = before.spec_bytes();
    assert(resync_drop(b) == 0) by {
        reveal(resync_drop);
        if k >= 2 {
            assert(sync_at(b, 0));
            let c = choose|i: int| sync_at(b, i) && forall|j: int| 0 <= j < i ==> !sync_at(b, j);
            if c > 0 {
                assert(!sync_at(b, 0));
            }
        } else {
            assert(b.last() == SYNC1);
        }
    }
    assert(b.skip(0) =~= b);
    reveal(decode_step);
}

/// **Nothing is dropped quietly.** Every byte a pull removes is either
/// counted as skipped or part of what it answers with: a pull that answers
/// "need more bytes" removed only counted bytes, and a pull that returns a
/// frame removed the counted bytes and that frame's own bytes. (The counter
/// stops at the top of `usize`; below that it counts exactly.)
pub proof fn lemma_nothing_dropped_quietly(
    before: RxBuffer,
    after: RxBuffer,
    expect: Expectation,
    r: Result<Option<DecodedFrame>, DecodeError>,
)
    requires
        decode_result(before, after, expect, r),
        before.spec_skipped() + before.spec_bytes().len() <= usize::MAX,
    ensures
        r == Ok::<Option<DecodedFrame>, DecodeError>(None) ==> before.spec_bytes().len() == after.spec_bytes().len()
            + after.spec_skipped() - before.spec_skipped(),
        r matches Ok(Some(f)) ==> before.spec_bytes().len() == after.spec_bytes().len() + after.spec_skipped()
            - before.spec_skipped() + FRAME_OVERHEAD + f.spec_data().len(),
        before.spec_bytes().len() >= after.spec_bytes().len() + after.spec_skipped() - before.spec_skipped(),
{
    let b = before.spec_bytes();
    let drop = resync_drop(b);
    lemma_resync_lands(b);
    let s = b.skip(drop as int);
    reveal(decode_step);
    let step = decode_step(s, expect);
    assert(step.2 <= step.1 <= s.len());
    if r is Ok && r->Ok_0 is Some {
        let f = r->Ok_0->Some_0;
        assert(step.2 == 0);
        assert(step.1 == FRAME_OVERHEAD + f.spec_data().len());
    }
}

/// **A frame's end is a boundary.** A complete frame at the front of the
/// buffer is delivered by one capture-mode pull, and whatever follows it,
/// another frame included, is left exactly as it was.
pub proof fn lemma_front_frame_delivered(
    before: RxBuffer,
    after: RxBuffer,
    master: MasterAddr,
    dest: u8,
    control: u8,
    data: Seq<u8>,
    rest: Seq<u8>,
    r: Result<Option<DecodedFrame>, DecodeError>,
)
    requires
        data.len() <= MAX_DATA_LEN,
        before.spec_bytes() == spec_frame_bytes(dest, control, data) + rest,
        decode_result(before, after, Expectation { master, awaiting: None, strict: false }, r),
    ensures
        r matches Ok(Some(f)) && f.address == dest && f.control == ControlByte(control) && f.spec_data() == data
            && f.skipped_before == 0,
        after.spec_bytes() == rest,
        after.spec_skipped() == before.spec_skipped(),
{
    let b = before.spec_bytes();
    let f = spec_frame_bytes(dest, control, data);
    assert(sync_at(b, 0));
    assert(resync_drop(b) == 0) by {
        reveal(resync_drop);
        let c = choose|i: int| sync_at(b, i) && forall|j: int| 0 <= j < i ==> !sync_at(b, j);
        if c > 0 {
            assert(!sync_at(b, 0));
        }
    }
    assert(b.skip(0) =~= b);
    assert(b.subrange(HEADER_LEN as int, HEADER_LEN + data.len()) =~= data);
    assert(b.skip(f.len() as int) =~= rest);
    reveal(decode_step);
}

} // verus!
