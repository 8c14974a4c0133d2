//! The permissive DTV+ decoder: resynchronises on `SOF`, unstuffs, checks the
//! checksum, and names every rejection. [`DecodedDtv`] has no path back to
//! the encoder.
use vstd::prelude::*;
use crate::dtv::addr::{DevAddr, DeviceId, MASTER};
use crate::dtv::opcode;
use crate::dtv::command::{direction_of, name_of, spec_direction_of, spec_name_of};
use crate::dtv::frame::{
    DtvDirection, EOF, ESC, LOGICAL_OVERHEAD, MAX_FRAME, MAX_LOGICAL, MAX_PAYLOAD, SOF, UnescapeError,
    bytes_of_16, checksum, escape_chunk, spec_checksum, spec_escape, spec_is_reserved, spec_unescape,
    unescape_into, vec16_new, vec16_push, vec16_slice, lemma_escape_len, lemma_unescape_escape,
    lemma_unescape_sees_single_change,
};
use crate::dtv::steam::{SteamStatus, SteamStatusError, spec_status_payload, status_canonical};
use crate::dtv::encode::{spec_dtv_wire, spec_frame_logical};
use crate::saturn::decode::sat_add;
use crate::saturn::frame::{bytes_of_20, vec20_new, vec20_slice};

verus! {

/// Bytes the steam receiver holds while it waits for the rest of a frame.
pub const RX_CAPACITY: usize = 128;

/// What a receive buffer of the steam link holds, oldest byte first.
pub uninterp spec fn dtv_rx_contents(v: heapless::Vec<u8, 128>) -> Seq<u8>;

/// `heapless::Vec::new`: an empty vector.
#[verifier::external_body]
fn dtv_rx_vec_new() -> (v: heapless::Vec<u8, 128>)
    ensures
        dtv_rx_contents(v) == Seq::<u8>::empty(),
{
    heapless::Vec::new()
}

/// `heapless::Vec::as_slice`: the stored bytes, never more than the capacity.
#[verifier::external_body]
fn dtv_rx_vec_slice(v: &heapless::Vec<u8, 128>) -> (s: &[u8])
    ensures
        s@ == dtv_rx_contents(*v),
        s@.len() <= RX_CAPACITY,
{
    v.as_slice()
}

/// `heapless::Vec::push`: appends below capacity, and hands the byte back
/// unchanged at capacity.
#[verifier::external_body]
fn dtv_rx_vec_push(v: &mut heapless::Vec<u8, 128>, b: u8) -> (rejected: Option<u8>)
    ensures
        rejected is None <==> dtv_rx_contents(*old(v)).len() < RX_CAPACITY,
        rejected is Some ==> rejected == Some(b),
        dtv_rx_contents(*final(v)) == (if dtv_rx_contents(*old(v)).len() < RX_CAPACITY { dtv_rx_contents(*old(v)).push(b) } else { dtv_rx_contents(*old(v)) }),
{
    match v.push(b) {
        Ok(()) => None,
        Err(x) => Some(x),
    }
}

/// `heapless::Vec::clear`: empties the vector.
#[verifier::external_body]
fn dtv_rx_vec_clear(v: &mut heapless::Vec<u8, 128>)
    ensures
        dtv_rx_contents(*final(v)) == Seq::<u8>::empty(),
{
    v.clear()
}

/// A frame lifted off the steam wire, unstuffed and checksummed.
#[derive(Clone, PartialEq, Eq, Debug)]
pub struct DecodedDtv {
    pub dest: u8,
    pub src: u8,
    pub cmd: u8,
    pub payload: heapless::Vec<u8, MAX_PAYLOAD>,
    /// From the opcode alone.
    pub direction: DtvDirection,
    /// Bytes discarded before this frame's `SOF`.
    pub skipped_before: usize,
    /// Escape sequences whose escaped byte was not reserved.
    pub escape_anomalies: usize,
}

/// Which opcode carried a steam status.
#[derive(Copy, Clone, PartialEq, Eq, Hash, Debug, Structural)]
pub enum StatusCarrier {
    /// `GET_DEV_STATUS` echoed back with the status.
    EchoedRequest,
    /// `STATUS_UPDATE`.
    StatusUpdate,
    /// `DEV_ACK` carrying the status.
    DevAck,
}

pub open spec fn spec_carrier_of(cmd: u8) -> Option<StatusCarrier> {
    if cmd == opcode::GET_DEV_STATUS {
        Some(StatusCarrier::EchoedRequest)
    } else if cmd == opcode::STATUS_UPDATE {
        Some(StatusCarrier::StatusUpdate)
    } else if cmd == opcode::DEV_ACK {
        Some(StatusCarrier::DevAck)
    } else {
        None
    }
}

pub open spec fn spec_carrier_opcode(c: StatusCarrier) -> u8 {
    match c {
        StatusCarrier::EchoedRequest => opcode::GET_DEV_STATUS,
        StatusCarrier::StatusUpdate => opcode::STATUS_UPDATE,
        StatusCarrier::DevAck => opcode::DEV_ACK,
    }
}

impl StatusCarrier {
    pub fn all() -> (a: [StatusCarrier; 3])
        ensures
            a@ == seq![StatusCarrier::EchoedRequest, StatusCarrier::StatusUpdate, StatusCarrier::DevAck],
    {
        [StatusCarrier::EchoedRequest, StatusCarrier::StatusUpdate, StatusCarrier::DevAck]
    }

    pub fn of(cmd: u8) -> (c: Option<StatusCarrier>)
        ensures
            c == spec_carrier_of(cmd),
    {
        if cmd == opcode::GET_DEV_STATUS {
            Some(StatusCarrier::EchoedRequest)
        } else if cmd == opcode::STATUS_UPDATE {
            Some(StatusCarrier::StatusUpdate)
        } else if cmd == opcode::DEV_ACK {
            Some(StatusCarrier::DevAck)
        } else {
            None
        }
    }

    pub fn opcode(self) -> (b: u8)
        ensures
            b == spec_carrier_opcode(self),
            spec_carrier_of(b) == Some(self),
    {
        match self {
            StatusCarrier::EchoedRequest => opcode::GET_DEV_STATUS,
            StatusCarrier::StatusUpdate => opcode::STATUS_UPDATE,
            StatusCarrier::DevAck => opcode::DEV_ACK,
        }
    }
}

/// Why a decoded frame's status could not be read.
#[derive(Copy, Clone, PartialEq, Eq, Debug, Structural)]
pub enum StatusDecodeError {
    WrongSource { expected: u8, found: u8 },
    WrongDestination { found: u8 },
    NotAStatusCarrier { cmd: u8 },
    Payload(SteamStatusError),
}

/// Why a frame was rejected.
#[derive(Copy, Clone, PartialEq, Eq, Debug, Structural)]
pub enum DtvDecodeError {
    /// An unescaped `SOF` inside a frame: the partial frame before it goes.
    IncompleteFrame { discarded: usize },
    /// No `EOF` within the frame bound.
    FrameOverrun { max: usize },
    /// The body ends with an escape that has nothing to escape.
    TruncatedEscape,
    /// Fewer logical bytes than a header needs.
    TooShort { found: usize, min: usize },
    /// More logical bytes than the largest payload allows.
    PayloadTooLong { max: usize },
    BadChecksum { computed: u8, found: u8 },
    /// Not `SOF ... EOF`.
    NotDelimited,
}

impl DecodedDtv {
    /// The payload.
    pub open spec fn spec_payload(self) -> Seq<u8> {
        bytes_of_16(self.payload)
    }

    /// The documented name of this frame's opcode.
    pub fn command_name(&self) -> (n: Option<&'static str>)
        ensures
            n == spec_name_of(self.cmd),
    {
        name_of(self.cmd)
    }

    /// The device identifier of a `DEV_REQUEST_ADDR` with one payload byte.
    pub fn requested_device_id(&self) -> (r: Option<DeviceId>)
        ensures
            r is Some <==> self.cmd == opcode::DEV_REQUEST_ADDR && self.spec_payload().len() == 1,
            r matches Some(d) ==> d.spec_get() == self.spec_payload()[0],
    {
        if self.cmd != opcode::DEV_REQUEST_ADDR {
            return None;
        }
        let p = vec16_slice(&self.payload);
        if p.len() == 1 {
            Some(DeviceId::new(p[0]))
        } else {
            None
        }
    }

    /// The error byte of a `DEV_NAK` with one payload byte.
    pub fn nak_error_byte(&self) -> (r: Option<u8>)
        ensures
            r == (if self.cmd == opcode::DEV_NAK && self.spec_payload().len() == 1 {
                Some(self.spec_payload()[0])
            } else {
                None::<u8>
            }),
    {
        if self.cmd != opcode::DEV_NAK {
            return None;
        }
        let p = vec16_slice(&self.payload);
        if p.len() == 1 {
            Some(p[0])
        } else {
            None
        }
    }

    /// The steam status this frame carries, checked against the source the
    /// master assigned and against the master as destination.
    pub fn steam_status(&self, expected: DevAddr) -> (r: Result<(StatusCarrier, SteamStatus), StatusDecodeError>)
        ensures
            self.src != expected.spec_get() ==> r == Err::<(StatusCarrier, SteamStatus), StatusDecodeError>(
                StatusDecodeError::WrongSource { expected: expected.spec_get(), found: self.src },
            ),
            self.src == expected.spec_get() && self.dest != MASTER ==> r == Err::<(StatusCarrier, SteamStatus), StatusDecodeError>(
                StatusDecodeError::WrongDestination { found: self.dest },
            ),
            self.src == expected.spec_get() && self.dest == MASTER && spec_carrier_of(self.cmd) is None ==> r == Err::<(StatusCarrier, SteamStatus), StatusDecodeError>(
                StatusDecodeError::NotAStatusCarrier { cmd: self.cmd },
            ),
            self.src == expected.spec_get() && self.dest == MASTER && spec_carrier_of(self.cmd) is Some && self.spec_payload().len() != 6 ==> r == Err::<(StatusCarrier, SteamStatus), StatusDecodeError>(
                StatusDecodeError::Payload(SteamStatusError::WrongLength { found: self.spec_payload().len() as usize, expected: 6 }),
            ),
            r matches Ok((c, s)) ==> self.src == expected.spec_get() && self.dest == MASTER && spec_carrier_of(self.cmd) == Some(c)
                && spec_status_payload(s) == self.spec_payload() && status_canonical(s),
            self.src == expected.spec_get() && self.dest == MASTER && spec_carrier_of(self.cmd) is Some && self.spec_payload().len() == 6 ==> r is Ok,
    {
        if self.src != expected.get() {
            return Err(StatusDecodeError::WrongSource { expected: expected.get(), found: self.src });
        }
        if self.dest != MASTER {
            return Err(StatusDecodeError::WrongDestination { found: self.dest });
        }
        let carrier = match StatusCarrier::of(self.cmd) {
            Some(c) => c,
            None => {
                return Err(StatusDecodeError::NotAStatusCarrier { cmd: self.cmd });
            },
        };
        match SteamStatus::decode(vec16_slice(&self.payload)) {
            Ok(s) => Ok((carrier, s)),
            Err(e) => Err(StatusDecodeError::Payload(e)),
        }
    }
}

/// What a body between `SOF` and `EOF` parses to: `(dest, src, cmd, payload,
/// escape anomalies)`, or the named rejection.
pub open spec fn spec_parse_body(body: Seq<u8>) -> Result<(u8, u8, u8, Seq<u8>, nat), DtvDecodeError> {
    let u = spec_unescape(body);
    let l = u.0;
    if l.len() > MAX_LOGICAL {
        Err(DtvDecodeError::PayloadTooLong { max: MAX_PAYLOAD })
    } else if u.2 {
        Err(DtvDecodeError::TruncatedEscape)
    } else if l.len() < LOGICAL_OVERHEAD {
        Err(DtvDecodeError::TooShort { found: l.len() as usize, min: LOGICAL_OVERHEAD })
    } else {
        let payload = l.subrange(3, l.len() - 1);
        let computed = spec_checksum(l[0], l[1], l[2], payload);
        if computed != l.last() {
            Err(DtvDecodeError::BadChecksum { computed, found: l.last() })
        } else {
            Ok((l[0], l[1], l[2], payload, u.1))
        }
    }
}

/// A decoded frame as a parsed body describes it.
pub open spec fn parsed_matches(
    p: Result<(u8, u8, u8, Seq<u8>, nat), DtvDecodeError>,
    skipped_before: int,
    r: Result<DecodedDtv, DtvDecodeError>,
) -> bool {
    match p {
        Ok((dest, src, cmd, payload, anomalies)) => r matches Ok(f) && f.dest == dest && f.src == src && f.cmd
            == cmd && f.spec_payload() == payload && f.direction == spec_direction_of(cmd) && f.skipped_before
            == skipped_before && f.escape_anomalies == anomalies,
        Err(e) => r == Err::<DecodedDtv, DtvDecodeError>(e),
    }
}

fn parse_body(body: &[u8], skipped_before: usize) -> (r: Result<DecodedDtv, DtvDecodeError>)
    ensures
        parsed_matches(spec_parse_body(body@), skipped_before as int, r),
{
    let mut logical: heapless::Vec<u8, MAX_LOGICAL> = vec20_new();
    let report = match unescape_into(body, &mut logical) {
        Ok(rep) => rep,
        Err(UnescapeError::TruncatedEscape) => {
            return Err(DtvDecodeError::TruncatedEscape);
        },
        Err(UnescapeError::TooLong { .. }) => {
            return Err(DtvDecodeError::PayloadTooLong { max: MAX_PAYLOAD });
        },
    };
    let l = vec20_slice(&logical);
    proof {
        assert(Seq::<u8>::empty() + spec_unescape(body@).0 =~= spec_unescape(body@).0);
    }
    let n = l.len();
    if n < LOGICAL_OVERHEAD {
        return Err(DtvDecodeError::TooShort { found: n, min: LOGICAL_OVERHEAD });
    }
    let dest = l[0];
    let src = l[1];
    let cmd = l[2];
    let found = l[n - 1];
    let mut payload: heapless::Vec<u8, MAX_PAYLOAD> = vec16_new();
    let mut k: usize = 3;
    while k < n - 1
        invariant
            3 <= k <= n - 1,
            n == l@.len(),
            LOGICAL_OVERHEAD <= n <= MAX_LOGICAL,
            bytes_of_16(payload) == l@.subrange(3, k as int),
        decreases n - 1 - k,
    {
        let _ = vec16_push(&mut payload, l[k]);
        proof {
            assert(l@.subrange(3, k + 1) =~= l@.subrange(3, k as int).push(l@[k as int]));
        }
        k = k + 1;
    }
    let computed = checksum(dest, src, cmd, vec16_slice(&payload));
    if computed != found {
        return Err(DtvDecodeError::BadChecksum { computed, found });
    }
    Ok(DecodedDtv {
        dest,
        src,
        cmd,
        payload,
        direction: direction_of(cmd),
        skipped_before,
        escape_anomalies: report.anomalies,
    })
}

/// What [`decode_frame`] makes of one delimited frame.
pub open spec fn spec_decode_frame(wire: Seq<u8>) -> Result<(u8, u8, u8, Seq<u8>, nat), DtvDecodeError> {
    if wire.len() < 2 || wire[0] != SOF || wire.last() != EOF {
        Err(DtvDecodeError::NotDelimited)
    } else {
        spec_parse_body(wire.subrange(1, wire.len() - 1))
    }
}

/// Decodes one complete `SOF ... EOF` frame held in a slice.
pub fn decode_frame(wire: &[u8]) -> (r: Result<DecodedDtv, DtvDecodeError>)
    ensures
        parsed_matches(spec_decode_frame(wire@), 0, r),
{
    let n = wire.len();
    if n < 2 || wire[0] != SOF || wire[n - 1] != EOF {
        return Err(DtvDecodeError::NotDelimited);
    }
    let mut body: Vec<u8> = Vec::new();
    let mut k: usize = 1;
    while k < n - 1
        invariant
            1 <= k <= n - 1,
            n == wire@.len(),
            n >= 2,
            body@ == wire@.subrange(1, k as int),
        decreases n - 1 - k,
    {
        body.push(wire[k]);
        proof {
            assert(wire@.subrange(1, k + 1) =~= wire@.subrange(1, k as int).push(wire@[k as int]));
        }
        k = k + 1;
    }
    parse_body(body.as_slice(), 0)
}

/// **Round trip.** Every well-formed frame, whoever sent it, decodes back to
/// its destination, source, opcode and payload, with no escape anomaly.
pub proof fn lemma_frame_round_trip(dest: u8, src: u8, cmd: u8, payload: Seq<u8>)
    requires
        payload.len() <= MAX_PAYLOAD,
    ensures
        spec_decode_frame(spec_dtv_wire(spec_frame_logical(dest, src, cmd, payload))) == Ok::<(u8, u8, u8, Seq<u8>, nat), DtvDecodeError>(
            (dest, src, cmd, payload, 0nat),
        ),
{
    let l = spec_frame_logical(dest, src, cmd, payload);
    let w = spec_dtv_wire(l);
    lemma_unescape_escape(l);
    assert(w.subrange(1, w.len() - 1) =~= spec_escape(l));
    assert(l.subrange(3, l.len() - 1) =~= payload);
}

/// The streaming scan for the end of a frame, from position `i` with an escape
/// pending or not: the position of the first unescaped `EOF` (`Ok`), of an
/// unescaped `SOF` (`Err`), or `None` before `bound`.
pub open spec fn scan_end(s: Seq<u8>, i: int, bound: int, escaped: bool) -> Option<Result<int, int>>
    decreases bound - i,
{
    if i >= bound || i < 0 {
        None
    } else if escaped {
        scan_end(s, i + 1, bound, false)
    } else if s[i] == ESC {
        scan_end(s, i + 1, bound, true)
    } else if s[i] == EOF {
        Some(Ok(i))
    } else if s[i] == SOF {
        Some(Err(i))
    } else {
        scan_end(s, i + 1, bound, false)
    }
}

/// The receive window of the steam link.
pub open spec fn dtv_window(s: Seq<u8>) -> Seq<u8> {
    if s.len() <= RX_CAPACITY {
        s
    } else {
        s.subrange(s.len() - RX_CAPACITY, s.len() as int)
    }
}

pub open spec fn dtv_excess(s: Seq<u8>) -> nat {
    if s.len() <= RX_CAPACITY {
        0
    } else {
        (s.len() - RX_CAPACITY) as nat
    }
}

/// How many leading bytes a resync discards: everything before the first
/// `SOF`, or everything.
#[verifier::opaque]
pub open spec fn dtv_resync_drop(s: Seq<u8>) -> nat {
    if exists|i: int| 0 <= i < s.len() && s[i] == SOF {
        (choose|i: int| 0 <= i < s.len() && s[i] == SOF && forall|j: int| 0 <= j < i ==> s[j] != SOF) as nat
    } else {
        s.len()
    }
}

/// The receive buffer of the steam link: bounded and resynchronising.
#[derive(Clone, Debug)]
pub struct DtvRxBuffer {
    buf: heapless::Vec<u8, 128>,
    skipped: usize,
    overflowed: usize,
    anomalies: usize,
}

impl Default for DtvRxBuffer {
    /// An empty buffer with nothing skipped or dropped.
    fn default() -> (r: DtvRxBuffer)
        ensures
            r.spec_bytes() == Seq::<u8>::empty(),
            r.spec_skipped() == 0,
            r.spec_overflowed() == 0,
            r.spec_anomalies() == 0,
    {
        DtvRxBuffer::new()
    }
}

impl DtvRxBuffer {
    pub closed spec fn spec_bytes(self) -> Seq<u8> {
        dtv_rx_contents(self.buf)
    }

    pub closed spec fn spec_skipped(self) -> int {
        self.skipped as int
    }

    pub closed spec fn spec_overflowed(self) -> int {
        self.overflowed as int
    }

    pub closed spec fn spec_anomalies(self) -> int {
        self.anomalies as int
    }

    pub fn new() -> (r: DtvRxBuffer)
        ensures
            r.spec_bytes() == Seq::<u8>::empty(),
            r.spec_skipped() == 0,
            r.spec_overflowed() == 0,
            r.spec_anomalies() == 0,
    {
        DtvRxBuffer { buf: dtv_rx_vec_new(), skipped: 0, overflowed: 0, anomalies: 0 }
    }

    pub fn skipped(&self) -> (n: usize)
        ensures
            n == self.spec_skipped(),
    {
        self.skipped
    }

    pub fn overflowed(&self) -> (n: usize)
        ensures
            n == self.spec_overflowed(),
    {
        self.overflowed
    }

    /// Escape anomalies over every frame decoded so far.
    pub fn escape_anomalies(&self) -> (n: usize)
        ensures
            n == self.spec_anomalies(),
    {
        self.anomalies
    }

    pub fn len(&self) -> (n: usize)
        ensures
            n == self.spec_bytes().len(),
            n <= RX_CAPACITY,
    {
        dtv_rx_vec_slice(&self.buf).len()
    }

    pub fn is_empty(&self) -> (b: bool)
        ensures
            b == (self.spec_bytes().len() == 0),
    {
        dtv_rx_vec_slice(&self.buf).len() == 0
    }

    pub fn as_slice(&self) -> (s: &[u8])
        ensures
            s@ == self.spec_bytes(),
    {
        dtv_rx_vec_slice(&self.buf)
    }

    pub fn clear(&mut self)
        ensures
            final(self).spec_bytes() == Seq::<u8>::empty(),
            final(self).spec_skipped() == old(self).spec_skipped(),
            final(self).spec_overflowed() == old(self).spec_overflowed(),
            final(self).spec_anomalies() == old(self).spec_anomalies(),
    {
        dtv_rx_vec_clear(&mut self.buf);
    }

    /// Appends received bytes, dropping the oldest on overflow.
    pub fn extend(&mut self, bytes: &[u8])
        ensures
            final(self).spec_bytes() == dtv_window(old(self).spec_bytes() + bytes@),
            final(self).spec_overflowed() == sat_add(
                old(self).spec_overflowed(),
                dtv_excess(old(self).spec_bytes() + bytes@) as int,
            ),
            final(self).spec_skipped() == old(self).spec_skipped(),
            final(self).spec_anomalies() == old(self).spec_anomalies(),
    {
        let ghost start = self.spec_bytes();
        let ghost over0 = self.spec_overflowed();
        let _ = self.len();
        proof {
            assert(bytes@.take(0) =~= Seq::<u8>::empty());
            assert(start + bytes@.take(0) =~= start);
        }
        let mut i: usize = 0;
        while i < bytes.len()
            invariant
                i <= bytes.len(),
                start.len() <= RX_CAPACITY,
                self.spec_bytes() == dtv_window(start + bytes@.take(i as int)),
                self.spec_overflowed() == sat_add(over0, dtv_excess(start + bytes@.take(i as int)) as int),
                self.spec_skipped() == old(self).spec_skipped(),
                self.spec_anomalies() == old(self).spec_anomalies(),
            decreases bytes.len() - i,
        {
            let b = bytes[i];
            let ghost before = start + bytes@.take(i as int);
            let ghost after = start + bytes@.take(i + 1);
            proof {
                assert(after =~= before.push(b));
            }
            if self.len() >= RX_CAPACITY {
                self.drop_front(1);
                self.overflowed = if self.overflowed < usize::MAX { self.overflowed + 1 } else { self.overflowed };
                proof {
                    assert(self.spec_bytes().push(b) =~= dtv_window(after));
                }
            }
            let _ = dtv_rx_vec_push(&mut self.buf, b);
            i = i + 1;
        }
        proof {
            assert(bytes@.take(bytes@.len() as int) =~= bytes@);
        }
    }

    /// Removes up to `n` bytes from the front.
    fn drop_front(&mut self, n: usize)
        ensures
            final(self).spec_bytes() == old(self).spec_bytes().skip(
                if n <= old(self).spec_bytes().len() { n as int } else { old(self).spec_bytes().len() as int },
            ),
            final(self).spec_skipped() == old(self).spec_skipped(),
            final(self).spec_overflowed() == old(self).spec_overflowed(),
            final(self).spec_anomalies() == old(self).spec_anomalies(),
    {
        let s = dtv_rx_vec_slice(&self.buf);
        let len = s.len();
        let n = if n < len { n } else { len };
        let mut fresh = dtv_rx_vec_new();
        let mut i: usize = n;
        while i < len
            invariant
                n <= i <= len,
                len == s@.len(),
                len <= RX_CAPACITY,
                dtv_rx_contents(fresh) == s@.subrange(n as int, i as int),
            decreases len - i,
        {
            let _ = dtv_rx_vec_push(&mut fresh, s[i]);
            proof {
                assert(s@.subrange(n as int, i + 1) =~= s@.subrange(n as int, i as int).push(s@[i as int]));
            }
            i = i + 1;
        }
        proof {
            assert(s@.subrange(n as int, len as int) =~= s@.skip(n as int));
        }
        self.buf = fresh;
    }

    /// Discards everything before the first `SOF`.
    fn resync(&mut self) -> (d: usize)
        ensures
            d == dtv_resync_drop(old(self).spec_bytes()),
            final(self).spec_bytes() == old(self).spec_bytes().skip(d as int),
            final(self).spec_skipped() == sat_add(old(self).spec_skipped(), d as int),
            final(self).spec_overflowed() == old(self).spec_overflowed(),
            final(self).spec_anomalies() == old(self).spec_anomalies(),
    {
        proof { reveal(dtv_resync_drop); }
        let s = dtv_rx_vec_slice(&self.buf);
        let len = s.len();
        let mut i: usize = 0;
        while i < len
            invariant
                len == s@.len(),
                i <= len,
                forall|j: int| 0 <= j < i ==> s@[j] != SOF,
            ensures
                i < len ==> s@[i as int] == SOF,
                forall|j: int| 0 <= j < i ==> s@[j] != SOF,
            decreases len - i,
        {
            if s[i] == SOF {
                break;
            }
            i = i + 1;
        }
        proof {
            if i < len {
                let c = choose|k: int| 0 <= k < s@.len() && s@[k] == SOF && forall|j: int| 0 <= j < k ==> s@[j] != SOF;
                if c < i { assert(s@[c] != SOF); }
                if c > i { assert(s@[i as int] == SOF); }
            }
        }
        self.drop_front(i);
        self.skipped = if self.skipped <= usize::MAX - i { self.skipped + i } else { usize::MAX };
        i
    }
}

/// The streaming decode contract: how the buffer moves, and what comes back.
pub open spec fn dtv_decode_result(
    old_rx: DtvRxBuffer,
    new_rx: DtvRxBuffer,
    r: Result<Option<DecodedDtv>, DtvDecodeError>,
) -> bool {
    let drop = dtv_resync_drop(old_rx.spec_bytes());
    let s = old_rx.spec_bytes().skip(drop as int);
    let sk = sat_add(old_rx.spec_skipped(), drop as int);
    let bound = if s.len() < MAX_FRAME { s.len() as int } else { MAX_FRAME as int };
    &&& new_rx.spec_overflowed() == old_rx.spec_overflowed()
    &&& if s.len() == 0 {
        r == Ok::<Option<DecodedDtv>, DtvDecodeError>(None) && new_rx.spec_bytes() == s
            && new_rx.spec_skipped() == sk && new_rx.spec_anomalies() == old_rx.spec_anomalies()
    } else {
        match scan_end(s, 1, bound, false) {
            Some(Err(i)) => r == Err::<Option<DecodedDtv>, DtvDecodeError>(
                DtvDecodeError::IncompleteFrame { discarded: i as usize },
            ) && new_rx.spec_bytes() == s.skip(i) && new_rx.spec_skipped() == sat_add(sk, i)
                && new_rx.spec_anomalies() == old_rx.spec_anomalies(),
            None => if s.len() >= MAX_FRAME {
                r == Err::<Option<DecodedDtv>, DtvDecodeError>(DtvDecodeError::FrameOverrun { max: MAX_FRAME })
                    && new_rx.spec_bytes() == s.skip(1) && new_rx.spec_skipped() == sat_add(sk, 1)
                    && new_rx.spec_anomalies() == old_rx.spec_anomalies()
            } else {
                r == Ok::<Option<DecodedDtv>, DtvDecodeError>(None) && new_rx.spec_bytes() == s
                    && new_rx.spec_skipped() == sk && new_rx.spec_anomalies() == old_rx.spec_anomalies()
            },
            Some(Ok(end)) => {
                let p = spec_parse_body(s.subrange(1, end));
                &&& new_rx.spec_bytes() == s.skip(end + 1)
                &&& new_rx.spec_skipped() == sk
                &&& match p {
                    Ok((dest, src, cmd, payload, anomalies)) => r matches Ok(Some(f)) && f.dest == dest
                        && f.src == src && f.cmd == cmd && f.spec_payload() == payload && f.direction
                        == spec_direction_of(cmd) && f.skipped_before == drop && f.escape_anomalies
                        == anomalies && new_rx.spec_anomalies() == sat_add(old_rx.spec_anomalies(), anomalies as int),
                    Err(e) => r == Err::<Option<DecodedDtv>, DtvDecodeError>(e)
                        && new_rx.spec_anomalies() == old_rx.spec_anomalies(),
                }
            },
        }
    }
}

/// Pulls one frame from `rx`: `Ok(None)` when more bytes are needed, the
/// frame, or the named reason it was rejected with the buffer already past
/// the bytes responsible.
#[verifier::rlimit(40)]
pub fn decode(rx: &mut DtvRxBuffer) -> (r: Result<Option<DecodedDtv>, DtvDecodeError>)
    ensures
        dtv_decode_result(*old(rx), *final(rx), r),
{
    let skipped_before = rx.resync();
    if rx.is_empty() {
        return Ok(None);
    }
    let bytes = rx.as_slice();
    let len = bytes.len();
    let bound = if len < MAX_FRAME { len } else { MAX_FRAME };
    let mut escaped = false;
    let mut i: usize = 1;
    let mut end: usize = 0;
    let mut found = false;
    while i < bound
        invariant_except_break
            !found,
            scan_end(bytes@, 1, bound as int, false) == scan_end(bytes@, i as int, bound as int, escaped),
        invariant
            1 <= i <= bound,
            bound <= len,
            len == bytes@.len(),
            bound == (if len < MAX_FRAME { len as int } else { MAX_FRAME as int }),
        ensures
            found ==> 1 <= end < bound && scan_end(bytes@, 1, bound as int, false) == Some(Ok::<int, int>(end as int)),
            !found ==> scan_end(bytes@, 1, bound as int, false) == scan_end(bytes@, i as int, bound as int, escaped),
            !found ==> i == bound || (bytes@[i as int] == SOF && !escaped && 1 <= i < bound),
        decreases bound - i,
    {
        let b = bytes[i];
        if escaped {
            escaped = false;
        } else if b == ESC {
            escaped = true;
        } else if b == EOF {
            end = i;
            found = true;
            break;
        } else if b == SOF {
            break;
        }
        i = i + 1;
    }
    if !found {
        if i < bound {
            rx.drop_front(i);
            rx.skipped = if rx.skipped <= usize::MAX - i { rx.skipped + i } else { usize::MAX };
            return Err(DtvDecodeError::IncompleteFrame { discarded: i });
        }
        if len >= MAX_FRAME {
            rx.drop_front(1);
            rx.skipped = if rx.skipped <= usize::MAX - 1 { rx.skipped + 1 } else { usize::MAX };
            return Err(DtvDecodeError::FrameOverrun { max: MAX_FRAME });
        }
        return Ok(None);
    }
    let mut body: Vec<u8> = Vec::new();
    let mut k: usize = 1;
    while k < end
        invariant
            1 <= k <= end,
            end < len,
            len == bytes@.len(),
            body@ == bytes@.subrange(1, k as int),
        decreases end - k,
    {
        body.push(bytes[k]);
        proof {
            assert(bytes@.subrange(1, k + 1) =~= bytes@.subrange(1, k as int).push(bytes@[k as int]));
        }
        k = k + 1;
    }
    let parsed = parse_body(body.as_slice(), skipped_before);
    rx.drop_front(end + 1);
    match parsed {
        Ok(f) => {
            rx.anomalies = if rx.anomalies <= usize::MAX - f.escape_anomalies {
                rx.anomalies + f.escape_anomalies
            } else {
                usize::MAX
            };
            Ok(Some(f))
        },
        Err(e) => Err(e),
    }
}

/// Some `SOF` comes first.
proof fn lemma_first_sof(b: Seq<u8>, k: int)
    requires
        0 <= k < b.len(),
        b[k] == SOF,
    ensures
        exists|i: int| 0 <= i < b.len() && b[i] == SOF && forall|j: int| 0 <= j < i ==> b[j] != SOF,
    decreases k,
{
    if exists|j: int| 0 <= j < k && b[j] == SOF {
        let j = choose|j: int| 0 <= j < k && b[j] == SOF;
        lemma_first_sof(b, j);
    } else {
        assert(0 <= k < b.len() && b[k] == SOF && forall|j: int| 0 <= j < k ==> b[j] != SOF);
    }
}

/// Where a resync leaves the steam buffer: on its first `SOF`, or empty.
proof fn lemma_dtv_resync_lands(b: Seq<u8>)
    ensures
        dtv_resync_drop(b) <= b.len(),
        forall|j: int| 0 <= j < dtv_resync_drop(b) ==> b[j] != SOF,
        dtv_resync_drop(b) < b.len() ==> b[dtv_resync_drop(b) as int] == SOF,
{
    reveal(dtv_resync_drop);
    if exists|i: int| 0 <= i < b.len() && b[i] == SOF {
        let k = choose|i: int| 0 <= i < b.len() && b[i] == SOF;
        lemma_first_sof(b, k);
    }
}

/// Where the end scan stops: an `EOF` or an `SOF` at or after where it
/// started and before the bound.
proof fn lemma_scan_end_bounds(s: Seq<u8>, i: int, bound: int, escaped: bool)
    requires
        0 <= i,
        bound <= s.len(),
    ensures
        scan_end(s, i, bound, escaped) matches Some(Ok(e)) ==> i <= e < bound && s[e] == EOF,
        scan_end(s, i, bound, escaped) matches Some(Err(e)) ==> i <= e < bound && s[e] == SOF,
    decreases bound - i,
{
    if i < bound {
        if escaped || s[i] == ESC {
            lemma_scan_end_bounds(s, i + 1, bound, !escaped);
        } else if s[i] != EOF && s[i] != SOF {
            lemma_scan_end_bounds(s, i + 1, bound, false);
        }
    }
}

/// The end scan passes over stuffed bytes without stopping, and leaves no
/// escape pending.
proof fn lemma_scan_skips_stuffed(s: Seq<u8>, a: int, x: Seq<u8>, bound: int)
    requires
        0 <= a,
        a + spec_escape(x).len() <= bound <= s.len(),
        s.subrange(a, a + spec_escape(x).len()) == spec_escape(x),
    ensures
        scan_end(s, a, bound, false) == scan_end(s, a + spec_escape(x).len(), bound, false),
    decreases x.len(),
{
    if x.len() > 0 {
        let p = x.drop_last();
        let b = x.last();
        let c = escape_chunk(b);
        let n = spec_escape(p).len() as int;
        assert(spec_escape(x) == spec_escape(p) + c);
        assert(s.subrange(a, a + n) =~= spec_escape(x).subrange(0, n));
        assert(spec_escape(x).subrange(0, n) =~= spec_escape(p));
        lemma_scan_skips_stuffed(s, a, p, bound);
        let q = a + n;
        assert(s[q] == spec_escape(x)[n]);
        if spec_is_reserved(b) {
            assert(s[q] == ESC);
            assert(scan_end(s, q + 1, bound, true) == scan_end(s, q + 2, bound, false));
            assert(scan_end(s, q, bound, false) == scan_end(s, q + 1, bound, true));
        } else {
            assert(s[q] == b);
            assert(scan_end(s, q, bound, false) == scan_end(s, q + 1, bound, false));
        }
    }
}

/// Within stuffed bytes the end scan never stops, so a bound that falls
/// inside them ends the scan with nothing found.
proof fn lemma_scan_stuffed_prefix(s: Seq<u8>, a: int, x: Seq<u8>, bound: int)
    requires
        0 <= a <= bound <= a + spec_escape(x).len(),
        bound <= s.len(),
        a + spec_escape(x).len() <= s.len(),
        s.subrange(a, a + spec_escape(x).len()) == spec_escape(x),
    ensures
        scan_end(s, a, bound, false) is None,
    decreases x.len(),
{
    if x.len() > 0 {
        let p = x.drop_last();
        let b = x.last();
        let n = spec_escape(p).len() as int;
        assert(spec_escape(x) == spec_escape(p) + escape_chunk(b));
        assert(s.subrange(a, a + n) =~= spec_escape(x).subrange(0, n));
        assert(spec_escape(x).subrange(0, n) =~= spec_escape(p));
        if bound <= a + n {
            lemma_scan_stuffed_prefix(s, a, p, bound);
        } else {
            lemma_scan_skips_stuffed(s, a, p, bound);
            let q = a + n;
            assert(s[q] == spec_escape(x)[n]);
            if spec_is_reserved(b) {
                assert(s[q] == ESC);
                if q + 1 < bound {
                    assert(scan_end(s, q + 1, bound, true) == scan_end(s, q + 2, bound, false));
                }
                assert(scan_end(s, q, bound, false) == scan_end(s, q + 1, bound, true));
            } else {
                assert(s[q] == b);
                assert(scan_end(s, q, bound, false) == scan_end(s, q + 1, bound, false));
            }
        }
    } else {
        assert(bound == a);
    }
}

/// Before an unescaped `SOF` at `m`, the end scan always stops, at an `EOF`
/// before `m` or an `SOF` no later than `m`.
proof fn lemma_scan_stops_by_sof(s: Seq<u8>, i: int, bound: int, escaped: bool, m: int)
    requires
        0 <= i <= m < bound <= s.len(),
        s[m] == SOF,
        i == m ==> !escaped,
        i < m ==> s[m - 1] != ESC,
    ensures
        scan_end(s, i, bound, escaped) matches Some(x) && (x matches Ok(e) ==> i <= e < m) && (x matches Err(e)
            ==> i <= e <= m),
    decreases m - i,
{
    if i < m {
        if escaped {
            lemma_scan_stops_by_sof(s, i + 1, bound, false, m);
        } else if s[i] == ESC {
            lemma_scan_stops_by_sof(s, i + 1, bound, true, m);
        } else if s[i] != EOF && s[i] != SOF {
            lemma_scan_stops_by_sof(s, i + 1, bound, false, m);
        }
    }
}

/// **Every decoded steam frame is genuine.** A frame comes back only when the
/// buffer held, at the first `SOF`, a delimited body whose unstuffed bytes are
/// exactly the frame's fields followed by their checksum; its payload is
/// within the maximum, and the buffer afterwards is what followed the `EOF`.
pub proof fn lemma_decoded_steam_frames_are_genuine(
    before: DtvRxBuffer,
    after: DtvRxBuffer,
    r: Result<Option<DecodedDtv>, DtvDecodeError>,
)
    requires
        dtv_decode_result(before, after, r),
        r matches Ok(Some(_)),
    ensures
        r matches Ok(Some(f)) && f.spec_payload().len() <= MAX_PAYLOAD && exists|j: int|
            #![trigger before.spec_bytes()[j]]
            f.skipped_before < j < before.spec_bytes().len() && before.spec_bytes()[f.skipped_before as int] == SOF
                && before.spec_bytes()[j] == EOF && after.spec_bytes() == before.spec_bytes().skip(j + 1)
                && spec_unescape(before.spec_bytes().subrange(f.skipped_before as int + 1, j)).0 == seq![
                f.dest,
                f.src,
                f.cmd,
            ] + f.spec_payload() + seq![spec_checksum(f.dest, f.src, f.cmd, f.spec_payload())],
{
    let b = before.spec_bytes();
    let drop = dtv_resync_drop(b);
    lemma_dtv_resync_lands(b);
    let s = b.skip(drop as int);
    let bound = if s.len() < MAX_FRAME { s.len() as int } else { MAX_FRAME as int };
    lemma_scan_end_bounds(s, 1, bound, false);
    let f = r->Ok_0->Some_0;
    let end = scan_end(s, 1, bound, false)->Some_0->Ok_0;
    let j = drop + end;
    let l = spec_unescape(s.subrange(1, end)).0;
    assert(b.subrange(drop + 1int, j) =~= s.subrange(1, end));
    assert(l =~= seq![l[0], l[1], l[2]] + l.subrange(3, l.len() - 1) + seq![l.last()]);
    assert(after.spec_bytes() =~= b.skip(j + 1));
    assert(b[j] == s[end]);
}

/// The steam wire frame carrying `payload` fits the frame maximum and is
/// delimited.
proof fn lemma_wire_shape(dest: u8, src: u8, cmd: u8, payload: Seq<u8>)
    requires
        payload.len() <= MAX_PAYLOAD,
    ensures
        spec_dtv_wire(spec_frame_logical(dest, src, cmd, payload)).len() <= MAX_FRAME,
        spec_dtv_wire(spec_frame_logical(dest, src, cmd, payload))[0] == SOF,
{
    let l = spec_frame_logical(dest, src, cmd, payload);
    lemma_escape_len(l);
    assert(l.len() == payload.len() + 4);
}

/// With no `SOF` in the garbage, the first pull skips it and delivers the
/// frame.
proof fn lemma_plain_garbage_skipped(
    before: DtvRxBuffer,
    after: DtvRxBuffer,
    garbage: Seq<u8>,
    dest: u8,
    src: u8,
    cmd: u8,
    payload: Seq<u8>,
    r: Result<Option<DecodedDtv>, DtvDecodeError>,
)
    requires
        payload.len() <= MAX_PAYLOAD,
        forall|i: int| 0 <= i < garbage.len() ==> garbage[i] != SOF,
        before.spec_bytes() == garbage + spec_dtv_wire(spec_frame_logical(dest, src, cmd, payload)),
        dtv_decode_result(before, after, r),
    ensures
        r matches Ok(Some(f)) && f.dest == dest && f.src == src && f.cmd == cmd && f.spec_payload() == payload
            && after.spec_bytes().len() == 0,
{
    let l = spec_frame_logical(dest, src, cmd, payload);
    let w = spec_dtv_wire(l);
    let b = before.spec_bytes();
    let g = garbage;
    lemma_wire_shape(dest, src, cmd, payload);
    assert(b[g.len() as int] == SOF);
    let drop = dtv_resync_drop(b);
    lemma_dtv_resync_lands(b);
    assert(drop == g.len()) by {
        if drop < g.len() {
            assert(b[drop as int] == g[drop as int]);
        }
    }
    let s = b.skip(drop as int);
    assert(s =~= w);
    assert(w.subrange(1, 1 + spec_escape(l).len() as int) =~= spec_escape(l));
    lemma_scan_skips_stuffed(w, 1, l, w.len() as int);
    assert(w[w.len() - 1] == EOF);
    assert(scan_end(w, w.len() - 1, w.len() as int, false) == Some(Ok::<int, int>(w.len() - 1)));
    lemma_frame_round_trip(dest, src, cmd, payload);
    assert(s.skip(w.len() as int).len() == 0);
}

/// With an `SOF` in the garbage, a pull consumes part of the garbage and
/// answers something other than "need more bytes".
proof fn lemma_framing_garbage_consumed(
    before: DtvRxBuffer,
    after: DtvRxBuffer,
    garbage: Seq<u8>,
    q: int,
    dest: u8,
    src: u8,
    cmd: u8,
    payload: Seq<u8>,
    r: Result<Option<DecodedDtv>, DtvDecodeError>,
)
    requires
        payload.len() <= MAX_PAYLOAD,
        garbage.last() != ESC,
        0 <= q < garbage.len(),
        garbage[q] == SOF,
        before.spec_bytes() == garbage + spec_dtv_wire(spec_frame_logical(dest, src, cmd, payload)),
        dtv_decode_result(before, after, r),
    ensures
        !(r matches Ok(None)),
        exists|k: int|
            0 < k <= garbage.len() && after.spec_bytes() == garbage.skip(k) + spec_dtv_wire(
                spec_frame_logical(dest, src, cmd, payload),
            ),
{
    let w = spec_dtv_wire(spec_frame_logical(dest, src, cmd, payload));
    let b = before.spec_bytes();
    let g = garbage;
    lemma_wire_shape(dest, src, cmd, payload);
    let drop = dtv_resync_drop(b);
    lemma_dtv_resync_lands(b);
    assert(b[q] == SOF);
    assert(drop <= q);
    let p = drop as int;
    let s = b.skip(p);
    assert(s =~= g.skip(p) + w);
    let m = g.len() - p;
    assert(s[m] == SOF);
    let bound = if s.len() < MAX_FRAME { s.len() as int } else { MAX_FRAME as int };
    lemma_scan_end_bounds(s, 1, bound, false);
    if m < bound {
        if m > 1 {
            assert(s[m - 1] == g.last());
        }
        lemma_scan_stops_by_sof(s, 1, bound, false, m);
    }
    match scan_end(s, 1, bound, false) {
        Some(Ok(e)) => {
            assert(s.skip(e + 1) =~= g.skip(p + e + 1) + w);
        },
        Some(Err(e)) => {
            assert(s.skip(e) =~= g.skip(p + e) + w);
        },
        None => {
            assert(s.len() >= MAX_FRAME);
            assert(s.skip(1) =~= g.skip(p + 1) + w);
        },
    }
}

/// **Line garbage never costs the frame behind it**, unless it ends in an
/// escape, which on the wire swallows the frame's `SOF`. Each pull either
/// delivers the frame, and empties the buffer, or reports something other
/// than "need more bytes" and leaves the frame intact behind a strictly
/// shorter tail of the garbage; so at most one pull more than the garbage has
/// bytes delivers it. With no `SOF` in the garbage the first pull does.
pub proof fn lemma_garbage_never_costs_the_frame(
    before: DtvRxBuffer,
    after: DtvRxBuffer,
    garbage: Seq<u8>,
    dest: u8,
    src: u8,
    cmd: u8,
    payload: Seq<u8>,
    r: Result<Option<DecodedDtv>, DtvDecodeError>,
)
    requires
        payload.len() <= MAX_PAYLOAD,
        garbage.len() == 0 || garbage.last() != ESC,
        before.spec_bytes() == garbage + spec_dtv_wire(spec_frame_logical(dest, src, cmd, payload)),
        dtv_decode_result(before, after, r),
    ensures
        (r matches Ok(Some(f)) && f.dest == dest && f.src == src && f.cmd == cmd && f.spec_payload() == payload
            && after.spec_bytes().len() == 0) || (!(r matches Ok(None)) && exists|k: int|
            0 < k <= garbage.len() && after.spec_bytes() == garbage.skip(k) + spec_dtv_wire(
                spec_frame_logical(dest, src, cmd, payload),
            )),
        (forall|i: int| 0 <= i < garbage.len() ==> garbage[i] != SOF) ==> (r matches Ok(Some(f)) && f.dest
            == dest && f.src == src && f.cmd == cmd && f.spec_payload() == payload && after.spec_bytes().len() == 0),
{
    if forall|i: int| 0 <= i < garbage.len() ==> garbage[i] != SOF {
        lemma_plain_garbage_skipped(before, after, garbage, dest, src, cmd, payload, r);
    } else {
        let q = choose|i: int| 0 <= i < garbage.len() && garbage[i] == SOF;
        lemma_framing_garbage_consumed(before, after, garbage, q, dest, src, cmd, payload, r);
    }
}

/// **A frame arriving in pieces waits for its end.** While only a proper
/// prefix of a steam frame has arrived, a pull answers "need more bytes" and
/// leaves the buffer exactly as it was, so a frame split at any boundary is
/// decoded once, when its last byte arrives.
pub proof fn lemma_partial_frame_waits(
    before: DtvRxBuffer,
    after: DtvRxBuffer,
    dest: u8,
    src: u8,
    cmd: u8,
    payload: Seq<u8>,
    k: int,
    r: Result<Option<DecodedDtv>, DtvDecodeError>,
)
    requires
        payload.len() <= MAX_PAYLOAD,
        0 < k < spec_dtv_wire(spec_frame_logical(dest, src, cmd, payload)).len(),
        before.spec_bytes() == spec_dtv_wire(spec_frame_logical(dest, src, cmd, payload)).take(k),
        dtv_decode_result(before, after, r),
    ensures
        r == Ok::<Option<DecodedDtv>, DtvDecodeError>(None),
        after.spec_bytes() == before.spec_bytes(),
        after.spec_skipped() == before.spec_skipped(),
{
    let l = spec_frame_logical(dest, src, cmd, payload);
    let w = spec_dtv_wire(l);
    let b = before.spec_bytes();
    lemma_wire_shape(dest, src, cmd, payload);
    lemma_dtv_resync_lands(b);
    assert(b[0] == SOF);
    assert(dtv_resync_drop(b) == 0);
    assert(b.skip(0) =~= b);
    let e = spec_escape(l);
    assert(w.subrange(1, 1 + e.len() as int) =~= e);
    if k > 1 {
        lemma_scan_stuffed_prefix(w, 1, l, k);
        assert(b.subrange(0, k) =~= w.subrange(0, k));
        lemma_scan_agrees(b, w, 1, k);
    }
    assert(sat_add(before.spec_skipped(), 0) == before.spec_skipped());
}

/// The end scan reads only the bytes before its bound.
proof fn lemma_scan_agrees(s: Seq<u8>, t: Seq<u8>, i: int, bound: int)
    requires
        0 <= i,
        bound <= s.len(),
        bound <= t.len(),
        s.subrange(0, bound) == t.subrange(0, bound),
    ensures
        scan_end(s, i, bound, false) == scan_end(t, i, bound, false),
        scan_end(s, i, bound, true) == scan_end(t, i, bound, true),
    decreases bound - i,
{
    if i < bound {
        assert(s[i] == s.subrange(0, bound)[i]);
        assert(t[i] == t.subrange(0, bound)[i]);
        lemma_scan_agrees(s, t, i + 1, bound);
    }
}

/// **A single-byte mutation never passes for the original.** Changing any one
/// byte of a well-formed frame, delimiters included, either
/// gets the frame rejected or changes what it says: it never decodes back to
/// the original destination, source, opcode and payload.
pub proof fn lemma_single_byte_mutation_never_decodes_to_the_original(
    dest: u8,
    src: u8,
    cmd: u8,
    payload: Seq<u8>,
    i: int,
    b: u8,
)
    requires
        payload.len() <= MAX_PAYLOAD,
        0 <= i < spec_dtv_wire(spec_frame_logical(dest, src, cmd, payload)).len(),
        b != spec_dtv_wire(spec_frame_logical(dest, src, cmd, payload))[i],
    ensures
        !(spec_decode_frame(spec_dtv_wire(spec_frame_logical(dest, src, cmd, payload)).update(i, b)) matches Ok(
            (d, s, c, p, _),
        ) && d == dest && s == src && c == cmd && p == payload),
{
    let l = spec_frame_logical(dest, src, cmd, payload);
    let w = spec_dtv_wire(l);
    let m = w.update(i, b);
    let e = spec_escape(l);
    if 0 < i < w.len() - 1 {
        let body = m.subrange(1, m.len() - 1);
        assert(body =~= e.update(i - 1, b));
        assert(e[i - 1] == w[i]);
        let u = spec_unescape(body);
        let lm = u.0;
        let r = spec_decode_frame(m);
        if r is Ok && r->Ok_0.0 == dest && r->Ok_0.1 == src && r->Ok_0.2 == cmd && r->Ok_0.3 == payload {
            {
                assert(!u.2);
                assert(lm.len() >= LOGICAL_OVERHEAD);
                assert(lm =~= seq![lm[0], lm[1], lm[2]] + lm.subrange(3, lm.len() - 1) + seq![lm.last()]);
                assert(lm =~= l);
                lemma_unescape_escape(l);
                lemma_unescape_sees_single_change(e, i - 1, b);
            }
        }
    }
}

/// **Nothing is dropped quietly.** A pull removes no more bytes than it counts
/// as skipped plus the frame it answers with; one that answers "need more
/// bytes" removed only counted bytes. (The counter stops at the top of
/// `usize`; below that it counts exactly.)
pub proof fn lemma_nothing_dropped_quietly(
    before: DtvRxBuffer,
    after: DtvRxBuffer,
    r: Result<Option<DecodedDtv>, DtvDecodeError>,
)
    requires
        dtv_decode_result(before, after, r),
        before.spec_skipped() + before.spec_bytes().len() <= usize::MAX,
    ensures
        r == Ok::<Option<DecodedDtv>, DtvDecodeError>(None) ==> before.spec_bytes().len() == after.spec_bytes().len()
            + after.spec_skipped() - before.spec_skipped(),
        before.spec_bytes().len() >= after.spec_bytes().len() + after.spec_skipped() - before.spec_skipped(),
{
    let b = before.spec_bytes();
    let drop = dtv_resync_drop(b);
    lemma_dtv_resync_lands(b);
    let s = b.skip(drop as int);
    let bound = if s.len() < MAX_FRAME { s.len() as int } else { MAX_FRAME as int };
    lemma_scan_end_bounds(s, 1, bound, false);
}

/// **A frame's end is a boundary.** A complete steam frame at the front of the
/// buffer is delivered by one pull, and whatever follows it, another frame
/// included, is left exactly as it was: no escape state crosses the `EOF`.
pub proof fn lemma_front_frame_delivered(
    before: DtvRxBuffer,
    after: DtvRxBuffer,
    dest: u8,
    src: u8,
    cmd: u8,
    payload: Seq<u8>,
    rest: Seq<u8>,
    r: Result<Option<DecodedDtv>, DtvDecodeError>,
)
    requires
        payload.len() <= MAX_PAYLOAD,
        before.spec_bytes() == spec_dtv_wire(spec_frame_logical(dest, src, cmd, payload)) + rest,
        dtv_decode_result(before, after, r),
    ensures
        r matches Ok(Some(f)) && f.dest == dest && f.src == src && f.cmd == cmd && f.spec_payload() == payload
            && f.direction == spec_direction_of(cmd) && f.skipped_before == 0 && f.escape_anomalies == 0,
        after.spec_bytes() == rest,
        after.spec_skipped() == before.spec_skipped(),
{
    let l = spec_frame_logical(dest, src, cmd, payload);
    let w = spec_dtv_wire(l);
    let b = before.spec_bytes();
    lemma_wire_shape(dest, src, cmd, payload);
    lemma_dtv_resync_lands(b);
    assert(b[0] == SOF);
    assert(dtv_resync_drop(b) == 0);
    assert(b.skip(0) =~= b);
    let bound = if b.len() < MAX_FRAME { b.len() as int } else { MAX_FRAME as int };
    let e = spec_escape(l);
    assert(b.subrange(1, 1 + e.len() as int) =~= e);
    lemma_scan_skips_stuffed(b, 1, l, bound);
    assert(b[w.len() - 1] == EOF);
    assert(scan_end(b, w.len() - 1, bound, false) == Some(Ok::<int, int>(w.len() - 1)));
    lemma_frame_round_trip(dest, src, cmd, payload);
    assert(b.subrange(1, w.len() - 1) =~= w.subrange(1, w.len() - 1));
    assert(b.skip(w.len() as int) =~= rest);
    assert(sat_add(before.spec_skipped(), 0) == before.spec_skipped());
}

} // verus!
