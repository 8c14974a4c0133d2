//! DTV+ framing: `SOF`, a byte-stuffed logical body `DEST SRC CMD PAYLOAD
//! CHECKSUM`, and `EOF`. The checksum is computed over unescaped bytes.
use vstd::prelude::*;
use crate::saturn::frame::{
    byte_sum, bytes_of_20, lemma_byte_sum_append, lemma_byte_sum_head3, neg_mod256, sum_mod256, vec20_push,
    vec20_slice,
};

verus! {

/// Start of frame. Never escaped in its framing role.
pub const SOF: u8 = 0x88;
/// End of frame. Never escaped in its framing role.
pub const EOF: u8 = 0x55;
/// The escape prefix.
pub const ESC: u8 = 0xAA;
/// The three bytes that are stuffed wherever they appear inside a frame.
pub const RESERVED: [u8; 3] = [0x88, 0x55, 0xAA];
/// The largest payload this codec builds or accepts.
pub const MAX_PAYLOAD: usize = 16;
/// Logical bytes that are not payload: `DEST`, `SRC`, `CMD`, `CHECKSUM`.
pub const LOGICAL_OVERHEAD: usize = 4;
/// The longest logical byte sequence a frame carries.
pub const MAX_LOGICAL: usize = 20;
/// The longest on-wire frame: two delimiters and every logical byte stuffed.
pub const MAX_FRAME: usize = 42;
/// Line settings, identical to Saturn's on a different bus.
pub const BAUD: u32 = 9600;
pub const DATA_BITS: u8 = 8;
pub const STOP_BITS: u8 = 1;

/// What a steam payload buffer holds, in order.
pub uninterp spec fn bytes_of_16(v: heapless::Vec<u8, 16>) -> Seq<u8>;

/// `heapless::Vec::new`: an empty vector.
#[verifier::external_body]
pub(crate) fn vec16_new() -> (v: heapless::Vec<u8, 16>)
    ensures
        bytes_of_16(v) == Seq::<u8>::empty(),
{
    heapless::Vec::new()
}

/// `heapless::Vec::push`: appends below capacity; at capacity hands the byte
/// back and changes nothing.
#[verifier::external_body]
pub(crate) fn vec16_push(v: &mut heapless::Vec<u8, 16>, b: u8) -> (r: Result<(), u8>)
    ensures
        r is Ok <==> bytes_of_16(*old(v)).len() < 16,
        r matches Err(x) ==> x == b,
        bytes_of_16(*final(v)) == (if bytes_of_16(*old(v)).len() < 16 { bytes_of_16(*old(v)).push(b) } else { bytes_of_16(*old(v)) }),
{
    v.push(b)
}

/// `heapless::Vec::as_slice`: the stored bytes, never more than the capacity.
#[verifier::external_body]
pub(crate) fn vec16_slice(v: &heapless::Vec<u8, 16>) -> (s: &[u8])
    ensures
        s@ == bytes_of_16(*v),
        s@.len() <= 16,
{
    v.as_slice()
}

/// What a steam wire-frame buffer holds, in order.
pub uninterp spec fn bytes_of_42(v: heapless::Vec<u8, 42>) -> Seq<u8>;

/// `heapless::Vec::new`: an empty vector.
#[verifier::external_body]
pub(crate) fn vec42_new() -> (v: heapless::Vec<u8, 42>)
    ensures
        bytes_of_42(v) == Seq::<u8>::empty(),
{
    heapless::Vec::new()
}

/// `heapless::Vec::push`: appends below capacity; at capacity hands the byte
/// back and changes nothing.
#[verifier::external_body]
pub(crate) fn vec42_push(v: &mut heapless::Vec<u8, 42>, b: u8) -> (r: Result<(), u8>)
    ensures
        r is Ok <==> bytes_of_42(*old(v)).len() < 42,
        r matches Err(x) ==> x == b,
        bytes_of_42(*final(v)) == (if bytes_of_42(*old(v)).len() < 42 { bytes_of_42(*old(v)).push(b) } else { bytes_of_42(*old(v)) }),
{
    v.push(b)
}

/// `heapless::Vec::as_slice`: the stored bytes, never more than the capacity.
#[verifier::external_body]
pub(crate) fn vec42_slice(v: &heapless::Vec<u8, 42>) -> (s: &[u8])
    ensures
        s@ == bytes_of_42(*v),
        s@.len() <= 42,
{
    v.as_slice()
}

pub open spec fn spec_is_reserved(b: u8) -> bool {
    b == SOF || b == EOF || b == ESC
}

/// True for the three bytes byte stuffing applies to.
pub fn is_reserved(b: u8) -> (r: bool)
    ensures
        r == spec_is_reserved(b),
{
    b == SOF || b == EOF || b == ESC
}

/// The wire bytes one logical byte stuffs into.
pub open spec fn escape_chunk(b: u8) -> Seq<u8> {
    if spec_is_reserved(b) {
        seq![ESC, b]
    } else {
        seq![b]
    }
}

/// Byte stuffing: each reserved byte is preceded by `ESC`.
pub open spec fn spec_escape(s: Seq<u8>) -> Seq<u8>
    decreases s.len(),
{
    if s.len() == 0 {
        Seq::empty()
    } else {
        spec_escape(s.drop_last()) + escape_chunk(s.last())
    }
}

/// The number of wire bytes `logical` stuffs into, excluding the delimiters.
pub fn escaped_len(logical: &[u8]) -> (n: usize)
    requires
        logical@.len() <= usize::MAX / 2,
    ensures
        n == spec_escape(logical@).len(),
{
    let mut n: usize = 0;
    let mut i: usize = 0;
    while i < logical.len()
        invariant
            i <= logical.len(),
            logical@.len() <= usize::MAX / 2,
            n == spec_escape(logical@.take(i as int)).len(),
            n <= 2 * i,
        decreases logical.len() - i,
    {
        proof {
            assert(logical@.take(i + 1).drop_last() =~= logical@.take(i as int));
        }
        n = if is_reserved(logical[i]) { n + 2 } else { n + 1 };
        i = i + 1;
    }
    proof {
        assert(logical@.take(logical.len() as int) =~= logical@);
    }
    n
}

/// The DTV+ checksum: the 8-bit two's complement of `DEST + SRC + CMD +
/// PAYLOAD`, over unescaped bytes, delimiters excluded.
pub open spec fn spec_checksum(dest: u8, src: u8, cmd: u8, payload: Seq<u8>) -> u8 {
    neg_mod256(dest as nat + src as nat + cmd as nat + byte_sum(payload))
}

pub fn checksum(dest: u8, src: u8, cmd: u8, payload: &[u8]) -> (c: u8)
    ensures
        c == spec_checksum(dest, src, cmd, payload@),
{
    let head: u8 = ((dest as u32 + src as u32 + cmd as u32) % 256) as u8;
    let total = sum_mod256(head, payload);
    proof {
        let h = dest as int + src as int + cmd as int;
        let b = byte_sum(payload@) as int;
        vstd::arithmetic::div_mod::lemma_add_mod_noop(h, b, 256);
        vstd::arithmetic::div_mod::lemma_add_mod_noop(h % 256, b, 256);
        vstd::arithmetic::div_mod::lemma_mod_twice(h, 256);
        assert(total as int == (h + b) % 256);
    }
    ((256 - total as u32) % 256) as u8
}

/// True when the covered bytes and the checksum sum to zero modulo 256.
pub fn checksum_valid(dest: u8, src: u8, cmd: u8, payload: &[u8], found: u8) -> (ok: bool)
    ensures
        ok == (found == spec_checksum(dest, src, cmd, payload@)),
{
    checksum(dest, src, cmd, payload) == found
}

/// The same rule over an assembled logical sequence: every byte between
/// `SOF` and `EOF`, checksum included, sums to zero.
pub fn logical_sums_to_zero(logical: &[u8]) -> (ok: bool)
    ensures
        ok == (byte_sum(logical@) % 256 == 0),
{
    let total = sum_mod256(0, logical);
    total == 0
}

/// **The checksum closes the frame.** The logical bytes of any frame, its
/// checksum included, sum to zero modulo 256.
pub proof fn lemma_checksum_closes(dest: u8, src: u8, cmd: u8, payload: Seq<u8>)
    ensures
        byte_sum(seq![dest, src, cmd] + payload + seq![spec_checksum(dest, src, cmd, payload)]) % 256 == 0,
{
    let c = spec_checksum(dest, src, cmd, payload);
    lemma_byte_sum_append(seq![dest, src, cmd] + payload, seq![c]);
    lemma_byte_sum_head3(dest, src, cmd, payload);
    assert(seq![c].drop_last() =~= Seq::<u8>::empty());
    assert(byte_sum(Seq::<u8>::empty()) == 0);
    assert(byte_sum(seq![c]) == c as nat);
    let t = dest as int + src as int + cmd as int + byte_sum(payload) as int;
    assert(c as int == (256 - t % 256) % 256);
    assert((t + c) % 256 == 0) by {
        vstd::arithmetic::div_mod::lemma_add_mod_noop(t, c as int, 256);
    }
}

/// **The delimiters are outside the checksum.** Summing the whole wire frame,
/// `SOF` and `EOF` included (as a checksum over `SOF`, `DEST`, a zero, then the
/// rest and `EOF`), gives the real checksum less `0x88` and `0x55` modulo 256,
/// which is never the real one: the two delimiters do not sum to zero.
pub proof fn lemma_delimiters_change_checksum(dest: u8, src: u8, cmd: u8, payload: Seq<u8>)
    ensures
        spec_checksum(SOF, dest, 0, seq![src, cmd] + payload + seq![EOF]) as int == (spec_checksum(
            dest,
            src,
            cmd,
            payload,
        ) as int - SOF as int - EOF as int) % 256,
        spec_checksum(SOF, dest, 0, seq![src, cmd] + payload + seq![EOF]) != spec_checksum(dest, src, cmd, payload),
{
    let rest = seq![src, cmd] + payload + seq![EOF];
    lemma_byte_sum_append(seq![src, cmd] + payload, seq![EOF]);
    lemma_byte_sum_append(seq![src, cmd], payload);
    assert(seq![EOF].drop_last() =~= Seq::<u8>::empty());
    assert(seq![src, cmd].drop_last() =~= seq![src]);
    assert(seq![src].drop_last() =~= Seq::<u8>::empty());
    assert(byte_sum(Seq::<u8>::empty()) == 0);
    assert(byte_sum(seq![EOF]) == EOF as nat);
    assert(byte_sum(seq![src]) == src as nat);
    assert(byte_sum(seq![src, cmd]) == src as nat + cmd as nat);
    let t = dest as int + src as int + cmd as int + byte_sum(payload) as int;
    let inc = spec_checksum(SOF, dest, 0, rest) as int;
    let exc = spec_checksum(dest, src, cmd, payload) as int;
    assert(inc == (256 - (0xDD + t) % 256) % 256);
    assert(exc == (256 - t % 256) % 256);
    let q = t % 256;
    assert((0xDD + t) % 256 == (0xDD + q) % 256) by {
        vstd::arithmetic::div_mod::lemma_add_mod_noop(0xDD, t, 256);
        vstd::arithmetic::div_mod::lemma_mod_twice(t, 256);
    }
    if q == 0 {
        assert(exc == 0);
        assert(inc == 0x23);
    } else if q < 0x23 {
        assert((0xDD + q) % 256 == 0xDD + q);
        assert(inc == 0x23 - q);
        assert(exc == 256 - q);
    } else {
        assert((0xDD + q) % 256 == q - 0x23);
        assert(exc == 256 - q);
    }
}

/// A wire buffer that could not hold the frame it was asked to hold.
#[derive(Copy, Clone, PartialEq, Eq, Debug, Structural)]
pub struct FrameTooLong;

/// `escape_into`'s outcome on a buffer: everything fits, or the buffer fills
/// to the frame maximum and the rest is refused.
pub open spec fn escape_outcome(before: Seq<u8>, logical: Seq<u8>, after: Seq<u8>, r: Result<(), FrameTooLong>) -> bool {
    let full = before + spec_escape(logical);
    if full.len() <= MAX_FRAME {
        r is Ok && after == full
    } else {
        r is Err && after == full.take(MAX_FRAME as int)
    }
}

/// A single byte stuffs into its chunk.
pub proof fn lemma_escape_single(b: u8)
    ensures
        spec_escape(seq![b]) == escape_chunk(b),
{
    assert(seq![b].drop_last() =~= Seq::<u8>::empty());
    assert(spec_escape(Seq::<u8>::empty()) =~= Seq::<u8>::empty());
    assert(spec_escape(seq![b]) =~= escape_chunk(b));
}

/// Stuffing at most doubles a sequence, and never shortens it.
pub proof fn lemma_escape_len(s: Seq<u8>)
    ensures
        s.len() <= spec_escape(s).len() <= 2 * s.len(),
    decreases s.len(),
{
    if s.len() > 0 {
        lemma_escape_len(s.drop_last());
    }
}

/// Stuffing distributes over concatenation.
pub proof fn lemma_escape_append(a: Seq<u8>, b: Seq<u8>)
    ensures
        spec_escape(a + b) == spec_escape(a) + spec_escape(b),
    decreases b.len(),
{
    if b.len() == 0 {
        assert(a + b =~= a);
        assert(spec_escape(a) + spec_escape(b) =~= spec_escape(a));
    } else {
        assert((a + b).drop_last() =~= a + b.drop_last());
        lemma_escape_append(a, b.drop_last());
        assert(spec_escape(a + b) =~= spec_escape(a) + spec_escape(b));
    }
}

/// Byte-stuffs `logical` and appends the result to `out`, which holds at most
/// [`MAX_FRAME`] bytes. The delimiters are the caller's job.
pub fn escape_into(logical: &[u8], out: &mut heapless::Vec<u8, MAX_FRAME>) -> (r: Result<(), FrameTooLong>)
    ensures
        escape_outcome(bytes_of_42(*old(out)), logical@, bytes_of_42(*final(out)), r),
{
    let ghost before = bytes_of_42(*out);
    // The buffer never holds more than its capacity.
    let _ = vec42_slice(out);
    let mut i: usize = 0;
    while i < logical.len()
        invariant
            i <= logical.len(),
            before == bytes_of_42(*old(out)),
            bytes_of_42(*out) == before + spec_escape(logical@.take(i as int)),
            bytes_of_42(*out).len() <= MAX_FRAME,
        decreases logical.len() - i,
    {
        let b = logical[i];
        let ghost pre = before + spec_escape(logical@.take(i as int));
        let ghost rest = spec_escape(logical@.skip(i + 1));
        let ghost full = before + spec_escape(logical@);
        proof {
            assert(logical@.take(i + 1).drop_last() =~= logical@.take(i as int));
            assert(logical@ =~= logical@.take(i as int) + logical@.skip(i as int));
            lemma_escape_append(logical@.take(i as int), logical@.skip(i as int));
            assert(logical@.skip(i as int) =~= seq![b] + logical@.skip(i + 1));
            lemma_escape_append(seq![b], logical@.skip(i + 1));
            lemma_escape_single(b);
            assert(full =~= pre + escape_chunk(b) + rest);
        }
        if is_reserved(b) {
            match vec42_push(out, ESC) {
                Ok(()) => {},
                Err(_) => {
                    proof {
                        assert(full.len() > MAX_FRAME);
                        assert(bytes_of_42(*out) =~= full.take(MAX_FRAME as int));
                    }
                    return Err(FrameTooLong);
                },
            }
            proof {
                assert(full =~= bytes_of_42(*out) + seq![b] + rest);
            }
        } else {
            proof {
                assert(full =~= bytes_of_42(*out) + seq![b] + rest);
            }
        }
        match vec42_push(out, b) {
            Ok(()) => {},
            Err(_) => {
                proof {
                    assert(full.len() > MAX_FRAME);
                    assert(bytes_of_42(*out) =~= full.take(MAX_FRAME as int));
                }
                return Err(FrameTooLong);
            },
        }
        i = i + 1;
        proof {
            assert(bytes_of_42(*out) =~= before + spec_escape(logical@.take(i as int)));
        }
    }
    proof {
        assert(logical@.take(logical.len() as int) =~= logical@);
    }
    Ok(())
}

/// What [`unescape_into`] saw on the way through.
#[derive(Copy, Clone, PartialEq, Eq, Debug, Default, Structural)]
pub struct UnescapeReport {
    /// Escape sequences whose escaped byte was not reserved: taken literally
    /// and counted.
    pub anomalies: usize,
}

/// Why an escaped byte sequence could not be turned back into logical bytes.
#[derive(Copy, Clone, PartialEq, Eq, Debug, Structural)]
pub enum UnescapeError {
    /// The sequence ends with an escape that has nothing to escape.
    TruncatedEscape,
    /// More logical bytes than [`MAX_LOGICAL`].
    TooLong { max: usize },
}

/// One wire byte of unstuffing: `(logical bytes, anomalies, pending escape)`.
pub open spec fn unesc_step(st: (Seq<u8>, nat, bool), b: u8) -> (Seq<u8>, nat, bool) {
    if st.2 {
        (st.0.push(b), if spec_is_reserved(b) { st.1 } else { st.1 + 1 }, false)
    } else if b == ESC {
        (st.0, st.1, true)
    } else {
        (st.0.push(b), st.1, false)
    }
}

/// Unstuffing a run of wire bytes from a state.
pub open spec fn unesc_fold(st: (Seq<u8>, nat, bool), s: Seq<u8>) -> (Seq<u8>, nat, bool)
    decreases s.len(),
{
    if s.len() == 0 {
        st
    } else {
        unesc_step(unesc_fold(st, s.drop_last()), s.last())
    }
}

/// Unstuffing from the start: the logical bytes, the anomaly count, and
/// whether an escape was left pending at the end.
pub open spec fn spec_unescape(body: Seq<u8>) -> (Seq<u8>, nat, bool) {
    unesc_fold((Seq::empty(), 0, false), body)
}

/// `unescape_into`'s outcome: too many logical bytes fill the buffer to its
/// maximum and refuse; otherwise a pending escape refuses; otherwise the
/// anomaly count comes back.
pub open spec fn unescape_outcome(
    before: Seq<u8>,
    body: Seq<u8>,
    after: Seq<u8>,
    r: Result<UnescapeReport, UnescapeError>,
) -> bool {
    let u = spec_unescape(body);
    let full = before + u.0;
    if full.len() > MAX_LOGICAL {
        r == Err::<UnescapeReport, UnescapeError>(UnescapeError::TooLong { max: MAX_LOGICAL })
            && after == full.take(MAX_LOGICAL as int)
    } else if u.2 {
        r == Err::<UnescapeReport, UnescapeError>(UnescapeError::TruncatedEscape) && after == full
    } else {
        r matches Ok(rep) && rep.anomalies == u.1 && after == full
    }
}

/// Unstuffing runs over a concatenation one part after the other.
pub proof fn lemma_unesc_append(st: (Seq<u8>, nat, bool), a: Seq<u8>, b: Seq<u8>)
    ensures
        unesc_fold(st, a + b) == unesc_fold(unesc_fold(st, a), b),
    decreases b.len(),
{
    if b.len() == 0 {
        assert(a + b =~= a);
    } else {
        assert((a + b).drop_last() =~= a + b.drop_last());
        lemma_unesc_append(st, a, b.drop_last());
    }
}

/// Unstuffing only ever appends: the output so far is a prefix of the
/// output of the whole run.
pub proof fn lemma_unesc_grows(st: (Seq<u8>, nat, bool), s: Seq<u8>)
    ensures
        unesc_fold(st, s).0.len() >= st.0.len(),
        unesc_fold(st, s).0.take(st.0.len() as int) == st.0,
        unesc_fold(st, s).1 <= st.1 + s.len(),
    decreases s.len(),
{
    if s.len() > 0 {
        lemma_unesc_grows(st, s.drop_last());
        let m = unesc_fold(st, s.drop_last());
        assert(unesc_fold(st, s).0.take(st.0.len() as int) =~= m.0.take(st.0.len() as int));
    }
}

/// **Round trip.** Unstuffing what stuffing produced gives back the logical
/// bytes exactly, with no anomaly and no pending escape.
pub proof fn lemma_unescape_escape(x: Seq<u8>)
    ensures
        spec_unescape(spec_escape(x)) == (x, 0nat, false),
    decreases x.len(),
{
    let init: (Seq<u8>, nat, bool) = (Seq::empty(), 0, false);
    if x.len() == 0 {
        assert(spec_escape(x) =~= Seq::<u8>::empty());
        assert(x =~= Seq::<u8>::empty());
    } else {
        let p = x.drop_last();
        let b = x.last();
        lemma_unescape_escape(p);
        lemma_unesc_append(init, spec_escape(p), escape_chunk(b));
        let c = escape_chunk(b);
        let st: (Seq<u8>, nat, bool) = (p, 0nat, false);
        assert(spec_escape(x) == spec_escape(p) + c);
        assert(unesc_fold(st, Seq::<u8>::empty()) == st);
        if spec_is_reserved(b) {
            assert(c.drop_last() =~= seq![ESC]);
            assert(seq![ESC].drop_last() =~= Seq::<u8>::empty());
            assert(unesc_fold(st, seq![ESC]) == (p, 0nat, true));
            assert(unesc_fold(st, c) == (p.push(b), 0nat, false));
        } else {
            assert(c.drop_last() =~= Seq::<u8>::empty());
            assert(unesc_fold(st, c) == (p.push(b), 0nat, false));
        }
        assert(p.push(b) =~= x);
    }
}

/// Unstuffing from a state appends to that state's output, and what it
/// appends and whether an escape is left pending depend only on the pending
/// flag it starts from.
proof fn lemma_unesc_shift(o: Seq<u8>, n: nat, p: bool, t: Seq<u8>)
    ensures
        unesc_fold((o, n, p), t).0 == o + unesc_fold((Seq::<u8>::empty(), 0nat, p), t).0,
        unesc_fold((o, n, p), t).2 == unesc_fold((Seq::<u8>::empty(), 0nat, p), t).2,
    decreases t.len(),
{
    if t.len() == 0 {
        assert(o + Seq::<u8>::empty() =~= o);
    } else {
        lemma_unesc_shift(o, n, p, t.drop_last());
        let a = unesc_fold((o, n, p), t.drop_last());
        let z = unesc_fold((Seq::<u8>::empty(), 0nat, p), t.drop_last());
        assert((o + z.0).push(t.last()) =~= o + z.0.push(t.last()));
    }
}

/// Unstuffing one byte.
proof fn lemma_unesc_one(st: (Seq<u8>, nat, bool), y: u8)
    ensures
        unesc_fold(st, seq![y]) == unesc_step(st, y),
{
    assert(seq![y].drop_last() =~= Seq::<u8>::empty());
    assert(unesc_fold(st, Seq::<u8>::empty()) == st);
    assert(seq![y].last() == y);
}

/// From no pending escape, a byte other than `ESC` is emitted as it is.
proof fn lemma_unesc_plain_first(y: u8, t: Seq<u8>)
    requires
        y != ESC,
    ensures
        unesc_fold((Seq::<u8>::empty(), 0nat, false), seq![y] + t).0 == seq![y] + unesc_fold(
            (Seq::<u8>::empty(), 0nat, false),
            t,
        ).0,
{
    let e: (Seq<u8>, nat, bool) = (Seq::<u8>::empty(), 0nat, false);
    lemma_unesc_append(e, seq![y], t);
    lemma_unesc_one(e, y);
    assert(Seq::<u8>::empty().push(y) =~= seq![y]);
    lemma_unesc_shift(seq![y], 0, false, t);
}

/// **Unstuffing tells single-byte changes apart.** Two byte runs of the same
/// length that differ in one position never unstuff to the same logical bytes
/// when neither leaves an escape pending.
pub proof fn lemma_unescape_sees_single_change(u: Seq<u8>, j: int, c: u8)
    requires
        0 <= j < u.len(),
        c != u[j],
        !spec_unescape(u).2,
        !spec_unescape(u.update(j, c)).2,
    ensures
        spec_unescape(u).0 != spec_unescape(u.update(j, c)).0,
{
    let v = u.update(j, c);
    let e: (Seq<u8>, nat, bool) = (Seq::<u8>::empty(), 0nat, false);
    let a = u.take(j);
    let rest = u.skip(j + 1);
    let x = u[j];
    assert(u =~= a + (seq![x] + rest));
    assert(v =~= a + (seq![c] + rest));
    lemma_unesc_append(e, a, seq![x] + rest);
    lemma_unesc_append(e, a, seq![c] + rest);
    let st = unesc_fold(e, a);
    let o = st.0;
    lemma_unesc_append(st, seq![x], rest);
    lemma_unesc_append(st, seq![c], rest);
    lemma_unesc_one(st, x);
    lemma_unesc_one(st, c);
    let ux = unesc_step(st, x);
    let vc = unesc_step(st, c);
    lemma_unesc_shift(ux.0, ux.1, ux.2, rest);
    lemma_unesc_shift(vc.0, vc.1, vc.2, rest);
    let ou = spec_unescape(u).0;
    let ov = spec_unescape(v).0;
    if st.2 || (x != ESC && c != ESC) {
        assert(ux.0 == o.push(x) && vc.0 == o.push(c));
        assert(ou[o.len() as int] == x);
        assert(ov[o.len() as int] == c);
    } else if x == ESC {
        assert(ux == (o, st.1, true));
        if rest.len() == 0 {
            assert(unesc_fold(ux, rest) == ux);
        } else {
            let y = rest[0];
            let r2 = rest.skip(1);
            assert(rest =~= seq![y] + r2);
            let pe: (Seq<u8>, nat, bool) = (Seq::<u8>::empty(), 0nat, true);
            lemma_unesc_append(pe, seq![y], r2);
            lemma_unesc_one(pe, y);
            let py = unesc_step(pe, y);
            assert(py.0 =~= seq![y] && !py.2);
            lemma_unesc_shift(py.0, py.1, false, r2);
            let r2out = unesc_fold(e, r2).0;
            assert(ou =~= o + (seq![y] + r2out));
            assert(vc.0 == o.push(c) && !vc.2);
            if y != c {
                assert(ou[o.len() as int] == y);
                assert(ov[o.len() as int] == c);
            } else {
                lemma_unesc_plain_first(y, r2);
                assert(ov =~= o.push(c) + (seq![y] + r2out));
                assert(ov.len() == ou.len() + 1);
            }
        }
    } else {
        assert(c == ESC);
        assert(vc == (o, st.1, true));
        if rest.len() == 0 {
            assert(unesc_fold(vc, rest) == vc);
        } else {
            let y = rest[0];
            let r2 = rest.skip(1);
            assert(rest =~= seq![y] + r2);
            let pe: (Seq<u8>, nat, bool) = (Seq::<u8>::empty(), 0nat, true);
            lemma_unesc_append(pe, seq![y], r2);
            lemma_unesc_one(pe, y);
            let py = unesc_step(pe, y);
            assert(py.0 =~= seq![y] && !py.2);
            lemma_unesc_shift(py.0, py.1, false, r2);
            let r2out = unesc_fold(e, r2).0;
            assert(ov =~= o + (seq![y] + r2out));
            assert(ux.0 == o.push(x) && !ux.2);
            if y != x {
                assert(ov[o.len() as int] == y);
                assert(ou[o.len() as int] == x);
            } else {
                lemma_unesc_plain_first(y, r2);
                assert(ou =~= o.push(x) + (seq![y] + r2out));
                assert(ou.len() == ov.len() + 1);
            }
        }
    }
}

/// Removes byte stuffing from the bytes between `SOF` and `EOF`, appending
/// to `out`, which holds at most [`MAX_LOGICAL`] bytes. Every `ESC` consumes
/// the byte after it, taken literally.
pub fn unescape_into(body: &[u8], out: &mut heapless::Vec<u8, MAX_LOGICAL>) -> (r: Result<UnescapeReport, UnescapeError>)
    ensures
        unescape_outcome(bytes_of_20(*old(out)), body@, bytes_of_20(*final(out)), r),
{
    let ghost before = bytes_of_20(*out);
    let ghost init: (Seq<u8>, nat, bool) = (Seq::empty(), 0, false);
    // The buffer never holds more than its capacity.
    let _ = vec20_slice(out);
    let mut anomalies: usize = 0;
    let mut escaped = false;
    let mut i: usize = 0;
    while i < body.len()
        invariant
            i <= body.len(),
            before == bytes_of_20(*old(out)),
            init == (Seq::<u8>::empty(), 0nat, false),
            bytes_of_20(*out) == before + unesc_fold(init, body@.take(i as int)).0,
            anomalies == unesc_fold(init, body@.take(i as int)).1,
            escaped == unesc_fold(init, body@.take(i as int)).2,
            bytes_of_20(*out).len() <= MAX_LOGICAL,
            anomalies <= i,
        decreases body.len() - i,
    {
        let b = body[i];
        let ghost st = unesc_fold(init, body@.take(i as int));
        proof {
            assert(body@.take(i + 1).drop_last() =~= body@.take(i as int));
            assert(body@.take(i + 1).last() == b);
            assert(unesc_fold(init, body@.take(i + 1)) == unesc_step(st, b));
            assert(body@ =~= body@.take(i + 1) + body@.skip(i + 1));
            lemma_unesc_append(init, body@.take(i + 1), body@.skip(i + 1));
            lemma_unesc_grows(unesc_fold(init, body@.take(i + 1)), body@.skip(i + 1));
        }
        if escaped || b != ESC {
            if escaped && !is_reserved(b) {
                anomalies = anomalies + 1;
            }
            match vec20_push(out, b) {
                Ok(()) => {},
                Err(_) => {
                    proof {
                        let a = unesc_fold(init, body@.take(i + 1));
                        assert(a.0 == st.0.push(b));
                        let fin = spec_unescape(body@).0;
                        assert(spec_unescape(body@) == unesc_fold(a, body@.skip(i + 1)));
                        assert(fin.take(a.0.len() as int) == a.0);
                        assert forall|j: int| 0 <= j < st.0.len() implies fin[j] == st.0[j] by {
                            assert(fin.take(a.0.len() as int)[j] == a.0[j]);
                        }
                        assert(bytes_of_20(*out) =~= (before + fin).take(MAX_LOGICAL as int));
                    }
                    return Err(UnescapeError::TooLong { max: MAX_LOGICAL });
                },
            }
            escaped = false;
        } else {
            escaped = true;
        }
        i = i + 1;
        proof {
            assert(bytes_of_20(*out) =~= before + unesc_fold(init, body@.take(i as int)).0);
        }
    }
    proof {
        assert(body@.take(body.len() as int) =~= body@);
    }
    if escaped {
        return Err(UnescapeError::TruncatedEscape);
    }
    Ok(UnescapeReport { anomalies })
}

/// Which way a DTV+ frame travelled: inferred from the opcode, never from
/// the address and never from an echo.
#[derive(Copy, Clone, PartialEq, Eq, Hash, Debug, Structural)]
pub enum DtvDirection {
    /// Only a master sends this opcode.
    MasterToDevice,
    /// Only a device sends this opcode.
    DeviceToMaster,
    /// Either side, or an opcode no source assigns a direction to.
    Indeterminate,
}

/// How a direction reads in a log line.
pub open spec fn spec_direction_label(d: DtvDirection) -> &'static str {
    match d {
        DtvDirection::MasterToDevice => "master -> device",
        DtvDirection::DeviceToMaster => "device -> master",
        DtvDirection::Indeterminate => "indeterminate",
    }
}

impl DtvDirection {
    /// How the direction reads in a log line.
    pub fn label(self) -> (s: &'static str)
        ensures
            s == spec_direction_label(self),
    {
        match self {
            DtvDirection::MasterToDevice => "master -> device",
            DtvDirection::DeviceToMaster => "device -> master",
            DtvDirection::Indeterminate => "indeterminate",
        }
    }
}

} // verus!
