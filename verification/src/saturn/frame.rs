//! Framing, addressing and the checksum of the Saturn valve bus.
use vstd::prelude::*;

verus! {

/// First synchronisation byte.
pub const SYNC1: u8 = 0xAA;
/// Second synchronisation byte.
pub const SYNC2: u8 = 0x55;
/// The sync pair, in order.
pub const SYNC: [u8; 2] = [0xAA, 0x55];
/// Bytes before the `DATA` field: two sync, address, control, `DATA_LEN`.
pub const HEADER_LEN: usize = 5;
/// Non-`DATA` bytes in a frame: the header plus the checksum.
pub const FRAME_OVERHEAD: usize = 6;
/// Maximum on-wire frame length.
pub const MAX_FRAME: usize = 20;
/// Largest legal `DATA_LEN`.
pub const MAX_DATA_LEN: u8 = 14;
/// The same bound as a `usize`.
pub const MAX_DATA: usize = 14;
/// All valves on the bus.
pub const BROADCAST: u8 = 0x0F;
/// Lowest assignable valve address.
pub const VALVE_ADDR_MIN: u8 = 0x03;
/// Highest assignable valve address.
pub const VALVE_ADDR_MAX: u8 = 0x07;

#[verifier::external_type_specification]
#[verifier::external_body]
#[verifier::reject_recursive_types(T)]
pub struct ExHeaplessVec<T, const N: usize>(heapless::Vec<T, N>);

/// `heapless::Vec`'s `Clone`: a copy of the elements, each cloned. Nothing is
/// stated of the result.
pub assume_specification<T, const N: usize>[<heapless::Vec<T, N> as Clone>::clone](
    v: &heapless::Vec<T, N>,
) -> heapless::Vec<T, N>
    where
        T: Clone,
;

/// What a `DATA` field buffer holds, in order.
pub uninterp spec fn bytes_of_14(v: heapless::Vec<u8, 14>) -> Seq<u8>;

/// `heapless::Vec::new`: an empty vector.
#[verifier::external_body]
pub(crate) fn vec14_new() -> (v: heapless::Vec<u8, 14>)
    ensures
        bytes_of_14(v) == Seq::<u8>::empty(),
{
    heapless::Vec::new()
}

/// `heapless::Vec::push`: appends below capacity; at capacity hands the byte
/// back and changes nothing.
#[verifier::external_body]
pub(crate) fn vec14_push(v: &mut heapless::Vec<u8, 14>, b: u8) -> (r: Result<(), u8>)
    ensures
        r is Ok <==> bytes_of_14(*old(v)).len() < 14,
        r matches Err(x) ==> x == b,
        bytes_of_14(*final(v)) == (if bytes_of_14(*old(v)).len() < 14 { bytes_of_14(*old(v)).push(b) } else { bytes_of_14(*old(v)) }),
{
    v.push(b)
}

/// `heapless::Vec::as_slice`: the stored bytes, never more than the capacity.
#[verifier::external_body]
pub(crate) fn vec14_slice(v: &heapless::Vec<u8, 14>) -> (s: &[u8])
    ensures
        s@ == bytes_of_14(*v),
        s@.len() <= 14,
{
    v.as_slice()
}

/// What a 20-byte buffer holds, in order: a Saturn frame, or the logical
/// bytes of a steam frame.
pub uninterp spec fn bytes_of_20(v: heapless::Vec<u8, 20>) -> Seq<u8>;

/// `heapless::Vec::new`: an empty vector.
#[verifier::external_body]
pub(crate) fn vec20_new() -> (v: heapless::Vec<u8, 20>)
    ensures
        bytes_of_20(v) == Seq::<u8>::empty(),
{
    heapless::Vec::new()
}

/// `heapless::Vec::push`: appends below capacity; at capacity hands the byte
/// back and changes nothing.
#[verifier::external_body]
pub(crate) fn vec20_push(v: &mut heapless::Vec<u8, 20>, b: u8) -> (r: Result<(), u8>)
    ensures
        r is Ok <==> bytes_of_20(*old(v)).len() < 20,
        r matches Err(x) ==> x == b,
        bytes_of_20(*final(v)) == (if bytes_of_20(*old(v)).len() < 20 { bytes_of_20(*old(v)).push(b) } else { bytes_of_20(*old(v)) }),
{
    v.push(b)
}

/// `heapless::Vec::as_slice`: the stored bytes, never more than the capacity.
#[verifier::external_body]
pub(crate) fn vec20_slice(v: &heapless::Vec<u8, 20>) -> (s: &[u8])
    ensures
        s@ == bytes_of_20(*v),
        s@.len() <= 20,
{
    v.as_slice()
}

/// The sum of a byte sequence, as a mathematical integer.
pub open spec fn byte_sum(s: Seq<u8>) -> nat
    decreases s.len(),
{
    if s.len() == 0 {
        0
    } else {
        byte_sum(s.drop_last()) + s.last() as nat
    }
}

/// The two's complement, modulo 256, of a sum.
pub open spec fn neg_mod256(total: nat) -> u8 {
    ((256 - total % 256) % 256) as u8
}

/// The Saturn checksum: the 8-bit two's complement of
/// `ADDRESS + CONTROL + DATA_LEN + DATA`, sync bytes excluded.
pub open spec fn spec_checksum(address: u8, control: u8, data_len: u8, data: Seq<u8>) -> u8 {
    neg_mod256(address as nat + control as nat + data_len as nat + byte_sum(data))
}

/// Sums `data` into `start` modulo 256.
pub fn sum_mod256(start: u8, data: &[u8]) -> (total: u8)
    ensures
        total as nat == (start as nat + byte_sum(data@)) % 256,
{
    let mut total: u32 = start as u32;
    let mut i: usize = 0;
    while i < data.len()
        invariant
            i <= data.len(),
            total < 256,
            total as nat == (start as nat + byte_sum(data@.take(i as int))) % 256,
        decreases data.len() - i,
    {
        proof {
            assert(data@.take(i as int + 1).drop_last() =~= data@.take(i as int));
        }
        total = (total + data[i] as u32) % 256;
        i = i + 1;
    }
    proof {
        assert(data@.take(data.len() as int) =~= data@);
    }
    total as u8
}

/// The checksum over `ADDRESS + CONTROL + DATA_LEN + DATA`, as the 8-bit two's
/// complement of their sum. The sync bytes are excluded.
pub fn checksum(address: u8, control: u8, data_len: u8, data: &[u8]) -> (c: u8)
    ensures
        c == spec_checksum(address, control, data_len, data@),
{
    let head: u8 = ((address as u32 + control as u32 + data_len as u32) % 256) as u8;
    let total = sum_mod256(head, data);
    proof {
        let h = address as int + control as int + data_len as int;
        let b = byte_sum(data@) as int;
        vstd::arithmetic::div_mod::lemma_add_mod_noop(h, b, 256);
        vstd::arithmetic::div_mod::lemma_add_mod_noop(h % 256, b, 256);
        vstd::arithmetic::div_mod::lemma_mod_twice(h, 256);
        assert(total as int == (h + b) % 256);
    }
    ((256 - total as u32) % 256) as u8
}

/// True when the covered bytes and the checksum sum to zero modulo 256.
pub fn checksum_valid(address: u8, control: u8, data_len: u8, data: &[u8], found: u8) -> (ok: bool)
    ensures
        ok == (found == spec_checksum(address, control, data_len, data@)),
        ok == ((address as nat + control as nat + data_len as nat + byte_sum(data@) + found as nat)
            % 256 == 0),
{
    let c = checksum(address, control, data_len, data);
    c == found
}

/// Changing one byte moves the sum by the difference.
proof fn lemma_byte_sum_update(s: Seq<u8>, i: int, b: u8)
    requires
        0 <= i < s.len(),
    ensures
        byte_sum(s.update(i, b)) + s[i] == byte_sum(s) + b,
    decreases s.len(),
{
    if i == s.len() - 1 {
        assert(s.update(i, b).drop_last() =~= s.drop_last());
    } else {
        lemma_byte_sum_update(s.drop_last(), i, b);
        assert(s.update(i, b).drop_last() =~= s.drop_last().update(i, b));
    }
}

/// **A single-byte mutation never passes the checksum.** When the bytes a
/// checksum covers, checksum included, sum to zero modulo 256, changing any
/// one of them to another value leaves a sum that does not. This holds of
/// both protocols, whose checksums are the same rule over different fields.
pub proof fn lemma_single_mutation_detected(s: Seq<u8>, i: int, b: u8)
    requires
        0 <= i < s.len(),
        byte_sum(s) % 256 == 0,
        b != s[i],
    ensures
        byte_sum(s.update(i, b)) % 256 != 0,
{
    lemma_byte_sum_update(s, i, b);
    let t = byte_sum(s) as int;
    let u = byte_sum(s.update(i, b)) as int;
    let d = b as int - s[i] as int;
    assert(u == t + d);
    assert(-256 < d < 256 && d != 0);
    if u % 256 == 0 {
        assert((u - t) % 256 == 0) by {
            vstd::arithmetic::div_mod::lemma_sub_mod_noop(u, t, 256);
        }
        assert(d % 256 == 0);
        assert(false);
    }
}

/// The sum of a concatenation is the sum of its parts.
pub proof fn lemma_byte_sum_append(a: Seq<u8>, b: Seq<u8>)
    ensures
        byte_sum(a + b) == byte_sum(a) + byte_sum(b),
    decreases b.len(),
{
    if b.len() == 0 {
        assert(a + b =~= a);
    } else {
        assert((a + b).drop_last() =~= a + b.drop_last());
        lemma_byte_sum_append(a, b.drop_last());
    }
}

/// The sum of three leading bytes and a tail.
pub proof fn lemma_byte_sum_head3(x: u8, y: u8, z: u8, tail: Seq<u8>)
    ensures
        byte_sum(seq![x, y, z] + tail) == x as nat + y as nat + z as nat + byte_sum(tail),
{
    lemma_byte_sum_append(seq![x, y, z], tail);
    assert(seq![x, y, z].drop_last() =~= seq![x, y]);
    assert(seq![x, y].drop_last() =~= seq![x]);
    assert(seq![x].drop_last() =~= Seq::<u8>::empty());
    assert(byte_sum(Seq::<u8>::empty()) == 0);
    assert(seq![x].last() == x);
    assert(byte_sum(seq![x]) == x as nat);
    assert(byte_sum(seq![x, y]) == x as nat + y as nat);
    assert(byte_sum(seq![x, y, z]) == x as nat + y as nat + z as nat);
}

/// **The sync bytes are outside the checksum.** Folding the sync pair into the
/// covered bytes (as `ADDRESS`, `CONTROL`, a zero length, then the real
/// fields) yields exactly the real checksum less `0xAA` and `0x55` modulo
/// 256, which is never the real checksum: the pair does not sum to zero.
pub proof fn lemma_sync_bytes_change_checksum(address: u8, control: u8, data_len: u8, data: Seq<u8>)
    ensures
        spec_checksum(SYNC1, SYNC2, 0, seq![address, control, data_len] + data) as int == (spec_checksum(
            address,
            control,
            data_len,
            data,
        ) as int - SYNC1 as int - SYNC2 as int) % 256,
        spec_checksum(SYNC1, SYNC2, 0, seq![address, control, data_len] + data) != spec_checksum(
            address,
            control,
            data_len,
            data,
        ),
{
    lemma_byte_sum_head3(address, control, data_len, data);
    let t = address as int + control as int + data_len as int + byte_sum(data) as int;
    let inc = spec_checksum(SYNC1, SYNC2, 0, seq![address, control, data_len] + data) as int;
    let exc = spec_checksum(address, control, data_len, data) as int;
    assert(inc == (256 - (0xFF + t) % 256) % 256);
    assert(exc == (256 - t % 256) % 256);
    let q = t % 256;
    assert(0 <= q < 256);
    assert((0xFF + t) % 256 == (0xFF + q) % 256) by {
        vstd::arithmetic::div_mod::lemma_add_mod_noop(0xFF, t, 256);
        vstd::arithmetic::div_mod::lemma_mod_twice(t, 256);
    }
    if q == 0 {
        assert(exc == 0);
        assert(inc == 1);
    } else {
        assert((0xFF + q) % 256 == q - 1);
        assert(exc == 256 - q);
        if q == 1 {
            assert(inc == 0);
        } else {
            assert(inc == 257 - q);
        }
    }
}

/// A dynamically assigned valve address, restricted to `0x03..=0x07`.
#[derive(Copy, Clone, PartialEq, Eq, PartialOrd, Ord, Hash, Debug, Structural)]
pub struct ValveAddr {
    v: u8,
}

/// Why a valve address was refused.
#[derive(Copy, Clone, PartialEq, Eq, Debug, Structural)]
pub enum AddrError {
    OutOfRange { requested: u8 },
}

impl ValveAddr {
    /// The address byte.
    pub closed spec fn spec_get(self) -> u8 {
        self.v
    }

    pub closed spec fn wf(self) -> bool {
        VALVE_ADDR_MIN <= self.v <= VALVE_ADDR_MAX
    }

    /// Rejects the broadcast address, either master address, and everything
    /// else outside `0x03..=0x07`.
    pub fn new(v: u8) -> (r: Result<ValveAddr, AddrError>)
        ensures
            r is Ok <==> VALVE_ADDR_MIN <= v <= VALVE_ADDR_MAX,
            r matches Ok(a) ==> a.spec_get() == v && a.wf(),
            r matches Err(e) ==> e == (AddrError::OutOfRange { requested: v }),
    {
        if v < VALVE_ADDR_MIN || v > VALVE_ADDR_MAX {
            return Err(AddrError::OutOfRange { requested: v });
        }
        Ok(ValveAddr { v })
    }

    pub fn get(self) -> (v: u8)
        ensures
            v == self.spec_get(),
    {
        self.v
    }

    /// Every address the master may allocate, in scan order.
    pub fn all() -> (a: [ValveAddr; 5])
        ensures
            forall|i: int| 0 <= i < 5 ==> (#[trigger] a@[i]).spec_get() == 3 + i && a@[i].wf(),
    {
        [ValveAddr { v: 3 }, ValveAddr { v: 4 }, ValveAddr { v: 5 }, ValveAddr { v: 6 }, ValveAddr { v: 7 }]
    }

    /// A well-formed address is an assignable one.
    pub proof fn lemma_wf(self)
        requires
            self.wf(),
        ensures
            VALVE_ADDR_MIN <= self.spec_get() <= VALVE_ADDR_MAX,
    {
    }
}

/// Which master identity a link speaks as. The two sources disagree between
/// `0x00` and `0x10`, so it is per-link configuration.
#[derive(Copy, Clone, PartialEq, Eq, PartialOrd, Ord, Hash, Debug, Structural)]
pub enum MasterAddr {
    /// `0x00` — the DTV controller identity. The default.
    Dtv,
    /// `0x10` — the Prompt controller identity.
    Prompt,
}

/// The address byte of a master identity.
pub open spec fn master_byte(m: MasterAddr) -> u8 {
    match m {
        MasterAddr::Dtv => 0x00,
        MasterAddr::Prompt => 0x10,
    }
}

impl MasterAddr {
    /// Both identities, in the order discovery should try them.
    pub fn all() -> (a: [MasterAddr; 2])
        ensures
            a@ == seq![MasterAddr::Dtv, MasterAddr::Prompt],
    {
        [MasterAddr::Dtv, MasterAddr::Prompt]
    }

    /// The default identity, [`MasterAddr::Dtv`].
    pub fn default_identity() -> (m: MasterAddr)
        ensures
            m == MasterAddr::Dtv,
    {
        MasterAddr::Dtv
    }

    pub fn byte(self) -> (b: u8)
        ensures
            b == master_byte(self),
    {
        match self {
            MasterAddr::Dtv => 0x00,
            MasterAddr::Prompt => 0x10,
        }
    }

    /// The other identity, for the discovery retry.
    pub fn alternate(self) -> (m: MasterAddr)
        ensures
            m != self,
            m == (match self {
                MasterAddr::Dtv => MasterAddr::Prompt,
                MasterAddr::Prompt => MasterAddr::Dtv,
            }),
    {
        match self {
            MasterAddr::Dtv => MasterAddr::Prompt,
            MasterAddr::Prompt => MasterAddr::Dtv,
        }
    }
}

impl Default for MasterAddr {
    fn default() -> (m: MasterAddr)
        ensures
            m == MasterAddr::Dtv,
    {
        MasterAddr::Dtv
    }
}

/// Which way a frame travelled, inferred from the `ADDRESS` field — never
/// from an echo.
#[derive(Copy, Clone, PartialEq, Eq, Hash, Debug, Structural)]
pub enum Direction {
    /// `ADDRESS` is a valve address or the broadcast address.
    MasterToValve,
    /// `ADDRESS` is the configured master address: the field is the
    /// destination, so a valve's reply carries the master's address.
    ValveToMaster,
    /// Neither.
    Indeterminate,
}

/// The direction rule.
pub open spec fn spec_infer_direction(address: u8, master: MasterAddr) -> Direction {
    if address == master_byte(master) {
        Direction::ValveToMaster
    } else if address == BROADCAST || (VALVE_ADDR_MIN <= address <= VALVE_ADDR_MAX) {
        Direction::MasterToValve
    } else {
        Direction::Indeterminate
    }
}

impl Direction {
    /// The only direction rule in the crate. `master` is the configured
    /// identity for this link.
    pub fn infer(address: u8, master: MasterAddr) -> (d: Direction)
        ensures
            d == spec_infer_direction(address, master),
    {
        if address == master.byte() {
            Direction::ValveToMaster
        } else if address == BROADCAST || (VALVE_ADDR_MIN <= address && address <= VALVE_ADDR_MAX) {
            Direction::MasterToValve
        } else {
            Direction::Indeterminate
        }
    }
}

} // verus!
