//! The outlet mapping table: configuration slots, status indices and the
//! wire bitmap, three numbering schemes that do not agree.
//!
//! A DTV 6-Port numbers its outlets 0..5 in bits 0..5, so its first outlet is
//! mask `0x01`. A Prompt valve numbers its outlets from 1 in bits 2..7, so its
//! first outlet is mask `0x04`. Mask `0x04` is outlet 2 on one valve and
//! outlet 1 on the other.
use vstd::prelude::*;
use crate::saturn::control::FirmwareType;
use crate::units::{Slot, SlotSet};

verus! {

/// The valve families this master speaks to, and the only thing that
/// selects an outlet bitmap.
#[derive(Copy, Clone, PartialEq, Eq, Hash, Debug, Structural)]
pub enum ValveType {
    /// Firmware type `0x06`. Outlets 0..5, masks `0x01`..`0x20`.
    Dtv6Port,
    /// Firmware type `0x17`. Two outlets, the Prompt layout truncated.
    Prompt2Port,
    /// Firmware type `0x1E`. Outlets 1..6, masks `0x04`..`0x80`.
    Prompt3Port,
    /// Firmware type `0xFF`. As the Prompt 3-Port, plus flow control.
    Prompt3FlowControl,
}

pub open spec fn spec_first_outlet(v: ValveType) -> u8 {
    match v {
        ValveType::Dtv6Port => 0,
        _ => 1,
    }
}

pub open spec fn spec_first_mask(v: ValveType) -> u8 {
    match v {
        ValveType::Dtv6Port => 0x01,
        _ => 0x04,
    }
}

/// The bit position of a family's first outlet.
pub open spec fn spec_first_bit(v: ValveType) -> u8 {
    match v {
        ValveType::Dtv6Port => 0,
        _ => 2,
    }
}

pub open spec fn spec_mask_positions(v: ValveType) -> u8 {
    match v {
        ValveType::Prompt2Port => 2,
        _ => 6,
    }
}

pub open spec fn spec_ports(v: ValveType) -> u8 {
    match v {
        ValveType::Dtv6Port => 6,
        ValveType::Prompt2Port => 2,
        _ => 3,
    }
}

/// The single-bit mask with bit `k` set.
pub open spec fn bit_mask(k: int) -> u8 {
    if k == 0 { 0x01 }
    else if k == 1 { 0x02 }
    else if k == 2 { 0x04 }
    else if k == 3 { 0x08 }
    else if k == 4 { 0x10 }
    else if k == 5 { 0x20 }
    else if k == 6 { 0x40 }
    else { 0x80 }
}

/// True when `outlet` is in the family's own numbering range.
pub open spec fn outlet_in_range(v: ValveType, outlet: u8) -> bool {
    spec_first_outlet(v) <= outlet < spec_first_outlet(v) + spec_mask_positions(v)
}

/// The mask an outlet number would have in a family, range aside.
pub open spec fn outlet_mask(v: ValveType, o: u8) -> u8 {
    bit_mask(o - spec_first_outlet(v) + spec_first_bit(v))
}

/// Wire outlet number to wire mask, in the family's own numbering.
pub open spec fn spec_mask_for_outlet(v: ValveType, outlet: u8) -> Option<u8> {
    if outlet_in_range(v, outlet) {
        Some(outlet_mask(v, outlet))
    } else {
        None
    }
}

/// The outlet whose mask is `mask`, if there is exactly one.
pub open spec fn spec_outlet_for_mask(v: ValveType, mask: u8) -> Option<u8> {
    if exists|o: u8| outlet_in_range(v, o) && outlet_mask(v, o) == mask {
        Some(choose|o: u8| outlet_in_range(v, o) && outlet_mask(v, o) == mask)
    } else {
        None
    }
}

fn bit(k: u8) -> (m: u8)
    requires
        k < 8,
    ensures
        m == bit_mask(k as int),
{
    match k {
        0 => 0x01,
        1 => 0x02,
        2 => 0x04,
        3 => 0x08,
        4 => 0x10,
        5 => 0x20,
        6 => 0x40,
        _ => 0x80,
    }
}

/// Different bit positions give different masks.
pub proof fn lemma_bit_mask_injective(a: int, b: int)
    requires
        0 <= a < 8,
        0 <= b < 8,
    ensures
        (bit_mask(a) == bit_mask(b)) <==> a == b,
{
}

/// Within a family, the outlet-to-mask map is injective.
pub proof fn lemma_mask_injective(v: ValveType, a: u8, b: u8)
    requires
        outlet_in_range(v, a),
        outlet_in_range(v, b),
        spec_mask_for_outlet(v, a) == spec_mask_for_outlet(v, b),
    ensures
        a == b,
{
    lemma_bit_mask_injective(a - spec_first_outlet(v) + spec_first_bit(v), b - spec_first_outlet(v) + spec_first_bit(v));
}

/// **Every physical port is addressable.** Each of a family's ports, counted
/// from its first outlet number, has a wire mask: the first port has the
/// family's first mask, and each next port the next bit up.
pub proof fn lemma_every_port_has_a_mask(v: ValveType, o: u8)
    requires
        spec_first_outlet(v) <= o < spec_first_outlet(v) + spec_ports(v),
    ensures
        outlet_in_range(v, o),
        spec_mask_for_outlet(v, o) is Some,
        o == spec_first_outlet(v) ==> spec_mask_for_outlet(v, o) == Some(spec_first_mask(v)),
        o + 1 < spec_first_outlet(v) + spec_ports(v) ==> spec_mask_for_outlet(v, (o + 1) as u8) is Some
            && spec_mask_for_outlet(v, (o + 1) as u8)->Some_0 == 2 * spec_mask_for_outlet(v, o)->Some_0,
{
}

/// Which error an outlet-table operation reports.
#[derive(Copy, Clone, PartialEq, Eq, Debug, Structural)]
pub enum OutletError {
    OutletOutOfRange { valve: ValveType, outlet: u8 },
    UnconfiguredSlot(Slot),
    DuplicateSlot(Slot),
    DuplicateWireOutlet { valve: ValveType, outlet: u8 },
    DuplicateStatusIndex(u8),
}

/// A valve family's name, as printed in logs.
pub open spec fn spec_valve_type_name(t: ValveType) -> &'static str {
    match t {
        ValveType::Dtv6Port => "DTV 6-Port",
        ValveType::Prompt2Port => "Prompt 2-Port",
        ValveType::Prompt3Port => "Prompt 3-Port",
        ValveType::Prompt3FlowControl => "Prompt 3 Flow Control",
    }
}

impl ValveType {
    /// All four families.
    pub fn all() -> (a: [ValveType; 4])
        ensures
            a@ == seq![ValveType::Dtv6Port, ValveType::Prompt2Port, ValveType::Prompt3Port, ValveType::Prompt3FlowControl],
    {
        [ValveType::Dtv6Port, ValveType::Prompt2Port, ValveType::Prompt3Port, ValveType::Prompt3FlowControl]
    }

    /// The only route from a discovered valve to a bitmap layout. `Null` and
    /// `Unknown` produce `None`.
    pub fn from_firmware(ft: FirmwareType) -> (v: Option<ValveType>)
        ensures
            v == (match ft {
                FirmwareType::Dtv6Port => Some(ValveType::Dtv6Port),
                FirmwareType::Prompt2Port => Some(ValveType::Prompt2Port),
                FirmwareType::Prompt3Port => Some(ValveType::Prompt3Port),
                FirmwareType::Prompt3FlowControl => Some(ValveType::Prompt3FlowControl),
                _ => None,
            }),
    {
        match ft {
            FirmwareType::Dtv6Port => Some(ValveType::Dtv6Port),
            FirmwareType::Prompt2Port => Some(ValveType::Prompt2Port),
            FirmwareType::Prompt3Port => Some(ValveType::Prompt3Port),
            FirmwareType::Prompt3FlowControl => Some(ValveType::Prompt3FlowControl),
            FirmwareType::Null | FirmwareType::Unknown(_) => None,
        }
    }

    /// The lowest outlet number in this family's numbering.
    pub fn first_outlet(self) -> (o: u8)
        ensures
            o == spec_first_outlet(self),
    {
        match self {
            ValveType::Dtv6Port => 0,
            _ => 1,
        }
    }

    /// The mask of the first outlet: `0x01` for DTV, `0x04` for Prompt.
    pub fn first_mask(self) -> (m: u8)
        ensures
            m == spec_first_mask(self),
            m == bit_mask(spec_first_bit(self) as int),
    {
        match self {
            ValveType::Dtv6Port => 0x01,
            _ => 0x04,
        }
    }

    fn first_bit(self) -> (b: u8)
        ensures
            b == spec_first_bit(self),
    {
        match self {
            ValveType::Dtv6Port => 0,
            _ => 2,
        }
    }

    /// How many mask positions the family's bitmap defines.
    pub fn mask_positions(self) -> (n: u8)
        ensures
            n == spec_mask_positions(self),
    {
        match self {
            ValveType::Prompt2Port => 2,
            _ => 6,
        }
    }

    /// The number of physical ports. Not the same as the mask positions.
    pub fn ports(self) -> (n: u8)
        ensures
            n == spec_ports(self),
    {
        match self {
            ValveType::Dtv6Port => 6,
            ValveType::Prompt2Port => 2,
            _ => 3,
        }
    }

    /// The family's name, as printed in logs.
    pub fn name(self) -> (s: &'static str)
        ensures
            s == spec_valve_type_name(self),
    {
        match self {
            ValveType::Dtv6Port => "DTV 6-Port",
            ValveType::Prompt2Port => "Prompt 2-Port",
            ValveType::Prompt3Port => "Prompt 3-Port",
            ValveType::Prompt3FlowControl => "Prompt 3 Flow Control",
        }
    }

    /// **The one mapping function.** Wire outlet number to wire mask.
    pub fn mask_for_outlet(self, outlet: u8) -> (r: Result<u8, OutletError>)
        ensures
            r is Ok <==> outlet_in_range(self, outlet),
            r matches Ok(m) ==> spec_mask_for_outlet(self, outlet) == Some(m),
            r matches Err(e) ==> e == (OutletError::OutletOutOfRange { valve: self, outlet }),
    {
        let first = self.first_outlet();
        let positions = self.mask_positions();
        if outlet < first || outlet >= first + positions {
            return Err(OutletError::OutletOutOfRange { valve: self, outlet });
        }
        Ok(bit(outlet - first + self.first_bit()))
    }

    /// The inverse, for reading a capture back. `None` when the mask has no
    /// outlet in this family or names more than one.
    pub fn outlet_for_mask(self, mask: u8) -> (r: Option<u8>)
        ensures
            r == spec_outlet_for_mask(self, mask),
            r matches Some(o) ==> spec_mask_for_outlet(self, o) == Some(mask),
    {
        let first = self.first_outlet();
        let positions = self.mask_positions();
        let mut i: u8 = 0;
        while i < positions
            invariant
                first == spec_first_outlet(self),
                positions == spec_mask_positions(self),
                i <= positions,
                forall|o: u8| first <= o < first + i ==> #[trigger] outlet_mask(self, o) != mask,
            decreases positions - i,
        {
            let o = first + i;
            if bit(i + self.first_bit()) == mask {
                proof {
                    assert(outlet_in_range(self, o) && outlet_mask(self, o) == mask);
                    let c = choose|c: u8| outlet_in_range(self, c) && outlet_mask(self, c) == mask;
                    lemma_mask_injective(self, c, o);
                }
                return Some(o);
            }
            i = i + 1;
        }
        None
    }
}

/// The two families' bitmaps never alias across the outlet numbers both
/// define: the same outlet number is a different mask on a DTV valve and on a
/// Prompt valve.
pub proof fn lemma_families_never_alias(outlet: u8, prompt: ValveType)
    requires
        prompt != ValveType::Dtv6Port,
        outlet_in_range(ValveType::Dtv6Port, outlet),
        outlet_in_range(prompt, outlet),
    ensures
        spec_mask_for_outlet(ValveType::Dtv6Port, outlet) != spec_mask_for_outlet(prompt, outlet),
{
}

/// Mask and outlet round-trip in every family.
pub proof fn lemma_mask_outlet_round_trip(v: ValveType, outlet: u8)
    requires
        outlet_in_range(v, outlet),
    ensures
        spec_outlet_for_mask(v, spec_mask_for_outlet(v, outlet).unwrap()) == Some(outlet),
{
    let m = spec_mask_for_outlet(v, outlet).unwrap();
    assert(outlet_in_range(v, outlet) && outlet_mask(v, outlet) == m);
    let c = choose|c: u8| outlet_in_range(v, c) && outlet_mask(v, c) == m;
    lemma_mask_injective(v, c, outlet);
}

/// A wire outlet bitmap, tagged with the valve family it was built for. The
/// only constructors are [`OutletTable::bitmap`] and [`OutletBitmap::all_off`].
#[derive(Copy, Clone, PartialEq, Eq, Hash, Debug, Structural)]
pub struct OutletBitmap {
    valve: ValveType,
    bits: u8,
}

impl OutletBitmap {
    pub closed spec fn spec_bits(self) -> u8 {
        self.bits
    }

    pub closed spec fn spec_valve(self) -> ValveType {
        self.valve
    }

    pub fn bits(self) -> (b: u8)
        ensures
            b == self.spec_bits(),
    {
        self.bits
    }

    pub fn valve(self) -> (v: ValveType)
        ensures
            v == self.spec_valve(),
    {
        self.valve
    }

    pub fn is_empty(self) -> (b: bool)
        ensures
            b == (self.spec_bits() == 0),
    {
        self.bits == 0
    }

    /// The all-off bitmap for a family. Turning water off is never gated.
    pub fn all_off(valve: ValveType) -> (b: OutletBitmap)
        ensures
            b.spec_bits() == 0,
            b.spec_valve() == valve,
    {
        OutletBitmap { valve, bits: 0 }
    }
}

/// The bits no source defines in the primary flag byte. Never written.
pub const PRIMARY_UNDEFINED_BITS: u8 = 0x98;

/// The write-primary flag byte, `DATA[1]` of a `0x87` write. A distinct type
/// from [`OutletBitmap`] because the two collide numerically.
#[derive(Copy, Clone, PartialEq, Eq, Hash, Debug, Structural)]
pub struct PrimaryFlags {
    bits: u8,
}

impl PrimaryFlags {
    pub const ON: u8 = 0x01;
    pub const PAUSE: u8 = 0x02;
    pub const FULL_COLD: u8 = 0x04;
    pub const DUTY_FLUSH: u8 = 0x20;
    pub const DISINFECT: u8 = 0x40;
    /// `0x08 | 0x10 | 0x80`.
    pub const UNDEFINED_BITS: u8 = 0x98;

    pub closed spec fn spec_bits(self) -> u8 {
        self.bits
    }

    /// `0x00` — the value in the only frame with evidence behind it.
    pub fn captured() -> (f: PrimaryFlags)
        ensures
            f.spec_bits() == 0,
    {
        PrimaryFlags { bits: 0 }
    }

    /// Refuses any byte with an undefined bit set.
    pub fn from_bits(b: u8) -> (f: Option<PrimaryFlags>)
        ensures
            f is Some <==> b & PRIMARY_UNDEFINED_BITS == 0,
            f matches Some(x) ==> x.spec_bits() == b,
    {
        if b & PRIMARY_UNDEFINED_BITS == 0 {
            Some(PrimaryFlags { bits: b })
        } else {
            None
        }
    }

    /// Keeps every bit, defined or not. The encoder refuses the undefined
    /// ones.
    pub fn from_bits_retain(b: u8) -> (f: PrimaryFlags)
        ensures
            f.spec_bits() == b,
    {
        PrimaryFlags { bits: b }
    }

    pub fn bits(self) -> (b: u8)
        ensures
            b == self.spec_bits(),
    {
        self.bits
    }
}

/// The valve state byte a valve reports. Only two bits are documented.
#[derive(Copy, Clone, PartialEq, Eq, Hash, Debug, Structural)]
pub struct ValveStateBits {
    bits: u8,
}

impl ValveStateBits {
    /// Bit 1. Outputs paused.
    pub const PAUSE: u8 = 0x02;
    /// Bit 7. An active error condition.
    pub const ERROR: u8 = 0x80;

    pub closed spec fn spec_bits(self) -> u8 {
        self.bits
    }

    /// Keeps the two documented bits and drops the rest.
    pub fn from_bits_truncate(b: u8) -> (s: ValveStateBits)
        ensures
            s.spec_bits() == b & 0x82,
    {
        ValveStateBits { bits: b & 0x82 }
    }

    pub fn bits(self) -> (b: u8)
        ensures
            b == self.spec_bits(),
    {
        self.bits
    }

    /// True when every bit of `flags` is set.
    pub fn contains(self, flags: u8) -> (b: bool)
        ensures
            b == (self.spec_bits() & flags == flags),
    {
        self.bits & flags == flags
    }

    pub fn is_empty(self) -> (b: bool)
        ensures
            b == (self.spec_bits() == 0),
    {
        self.bits == 0
    }
}

/// One configuration slot's place in the other two numbering spaces.
#[derive(Copy, Clone, PartialEq, Eq, Debug, Structural)]
pub struct OutletMapping {
    /// The configuration slot, 1..=6.
    pub slot: Slot,
    /// The index the status page reports this outlet under. Not the slot.
    pub status_index: u8,
    /// The outlet number in the family's own numbering.
    pub wire_outlet: u8,
}

/// Places each mapping at its slot's index, in order, refusing a wire outlet
/// outside the family and a slot placed twice.
pub open spec fn spec_place(valve: ValveType, ms: Seq<OutletMapping>) -> Result<Seq<Option<OutletMapping>>, OutletError>
    decreases ms.len(),
{
    if ms.len() == 0 {
        Ok(seq![None, None, None, None, None, None])
    } else {
        match spec_place(valve, ms.drop_last()) {
            Err(e) => Err(e),
            Ok(es) => {
                let m = ms.last();
                let n = m.slot.spec_get();
                if !outlet_in_range(valve, m.wire_outlet) {
                    Err(OutletError::OutletOutOfRange { valve, outlet: m.wire_outlet })
                } else if !(1 <= n <= 6) {
                    Err(OutletError::UnconfiguredSlot(m.slot))
                } else if es[n - 1] is Some {
                    Err(OutletError::DuplicateSlot(m.slot))
                } else {
                    Ok(es.update(n - 1, Some(m)))
                }
            },
        }
    }
}

/// The first pair of configured entries, in index order, that share a wire
/// outlet or a status index.
pub open spec fn spec_pair_scan(valve: ValveType, es: Seq<Option<OutletMapping>>, i: int, j: int) -> Option<OutletError>
    decreases 6 - i, 6 - j,
{
    if i >= 6 || i < 0 {
        None
    } else if j <= i {
        spec_pair_scan(valve, es, i, i + 1)
    } else if j >= 6 {
        spec_pair_scan(valve, es, i + 1, i + 2)
    } else {
        match (es[i], es[j]) {
            (Some(a), Some(b)) => if a.wire_outlet == b.wire_outlet {
                Some(OutletError::DuplicateWireOutlet { valve, outlet: a.wire_outlet })
            } else if a.status_index == b.status_index {
                Some(OutletError::DuplicateStatusIndex(a.status_index))
            } else {
                spec_pair_scan(valve, es, i, j + 1)
            },
            _ => spec_pair_scan(valve, es, i, j + 1),
        }
    }
}

/// What building a table from `ms` produces.
pub open spec fn spec_build(valve: ValveType, ms: Seq<OutletMapping>) -> Result<Seq<Option<OutletMapping>>, OutletError> {
    match spec_place(valve, ms) {
        Err(e) => Err(e),
        Ok(es) => match spec_pair_scan(valve, es, 0, 1) {
            Some(e) => Err(e),
            None => Ok(es),
        },
    }
}

/// A well-formed table: each entry sits at its slot's index with a wire outlet
/// in the family, and no two entries share a wire outlet or a status index.
pub open spec fn entries_wf(valve: ValveType, es: Seq<Option<OutletMapping>>) -> bool {
    &&& es.len() == 6
    &&& forall|i: int| 0 <= i < 6 && (#[trigger] es[i]) is Some ==> {
        &&& es[i]->0.slot.spec_get() == i + 1
        &&& outlet_in_range(valve, es[i]->0.wire_outlet)
    }
    &&& forall|i: int, j: int| 0 <= i < j < 6 && (#[trigger] es[i]) is Some && (#[trigger] es[j]) is Some ==> {
        &&& es[i]->0.wire_outlet != es[j]->0.wire_outlet
        &&& es[i]->0.status_index != es[j]->0.status_index
    }
}

proof fn lemma_place_wf(valve: ValveType, ms: Seq<OutletMapping>)
    requires
        spec_place(valve, ms) is Ok,
    ensures
        ({
            let es = spec_place(valve, ms)->Ok_0;
            &&& es.len() == 6
            &&& forall|i: int| 0 <= i < 6 && (#[trigger] es[i]) is Some ==> {
                &&& es[i]->0.slot.spec_get() == i + 1
                &&& outlet_in_range(valve, es[i]->0.wire_outlet)
            }
        }),
    decreases ms.len(),
{
    if ms.len() > 0 {
        lemma_place_wf(valve, ms.drop_last());
    }
}

proof fn lemma_pair_scan_none(valve: ValveType, es: Seq<Option<OutletMapping>>, i: int, j: int)
    requires
        es.len() == 6,
        0 <= i,
        spec_pair_scan(valve, es, i, j) is None,
    ensures
        forall|a: int, b: int| #![trigger es[a], es[b]] (i < a < b < 6 || (a == i && j <= b < 6 && i < b)) && es[a] is Some && es[b] is Some ==> {
            &&& es[a]->0.wire_outlet != es[b]->0.wire_outlet
            &&& es[a]->0.status_index != es[b]->0.status_index
        },
    decreases 6 - i, 6 - j,
{
    if i >= 6 {
    } else if j <= i {
        lemma_pair_scan_none(valve, es, i, i + 1);
    } else if j >= 6 {
        lemma_pair_scan_none(valve, es, i + 1, i + 2);
    } else {
        lemma_pair_scan_none(valve, es, i, j + 1);
    }
}

/// The mapping table for one valve, built once from configuration.
#[derive(Debug)]
pub struct OutletTable {
    valve: ValveType,
    entries: [Option<OutletMapping>; 6],
}

impl OutletTable {
    pub closed spec fn spec_valve(self) -> ValveType {
        self.valve
    }

    /// The entries, indexed by slot number minus one.
    pub closed spec fn spec_entries(self) -> Seq<Option<OutletMapping>> {
        self.entries@
    }

    #[verifier::type_invariant]
    pub closed spec fn wf(self) -> bool {
        entries_wf(self.valve, self.entries@)
    }

    /// The entry of slot number `n`.
    pub open spec fn entry(self, n: u8) -> Option<OutletMapping> {
        if 1 <= n <= 6 {
            self.spec_entries()[n - 1]
        } else {
            None
        }
    }

    /// Builds the table, rejecting an out-of-range wire outlet, a duplicate
    /// slot, and two slots that share a wire outlet or a status index.
    pub fn new(valve: ValveType, mappings: &[OutletMapping]) -> (r: Result<OutletTable, OutletError>)
        ensures
            match spec_build(valve, mappings@) {
                Ok(es) => r matches Ok(t) && t.spec_valve() == valve && t.spec_entries() == es,
                Err(e) => r == Err::<OutletTable, OutletError>(e),
            },
            r matches Ok(t) ==> entries_wf(valve, t.spec_entries()),
    {
        let mut entries: [Option<OutletMapping>; 6] = [None, None, None, None, None, None];
        let mut k: usize = 0;
        proof {
            assert(mappings@.take(0) =~= Seq::<OutletMapping>::empty());
            assert(entries@ =~= seq![None, None, None, None, None, None]);
        }
        while k < mappings.len()
            invariant
                k <= mappings.len(),
                spec_place(valve, mappings@.take(k as int)) == Ok::<Seq<Option<OutletMapping>>, OutletError>(entries@),
            decreases mappings.len() - k,
        {
            let m = mappings[k];
            proof {
                assert(mappings@.take(k as int + 1).drop_last() =~= mappings@.take(k as int));
                assert(mappings@.take(k as int + 1).last() == m);
            }
            match valve.mask_for_outlet(m.wire_outlet) {
                Err(e) => {
                    proof { lemma_place_err_sticks(valve, mappings@, k as int + 1); }
                    return Err(e);
                },
                Ok(_) => {},
            }
            let idx = m.slot.index();
            if entries[idx].is_some() {
                proof { lemma_place_err_sticks(valve, mappings@, k as int + 1); }
                return Err(OutletError::DuplicateSlot(m.slot));
            }
            entries[idx] = Some(m);
            k = k + 1;
        }
        proof {
            assert(mappings@.take(mappings.len() as int) =~= mappings@);
            lemma_place_wf(valve, mappings@);
        }
        let ghost es = entries@;
        let mut i: usize = 0;
        while i < 6
            invariant
                entries@ == es,
                es.len() == 6,
                spec_place(valve, mappings@) == Ok::<Seq<Option<OutletMapping>>, OutletError>(es),
                i <= 6,
                spec_pair_scan(valve, es, 0, 1) == spec_pair_scan(valve, es, i as int, i as int + 1),
            decreases 6 - i,
        {
            let mut j: usize = i + 1;
            while j < 6
                invariant
                    entries@ == es,
                    es.len() == 6,
                    spec_place(valve, mappings@) == Ok::<Seq<Option<OutletMapping>>, OutletError>(es),
                    i < 6,
                    i < j <= 6,
                    spec_pair_scan(valve, es, 0, 1) == spec_pair_scan(valve, es, i as int, j as int),
                decreases 6 - j,
            {
                proof {
                    assert(es[i as int] == entries@[i as int]);
                    assert(es[j as int] == entries@[j as int]);
                }
                match (entries[i], entries[j]) {
                    (Some(a), Some(b)) => {
                        if a.wire_outlet == b.wire_outlet {
                            proof {
                                assert(spec_pair_scan(valve, es, i as int, j as int) == Some(OutletError::DuplicateWireOutlet { valve, outlet: a.wire_outlet }));
                            }
                            return Err(OutletError::DuplicateWireOutlet { valve, outlet: a.wire_outlet });
                        }
                        if a.status_index == b.status_index {
                            proof {
                                assert(spec_pair_scan(valve, es, i as int, j as int) == Some(OutletError::DuplicateStatusIndex(a.status_index)));
                            }
                            return Err(OutletError::DuplicateStatusIndex(a.status_index));
                        }
                    },
                    _ => {},
                }
                j = j + 1;
            }
            i = i + 1;
        }
        proof {
            lemma_pair_scan_none(valve, es, 0, 1);
        }
        Ok(OutletTable { valve, entries })
    }
}

/// The bitmap of the requested slots among the first `n` slot numbers: the
/// first requested slot with no entry refuses, and otherwise the masks OR
/// together.
pub open spec fn spec_bitmap_upto(t: OutletTable, slots: SlotSet, n: u8) -> Result<u8, OutletError>
    decreases n,
{
    if n == 0 {
        Ok(0)
    } else {
        match spec_bitmap_upto(t, slots, (n - 1) as u8) {
            Err(e) => Err(e),
            Ok(b) => if slots.has(n) {
                match t.entry(n) {
                    None => Err(OutletError::UnconfiguredSlot(Slot::spec_of(n))),
                    Some(m) => Ok(b | outlet_mask(t.spec_valve(), m.wire_outlet)),
                }
            } else {
                Ok(b)
            },
        }
    }
}

/// Reading a reported outlet byte back: the configured slots whose mask is
/// set, and the bits no configured slot accounts for.
pub open spec fn spec_slots_from_bits_upto(t: OutletTable, bits: u8, n: u8) -> (Set<u8>, u8)
    decreases n,
{
    if n == 0 {
        (Set::empty(), bits)
    } else {
        let (set, un) = spec_slots_from_bits_upto(t, bits, (n - 1) as u8);
        match t.entry(n) {
            Some(m) => {
                let mask = outlet_mask(t.spec_valve(), m.wire_outlet);
                if bits & mask != 0 {
                    (set.insert(m.slot.spec_get()), un & !mask)
                } else {
                    (set, un)
                }
            },
            None => (set, un),
        }
    }
}

/// The first configured slot, in slot order from `n`, reported under status
/// index `index`.
pub open spec fn spec_slot_for_status_from(t: OutletTable, index: u8, n: int) -> Option<Slot>
    decreases 7 - n,
{
    if n < 1 || n > 6 {
        None
    } else {
        match t.entry(n as u8) {
            Some(m) => if m.status_index == index {
                Some(m.slot)
            } else {
                spec_slot_for_status_from(t, index, n + 1)
            },
            None => spec_slot_for_status_from(t, index, n + 1),
        }
    }
}

impl OutletTable {
    pub fn valve(&self) -> (v: ValveType)
        ensures
            v == self.spec_valve(),
    {
        self.valve
    }

    /// Every configured mapping, in ascending slot order.
    pub fn configured(&self) -> (v: Vec<OutletMapping>)
        ensures
            v@ == self.spec_entries().filter(|e: Option<OutletMapping>| e is Some).map_values(|e: Option<OutletMapping>| e->0),
    {
        proof { use_type_invariant(self); }
        let mut v: Vec<OutletMapping> = Vec::new();
        let mut i: usize = 0;
        while i < 6
            invariant
                i <= 6,
                self.spec_entries().len() == 6,
                v@ == self.spec_entries().take(i as int).filter(|e: Option<OutletMapping>| e is Some).map_values(|e: Option<OutletMapping>| e->0),
            decreases 6 - i,
        {
            proof {
                reveal_with_fuel(Seq::filter, 1);
                assert(self.spec_entries().take(i as int + 1).drop_last() =~= self.spec_entries().take(i as int));
            }
            match self.entries[i] {
                Some(m) => {
                    v.push(m);
                    proof {
                        assert(v@ =~= self.spec_entries().take(i as int + 1).filter(|e: Option<OutletMapping>| e is Some).map_values(|e: Option<OutletMapping>| e->0));
                    }
                },
                None => {
                    proof {
                        assert(v@ =~= self.spec_entries().take(i as int + 1).filter(|e: Option<OutletMapping>| e is Some).map_values(|e: Option<OutletMapping>| e->0));
                    }
                },
            }
            i = i + 1;
        }
        proof {
            assert(self.spec_entries().take(6) =~= self.spec_entries());
        }
        v
    }

    /// The set of slots this valve has configured.
    pub fn configured_slots(&self) -> (s: SlotSet)
        ensures
            forall|n: u8| s.has(n) <==> self.entry(n) is Some,
    {
        proof { use_type_invariant(self); }
        let mut s = SlotSet::empty();
        let mut i: usize = 0;
        while i < 6
            invariant
                i <= 6,
                entries_wf(self.spec_valve(), self.spec_entries()),
                forall|n: u8| s.has(n) <==> (1 <= n <= i && self.entry(n) is Some),
            decreases 6 - i,
        {
            match self.entries[i] {
                Some(m) => {
                    assert(self.entry((i + 1) as u8) == Some(m));
                    s = s.insert(m.slot);
                },
                None => {},
            }
            i = i + 1;
        }
        s
    }

    /// The mapping of one slot, or `UnconfiguredSlot`.
    pub fn mapping(&self, slot: Slot) -> (r: Result<OutletMapping, OutletError>)
        ensures
            match self.entry(slot.spec_get()) {
                Some(m) => r == Ok::<OutletMapping, OutletError>(m),
                None => r == Err::<OutletMapping, OutletError>(OutletError::UnconfiguredSlot(slot)),
            },
    {
        let i = slot.index();
        match self.entries[i] {
            Some(m) => Ok(m),
            None => Err(OutletError::UnconfiguredSlot(slot)),
        }
    }

    /// **The one function that crosses from slots to the wire**: the masks of
    /// the selected slots, OR-ed together. Fails on the lowest requested slot
    /// this valve has not configured rather than skipping it.
    pub fn bitmap(&self, slots: SlotSet) -> (r: Result<OutletBitmap, OutletError>)
        ensures
            match spec_bitmap_upto(*self, slots, 6) {
                Ok(b) => r matches Ok(bm) && bm.spec_bits() == b && bm.spec_valve() == self.spec_valve(),
                Err(e) => r == Err::<OutletBitmap, OutletError>(e),
            },
    {
        proof { use_type_invariant(self); }
        let mut bits: u8 = 0;
        let mut n: u8 = 1;
        while n <= 6
            invariant
                1 <= n <= 7,
                entries_wf(self.spec_valve(), self.spec_entries()),
                spec_bitmap_upto(*self, slots, (n - 1) as u8) == Ok::<u8, OutletError>(bits),
            decreases 7 - n,
        {
            let slot = match Slot::new(n) {
                Ok(s) => s,
                Err(_) => { assert(false); return Err(OutletError::DuplicateStatusIndex(0)); },
            };
            if slots.contains(slot) {
                match self.entries[(n - 1) as usize] {
                    None => {
                        proof {
                            Slot::lemma_spec_of(n);
                            slot.lemma_eq(Slot::spec_of(n));
                            lemma_bitmap_err_sticks(*self, slots, n);
                        }
                        return Err(OutletError::UnconfiguredSlot(slot));
                    },
                    Some(m) => {
                        let mask = match self.valve.mask_for_outlet(m.wire_outlet) {
                            Ok(mask) => mask,
                            Err(e) => { assert(false); return Err(e); },
                        };
                        bits = bits | mask;
                    },
                }
            }
            n = n + 1;
        }
        Ok(OutletBitmap { valve: self.valve, bits })
    }

    /// The reverse, for decoding a reported outlet-state byte. Bits with no
    /// configured slot behind them are returned separately rather than
    /// dropped.
    pub fn slots_from_bits(&self, bits: u8) -> (r: (SlotSet, u8))
        ensures
            forall|n: u8| r.0.has(n) <==> spec_slots_from_bits_upto(*self, bits, 6).0.contains(n),
            r.1 == spec_slots_from_bits_upto(*self, bits, 6).1,
    {
        proof { use_type_invariant(self); }
        let mut set = SlotSet::empty();
        let mut unaccounted = bits;
        let mut n: u8 = 1;
        while n <= 6
            invariant
                1 <= n <= 7,
                entries_wf(self.spec_valve(), self.spec_entries()),
                forall|k: u8| set.has(k) <==> spec_slots_from_bits_upto(*self, bits, (n - 1) as u8).0.contains(k),
                unaccounted == spec_slots_from_bits_upto(*self, bits, (n - 1) as u8).1,
            decreases 7 - n,
        {
            match self.entries[(n - 1) as usize] {
                Some(m) => {
                    assert(self.entry(n) == Some(m));
                    let mask = match self.valve.mask_for_outlet(m.wire_outlet) {
                        Ok(mask) => mask,
                        Err(e) => { assert(false); return (set, unaccounted); },
                    };
                    if bits & mask != 0 {
                        set = set.insert(m.slot);
                        unaccounted = unaccounted & !mask;
                    }
                },
                None => {},
            }
            n = n + 1;
        }
        (set, unaccounted)
    }

    /// Slot to status index: always bridged, never assumed equal.
    pub fn status_index(&self, slot: Slot) -> (r: Result<u8, OutletError>)
        ensures
            match self.entry(slot.spec_get()) {
                Some(m) => r == Ok::<u8, OutletError>(m.status_index),
                None => r == Err::<u8, OutletError>(OutletError::UnconfiguredSlot(slot)),
            },
    {
        let m = self.mapping(slot)?;
        Ok(m.status_index)
    }

    /// Status index back to slot.
    pub fn slot_for_status_index(&self, index: u8) -> (r: Option<Slot>)
        ensures
            r == spec_slot_for_status_from(*self, index, 1),
    {
        proof { use_type_invariant(self); }
        let mut n: u8 = 1;
        while n <= 6
            invariant
                1 <= n <= 7,
                entries_wf(self.spec_valve(), self.spec_entries()),
                spec_slot_for_status_from(*self, index, 1) == spec_slot_for_status_from(*self, index, n as int),
            decreases 7 - n,
        {
            match self.entries[(n - 1) as usize] {
                Some(m) => {
                    assert(self.entry(n) == Some(m));
                    if m.status_index == index {
                        return Some(m.slot);
                    }
                },
                None => {},
            }
            n = n + 1;
        }
        None
    }
}

proof fn lemma_bitmap_err_sticks(t: OutletTable, slots: SlotSet, n: u8)
    requires
        1 <= n <= 6,
        spec_bitmap_upto(t, slots, n) is Err,
    ensures
        spec_bitmap_upto(t, slots, 6) == spec_bitmap_upto(t, slots, n),
    decreases 6 - n,
{
    if n < 6 {
        lemma_bitmap_err_sticks(t, slots, (n + 1) as u8);
    }
}

proof fn lemma_place_err_sticks(valve: ValveType, ms: Seq<OutletMapping>, k: int)
    requires
        0 < k <= ms.len(),
        spec_place(valve, ms.take(k)) is Err,
    ensures
        spec_place(valve, ms) == spec_place(valve, ms.take(k)),
    decreases ms.len() - k,
{
    if k < ms.len() {
        assert(ms.take(k + 1).drop_last() =~= ms.take(k));
        lemma_place_err_sticks(valve, ms, k + 1);
    } else {
        assert(ms.take(k) =~= ms);
    }
}

} // verus!
