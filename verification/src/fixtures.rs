//! Golden frames with evidence tiers, and the hash that binds a fixture set to
//! a transmit authority.
//!
//! A fixture is one frame, its raw bytes, where the bytes came from, and what
//! the decoder makes of them. [`Provenance`] is the evidence tier made into a
//! type: `Captured` is tier `[A]`, measured here; `Documented` is tier `[C]`,
//! third-party reverse engineering.
use vstd::prelude::*;
use crate::units::{LinkKind, spec_link_name};
use crate::saturn::encode::{SaturnOpKind, spec_all_saturn_kinds};
use crate::dtv::encode::{SteamOpKind, spec_all_steam_kinds};

verus! {

/// The evidence tier a fixture carries.
#[derive(Copy, Clone, PartialEq, Eq, PartialOrd, Ord, Hash, Debug, Structural)]
pub enum EvidenceTier {
    /// `[A]` — measured on this hardware.
    A,
    /// `[C]` — reverse-engineered by a third party, unverified here.
    C,
}

impl EvidenceTier {
    /// The tier in the repository's notation: `[A]` or `[C]`.
    pub fn notation(self) -> (s: &'static str)
        ensures
            s == (if self == EvidenceTier::A { "[A]" } else { "[C]" }),
    {
        match self {
            EvidenceTier::A => "[A]",
            EvidenceTier::C => "[C]",
        }
    }
}

/// Where a fixture's bytes came from. There is no third variant.
#[derive(Clone, PartialEq, Eq, Debug)]
pub enum Provenance {
    /// Tier `[A]`: measured on this installation.
    Captured { file: String, offset: u64, phase: u8, scenario: u8, sha256: String },
    /// Tier `[C]`: third-party reverse engineering.
    Documented { source: String, section: String },
}

impl Provenance {
    pub fn tier(&self) -> (t: EvidenceTier)
        ensures
            t == (if self is Captured { EvidenceTier::A } else { EvidenceTier::C }),
    {
        match self {
            Provenance::Captured { .. } => EvidenceTier::A,
            Provenance::Documented { .. } => EvidenceTier::C,
        }
    }

    /// A copy equal to this one.
    pub(crate) fn duplicate(&self) -> (r: Provenance)
        ensures
            r == *self,
    {
        match self {
            Provenance::Captured { file, offset, phase, scenario, sha256 } => Provenance::Captured {
                file: file.clone(),
                offset: *offset,
                phase: *phase,
                scenario: *scenario,
                sha256: sha256.clone(),
            },
            Provenance::Documented { source, section } => Provenance::Documented {
                source: source.clone(),
                section: section.clone(),
            },
        }
    }

    /// True only for tier `[A]`. The predicate the transmit gate reads.
    pub fn is_captured(&self) -> (b: bool)
        ensures
            b == (self is Captured),
    {
        match self {
            Provenance::Captured { .. } => true,
            Provenance::Documented { .. } => false,
        }
    }
}

/// Which way along the link the frame travelled.
#[derive(Copy, Clone, PartialEq, Eq, PartialOrd, Ord, Hash, Debug, Structural)]
pub enum FixtureDirection {
    /// Master to valve, or master to steam device.
    ToDevice,
    /// Valve or steam device to master.
    FromDevice,
}

impl FixtureDirection {
    /// The direction's name: `to-device` or `from-device`.
    pub fn name(self) -> (s: &'static str)
        ensures
            s == (if self == FixtureDirection::ToDevice { "to-device" } else { "from-device" }),
    {
        match self {
            FixtureDirection::ToDevice => "to-device",
            FixtureDirection::FromDevice => "from-device",
        }
    }
}

/// The byte that stands for a direction in the set digest.
pub fn direction_tag(d: FixtureDirection) -> (b: u8)
    ensures
        b == (if d == FixtureDirection::ToDevice { 0u8 } else { 1u8 }),
{
    match d {
        FixtureDirection::ToDevice => 0,
        FixtureDirection::FromDevice => 1,
    }
}

/// A byte a fixture id may contain: lowercase ASCII, a digit, `.` or `_`.
pub open spec fn id_byte_ok(b: u8) -> bool {
    (0x61 <= b <= 0x7A) || (0x30 <= b <= 0x39) || b == 0x2E || b == 0x5F
}

/// The fixture-id rule: non-empty, at most 64 bytes of `[a-z0-9._]`, no
/// leading, trailing or doubled `.`.
pub open spec fn id_ok(s: Seq<u8>) -> bool {
    &&& 0 < s.len() <= FixtureId::MAX_LEN
    &&& forall|i: int| 0 <= i < s.len() ==> id_byte_ok(#[trigger] s[i])
    &&& s[0] != 0x2E
    &&& s[s.len() - 1] != 0x2E
    &&& forall|i: int| 0 <= i < s.len() - 1 ==> !(#[trigger] s[i] == 0x2E && s[i + 1] == 0x2E)
}

/// Why a fixture set would not load.
#[derive(Clone, PartialEq, Eq, Debug)]
pub enum FixtureError {
    Json { file: String, reason: String },
    Hex { id: String, file: String, reason: String },
    BadId { raw: String },
    DuplicateId { id: String },
    FieldTooLong { len: usize },
}

/// A fixture's identifier, validated on construction.
#[derive(Clone, PartialEq, Eq, PartialOrd, Ord, Hash, Debug)]
pub struct FixtureId {
    id: String,
}

/// Checks the fixture-id rule over raw bytes.
pub fn id_bytes_ok(b: &[u8]) -> (ok: bool)
    ensures
        ok == id_ok(b@),
{
    let n = b.len();
    if n == 0 || n > FixtureId::MAX_LEN {
        return false;
    }
    if b[0] == 0x2E || b[n - 1] == 0x2E {
        return false;
    }
    let mut i: usize = 0;
    while i < n
        invariant
            n == b@.len(),
            0 < n <= FixtureId::MAX_LEN,
            i <= n,
            forall|k: int| 0 <= k < i ==> id_byte_ok(#[trigger] b@[k]),
            forall|k: int| 0 <= k < i && k < n - 1 ==> !(#[trigger] b@[k] == 0x2E && b@[k + 1] == 0x2E),
        decreases n - i,
    {
        let c = b[i];
        let byte_ok = (0x61 <= c && c <= 0x7A) || (0x30 <= c && c <= 0x39) || c == 0x2E || c == 0x5F;
        if !byte_ok {
            return false;
        }
        if i + 1 < n && c == 0x2E && b[i + 1] == 0x2E {
            return false;
        }
        i = i + 1;
    }
    true
}

impl FixtureId {
    /// The longest id, in bytes.
    pub const MAX_LEN: usize = 64;

    /// The id's characters.
    pub closed spec fn spec_str(self) -> Seq<char> {
        self.id@
    }

    /// Accepts only ids that follow the rule: a typo in a fixture file is a
    /// load error rather than a fixture that silently answers no lookup.
    pub fn new(raw: String) -> (r: Result<FixtureId, FixtureError>)
        ensures
            r is Ok <==> id_ok(vstd::utf8::encode_utf8(raw@)),
            r matches Ok(f) ==> f.spec_str() == raw@,
            r matches Err(e) ==> e == (FixtureError::BadId { raw }),
    {
        let ok = id_bytes_ok(raw.as_str().as_bytes());
        if ok {
            Ok(FixtureId { id: raw })
        } else {
            Err(FixtureError::BadId { raw })
        }
    }

    pub fn as_str(&self) -> (s: &str)
        ensures
            s@ == self.spec_str(),
    {
        self.id.as_str()
    }

    /// A copy with the same text.
    pub(crate) fn duplicate(&self) -> (r: FixtureId)
        ensures
            r.spec_str() == self.spec_str(),
    {
        FixtureId { id: self.id.clone() }
    }

    /// The id of a text already known to follow the rule.
    pub(crate) fn from_str_checked(raw: &str) -> (r: Option<FixtureId>)
        ensures
            r is Some <==> id_ok(text_bytes(raw@)),
            r matches Some(f) ==> f.spec_str() == raw@,
    {
        match FixtureId::new(raw.to_owned()) {
            Ok(f) => Some(f),
            Err(_) => None,
        }
    }
}

/// The fixture id of a Saturn operation.
pub open spec fn spec_saturn_fixture_id(kind: SaturnOpKind) -> &'static str {
    match kind {
        SaturnOpKind::AllOff => "saturn.all_off",
        SaturnOpKind::SetOutlets => "saturn.set_outlets",
        SaturnOpKind::SetTemperature => "saturn.set_temperature",
        SaturnOpKind::Pause => "saturn.pause",
        SaturnOpKind::Resume => "saturn.resume",
        SaturnOpKind::ReadFirmwareVersion => "saturn.read_firmware_version",
        SaturnOpKind::ReadFirmwareType => "saturn.read_firmware_type",
        SaturnOpKind::ReadOutlets => "saturn.read_outlets",
        SaturnOpKind::ReadTemperature => "saturn.read_temperature",
        SaturnOpKind::ReadFlow => "saturn.read_flow",
        SaturnOpKind::ReadFaults => "saturn.read_faults",
        SaturnOpKind::ReadCalibration => "saturn.read_calibration",
        SaturnOpKind::ReadConfiguration => "saturn.read_configuration",
        SaturnOpKind::ReadSerialNumber => "saturn.read_serial_number",
        SaturnOpKind::ReadGenericOutlets => "saturn.read_generic_outlets",
        SaturnOpKind::ReadExtendedStatus => "saturn.read_extended_status",
        SaturnOpKind::ReadDiagnostics => "saturn.read_diagnostics",
        SaturnOpKind::AddressEnquiry => "saturn.address_enquiry",
        SaturnOpKind::AddressAllocate => "saturn.address_allocate",
        SaturnOpKind::AddressClear => "saturn.address_clear",
    }
}

/// The fixture id of a Saturn operation. Exhaustive over the allowlist, so a
/// new operation cannot compile without one.
pub fn saturn_op_fixture_id(kind: SaturnOpKind) -> (s: &'static str)
    ensures
        s == spec_saturn_fixture_id(kind),
{
    match kind {
        SaturnOpKind::AllOff => "saturn.all_off",
        SaturnOpKind::SetOutlets => "saturn.set_outlets",
        SaturnOpKind::SetTemperature => "saturn.set_temperature",
        SaturnOpKind::Pause => "saturn.pause",
        SaturnOpKind::Resume => "saturn.resume",
        SaturnOpKind::ReadFirmwareVersion => "saturn.read_firmware_version",
        SaturnOpKind::ReadFirmwareType => "saturn.read_firmware_type",
        SaturnOpKind::ReadOutlets => "saturn.read_outlets",
        SaturnOpKind::ReadTemperature => "saturn.read_temperature",
        SaturnOpKind::ReadFlow => "saturn.read_flow",
        SaturnOpKind::ReadFaults => "saturn.read_faults",
        SaturnOpKind::ReadCalibration => "saturn.read_calibration",
        SaturnOpKind::ReadConfiguration => "saturn.read_configuration",
        SaturnOpKind::ReadSerialNumber => "saturn.read_serial_number",
        SaturnOpKind::ReadGenericOutlets => "saturn.read_generic_outlets",
        SaturnOpKind::ReadExtendedStatus => "saturn.read_extended_status",
        SaturnOpKind::ReadDiagnostics => "saturn.read_diagnostics",
        SaturnOpKind::AddressEnquiry => "saturn.address_enquiry",
        SaturnOpKind::AddressAllocate => "saturn.address_allocate",
        SaturnOpKind::AddressClear => "saturn.address_clear",
    }
}

/// The fixture id of a steam operation.
pub open spec fn spec_steam_fixture_id(kind: SteamOpKind) -> &'static str {
    match kind {
        SteamOpKind::Start => "steam.start",
        SteamOpKind::Stop => "steam.stop",
        SteamOpKind::SetTemperature => "steam.set_temperature",
        SteamOpKind::SetDuration => "steam.set_duration",
        SteamOpKind::ReadStatus => "steam.read_status",
        SteamOpKind::ClearFaults => "steam.clear_faults",
        SteamOpKind::AddressOpportunity => "steam.address_opportunity",
        SteamOpKind::AssignAddress => "steam.assign_address",
    }
}

/// The fixture id of a steam operation. Exhaustive over the allowlist.
pub fn steam_op_fixture_id(kind: SteamOpKind) -> (s: &'static str)
    ensures
        s == spec_steam_fixture_id(kind),
{
    match kind {
        SteamOpKind::Start => "steam.start",
        SteamOpKind::Stop => "steam.stop",
        SteamOpKind::SetTemperature => "steam.set_temperature",
        SteamOpKind::SetDuration => "steam.set_duration",
        SteamOpKind::ReadStatus => "steam.read_status",
        SteamOpKind::ClearFaults => "steam.clear_faults",
        SteamOpKind::AddressOpportunity => "steam.address_opportunity",
        SteamOpKind::AssignAddress => "steam.assign_address",
    }
}

/// Every fixture a real-bus transmit needs: one per operation in the two
/// allowlists, Saturn first.
pub open spec fn spec_required_ids() -> Seq<&'static str> {
    spec_all_saturn_kinds().map_values(|k: SaturnOpKind| spec_saturn_fixture_id(k))
        + spec_all_steam_kinds().map_values(|k: SteamOpKind| spec_steam_fixture_id(k))
}

/// The ids of the fixtures a real-bus transmit needs, derived from the two
/// allowlists so a new operation without a fixture fails the evidence check.
pub fn required_transmit_ids() -> (v: Vec<&'static str>)
    ensures
        v@ == spec_required_ids(),
{
    let mut v: Vec<&'static str> = Vec::new();
    let saturn = SaturnOpKind::all();
    let mut i: usize = 0;
    while i < saturn.len()
        invariant
            i <= saturn@.len(),
            saturn@ == spec_all_saturn_kinds(),
            v@ == saturn@.take(i as int).map_values(|k: SaturnOpKind| spec_saturn_fixture_id(k)),
        decreases saturn.len() - i,
    {
        v.push(saturn_op_fixture_id(saturn[i]));
        proof {
            assert(saturn@.take(i + 1) =~= saturn@.take(i as int).push(saturn@[i as int]));
            assert(v@ =~= saturn@.take(i + 1).map_values(|k: SaturnOpKind| spec_saturn_fixture_id(k)));
        }
        i = i + 1;
    }
    proof { assert(saturn@.take(saturn@.len() as int) =~= saturn@); }
    let ghost first = v@;
    let steam = SteamOpKind::all();
    let mut j: usize = 0;
    while j < steam.len()
        invariant
            j <= steam@.len(),
            steam@ == spec_all_steam_kinds(),
            v@ == first + steam@.take(j as int).map_values(|k: SteamOpKind| spec_steam_fixture_id(k)),
        decreases steam.len() - j,
    {
        v.push(steam_op_fixture_id(steam[j]));
        proof {
            assert(steam@.take(j + 1) =~= steam@.take(j as int).push(steam@[j as int]));
            assert(v@ =~= first + steam@.take(j + 1).map_values(|k: SteamOpKind| spec_steam_fixture_id(k)));
        }
        j = j + 1;
    }
    proof { assert(steam@.take(steam@.len() as int) =~= steam@); }
    v
}

/// One recorded frame. No public constructor: the evidence base is not
/// something a caller assembles.
#[derive(Clone, PartialEq, Eq, Debug)]
pub struct Fixture {
    id: FixtureId,
    link: LinkKind,
    direction: FixtureDirection,
    bytes: Vec<u8>,
    provenance: Provenance,
    /// The decoder's reading, as canonical (key-sorted) JSON text.
    decoded: String,
}

impl Fixture {
    pub closed spec fn spec_id(self) -> FixtureId { self.id }
    pub closed spec fn spec_link(self) -> LinkKind { self.link }
    pub closed spec fn spec_direction(self) -> FixtureDirection { self.direction }
    pub closed spec fn spec_bytes(self) -> Seq<u8> { self.bytes@ }
    pub closed spec fn spec_provenance(self) -> Provenance { self.provenance }
    pub closed spec fn spec_decoded(self) -> Seq<char> { self.decoded@ }

    /// Assembles a fixture from its parsed parts. Crate-private: only the
    /// loader builds fixtures.
    pub(crate) fn from_parts(id: FixtureId, link: LinkKind, direction: FixtureDirection, bytes: Vec<u8>, provenance: Provenance, decoded: String) -> (f: Fixture)
        ensures
            f.spec_id() == id,
            f.spec_link() == link,
            f.spec_direction() == direction,
            f.spec_bytes() == bytes@,
            f.spec_provenance() == provenance,
            f.spec_decoded() == decoded@,
    {
        Fixture { id, link, direction, bytes, provenance, decoded }
    }

    pub fn id(&self) -> (r: &FixtureId)
        ensures
            *r == self.spec_id(),
    {
        &self.id
    }

    pub fn link(&self) -> (r: LinkKind)
        ensures
            r == self.spec_link(),
    {
        self.link
    }

    pub fn direction(&self) -> (r: FixtureDirection)
        ensures
            r == self.spec_direction(),
    {
        self.direction
    }

    /// The raw frame. Evidence, not a frame: there is no route from these
    /// bytes to anything a link will transmit.
    pub fn bytes(&self) -> (r: &[u8])
        ensures
            r@ == self.spec_bytes(),
    {
        self.bytes.as_slice()
    }

    pub fn provenance(&self) -> (r: &Provenance)
        ensures
            *r == self.spec_provenance(),
    {
        &self.provenance
    }

    pub fn tier(&self) -> (t: EvidenceTier)
        ensures
            t == (if self.spec_provenance() is Captured { EvidenceTier::A } else { EvidenceTier::C }),
    {
        self.provenance.tier()
    }

    /// The decoder's reading of the bytes, recorded in the fixture file, as
    /// canonical JSON text.
    pub fn decoded(&self) -> (r: &str)
        ensures
            r@ == self.spec_decoded(),
    {
        self.decoded.as_str()
    }
}

/// The compiled-in evidence base, ordered by id.
#[derive(Clone, PartialEq, Eq, Debug)]
pub struct FixtureSet {
    fixtures: Vec<Fixture>,
    sha256: [u8; 32],
}

/// `sorted` holds exactly the fixtures of `input`, in strictly increasing id
/// order.
pub open spec fn sorted_from(input: Seq<Fixture>, sorted: Seq<Fixture>) -> bool {
    &&& strictly_sorted(sorted)
    &&& sorted.len() == input.len()
    &&& forall|i: int| 0 <= i < input.len() ==> sorted.contains(input[i])
    &&& forall|k: int| 0 <= k < sorted.len() ==> input.contains(sorted[k])
}

/// What building a set from `input` gives: the smallest duplicated id if
/// there is one; otherwise the fixtures sorted by id and hashed, or, when a
/// field is too long for the digest's length prefix, the first such field in
/// that order.
pub open spec fn from_fixtures_outcome(input: Seq<Fixture>, r: Result<FixtureSet, FixtureError>) -> bool {
    &&& has_duplicate_id(input) ==> (r matches Err(FixtureError::DuplicateId { id }) && duplicated_key(
        input,
        text_bytes(id@),
    ) && forall|k: Seq<u8>| duplicated_key(input, k) ==> !lex_lt(k, text_bytes(id@)))
    &&& !has_duplicate_id(input) ==> exists|sorted: Seq<Fixture>|
        #[trigger] sorted_from(input, sorted) && match first_too_long(all_fields(sorted)) {
            Some(n) => r == Err::<FixtureSet, FixtureError>(FixtureError::FieldTooLong { len: n as usize }),
            None => r matches Ok(set) && set.spec_fixtures() == sorted,
        }
    &&& r matches Ok(set) ==> strictly_sorted(set.spec_fixtures())
        && set.spec_fixtures().len() == input.len()
        && (forall|i: int| 0 <= i < input.len() ==> set.spec_fixtures().contains(input[i]))
        && (forall|k: int| 0 <= k < set.spec_fixtures().len() ==> input.contains(set.spec_fixtures()[k]))
        && set.spec_sha256() == sha256_of(digest_input(set.spec_fixtures()))
}

/// One fixture as a fixture file records it, its text fields not yet checked.
#[derive(Clone, PartialEq, Eq, Debug)]
pub struct RawFixture {
    /// The file it was read from, for the error message.
    pub file: String,
    pub id: String,
    pub link: LinkKind,
    pub direction: FixtureDirection,
    /// The frame as hex text, no separators.
    pub bytes: String,
    pub provenance: Provenance,
    /// The decoder's reading, as canonical JSON text.
    pub decoded: String,
}

/// A raw fixture whose id follows the rule and whose bytes are hex.
pub open spec fn raw_fixture_ok(x: RawFixture) -> bool {
    id_ok(text_bytes(x.id@)) && spec_hex_decode(text_bytes(x.bytes@)) is Some
}

/// The error loading reports for a raw fixture that is not ok: its id first,
/// then its bytes.
pub open spec fn raw_fixture_error(x: RawFixture, r: Result<FixtureSet, FixtureError>) -> bool {
    if !id_ok(text_bytes(x.id@)) {
        r == Err::<FixtureSet, FixtureError>(FixtureError::BadId { raw: x.id })
    } else {
        r matches Err(FixtureError::Hex { id, file, .. }) && id@ == x.id@ && file@ == x.file@
    }
}

/// `f` is what loading makes of `x`.
pub open spec fn parsed_from(f: Fixture, x: RawFixture) -> bool {
    &&& f.spec_id().spec_str() == x.id@
    &&& f.spec_link() == x.link
    &&& f.spec_direction() == x.direction
    &&& spec_hex_decode(text_bytes(x.bytes@)) == Some(f.spec_bytes())
    &&& f.spec_provenance() == x.provenance
    &&& f.spec_decoded() == x.decoded@
}

/// What loading raw fixtures gives: the error of the first one that is not
/// ok, or else the set built from all of them.
pub open spec fn load_outcome(raw: Seq<RawFixture>, r: Result<FixtureSet, FixtureError>) -> bool {
    &&& forall|i: int| 0 <= i < raw.len() && !raw_fixture_ok(#[trigger] raw[i]) && (forall|j: int|
        0 <= j < i ==> raw_fixture_ok(raw[j])) ==> raw_fixture_error(raw[i], r)
    &&& (forall|i: int| 0 <= i < raw.len() ==> raw_fixture_ok(#[trigger] raw[i])) ==> exists|parsed: Seq<
        Fixture,
    >|
        parsed.len() == raw.len() && (forall|i: int| 0 <= i < raw.len() ==> parsed_from(#[trigger] parsed[i], raw[i]))
            && from_fixtures_outcome(parsed, r)
}

impl FixtureSet {
    pub closed spec fn spec_fixtures(self) -> Seq<Fixture> {
        self.fixtures@
    }

    pub closed spec fn spec_sha256(self) -> Seq<u8> {
        self.sha256@
    }

    /// The empty set. Its digest is all-zero and matches no configured pin,
    /// so a set that failed to load closes the transmit gate.
    pub fn empty() -> (s: FixtureSet)
        ensures
            s.spec_fixtures().len() == 0,
            s.spec_sha256() == Seq::new(32, |i: int| 0u8),
    {
        let s = FixtureSet { fixtures: Vec::new(), sha256: [0u8; 32] };
        proof { assert(s.sha256@ =~= Seq::new(32, |i: int| 0u8)); }
        s
    }

    /// Builds a set: refuses two fixtures with one id (naming the smallest
    /// such id), sorts by id, and hashes.
    pub fn from_fixtures(fixtures: Vec<Fixture>) -> (r: Result<FixtureSet, FixtureError>)
        ensures
            from_fixtures_outcome(fixtures@, r),
    {
        match smallest_duplicate(&fixtures) {
            Some(i) => {
                let id = fixtures[i].id.as_str().to_owned();
                return Err(FixtureError::DuplicateId { id });
            },
            None => {},
        }
        let order = order_by_id(&fixtures);
        let ghost input = fixtures@;
        let sorted = arrange(fixtures, &order);
        proof {
            assert forall|i: int, j: int| 0 <= i < j < sorted@.len() implies lex_lt(id_key(sorted@[i]), id_key(sorted@[j])) by {
                assert(sorted@[i] == input[order@[i] as int]);
                assert(sorted@[j] == input[order@[j] as int]);
            }
            assert forall|i: int| 0 <= i < input.len() implies sorted@.contains(input[i]) by {
                assert(in_order(order@, i));
                let a = choose|a: int| 0 <= a < order@.len() && order@[a] == i;
                assert(sorted@[a] == input[i]);
            }
            assert forall|k: int| 0 <= k < sorted@.len() implies input.contains(sorted@[k]) by {
                assert(sorted@[k] == input[order@[k] as int]);
            }
        }
        let ghost arranged = sorted@;
        assert(sorted_from(input, arranged));
        match digest_input_of(&sorted) {
            Ok(input) => {
                let sha256 = sha256_digest(input.as_slice());
                Ok(FixtureSet { fixtures: sorted, sha256 })
            },
            Err(e) => Err(e),
        }
    }

    /// Loads a set from fixture-file entries, in file order: checks each id
    /// and decodes each frame's hex, then builds the set. Stops at the first
    /// entry that fails; half an evidence base is not evidence.
    pub fn load(raw: Vec<RawFixture>) -> (r: Result<FixtureSet, FixtureError>)
        ensures
            load_outcome(raw@, r),
    {
        let mut fixtures: Vec<Fixture> = Vec::new();
        let mut i: usize = 0;
        while i < raw.len()
            invariant
                i <= raw.len(),
                fixtures@.len() == i,
                forall|k: int| 0 <= k < i ==> raw_fixture_ok(#[trigger] raw@[k]),
                forall|k: int| 0 <= k < i ==> parsed_from(#[trigger] fixtures@[k], raw@[k]),
            decreases raw.len() - i,
        {
            let x = &raw[i];
            let id = match FixtureId::new(x.id.clone()) {
                Ok(id) => id,
                Err(e) => {
                    proof {
                        assert(!raw_fixture_ok(raw@[i as int]));
                    }
                    return Err(e);
                },
            };
            let bytes = match hex_decode(x.bytes.as_str()) {
                Ok(b) => b,
                Err(reason) => {
                    proof {
                        assert(!raw_fixture_ok(raw@[i as int]));
                    }
                    return Err(FixtureError::Hex { id: x.id.clone(), file: x.file.clone(), reason });
                },
            };
            let f = Fixture::from_parts(id, x.link, x.direction, bytes, x.provenance.duplicate(), x.decoded.clone());
            fixtures.push(f);
            i = i + 1;
        }
        let ghost parsed = fixtures@;
        let r = FixtureSet::from_fixtures(fixtures);
        proof {
            assert(parsed.len() == raw@.len() && (forall|k: int| 0 <= k < raw@.len() ==> parsed_from(#[trigger] parsed[k], raw@[k])));
        }
        r
    }

    /// SHA-256 over the whole set.
    pub fn sha256(&self) -> (h: [u8; 32])
        ensures
            h@ == self.spec_sha256(),
    {
        self.sha256
    }

    pub fn len(&self) -> (n: usize)
        ensures
            n == self.spec_fixtures().len(),
    {
        self.fixtures.len()
    }

    /// The digest, as lowercase hex.
    pub fn sha256_hex(&self) -> (s: String)
        ensures
            s@ == spec_hex(self.spec_sha256()),
    {
        hex_encode(&self.sha256)
    }

    /// Every fixture, in id order.
    pub fn fixtures(&self) -> (v: &[Fixture])
        ensures
            v@ == self.spec_fixtures(),
    {
        self.fixtures.as_slice()
    }

    /// The fixture with this id.
    pub fn get(&self, id: &str) -> (r: Option<&Fixture>)
        ensures
            r matches Some(f) ==> (exists|i: int| 0 <= i < self.spec_fixtures().len() && self.spec_fixtures()[i] == *f
                && forall|k: int| 0 <= k < i ==> id_key(#[trigger] self.spec_fixtures()[k]) != text_bytes(id@)),
            r matches Some(f) ==> self.spec_fixtures().contains(*f) && id_key(*f) == text_bytes(id@),
            match r {
                Some(f) => find_first(self.spec_fixtures(), text_bytes(id@)) == Some(*f),
                None => find_first(self.spec_fixtures(), text_bytes(id@)) is None,
            },
            r is None <==> forall|i: int| 0 <= i < self.spec_fixtures().len() ==> id_key(#[trigger] self.spec_fixtures()[i]) != text_bytes(id@),
    {
        let key = id.as_bytes();
        let mut i: usize = 0;
        while i < self.fixtures.len()
            invariant
                i <= self.fixtures@.len(),
                key@ == text_bytes(id@),
                forall|k: int| 0 <= k < i ==> id_key(#[trigger] self.fixtures@[k]) != text_bytes(id@),
            decreases self.fixtures.len() - i,
        {
            if bytes_eq(self.fixtures[i].id.as_str().as_bytes(), key) {
                proof {
                    assert(id_key(self.spec_fixtures()[i as int]) == text_bytes(id@));
                    let fs = self.spec_fixtures();
                    let c = choose|j: int| 0 <= j < fs.len() && id_key(fs[j]) == text_bytes(id@) && forall|k: int| 0 <= k < j ==> id_key(#[trigger] fs[k]) != text_bytes(id@);
                    if c < i { assert(id_key(fs[c]) != text_bytes(id@)); }
                    if c > i { assert(id_key(fs[i as int]) != text_bytes(id@)); }
                }
                return Some(&self.fixtures[i]);
            }
            i = i + 1;
        }
        None
    }

    /// The ids of the fixtures that rest on documentation alone, in id order.
    pub fn documented_only(&self) -> (v: Vec<&FixtureId>)
        ensures
            v@.map_values(|r: &FixtureId| *r) == documented_ids(self.spec_fixtures()),
    {
        let mut v: Vec<&FixtureId> = Vec::new();
        let mut i: usize = 0;
        while i < self.fixtures.len()
            invariant
                i <= self.fixtures@.len(),
                v@.map_values(|r: &FixtureId| *r) == documented_ids(self.fixtures@.take(i as int)),
            decreases self.fixtures.len() - i,
        {
            proof { assert(self.fixtures@.take(i + 1).drop_last() =~= self.fixtures@.take(i as int)); }
            if !self.fixtures[i].provenance.is_captured() {
                v.push(&self.fixtures[i].id);
            }
            proof {
                assert(v@.map_values(|r: &FixtureId| *r) =~= documented_ids(self.fixtures@.take(i + 1)));
            }
            i = i + 1;
        }
        proof { assert(self.fixtures@.take(self.fixtures@.len() as int) =~= self.fixtures@); }
        v
    }

    /// The ids of the captured fixtures, in id order.
    pub fn captured_only(&self) -> (v: Vec<&FixtureId>)
        ensures
            v@.map_values(|r: &FixtureId| *r) == captured_ids(self.spec_fixtures()),
    {
        let mut v: Vec<&FixtureId> = Vec::new();
        let mut i: usize = 0;
        while i < self.fixtures.len()
            invariant
                i <= self.fixtures@.len(),
                v@.map_values(|r: &FixtureId| *r) == captured_ids(self.fixtures@.take(i as int)),
            decreases self.fixtures.len() - i,
        {
            proof { assert(self.fixtures@.take(i + 1).drop_last() =~= self.fixtures@.take(i as int)); }
            if self.fixtures[i].provenance.is_captured() {
                v.push(&self.fixtures[i].id);
            }
            proof {
                assert(v@.map_values(|r: &FixtureId| *r) =~= captured_ids(self.fixtures@.take(i + 1)));
            }
            i = i + 1;
        }
        proof { assert(self.fixtures@.take(self.fixtures@.len() as int) =~= self.fixtures@); }
        v
    }

    /// How many fixtures rest on each tier, for the tiers that occur, `[A]`
    /// first.
    pub fn tier_counts(&self) -> (v: Vec<(EvidenceTier, usize)>)
        ensures
            ({
                let a = captured_ids(self.spec_fixtures()).len();
                let c = documented_ids(self.spec_fixtures()).len();
                v@ == (if a > 0 { seq![(EvidenceTier::A, a as usize)] } else { Seq::empty() })
                    + (if c > 0 { seq![(EvidenceTier::C, c as usize)] } else { Seq::empty() })
            }),
    {
        let a = self.captured_only().len();
        let c = self.documented_only().len();
        let mut v: Vec<(EvidenceTier, usize)> = Vec::new();
        if a > 0 {
            v.push((EvidenceTier::A, a));
        }
        if c > 0 {
            v.push((EvidenceTier::C, c));
        }
        proof {
            let sa = captured_ids(self.spec_fixtures()).len();
            let sc = documented_ids(self.spec_fixtures()).len();
            assert(v@ =~= (if sa > 0 { seq![(EvidenceTier::A, sa as usize)] } else { Seq::empty() })
                + (if sc > 0 { seq![(EvidenceTier::C, sc as usize)] } else { Seq::empty() }));
        }
        v
    }

    pub fn is_empty(&self) -> (b: bool)
        ensures
            b == (self.spec_fixtures().len() == 0),
    {
        self.fixtures.len() == 0
    }
}

/// What SHA-256 makes of a byte string.
pub uninterp spec fn sha256_of(data: Seq<u8>) -> Seq<u8>;

/// `sha2::Sha256::digest`: the 32-byte SHA-256 of `data`.
#[verifier::external_body]
fn sha256_digest(data: &[u8]) -> (h: [u8; 32])
    ensures
        h@ == sha256_of(data@),
{
    <sha2::Sha256 as sha2::Digest>::digest(data).into()
}

/// The lowercase hex digit of a nibble.
pub open spec fn hex_digit(n: u8) -> char {
    if n < 10 {
        (('0' as u8) + n) as char
    } else {
        (('a' as u8) + n - 10) as char
    }
}

/// Lowercase hex, two digits per byte, high nibble first.
pub open spec fn spec_hex(data: Seq<u8>) -> Seq<char>
    decreases data.len(),
{
    if data.len() == 0 {
        Seq::empty()
    } else {
        spec_hex(data.drop_last()) + seq![hex_digit(data.last() / 16), hex_digit(data.last() % 16)]
    }
}

/// `hex::encode`: lowercase hex, two digits per byte.
#[verifier::external_body]
pub(crate) fn hex_encode(data: &[u8]) -> (s: String)
    ensures
        s@ == spec_hex(data@),
{
    hex::encode(data)
}

/// The value of one hex digit, either case.
pub open spec fn hex_val(c: u8) -> Option<u8> {
    if 0x30 <= c <= 0x39 {
        Some((c - 0x30) as u8)
    } else if 0x61 <= c <= 0x66 {
        Some((c - 0x61 + 10) as u8)
    } else if 0x41 <= c <= 0x46 {
        Some((c - 0x41 + 10) as u8)
    } else {
        None
    }
}

/// Hex text to bytes, two digits a byte, high first; `None` for an odd
/// length or a byte that is not a hex digit.
pub open spec fn spec_hex_decode(t: Seq<u8>) -> Option<Seq<u8>>
    decreases t.len(),
{
    if t.len() % 2 == 1 {
        None
    } else if t.len() == 0 {
        Some(Seq::empty())
    } else {
        match (hex_val(t[t.len() - 2]), hex_val(t[t.len() - 1]), spec_hex_decode(t.subrange(0, t.len() - 2))) {
            (Some(h), Some(l), Some(rest)) => Some(rest.push((h * 16 + l) as u8)),
            _ => None,
        }
    }
}

/// `hex::decode`: the bytes of hex text, or the crate's message where it
/// refuses. What the message says is not stated.
#[verifier::external_body]
pub(crate) fn hex_decode(s: &str) -> (r: Result<Vec<u8>, String>)
    ensures
        r is Err <==> spec_hex_decode(text_bytes(s@)) is None,
        r matches Ok(v) ==> Some(v@) == spec_hex_decode(text_bytes(s@)),
{
    match hex::decode(s) {
        Ok(v) => Ok(v),
        Err(e) => Err(e.to_string()),
    }
}

/// The tag the set digest starts with: `kdtv-proto/fixtures/v1`.
pub open spec fn digest_domain() -> Seq<u8> {
    seq![
        0x6bu8, 0x64, 0x74, 0x76, 0x2d, 0x70, 0x72, 0x6f, 0x74, 0x6f, 0x2f, 0x66, 0x69, 0x78, 0x74,
        0x75, 0x72, 0x65, 0x73, 0x2f, 0x76, 0x31,
    ]
}

const DIGEST_DOMAIN: [u8; 22] = [
    0x6b, 0x64, 0x74, 0x76, 0x2d, 0x70, 0x72, 0x6f, 0x74, 0x6f, 0x2f, 0x66, 0x69, 0x78, 0x74, 0x75,
    0x72, 0x65, 0x73, 0x2f, 0x76, 0x31,
];

/// A 32-bit length, little-endian.
pub open spec fn le32(n: u32) -> Seq<u8> {
    seq![(n & 0xff) as u8, ((n >> 8) & 0xff) as u8, ((n >> 16) & 0xff) as u8, ((n >> 24) & 0xff) as u8]
}

/// A 64-bit value, little-endian.
pub open spec fn le64(n: u64) -> Seq<u8> {
    seq![
        (n & 0xff) as u8, ((n >> 8) & 0xff) as u8, ((n >> 16) & 0xff) as u8, ((n >> 24) & 0xff) as u8,
        ((n >> 32) & 0xff) as u8, ((n >> 40) & 0xff) as u8, ((n >> 48) & 0xff) as u8, ((n >> 56) & 0xff) as u8,
    ]
}

/// The UTF-8 bytes of a text.
pub open spec fn text_bytes(s: Seq<char>) -> Seq<u8> {
    vstd::utf8::encode_utf8(s)
}

/// The fields one fixture contributes to the set digest, in order.
pub open spec fn fixture_fields(f: Fixture) -> Seq<Seq<u8>> {
    seq![
        text_bytes(f.spec_id().spec_str()),
        text_bytes(spec_link_name(f.spec_link())@),
        seq![if f.spec_direction() == FixtureDirection::ToDevice { 0u8 } else { 1u8 }],
        f.spec_bytes(),
    ] + match f.spec_provenance() {
        Provenance::Captured { file, offset, phase, scenario, sha256 } => seq![
            text_bytes("captured"@),
            text_bytes(file@),
            le64(offset),
            seq![phase, scenario],
            text_bytes(sha256@),
        ],
        Provenance::Documented { source, section } => seq![
            text_bytes("documented"@),
            text_bytes(source@),
            text_bytes(section@),
        ],
    } + seq![text_bytes(f.spec_decoded())]
}

/// Every field of a run of fixtures, in order.
pub open spec fn all_fields(fs: Seq<Fixture>) -> Seq<Seq<u8>>
    decreases fs.len(),
{
    if fs.len() == 0 {
        Seq::empty()
    } else {
        all_fields(fs.drop_last()) + fixture_fields(fs.last())
    }
}

/// Each field framed by its 32-bit little-endian length.
pub open spec fn framed(fields: Seq<Seq<u8>>) -> Seq<u8>
    decreases fields.len(),
{
    if fields.len() == 0 {
        Seq::empty()
    } else {
        framed(fields.drop_last()) + le32(fields.last().len() as u32) + fields.last()
    }
}

/// The length of the first field too long to frame, if any.
pub open spec fn first_too_long(fields: Seq<Seq<u8>>) -> Option<nat>
    decreases fields.len(),
{
    if fields.len() == 0 {
        None
    } else {
        match first_too_long(fields.drop_last()) {
            Some(n) => Some(n),
            None => if fields.last().len() > u32::MAX {
                Some(fields.last().len())
            } else {
                None
            },
        }
    }
}

/// What the set digest hashes: the domain tag, then every field framed.
pub open spec fn digest_input(fs: Seq<Fixture>) -> Seq<u8> {
    digest_domain() + framed(all_fields(fs))
}

/// The 32-bit little-endian form of a length names the length.
proof fn lemma_le32_injective(n: u32, m: u32)
    requires
        le32(n) == le32(m),
    ensures
        n == m,
{
    assert(le32(n)[0] == le32(m)[0] && le32(n)[1] == le32(m)[1] && le32(n)[2] == le32(m)[2]
        && le32(n)[3] == le32(m)[3]);
    assert(((n & 0xff) as u8 == (m & 0xff) as u8 && ((n >> 8) & 0xff) as u8 == ((m >> 8) & 0xff) as u8
        && ((n >> 16) & 0xff) as u8 == ((m >> 16) & 0xff) as u8 && ((n >> 24) & 0xff) as u8 == ((m
        >> 24) & 0xff) as u8) ==> n == m) by (bit_vector);
}

/// Framing read from the front: the first field's length, the field, then
/// the rest.
proof fn lemma_framed_front(fields: Seq<Seq<u8>>)
    requires
        fields.len() > 0,
    ensures
        framed(fields) == le32(fields[0].len() as u32) + fields[0] + framed(fields.skip(1)),
{
    let head = seq![fields[0]];
    assert(fields =~= head + fields.skip(1));
    lemma_framed_append(head, fields.skip(1));
    assert(head.drop_last() =~= Seq::<Seq<u8>>::empty());
    assert(framed(head.drop_last()) =~= Seq::<u8>::empty());
    assert(head.last() == fields[0]);
    assert(framed(head) =~= le32(fields[0].len() as u32) + fields[0]);
    assert(framed(fields) =~= le32(fields[0].len() as u32) + fields[0] + framed(fields.skip(1)));
}

/// **Framing is unambiguous.** Two runs of fields, each field short enough
/// to frame, give the same framed bytes only when they are the same fields:
/// no two runs can be made to read alike by moving bytes across a boundary.
pub proof fn lemma_framed_injective(x: Seq<Seq<u8>>, y: Seq<Seq<u8>>)
    requires
        first_too_long(x) is None,
        first_too_long(y) is None,
        framed(x) == framed(y),
    ensures
        x == y,
    decreases x.len(),
{
    if x.len() == 0 {
        assert(framed(x) =~= Seq::<u8>::empty());
        if y.len() > 0 {
            lemma_framed_front(y);
            assert(framed(y).len() >= 4);
        }
        assert(y.len() == 0);
        assert(x =~= y);
    } else if y.len() == 0 {
        assert(framed(y) =~= Seq::<u8>::empty());
        lemma_framed_front(x);
        assert(framed(x).len() >= 4);
    } else {
        lemma_framed_front(x);
        lemma_framed_front(y);
        lemma_too_long_bounds(x);
        lemma_too_long_bounds(y);
        let fx = framed(x);
        let lx = x[0].len() as u32;
        let ly = y[0].len() as u32;
        assert(le32(lx) =~= fx.take(4));
        assert(le32(ly) =~= fx.take(4));
        lemma_le32_injective(lx, ly);
        assert(x[0].len() == y[0].len());
        let n = x[0].len() as int;
        assert(x[0] =~= fx.subrange(4, 4 + n));
        assert(y[0] =~= fx.subrange(4, 4 + n));
        assert(framed(x.skip(1)) =~= fx.skip(4 + n));
        assert(framed(y.skip(1)) =~= fx.skip(4 + n));
        lemma_too_long_skip(x);
        lemma_too_long_skip(y);
        lemma_framed_injective(x.skip(1), y.skip(1));
        assert(x =~= seq![x[0]] + x.skip(1));
        assert(y =~= seq![y[0]] + y.skip(1));
        assert(x =~= y);
    }
}

/// Every field of a run with none too long fits in 32 bits.
proof fn lemma_too_long_bounds(fields: Seq<Seq<u8>>)
    requires
        first_too_long(fields) is None,
    ensures
        forall|i: int| 0 <= i < fields.len() ==> (#[trigger] fields[i]).len() <= u32::MAX,
    decreases fields.len(),
{
    if fields.len() > 0 {
        lemma_too_long_bounds(fields.drop_last());
        assert forall|i: int| 0 <= i < fields.len() implies (#[trigger] fields[i]).len() <= u32::MAX by {
            if i < fields.len() - 1 {
                assert(fields[i] == fields.drop_last()[i]);
            }
        }
    }
}

/// Dropping the first field keeps a run free of over-long fields.
proof fn lemma_too_long_skip(fields: Seq<Seq<u8>>)
    requires
        fields.len() > 0,
        first_too_long(fields) is None,
    ensures
        first_too_long(fields.skip(1)) is None,
{
    let head = seq![fields[0]];
    assert(fields =~= head + fields.skip(1));
    lemma_framed_append(head, fields.skip(1));
}

/// **The set digest is unambiguous.** Fixture runs whose fields differ feed
/// the hasher different bytes, because every field is length-prefixed rather
/// than run together.
pub proof fn lemma_digest_input_unambiguous(a: Seq<Fixture>, b: Seq<Fixture>)
    requires
        first_too_long(all_fields(a)) is None,
        first_too_long(all_fields(b)) is None,
        all_fields(a) != all_fields(b),
    ensures
        digest_input(a) != digest_input(b),
{
    if digest_input(a) == digest_input(b) {
        let d = digest_domain().len() as int;
        assert(framed(all_fields(a)) =~= digest_input(a).skip(d));
        assert(framed(all_fields(b)) =~= digest_input(b).skip(d));
        lemma_framed_injective(all_fields(a), all_fields(b));
    }
}

proof fn lemma_framed_append(a: Seq<Seq<u8>>, b: Seq<Seq<u8>>)
    ensures
        framed(a + b) == framed(a) + framed(b),
        first_too_long(a + b) == (match first_too_long(a) {
            Some(n) => Some(n),
            None => first_too_long(b),
        }),
    decreases b.len(),
{
    if b.len() == 0 {
        assert(a + b =~= a);
        assert(framed(a) + framed(b) =~= framed(a));
    } else {
        assert((a + b).drop_last() =~= a + b.drop_last());
        lemma_framed_append(a, b.drop_last());
        assert(framed(a + b) =~= framed(a) + framed(b));
    }
}

fn copy_bytes(s: &[u8]) -> (v: Vec<u8>)
    ensures
        v@ == s@,
{
    let mut v: Vec<u8> = Vec::new();
    let mut i: usize = 0;
    while i < s.len()
        invariant
            i <= s.len(),
            v@ == s@.take(i as int),
        decreases s.len() - i,
    {
        v.push(s[i]);
        proof { assert(s@.take(i + 1) =~= s@.take(i as int).push(s@[i as int])); }
        i = i + 1;
    }
    proof { assert(s@.take(s.len() as int) =~= s@); }
    v
}

fn u64_le(n: u64) -> (v: Vec<u8>)
    ensures
        v@ == le64(n),
{
    let mut v: Vec<u8> = Vec::new();
    v.push((n & 0xff) as u8);
    v.push(((n >> 8) & 0xff) as u8);
    v.push(((n >> 16) & 0xff) as u8);
    v.push(((n >> 24) & 0xff) as u8);
    v.push(((n >> 32) & 0xff) as u8);
    v.push(((n >> 40) & 0xff) as u8);
    v.push(((n >> 48) & 0xff) as u8);
    v.push(((n >> 56) & 0xff) as u8);
    proof { assert(v@ =~= le64(n)); }
    v
}

/// The fields of one fixture, as owned byte strings.
fn fields_of(f: &Fixture) -> (v: Vec<Vec<u8>>)
    ensures
        v@.map_values(|x: Vec<u8>| x@) == fixture_fields(*f),
{
    let mut v: Vec<Vec<u8>> = Vec::new();
    v.push(copy_bytes(f.id.as_str().as_bytes()));
    v.push(copy_bytes(f.link.name().as_bytes()));
    let mut tag: Vec<u8> = Vec::new();
    tag.push(direction_tag(f.direction));
    v.push(tag);
    v.push(copy_bytes(f.bytes.as_slice()));
    let ghost head = fixture_fields(*f).take(4);
    proof {
        assert(v@[0]@ == head[0]);
        assert(v@[1]@ == head[1]);
        assert(v@[2]@ == head[2]);
        assert(v@[3]@ == head[3]);
        assert(v@.map_values(|x: Vec<u8>| x@) =~= head);
    }
    match &f.provenance {
        Provenance::Captured { file, offset, phase, scenario, sha256 } => {
            v.push(copy_bytes("captured".as_bytes()));
            v.push(copy_bytes(file.as_str().as_bytes()));
            v.push(u64_le(*offset));
            let mut ps: Vec<u8> = Vec::new();
            ps.push(*phase);
            ps.push(*scenario);
            v.push(ps);
            v.push(copy_bytes(sha256.as_str().as_bytes()));
            proof {
                let ff = fixture_fields(*f);
                assert(ff[4] == text_bytes("captured"@));
                assert(v@[4]@ == ff[4]);
                assert(v@[5]@ == ff[5]);
                assert(v@[6]@ == ff[6]);
                assert(v@[7]@ == ff[7]);
                assert(v@[8]@ == ff[8]);
                assert(v@.map_values(|x: Vec<u8>| x@) =~= fixture_fields(*f).take(9));
            }
        },
        Provenance::Documented { source, section } => {
            v.push(copy_bytes("documented".as_bytes()));
            v.push(copy_bytes(source.as_str().as_bytes()));
            v.push(copy_bytes(section.as_str().as_bytes()));
            proof {
                assert(v@.map_values(|x: Vec<u8>| x@) =~= fixture_fields(*f).take(7));
            }
        },
    }
    v.push(copy_bytes(f.decoded.as_str().as_bytes()));
    proof {
        assert(v@.map_values(|x: Vec<u8>| x@) =~= fixture_fields(*f));
    }
    v
}

/// Appends one framed field, or refuses a field longer than a 32-bit length.
fn push_field(input: &mut Vec<u8>, field: &[u8]) -> (r: Result<(), FixtureError>)
    ensures
        field@.len() <= u32::MAX ==> r is Ok && final(input)@ == old(input)@ + le32(field@.len() as u32) + field@,
        field@.len() > u32::MAX ==> r == Err::<(), FixtureError>(FixtureError::FieldTooLong { len: field@.len() as usize })
            && final(input)@ == old(input)@,
{
    if field.len() > 0xFFFF_FFFF {
        return Err(FixtureError::FieldTooLong { len: field.len() });
    }
    let n: u32 = field.len() as u32;
    let ghost start = input@;
    input.push((n & 0xff) as u8);
    input.push(((n >> 8) & 0xff) as u8);
    input.push(((n >> 16) & 0xff) as u8);
    input.push(((n >> 24) & 0xff) as u8);
    let ghost mid = input@;
    proof { assert(mid =~= start + le32(n)); }
    let mut i: usize = 0;
    while i < field.len()
        invariant
            i <= field.len(),
            input@ == mid + field@.take(i as int),
        decreases field.len() - i,
    {
        input.push(field[i]);
        proof { assert(field@.take(i + 1) =~= field@.take(i as int).push(field@[i as int])); }
        i = i + 1;
    }
    proof { assert(field@.take(field.len() as int) =~= field@); }
    Ok(())
}

/// The bytes the set digest hashes, or the first field too long to frame.
fn digest_input_of(fixtures: &Vec<Fixture>) -> (r: Result<Vec<u8>, FixtureError>)
    ensures
        match first_too_long(all_fields(fixtures@)) {
            Some(n) => r == Err::<Vec<u8>, FixtureError>(FixtureError::FieldTooLong { len: n as usize }),
            None => r matches Ok(v) && v@ == digest_input(fixtures@),
        },
{
    let mut input: Vec<u8> = copy_bytes(&DIGEST_DOMAIN);
    proof { assert(input@ =~= digest_domain()); }
    let mut i: usize = 0;
    while i < fixtures.len()
        invariant
            i <= fixtures@.len(),
            first_too_long(all_fields(fixtures@.take(i as int))) is None,
            input@ == digest_domain() + framed(all_fields(fixtures@.take(i as int))),
        decreases fixtures.len() - i,
    {
        let fields = fields_of(&fixtures[i]);
        let ghost before = all_fields(fixtures@.take(i as int));
        let ghost ff = fixture_fields(fixtures@[i as int]);
        proof {
            assert(fixtures@.take(i + 1).drop_last() =~= fixtures@.take(i as int));
            assert(all_fields(fixtures@.take(i + 1)) == before + ff);
        }
        let mut k: usize = 0;
        while k < fields.len()
            invariant
                k <= fields@.len(),
                i < fixtures@.len(),
                before == all_fields(fixtures@.take(i as int)),
                ff == fixture_fields(fixtures@[i as int]),
                all_fields(fixtures@.take(i + 1)) == before + ff,
                fields@.map_values(|x: Vec<u8>| x@) == ff,
                first_too_long(before) is None,
                first_too_long(ff.take(k as int)) is None,
                input@ == digest_domain() + framed(before) + framed(ff.take(k as int)),
            decreases fields.len() - k,
        {
            let ghost prefix = ff.take(k as int);
            proof {
                assert(ff.take(k + 1) =~= prefix.push(ff[k as int]));
                assert(ff.take(k + 1).drop_last() =~= prefix);
                assert(ff[k as int] == fields@[k as int]@);
            }
            match push_field(&mut input, fields[k].as_slice()) {
                Ok(()) => {},
                Err(e) => {
                    proof {
                        lemma_framed_append(before, ff);
                        assert(ff =~= ff.take(k + 1) + ff.skip(k + 1));
                        lemma_framed_append(ff.take(k + 1), ff.skip(k + 1));
                        assert(first_too_long(ff.take(k + 1)) == Some(ff[k as int].len()));
                        lemma_all_fields_append(fixtures@.take(i + 1), fixtures@.skip(i + 1));
                        assert(fixtures@ =~= fixtures@.take(i + 1) + fixtures@.skip(i + 1));
                        lemma_framed_append(all_fields(fixtures@.take(i + 1)), all_fields(fixtures@.skip(i + 1)));
                    }
                    return Err(e);
                },
            }
            k = k + 1;
        }
        proof {
            assert(ff.take(fields@.len() as int) =~= ff);
            lemma_framed_append(before, ff);
            assert(input@ =~= digest_domain() + framed(all_fields(fixtures@.take(i + 1))));
        }
        i = i + 1;
    }
    proof { assert(fixtures@.take(fixtures@.len() as int) =~= fixtures@); }
    Ok(input)
}

proof fn lemma_all_fields_append(a: Seq<Fixture>, b: Seq<Fixture>)
    ensures
        all_fields(a + b) == all_fields(a) + all_fields(b),
    decreases b.len(),
{
    if b.len() == 0 {
        assert(a + b =~= a);
        assert(all_fields(a) + all_fields(b) =~= all_fields(a));
    } else {
        assert((a + b).drop_last() =~= a + b.drop_last());
        lemma_all_fields_append(a, b.drop_last());
        assert(all_fields(a + b) =~= all_fields(a) + all_fields(b));
    }
}

/// Byte-wise lexicographic order, the order of `str`.
pub open spec fn lex_lt(a: Seq<u8>, b: Seq<u8>) -> bool
    decreases a.len(),
{
    if a.len() == 0 {
        b.len() > 0
    } else if b.len() == 0 {
        false
    } else if a[0] != b[0] {
        a[0] < b[0]
    } else {
        lex_lt(a.skip(1), b.skip(1))
    }
}

pub(crate) proof fn lemma_lex_irreflexive(a: Seq<u8>)
    ensures
        !lex_lt(a, a),
    decreases a.len(),
{
    if a.len() > 0 {
        lemma_lex_irreflexive(a.skip(1));
    }
}

pub(crate) proof fn lemma_lex_total(a: Seq<u8>, b: Seq<u8>)
    ensures
        a =~= b || lex_lt(a, b) || lex_lt(b, a),
        !(lex_lt(a, b) && lex_lt(b, a)),
    decreases a.len(),
{
    if a.len() > 0 && b.len() > 0 && a[0] == b[0] {
        lemma_lex_total(a.skip(1), b.skip(1));
        if a.skip(1) =~= b.skip(1) {
            assert forall|i: int| 0 <= i < a.len() implies a[i] == b[i] by {
                if i > 0 { assert(a[i] == a.skip(1)[i - 1]); assert(b[i] == b.skip(1)[i - 1]); }
            }
        }
    }
}

pub(crate) proof fn lemma_lex_transitive(a: Seq<u8>, b: Seq<u8>, c: Seq<u8>)
    requires
        lex_lt(a, b),
        lex_lt(b, c),
    ensures
        lex_lt(a, c),
    decreases a.len(),
{
    if a.len() > 0 && b.len() > 0 && c.len() > 0 && a[0] == b[0] && b[0] == c[0] {
        lemma_lex_transitive(a.skip(1), b.skip(1), c.skip(1));
    }
}

/// `a` equals `b` byte for byte.
pub(crate) fn bytes_eq(a: &[u8], b: &[u8]) -> (r: bool)
    ensures
        r == (a@ == b@),
{
    if a.len() != b.len() {
        return false;
    }
    let mut i: usize = 0;
    while i < a.len()
        invariant
            a.len() == b.len(),
            i <= a.len(),
            a@.take(i as int) == b@.take(i as int),
        decreases a.len() - i,
    {
        if a[i] != b[i] {
            return false;
        }
        proof {
            assert(a@.take(i + 1) =~= a@.take(i as int).push(a@[i as int]));
            assert(b@.take(i + 1) =~= b@.take(i as int).push(b@[i as int]));
        }
        i = i + 1;
    }
    proof {
        assert(a@ =~= a@.take(a.len() as int));
        assert(b@ =~= b@.take(b.len() as int));
    }
    true
}

/// `a` sorts strictly before `b`.
pub(crate) fn bytes_lt(a: &[u8], b: &[u8]) -> (r: bool)
    ensures
        r == lex_lt(a@, b@),
{
    proof {
        assert(a@.skip(0) =~= a@);
        assert(b@.skip(0) =~= b@);
    }
    let mut i: usize = 0;
    while i < a.len() && i < b.len()
        invariant
            i <= a.len(),
            i <= b.len(),
            lex_lt(a@, b@) == lex_lt(a@.skip(i as int), b@.skip(i as int)),
        decreases a.len() - i,
    {
        if a[i] != b[i] {
            return a[i] < b[i];
        }
        proof {
            assert(a@.skip(i as int).skip(1) =~= a@.skip(i + 1));
            assert(b@.skip(i as int).skip(1) =~= b@.skip(i + 1));
        }
        i = i + 1;
    }
    i == a.len() && i < b.len()
}

/// The ordering key of a fixture: the bytes of its id.
pub open spec fn id_key(f: Fixture) -> Seq<u8> {
    text_bytes(f.spec_id().spec_str())
}

/// Strictly ascending by id: sorted, and no id twice.
pub open spec fn strictly_sorted(fs: Seq<Fixture>) -> bool {
    forall|i: int, j: int| 0 <= i < j < fs.len() ==> lex_lt(id_key(fs[i]), id_key(fs[j]))
}

/// Two strictly sorted sequences agree on their first `k` positions when
/// they hold the same fixtures.
proof fn lemma_sorted_prefix_eq(x: Seq<Fixture>, y: Seq<Fixture>, k: int)
    requires
        strictly_sorted(x),
        strictly_sorted(y),
        forall|f: Fixture| x.contains(f) <==> y.contains(f),
        0 <= k <= x.len(),
        k <= y.len(),
    ensures
        forall|i: int| 0 <= i < k ==> x[i] == y[i],
    decreases k,
{
    if k > 0 {
        lemma_sorted_prefix_eq(x, y, k - 1);
        let a = x[k - 1];
        let b = y[k - 1];
        assert(x.contains(a));
        let j = choose|j: int| 0 <= j < y.len() && y[j] == a;
        assert(y.contains(b));
        let m = choose|m: int| 0 <= m < x.len() && x[m] == b;
        if j < k - 1 {
            assert(x[j] == y[j]);
            lemma_lex_irreflexive(id_key(a));
            assert(lex_lt(id_key(x[j]), id_key(x[k - 1])));
        }
        if m < k - 1 {
            assert(x[m] == y[m]);
            lemma_lex_irreflexive(id_key(b));
            assert(lex_lt(id_key(y[m]), id_key(y[k - 1])));
        }
        if j > k - 1 && m > k - 1 {
            assert(lex_lt(id_key(y[k - 1]), id_key(y[j])));
            assert(lex_lt(id_key(x[k - 1]), id_key(x[m])));
            lemma_lex_total(id_key(a), id_key(b));
        }
    }
}

/// Two strictly sorted sequences holding the same fixtures are equal.
proof fn lemma_sorted_unique(x: Seq<Fixture>, y: Seq<Fixture>)
    requires
        strictly_sorted(x),
        strictly_sorted(y),
        forall|f: Fixture| x.contains(f) <==> y.contains(f),
    ensures
        x == y,
{
    if x.len() < y.len() {
        lemma_sorted_prefix_eq(x, y, x.len() as int);
        let e = y[x.len() as int];
        assert(y.contains(e));
        let j = choose|j: int| 0 <= j < x.len() && x[j] == e;
        assert(y[j] == e);
        lemma_lex_irreflexive(id_key(e));
        assert(lex_lt(id_key(y[j]), id_key(y[x.len() as int])));
    } else if y.len() < x.len() {
        lemma_sorted_prefix_eq(x, y, y.len() as int);
        let e = x[y.len() as int];
        assert(x.contains(e));
        let j = choose|j: int| 0 <= j < y.len() && y[j] == e;
        assert(x[j] == e);
        lemma_lex_irreflexive(id_key(e));
        assert(lex_lt(id_key(x[j]), id_key(x[y.len() as int])));
    } else {
        lemma_sorted_prefix_eq(x, y, x.len() as int);
        assert(x =~= y);
    }
}

/// **A set does not depend on the order its fixtures arrive in.** Two sets
/// built from the same fixtures, however each input was ordered, hold the
/// same fixtures in the same order and carry the same digest.
pub proof fn lemma_set_is_order_free(
    a: Seq<Fixture>,
    b: Seq<Fixture>,
    ra: Result<FixtureSet, FixtureError>,
    rb: Result<FixtureSet, FixtureError>,
)
    requires
        from_fixtures_outcome(a, ra),
        from_fixtures_outcome(b, rb),
        ra is Ok,
        rb is Ok,
        forall|f: Fixture| a.contains(f) <==> b.contains(f),
    ensures
        ra->Ok_0.spec_fixtures() == rb->Ok_0.spec_fixtures(),
        ra->Ok_0.spec_sha256() == rb->Ok_0.spec_sha256(),
{
    let x = ra->Ok_0.spec_fixtures();
    let y = rb->Ok_0.spec_fixtures();
    assert forall|f: Fixture| x.contains(f) <==> y.contains(f) by {
        if x.contains(f) {
            let k = choose|k: int| 0 <= k < x.len() && x[k] == f;
            assert(a.contains(x[k]));
            assert(b.contains(f));
            let i = choose|i: int| 0 <= i < b.len() && b[i] == f;
            assert(y.contains(b[i]));
        }
        if y.contains(f) {
            let k = choose|k: int| 0 <= k < y.len() && y[k] == f;
            assert(b.contains(y[k]));
            assert(a.contains(f));
            let i = choose|i: int| 0 <= i < a.len() && a[i] == f;
            assert(x.contains(a[i]));
        }
    }
    lemma_sorted_unique(x, y);
}

/// Two positions share an id.
pub open spec fn has_duplicate_id(fs: Seq<Fixture>) -> bool {
    exists|i: int, j: int| 0 <= i < fs.len() && 0 <= j < fs.len() && i != j && id_key(fs[i]) == id_key(fs[j])
}

/// The ids of the fixtures that are not captured, in order.
pub open spec fn documented_ids(fs: Seq<Fixture>) -> Seq<FixtureId>
    decreases fs.len(),
{
    if fs.len() == 0 {
        Seq::empty()
    } else if fs.last().spec_provenance() is Captured {
        documented_ids(fs.drop_last())
    } else {
        documented_ids(fs.drop_last()).push(fs.last().spec_id())
    }
}

/// The ids of the captured fixtures, in order.
pub open spec fn captured_ids(fs: Seq<Fixture>) -> Seq<FixtureId>
    decreases fs.len(),
{
    if fs.len() == 0 {
        Seq::empty()
    } else if fs.last().spec_provenance() is Captured {
        captured_ids(fs.drop_last()).push(fs.last().spec_id())
    } else {
        captured_ids(fs.drop_last())
    }
}

/// A key that two distinct positions share.
pub open spec fn duplicated_key(fs: Seq<Fixture>, k: Seq<u8>) -> bool {
    exists|i: int, j: int| 0 <= i < fs.len() && 0 <= j < fs.len() && i != j && id_key(fs[i]) == k && id_key(fs[j]) == k
}

/// The position of a fixture whose id occurs twice and is the smallest such
/// id, or `None` when every id is unique.
fn smallest_duplicate(fs: &Vec<Fixture>) -> (r: Option<usize>)
    ensures
        r is None <==> !has_duplicate_id(fs@),
        r matches Some(b) ==> b < fs@.len() && duplicated_key(fs@, id_key(fs@[b as int]))
            && forall|k: Seq<u8>| duplicated_key(fs@, k) ==> !lex_lt(k, id_key(fs@[b as int])),
{
    let n = fs.len();
    let mut best: Option<usize> = None;
    let mut i: usize = 0;
    while i < n
        invariant
            n == fs@.len(),
            i <= n,
            best matches Some(b) ==> b < n && duplicated_key(fs@, id_key(fs@[b as int])),
            forall|x: int, y: int| #![trigger id_key(fs@[x]), id_key(fs@[y])] 0 <= x < i && 0 <= y < n && x != y && id_key(fs@[x]) == id_key(fs@[y]) ==> best is Some
                && !lex_lt(id_key(fs@[x]), id_key(fs@[best->Some_0 as int])),
        decreases n - i,
    {
        let mut j: usize = 0;
        while j < n
            invariant
                n == fs@.len(),
                i < n,
                j <= n,
                best matches Some(b) ==> b < n && duplicated_key(fs@, id_key(fs@[b as int])),
                forall|x: int, y: int| #![trigger id_key(fs@[x]), id_key(fs@[y])] 0 <= x < i && 0 <= y < n && x != y && id_key(fs@[x]) == id_key(fs@[y]) ==> best is Some
                    && !lex_lt(id_key(fs@[x]), id_key(fs@[best->Some_0 as int])),
                forall|y: int| #![trigger id_key(fs@[y])] 0 <= y < j && y != i && id_key(fs@[i as int]) == id_key(fs@[y]) ==> best is Some
                    && !lex_lt(id_key(fs@[i as int]), id_key(fs@[best->Some_0 as int])),
            decreases n - j,
        {
            if j != i && bytes_eq(fs[i].id.as_str().as_bytes(), fs[j].id.as_str().as_bytes()) {
                let better = match best {
                    None => true,
                    Some(b) => bytes_lt(fs[i].id.as_str().as_bytes(), fs[b].id.as_str().as_bytes()),
                };
                if better {
                    let ghost old_best = best;
                    best = Some(i);
                    proof {
                        match old_best {
                            Some(b) => {
                                assert forall|x: int, y: int| #![trigger id_key(fs@[x]), id_key(fs@[y])] 0 <= x < i && 0 <= y < n && x != y && id_key(fs@[x]) == id_key(fs@[y]) implies !lex_lt(id_key(fs@[x]), id_key(fs@[i as int])) by {
                                    if lex_lt(id_key(fs@[x]), id_key(fs@[i as int])) {
                                        lemma_lex_transitive(id_key(fs@[x]), id_key(fs@[i as int]), id_key(fs@[b as int]));
                                    }
                                }
                                assert forall|y: int| #![trigger id_key(fs@[y])] 0 <= y < j && y != i && id_key(fs@[i as int]) == id_key(fs@[y]) implies !lex_lt(id_key(fs@[i as int]), id_key(fs@[i as int])) by {
                                    lemma_lex_irreflexive(id_key(fs@[i as int]));
                                }
                            },
                            None => {},
                        }
                        lemma_lex_irreflexive(id_key(fs@[i as int]));
                    }
                } else {
                    proof {
                        let b = best->Some_0;
                        lemma_lex_total(id_key(fs@[i as int]), id_key(fs@[b as int]));
                    }
                }
            }
            j = j + 1;
        }
        i = i + 1;
    }
    proof {
        match best {
            Some(b) => {
                assert forall|k: Seq<u8>| duplicated_key(fs@, k) implies !lex_lt(k, id_key(fs@[b as int])) by {
                    let (x, y) = choose|x: int, y: int| 0 <= x < fs@.len() && 0 <= y < fs@.len() && x != y && id_key(fs@[x]) == k && id_key(fs@[y]) == k;
                }
            },
            None => {},
        }
    }
    best
}

/// Position `m` occurs in `order`.
pub open spec fn in_order(order: Seq<usize>, m: int) -> bool {
    exists|a: int| 0 <= a < order.len() && order[a] == m
}

/// The positions of `fs` in ascending id order.
fn order_by_id(fs: &Vec<Fixture>) -> (order: Vec<usize>)
    requires
        !has_duplicate_id(fs@),
    ensures
        order@.len() == fs@.len(),
        forall|a: int| 0 <= a < order@.len() ==> order@[a] < fs@.len(),
        forall|a: int, b: int| 0 <= a < b < order@.len() ==> order@[a] != order@[b],
        forall|m: int| 0 <= m < fs@.len() ==> #[trigger] in_order(order@, m),
        forall|a: int, b: int| 0 <= a < b < order@.len() ==> lex_lt(id_key(fs@[order@[a] as int]), id_key(fs@[order@[b] as int])),
{
    let n = fs.len();
    let mut order: Vec<usize> = Vec::new();
    let mut i: usize = 0;
    while i < n
        invariant
            n == fs@.len(),
            !has_duplicate_id(fs@),
            i <= n,
            order@.len() == i,
            forall|a: int| 0 <= a < order@.len() ==> order@[a] < i,
            forall|a: int, b: int| 0 <= a < b < order@.len() ==> order@[a] != order@[b],
            forall|m: int| 0 <= m < i ==> #[trigger] in_order(order@, m),
            forall|a: int, b: int| 0 <= a < b < order@.len() ==> lex_lt(id_key(fs@[order@[a] as int]), id_key(fs@[order@[b] as int])),
        decreases n - i,
    {
        let mut p: usize = 0;
        while p < order.len()
            invariant
                n == fs@.len(),
                i < n,
                forall|a: int| 0 <= a < order@.len() ==> order@[a] < i,
                p <= order@.len(),
                forall|q: int| 0 <= q < p ==> lex_lt(id_key(fs@[order@[q] as int]), id_key(fs@[i as int])),
            ensures
                p <= order@.len(),
                forall|q: int| 0 <= q < p ==> lex_lt(id_key(fs@[order@[q] as int]), id_key(fs@[i as int])),
                p < order@.len() ==> !lex_lt(id_key(fs@[order@[p as int] as int]), id_key(fs@[i as int])),
            decreases order@.len() - p,
        {
            let o = order[p];
            if !bytes_lt(fs[o].id.as_str().as_bytes(), fs[i].id.as_str().as_bytes()) {
                break;
            }
            p = p + 1;
        }
        let ghost old_order = order@;
        proof {
            if p < old_order.len() {
                let o = old_order[p as int];
                assert(o != i);
                assert(id_key(fs@[o as int]) != id_key(fs@[i as int]));
                lemma_lex_total(id_key(fs@[o as int]), id_key(fs@[i as int]));
                assert forall|q: int| p <= q < old_order.len() implies lex_lt(id_key(fs@[i as int]), id_key(fs@[old_order[q] as int])) by {
                    if q > p {
                        lemma_lex_transitive(id_key(fs@[i as int]), id_key(fs@[o as int]), id_key(fs@[old_order[q] as int]));
                    }
                }
            }
        }
        order.insert(p, i);
        proof {
            let no = order@;
            assert(no =~= old_order.insert(p as int, i));
            assert forall|a: int, b: int| 0 <= a < b < no.len() implies lex_lt(id_key(fs@[no[a] as int]), id_key(fs@[no[b] as int])) by {
                if a < p && b < p {
                } else if a < p && b == p {
                } else if a < p && b > p {
                    assert(no[b] == old_order[b - 1]);
                } else if a == p {
                    assert(no[b] == old_order[b - 1]);
                } else {
                    assert(no[a] == old_order[a - 1]);
                    assert(no[b] == old_order[b - 1]);
                }
            }
            assert forall|m: int| 0 <= m < i + 1 implies #[trigger] in_order(no, m) by {
                if m == i {
                    assert(no[p as int] == m);
                } else {
                    assert(in_order(old_order, m));
                    let a = choose|a: int| 0 <= a < old_order.len() && old_order[a] == m;
                    if a < p { assert(no[a] == m); } else { assert(no[a + 1] == m); }
                }
            }
            assert forall|a: int, b: int| 0 <= a < b < no.len() implies no[a] != no[b] by {
                if a < p && b < p {
                } else if b == p || a == p {
                } else if a < p {
                    assert(no[b] == old_order[b - 1]);
                } else {
                    assert(no[a] == old_order[a - 1]);
                    assert(no[b] == old_order[b - 1]);
                }
            }
        }
        i = i + 1;
    }
    order
}

/// Moves `fs` into the order `order` gives.
fn arrange(fs: Vec<Fixture>, order: &Vec<usize>) -> (out: Vec<Fixture>)
    requires
        order@.len() == fs@.len(),
        forall|a: int| 0 <= a < order@.len() ==> order@[a] < fs@.len(),
        forall|a: int, b: int| 0 <= a < b < order@.len() ==> order@[a] != order@[b],
    ensures
        out@.len() == fs@.len(),
        forall|k: int| 0 <= k < out@.len() ==> out@[k] == fs@[order@[k] as int],
{
    let n = fs.len();
    let ghost orig = fs@;
    let mut rest = fs;
    let mut slots: Vec<Option<Fixture>> = Vec::new();
    while rest.len() > 0
        invariant
            rest@.len() + slots@.len() == n,
            orig.len() == n,
            rest@ == orig.take(rest@.len() as int),
            forall|j: int| 0 <= j < slots@.len() ==> slots@[j] == Some(orig[n - 1 - j]),
        decreases rest@.len(),
    {
        let f = rest.pop().unwrap();
        slots.push(Some(f));
        proof { assert(rest@ =~= orig.take(rest@.len() as int)); }
    }
    let mut out: Vec<Fixture> = Vec::new();
    let mut k: usize = 0;
    while k < n
        invariant
            order@.len() == n,
            orig.len() == n,
            slots@.len() == n,
            forall|a: int| 0 <= a < order@.len() ==> order@[a] < n,
            forall|a: int, b: int| 0 <= a < b < order@.len() ==> order@[a] != order@[b],
            k <= n,
            out@.len() == k,
            forall|q: int| 0 <= q < k ==> out@[q] == orig[order@[q] as int],
            forall|j: int| 0 <= j < n ==> (slots@[j] == Some(orig[n - 1 - j]) || exists|q: int| 0 <= q < k && n - 1 - j == order@[q]),
        decreases n - k,
    {
        let idx = n - 1 - order[k];
        let taken = slots[idx].take();
        match taken {
            Some(f) => {
                out.push(f);
            },
            None => {
                proof {
                    let q = choose|q: int| 0 <= q < k && n - 1 - idx == order@[q];
                    assert(order@[q] == order@[k as int]);
                }
                assert(false);
            },
        }
        k = k + 1;
    }
    out
}

/// The first fixture with this id key, if any.
pub open spec fn find_first(fs: Seq<Fixture>, key: Seq<u8>) -> Option<Fixture> {
    if exists|i: int| 0 <= i < fs.len() && id_key(fs[i]) == key {
        Some(fs[choose|j: int| 0 <= j < fs.len() && id_key(fs[j]) == key && forall|k: int| 0 <= k < j ==> id_key(#[trigger] fs[k]) != key])
    } else {
        None
    }
}

} // verus!
