//! The transmit gate: without a [`TransmitAuthority`] there is no encoder,
//! and without [`TransmitScope::RealBusAttested`] there is no serial port.
use vstd::prelude::*;
use crate::units::{LinkKind, all_links};
use crate::fixtures::{
    Fixture, FixtureSet, FixtureId, Provenance, id_key, id_ok, required_transmit_ids, spec_hex,
    spec_required_ids, text_bytes, hex_encode, bytes_eq, bytes_lt, hex_decode, spec_hex_decode, lex_lt,
    lemma_lex_irreflexive, lemma_lex_total, lemma_lex_transitive, id_byte_ok, spec_saturn_fixture_id,
    spec_steam_fixture_id,
};
use crate::saturn::encode::{SaturnOpKind, spec_all_saturn_kinds};
use crate::dtv::encode::{SteamOpKind, spec_all_steam_kinds};

verus! {

/// The measured polarity of one link's RS-485 pair.
#[derive(Clone, PartialEq, Eq, Debug)]
pub struct PolarityNote {
    pub link: LinkKind,
    /// What was measured, in the commissioning engineer's words.
    pub note: String,
    /// When; free text.
    pub attested_on: String,
}

/// Unicode `White_Space`, the whitespace `str::trim` removes.
pub open spec fn is_ws(c: char) -> bool {
    ('\u{9}' <= c && c <= '\u{d}') || c == ' ' || c == '\u{85}' || c == '\u{a0}' || c == '\u{1680}'
        || ('\u{2000}' <= c && c <= '\u{200a}') || c == '\u{2028}' || c == '\u{2029}' || c == '\u{202f}'
        || c == '\u{205f}' || c == '\u{3000}'
}

/// Leading whitespace removed.
pub open spec fn trim_start(s: Seq<char>) -> Seq<char>
    decreases s.len(),
{
    if s.len() > 0 && is_ws(s[0]) {
        trim_start(s.skip(1))
    } else {
        s
    }
}

/// Trailing whitespace removed.
pub open spec fn trim_end(s: Seq<char>) -> Seq<char>
    decreases s.len(),
{
    if s.len() > 0 && is_ws(s.last()) {
        trim_end(s.drop_last())
    } else {
        s
    }
}

/// Leading and trailing whitespace removed.
pub open spec fn spec_trim(s: Seq<char>) -> Seq<char> {
    trim_end(trim_start(s))
}

/// `str::trim`: the text with leading and trailing Unicode whitespace
/// removed.
#[verifier::external_body]
fn trim_str(s: &str) -> (r: &str)
    ensures
        r@ == spec_trim(s@),
{
    s.trim()
}

/// A note that carries a measurement: text and date both non-blank.
pub open spec fn note_attested(n: PolarityNote) -> bool {
    spec_trim(n.note@).len() > 0 && spec_trim(n.attested_on@).len() > 0
}

impl PolarityNote {
    /// True when the note carries an actual measurement rather than
    /// blank text.
    pub fn is_attested(&self) -> (b: bool)
        ensures
            b == note_attested(*self),
    {
        !trim_str(self.note.as_str()).is_empty() && !trim_str(self.attested_on.as_str()).is_empty()
    }

    /// The note as plain values: its link, its text and its date.
    pub open spec fn view_note(self) -> (LinkKind, Seq<char>, Seq<char>) {
        (self.link, self.note@, self.attested_on@)
    }

    pub(crate) fn duplicate(&self) -> (r: PolarityNote)
        ensures
            r.view_note() == self.view_note(),
    {
        PolarityNote { link: self.link, note: self.note.clone(), attested_on: self.attested_on.clone() }
    }
}

/// Every link's measured polarity.
#[derive(Clone, PartialEq, Eq, Debug)]
pub struct PolarityAttestation {
    pub notes: Vec<PolarityNote>,
}

impl PolarityAttestation {
    /// The notes as plain values, in order.
    pub open spec fn spec_notes(self) -> Seq<(LinkKind, Seq<char>, Seq<char>)> {
        self.notes@.map_values(|n: PolarityNote| n.view_note())
    }

    pub(crate) fn duplicate(&self) -> (r: PolarityAttestation)
        ensures
            r.spec_notes() == self.spec_notes(),
    {
        let mut notes: Vec<PolarityNote> = Vec::new();
        let mut i: usize = 0;
        while i < self.notes.len()
            invariant
                i <= self.notes.len(),
                notes.len() == i,
                forall|j: int| 0 <= j < i ==> #[trigger] notes@[j].view_note() == self.notes@[j].view_note(),
            decreases self.notes.len() - i,
        {
            let n = self.notes[i].duplicate();
            notes.push(n);
            i = i + 1;
        }
        proof {
            assert(notes@.map_values(|n: PolarityNote| n.view_note())
                =~= self.notes@.map_values(|n: PolarityNote| n.view_note()));
        }
        PolarityAttestation { notes }
    }

    /// The first note for `link` that carries a measurement, if any.
    pub fn note(&self, link: LinkKind) -> (r: Option<&PolarityNote>)
        ensures
            r is None <==> !attests_spec(self.notes@, link),
            r matches Some(n) ==> n.link == link && note_attested(*n) && self.notes@.contains(*n),
    {
        let mut i: usize = 0;
        while i < self.notes.len()
            invariant
                i <= self.notes@.len(),
                forall|k: int| 0 <= k < i ==> !(#[trigger] self.notes@[k].link == link && note_attested(self.notes@[k])),
            decreases self.notes.len() - i,
        {
            let n = &self.notes[i];
            if n.link == link && n.is_attested() {
                return Some(n);
            }
            i = i + 1;
        }
        None
    }

    /// True when this link has been measured.
    pub fn attests(&self, link: LinkKind) -> (b: bool)
        ensures
            b == attests_spec(self.notes@, link),
    {
        self.note(link).is_some()
    }

    /// The links that have not been measured, in link order.
    pub fn unattested(&self) -> (v: Vec<LinkKind>)
        ensures
            v@ == unattested_spec(self.notes@),
    {
        let all = LinkKind::all();
        let mut v: Vec<LinkKind> = Vec::new();
        let mut i: usize = 0;
        while i < 3
            invariant
                i <= 3,
                all@ == all_links(),
                v@ == unattested_among(self.notes@, all_links().take(i as int)),
            decreases 3 - i,
        {
            proof {
                assert(all_links().take(i + 1).drop_last() =~= all_links().take(i as int));
            }
            if !self.attests(all[i]) {
                v.push(all[i]);
            }
            i = i + 1;
        }
        proof { assert(all_links().take(3) =~= all_links()); }
        v
    }
}

impl Default for PolarityAttestation {
    /// No link attested.
    fn default() -> (p: PolarityAttestation)
        ensures
            p.notes@.len() == 0,
    {
        PolarityAttestation { notes: Vec::new() }
    }
}

/// Some note for `link` carries a measurement.
pub open spec fn attests_spec(notes: Seq<PolarityNote>, link: LinkKind) -> bool {
    exists|k: int| 0 <= k < notes.len() && #[trigger] notes[k].link == link && note_attested(notes[k])
}

/// The links of `links` no note attests, in order.
pub open spec fn unattested_among(notes: Seq<PolarityNote>, links: Seq<LinkKind>) -> Seq<LinkKind>
    decreases links.len(),
{
    if links.len() == 0 {
        Seq::empty()
    } else if attests_spec(notes, links.last()) {
        unattested_among(notes, links.drop_last())
    } else {
        unattested_among(notes, links.drop_last()).push(links.last())
    }
}

/// The links no note attests, in link order.
pub open spec fn unattested_spec(notes: Seq<PolarityNote>) -> Seq<LinkKind> {
    unattested_among(notes, all_links())
}

/// The scope configuration asks for, before any evidence is consulted.
#[derive(Copy, Clone, PartialEq, Eq, Debug, Default, Structural)]
pub enum RequestedScope {
    #[default]
    EmulatorOnly,
    RealBusAttested,
}

/// The transmit-gate section of the daemon's configuration.
#[derive(Clone, PartialEq, Eq, Debug)]
pub struct TransmitGateConfig {
    pub scope: RequestedScope,
    /// The capture campaign backing a real-bus request.
    pub capture_ref: Option<String>,
    /// Per-link measured polarity.
    pub polarity: PolarityAttestation,
    /// The pinned SHA-256 of the fixture set, lowercase hex.
    pub expected_fixtures_sha256: Option<String>,
}

impl TransmitGateConfig {
    /// The shipped configuration: emulator only, nothing pinned, nothing
    /// attested.
    pub fn emulator_only() -> (c: TransmitGateConfig)
        ensures
            c.scope == RequestedScope::EmulatorOnly,
            c.capture_ref is None,
            c.polarity.notes@.len() == 0,
            c.expected_fixtures_sha256 is None,
    {
        TransmitGateConfig {
            scope: RequestedScope::EmulatorOnly,
            capture_ref: None,
            polarity: PolarityAttestation { notes: Vec::new() },
            expected_fixtures_sha256: None,
        }
    }
}

impl Default for TransmitGateConfig {
    fn default() -> (c: TransmitGateConfig)
        ensures
            c.scope == RequestedScope::EmulatorOnly,
            c.capture_ref is None,
            c.polarity.notes@.len() == 0,
            c.expected_fixtures_sha256 is None,
    {
        TransmitGateConfig::emulator_only()
    }
}

/// Why no transmit authority was granted.
#[derive(Clone, PartialEq, Eq, Debug)]
pub enum GateError {
    /// Allowlisted operations still rest on documentation, or have no
    /// fixture.
    FixturesNotCaptured { documented: Vec<FixtureId>, missing: Vec<FixtureId> },
    /// The fixture set is not the one configuration pinned.
    FixtureSetHashMismatch { expected: String, found: String },
    /// A real bus was requested without pinning the fixture-set hash.
    FixtureSetHashUnpinned { found: String },
    /// The pin is not 32 bytes of hex.
    MalformedExpectedHash { value: String },
    /// A real bus was requested without naming its capture campaign.
    MissingCaptureRef,
    /// These links' bus polarity has not been measured.
    BusPolarityUnattested { links: Vec<LinkKind> },
}

/// What a pinned hash parses to: 32 bytes of hex after trimming.
pub open spec fn spec_parse_hash(t: Seq<char>) -> Option<Seq<u8>> {
    match spec_hex_decode(text_bytes(spec_trim(t))) {
        Some(b) => if b.len() == 32 { Some(b) } else { None },
        None => None,
    }
}

fn parse_sha256_hex(s: &str) -> (r: Result<[u8; 32], GateError>)
    ensures
        match spec_parse_hash(s@) {
            Some(b) => r matches Ok(h) && h@ == b,
            None => r matches Err(GateError::MalformedExpectedHash { value }) && value@ == s@,
        },
{
    let t = trim_str(s);
    let bytes = match hex_decode(t) {
        Ok(b) => b,
        Err(_) => {
            return Err(GateError::MalformedExpectedHash { value: s.to_owned() });
        },
    };
    if bytes.len() != 32 {
        return Err(GateError::MalformedExpectedHash { value: s.to_owned() });
    }
    let mut h = [0u8; 32];
    let mut i: usize = 0;
    while i < 32
        invariant
            i <= 32,
            bytes@.len() == 32,
            forall|k: int| 0 <= k < i ==> h@[k] == bytes@[k],
        decreases 32 - i,
    {
        h[i] = bytes[i];
        i = i + 1;
    }
    proof { assert(h@ =~= bytes@); }
    Ok(h)
}

/// The classification of the required fixtures: the ids of those that rest
/// on documentation, and of those with no fixture at all, in allowlist order.
pub open spec fn unattested_spec_ids(fs: Seq<Fixture>, req: Seq<&'static str>) -> (Seq<Seq<char>>, Seq<Seq<char>>)
    decreases req.len(),
{
    if req.len() == 0 {
        (Seq::empty(), Seq::empty())
    } else {
        let (d, m) = unattested_spec_ids(fs, req.drop_last());
        let r = req.last();
        match crate::fixtures::find_first(fs, text_bytes(r@)) {
            None => (d, if id_ok(text_bytes(r@)) { m.push(r@) } else { m }),
            Some(f) => if f.spec_provenance() is Captured {
                (d, m)
            } else {
                (d.push(f.spec_id().spec_str()), m)
            },
        }
    }
}

/// `ids` lists the ids of `from`, each exactly once, in strictly ascending
/// byte order.
pub open spec fn sorted_listing(ids: Seq<Seq<char>>, from: Seq<Seq<char>>) -> bool {
    &&& forall|i: int, j: int| 0 <= i < j < ids.len() ==> lex_lt(text_bytes(ids[i]), text_bytes(ids[j]))
    &&& forall|i: int| 0 <= i < from.len() ==> ids.contains(from[i])
    &&& forall|i: int| 0 <= i < ids.len() ==> from.contains(ids[i])
}

/// A listing is empty exactly when what it lists is.
proof fn lemma_listing_empty(ids: Seq<Seq<char>>, from: Seq<Seq<char>>)
    requires
        sorted_listing(ids, from),
    ensures
        ids.len() == 0 <==> from.len() == 0,
{
    if from.len() > 0 {
        assert(ids.contains(from[0]));
    }
    if ids.len() > 0 {
        assert(from.contains(ids[0]));
    }
}

/// The ids of `v`, sorted by their bytes, each once.
fn sorted_unique(v: &Vec<FixtureId>) -> (out: Vec<FixtureId>)
    ensures
        sorted_listing(out@.map_values(|f: FixtureId| f.spec_str()), v@.map_values(|f: FixtureId| f.spec_str())),
{
    let ghost vs = v@.map_values(|f: FixtureId| f.spec_str());
    let mut out: Vec<FixtureId> = Vec::new();
    let mut i: usize = 0;
    while i < v.len()
        invariant
            i <= v.len(),
            vs == v@.map_values(|f: FixtureId| f.spec_str()),
            forall|a: int, b: int| 0 <= a < b < out@.len() ==> lex_lt(
                text_bytes(#[trigger] out@[a].spec_str()),
                text_bytes(#[trigger] out@[b].spec_str()),
            ),
            forall|a: int| 0 <= a < i ==> out@.map_values(|f: FixtureId| f.spec_str()).contains(#[trigger] vs[a]),
            forall|b: int| #![trigger out@[b]] 0 <= b < out@.len() ==> exists|a: int| 0 <= a < i && #[trigger] vs[a] == out@[b].spec_str(),
        decreases v.len() - i,
    {
        let x = &v[i];
        let xb = x.as_str().as_bytes();
        let mut k: usize = 0;
        while k < out.len() && bytes_lt(out[k].as_str().as_bytes(), xb)
            invariant
                k <= out@.len(),
                xb@ == text_bytes(x.spec_str()),
                forall|c: int| 0 <= c < k ==> lex_lt(text_bytes(#[trigger] out@[c].spec_str()), xb@),
            decreases out.len() - k,
        {
            k = k + 1;
        }
        let ghost before = out@;
        let same = k < out.len() && bytes_eq(out[k].as_str().as_bytes(), xb);
        if same {
            proof {
                vstd::utf8::encode_utf8_decode_utf8(out@[k as int].spec_str());
                vstd::utf8::encode_utf8_decode_utf8(x.spec_str());
                assert(out@[k as int].spec_str() == x.spec_str());
                assert(out@.map_values(|f: FixtureId| f.spec_str())[k as int] == vs[i as int]);
            }
        } else {
            proof {
                if k < before.len() {
                    assert(!lex_lt(text_bytes(before[k as int].spec_str()), xb@));
                    lemma_lex_total(xb@, text_bytes(before[k as int].spec_str()));
                    assert(xb@ != text_bytes(before[k as int].spec_str()));
                    assert(lex_lt(xb@, text_bytes(before[k as int].spec_str())));
                }
            }
            let y = x.duplicate();
            out.insert(k, y);
            proof {
                assert forall|a: int, b: int| 0 <= a < b < out@.len() implies lex_lt(
                    text_bytes(#[trigger] out@[a].spec_str()),
                    text_bytes(#[trigger] out@[b].spec_str()),
                ) by {
                    if a == k && b > k + 1 {
                        assert(lex_lt(text_bytes(before[k as int].spec_str()), text_bytes(before[b - 1].spec_str())));
                        lemma_lex_transitive(xb@, text_bytes(before[k as int].spec_str()), text_bytes(before[b - 1].spec_str()));
                    }
                }
                assert(out@[k as int].spec_str() == vs[i as int]);
                assert forall|a: int| 0 <= a < i + 1 implies out@.map_values(|f: FixtureId| f.spec_str()).contains(#[trigger] vs[a]) by {
                    if a < i {
                        let bs = before.map_values(|f: FixtureId| f.spec_str());
                        assert(bs.contains(vs[a]));
                        let c = choose|c: int| 0 <= c < bs.len() && #[trigger] bs[c] == vs[a];
                        let c2 = if c < k { c } else { c + 1 };
                        assert(out@.map_values(|f: FixtureId| f.spec_str())[c2] == vs[a]);
                    } else {
                        assert(out@.map_values(|f: FixtureId| f.spec_str())[k as int] == vs[a]);
                    }
                }
                assert forall|b: int| #![trigger out@[b]] 0 <= b < out@.len() implies exists|a: int| 0 <= a < i + 1 && #[trigger] vs[a] == out@[b].spec_str() by {
                    if b < k {
                        assert(out@[b] == before[b]);
                    } else if b == k {
                        assert(vs[i as int] == out@[b].spec_str());
                    } else {
                        assert(out@[b] == before[b - 1]);
                    }
                }
            }
        }
        i = i + 1;
    }
    proof {
        let os = out@.map_values(|f: FixtureId| f.spec_str());
        assert forall|b: int| 0 <= b < os.len() implies vs.contains(os[b]) by {
            assert(os[b] == out@[b].spec_str());
            let a = choose|a: int| 0 <= a < i && #[trigger] vs[a] == out@[b].spec_str();
            assert(vs[a] == os[b]);
        }
    }
    out
}

/// Every allowlisted operation whose fixture is not captured, split by why:
/// documented, or missing. Each list is sorted by id, each id once.
fn unattested_fixtures(fixtures: &FixtureSet) -> (r: (Vec<FixtureId>, Vec<FixtureId>))
    ensures
        sorted_listing(
            r.0@.map_values(|f: FixtureId| f.spec_str()),
            unattested_spec_ids(fixtures.spec_fixtures(), spec_required_ids()).0,
        ),
        sorted_listing(
            r.1@.map_values(|f: FixtureId| f.spec_str()),
            unattested_spec_ids(fixtures.spec_fixtures(), spec_required_ids()).1,
        ),
{
    let req = required_transmit_ids();
    let mut documented: Vec<FixtureId> = Vec::new();
    let mut missing: Vec<FixtureId> = Vec::new();
    let mut i: usize = 0;
    while i < req.len()
        invariant
            i <= req@.len(),
            req@ == spec_required_ids(),
            documented@.map_values(|f: FixtureId| f.spec_str()) == unattested_spec_ids(fixtures.spec_fixtures(), req@.take(i as int)).0,
            missing@.map_values(|f: FixtureId| f.spec_str()) == unattested_spec_ids(fixtures.spec_fixtures(), req@.take(i as int)).1,
        decreases req.len() - i,
    {
        let r = req[i];
        proof {
            assert(req@.take(i + 1).drop_last() =~= req@.take(i as int));
            assert(req@.take(i + 1).last() == r);
        }
        match fixtures.get(r) {
            None => {
                match FixtureId::from_str_checked(r) {
                    Some(id) => missing.push(id),
                    None => {},
                }
            },
            Some(f) => {
                if !f.provenance().is_captured() {
                    documented.push(f.id().duplicate());
                }
            },
        }
        proof {
            assert(documented@.map_values(|f: FixtureId| f.spec_str()) =~= unattested_spec_ids(fixtures.spec_fixtures(), req@.take(i + 1)).0);
            assert(missing@.map_values(|f: FixtureId| f.spec_str()) =~= unattested_spec_ids(fixtures.spec_fixtures(), req@.take(i + 1)).1);
        }
        i = i + 1;
    }
    proof { assert(req@.take(req@.len() as int) =~= req@); }
    (sorted_unique(&documented), sorted_unique(&missing))
}

/// What this build is allowed to put bytes on.
#[derive(Clone, PartialEq, Eq, Debug)]
pub enum TransmitScope {
    /// Loopback and PTY links only.
    EmulatorOnly,
    /// Real serial ports permitted.
    RealBusAttested { capture_ref: String, polarity: PolarityAttestation },
}

/// Proof that this build is allowed to encode, and possibly to transmit.
#[derive(Clone, PartialEq, Eq, Debug)]
pub struct TransmitAuthority {
    scope: TransmitScope,
    fixtures_sha256: [u8; 32],
}

impl TransmitAuthority {
    pub closed spec fn spec_scope(self) -> TransmitScope {
        self.scope
    }

    pub closed spec fn spec_fixtures_sha256(self) -> Seq<u8> {
        self.fixtures_sha256@
    }

    /// The same grant: the same scope, capture and attestation, against the
    /// same fixture set.
    pub open spec fn same_grant(self, other: TransmitAuthority) -> bool {
        &&& self.spec_fixtures_sha256() == other.spec_fixtures_sha256()
        &&& match (self.spec_scope(), other.spec_scope()) {
            (TransmitScope::EmulatorOnly, TransmitScope::EmulatorOnly) => true,
            (
                TransmitScope::RealBusAttested { capture_ref: c1, polarity: p1 },
                TransmitScope::RealBusAttested { capture_ref: c2, polarity: p2 },
            ) => c1@ == c2@ && p1.spec_notes() == p2.spec_notes(),
            _ => false,
        }
    }

    pub(crate) fn duplicate(&self) -> (r: TransmitAuthority)
        ensures
            r.same_grant(*self),
    {
        let scope = match &self.scope {
            TransmitScope::EmulatorOnly => TransmitScope::EmulatorOnly,
            TransmitScope::RealBusAttested { capture_ref, polarity } => TransmitScope::RealBusAttested {
                capture_ref: capture_ref.clone(),
                polarity: polarity.duplicate(),
            },
        };
        TransmitAuthority { scope, fixtures_sha256: self.fixtures_sha256 }
    }

    /// Grants exactly the emulator scope, whatever the fixture set says.
    pub fn emulator_only(fixtures: &FixtureSet) -> (a: TransmitAuthority)
        ensures
            a.spec_scope() == TransmitScope::EmulatorOnly,
            a.spec_fixtures_sha256() == fixtures.spec_sha256(),
    {
        TransmitAuthority { scope: TransmitScope::EmulatorOnly, fixtures_sha256: fixtures.sha256() }
    }

    /// True when a real serial port may be opened at all.
    pub fn permits_real_bus(&self) -> (b: bool)
        ensures
            b == (self.spec_scope() is RealBusAttested),
    {
        match &self.scope {
            TransmitScope::EmulatorOnly => false,
            TransmitScope::RealBusAttested { .. } => true,
        }
    }
}

/// What [`TransmitAuthority::resolve`] makes of a configuration against a
/// fixture set: the pin is checked first in either scope; the emulator scope
/// needs nothing more; a real bus needs the pin, a capture reference, every
/// required fixture captured, and every link's polarity attested, and the
/// error names the first of these that fails.
pub open spec fn resolve_outcome(cfg: TransmitGateConfig, fixtures: FixtureSet, r: Result<TransmitAuthority, GateError>) -> bool {
    let found = fixtures.spec_sha256();
    let pin = cfg.expected_fixtures_sha256;
    if pin is Some && spec_parse_hash(pin->Some_0@) is None {
        r matches Err(GateError::MalformedExpectedHash { value }) && value@ == pin->Some_0@
    } else if pin is Some && spec_parse_hash(pin->Some_0@)->Some_0 != found {
        r matches Err(GateError::FixtureSetHashMismatch { expected, found: f }) && expected@ == spec_hex(
            spec_parse_hash(pin->Some_0@)->Some_0,
        ) && f@ == spec_hex(found)
    } else if cfg.scope == RequestedScope::EmulatorOnly {
        r matches Ok(a) && a.spec_scope() == TransmitScope::EmulatorOnly && a.spec_fixtures_sha256() == found
    } else if pin is None {
        r matches Err(GateError::FixtureSetHashUnpinned { found: f }) && f@ == spec_hex(found)
    } else if cfg.capture_ref is None || spec_trim(cfg.capture_ref->Some_0@).len() == 0 {
        r == Err::<TransmitAuthority, GateError>(GateError::MissingCaptureRef)
    } else {
        let (d, m) = unattested_spec_ids(fixtures.spec_fixtures(), spec_required_ids());
        if d.len() > 0 || m.len() > 0 {
            r matches Err(GateError::FixturesNotCaptured { documented, missing }) && sorted_listing(
                documented@.map_values(|f: FixtureId| f.spec_str()),
                d,
            ) && sorted_listing(missing@.map_values(|f: FixtureId| f.spec_str()), m)
        } else if unattested_spec(cfg.polarity.notes@).len() > 0 {
            r matches Err(GateError::BusPolarityUnattested { links }) && links@ == unattested_spec(cfg.polarity.notes@)
        } else {
            r matches Ok(a) && a.spec_fixtures_sha256() == found && (a.spec_scope() matches TransmitScope::RealBusAttested {
                capture_ref,
                polarity,
            } && capture_ref@ == spec_trim(cfg.capture_ref->Some_0@) && polarity.spec_notes() == cfg.polarity.spec_notes())
        }
    }
}

impl TransmitAuthority {
    /// Resolves configuration against the evidence.
    pub fn resolve(cfg: &TransmitGateConfig, fixtures: &FixtureSet) -> (r: Result<TransmitAuthority, GateError>)
        ensures
            resolve_outcome(*cfg, *fixtures, r),
    {
        let found = fixtures.sha256();
        match &cfg.expected_fixtures_sha256 {
            Some(expected_hex) => {
                let expected = match parse_sha256_hex(expected_hex.as_str()) {
                    Ok(e) => e,
                    Err(e) => {
                        return Err(e);
                    },
                };
                let same = bytes_eq(&expected, &found);
                if !same {
                    return Err(GateError::FixtureSetHashMismatch { expected: hex_encode(&expected), found: hex_encode(&found) });
                }
            },
            None => {},
        }
        let scope = match cfg.scope {
            RequestedScope::EmulatorOnly => TransmitScope::EmulatorOnly,
            RequestedScope::RealBusAttested => {
                if cfg.expected_fixtures_sha256.is_none() {
                    return Err(GateError::FixtureSetHashUnpinned { found: hex_encode(&found) });
                }
                let capture_ref: String = match &cfg.capture_ref {
                    Some(c) => {
                        let t = trim_str(c.as_str());
                        if t.is_empty() {
                            return Err(GateError::MissingCaptureRef);
                        }
                        t.to_owned()
                    },
                    None => {
                        return Err(GateError::MissingCaptureRef);
                    },
                };
                let (documented, missing) = unattested_fixtures(fixtures);
                proof {
                    let (d, m) = unattested_spec_ids(fixtures.spec_fixtures(), spec_required_ids());
                    lemma_listing_empty(documented@.map_values(|f: FixtureId| f.spec_str()), d);
                    lemma_listing_empty(missing@.map_values(|f: FixtureId| f.spec_str()), m);
                }
                if documented.len() > 0 || missing.len() > 0 {
                    return Err(GateError::FixturesNotCaptured { documented, missing });
                }
                let links = cfg.polarity.unattested();
                if links.len() > 0 {
                    return Err(GateError::BusPolarityUnattested { links });
                }
                TransmitScope::RealBusAttested { capture_ref, polarity: cfg.polarity.duplicate() }
            },
        };
        Ok(TransmitAuthority { scope, fixtures_sha256: found })
    }

    pub fn scope(&self) -> (s: &TransmitScope)
        ensures
            *s == self.spec_scope(),
    {
        &self.scope
    }

    /// The fixture set this authority was resolved against.
    pub fn fixtures_sha256(&self) -> (h: [u8; 32])
        ensures
            h@ == self.spec_fixtures_sha256(),
    {
        self.fixtures_sha256
    }

    pub fn fixtures_sha256_hex(&self) -> (s: String)
        ensures
            s@ == spec_hex(self.spec_fixtures_sha256()),
    {
        hex_encode(&self.fixtures_sha256)
    }

    /// True when a real serial port may be opened for this link: polarity is
    /// measured per link, so authority is granted per link.
    pub fn permits_real_bus_on(&self, link: LinkKind) -> (b: bool)
        ensures
            b == (self.spec_scope() is RealBusAttested && attests_spec(self.spec_scope()->polarity.notes@, link)),
    {
        match &self.scope {
            TransmitScope::EmulatorOnly => false,
            TransmitScope::RealBusAttested { polarity, .. } => polarity.attests(link),
        }
    }

    /// The capture campaign backing this authority, or `None` under the
    /// emulator scope.
    pub fn capture_ref(&self) -> (r: Option<&str>)
        ensures
            match self.spec_scope() {
                TransmitScope::EmulatorOnly => r is None,
                TransmitScope::RealBusAttested { capture_ref, .. } => r matches Some(c) && c@ == capture_ref@,
            },
    {
        match &self.scope {
            TransmitScope::EmulatorOnly => None,
            TransmitScope::RealBusAttested { capture_ref, .. } => Some(capture_ref.as_str()),
        }
    }

    /// The per-link polarity measurements, or `None` under the emulator
    /// scope.
    pub fn polarity(&self) -> (r: Option<&PolarityAttestation>)
        ensures
            match self.spec_scope() {
                TransmitScope::EmulatorOnly => r is None,
                TransmitScope::RealBusAttested { polarity, .. } => r == Some(&polarity),
            },
    {
        match &self.scope {
            TransmitScope::EmulatorOnly => None,
            TransmitScope::RealBusAttested { polarity, .. } => Some(polarity),
        }
    }
}

/// **No real bus without evidence.** A resolved authority permits a real
/// bus only when a real bus was asked for, the pin parses and matches the
/// fixture set, a capture is named, no required fixture is documented-only
/// or missing, and every link's polarity is attested.
pub proof fn lemma_real_bus_needs_evidence(cfg: TransmitGateConfig, fixtures: FixtureSet, a: TransmitAuthority)
    requires
        resolve_outcome(cfg, fixtures, Ok(a)),
        a.spec_scope() is RealBusAttested,
    ensures
        cfg.scope == RequestedScope::RealBusAttested,
        cfg.expected_fixtures_sha256 matches Some(p) && spec_parse_hash(p@) == Some(fixtures.spec_sha256()),
        cfg.capture_ref matches Some(c) && spec_trim(c@).len() > 0,
        unattested_spec_ids(fixtures.spec_fixtures(), spec_required_ids()).0.len() == 0,
        unattested_spec_ids(fixtures.spec_fixtures(), spec_required_ids()).1.len() == 0,
        unattested_spec(cfg.polarity.notes@).len() == 0,
        a.spec_fixtures_sha256() == fixtures.spec_sha256(),
{
}

/// **The emulator needs no evidence.** Asking for the emulator, with no pin
/// or a matching one, always resolves, whatever the fixtures' tiers.
pub proof fn lemma_emulator_always_resolves(cfg: TransmitGateConfig, fixtures: FixtureSet, r: Result<TransmitAuthority, GateError>)
    requires
        resolve_outcome(cfg, fixtures, r),
        cfg.scope == RequestedScope::EmulatorOnly,
        cfg.expected_fixtures_sha256 matches Some(p) ==> spec_parse_hash(p@) == Some(fixtures.spec_sha256()),
    ensures
        r matches Ok(a) && a.spec_scope() == TransmitScope::EmulatorOnly,
{
}

/// Every id of `req` names a captured fixture; an id that could not name a
/// fixture at all is not asked for.
spec fn all_required_captured(fs: Seq<Fixture>, req: Seq<&'static str>) -> bool {
    forall|i: int|
        0 <= i < req.len() ==> match crate::fixtures::find_first(fs, text_bytes((#[trigger] req[i])@)) {
            Some(f) => f.spec_provenance() is Captured,
            None => !id_ok(text_bytes(req[i]@)),
        }
}

/// Every required transmit id is found in `fs`, and with captured
/// provenance.
pub open spec fn every_required_captured(fs: Seq<Fixture>) -> bool {
    forall|i: int|
        0 <= i < spec_required_ids().len() ==> (crate::fixtures::find_first(
            fs,
            text_bytes((#[trigger] spec_required_ids()[i])@),
        ) matches Some(f) && f.spec_provenance() is Captured)
}

/// A character the fixture-id rule allows.
spec fn id_char_ok(c: char) -> bool {
    ('a' <= c && c <= 'z') || ('0' <= c && c <= '9') || c == '.' || c == '_'
}

/// The fixture-id rule, read on characters.
spec fn chars_id_ok(s: Seq<char>) -> bool {
    &&& 0 < s.len() <= 64
    &&& forall|i: int| 0 <= i < s.len() ==> id_char_ok(#[trigger] s[i])
    &&& s[0] != '.'
    &&& s[s.len() - 1] != '.'
    &&& forall|i: int| 0 <= i < s.len() - 1 ==> !(#[trigger] s[i] == '.' && s[i + 1] == '.')
}

/// An ASCII id that follows the rule on characters follows it on bytes.
proof fn lemma_chars_id_ok(s: Seq<char>)
    requires
        chars_id_ok(s),
    ensures
        id_ok(text_bytes(s)),
{
    assert(vstd::utf8::is_ascii_chars(s));
    vstd::utf8::is_ascii_chars_encode_utf8(s);
    let b = text_bytes(s);
    assert forall|i: int| 0 <= i < b.len() implies id_byte_ok(#[trigger] b[i]) by {
        assert(b[i] == s[i] as u8);
        assert(id_char_ok(s[i]));
    }
    assert(b[0] == s[0] as u8);
    assert(b[b.len() - 1] == s[s.len() - 1] as u8);
    assert forall|i: int| 0 <= i < b.len() - 1 implies !(#[trigger] b[i] == 0x2E && b[i + 1] == 0x2E) by {
        assert(b[i] == s[i] as u8);
        assert(b[i + 1] == s[i + 1] as u8);
    }
}

/// Every required transmit id follows the fixture-id rule.
proof fn lemma_required_ids_ok()
    ensures
        forall|i: int| 0 <= i < spec_required_ids().len() ==> id_ok(text_bytes((#[trigger] spec_required_ids()[i])@)),
{
    let sat = spec_all_saturn_kinds();
    let stm = spec_all_steam_kinds();
    let req = spec_required_ids();
    assert forall|i: int| 0 <= i < req.len() implies id_ok(text_bytes((#[trigger] req[i])@)) by {
        if i < sat.len() {
            lemma_saturn_id_ok(sat[i]);
            assert(req[i] == spec_saturn_fixture_id(sat[i]));
        } else {
            lemma_steam_id_ok(stm[i - sat.len()]);
            assert(req[i] == spec_steam_fixture_id(stm[i - sat.len()]));
        }
    }
}

/// A Saturn operation's fixture id follows the rule.
proof fn lemma_saturn_id_ok(k: SaturnOpKind)
    ensures
        id_ok(text_bytes(spec_saturn_fixture_id(k)@)),
{
    match k {
        SaturnOpKind::AllOff => { reveal_strlit("saturn.all_off"); },
        SaturnOpKind::SetOutlets => { reveal_strlit("saturn.set_outlets"); },
        SaturnOpKind::SetTemperature => { reveal_strlit("saturn.set_temperature"); },
        SaturnOpKind::Pause => { reveal_strlit("saturn.pause"); },
        SaturnOpKind::Resume => { reveal_strlit("saturn.resume"); },
        SaturnOpKind::ReadFirmwareVersion => { reveal_strlit("saturn.read_firmware_version"); },
        SaturnOpKind::ReadFirmwareType => { reveal_strlit("saturn.read_firmware_type"); },
        SaturnOpKind::ReadOutlets => { reveal_strlit("saturn.read_outlets"); },
        SaturnOpKind::ReadTemperature => { reveal_strlit("saturn.read_temperature"); },
        SaturnOpKind::ReadFlow => { reveal_strlit("saturn.read_flow"); },
        SaturnOpKind::ReadFaults => { reveal_strlit("saturn.read_faults"); },
        SaturnOpKind::ReadCalibration => { reveal_strlit("saturn.read_calibration"); },
        SaturnOpKind::ReadConfiguration => { reveal_strlit("saturn.read_configuration"); },
        SaturnOpKind::ReadSerialNumber => { reveal_strlit("saturn.read_serial_number"); },
        SaturnOpKind::ReadGenericOutlets => { reveal_strlit("saturn.read_generic_outlets"); },
        SaturnOpKind::ReadExtendedStatus => { reveal_strlit("saturn.read_extended_status"); },
        SaturnOpKind::ReadDiagnostics => { reveal_strlit("saturn.read_diagnostics"); },
        SaturnOpKind::AddressEnquiry => { reveal_strlit("saturn.address_enquiry"); },
        SaturnOpKind::AddressAllocate => { reveal_strlit("saturn.address_allocate"); },
        SaturnOpKind::AddressClear => { reveal_strlit("saturn.address_clear"); },
    }
    lemma_chars_id_ok(spec_saturn_fixture_id(k)@);
}

/// A steam operation's fixture id follows the rule.
proof fn lemma_steam_id_ok(k: SteamOpKind)
    ensures
        id_ok(text_bytes(spec_steam_fixture_id(k)@)),
{
    match k {
        SteamOpKind::Start => { reveal_strlit("steam.start"); },
        SteamOpKind::Stop => { reveal_strlit("steam.stop"); },
        SteamOpKind::SetTemperature => { reveal_strlit("steam.set_temperature"); },
        SteamOpKind::SetDuration => { reveal_strlit("steam.set_duration"); },
        SteamOpKind::ReadStatus => { reveal_strlit("steam.read_status"); },
        SteamOpKind::ClearFaults => { reveal_strlit("steam.clear_faults"); },
        SteamOpKind::AddressOpportunity => { reveal_strlit("steam.address_opportunity"); },
        SteamOpKind::AssignAddress => { reveal_strlit("steam.assign_address"); },
    }
    lemma_chars_id_ok(spec_steam_fixture_id(k)@);
}

/// Nothing is unattested exactly when every required fixture is captured.
proof fn lemma_unattested_empty_iff(fs: Seq<Fixture>, req: Seq<&'static str>)
    ensures
        (unattested_spec_ids(fs, req).0.len() == 0 && unattested_spec_ids(fs, req).1.len() == 0)
            <==> all_required_captured(fs, req),
    decreases req.len(),
{
    if req.len() > 0 {
        let p = req.drop_last();
        lemma_unattested_empty_iff(fs, p);
        assert forall|i: int| 0 <= i < p.len() implies #[trigger] p[i] == req[i] by {}
        if all_required_captured(fs, req) {
            assert(all_required_captured(fs, p)) by {
                assert forall|i: int| 0 <= i < p.len() implies match crate::fixtures::find_first(fs, text_bytes((#[trigger] p[i])@)) {
                    Some(f) => f.spec_provenance() is Captured,
                    None => !id_ok(text_bytes(p[i]@)),
                } by {
                    assert(p[i] == req[i]);
                }
            }
            assert(req[req.len() - 1] == req.last());
        }
        if !all_required_captured(fs, req) && all_required_captured(fs, p) {
            let i = choose|i: int| 0 <= i < req.len() && !match crate::fixtures::find_first(fs, text_bytes((#[trigger] req[i])@)) {
                Some(f) => f.spec_provenance() is Captured,
                None => !id_ok(text_bytes(req[i]@)),
            };
            if i < p.len() {
                assert(p[i] == req[i]);
            }
        }
    }
}

/// **Nothing unattested means everything captured.** For every fixture set,
/// no required fixture is left documented or missing exactly when every
/// required transmit id is found in the set with captured provenance.
pub proof fn lemma_no_unattested_iff_all_captured(fs: Seq<Fixture>)
    ensures
        (unattested_spec_ids(fs, spec_required_ids()).0.len() == 0 && unattested_spec_ids(
            fs,
            spec_required_ids(),
        ).1.len() == 0) <==> every_required_captured(fs),
{
    lemma_unattested_empty_iff(fs, spec_required_ids());
    lemma_required_ids_ok();
    let req = spec_required_ids();
    if all_required_captured(fs, req) {
        assert forall|i: int| 0 <= i < req.len() implies (crate::fixtures::find_first(
            fs,
            text_bytes((#[trigger] req[i])@),
        ) matches Some(f) && f.spec_provenance() is Captured) by {
            assert(id_ok(text_bytes(req[i]@)));
        }
    }
    if every_required_captured(fs) {
        assert forall|i: int| 0 <= i < req.len() implies match crate::fixtures::find_first(
            fs,
            text_bytes((#[trigger] req[i])@),
        ) {
            Some(f) => f.spec_provenance() is Captured,
            None => !id_ok(text_bytes(req[i]@)),
        } by {}
    }
}

/// **What resolves.** A configuration resolves exactly if its pin, if any,
/// parses and matches the fixture set, and either only the emulator is
/// asked for, or the real bus is asked for with a pin, a non-blank capture
/// reference, every required fixture captured and every link's polarity
/// attested. What resolves carries the set's digest, and permits the real bus
/// exactly when the real bus was asked for.
pub proof fn lemma_resolve_succeeds_iff(cfg: TransmitGateConfig, fixtures: FixtureSet, r: Result<TransmitAuthority, GateError>)
    requires
        resolve_outcome(cfg, fixtures, r),
    ensures
        r is Ok <==> ((cfg.expected_fixtures_sha256 matches Some(p) ==> spec_parse_hash(p@) == Some(
            fixtures.spec_sha256(),
        )) && (cfg.scope == RequestedScope::EmulatorOnly || (cfg.expected_fixtures_sha256 is Some
            && cfg.capture_ref is Some && spec_trim(cfg.capture_ref->Some_0@).len() > 0 && every_required_captured(
            fixtures.spec_fixtures(),
        ) && unattested_spec(cfg.polarity.notes@).len() == 0))),
        r matches Ok(a) ==> a.spec_fixtures_sha256() == fixtures.spec_sha256() && (a.spec_scope() is RealBusAttested
            <==> cfg.scope == RequestedScope::RealBusAttested),
{
    lemma_no_unattested_iff_all_captured(fixtures.spec_fixtures());
}

} // verus!
