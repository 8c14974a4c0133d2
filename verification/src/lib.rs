//! Saturn and DTV+ wire codecs for the Kohler DTV+ replacement controller,
//! the evidence base and transmit gate, and the safety kernel that decides
//! when water may flow.

pub mod time;
pub mod units;
pub mod saturn;
pub mod dtv;
pub mod fixtures;
pub mod gate;
pub mod safety;

pub use fixtures::{
    EvidenceTier, Fixture, FixtureDirection, FixtureError, FixtureId, FixtureSet, Provenance,
    required_transmit_ids, saturn_op_fixture_id, steam_op_fixture_id,
};
pub use gate::{
    GateError, PolarityAttestation, PolarityNote, RequestedScope, TransmitAuthority,
    TransmitGateConfig, TransmitScope,
};
pub use saturn::{Direction, LinkPhase};
