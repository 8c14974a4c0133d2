//! The safety kernel: which links may run, what every fault shuts down, and
//! the grant without which no outlet opens.

pub mod event;
pub mod session;
pub mod grant;
pub mod authority;
pub mod kernel;
pub mod rtd;

pub use authority::{IsLatched, ZoneAuthority};
pub use event::{DegradeReason, Effect, FaultScope, FindingClass, LatchReason, SafetyEvent};
pub use grant::{Denial, OpenGrant, OperatorAck, StartAuthorization, ValidatedStart};
pub use kernel::{Bounds, Effects, LinkState, SafetyKernel};
pub use rtd::{Divergence, RtdEvents, RtdJudgement, RtdLimits, RtdSample, RtdWatch};
pub use session::SessionDeadline;
