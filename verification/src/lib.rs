//! Liveness checking for kernel primitives.
//!
//! A primitive can be compiled, packaged and installed and still do nothing at run time. Probes
//! decide on a [`Verdict`] from what has been observed ([`probes`]), an attestation keeps
//! receipts and says what changed since the last one and for how long a primitive has been dark
//! ([`mod@attest`]), and the rest is what to do about it: dependencies ([`crossdep`]), remedies
//! ([`remedy`]), events for the bus ([`watch`]) and notifications ([`notify`]).
//!
//! Nothing in here reads a file, runs a command or prints.

pub mod attest;
pub mod crossdep;
pub mod delta;
pub mod env;
pub mod evidence;
pub mod json;
pub mod names;
pub mod notify;
pub mod order;
pub mod paths;
pub mod probes;
pub mod receipt;
pub mod remedy;
pub mod render;
pub mod report;
pub mod split;
pub mod store;
pub mod streak;
pub mod text;
pub mod time;
pub mod verdict;
pub mod watch;

pub use attest::{attest, AttestResult};
pub use crossdep::{annotate, canonical_edges, AnnotatedReport, Effect, EnablementEdge, PrimitiveId};
pub use delta::{compute_deltas, Delta, DeltaKind};
pub use env::ProbeEnv;
pub use evidence::{Evidence, EvidencePair};
pub use names::NameMap;
pub use probes::{AgentnsProbe, MemlogProbe, ProvfsProbe, WardenProbe};
pub use receipt::{AttestClock, Receipt, SystemClock};
pub use report::PrimitiveReport;
pub use store::{ReceiptStore, StoredFile};
pub use streak::{compute_streaks, streak_band, StreakInfo};
pub use time::Timestamp;
pub use verdict::Verdict;
