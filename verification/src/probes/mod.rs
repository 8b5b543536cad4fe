//! One probe per primitive.
//!
//! A probe decides on what has been observed. Where it needs a further observation only in some
//! cases, it is split into a first step, which says whether it does, and a second.

pub mod agentns;
pub mod memlog;
pub mod provfs;
pub mod warden;

pub use agentns::AgentnsProbe;
pub use memlog::MemlogProbe;
pub use provfs::ProvfsProbe;
pub use warden::WardenProbe;
