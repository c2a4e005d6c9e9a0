//! Peer-routing core of a sharded peer-to-peer overlay.
//!
//! The library tracks which agents are joined to which logical network
//! partitions ("spaces") and decides how the two fan-out protocols --
//! best-effort broadcast and quorum-bounded multi-request -- pick their
//! targets, resolve their timeouts, and collect their results.
//!
//! All I/O (the transport that performs a remote call, the timers, the task
//! spawning) lives outside this crate: the functions here are the decision
//! core that an actor loop drives.  Every function is verified; the
//! coordinator state machines are proved to contact each agent at most once
//! per invocation and never to target the requesting agent.

pub mod agent_set;
pub mod broadcast;
pub mod config;
pub mod fanout_laws;
pub mod membership_laws;
pub mod multi_request;
pub mod registry;
pub mod seq_facts;
pub mod types;

pub use agent_set::AgentSet;
pub use broadcast::Broadcast;
pub use broadcast::BroadcastPlan;
pub use broadcast::BroadcastState;
pub use membership_laws::MembershipOp;
pub use multi_request::MultiRequest;
pub use multi_request::MultiRequestPlan;
pub use multi_request::MultiRequestResponse;
pub use multi_request::MultiRequestState;
pub use registry::SpaceRegistry;
pub use types::KitsuneAgent;
pub use types::KitsuneBasis;
pub use types::KitsuneP2pError;
pub use types::KitsuneSpace;
