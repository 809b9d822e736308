//! Verified core of a log-forwarding pipeline.
//!
//! The crate covers the logic of a small logging system: a totally ordered
//! severity scale with per-sink filtering, deterministic wire-format
//! rendering (plain text and JSON) with a proved parse/render round trip,
//! a fan-out logger that plans one delivery per enabled sink, a relay that
//! checks CORS, parses ingest submissions and prepares outbound forwards
//! under a bounded worker pool, and a heartbeat/shutdown coordinator.
//!
//! All I/O (sockets, files, clocks, the async runtime) lives outside this
//! crate; callers perform the planned actions and feed outcomes back in.

pub mod bytes;
pub mod heartbeat;
pub mod logger;
pub mod parse;
pub mod record;
pub mod relay;
pub mod render;
pub mod severity;
