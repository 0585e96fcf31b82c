//! Orchestration engine of a conformance harness for a live-media
//! publish/subscribe relay: the scenario registry, the skip policy, the
//! per-scenario deadline, the scripts that drive the sessions, and the
//! streamed report.

pub mod driver;
pub mod error;
pub mod outcome;
pub mod registry;
pub mod relay;
pub mod report;
pub mod script;
pub mod supervisor;
pub mod text;
