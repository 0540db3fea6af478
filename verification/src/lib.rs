//! A fetch-and-store job handler: a job arrives as a structured text
//! message, is validated against its declared filesystem requirements,
//! and names a source URL to fetch and a destination path to fill.
//! This crate holds the verified core: the job model, the message
//! grammar, parameter resolution, requirement checking, and the
//! decision pipeline that tells a runtime what to do next. The runtime
//! around it performs the probes, the HTTP transfer and the file write.
#![verifier::loop_isolation(false)]

pub mod model;
pub mod check;
pub mod parse;
pub mod session;
