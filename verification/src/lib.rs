//! Configuration resolution and validation engine for a data-generation
//! toolkit.
//!
//! Given a named connector definition and a set of caller-supplied parameter
//! overrides, the crate produces a fully resolved output-sink specification:
//! overrides are merged under a strict per-connector whitelist, a
//! protocol-specific backoff policy is applied, and a serialization format is
//! chosen.  Independently, the crate classifies configuration problems
//! (identifier convention violations, parse failures, proportion mismatches)
//! into severity-ranked reports.
//!
//! Directory discovery of connector definitions, file and network I/O, and
//! the actual data generation are external collaborators: callers hand the
//! engine plain values (the connector mapping, lint rows, sink statistics)
//! and receive plain values back.

pub mod clean;
pub mod connector;
pub mod errors;
pub mod gen_cli;
pub mod lint;
pub mod params;
pub mod paths;
pub mod policy;
pub mod proj_cli;
pub mod resolve;
pub mod strutil;
pub mod textfmt;
pub mod validate;
