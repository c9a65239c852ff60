//! Configuration synthesis for a Mumble server container entrypoint.
//!
//! The library builds the server's runtime configuration file from a
//! template (which declares the supported option names), user overrides
//! (environment variables and secret files, both carrying a fixed name
//! prefix), and built-in defaults, while masking sensitive values in the
//! provenance log.

pub mod catalog;
pub mod launch;
pub mod laws;
pub mod names;
pub mod overrides;
pub mod synth;
pub mod text;
