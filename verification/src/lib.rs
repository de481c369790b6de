//! Provisioning helpers for local and cloud-hosted Kubernetes clusters.
//!
//! The library builds the command lines, configuration documents and request
//! payloads that the `hake` command-line tool hands to `kind`, `kubectl`,
//! Docker and the DigitalOcean API, and decides from their plain-value
//! results what to do next.  Everything here is verified; the surrounding
//! binary performs the process and network calls.

pub mod add;
pub mod config;
pub mod digitalocean;
pub mod encoding;
pub mod kind;
pub mod text;
