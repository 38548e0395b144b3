//! A unified front end for installing, removing and aliasing Linux
//! applications that come in three formats: portable AppImage bundles,
//! Debian packages and Flatpak bundles.
//!
//! This crate holds the verified core: name normalisation, format
//! detection, registry-entry validation, and the decision logic of the
//! three handlers and the install/remove orchestrator, stated over an
//! explicit model of the managed directories. All filesystem, network
//! and subprocess work is left to the surrounding binary, which probes
//! the system, feeds the results in as plain values, and carries out
//! the actions the core hands back.

pub mod commands;
pub mod db;
pub mod errors;
pub mod handlers;
pub mod model;
pub mod paths;
pub mod text;
pub mod utils;
