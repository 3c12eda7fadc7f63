//! Buffered, sequential programming of an erase-before-write flash region.
//!
//! The controller is reached through [`controller::RegisterInterface`]; the
//! contracts of this crate are stated over [`controller::Controller`], the
//! mathematical model of what that interface exposes.

pub mod mem_ext;
pub mod error;
pub mod config;
pub mod status;
pub mod controller;
pub mod poller;
pub mod chunking;
pub mod flash;
pub mod sim;
pub mod laws;
