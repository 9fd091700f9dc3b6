//! Orchestration core of a multi-provider tool installer: install options,
//! workspace identity, per-provider runners, error aggregation and the
//! protocol that swaps a staged workspace into place.

pub mod error;
pub mod option;
pub mod bins;
pub mod runner;
pub mod workspace;
pub mod swap;
pub mod service;
pub mod commit;
