//! Package trust analysis for Arch-based systems: source classification,
//! explainable trust scoring, build-script diffing and anomaly detection,
//! privacy redaction of build scripts, and community-consensus verdicts.

pub mod text;
pub mod order;
pub mod backends;
pub mod audit;
pub mod config;
pub mod resolver;
pub mod display;
pub mod cli;
pub mod install;
pub mod trust;
pub mod trust_db;
pub mod sanitize;
pub mod compare;
pub mod upgrade;
