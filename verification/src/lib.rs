//! The launch orchestrator of a handheld-style desktop shell: the
//! versioned runtime components' update decisions, the per-application
//! manifest parser, the compatibility-runner environment builder, and the
//! launch planner and command dispatch. Every function here is verified;
//! the filesystem, network and compositor-socket work around it feeds
//! these functions plain values and carries out what they decide.
pub mod clients;
pub mod config;
pub mod environment;
pub mod events;
pub mod icons;
pub mod launch;
pub mod listing;
pub mod manifest;
pub mod strutil;
pub mod update;
