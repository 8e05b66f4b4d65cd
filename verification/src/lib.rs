//! Job execution and streaming core of an Xcode bridge service.
//!
//! The crate holds the verified heart of the service: the job registry with
//! its state machine, the argument translation and line-capture rules of the
//! external build tool, the incremental log-delivery protocol for observers,
//! and the request validation and path-allowlist policy. Process spawning,
//! HTTP transport and other input/output live outside this crate and talk to
//! it through plain values.

pub mod config;
pub mod devices;
pub mod driver;
pub mod error;
pub mod models;
pub mod observer;
pub mod registry;
pub mod report;
pub mod runner;
pub mod text;
