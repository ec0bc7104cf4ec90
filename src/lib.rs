//! A small remote-execution orchestrator: module descriptors are parsed into
//! modules, modules are collected into a registry, and each execution of a
//! module is driven by a verified state machine whose actions (connecting,
//! authenticating, running commands, releasing shared resources) are carried
//! out by the caller.

pub mod text;
pub mod module;
pub mod session;
pub mod registry;
pub mod laws;
