//! Removable-media bridge: device discovery, mount-table queries, capability
//! invocations and container image archive cataloguing, all as verified
//! functions over plain values. Process and filesystem work is left to callers.

pub mod text;
pub mod mounts;
pub mod device;
pub mod capability;
pub mod archive;
pub mod service;
