//! Cross-domain context type: the command protocol, the item and job bookkeeping and the
//! decisions of a virtio-gpu context that shares resources across domain boundaries.

pub mod atomic_memory_sentinel_manager;
pub mod command;
pub mod common;
pub mod component;
pub mod context;
pub mod cross_domain_protocol;
pub mod dispatch;
pub mod handle;
pub mod laws;
pub mod layouts;
pub mod platform;
pub mod promises;
pub mod rutabaga_utils;
pub mod wire;
pub mod worker;
