//! Peer management: descriptors, the name-keyed registry, tool discovery and
//! tool invocation.

pub mod discovery;
pub mod manager;
pub mod names;
pub mod tool_adaptor;
pub mod tool_set;
pub mod transport;
