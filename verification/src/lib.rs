//! The core of a host that shows web content inside a native window: the
//! state of an embedded view and of the surface that brings it up, the bridge
//! that carries messages from hosted content to the host, the manifests of
//! content providers and the supervisor of the processes that serve them, and
//! the reading of podcast scripts.
//!
//! The library decides and the host acts: nothing here touches a window, a
//! socket, the disk or a process. Each operation records what is now the case
//! and hands back what the host has to do.

pub mod ipc;
pub mod json;
pub mod json_proofs;
pub mod json_tree;
pub mod plugins;
pub mod podcast;
pub mod text;
pub mod webview;
