//! Content providers: their manifests, and the supervisor that starts and
//! stops the processes that serve them.

pub mod loader;
pub mod manifest;
