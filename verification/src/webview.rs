//! An embedded browser view: its configuration, the state of one view, and the
//! controller that brings a surface's view up frame by frame.

pub mod config;
pub mod platform_handle;
pub mod surface;
pub mod view;
