//! Bookkeeping for a tablet that is mounted as a file system.

pub mod errno;
pub mod fuse_provider;
pub mod ident;
pub mod monitor;
pub mod net_listener;
pub mod text;

pub use monitor::Monitor;
