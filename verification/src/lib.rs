//! Verified core of a multi-user virtual file system server.

pub mod db;
pub mod error;
pub mod ftp;
pub mod ipc;
pub mod list;
pub mod model;
pub mod quota;
pub mod read_only;
pub mod server;
pub mod status;
pub mod store;
pub mod strmap;
pub mod text;
pub mod utils;
pub mod vfs;
