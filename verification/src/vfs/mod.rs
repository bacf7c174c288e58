//! A file system that mounts other stores onto fixed virtual paths.
//!
//! The stores themselves are opaque here: a mount holds a handle of any type
//! `O`. This module decides which mount a path belongs to, what is asked of
//! that mount, and what is answered without asking.

pub mod access;
pub mod builder;
pub mod lister;
pub mod reader;
pub mod util;

pub use access::{
    MetadataStep, MountAccess, MountDeleter, MountReader, MountWriter, Operation, Target,
};
pub use builder::{Mount, MountLayer, PendingMount, VfsBuilder, VfsQuota};
pub use lister::{ListAction, MountLister};
pub use reader::{MountHandle, MountReadStream, BUFFER_SIZE};
