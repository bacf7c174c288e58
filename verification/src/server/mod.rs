//! What the service decides for each request.
//!
//! Reading users, opening stores and running jobs happens elsewhere: a request
//! is checked here first, and what came back is judged here afterwards.

pub mod by_path;
pub mod files;
pub mod handles;
pub mod ids;
pub mod jobs;
pub mod requests;
pub mod users;
