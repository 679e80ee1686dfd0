//! A client for a remote file store that performs no I/O of its own.
//!
//! The crate builds every request the client sends and interprets every
//! reply it gets: the session against a base endpoint, the credential
//! exchange, the tree listing, the file reads, and the plan that mirrors the
//! remote tree under a local directory. The caller moves the bytes: it sends
//! a [`wire::Request`], hands back a [`wire::Reply`], and carries out each
//! [`download::FileWrite`].
//!
//! A run goes through these steps, each of which needs what the step before
//! it gave:
//!
//! 1. [`server::Server::probe`] gives the reachability probe, and
//!    [`server::Server::new`] takes its status and gives the session.
//! 2. [`server::Server::auth_request`] gives the credential exchange, and
//!    [`server::Server::auth_user`] takes its reply and gives the identity.
//! 3. [`server::FS::tree_request`] gives the listing request, and
//!    [`server::FS::tree`] takes its reply and gives the paths.
//! 4. [`download::plan_downloads`] gives one task for each path. Each task
//!    hands out its read, takes the reply, hands out its write, and takes
//!    the end of the write.
//! 5. [`download::run_outcome`] says what the run came to.

pub mod download;
pub mod encoding;
pub mod endpoint;
pub mod local;
pub mod server;
pub mod wire;
