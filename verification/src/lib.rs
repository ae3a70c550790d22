//! Directory mirroring against a remote file store.
//!
//! Nothing here touches the network or the disk. Whatever has to be done
//! out there is named by a state machine; the caller carries it out and
//! hands back what came of it.
//!
//! - [`objects`]: the values read from configuration and exchanged with
//!   the store.
//! - [`config_file`]: when a configuration is accepted.
//! - [`utils`]: how paths are joined, and when a key is authorized.
//! - [`api_conn`]: the request that stands for each remote operation, and
//!   when a response counts as a failure.
//! - [`transfer`]: the chunk arithmetic of an upload and the placement of
//!   the buffers of a download.
//! - [`session`]: the transfer of one file, step by step.
//! - [`walk`]: the states of the engine and the step between them, as
//!   mathematics.
//! - [`engine`]: the engine itself.
//! - [`laws`]: what holds of every run of the engine.
//! - [`world`]: the engine run against a model of the two sides.
//! - [`descent`]: the walk as a recursion over the tree, which the engine
//!   follows operation for operation.

pub mod api_conn;
pub mod config_file;
pub mod descent;
pub mod engine;
pub mod laws;
pub mod objects;
pub mod session;
pub mod transfer;
pub mod utils;
pub mod walk;
pub mod world;
