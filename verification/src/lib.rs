//! In-process state core for a multi-window API-testing desktop tool.
//!
//! The crate tracks open workspaces (API test collections), the sessions
//! (windows) viewing them, and the lifecycle of request executions run
//! against them.  Registries, the execution-result correlator and the
//! execution controller are verified; file and network I/O live outside.

pub mod exec_state;
pub mod ids;
pub mod smap;
pub mod umap;
pub mod error;
pub mod model;
pub mod tree;
pub mod results;
pub mod sessions;
pub mod navigation;
pub mod correlator;
pub mod updates;
pub mod csvdata;
pub mod workspaces;
pub mod controller;
pub mod lifecycle;
pub mod pkce;

pub use exec_state::ExecutionState;
