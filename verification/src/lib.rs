//! Account-switching logic for Codex authentication profiles.
use vstd::prelude::*;

pub mod auth;
pub mod config;
pub mod desktop;
pub mod domain;
pub mod host_ops;
pub mod interop;
pub mod limits;
pub mod path;
pub mod profile_store;
pub mod session;
pub mod text;
pub mod tui;
pub mod updater;

verus! {

} // verus!
