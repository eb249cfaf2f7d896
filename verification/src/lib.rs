//! A development-container manager: builds a container image description for a
//! workspace, derives the container's mounts and environment, and decides what the
//! lifecycle hooks of its extensions run.
use vstd::prelude::*;

pub mod cmd;
pub mod config;
pub mod container;
pub mod extensions;
pub mod hooks;
pub mod image;
pub mod kitchen;
pub mod resources;
pub mod text;

verus! {
} // verus!
