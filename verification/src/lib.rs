//! `hurry`: the logic of a build cache for Cargo projects.
pub mod bytes;
pub mod cache;
pub mod cargo;
pub mod ci;
pub mod client;
pub mod cross;
pub mod daemon;
pub mod fs;
pub mod gcp_cas;
pub mod hash;
pub mod path;
pub mod progress;
pub mod text;

pub use progress::format_transfer_rate;

use vstd::prelude::*;

verus! {

/// The associated type's state is unlocked (typestate marker).
#[derive(Copy, Clone, PartialEq, Eq, Debug, Default)]
pub struct Unlocked;

/// The associated type's state is locked (typestate marker).
#[derive(Copy, Clone, PartialEq, Eq, Debug, Default)]
pub struct Locked;

} // verus!
