//! Cleanup providers: one per data source, and the registry that orders them.
//!
//! A provider's scan walks the file system, which is the caller's part; what the library keeps
//! of each provider is what the rest of it decides by: its id, name, category, default risk and
//! the priority that settles overlaps.

use vstd::prelude::*;

pub mod browser;
pub mod catalog;
pub mod context;
pub mod installers;
pub mod custom;
pub mod projects;
pub mod registry;
pub mod simple;

pub use registry::{ProviderEntry, ProviderRegistry};

verus! {

} // verus!
