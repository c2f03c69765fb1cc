use vstd::prelude::*;

pub mod analyzer;
pub mod apps;
pub mod binary64;
pub mod cli;
pub mod docker;
pub mod engine;
pub mod error;
pub mod fs;
pub mod models;
pub mod ops;
pub mod paths;
pub mod platform;
pub mod providers;
pub mod safety;
pub mod scan;
pub mod settings;
pub mod system;
pub mod text;

verus! {

} // verus!
