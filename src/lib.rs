//! Runs a project's development shell inside a sandbox built from its
//! package-set closure: the verified planning side of the launcher.
pub mod config;
pub mod container;
pub mod foreign;
pub mod hook;
pub mod mount;
pub mod run;
pub mod strategy;
pub mod utils;

pub use container::{BuildError, BuildFailed, Container, InstantiationFailed};
