//! The sandbox policy as read from a project's `.laurnrc`.
use vstd::prelude::*;

verus! {

/// Which set of host paths is exposed to the sandbox.
#[derive(PartialEq, Eq, Structural, Debug, Copy, Clone)]
pub enum Mode {
    Bare,
    Rust,
}

/// Whether the sandbox gets a network namespace of its own.
#[derive(PartialEq, Eq, Structural, Debug, Copy, Clone)]
pub enum NetworkConfig {
    Isolated,
    Exposed,
}

/// The `[laurn]` table of the policy file.
#[derive(PartialEq, Eq, Structural, Debug, Copy, Clone)]
pub struct LaurnConfig {
    pub mode: Mode,
    pub network: NetworkConfig,
}

/// A whole policy file.
#[derive(PartialEq, Eq, Structural, Debug, Copy, Clone)]
pub struct Config {
    pub laurn: LaurnConfig,
}

impl Default for NetworkConfig {
    fn default() -> (r: Self)
        ensures
            r == NetworkConfig::Isolated,
    {
        NetworkConfig::Isolated
    }
}

impl Default for LaurnConfig {
    fn default() -> (r: Self)
        ensures
            r.mode == Mode::Bare,
            r.network == NetworkConfig::Isolated,
    {
        LaurnConfig { mode: Mode::Bare, network: NetworkConfig::Isolated }
    }
}

impl Default for Config {
    fn default() -> (r: Self)
        ensures
            r.laurn.mode == Mode::Bare,
            r.laurn.network == NetworkConfig::Isolated,
    {
        Config { laurn: LaurnConfig::default() }
    }
}

} // verus!
