//! Per-repository configuration: the release type of each package path.
use vstd::prelude::*;
use std::collections::HashMap;

verus! {

/// The ecosystem of a package.
#[derive(Clone, Copy, Debug, PartialEq, Eq, Structural)]
pub enum ReleaseType {
    Cargo,
    Node,
}

/// How one package is released.
pub struct Package {
    pub release_type: ReleaseType,
}

/// The configuration of a repository: its packages, by path.
pub struct Config {
    pub packages: HashMap<String, Package>,
}

impl Default for Config {
    /// A configuration without packages.
    fn default() -> (r: Config)
        ensures
            r.packages@.len() == 0,
    {
        Config { packages: HashMap::new() }
    }
}

} // verus!
