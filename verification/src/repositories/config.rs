//! The live settings.

use vstd::prelude::*;
use crate::config::Config;

verus! {

/// A holder of the agent's settings.
pub trait ConfigRepository {
    /// The settings held at present.
    spec fn config(&self) -> Config;

    /// A copy of the settings.
    fn get_config(&self) -> (r: Config)
        ensures
            r == self.config(),
    ;
}

/// The settings kept in memory.
#[derive(Debug)]
pub struct ConfigRepositoryForMemory {
    store: Config,
}

impl Clone for ConfigRepositoryForMemory {
    fn clone(&self) -> (r: Self)
        ensures
            r == *self,
    {
        Self { store: self.store.clone() }
    }
}

impl ConfigRepositoryForMemory {
    pub fn new(config: Config) -> (r: Self)
        ensures
            r.config() == config,
    {
        Self { store: config }
    }
}

impl ConfigRepository for ConfigRepositoryForMemory {
    closed spec fn config(&self) -> Config {
        self.store
    }

    fn get_config(&self) -> (r: Config) {
        self.store.clone()
    }
}

} // verus!
