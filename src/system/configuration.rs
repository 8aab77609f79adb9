//! The application's stored configuration.
use vstd::prelude::*;

verus! {

/// One configured system.
#[derive(Clone, Debug)]
pub struct System {
    pub id: u32,
    pub description: String,
}

/// The configuration file's content.
#[derive(Clone, Debug)]
pub struct Configuration {
    pub name: String,
    pub systems: Vec<System>,
}

/// The name of a configuration written when none exists.
pub const DEFAULT_CONFIGURATION_NAME: &'static str = "default";

impl Default for Configuration {
    /// A configuration named `default` with no systems.
    fn default() -> (r: Configuration)
        ensures
            r.name@ == DEFAULT_CONFIGURATION_NAME@,
            r.systems@.len() == 0,
    {
        Configuration { name: DEFAULT_CONFIGURATION_NAME.to_owned(), systems: Vec::new() }
    }
}

} // verus!
