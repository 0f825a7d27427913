use vstd::prelude::*;

verus! {

/// The settings read at startup.
#[derive(Debug)]
pub struct EremitConfig {
    pub version: u8,
    pub port: String,
}

impl Default for EremitConfig {
    fn default() -> (r: Self)
        ensures
            r.version == 0,
            r.port@.len() == 0,
    {
        EremitConfig { version: 0, port: String::new() }
    }
}

} // verus!
