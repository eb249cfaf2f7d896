//! The pitchfork extension: installs the pitchfork daemon supervisor in the
//! image and sets up its configuration at container start.
use vstd::prelude::*;

use crate::config::TomlValue;

verus! {

/// The pitchfork extension. It takes no settings.
pub struct Pitchfork {}

impl Pitchfork {
    /// The extension; its section, if any, is ignored.
    pub fn from_toml(_v: &TomlValue) -> (res: Result<Self, String>)
        ensures
            res is Ok,
    {
        Ok(Pitchfork {})
    }
}

} // verus!
