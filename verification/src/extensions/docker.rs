//! The docker extension: installs Docker in the image.
use vstd::prelude::*;

use crate::config::TomlValue;

verus! {

/// The docker extension. It takes no settings.
pub struct Docker {}

impl Docker {
    /// The extension; its section, if any, is ignored.
    pub fn from_toml(_v: &TomlValue) -> (res: Result<Self, String>)
        ensures
            res is Ok,
    {
        Ok(Docker {})
    }
}

} // verus!
