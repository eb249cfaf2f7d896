//! The mise extension: installs the mise tool manager in the image.
use vstd::prelude::*;

use crate::config::TomlValue;

verus! {

/// The mise extension. It takes no settings.
pub struct Mise {}

impl Mise {
    /// The extension; its section, if any, is ignored.
    pub fn from_toml(_v: &TomlValue) -> (res: Result<Self, String>)
        ensures
            res is Ok,
    {
        Ok(Mise {})
    }
}

} // verus!
