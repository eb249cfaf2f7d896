//! The tailscale extension: installs tailscale, runs it as a pitchfork daemon
//! and brings the container onto the tailnet with SSH after start.
use vstd::prelude::*;

use crate::config::TomlValue;

verus! {

/// The tailscale extension. It takes no settings.
pub struct Tailscale {}

impl Tailscale {
    /// The extension; its section, if any, is ignored.
    pub fn from_toml(_v: &TomlValue) -> (res: Result<Self, String>)
        ensures
            res is Ok,
    {
        Ok(Tailscale {})
    }
}

} // verus!
