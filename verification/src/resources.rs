//! The files that ship inside the program: scripts and configuration that go
//! into the image or are run by extensions. The caller supplies their contents.
use vstd::prelude::*;

verus! {

/// The contents of the bundled resource files.
pub struct Resources {
    /// The container's entry point script, `init.sh`.
    pub init_sh: Vec<u8>,
    /// The system package installer, `kitchen-pkg`.
    pub kitchen_pkg: Vec<u8>,
    /// The dotfiles provisioning script.
    pub dotfiles_sh: String,
    /// The pitchfork installation script.
    pub pitchfork_install_sh: String,
    /// The pitchfork configuration script run at container start.
    pub pitchfork_onstart_sh: String,
    /// The pitchfork daemon definition for tailscale.
    pub tailscale_pitchfork_toml: Vec<u8>,
}

} // verus!
