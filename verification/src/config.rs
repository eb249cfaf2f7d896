//! The workspace's `.kitchen.toml`, as plain values: what the library reads of
//! it. Reading and parsing the file is done by the caller.
use vstd::prelude::*;

verus! {

/// The `[container]` section.
pub struct Container {
    /// Where the workspace lives on the Docker host, when that differs from
    /// where this program sees it.
    pub workspace_mount_path: Option<String>,
    pub network: Option<String>,
    pub additional_mounts: Option<Vec<Mount>>,
}

/// One additional bind mount: a host path and a path in the container; a
/// relative path is taken relative to the workspace on the host.
pub struct Mount {
    pub source: String,
    pub target: String,
}

/// The kinds of mount that Docker knows.
pub enum MountType {
    Bind,
    Volume,
    Tmpfs,
    Image,
    Npipe,
    Cluster,
}

impl Default for MountType {
    fn default() -> (res: Self)
        ensures
            res is Bind,
    {
        MountType::Bind
    }
}

/// A TOML value. Floats and date-times carry nothing that the configuration
/// reads and stand as `Other`.
pub enum TomlValue {
    String(String),
    Integer(i64),
    Boolean(bool),
    Array(Vec<TomlValue>),
    Table(Vec<(String, TomlValue)>),
    Other,
}

/// The whole `.kitchen.toml`.
pub struct KitchenToml {
    pub name: Option<String>,
    pub container: Option<Container>,
    /// Registered extensions that this kitchen does not run.
    pub disabled_extensions: Option<Vec<String>>,
    /// Every other top-level section, keyed by its name, in sorted key order
    /// (as a TOML table keeps its keys): the sections that configure extensions.
    pub extension_configs: Vec<(String, TomlValue)>,
}

} // verus!
