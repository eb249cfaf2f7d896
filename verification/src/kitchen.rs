//! A kitchen: a workspace on the host with its container's settings and its
//! extensions, derived from the workspace's path and its `.kitchen.toml`.
use vstd::prelude::*;

use crate::config;
use crate::config::KitchenToml;
use crate::container::{bind_mount_view, Mount, MountView};
use crate::extensions::{build, build_outcome, configs_of, disabled_of, extension_views, AnyExtension, AnyExtensionView};
use crate::text::{join_path, path_join, string_views};

verus! {

/// A kitchen ready to be built, started or entered.
pub struct KitchenConfig {
    pub name: String,
    /// The workspace as this program sees it.
    pub local_workspace_path: String,
    /// Where the workspace is mounted in the container.
    pub container_workspace_path: String,
    pub container: ContainerConfig,
    /// System packages installed in the image beyond the default set; nothing
    /// in `.kitchen.toml` sets them, so a kitchen read from a workspace has none.
    pub system_packages: Vec<String>,
    /// The extensions, in the order in which their hooks run.
    pub extensions: Vec<AnyExtension>,
}

/// The container's settings.
pub struct ContainerConfig {
    /// The workspace as the Docker host sees it.
    pub host_workspace_path: String,
    pub additional_mounts: Vec<Mount>,
    pub network: Option<String>,
    /// The image that the kitchen's image is built from.
    pub base_image: String,
}

/// The image that a kitchen's image is built from: Debian, which the default
/// package list (`build-essential`, `locale-gen`) is written for.
pub open spec fn default_base_image() -> Seq<char> {
    "debian:bookworm"@
}

/// The characters of `p` after its last `/` (all of `p` when it has none).
pub open spec fn last_segment(p: Seq<char>) -> Seq<char>
    decreases p.len(),
{
    if p.len() == 0 {
        p
    } else if p.last() == '/' {
        Seq::empty()
    } else {
        last_segment(p.drop_last()).push(p.last())
    }
}

/// The final component of a Unix path, as `Path::file_name` gives it: trailing
/// separators and `.` components are passed over; the last component that
/// remains is the name, unless it is `..` or there is none (an empty path, the
/// root, `.`).
pub open spec fn path_file_name(p: Seq<char>) -> Option<Seq<char>>
    decreases p.len(),
{
    if p.len() == 0 {
        None
    } else if p.last() == '/' {
        path_file_name(p.drop_last())
    } else if last_segment(p) == "."@ {
        path_file_name(p.drop_last())
    } else if last_segment(p) == ".."@ {
        None
    } else {
        Some(last_segment(p))
    }
}

proof fn lemma_last_segment(p: Seq<char>, start: int)
    requires
        0 <= start <= p.len(),
        start == 0 || p[start - 1] == '/',
        forall|j: int| start <= j < p.len() ==> p[j] != '/',
    ensures
        last_segment(p) == p.subrange(start, p.len() as int),
    decreases p.len(),
{
    if p.len() > 0 {
        if start == p.len() {
            assert(p.last() == '/');
            assert(p.subrange(start, p.len() as int) =~= Seq::<char>::empty());
        } else {
            lemma_last_segment(p.drop_last(), start);
            assert(p.subrange(start, p.len() as int) =~= p.drop_last().subrange(start, p.len() - 1).push(p.last()));
        }
    } else {
        assert(p.subrange(start, p.len() as int) =~= p);
    }
}

/// The final component of the path `p`, as `Path::file_name` gives it on Unix.
fn file_name(p: &str) -> (res: Option<String>)
    ensures
        match res {
            Some(n) => path_file_name(p@) == Some(n@),
            None => path_file_name(p@) is None,
        },
{
    let mut end = p.unicode_len();
    assert(p@.subrange(0, end as int) =~= p@);
    loop
        invariant
            end <= p@.len(),
            path_file_name(p@.subrange(0, end as int)) == path_file_name(p@),
        decreases end,
    {
        proof {
            reveal_strlit(".");
            reveal_strlit("..");
        }
        let ghost prefix = p@.subrange(0, end as int);
        if end == 0 {
            return None;
        }
        assert(prefix.drop_last() =~= p@.subrange(0, end - 1));
        if p.get_char(end - 1) == '/' {
            end = end - 1;
        } else {
            let mut start = end - 1;
            while start > 0 && p.get_char(start - 1) != '/'
                invariant
                    start < end <= p@.len(),
                    forall|j: int| start <= j < end ==> p@[j] != '/',
                decreases start,
            {
                start = start - 1;
            }
            proof {
                assert forall|j: int| start <= j < prefix.len() implies prefix[j] != '/' by {
                    assert(prefix[j] == p@[j]);
                }
                if start > 0 {
                    assert(prefix[start - 1] == p@[start - 1]);
                }
                lemma_last_segment(prefix, start as int);
                assert(prefix.subrange(start as int, end as int) =~= p@.subrange(start as int, end as int));
            }
            let seg = p.substring_char(start, end);
            if end - start == 1 && p.get_char(start) == '.' {
                assert(seg@[0] == p@[start as int]);
                assert("."@ =~= seq!['.']);
                assert(seg@ =~= "."@);
                end = end - 1;
            } else if end - start == 2 && p.get_char(start) == '.' && p.get_char(start + 1) == '.' {
                assert(seg@[0] == p@[start as int]);
                assert(seg@[1] == p@[start + 1]);
                assert(".."@ =~= seq!['.', '.']);
                assert(seg@ =~= ".."@);
                return None;
            } else {
                assert("."@ =~= seq!['.']);
                assert(".."@ =~= seq!['.', '.']);
                proof {
                    if seg@.len() == 1 {
                        assert(seg@[0] == p@[start as int]);
                    }
                    if seg@.len() == 2 {
                        assert(seg@[0] == p@[start as int]);
                        assert(seg@[1] == p@[start + 1]);
                    }
                }
                assert(seg@ != "."@);
                assert(seg@ != ".."@);
                return Some(seg.to_owned());
            }
        }
    }
}

/// A mount path of the configuration resolved against the workspace on the
/// host: absolute paths stand, relative ones are joined to the workspace.
pub open spec fn resolved_mount_path(path: Seq<char>, host_workspace_path: Seq<char>) -> Seq<char> {
    path_join(host_workspace_path, path)
}

/// Where the workspace lives on the Docker host: the configured mount path, or
/// the workspace as this program sees it.
pub open spec fn host_workspace_of(cfg: Option<&config::Container>, local_workspace_path: Seq<char>) -> Seq<char> {
    match cfg {
        Some(c) => match c.workspace_mount_path {
            Some(p) => p@,
            None => local_workspace_path,
        },
        None => local_workspace_path,
    }
}

/// The additional mounts of the configuration, if any.
pub open spec fn config_mounts(cfg: Option<&config::Container>) -> Seq<config::Mount> {
    match cfg {
        Some(c) => match c.additional_mounts {
            Some(m) => m@,
            None => Seq::empty(),
        },
        None => Seq::empty(),
    }
}

/// The views of a list of Docker mounts.
pub open spec fn mount_views(mounts: Seq<Mount>) -> Seq<MountView> {
    mounts.map_values(|m: Mount| m@)
}

/// The Docker mount of one configured mount: a bind mount of both paths
/// resolved against the workspace on the host, which does not create a missing
/// mount point.
pub open spec fn docker_mount_of(m: config::Mount, host_workspace_path: Seq<char>) -> MountView {
    bind_mount_view(
        resolved_mount_path(m.source@, host_workspace_path),
        resolved_mount_path(m.target@, host_workspace_path),
    )
}

/// The container path of a workspace named `name`.
pub open spec fn container_workspace_path_of(name: Seq<char>) -> Seq<char> {
    "/workspaces/"@ + name
}

/// A configured mount path that is absolute passes through unchanged.
pub proof fn law_absolute_mount_path_unchanged(path: Seq<char>, host_workspace_path: Seq<char>)
    requires
        crate::text::is_absolute_path(path),
    ensures
        resolved_mount_path(path, host_workspace_path) == path,
{
}

/// A configured mount path that is relative lands under the workspace on the
/// host: it is the workspace path, a separator unless the workspace path is
/// empty or already ends with one, and the configured path.
pub proof fn law_relative_mount_path_joined(path: Seq<char>, host_workspace_path: Seq<char>)
    requires
        !crate::text::is_absolute_path(path),
        host_workspace_path.len() > 0,
        host_workspace_path.last() != '/',
    ensures
        resolved_mount_path(path, host_workspace_path) == host_workspace_path + seq!['/'] + path,
        crate::text::has_prefix(resolved_mount_path(path, host_workspace_path), host_workspace_path),
{
    let r = resolved_mount_path(path, host_workspace_path);
    assert(r.subrange(0, host_workspace_path.len() as int) =~= host_workspace_path);
}

/// Every configured mount becomes exactly one bind mount, in order, and none of
/// them creates a missing mount point.
pub proof fn law_configured_mounts_are_binds(mounts: Seq<config::Mount>, host: Seq<char>)
    ensures
        mounts.map_values(|m: config::Mount| docker_mount_of(m, host)).len() == mounts.len(),
        forall|i: int| 0 <= i < mounts.len() ==> mounts.map_values(|m: config::Mount| docker_mount_of(m, host))[i]
            == docker_mount_of(#[trigger] mounts[i], host),
        forall|m: config::Mount| #[trigger] docker_mount_of(m, host).typ == Some(crate::container::MountTypeEnum::Bind),
        forall|m: config::Mount| #[trigger] docker_mount_of(m, host).bind_options == Some(
            crate::container::MountBindOptions { create_mountpoint: Some(false) },
        ),
{
}

/// Without a `[container]` section, or with one that lists no additional mounts,
/// the container has no additional mounts and the workspace is mounted from
/// where this program sees it when no mount path is configured.
pub proof fn law_no_mounts_without_config(local_workspace_path: Seq<char>)
    ensures
        config_mounts(None).len() == 0,
        host_workspace_of(None, local_workspace_path) == local_workspace_path,
{
}

impl ContainerConfig {
    /// The container settings from the `[container]` section, for a workspace at
    /// `local_workspace_path`.
    pub fn from_config(config_toml: Option<&config::Container>, local_workspace_path: &str) -> (res: Result<ContainerConfig, String>)
        ensures
            res matches Ok(c) && {
                let host = host_workspace_of(config_toml, local_workspace_path@);
                &&& c.host_workspace_path@ == host
                &&& mount_views(c.additional_mounts@) == config_mounts(config_toml).map_values(
                    |m: config::Mount| docker_mount_of(m, host),
                )
                &&& opt_string_view(c.network) == match config_toml {
                    Some(cfg) => opt_string_view(cfg.network),
                    None => None,
                }
                &&& c.base_image@ == default_base_image()
            },
    {
        let host_workspace_path = match config_toml {
            Some(c) => match &c.workspace_mount_path {
                Some(p) => p.clone(),
                None => local_workspace_path.to_owned(),
            },
            None => local_workspace_path.to_owned(),
        };
        let empty: Vec<config::Mount> = Vec::new();
        let mounts_toml = match config_toml {
            Some(c) => match &c.additional_mounts {
                Some(m) => m,
                None => &empty,
            },
            None => &empty,
        };
        assert(mounts_toml@ == config_mounts(config_toml));
        let ghost expected = config_mounts(config_toml).map_values(
            |m: config::Mount| docker_mount_of(m, host_workspace_path@),
        );
        let mut mounts: Vec<Mount> = Vec::new();
        let mut i: usize = 0;
        while i < mounts_toml.len()
            invariant
                i <= mounts_toml@.len(),
                mounts_toml@ == config_mounts(config_toml),
                expected == config_mounts(config_toml).map_values(
                    |m: config::Mount| docker_mount_of(m, host_workspace_path@),
                ),
                mount_views(mounts@) =~= expected.take(i as int),
            decreases mounts_toml.len() - i,
        {
            let m = &mounts_toml[i];
            let source = Self::mount_path(m.source.as_str(), host_workspace_path.as_str());
            let target = Self::mount_path(m.target.as_str(), host_workspace_path.as_str());
            let ghost before = mounts@;
            mounts.push(Mount::bind(source, target));
            proof {
                assert(mount_views(mounts@) =~= mount_views(before).push(expected[i as int]));
                assert(expected.take(i + 1) =~= expected.take(i as int).push(expected[i as int]));
            }
            i = i + 1;
        }
        assert(expected.take(mounts_toml@.len() as int) =~= expected);
        let network = match config_toml {
            Some(c) => match &c.network {
                Some(n) => Some(n.clone()),
                None => None,
            },
            None => None,
        };
        Ok(ContainerConfig {
            host_workspace_path,
            additional_mounts: mounts,
            network,
            base_image: "debian:bookworm".to_owned(),
        })
    }

    /// A configured mount path resolved against the workspace on the host.
    fn mount_path(path: &str, host_workspace_path: &str) -> (res: String)
        ensures
            res@ == resolved_mount_path(path@, host_workspace_path@),
    {
        join_path(host_workspace_path, path)
    }
}

/// The view of an optional string.
pub open spec fn opt_string_view(s: Option<String>) -> Option<Seq<char>> {
    match s {
        Some(s) => Some(s@),
        None => None,
    }
}

/// The name of a kitchen: the configured name, or the final component of the
/// workspace path.
pub open spec fn kitchen_name_of(toml: Option<&KitchenToml>, dir_name: Seq<char>) -> Seq<char> {
    match toml {
        Some(t) => match t.name {
            Some(n) => n@,
            None => dir_name,
        },
        None => dir_name,
    }
}

/// The `[container]` section of a configuration, if any.
pub open spec fn container_section_of(toml: Option<&KitchenToml>) -> Option<&config::Container> {
    match toml {
        Some(t) => match t.container {
            Some(c) => Some(&c),
            None => None,
        },
        None => None,
    }
}

impl KitchenConfig {
    /// The kitchen of the workspace at `local_workspace_path` (already resolved
    /// to an absolute path where possible) with its configuration `config_toml`,
    /// if the workspace has one. A path without a final component is refused,
    /// and so is a configuration that `extensions::build` refuses.
    pub fn from_workspace(local_workspace_path: String, config_toml: Option<&KitchenToml>) -> (res: Result<KitchenConfig, String>)
        ensures
            match path_file_name(local_workspace_path@) {
                None => res matches Err(e) && e@ == "workspace path has no final component"@,
                Some(dir_name) => match build_outcome(configs_of(config_toml), disabled_of(config_toml)) {
                    Err(e) => res matches Err(msg) && msg@ == e,
                    Ok(exts) => res matches Ok(k) && {
                        let name = kitchen_name_of(config_toml, dir_name);
                        let cfg = container_section_of(config_toml);
                        let host = host_workspace_of(cfg, local_workspace_path@);
                        &&& k.name@ == name
                        &&& k.local_workspace_path@ == local_workspace_path@
                        &&& k.container_workspace_path@ == container_workspace_path_of(name)
                        &&& k.container.host_workspace_path@ == host
                        &&& mount_views(k.container.additional_mounts@) == config_mounts(cfg).map_values(
                            |m: config::Mount| docker_mount_of(m, host),
                        )
                        &&& opt_string_view(k.container.network) == match cfg {
                            Some(c) => opt_string_view(c.network),
                            None => None,
                        }
                        &&& k.container.base_image@ == default_base_image()
                        &&& k.system_packages@.len() == 0
                        &&& extension_views(k.extensions@) == exts
                    },
                },
            },
    {
        let workspace_dir_name = match file_name(local_workspace_path.as_str()) {
            Some(n) => n,
            None => return Err("workspace path has no final component".to_owned()),
        };
        let name = match config_toml {
            Some(t) => match &t.name {
                Some(n) => n.clone(),
                None => workspace_dir_name,
            },
            None => workspace_dir_name,
        };
        let mut container_workspace_path = "/workspaces/".to_owned();
        container_workspace_path.append(name.as_str());
        let container_section = match config_toml {
            Some(t) => match &t.container {
                Some(c) => Some(c),
                None => None,
            },
            None => None,
        };
        assert(container_section == container_section_of(config_toml));
        let container = match ContainerConfig::from_config(container_section, local_workspace_path.as_str()) {
            Ok(c) => c,
            Err(e) => return Err(e),
        };
        let system_packages: Vec<String> = Vec::new();
        let extensions = match build(config_toml) {
            Ok(e) => e,
            Err(e) => return Err(e),
        };
        Ok(KitchenConfig {
            name,
            local_workspace_path,
            container_workspace_path,
            container,
            system_packages,
            extensions,
        })
    }

    /// The name of the kitchen's image and container: `<name>-kitchen`.
    pub fn container_name(&self) -> (res: String)
        ensures
            res@ == self.name@ + "-kitchen"@,
    {
        let mut s = self.name.clone();
        s.append("-kitchen");
        s
    }

    /// The environment entry that tells the container where the workspace is:
    /// `KITCHEN_WORKSPACE=<container workspace path>`.
    pub fn kitchen_workspace_env(&self) -> (res: String)
        ensures
            res@ == "KITCHEN_WORKSPACE="@ + self.container_workspace_path@,
    {
        let mut s = "KITCHEN_WORKSPACE=".to_owned();
        s.append(self.container_workspace_path.as_str());
        s
    }

    /// Where the workspace is mounted in the container.
    pub fn container_workspace_path_str(&self) -> (res: &str)
        ensures
            res@ == self.container_workspace_path@,
    {
        self.container_workspace_path.as_str()
    }
}

} // verus!
