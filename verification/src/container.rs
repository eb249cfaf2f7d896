//! The kitchen's container: the Docker mounts, the creation request and the
//! decisions taken while the container is created, started, inspected and
//! removed. The Docker calls themselves are made by the caller.
use vstd::prelude::*;

use crate::kitchen::{mount_views, KitchenConfig};
use crate::text::{contains, contains_seq, string_views};

verus! {

/// The type of a Docker mount.
#[derive(Clone, Copy, PartialEq, Eq, Structural, Debug)]
pub enum MountTypeEnum {
    Bind,
    Volume,
    Image,
    Tmpfs,
    Npipe,
    Cluster,
}

/// Options of a bind mount.
#[derive(Clone, Copy, PartialEq, Eq, Structural, Debug)]
pub struct MountBindOptions {
    /// Whether Docker creates the mount point on the host when it is missing.
    pub create_mountpoint: Option<bool>,
}

/// A Docker mount, as the Docker API describes one.
#[derive(Debug)]
pub struct Mount {
    pub typ: Option<MountTypeEnum>,
    pub source: Option<String>,
    pub target: Option<String>,
    pub bind_options: Option<MountBindOptions>,
}

/// The view of a `Mount`.
pub struct MountView {
    pub typ: Option<MountTypeEnum>,
    pub source: Option<Seq<char>>,
    pub target: Option<Seq<char>>,
    pub bind_options: Option<MountBindOptions>,
}

pub open spec fn opt_view(s: Option<String>) -> Option<Seq<char>> {
    match s {
        Some(s) => Some(s@),
        None => None,
    }
}

impl View for Mount {
    type V = MountView;

    open spec fn view(&self) -> MountView {
        MountView {
            typ: self.typ,
            source: opt_view(self.source),
            target: opt_view(self.target),
            bind_options: self.bind_options,
        }
    }
}

/// A bind mount of `source` on the host at `target` in the container, for which
/// Docker does not create a missing mount point.
pub open spec fn bind_mount_view(source: Seq<char>, target: Seq<char>) -> MountView {
    MountView {
        typ: Some(MountTypeEnum::Bind),
        source: Some(source),
        target: Some(target),
        bind_options: Some(MountBindOptions { create_mountpoint: Some(false) }),
    }
}

/// A named volume `source` mounted at `target`.
pub open spec fn volume_mount_view(source: Seq<char>, target: Seq<char>) -> MountView {
    MountView {
        typ: Some(MountTypeEnum::Volume),
        source: Some(source),
        target: Some(target),
        bind_options: None,
    }
}

fn copy_opt_string(s: &Option<String>) -> (res: Option<String>)
    ensures
        opt_view(res) == opt_view(*s),
{
    match s {
        Some(s) => Some(s.clone()),
        None => None,
    }
}

impl Mount {
    /// A bind mount of `source` at `target` that does not create its mount point.
    pub fn bind(source: String, target: String) -> (res: Self)
        ensures
            res@ == bind_mount_view(source@, target@),
    {
        Mount {
            typ: Some(MountTypeEnum::Bind),
            source: Some(source),
            target: Some(target),
            bind_options: Some(MountBindOptions { create_mountpoint: Some(false) }),
        }
    }

    /// The named volume `source` mounted at `target`.
    pub fn volume(source: String, target: String) -> (res: Self)
        ensures
            res@ == volume_mount_view(source@, target@),
    {
        Mount { typ: Some(MountTypeEnum::Volume), source: Some(source), target: Some(target), bind_options: None }
    }

    /// A mount equal to this one.
    pub fn duplicate(&self) -> (res: Self)
        ensures
            res@ == self@,
    {
        Mount {
            typ: self.typ,
            source: copy_opt_string(&self.source),
            target: copy_opt_string(&self.target),
            bind_options: self.bind_options,
        }
    }
}

/// What the container is created with.
pub struct ContainerSpec {
    /// The container's name, which is also its image's tag and its hostname.
    pub name: String,
    pub image: String,
    pub hostname: String,
    pub env: Vec<String>,
    /// The network that the container joins, created first when missing.
    pub network: Option<String>,
    /// The volume that keeps tailscale's state, created first when missing.
    pub tailscale_volume: String,
    pub mounts: Vec<Mount>,
}

/// The name of a kitchen's container.
pub open spec fn container_name_of(k: KitchenConfig) -> Seq<char> {
    k.name@ + "-kitchen"@
}

/// The volume that keeps a kitchen's tailscale state.
pub open spec fn tailscale_volume_of(k: KitchenConfig) -> Seq<char> {
    container_name_of(k) + "-tailscale"@
}

/// The mounts of a kitchen's container: the workspace, the Docker socket (both
/// bind mounts that do not create a missing mount point), the tailscale state
/// volume, then the configured additional mounts.
pub open spec fn container_mounts_of(k: KitchenConfig) -> Seq<MountView> {
    seq![
        bind_mount_view(k.container.host_workspace_path@, k.container_workspace_path@),
        bind_mount_view("/var/run/docker.sock"@, "/var/run/docker.sock"@),
        volume_mount_view(tailscale_volume_of(k), "/var/lib/tailscale"@),
    ] + mount_views(k.container.additional_mounts@)
}

/// What a kitchen's container is created with.
pub fn container_spec(k: &KitchenConfig) -> (spec: ContainerSpec)
    ensures
        spec.name@ == container_name_of(*k),
        spec.image@ == container_name_of(*k),
        spec.hostname@ == container_name_of(*k),
        string_views(spec.env@) == seq!["KITCHEN_WORKSPACE="@ + k.container_workspace_path@],
        opt_view(spec.network) == opt_view(k.container.network),
        spec.tailscale_volume@ == tailscale_volume_of(*k),
        mount_views(spec.mounts@) == container_mounts_of(*k),
{
    let name = k.container_name();
    let mut tailscale_volume = name.clone();
    tailscale_volume.append("-tailscale");
    let mut mounts = vec![
        Mount::bind(k.container.host_workspace_path.clone(), k.container_workspace_path.clone()),
        Mount::bind("/var/run/docker.sock".to_owned(), "/var/run/docker.sock".to_owned()),
        Mount::volume(tailscale_volume.clone(), "/var/lib/tailscale".to_owned()),
    ];
    let ghost start = mount_views(mounts@);
    let extra = &k.container.additional_mounts;
    let mut i: usize = 0;
    while i < extra.len()
        invariant
            i <= extra@.len(),
            mount_views(mounts@) =~= start + mount_views(extra@).take(i as int),
        decreases extra.len() - i,
    {
        let ghost before = mounts@;
        mounts.push(extra[i].duplicate());
        proof {
            assert(mount_views(mounts@) =~= mount_views(before).push(extra@[i as int]@));
            assert(mount_views(extra@).take(i + 1) =~= mount_views(extra@).take(i as int).push(extra@[i as int]@));
        }
        i = i + 1;
    }
    assert(mount_views(extra@).take(extra@.len() as int) =~= mount_views(extra@));
    let env = vec![k.kitchen_workspace_env()];
    assert(string_views(env@) =~= seq!["KITCHEN_WORKSPACE="@ + k.container_workspace_path@]);
    let network = copy_opt_string(&k.container.network);
    ContainerSpec { image: name.clone(), hostname: name.clone(), name, env, network, tailscale_volume, mounts }
}

/// The container's mounts: first the workspace, bound from where the Docker
/// host sees it to the container workspace path; then the host daemon's socket,
/// bound at the same standard path `/var/run/docker.sock` inside the container;
/// then the named tailscale state volume `<name>-kitchen-tailscale` at
/// `/var/lib/tailscale`; then exactly the configured additional mounts, in
/// order. None of the bind mounts creates a missing mount point. The container
/// is named `<name>-kitchen`, and the volume is the one it is created with.
pub proof fn law_container_mounts(k: KitchenConfig)
    ensures
        ({
            let m = container_mounts_of(k);
            &&& m.len() == 3 + k.container.additional_mounts@.len()
            &&& m[0].typ == Some(MountTypeEnum::Bind)
            &&& m[0].source == Some(k.container.host_workspace_path@)
            &&& m[0].target == Some(k.container_workspace_path@)
            &&& m[0].bind_options == Some(MountBindOptions { create_mountpoint: Some(false) })
            &&& m[1].typ == Some(MountTypeEnum::Bind)
            &&& m[1].source == Some("/var/run/docker.sock"@)
            &&& m[1].target == m[1].source
            &&& m[1].bind_options == Some(MountBindOptions { create_mountpoint: Some(false) })
            &&& m[2].typ == Some(MountTypeEnum::Volume)
            &&& m[2].source == Some(k.name@ + "-kitchen-tailscale"@)
            &&& m[2].target == Some("/var/lib/tailscale"@)
            &&& m.subrange(3, m.len() as int) == mount_views(k.container.additional_mounts@)
            &&& container_name_of(k) == k.name@ + "-kitchen"@
            &&& m[2].source == Some(tailscale_volume_of(k))
        }),
{
    reveal_strlit("-kitchen-tailscale");
    reveal_strlit("-kitchen");
    reveal_strlit("-tailscale");
    let m = container_mounts_of(k);
    assert(m.subrange(3, m.len() as int) =~= mount_views(k.container.additional_mounts@));
    assert(k.name@ + "-kitchen"@ + "-tailscale"@ =~= k.name@ + "-kitchen-tailscale"@);
}

/// What inspecting a Docker volume or network came back with.
pub enum InspectOutcome {
    /// It exists.
    Found,
    /// The Docker daemon answered with this error status.
    ServerError(u16),
    /// The call failed otherwise.
    OtherError,
}

/// What to do so that a volume or network exists.
#[derive(PartialEq, Eq, Structural, Debug)]
pub enum EnsureAction {
    /// Nothing: it exists.
    Nothing,
    /// Create it: the daemon does not know it.
    Create,
    /// Give up with the inspection's error.
    Fail,
}

/// Decides, from an inspection, how to make sure that a volume or network
/// exists: one that is found is left alone, one the daemon does not know (status
/// 404) is created, and any other error is given up with.
pub fn ensure_action(outcome: InspectOutcome) -> (action: EnsureAction)
    ensures
        action == match outcome {
            InspectOutcome::Found => EnsureAction::Nothing,
            InspectOutcome::ServerError(code) => if code == 404 {
                EnsureAction::Create
            } else {
                EnsureAction::Fail
            },
            InspectOutcome::OtherError => EnsureAction::Fail,
        },
{
    match outcome {
        InspectOutcome::Found => EnsureAction::Nothing,
        InspectOutcome::ServerError(code) => if code == 404 {
            EnsureAction::Create
        } else {
            EnsureAction::Fail
        },
        InspectOutcome::OtherError => EnsureAction::Fail,
    }
}

/// The line that the container prints once it is ready.
pub open spec fn ready_sentinel() -> Seq<char> {
    "Kitchen is ready to cook"@
}

/// Whether a line of the container's log says that it is ready: the wait for
/// the container ends at the first such line.
pub fn is_ready_line(line: &str) -> (res: bool)
    ensures
        res == contains_seq(line@, ready_sentinel()),
{
    contains(line, "Kitchen is ready to cook")
}

/// How a request to remove a container ended.
pub enum RemovalOutcome {
    Removed,
    /// Docker answered 404: there is no such container.
    NotFound,
    /// Any other failure, with its message.
    Failed(String),
}

/// What removing a container reports: on success the line to print, otherwise
/// the error.
pub fn removal_result(container_name: &str, outcome: RemovalOutcome) -> (res: Result<String, String>)
    ensures
        match outcome {
            RemovalOutcome::Removed => res matches Ok(m) && m@ == "Removed container "@ + container_name@,
            RemovalOutcome::NotFound => res matches Err(e) && e@ == "Container "@ + container_name@
                + " does not exist"@,
            RemovalOutcome::Failed(msg) => res matches Err(e) && e@ == msg@,
        },
{
    match outcome {
        RemovalOutcome::Removed => {
            let mut m = "Removed container ".to_owned();
            m.append(container_name);
            Ok(m)
        },
        RemovalOutcome::NotFound => {
            let mut e = "Container ".to_owned();
            e.append(container_name);
            e.append(" does not exist");
            Err(e)
        },
        RemovalOutcome::Failed(msg) => Err(msg),
    }
}

/// What `up` reports of a container that already exists, running or not.
pub fn existing_container_message(container_name: &str, running: bool) -> (res: String)
    ensures
        res@ == "Container "@ + container_name@ + if running {
            " is already running."@
        } else {
            " exists but is not running."@
        },
{
    let mut m = "Container ".to_owned();
    m.append(container_name);
    if running {
        m.append(" is already running.");
    } else {
        m.append(" exists but is not running.");
    }
    m
}

/// The error of `shell` for a container that is not running.
pub fn not_running_error(container_name: &str) -> (res: String)
    ensures
        res@ == "Container "@ + container_name@ + " is not running"@,
{
    let mut m = "Container ".to_owned();
    m.append(container_name);
    m.append(" is not running");
    m
}

/// The command that an interactive shell runs in the container: the user's
/// login shell.
pub fn shell_command() -> (cmd: Vec<String>)
    ensures
        string_views(cmd@) == seq!["sh"@, "-c"@, "exec $(getent passwd $(whoami) | cut -d: -f7)"@],
{
    let cmd = vec!["sh".to_owned(), "-c".to_owned(), "exec $(getent passwd $(whoami) | cut -d: -f7)".to_owned()];
    assert(string_views(cmd@) =~= seq!["sh"@, "-c"@, "exec $(getent passwd $(whoami) | cut -d: -f7)"@]);
    cmd
}

} // verus!
