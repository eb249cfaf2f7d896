use kitchen::config::{Container, KitchenToml, Mount as ConfigMount, TomlValue};
use kitchen::container::{
    container_spec, existing_container_message, is_ready_line, not_running_error, removal_result, shell_command,
    MountTypeEnum, RemovalOutcome,
};
use kitchen::hooks::{poststart, poststart_hook_path};
use kitchen::kitchen::KitchenConfig;

fn plain_toml() -> KitchenToml {
    KitchenToml { name: None, container: None, disabled_extensions: None, extension_configs: vec![] }
}

#[test]
fn name_defaults_to_workspace_directory() {
    let k = KitchenConfig::from_workspace("/home/me/proj".to_string(), None).ok().unwrap();
    assert_eq!(k.name, "proj");
    assert_eq!(k.container_workspace_path, "/workspaces/proj");
    assert_eq!(k.container_name(), "proj-kitchen");
    assert_eq!(k.kitchen_workspace_env(), "KITCHEN_WORKSPACE=/workspaces/proj");
    assert_eq!(k.container_workspace_path_str(), "/workspaces/proj");
    assert_eq!(k.local_workspace_path, "/home/me/proj");
    assert_eq!(k.container.host_workspace_path, "/home/me/proj");
    assert!(k.system_packages.is_empty());
    assert_eq!(k.extensions.len(), 3);
}

#[test]
fn configured_name_and_container_settings_win() {
    let mut t = plain_toml();
    t.name = Some("kitchen".to_string());
    t.container = Some(Container {
        workspace_mount_path: Some("/host/proj".to_string()),
        network: Some("net".to_string()),
        additional_mounts: Some(vec![ConfigMount { source: "cache".to_string(), target: "/cache".to_string() }]),
    });
    let k = KitchenConfig::from_workspace("/home/me/proj".to_string(), Some(&t)).ok().unwrap();
    assert_eq!(k.name, "kitchen");
    assert_eq!(k.container_workspace_path, "/workspaces/kitchen");
    assert_eq!(k.container.base_image, "debian:bookworm");
    assert!(k.system_packages.is_empty());
    assert_eq!(k.container.host_workspace_path, "/host/proj");
    assert_eq!(k.container.additional_mounts[0].source.as_deref(), Some("/host/proj/cache"));
}

#[test]
fn root_path_has_no_name() {
    assert_eq!(
        KitchenConfig::from_workspace("/".to_string(), None).err(),
        Some("workspace path has no final component".to_string())
    );
    let mut t = plain_toml();
    t.name = Some("named".to_string());
    assert!(KitchenConfig::from_workspace("/proj/..".to_string(), Some(&t)).is_err());
}

#[test]
fn workspace_names_follow_path_file_name() {
    let name = |p: &str| KitchenConfig::from_workspace(p.to_string(), None).ok().map(|k| k.name);
    assert_eq!(name("proj"), Some("proj".to_string()));
    assert_eq!(name("/home/me/proj/"), Some("proj".to_string()));
    assert_eq!(name("/home/me/proj/.//"), Some("proj".to_string()));
    assert_eq!(name("/home//me/./proj"), Some("proj".to_string()));
    assert_eq!(name("./proj"), Some("proj".to_string()));
    assert_eq!(name("/home/me/.proj"), Some(".proj".to_string()));
    assert_eq!(name("/home/me/..."), Some("...".to_string()));
    assert_eq!(name(""), None);
    assert_eq!(name("."), None);
    assert_eq!(name(".."), None);
    assert_eq!(name("/home/.."), None);
    for p in ["proj", "/home/me/proj/", "/home/me/proj/.//", "./proj", "/a/..", "/", "", ".", "/a/b/."] {
        let expected = std::path::Path::new(p).file_name().map(|n| n.to_string_lossy().into_owned());
        assert_eq!(name(p), expected, "{p}");
    }
}

#[test]
fn disabled_extensions_leave_the_kitchen_without_them() {
    let mut t = plain_toml();
    t.disabled_extensions = Some(vec!["tailscale".to_string()]);
    let k = KitchenConfig::from_workspace("/home/me/proj".to_string(), Some(&t)).ok().unwrap();
    assert_eq!(k.extensions.len(), 2);
}

#[test]
fn bad_extension_sections_refuse_the_workspace() {
    let mut t = plain_toml();
    t.extension_configs = vec![("dotfile".to_string(), TomlValue::Table(vec![]))];
    assert_eq!(
        KitchenConfig::from_workspace("/home/me/proj".to_string(), Some(&t)).err(),
        Some("unknown extension config section: [dotfile]".to_string())
    );
}

#[test]
fn container_gets_workspace_socket_volume_and_extra_mounts() {
    let mut t = plain_toml();
    t.container = Some(Container {
        workspace_mount_path: None,
        network: Some("net".to_string()),
        additional_mounts: Some(vec![ConfigMount { source: "/a".to_string(), target: "/b".to_string() }]),
    });
    let k = KitchenConfig::from_workspace("/home/me/proj".to_string(), Some(&t)).ok().unwrap();
    let spec = container_spec(&k);
    assert_eq!(spec.name, "proj-kitchen");
    assert_eq!(spec.image, "proj-kitchen");
    assert_eq!(spec.hostname, "proj-kitchen");
    assert_eq!(spec.env, vec!["KITCHEN_WORKSPACE=/workspaces/proj".to_string()]);
    assert_eq!(spec.network.as_deref(), Some("net"));
    assert_eq!(spec.tailscale_volume, "proj-kitchen-tailscale");
    assert_eq!(spec.mounts.len(), 4);
    assert_eq!(spec.mounts[0].source.as_deref(), Some("/home/me/proj"));
    assert_eq!(spec.mounts[0].target.as_deref(), Some("/workspaces/proj"));
    assert_eq!(spec.mounts[0].typ, Some(MountTypeEnum::Bind));
    assert_eq!(spec.mounts[1].source.as_deref(), Some("/var/run/docker.sock"));
    assert_eq!(spec.mounts[2].typ, Some(MountTypeEnum::Volume));
    assert_eq!(spec.mounts[2].source.as_deref(), Some("proj-kitchen-tailscale"));
    assert_eq!(spec.mounts[2].target.as_deref(), Some("/var/lib/tailscale"));
    assert!(spec.mounts[2].bind_options.is_none());
    assert_eq!(spec.mounts[3].source.as_deref(), Some("/a"));
}

#[test]
fn container_decisions() {
    assert!(is_ready_line("... Kitchen is ready to cook\n"));
    assert!(!is_ready_line("Kitchen is warming up"));
    assert_eq!(removal_result("c", RemovalOutcome::Removed), Ok("Removed container c".to_string()));
    assert_eq!(removal_result("c", RemovalOutcome::NotFound), Err("Container c does not exist".to_string()));
    assert_eq!(removal_result("c", RemovalOutcome::Failed("boom".to_string())), Err("boom".to_string()));
    assert_eq!(existing_container_message("c", true), "Container c is already running.");
    assert_eq!(existing_container_message("c", false), "Container c exists but is not running.");
    assert_eq!(not_running_error("c"), "Container c is not running");
    assert_eq!(
        shell_command(),
        vec!["sh".to_string(), "-c".to_string(), "exec $(getent passwd $(whoami) | cut -d: -f7)".to_string()]
    );
}

#[test]
fn poststart_hook_lives_in_the_workspace() {
    let k = KitchenConfig::from_workspace("/home/me/proj".to_string(), None).ok().unwrap();
    assert_eq!(poststart_hook_path(&k), "/workspaces/proj/.kitchen/hooks/poststart");
    let r = poststart(&k);
    let inv = r.invocation();
    assert_eq!(inv.program, "/workspaces/proj/.kitchen/hooks/poststart");
    assert!(inv.args.is_empty());
    assert_eq!(r.label_text(), "Running poststart hook");
}
