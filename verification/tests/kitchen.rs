use kitchen::config;
use kitchen::container::MountTypeEnum;
use kitchen::kitchen::ContainerConfig;

fn container_cfg(workspace_mount_path: Option<&str>, mounts: Option<Vec<config::Mount>>) -> config::Container {
    config::Container {
        workspace_mount_path: workspace_mount_path.map(|p| p.to_string()),
        network: None,
        additional_mounts: mounts,
    }
}

fn mount(source: &str, target: &str) -> config::Mount {
    config::Mount { source: source.to_string(), target: target.to_string() }
}

#[test]
fn test_relative_source_joined_with_workspace_mount_path() {
    let cfg = container_cfg(Some("/host/workspace"), Some(vec![mount("../.aws/config", "/home/k/.aws/config")]));
    let result = ContainerConfig::from_config(Some(&cfg), "/local/ws").unwrap();

    assert_eq!(result.additional_mounts.len(), 1);
    assert_eq!(result.additional_mounts[0].source.as_deref(), Some("/host/workspace/../.aws/config"));
    assert_eq!(result.additional_mounts[0].target.as_deref(), Some("/home/k/.aws/config"));
}

#[test]
fn test_host_path_falls_back_to_local_workspace_path() {
    let cfg = container_cfg(None, Some(vec![mount("../.aws/config", "/home/k/.aws/config")]));
    let result = ContainerConfig::from_config(Some(&cfg), "/local/ws").unwrap();

    assert_eq!(result.additional_mounts[0].source.as_deref(), Some("/local/ws/../.aws/config"));
}

#[test]
fn test_mount_with_absolute_path_passes_through_unchanged() {
    let cfg = container_cfg(None, Some(vec![mount("/absolute/source", "/absolute/target")]));
    let result = ContainerConfig::from_config(Some(&cfg), "/local/ws").unwrap();

    assert_eq!(result.additional_mounts[0].source.as_deref(), Some("/absolute/source"));
    assert_eq!(result.additional_mounts[0].target.as_deref(), Some("/absolute/target"));
}

#[test]
fn test_no_additional_mounts_produces_empty_vec() {
    let cfg = container_cfg(None, None);
    let result = ContainerConfig::from_config(Some(&cfg), "/local/ws").unwrap();
    assert!(result.additional_mounts.is_empty());
}

#[test]
fn test_no_config_produces_empty_mounts() {
    let result = ContainerConfig::from_config(None, "/local/ws").unwrap();
    assert!(result.additional_mounts.is_empty());
}

#[test]
fn test_mounts_are_bind_type_with_no_create_mountpoint() {
    let cfg = container_cfg(None, Some(vec![mount("/src", "/tgt")]));
    let result = ContainerConfig::from_config(Some(&cfg), "/ws").unwrap();

    let mount = &result.additional_mounts[0];
    assert_eq!(mount.typ, Some(MountTypeEnum::Bind));
    assert_eq!(mount.bind_options.as_ref().and_then(|o| o.create_mountpoint), Some(false));
}

#[test]
fn host_path_and_network_come_from_config() {
    let cfg = config::Container {
        workspace_mount_path: Some("/host/ws".to_string()),
        network: Some("devnet".to_string()),
        additional_mounts: Some(vec![mount("data", "rel/target")]),
    };
    let result = ContainerConfig::from_config(Some(&cfg), "/local/ws").unwrap();
    assert_eq!(result.host_workspace_path, "/host/ws");
    assert_eq!(result.network.as_deref(), Some("devnet"));
    assert_eq!(result.base_image, "debian:bookworm");
    assert_eq!(result.additional_mounts[0].source.as_deref(), Some("/host/ws/data"));
    assert_eq!(result.additional_mounts[0].target.as_deref(), Some("/host/ws/rel/target"));
}

#[test]
fn host_path_with_trailing_slash_gets_no_second_separator() {
    let cfg = container_cfg(Some("/host/ws/"), Some(vec![mount("data", "/t")]));
    let result = ContainerConfig::from_config(Some(&cfg), "/local/ws").unwrap();
    assert_eq!(result.additional_mounts[0].source.as_deref(), Some("/host/ws/data"));
}

#[test]
fn several_mounts_keep_their_order() {
    let cfg = container_cfg(None, Some(vec![mount("a", "/x"), mount("/b", "c")]));
    let result = ContainerConfig::from_config(Some(&cfg), "/ws").unwrap();
    assert_eq!(result.additional_mounts.len(), 2);
    assert_eq!(result.additional_mounts[0].source.as_deref(), Some("/ws/a"));
    assert_eq!(result.additional_mounts[1].source.as_deref(), Some("/b"));
    assert_eq!(result.additional_mounts[1].target.as_deref(), Some("/ws/c"));
}
