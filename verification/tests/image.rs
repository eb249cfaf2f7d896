use std::io::Read;

use kitchen::image::{build_args, build_containerfile, build_context_tar, context_files, ContextFile};
use kitchen::kitchen::KitchenConfig;
use kitchen::resources::Resources;

fn resources() -> Resources {
    Resources {
        init_sh: b"#!/bin/sh\necho Kitchen is ready to cook\n".to_vec(),
        kitchen_pkg: b"#!/bin/sh\napt-get install -y \"$@\"\n".to_vec(),
        dotfiles_sh: "dotfiles".to_string(),
        pitchfork_install_sh: "install".to_string(),
        pitchfork_onstart_sh: "onstart".to_string(),
        tailscale_pitchfork_toml: b"[daemons.tailscaled]\n".to_vec(),
    }
}

fn kitchen() -> KitchenConfig {
    KitchenConfig::from_workspace("/home/me/proj".to_string(), None).ok().unwrap()
}

#[test]
fn context_file_modes() {
    let f = ContextFile::new("a", b"x".to_vec());
    assert_eq!(f.mode, 0o644);
    let f = f.with_mode(0o755);
    assert_eq!(f.mode, 0o755);
    assert_eq!(f.path, "a");
    assert_eq!(f.contents, b"x".to_vec());
}

#[test]
fn containerfile_of_a_default_kitchen() {
    let text = build_containerfile(&kitchen()).unwrap();
    let expected = [
        "FROM debian:bookworm",
        "ARG KITCHEN_WORKSPACE=/workspace/default",
        "RUN mkdir -p /usr/lib/kitchen/",
        "COPY kitchen-pkg /usr/lib/kitchen/kitchen-pkg",
        "RUN chmod +x /usr/lib/kitchen/kitchen-pkg",
        "RUN /usr/lib/kitchen/kitchen-pkg sudo curl git ca-certificates zsh vim build-essential pkg-config openssh-client locales",
        "RUN echo \"en_US.UTF-8 UTF-8\" >> /etc/locale.gen && locale-gen",
        "RUN mkdir -p /etc/kitchen/daemons/",
        "RUN useradd -m -s /bin/zsh k \\\n            && usermod -aG sudo k \\\n            && echo \"k ALL=(ALL) NOPASSWD:ALL\" > /etc/sudoers.d/k",
        "COPY tailscale/pitchfork.toml /etc/kitchen/daemons/tailscale.toml",
        "RUN mkdir -p /etc/pitchfork/ && chown k:k /etc/pitchfork/",
        "RUN mkdir -p /usr/local/bin/",
        "COPY kitchen /usr/local/bin/kitchen",
        "RUN mkdir -p ${KITCHEN_WORKSPACE}",
        "ENV KITCHEN_WORKSPACE=${KITCHEN_WORKSPACE}",
        "RUN /usr/local/bin/kitchen container-install",
        "COPY init.sh /init.sh",
        "RUN chmod +x init.sh",
        "USER k",
        "ENTRYPOINT [\"/init.sh\"]",
    ]
    .join("\n");
    assert_eq!(text, expected);
}

#[test]
fn extra_system_packages_follow_the_default_ones() {
    let mut k = kitchen();
    k.system_packages = vec!["jq".to_string(), "ripgrep".to_string()];
    let text = build_containerfile(&k).unwrap();
    assert!(text.contains("RUN /usr/lib/kitchen/kitchen-pkg sudo curl git ca-certificates zsh vim build-essential pkg-config openssh-client locales jq ripgrep\n"));
}

#[test]
fn context_holds_containerfile_scripts_binary_and_extension_files() {
    let k = kitchen();
    let res = resources();
    let files = context_files(&k, &res, b"ELF".to_vec()).unwrap();
    let paths: Vec<&str> = files.iter().map(|f| f.path.as_str()).collect();
    assert_eq!(paths, vec!["Dockerfile", "init.sh", "kitchen-pkg", "kitchen", "tailscale/pitchfork.toml"]);
    let modes: Vec<u32> = files.iter().map(|f| f.mode).collect();
    assert_eq!(modes, vec![0o644, 0o755, 0o755, 0o755, 0o644]);
    assert_eq!(files[0].contents, build_containerfile(&k).unwrap().into_bytes());
    assert_eq!(files[3].contents, b"ELF".to_vec());
}

#[test]
fn context_archive_unpacks_to_the_context_files() {
    let k = kitchen();
    let res = resources();
    let files = context_files(&k, &res, b"ELF".to_vec()).unwrap();
    let bytes = build_context_tar(&k, &res, b"ELF".to_vec()).unwrap();
    let decoder = flate2::read::GzDecoder::new(bytes.as_slice());
    let mut archive = tar::Archive::new(decoder);
    let mut seen = Vec::new();
    for entry in archive.entries().unwrap() {
        let mut entry = entry.unwrap();
        let path = entry.path().unwrap().to_string_lossy().into_owned();
        let mode = entry.header().mode().unwrap();
        let mut contents = Vec::new();
        entry.read_to_end(&mut contents).unwrap();
        seen.push((path, contents, mode));
    }
    let expected: Vec<(String, Vec<u8>, u32)> =
        files.iter().map(|f| (f.path.clone(), f.contents.clone(), f.mode)).collect();
    assert_eq!(seen, expected);
    assert_eq!(build_context_tar(&k, &res, b"ELF".to_vec()).unwrap(), bytes);
}

#[test]
fn build_args_carry_the_workspace() {
    let args = build_args(&kitchen());
    assert_eq!(args, vec![("KITCHEN_WORKSPACE".to_string(), "/workspaces/proj".to_string())]);
}
