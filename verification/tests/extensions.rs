use kitchen::config::{KitchenToml, TomlValue};
use kitchen::extensions::dotfiles::Dotfiles;
use kitchen::extensions::{build, install, onstart, poststart, AnyExtension, Extension, HookAction};
use kitchen::kitchen::KitchenConfig;
use kitchen::resources::Resources;

fn resources() -> Resources {
    Resources {
        init_sh: b"#!/bin/sh\n".to_vec(),
        kitchen_pkg: b"pkg".to_vec(),
        dotfiles_sh: "dotfiles script".to_string(),
        pitchfork_install_sh: "install pitchfork script".to_string(),
        pitchfork_onstart_sh: "onstart pitchfork script".to_string(),
        tailscale_pitchfork_toml: b"[daemons]".to_vec(),
    }
}

fn toml_with(sections: Vec<(&str, TomlValue)>) -> KitchenToml {
    KitchenToml {
        name: None,
        container: None,
        disabled_extensions: None,
        extension_configs: sections.into_iter().map(|(k, v)| (k.to_string(), v)).collect(),
    }
}

fn table(entries: Vec<(&str, TomlValue)>) -> TomlValue {
    TomlValue::Table(entries.into_iter().map(|(k, v)| (k.to_string(), v)).collect())
}

fn s(v: &str) -> TomlValue {
    TomlValue::String(v.to_string())
}

fn names(exts: &[AnyExtension]) -> Vec<&'static str> {
    exts.iter().map(|e| e.name()).collect()
}

#[test]
fn no_config_builds_every_registered_extension_in_order() {
    let exts = build(None).ok().unwrap();
    assert_eq!(names(&exts), vec!["dotfiles", "tailscale", "pitchfork"]);
    match &exts[0] {
        AnyExtension::Dotfiles(d) => {
            assert!(d.repo.is_none());
            assert!(d.install_cmd.is_none());
        }
        _ => panic!("dotfiles comes first"),
    }
}

#[test]
fn unknown_section_is_refused() {
    let t = toml_with(vec![("dotfile", table(vec![("repo", s("x"))]))]);
    assert_eq!(build(Some(&t)).err(), Some("unknown extension config section: [dotfile]".to_string()));
}

#[test]
fn first_unknown_section_is_reported() {
    let t = toml_with(vec![("alpha", table(vec![])), ("dotfiles", table(vec![])), ("zeta", table(vec![]))]);
    assert_eq!(build(Some(&t)).err(), Some("unknown extension config section: [alpha]".to_string()));
}

#[test]
fn dotfiles_section_configures_dotfiles() {
    let t = toml_with(vec![(
        "dotfiles",
        table(vec![("install_cmd", s("./install.sh")), ("repo", s("https://github.com/me/dotfiles")), ("other", TomlValue::Integer(1))]),
    )]);
    let exts = build(Some(&t)).ok().unwrap();
    match &exts[0] {
        AnyExtension::Dotfiles(d) => {
            assert_eq!(d.repo.as_deref(), Some("https://github.com/me/dotfiles"));
            assert_eq!(d.install_cmd.as_deref(), Some("./install.sh"));
        }
        _ => panic!("dotfiles comes first"),
    }
}

#[test]
fn undecodable_dotfiles_section_falls_back_to_no_settings() {
    let empty = |r: Result<Dotfiles, String>| {
        let d = r.ok().unwrap();
        d.repo.is_none() && d.install_cmd.is_none()
    };
    assert!(empty(Dotfiles::from_toml(&table(vec![("repo", TomlValue::Integer(5))]))));
    assert!(empty(Dotfiles::from_toml(&table(vec![("repo", s("x")), ("install_cmd", TomlValue::Boolean(true))]))));
    assert!(empty(Dotfiles::from_toml(&s("x"))));
    assert!(empty(Dotfiles::from_toml(&TomlValue::Other)));
    let t = toml_with(vec![("dotfiles", TomlValue::Other)]);
    let exts = build(Some(&t)).ok().unwrap();
    assert_eq!(names(&exts), vec!["dotfiles", "tailscale", "pitchfork"]);
}

#[test]
fn dotfiles_settings_as_array() {
    let d = Dotfiles::from_toml(&TomlValue::Array(vec![s("repo-url"), s("cmd")])).ok().unwrap();
    assert_eq!(d.repo.as_deref(), Some("repo-url"));
    assert_eq!(d.install_cmd.as_deref(), Some("cmd"));
    let d = Dotfiles::from_toml(&TomlValue::Array(vec![s("repo-url")])).ok().unwrap();
    assert!(d.repo.is_none() && d.install_cmd.is_none());
}

#[test]
fn disabled_extensions_are_skipped() {
    let mut t = toml_with(vec![("dotfiles", table(vec![("repo", s("r"))]))]);
    t.disabled_extensions = Some(vec!["tailscale".to_string(), "pitchfork".to_string()]);
    let exts = build(Some(&t)).ok().unwrap();
    assert_eq!(names(&exts), vec!["dotfiles"]);
    t.disabled_extensions = Some(vec!["dotfiles".to_string(), "unknown".to_string()]);
    let exts = build(Some(&t)).ok().unwrap();
    assert_eq!(names(&exts), vec!["tailscale", "pitchfork"]);
    t.disabled_extensions = Some(vec![]);
    assert_eq!(names(&build(Some(&t)).ok().unwrap()), vec!["dotfiles", "tailscale", "pitchfork"]);
}

#[test]
fn disabling_does_not_excuse_an_unknown_section() {
    let mut t = toml_with(vec![("dotfile", table(vec![]))]);
    t.disabled_extensions = Some(vec!["dotfiles".to_string()]);
    assert_eq!(build(Some(&t)).err(), Some("unknown extension config section: [dotfile]".to_string()));
}

fn kitchen_with(t: Option<&KitchenToml>) -> KitchenConfig {
    KitchenConfig::from_workspace("/home/me/proj".to_string(), t).ok().unwrap()
}

#[test]
fn hooks_follow_extension_order() {
    let k = kitchen_with(None);
    let res = resources();
    let installs = install(&k, &res);
    assert_eq!(installs.len(), 3);
    assert!(matches!(installs[0], HookAction::Nothing));
    match &installs[2] {
        HookAction::Run(r) => {
            assert_eq!(r.label_text(), "Install pitchfork");
            let inv = r.invocation();
            assert_eq!(inv.program, "sh");
        }
        _ => panic!("pitchfork installs with its script"),
    }
    match &installs[1] {
        HookAction::RunFromUrl { url, label } => {
            assert_eq!(url, "https://tailscale.com/install.sh");
            assert_eq!(label, "install tailscale");
        }
        _ => panic!("tailscale installs from its URL"),
    }

    let starts = onstart(&k, &res);
    assert!(matches!(starts[0], HookAction::Nothing));
    assert!(matches!(starts[1], HookAction::Nothing));
    match &starts[2] {
        HookAction::Run(r) => {
            let inv = r.invocation();
            assert_eq!(inv.program, "sudo");
            assert_eq!(r.label_text(), "Setup pitchfork config");
        }
        _ => panic!("pitchfork sets up its config"),
    }

    let posts = poststart(&k, &res);
    assert!(matches!(posts[0], HookAction::Nothing));
    assert!(matches!(posts[2], HookAction::Nothing));
    match &posts[1] {
        HookAction::Run(r) => {
            let inv = r.invocation();
            assert_eq!(inv.program, "sudo");
            assert_eq!(inv.args, vec!["tailscale".to_string(), "up".to_string(), "--ssh".to_string()]);
            assert_eq!(r.banner().as_deref(), Some("==> running tailscale up"));
        }
        _ => panic!("tailscale comes up"),
    }
}

#[test]
fn dotfiles_runs_only_with_a_repository() {
    let t = toml_with(vec![("dotfiles", table(vec![("repo", s("git@x:me/dots"))]))]);
    let k = kitchen_with(Some(&t));
    let starts = onstart(&k, &resources());
    match &starts[0] {
        HookAction::Dotfiles(d) => {
            assert_eq!(d.repo, "git@x:me/dots");
            assert_eq!(d.install_cmd, "");
            assert_eq!(d.script, "dotfiles script");
        }
        _ => panic!("dotfiles provisions the repository"),
    }
}

#[test]
fn image_contributions_of_extensions() {
    let k = kitchen_with(None);
    let res = resources();
    let tailscale = &k.extensions[1];
    let files = tailscale.image_context(&k, &res);
    assert_eq!(files.len(), 1);
    assert_eq!(files[0].path, "tailscale/pitchfork.toml");
    assert_eq!(files[0].contents, b"[daemons]".to_vec());
    assert_eq!(files[0].mode, 0o644);
    assert_eq!(
        tailscale.image_instructions(&k).unwrap().build(),
        "COPY tailscale/pitchfork.toml /etc/kitchen/daemons/tailscale.toml"
    );
    assert_eq!(
        k.extensions[2].image_instructions(&k).unwrap().build(),
        "RUN mkdir -p /etc/pitchfork/ && chown k:k /etc/pitchfork/"
    );
    assert!(k.extensions[0].image_instructions(&k).is_none());
    assert!(k.extensions[0].image_context(&k, &res).is_empty());
}

#[test]
fn docker_and_mise_install_from_their_urls() {
    let k = kitchen_with(None);
    let res = resources();
    let docker = kitchen::extensions::docker::Docker::from_toml(&TomlValue::Other).ok().unwrap();
    let mise = kitchen::extensions::mise::Mise::from_toml(&TomlValue::Other).ok().unwrap();
    assert_eq!(docker.name(), "docker");
    assert_eq!(mise.name(), "mise");
    match docker.install(&k, &res) {
        HookAction::RunFromUrl { url, label } => {
            assert_eq!(url, "https://get.docker.com");
            assert_eq!(label, "install docker");
        }
        _ => panic!("docker installs from its URL"),
    }
    match mise.install(&k, &res) {
        HookAction::RunFromUrl { url, label } => {
            assert_eq!(url, "https://mise.run");
            assert_eq!(label, "install mise");
        }
        _ => panic!("mise installs from its URL"),
    }
}
