//! Extensions: optional pieces of kitchen setup, each configured by its own
//! top-level section of `.kitchen.toml`, that add files and instructions to the
//! image and run work at install time, at container start and after start.
//!
//! A hook does not run anything itself: it returns the `HookAction` to run. The
//! caller runs the actions as `chain_start` and `chain_next` direct: in order,
//! stopping at the first failure, which ends the chain.
use vstd::prelude::*;

use crate::cmd::{default_runner, Invocation, ScriptInputView, ScriptRunner, ScriptRunnerView, StdinMode};
use crate::config::{KitchenToml, TomlValue};
use crate::container::opt_view;
use crate::image::containerfile::{copy_instruction, run_instruction};
use crate::image::{default_file_mode, ContextFile, ContextFileView, Containerfile};
use crate::kitchen::KitchenConfig;
use crate::resources::Resources;
use crate::text::{str_eq, string_views};

pub mod docker;
pub mod dotfiles;
pub mod mise;
pub mod pitchfork;
pub mod tailscale;

use docker::Docker;
use dotfiles::{decode_dotfiles, table_get, Dotfiles};
use mise::Mise;
use pitchfork::Pitchfork;
use tailscale::Tailscale;

verus! {

/// The dotfiles script run: `sh -s -- <repo> <install_cmd>` with the script on
/// stdin.
pub struct DotfilesRun {
    pub script: String,
    pub repo: String,
    pub install_cmd: String,
}

/// What a hook asks to be run.
pub enum HookAction {
    /// Nothing.
    Nothing,
    /// This script or command.
    Run(ScriptRunner),
    /// The script fetched from `url`, run under `label`.
    RunFromUrl { url: String, label: String },
    /// The dotfiles provisioning script.
    Dotfiles(DotfilesRun),
}

/// The view of a `HookAction`.
pub enum HookActionView {
    Nothing,
    Run(ScriptRunnerView),
    RunFromUrl { url: Seq<char>, label: Seq<char> },
    Dotfiles { script: Seq<char>, repo: Seq<char>, install_cmd: Seq<char> },
}

impl View for HookAction {
    type V = HookActionView;

    open spec fn view(&self) -> HookActionView {
        match self {
            HookAction::Nothing => HookActionView::Nothing,
            HookAction::Run(r) => HookActionView::Run(r@),
            HookAction::RunFromUrl { url, label } => HookActionView::RunFromUrl { url: url@, label: label@ },
            HookAction::Dotfiles(d) => HookActionView::Dotfiles {
                script: d.script@,
                repo: d.repo@,
                install_cmd: d.install_cmd@,
            },
        }
    }
}

/// One of the extensions that this program knows.
pub enum AnyExtension {
    Docker(Docker),
    Dotfiles(Dotfiles),
    Mise(Mise),
    Pitchfork(Pitchfork),
    Tailscale(Tailscale),
}

/// The view of an extension: which one it is, and its settings.
pub enum AnyExtensionView {
    Docker,
    Dotfiles { repo: Option<Seq<char>>, install_cmd: Option<Seq<char>> },
    Mise,
    Pitchfork,
    Tailscale,
}

impl View for AnyExtension {
    type V = AnyExtensionView;

    open spec fn view(&self) -> AnyExtensionView {
        match self {
            AnyExtension::Docker(_) => AnyExtensionView::Docker,
            AnyExtension::Dotfiles(d) => AnyExtensionView::Dotfiles {
                repo: opt_view(d.repo),
                install_cmd: opt_view(d.install_cmd),
            },
            AnyExtension::Mise(_) => AnyExtensionView::Mise,
            AnyExtension::Pitchfork(_) => AnyExtensionView::Pitchfork,
            AnyExtension::Tailscale(_) => AnyExtensionView::Tailscale,
        }
    }
}

/// A labelled script run.
pub open spec fn labelled_script(script: Seq<char>, label: Seq<char>) -> ScriptRunnerView {
    ScriptRunnerView { label: Some(label), ..default_runner(ScriptInputView::Script(script)) }
}

/// The name of an extension, which is also the name of its section.
pub open spec fn ext_name(e: AnyExtensionView) -> Seq<char> {
    match e {
        AnyExtensionView::Docker => "docker"@,
        AnyExtensionView::Dotfiles { .. } => "dotfiles"@,
        AnyExtensionView::Mise => "mise"@,
        AnyExtensionView::Pitchfork => "pitchfork"@,
        AnyExtensionView::Tailscale => "tailscale"@,
    }
}

/// The files an extension adds to the image build context: tailscale adds its
/// pitchfork daemon definition.
pub open spec fn ext_image_context(e: AnyExtensionView, res: Resources) -> Seq<ContextFileView> {
    match e {
        AnyExtensionView::Tailscale => seq![
            ContextFileView {
                path: "tailscale/pitchfork.toml"@,
                contents: res.tailscale_pitchfork_toml@,
                mode: default_file_mode(),
            },
        ],
        _ => Seq::empty(),
    }
}

/// The instructions an extension adds to the Containerfile: pitchfork creates its
/// configuration directory, tailscale copies its daemon definition in place.
pub open spec fn ext_image_instructions(e: AnyExtensionView) -> Option<Seq<Seq<char>>> {
    match e {
        AnyExtensionView::Pitchfork => Some(
            seq![run_instruction("mkdir -p /etc/pitchfork/ && chown k:k /etc/pitchfork/"@)],
        ),
        AnyExtensionView::Tailscale => Some(
            seq![copy_instruction("tailscale/pitchfork.toml"@, "/etc/kitchen/daemons/tailscale.toml"@)],
        ),
        _ => None,
    }
}

/// What an extension runs while the image is built.
pub open spec fn ext_install(e: AnyExtensionView, res: Resources) -> HookActionView {
    match e {
        AnyExtensionView::Docker => HookActionView::RunFromUrl {
            url: "https://get.docker.com"@,
            label: "install docker"@,
        },
        AnyExtensionView::Mise => HookActionView::RunFromUrl { url: "https://mise.run"@, label: "install mise"@ },
        AnyExtensionView::Pitchfork => HookActionView::Run(
            labelled_script(res.pitchfork_install_sh@, "Install pitchfork"@),
        ),
        AnyExtensionView::Tailscale => HookActionView::RunFromUrl {
            url: "https://tailscale.com/install.sh"@,
            label: "install tailscale"@,
        },
        AnyExtensionView::Dotfiles { .. } => HookActionView::Nothing,
    }
}

/// What an extension runs when the container starts: dotfiles provisions the
/// repository when one is configured (with an empty install command when none
/// is); pitchfork sets up its configuration as root.
pub open spec fn ext_onstart(e: AnyExtensionView, res: Resources) -> HookActionView {
    match e {
        AnyExtensionView::Dotfiles { repo, install_cmd } => match repo {
            Some(r) => HookActionView::Dotfiles {
                script: res.dotfiles_sh@,
                repo: r,
                install_cmd: match install_cmd {
                    Some(c) => c,
                    None => Seq::empty(),
                },
            },
            None => HookActionView::Nothing,
        },
        AnyExtensionView::Pitchfork => HookActionView::Run(
            ScriptRunnerView { sudo: true, ..labelled_script(res.pitchfork_onstart_sh@, "Setup pitchfork config"@) },
        ),
        _ => HookActionView::Nothing,
    }
}

/// What an extension runs after the container has started: tailscale runs
/// `sudo tailscale up --ssh`.
pub open spec fn ext_poststart(e: AnyExtensionView) -> HookActionView {
    match e {
        AnyExtensionView::Tailscale => HookActionView::Run(
            ScriptRunnerView {
                label: Some("running tailscale up"@),
                sudo: true,
                ..default_runner(ScriptInputView::Command("tailscale"@, seq!["up"@, "--ssh"@]))
            },
        ),
        _ => HookActionView::Nothing,
    }
}

/// Each bundled script is run by the hook it ships for, as it stands, and by
/// no other: pitchfork's install hook pipes exactly the pitchfork install
/// script to `sh -s` without sudo, its start hook pipes exactly the pitchfork
/// configuration script through sudo, and the dotfiles start hook provisions
/// the configured repository with exactly the dotfiles script. Each of these
/// actions depends on no other resource.
pub proof fn law_hooks_run_their_own_scripts(res: Resources, other: Resources)
    ensures
        ext_install(AnyExtensionView::Pitchfork, res) matches HookActionView::Run(r) && r.input
            == ScriptInputView::Script(res.pitchfork_install_sh@) && !r.sudo && r.shell == "sh"@,
        ext_onstart(AnyExtensionView::Pitchfork, res) matches HookActionView::Run(r) && r.input
            == ScriptInputView::Script(res.pitchfork_onstart_sh@) && r.sudo && r.shell == "sh"@,
        forall|repo: Seq<char>, install_cmd: Option<Seq<char>>|
            #[trigger] ext_onstart(AnyExtensionView::Dotfiles { repo: Some(repo), install_cmd }, res) matches HookActionView::Dotfiles { script, repo: r, install_cmd: c }
                && script == res.dotfiles_sh@ && r == repo && c == match install_cmd {
                Some(cmd) => cmd,
                None => Seq::<char>::empty(),
            },
        forall|install_cmd: Option<Seq<char>>|
            #[trigger] ext_onstart(AnyExtensionView::Dotfiles { repo: None, install_cmd }, res) is Nothing,
        other.pitchfork_install_sh@ == res.pitchfork_install_sh@ ==> ext_install(AnyExtensionView::Pitchfork, other)
            == ext_install(AnyExtensionView::Pitchfork, res),
        other.pitchfork_onstart_sh@ == res.pitchfork_onstart_sh@ ==> ext_onstart(AnyExtensionView::Pitchfork, other)
            == ext_onstart(AnyExtensionView::Pitchfork, res),
{
}

/// Every script that an install hook fetches comes over TLS: its URL is one
/// that `check_script_url` accepts. Tailscale is brought up after start with
/// `sudo tailscale up --ssh`.
pub proof fn law_install_fetches_over_tls(e: AnyExtensionView, res: Resources)
    ensures
        ext_install(e, res) matches HookActionView::RunFromUrl { url, .. } ==> crate::cmd::is_secure_script_url(url),
        ext_poststart(AnyExtensionView::Tailscale) matches HookActionView::Run(r) && r.sudo && r.input
            == ScriptInputView::Command("tailscale"@, seq!["up"@, "--ssh"@]),
{
    reveal_strlit("https://");
    reveal_strlit("https://get.docker.com");
    reveal_strlit("https://mise.run");
    reveal_strlit("https://tailscale.com/install.sh");
    if let HookActionView::RunFromUrl { url, .. } = ext_install(e, res) {
        assert(url.subrange(0, 8) =~= "https://"@);
    }
}

/// The behaviour of an extension at each point of a kitchen's life. Every hook
/// does nothing unless the extension says otherwise.
pub trait Extension {
    /// The extension's name.
    fn name(&self) -> &'static str;

    /// Files that the extension adds to the image build context.
    fn image_context(&self, _k: &KitchenConfig, _res: &Resources) -> (r: Vec<ContextFile>)
        default_ensures
            r@.len() == 0,
    {
        Vec::new()
    }

    /// Instructions that the extension adds to the Containerfile.
    fn image_instructions(&self, _k: &KitchenConfig) -> (r: Option<Containerfile>)
        default_ensures
            r is None,
    {
        None
    }

    /// What the extension runs while the image is built.
    fn install(&self, _k: &KitchenConfig, _res: &Resources) -> (r: HookAction)
        default_ensures
            r is Nothing,
    {
        HookAction::Nothing
    }

    /// What the extension runs when the container starts.
    fn onstart(&self, _k: &KitchenConfig, _res: &Resources) -> (r: HookAction)
        default_ensures
            r is Nothing,
    {
        HookAction::Nothing
    }

    /// What the extension runs after the container has started.
    fn poststart(&self, _k: &KitchenConfig, _res: &Resources) -> (r: HookAction)
        default_ensures
            r is Nothing,
    {
        HookAction::Nothing
    }
}

fn run_from_url(url: &str, label: &str) -> (r: HookAction)
    ensures
        r@ == (HookActionView::RunFromUrl { url: url@, label: label@ }),
{
    HookAction::RunFromUrl { url: url.to_owned(), label: label.to_owned() }
}

impl Extension for Docker {
    fn name(&self) -> (r: &'static str)
        ensures
            r@ == ext_name(AnyExtensionView::Docker),
    {
        "docker"
    }

    fn install(&self, _k: &KitchenConfig, res: &Resources) -> (r: HookAction)
        ensures
            r@ == ext_install(AnyExtensionView::Docker, *res),
    {
        run_from_url("https://get.docker.com", "install docker")
    }
}

impl Extension for Mise {
    fn name(&self) -> (r: &'static str)
        ensures
            r@ == ext_name(AnyExtensionView::Mise),
    {
        "mise"
    }

    fn install(&self, _k: &KitchenConfig, res: &Resources) -> (r: HookAction)
        ensures
            r@ == ext_install(AnyExtensionView::Mise, *res),
    {
        run_from_url("https://mise.run", "install mise")
    }
}

impl Extension for Dotfiles {
    fn name(&self) -> (r: &'static str)
        ensures
            r@ == ext_name(AnyExtensionView::Dotfiles { repo: opt_view(self.repo), install_cmd: opt_view(self.install_cmd) }),
    {
        "dotfiles"
    }

    fn onstart(&self, _k: &KitchenConfig, res: &Resources) -> (r: HookAction)
        ensures
            r@ == ext_onstart(
                AnyExtensionView::Dotfiles { repo: opt_view(self.repo), install_cmd: opt_view(self.install_cmd) },
                *res,
            ),
    {
        match &self.repo {
            None => HookAction::Nothing,
            Some(repo) => {
                let install_cmd = match &self.install_cmd {
                    Some(c) => c.clone(),
                    None => String::new(),
                };
                HookAction::Dotfiles(DotfilesRun { script: res.dotfiles_sh.clone(), repo: repo.clone(), install_cmd })
            },
        }
    }
}

impl Extension for Pitchfork {
    fn name(&self) -> (r: &'static str)
        ensures
            r@ == ext_name(AnyExtensionView::Pitchfork),
    {
        "pitchfork"
    }

    fn image_instructions(&self, _k: &KitchenConfig) -> (r: Option<Containerfile>)
        ensures
            match r {
                Some(c) => ext_image_instructions(AnyExtensionView::Pitchfork) == Some(c@),
                None => false,
            },
    {
        Some(Containerfile::new().run("mkdir -p /etc/pitchfork/ && chown k:k /etc/pitchfork/"))
    }

    fn install(&self, _k: &KitchenConfig, res: &Resources) -> (r: HookAction)
        ensures
            r@ == ext_install(AnyExtensionView::Pitchfork, *res),
    {
        HookAction::Run(ScriptRunner::script(res.pitchfork_install_sh.as_str()).label("Install pitchfork"))
    }

    fn onstart(&self, _k: &KitchenConfig, res: &Resources) -> (r: HookAction)
        ensures
            r@ == ext_onstart(AnyExtensionView::Pitchfork, *res),
    {
        HookAction::Run(
            ScriptRunner::script(res.pitchfork_onstart_sh.as_str()).label("Setup pitchfork config").sudo(),
        )
    }
}

impl Extension for Tailscale {
    fn name(&self) -> (r: &'static str)
        ensures
            r@ == ext_name(AnyExtensionView::Tailscale),
    {
        "tailscale"
    }

    fn image_context(&self, _k: &KitchenConfig, res: &Resources) -> (r: Vec<ContextFile>)
        ensures
            r@.map_values(|f: ContextFile| f@) == ext_image_context(AnyExtensionView::Tailscale, *res),
    {
        let files = vec![ContextFile::new("tailscale/pitchfork.toml", res.tailscale_pitchfork_toml.clone())];
        assert(files@.map_values(|f: ContextFile| f@) =~= ext_image_context(AnyExtensionView::Tailscale, *res));
        files
    }

    fn image_instructions(&self, _k: &KitchenConfig) -> (r: Option<Containerfile>)
        ensures
            match r {
                Some(c) => ext_image_instructions(AnyExtensionView::Tailscale) == Some(c@),
                None => false,
            },
    {
        Some(Containerfile::new().copy("tailscale/pitchfork.toml", "/etc/kitchen/daemons/tailscale.toml"))
    }

    fn install(&self, _k: &KitchenConfig, res: &Resources) -> (r: HookAction)
        ensures
            r@ == ext_install(AnyExtensionView::Tailscale, *res),
    {
        run_from_url("https://tailscale.com/install.sh", "install tailscale")
    }

    fn poststart(&self, _k: &KitchenConfig, _res: &Resources) -> (r: HookAction)
        ensures
            r@ == ext_poststart(AnyExtensionView::Tailscale),
    {
        let args: [&str; 2] = ["up", "--ssh"];
        let runner = ScriptRunner::command("tailscale", &args).label("running tailscale up").sudo();
        assert(args@.map_values(|a: &str| a@) =~= seq!["up"@, "--ssh"@]);
        HookAction::Run(runner)
    }
}

impl Extension for AnyExtension {
    fn name(&self) -> (r: &'static str)
        ensures
            r@ == ext_name(self@),
    {
        match self {
            AnyExtension::Docker(e) => e.name(),
            AnyExtension::Dotfiles(e) => e.name(),
            AnyExtension::Mise(e) => e.name(),
            AnyExtension::Pitchfork(e) => e.name(),
            AnyExtension::Tailscale(e) => e.name(),
        }
    }

    fn image_context(&self, k: &KitchenConfig, res: &Resources) -> (r: Vec<ContextFile>)
        ensures
            r@.map_values(|f: ContextFile| f@) == ext_image_context(self@, *res),
    {
        let files = match self {
            AnyExtension::Docker(e) => e.image_context(k, res),
            AnyExtension::Dotfiles(e) => e.image_context(k, res),
            AnyExtension::Mise(e) => e.image_context(k, res),
            AnyExtension::Pitchfork(e) => e.image_context(k, res),
            AnyExtension::Tailscale(e) => e.image_context(k, res),
        };
        assert(files@.map_values(|f: ContextFile| f@) =~= ext_image_context(self@, *res));
        files
    }

    fn image_instructions(&self, k: &KitchenConfig) -> (r: Option<Containerfile>)
        ensures
            match r {
                Some(c) => ext_image_instructions(self@) == Some(c@),
                None => ext_image_instructions(self@) is None,
            },
    {
        match self {
            AnyExtension::Docker(e) => e.image_instructions(k),
            AnyExtension::Dotfiles(e) => e.image_instructions(k),
            AnyExtension::Mise(e) => e.image_instructions(k),
            AnyExtension::Pitchfork(e) => e.image_instructions(k),
            AnyExtension::Tailscale(e) => e.image_instructions(k),
        }
    }

    fn install(&self, k: &KitchenConfig, res: &Resources) -> (r: HookAction)
        ensures
            r@ == ext_install(self@, *res),
    {
        match self {
            AnyExtension::Docker(e) => e.install(k, res),
            AnyExtension::Dotfiles(e) => e.install(k, res),
            AnyExtension::Mise(e) => e.install(k, res),
            AnyExtension::Pitchfork(e) => e.install(k, res),
            AnyExtension::Tailscale(e) => e.install(k, res),
        }
    }

    fn onstart(&self, k: &KitchenConfig, res: &Resources) -> (r: HookAction)
        ensures
            r@ == ext_onstart(self@, *res),
    {
        match self {
            AnyExtension::Docker(e) => e.onstart(k, res),
            AnyExtension::Dotfiles(e) => e.onstart(k, res),
            AnyExtension::Mise(e) => e.onstart(k, res),
            AnyExtension::Pitchfork(e) => e.onstart(k, res),
            AnyExtension::Tailscale(e) => e.onstart(k, res),
        }
    }

    fn poststart(&self, k: &KitchenConfig, res: &Resources) -> (r: HookAction)
        ensures
            r@ == ext_poststart(self@),
    {
        match self {
            AnyExtension::Docker(e) => e.poststart(k, res),
            AnyExtension::Dotfiles(e) => e.poststart(k, res),
            AnyExtension::Mise(e) => e.poststart(k, res),
            AnyExtension::Pitchfork(e) => e.poststart(k, res),
            AnyExtension::Tailscale(e) => e.poststart(k, res),
        }
    }
}

/// Whether a top-level section configures a registered extension.
pub open spec fn is_registered(key: Seq<char>) -> bool {
    key == "dotfiles"@ || key == "pitchfork"@ || key == "tailscale"@
}

/// The index of the first section, in the order in which the sections are
/// held (their keys sorted, as a TOML table keeps them), that names no registered
/// extension.
pub open spec fn first_unknown_section(configs: Seq<(String, TomlValue)>) -> Option<int> {
    if exists|i: int| 0 <= i < configs.len() && !is_registered(#[trigger] configs[i].0@) {
        Some(choose|i: int| 0 <= i < configs.len() && !is_registered(#[trigger] configs[i].0@)
            && forall|j: int| 0 <= j < i ==> is_registered(#[trigger] configs[j].0@))
    } else {
        None
    }
}

/// The error for a section that names no registered extension.
pub open spec fn unknown_section_error(key: Seq<char>) -> Seq<char> {
    "unknown extension config section: ["@ + key + "]"@
}

/// The dotfiles settings of a section; an absent section holds none.
pub open spec fn dotfiles_settings(v: Option<TomlValue>) -> (Option<Seq<char>>, Option<Seq<char>>) {
    match v {
        Some(v) => decode_dotfiles(v),
        None => (None, None),
    }
}

/// The extension sections of a configuration; no configuration has none.
pub open spec fn configs_of(toml: Option<&KitchenToml>) -> Seq<(String, TomlValue)> {
    match toml {
        Some(t) => t.extension_configs@,
        None => Seq::empty(),
    }
}

/// The names in the `disabled_extensions` list of a configuration; no
/// configuration, or no list, disables none.
pub open spec fn disabled_of(toml: Option<&KitchenToml>) -> Seq<Seq<char>> {
    match toml {
        Some(t) => match t.disabled_extensions {
            Some(d) => string_views(d@),
            None => Seq::empty(),
        },
        None => Seq::empty(),
    }
}

/// `e` alone, unless its name is disabled.
pub open spec fn keep_enabled(e: AnyExtensionView, disabled: Seq<Seq<char>>) -> Seq<AnyExtensionView> {
    if disabled.contains(ext_name(e)) {
        Seq::empty()
    } else {
        seq![e]
    }
}

/// `name` alone, unless it is disabled.
pub open spec fn keep_name(name: Seq<char>, disabled: Seq<Seq<char>>) -> Seq<Seq<char>> {
    if disabled.contains(name) {
        Seq::empty()
    } else {
        seq![name]
    }
}

/// The registered extensions that are not disabled, in registry order: dotfiles,
/// tailscale, pitchfork (tailscale comes before pitchfork).
pub open spec fn enabled_names(disabled: Seq<Seq<char>>) -> Seq<Seq<char>> {
    keep_name("dotfiles"@, disabled) + keep_name("tailscale"@, disabled) + keep_name("pitchfork"@, disabled)
}

/// The extensions that a configuration yields, or the error it is refused with:
/// a section that names no registered extension is refused (the first one in
/// sorted key order is reported); otherwise every registered extension that is not
/// disabled is built, in registry order, from its section or from an empty one.
pub open spec fn build_outcome(configs: Seq<(String, TomlValue)>, disabled: Seq<Seq<char>>) -> Result<Seq<AnyExtensionView>, Seq<char>> {
    match first_unknown_section(configs) {
        Some(i) => Err(unknown_section_error(configs[i].0@)),
        None => {
            let (repo, install_cmd) = dotfiles_settings(table_get(configs, "dotfiles"@));
            Ok(
                keep_enabled(AnyExtensionView::Dotfiles { repo, install_cmd }, disabled)
                    + keep_enabled(AnyExtensionView::Tailscale, disabled)
                    + keep_enabled(AnyExtensionView::Pitchfork, disabled),
            )
        },
    }
}

/// Without any extension section or disabled extension every registered
/// extension is built, in registry order, and dotfiles has no repository.
pub proof fn law_no_sections_yield_registry()
    ensures
        build_outcome(Seq::empty(), Seq::empty()) == Ok::<Seq<AnyExtensionView>, Seq<char>>(
            seq![
                AnyExtensionView::Dotfiles { repo: None, install_cmd: None },
                AnyExtensionView::Tailscale,
                AnyExtensionView::Pitchfork,
            ],
        ),
{
    assert(first_unknown_section(Seq::empty()) is None);
    let out = build_outcome(Seq::empty(), Seq::empty())->Ok_0;
    assert(out =~= seq![
        AnyExtensionView::Dotfiles { repo: None, install_cmd: None },
        AnyExtensionView::Tailscale,
        AnyExtensionView::Pitchfork,
    ]);
}

/// Whatever the sections, the extensions built are exactly the registered ones
/// that are not disabled, named in registry order: a disabled extension is
/// skipped, and every other one is built.
pub proof fn law_built_extensions_follow_registry(configs: Seq<(String, TomlValue)>, disabled: Seq<Seq<char>>)
    ensures
        build_outcome(configs, disabled) matches Ok(exts) ==> exts.map_values(|e: AnyExtensionView| ext_name(e))
            == enabled_names(disabled),
        build_outcome(configs, disabled) matches Ok(exts) ==> forall|i: int|
            0 <= i < exts.len() ==> !disabled.contains(#[trigger] ext_name(exts[i])),
{
    if let Ok(exts) = build_outcome(configs, disabled) {
        assert(exts.map_values(|e: AnyExtensionView| ext_name(e)) =~= enabled_names(disabled));
        assert forall|i: int| 0 <= i < exts.len() implies !disabled.contains(#[trigger] ext_name(exts[i])) by {
            assert(exts.map_values(|e: AnyExtensionView| ext_name(e))[i] == ext_name(exts[i]));
            assert(enabled_names(disabled).contains(ext_name(exts[i])));
        }
    }
}

/// A section that names no registered extension is refused, whatever the other
/// sections hold and whatever is disabled.
pub proof fn law_unknown_section_refused(configs: Seq<(String, TomlValue)>, disabled: Seq<Seq<char>>, i: int)
    requires
        0 <= i < configs.len(),
        !is_registered(configs[i].0@),
    ensures
        build_outcome(configs, disabled) is Err,
{
    assert(exists|k: int| 0 <= k < configs.len() && !is_registered(#[trigger] configs[k].0@));
    if first_unknown_section(configs) is None {
        assert(false);
    }
}

/// The views of a list of extensions.
pub open spec fn extension_views(exts: Seq<AnyExtension>) -> Seq<AnyExtensionView> {
    exts.map_values(|e: AnyExtension| e@)
}

fn is_known(key: &str) -> (res: bool)
    ensures
        res == is_registered(key@),
{
    str_eq(key, "dotfiles") || str_eq(key, "pitchfork") || str_eq(key, "tailscale")
}

fn section<'a>(configs: &'a Vec<(String, TomlValue)>, name: &str) -> (res: Option<&'a TomlValue>)
    ensures
        match res {
            Some(v) => table_get(configs@, name@) == Some(*v),
            None => table_get(configs@, name@) is None,
        },
{
    let mut i: usize = 0;
    assert(configs@.subrange(0, configs@.len() as int) =~= configs@);
    while i < configs.len()
        invariant
            i <= configs@.len(),
            table_get(configs@, name@) == table_get(configs@.subrange(i as int, configs@.len() as int), name@),
        decreases configs.len() - i,
    {
        let ghost rest = configs@.subrange(i as int, configs@.len() as int);
        assert(rest.drop_first() =~= configs@.subrange(i + 1, configs@.len() as int));
        if str_eq(configs[i].0.as_str(), name) {
            return Some(&configs[i].1);
        }
        i = i + 1;
    }
    None
}

/// Whether `name` is in the list `disabled`.
fn is_disabled(disabled: &Vec<String>, name: &str) -> (res: bool)
    ensures
        res == string_views(disabled@).contains(name@),
{
    let mut i: usize = 0;
    while i < disabled.len()
        invariant
            i <= disabled@.len(),
            forall|j: int| 0 <= j < i ==> disabled@[j]@ != name@,
        decreases disabled.len() - i,
    {
        if str_eq(disabled[i].as_str(), name) {
            assert(string_views(disabled@)[i as int] == name@);
            return true;
        }
        i = i + 1;
    }
    assert forall|j: int| 0 <= j < string_views(disabled@).len() implies string_views(disabled@)[j] != name@ by {
        assert(string_views(disabled@)[j] == disabled@[j]@);
    }
    false
}

/// Builds the extensions of a kitchen from its configuration.
pub fn build(toml: Option<&KitchenToml>) -> (res: Result<Vec<AnyExtension>, String>)
    ensures
        match build_outcome(configs_of(toml), disabled_of(toml)) {
            Ok(exts) => res matches Ok(v) && extension_views(v@) == exts,
            Err(e) => res matches Err(msg) && msg@ == e,
        },
{
    let empty_configs: Vec<(String, TomlValue)> = Vec::new();
    let configs = match toml {
        Some(t) => &t.extension_configs,
        None => &empty_configs,
    };
    assert(configs@ == configs_of(toml));
    let empty_disabled: Vec<String> = Vec::new();
    let disabled = match toml {
        Some(t) => match &t.disabled_extensions {
            Some(d) => d,
            None => &empty_disabled,
        },
        None => &empty_disabled,
    };
    assert(string_views(disabled@) =~= disabled_of(toml));
    let mut i: usize = 0;
    while i < configs.len()
        invariant
            i <= configs@.len(),
            configs@ == configs_of(toml),
            forall|j: int| 0 <= j < i ==> is_registered(#[trigger] configs@[j].0@),
        decreases configs.len() - i,
    {
        if !is_known(configs[i].0.as_str()) {
            let mut msg = "unknown extension config section: [".to_owned();
            msg.append(configs[i].0.as_str());
            msg.append("]");
            proof {
                let k = i as int;
                assert(!is_registered(configs@[k].0@));
                assert(0 <= k < configs@.len() && !is_registered(configs@[k].0@) && forall|j: int|
                    0 <= j < k ==> is_registered(#[trigger] configs@[j].0@));
                let c = choose|c: int|
                    0 <= c < configs@.len() && !is_registered(#[trigger] configs@[c].0@) && forall|j: int|
                        0 <= j < c ==> is_registered(#[trigger] configs@[j].0@);
                if c < k {
                    assert(is_registered(configs@[c].0@));
                } else if c > k {
                    assert(is_registered(configs@[k].0@));
                }
                assert(first_unknown_section(configs@) == Some(k));
            }
            return Err(msg);
        }
        i = i + 1;
    }
    assert(first_unknown_section(configs@) is None);
    let empty_section = TomlValue::Table(Vec::new());
    let dotfiles_cfg = match section(configs, "dotfiles") {
        Some(v) => v,
        None => &empty_section,
    };
    assert(decode_dotfiles(empty_section) == (None::<Seq<char>>, None::<Seq<char>>)) by {
        if let TomlValue::Table(entries) = empty_section {
            assert(entries@.len() == 0);
        }
    }
    let ghost d = disabled_of(toml);
    let mut exts: Vec<AnyExtension> = Vec::new();
    if !is_disabled(disabled, "dotfiles") {
        let dotfiles = match Dotfiles::from_toml(dotfiles_cfg) {
            Ok(x) => x,
            Err(e) => return Err(e),
        };
        exts.push(AnyExtension::Dotfiles(dotfiles));
    }
    let ghost after_dotfiles = exts@;
    if !is_disabled(disabled, "tailscale") {
        let tailscale = match Tailscale::from_toml(&empty_section) {
            Ok(x) => x,
            Err(e) => return Err(e),
        };
        exts.push(AnyExtension::Tailscale(tailscale));
    }
    let ghost after_tailscale = exts@;
    if !is_disabled(disabled, "pitchfork") {
        let pitchfork = match Pitchfork::from_toml(&empty_section) {
            Ok(x) => x,
            Err(e) => return Err(e),
        };
        exts.push(AnyExtension::Pitchfork(pitchfork));
    }
    proof {
        let (repo, install_cmd) = dotfiles_settings(table_get(configs@, "dotfiles"@));
        let dv = AnyExtensionView::Dotfiles { repo, install_cmd };
        assert(extension_views(after_dotfiles) =~= keep_enabled(dv, d));
        assert(extension_views(after_tailscale) =~= keep_enabled(dv, d) + keep_enabled(AnyExtensionView::Tailscale, d));
        assert(extension_views(exts@) =~= build_outcome(configs@, d)->Ok_0);
    }
    Ok(exts)
}

impl DotfilesRun {
    /// The process of the dotfiles run: `sh -s -- <repo> <install_cmd>`, with the
    /// script piped to its stdin.
    pub fn invocation(&self) -> (res: Invocation)
        ensures
            res.program@ == "sh"@,
            string_views(res.args@) == seq!["-s"@, "--"@, self.repo@, self.install_cmd@],
            res.stdin matches StdinMode::Script(s) && s@ == self.script@,
    {
        let args = vec!["-s".to_owned(), "--".to_owned(), self.repo.clone(), self.install_cmd.clone()];
        assert(string_views(args@) =~= seq!["-s"@, "--"@, self.repo@, self.install_cmd@]);
        Invocation { program: "sh".to_owned(), args, stdin: StdinMode::Script(self.script.clone()) }
    }

    /// The outcome of the dotfiles run whose process exited, successfully or
    /// not: a failure is reported as `dotfiles provisioning failed`.
    pub fn outcome(&self, exit_success: bool) -> (res: Result<(), String>)
        ensures
            exit_success ==> res is Ok,
            !exit_success ==> (res matches Err(e) && e@ == "dotfiles provisioning failed"@),
    {
        if exit_success {
            Ok(())
        } else {
            Err("dotfiles provisioning failed".to_owned())
        }
    }
}

/// Where a run of a chain of hook actions stands.
pub enum ChainStep {
    /// The action at this index runs next.
    Run(usize),
    /// The chain is over, with this outcome.
    Done(Result<(), String>),
}

/// The view of a `ChainStep`.
pub enum ChainStepView {
    Run(int),
    Done(Result<(), Seq<char>>),
}

/// The view of the outcome of one action.
pub open spec fn outcome_view(r: Result<(), String>) -> Result<(), Seq<char>> {
    match r {
        Ok(()) => Ok(()),
        Err(e) => Err(e@),
    }
}

impl View for ChainStep {
    type V = ChainStepView;

    open spec fn view(&self) -> ChainStepView {
        match self {
            ChainStep::Run(i) => ChainStepView::Run(*i as int),
            ChainStep::Done(r) => ChainStepView::Done(outcome_view(*r)),
        }
    }
}

/// The first step of a chain of `n` actions: the first action, or, with none,
/// success.
pub open spec fn first_step(n: int) -> ChainStepView {
    if n > 0 {
        ChainStepView::Run(0)
    } else {
        ChainStepView::Done(Ok(()))
    }
}

/// The step after the action at index `ran` of a chain of `n` actions came
/// back with `outcome`: a failure ends the chain with that failure; a success
/// runs the next action, or ends the chain with success after the last one.
pub open spec fn next_step(n: int, ran: int, outcome: Result<(), Seq<char>>) -> ChainStepView {
    match outcome {
        Err(e) => ChainStepView::Done(Err(e)),
        Ok(()) => if ran + 1 < n {
            ChainStepView::Run(ran + 1)
        } else {
            ChainStepView::Done(Ok(()))
        },
    }
}

/// Starts a chain of `n` actions.
pub fn chain_start(n: usize) -> (step: ChainStep)
    ensures
        step@ == first_step(n as int),
{
    if n > 0 {
        ChainStep::Run(0)
    } else {
        ChainStep::Done(Ok(()))
    }
}

/// The step of a chain of `n` actions after the action at index `ran` came
/// back with `outcome`.
pub fn chain_next(n: usize, ran: usize, outcome: Result<(), String>) -> (step: ChainStep)
    ensures
        step@ == next_step(n as int, ran as int, outcome_view(outcome)),
{
    match outcome {
        Err(e) => ChainStep::Done(Err(e)),
        Ok(()) => if ran < n && ran + 1 < n {
            ChainStep::Run(ran + 1)
        } else {
            ChainStep::Done(Ok(()))
        },
    }
}

/// Running a chain by its steps from the action at index `i`, when the actions
/// come back with `outcomes`: how many actions have run when it ends (counting
/// from the first), and how it ends.
pub open spec fn run_steps(outcomes: Seq<Result<(), Seq<char>>>, i: int) -> (int, Result<(), Seq<char>>)
    decreases outcomes.len() - i,
{
    if 0 <= i < outcomes.len() {
        match next_step(outcomes.len() as int, i, outcomes[i]) {
            ChainStepView::Run(j) => if j == i + 1 {
                run_steps(outcomes, j)
            } else {
                (i + 1, Ok(()))
            },
            ChainStepView::Done(r) => (i + 1, r),
        }
    } else {
        (i, Ok(()))
    }
}

proof fn lemma_run_steps(outcomes: Seq<Result<(), Seq<char>>>, i: int)
    requires
        0 <= i < outcomes.len(),
    ensures
        (forall|j: int| i <= j < outcomes.len() ==> outcomes[j] is Ok) ==> run_steps(outcomes, i) == (
            outcomes.len() as int,
            Ok::<(), Seq<char>>(()),
        ),
        forall|m: int|
            i <= m < outcomes.len() && outcomes[m] is Err && (forall|j: int| i <= j < m ==> outcomes[j] is Ok)
                ==> run_steps(outcomes, i) == (m + 1, outcomes[m]),
    decreases outcomes.len() - i,
{
    if i + 1 < outcomes.len() {
        lemma_run_steps(outcomes, i + 1);
    }
    assert forall|m: int|
        i <= m < outcomes.len() && outcomes[m] is Err && (forall|j: int| i <= j < m ==> outcomes[j] is Ok)
            implies run_steps(outcomes, i) == (m + 1, outcomes[m]) by {
        if m > i {
            assert(outcomes[i] is Ok);
            assert forall|j: int| i + 1 <= j < m implies outcomes[j] is Ok by {}
        }
    }
    if forall|j: int| i <= j < outcomes.len() ==> outcomes[j] is Ok {
        assert(outcomes[i] is Ok);
        if i + 1 < outcomes.len() {
            assert forall|j: int| i + 1 <= j < outcomes.len() implies outcomes[j] is Ok by {}
        }
    }
}

/// A chain run by `chain_start` and `chain_next` runs its actions once each, in
/// order, and stops at the first failure: when the actions come back with
/// `outcomes`, it ends with success after all of them when all succeed, and
/// otherwise after the first failing one, with that failure.
pub proof fn law_chain_stops_at_first_failure(outcomes: Seq<Result<(), Seq<char>>>)
    ensures
        outcomes.len() == 0 ==> first_step(0) == ChainStepView::Done(Ok(())),
        outcomes.len() > 0 ==> first_step(outcomes.len() as int) == ChainStepView::Run(0),
        outcomes.len() > 0 && (forall|j: int| 0 <= j < outcomes.len() ==> outcomes[j] is Ok) ==> run_steps(
            outcomes,
            0,
        ) == (outcomes.len() as int, Ok::<(), Seq<char>>(())),
        forall|m: int|
            0 <= m < outcomes.len() && outcomes[m] is Err && (forall|j: int| 0 <= j < m ==> outcomes[j] is Ok)
                ==> run_steps(outcomes, 0) == (m + 1, outcomes[m]),
{
    if outcomes.len() > 0 {
        lemma_run_steps(outcomes, 0);
    }
}

/// The views of a list of hook actions.
pub open spec fn action_views(actions: Seq<HookAction>) -> Seq<HookActionView> {
    actions.map_values(|a: HookAction| a@)
}

/// The install actions of a kitchen's extensions, in extension order.
pub fn install(k: &KitchenConfig, res: &Resources) -> (actions: Vec<HookAction>)
    ensures
        action_views(actions@) == extension_views(k.extensions@).map_values(
            |e: AnyExtensionView| ext_install(e, *res),
        ),
{
    let mut actions: Vec<HookAction> = Vec::new();
    let mut i: usize = 0;
    while i < k.extensions.len()
        invariant
            i <= k.extensions@.len(),
            action_views(actions@) =~= extension_views(k.extensions@).map_values(
                |e: AnyExtensionView| ext_install(e, *res),
            ).take(i as int),
        decreases k.extensions.len() - i,
    {
        let a = k.extensions[i].install(k, res);
        let ghost before = actions@;
        actions.push(a);
        proof {
            let all = extension_views(k.extensions@).map_values(|e: AnyExtensionView| ext_install(e, *res));
            assert(all[i as int] == a@);
            assert(action_views(actions@) =~= action_views(before).push(a@));
            assert(all.take(i + 1) =~= all.take(i as int).push(all[i as int]));
        }
        i = i + 1;
    }
    proof {
        let n = k.extensions@.len() as int;
        assert(extension_views(k.extensions@).len() == n);
    }
    actions
}

/// The start actions of a kitchen's extensions, in extension order.
pub fn onstart(k: &KitchenConfig, res: &Resources) -> (actions: Vec<HookAction>)
    ensures
        action_views(actions@) == extension_views(k.extensions@).map_values(
            |e: AnyExtensionView| ext_onstart(e, *res),
        ),
{
    let mut actions: Vec<HookAction> = Vec::new();
    let mut i: usize = 0;
    while i < k.extensions.len()
        invariant
            i <= k.extensions@.len(),
            action_views(actions@) =~= extension_views(k.extensions@).map_values(
                |e: AnyExtensionView| ext_onstart(e, *res),
            ).take(i as int),
        decreases k.extensions.len() - i,
    {
        let a = k.extensions[i].onstart(k, res);
        let ghost before = actions@;
        actions.push(a);
        proof {
            let all = extension_views(k.extensions@).map_values(|e: AnyExtensionView| ext_onstart(e, *res));
            assert(all[i as int] == a@);
            assert(action_views(actions@) =~= action_views(before).push(a@));
            assert(all.take(i + 1) =~= all.take(i as int).push(all[i as int]));
        }
        i = i + 1;
    }
    proof {
        let n = k.extensions@.len() as int;
        assert(extension_views(k.extensions@).len() == n);
    }
    actions
}

/// The post-start actions of a kitchen's extensions, in extension order.
pub fn poststart(k: &KitchenConfig, res: &Resources) -> (actions: Vec<HookAction>)
    ensures
        action_views(actions@) == extension_views(k.extensions@).map_values(
            |e: AnyExtensionView| ext_poststart(e),
        ),
{
    let mut actions: Vec<HookAction> = Vec::new();
    let mut i: usize = 0;
    while i < k.extensions.len()
        invariant
            i <= k.extensions@.len(),
            action_views(actions@) =~= extension_views(k.extensions@).map_values(
                |e: AnyExtensionView| ext_poststart(e),
            ).take(i as int),
        decreases k.extensions.len() - i,
    {
        let a = k.extensions[i].poststart(k, res);
        let ghost before = actions@;
        actions.push(a);
        proof {
            let all = extension_views(k.extensions@).map_values(|e: AnyExtensionView| ext_poststart(e));
            assert(all[i as int] == a@);
            assert(action_views(actions@) =~= action_views(before).push(a@));
            assert(all.take(i + 1) =~= all.take(i as int).push(all[i as int]));
        }
        i = i + 1;
    }
    proof {
        let n = k.extensions@.len() as int;
        assert(extension_views(k.extensions@).len() == n);
    }
    actions
}

} // verus!
