//! The image build context: the Containerfile and the files sent with it.
use vstd::prelude::*;

pub mod archive;
pub mod containerfile;

pub use containerfile::Containerfile;

use archive::{
    append_accepted, archive_append, archive_entries, archive_finish, archive_new, compressed_archive,
    plain_archive_path,
};
use containerfile::{
    arg_instruction, copy_instruction, entrypoint_instruction, env_instruction, from_instruction,
    run_instruction, user_instruction,
};
use crate::extensions::{ext_image_context, ext_image_instructions, extension_views, AnyExtensionView, Extension};
use crate::kitchen::KitchenConfig;
use crate::resources::Resources;
use crate::text::{join, seq_join, string_views};

verus! {

/// A file of the image build context: its path in the context, its contents
/// and its Unix permission bits.
pub struct ContextFile {
    pub path: String,
    pub contents: Vec<u8>,
    pub mode: u32,
}

/// The view of a `ContextFile`.
pub struct ContextFileView {
    pub path: Seq<char>,
    pub contents: Seq<u8>,
    pub mode: u32,
}

impl View for ContextFile {
    type V = ContextFileView;

    open spec fn view(&self) -> ContextFileView {
        ContextFileView { path: self.path@, contents: self.contents@, mode: self.mode }
    }
}

/// The permission bits of a context file unless set otherwise: `rw-r--r--`.
pub open spec fn default_file_mode() -> u32 {
    0o644
}

impl ContextFile {
    /// A context file with the default mode.
    pub fn new(path: &str, contents: Vec<u8>) -> (res: Self)
        ensures
            res@ == (ContextFileView { path: path@, contents: contents@, mode: default_file_mode() }),
    {
        ContextFile { path: path.to_owned(), contents, mode: 0o644 }
    }

    /// The same file with mode `mode`.
    pub fn with_mode(self, mode: u32) -> (res: Self)
        ensures
            res@ == (ContextFileView { mode: mode, ..self@ }),
    {
        ContextFile { mode, ..self }
    }
}

/// The system packages that every kitchen image installs.
pub open spec fn default_system_packages() -> Seq<Seq<char>> {
    seq![
        "sudo"@,
        "curl"@,
        "git"@,
        "ca-certificates"@,
        "zsh"@,
        "vim"@,
        "build-essential"@,
        "pkg-config"@,
        "openssh-client"@,
        "locales"@,
    ]
}

/// The command that creates the user `k` with zsh and password-less sudo.
pub open spec fn create_user_command() -> Seq<char> {
    "useradd -m -s /bin/zsh k \\\n            && usermod -aG sudo k \\\n            && echo \"k ALL=(ALL) NOPASSWD:ALL\" > /etc/sudoers.d/k"@
}

/// The instructions before the extensions' ones: the base image, the package
/// installer and the packages, the locale, the daemons directory and the user.
pub open spec fn containerfile_head(base_image: Seq<char>, packages: Seq<Seq<char>>) -> Seq<Seq<char>> {
    seq![
        from_instruction(base_image),
        arg_instruction("KITCHEN_WORKSPACE"@, "/workspace/default"@),
        run_instruction("mkdir -p /usr/lib/kitchen/"@),
        copy_instruction("kitchen-pkg"@, "/usr/lib/kitchen/kitchen-pkg"@),
        run_instruction("chmod +x /usr/lib/kitchen/kitchen-pkg"@),
        run_instruction("/usr/lib/kitchen/kitchen-pkg "@ + seq_join(default_system_packages() + packages, " "@)),
        run_instruction("echo \"en_US.UTF-8 UTF-8\" >> /etc/locale.gen && locale-gen"@),
        run_instruction("mkdir -p /etc/kitchen/daemons/"@),
        run_instruction(create_user_command()),
    ]
}

/// The instructions after the extensions' ones: the kitchen binary, the
/// workspace directory, the install hooks, the entry point and the user.
pub open spec fn containerfile_tail() -> Seq<Seq<char>> {
    seq![
        run_instruction("mkdir -p /usr/local/bin/"@),
        copy_instruction("kitchen"@, "/usr/local/bin/kitchen"@),
        run_instruction("mkdir -p ${KITCHEN_WORKSPACE}"@),
        env_instruction("KITCHEN_WORKSPACE"@, "${KITCHEN_WORKSPACE}"@),
        run_instruction("/usr/local/bin/kitchen container-install"@),
        copy_instruction("init.sh"@, "/init.sh"@),
        run_instruction("chmod +x init.sh"@),
        user_instruction("k"@),
        entrypoint_instruction(seq!["/init.sh"@]),
    ]
}

/// The instructions that the extensions add, in extension order.
pub open spec fn extension_instructions(exts: Seq<AnyExtensionView>) -> Seq<Seq<char>>
    decreases exts.len(),
{
    if exts.len() == 0 {
        Seq::empty()
    } else {
        extension_instructions(exts.drop_last()) + match ext_image_instructions(exts.last()) {
            Some(instructions) => instructions,
            None => Seq::empty(),
        }
    }
}

/// The instructions of a kitchen's Containerfile.
pub open spec fn kitchen_instructions(k: KitchenConfig) -> Seq<Seq<char>> {
    containerfile_head(k.container.base_image@, string_views(k.system_packages@))
        + extension_instructions(extension_views(k.extensions@)) + containerfile_tail()
}

/// The Containerfile that builds a kitchen's image.
pub fn build_containerfile(kitchen: &KitchenConfig) -> (res: Result<String, String>)
    ensures
        res matches Ok(text) && text@ == seq_join(kitchen_instructions(*kitchen), "\n"@),
{
    let mut packages: Vec<String> = vec![
        "sudo".to_owned(),
        "curl".to_owned(),
        "git".to_owned(),
        "ca-certificates".to_owned(),
        "zsh".to_owned(),
        "vim".to_owned(),
        "build-essential".to_owned(),
        "pkg-config".to_owned(),
        "openssh-client".to_owned(),
        "locales".to_owned(),
    ];
    assert(string_views(packages@) =~= default_system_packages());
    let mut i: usize = 0;
    while i < kitchen.system_packages.len()
        invariant
            i <= kitchen.system_packages@.len(),
            string_views(packages@) =~= default_system_packages() + string_views(
                kitchen.system_packages@,
            ).take(i as int),
        decreases kitchen.system_packages.len() - i,
    {
        let ghost before = packages@;
        packages.push(kitchen.system_packages[i].clone());
        proof {
            let extra = string_views(kitchen.system_packages@);
            assert(string_views(packages@) =~= string_views(before).push(extra[i as int]));
            assert(extra.take(i + 1) =~= extra.take(i as int).push(extra[i as int]));
        }
        i = i + 1;
    }
    assert(string_views(kitchen.system_packages@).take(kitchen.system_packages@.len() as int)
        =~= string_views(kitchen.system_packages@));
    let pkg_args = join(&packages, " ");
    let mut install_packages = "/usr/lib/kitchen/kitchen-pkg ".to_owned();
    install_packages.append(pkg_args.as_str());
    let mut containerfile = Containerfile::new()
        .from(kitchen.container.base_image.as_str())
        .arg("KITCHEN_WORKSPACE", "/workspace/default")
        .run("mkdir -p /usr/lib/kitchen/")
        .copy("kitchen-pkg", "/usr/lib/kitchen/kitchen-pkg")
        .run("chmod +x /usr/lib/kitchen/kitchen-pkg")
        .run(install_packages.as_str())
        .run("echo \"en_US.UTF-8 UTF-8\" >> /etc/locale.gen && locale-gen")
        .run("mkdir -p /etc/kitchen/daemons/")
        .run("useradd -m -s /bin/zsh k \\\n            && usermod -aG sudo k \\\n            && echo \"k ALL=(ALL) NOPASSWD:ALL\" > /etc/sudoers.d/k");
    let ghost head = containerfile_head(kitchen.container.base_image@, string_views(kitchen.system_packages@));
    assert(containerfile@ =~= head);
    let ghost exts = extension_views(kitchen.extensions@);
    let mut j: usize = 0;
    while j < kitchen.extensions.len()
        invariant
            j <= kitchen.extensions@.len(),
            exts == extension_views(kitchen.extensions@),
            containerfile@ =~= head + extension_instructions(exts.take(j as int)),
        decreases kitchen.extensions.len() - j,
    {
        proof {
            assert(exts.take(j + 1).drop_last() =~= exts.take(j as int));
            assert(exts.take(j + 1).last() == kitchen.extensions@[j as int]@);
        }
        match kitchen.extensions[j].image_instructions(kitchen) {
            Some(instructions) => {
                containerfile = containerfile.extend(&instructions);
            },
            None => {},
        }
        j = j + 1;
    }
    assert(exts.take(kitchen.extensions@.len() as int) =~= exts);
    let image_args: [&str; 1] = ["/init.sh"];
    let containerfile = containerfile
        .run("mkdir -p /usr/local/bin/")
        .copy("kitchen", "/usr/local/bin/kitchen")
        .run("mkdir -p ${KITCHEN_WORKSPACE}")
        .env("KITCHEN_WORKSPACE", "${KITCHEN_WORKSPACE}")
        .run("/usr/local/bin/kitchen container-install")
        .copy("init.sh", "/init.sh")
        .run("chmod +x init.sh")
        .user("k")
        .entrypoint(&image_args);
    assert(image_args@.map_values(|a: &str| a@) =~= seq!["/init.sh"@]);
    assert(containerfile@ =~= kitchen_instructions(*kitchen));
    Ok(containerfile.build())
}

/// The Containerfile line that puts tailscale's daemon definition in place.
pub open spec fn tailscale_copy_line() -> Seq<char> {
    "COPY tailscale/pitchfork.toml /etc/kitchen/daemons/tailscale.toml"@
}

/// The Containerfile line that prepares pitchfork's configuration directory.
pub open spec fn pitchfork_dir_line() -> Seq<char> {
    "RUN mkdir -p /etc/pitchfork/ && chown k:k /etc/pitchfork/"@
}

proof fn lemma_differ_at(a: Seq<char>, b: Seq<char>, i: int)
    requires
        0 <= i < a.len(),
        i < b.len(),
        a[i] != b[i],
    ensures
        a != b,
{
}

proof fn lemma_extension_lines()
    ensures
        ext_image_instructions(AnyExtensionView::Tailscale) == Some(seq![tailscale_copy_line()]),
        ext_image_instructions(AnyExtensionView::Pitchfork) == Some(seq![pitchfork_dir_line()]),
        tailscale_copy_line() != pitchfork_dir_line(),
{
    reveal_strlit("COPY tailscale/pitchfork.toml /etc/kitchen/daemons/tailscale.toml");
    reveal_strlit("RUN mkdir -p /etc/pitchfork/ && chown k:k /etc/pitchfork/");
    reveal_strlit("COPY ");
    reveal_strlit(" ");
    reveal_strlit("RUN ");
    reveal_strlit("tailscale/pitchfork.toml");
    reveal_strlit("/etc/kitchen/daemons/tailscale.toml");
    reveal_strlit("mkdir -p /etc/pitchfork/ && chown k:k /etc/pitchfork/");
    assert(copy_instruction("tailscale/pitchfork.toml"@, "/etc/kitchen/daemons/tailscale.toml"@) =~= tailscale_copy_line());
    assert(run_instruction("mkdir -p /etc/pitchfork/ && chown k:k /etc/pitchfork/"@) =~= pitchfork_dir_line());
    lemma_differ_at(tailscale_copy_line(), pitchfork_dir_line(), 0);
}

proof fn lemma_fixed_lines_are_not_extension_lines(base_image: Seq<char>, packages: Seq<Seq<char>>)
    ensures
        !containerfile_head(base_image, packages).contains(tailscale_copy_line()),
        !containerfile_head(base_image, packages).contains(pitchfork_dir_line()),
        !containerfile_tail().contains(tailscale_copy_line()),
        !containerfile_tail().contains(pitchfork_dir_line()),
{
    reveal_strlit("COPY tailscale/pitchfork.toml /etc/kitchen/daemons/tailscale.toml");
    reveal_strlit("RUN mkdir -p /etc/pitchfork/ && chown k:k /etc/pitchfork/");
    reveal_strlit("FROM ");
    reveal_strlit("ARG ");
    reveal_strlit("RUN ");
    reveal_strlit("COPY ");
    reveal_strlit("ENV ");
    reveal_strlit("USER ");
    reveal_strlit("ENTRYPOINT [");
    reveal_strlit("mkdir -p /usr/lib/kitchen/");
    reveal_strlit("kitchen-pkg");
    reveal_strlit("chmod +x /usr/lib/kitchen/kitchen-pkg");
    reveal_strlit("/usr/lib/kitchen/kitchen-pkg ");
    reveal_strlit("echo \"en_US.UTF-8 UTF-8\" >> /etc/locale.gen && locale-gen");
    reveal_strlit("mkdir -p /etc/kitchen/daemons/");
    reveal_strlit("useradd -m -s /bin/zsh k \\\n            && usermod -aG sudo k \\\n            && echo \"k ALL=(ALL) NOPASSWD:ALL\" > /etc/sudoers.d/k");
    reveal_strlit("mkdir -p /usr/local/bin/");
    reveal_strlit("kitchen");
    reveal_strlit("mkdir -p ${KITCHEN_WORKSPACE}");
    reveal_strlit("/usr/local/bin/kitchen container-install");
    reveal_strlit("init.sh");
    reveal_strlit("chmod +x init.sh");
    let ts = tailscale_copy_line();
    let pf = pitchfork_dir_line();
    let h = containerfile_head(base_image, packages);
    let t = containerfile_tail();
    // The index at which each fixed line first differs from the two lines.
    lemma_differ_at(h[0], ts, 0);
    lemma_differ_at(h[0], pf, 0);
    lemma_differ_at(h[1], ts, 0);
    lemma_differ_at(h[1], pf, 0);
    lemma_differ_at(h[2], ts, 0);
    lemma_differ_at(h[2], pf, 14);
    lemma_differ_at(h[3], ts, 5);
    lemma_differ_at(h[3], pf, 0);
    lemma_differ_at(h[4], ts, 0);
    lemma_differ_at(h[4], pf, 4);
    lemma_differ_at(h[5], ts, 0);
    lemma_differ_at(h[5], pf, 4);
    lemma_differ_at(h[6], ts, 0);
    lemma_differ_at(h[6], pf, 4);
    lemma_differ_at(h[7], ts, 0);
    lemma_differ_at(h[7], pf, 18);
    lemma_differ_at(h[8], ts, 0);
    lemma_differ_at(h[8], pf, 4);
    lemma_differ_at(t[0], ts, 0);
    lemma_differ_at(t[0], pf, 14);
    lemma_differ_at(t[1], ts, 5);
    lemma_differ_at(t[1], pf, 0);
    lemma_differ_at(t[2], ts, 0);
    lemma_differ_at(t[2], pf, 13);
    lemma_differ_at(t[3], ts, 0);
    lemma_differ_at(t[3], pf, 0);
    lemma_differ_at(t[4], ts, 0);
    lemma_differ_at(t[4], pf, 4);
    lemma_differ_at(t[5], ts, 5);
    lemma_differ_at(t[5], pf, 0);
    lemma_differ_at(t[6], ts, 0);
    lemma_differ_at(t[6], pf, 4);
    lemma_differ_at(t[7], ts, 0);
    lemma_differ_at(t[7], pf, 0);
    lemma_differ_at(t[8], ts, 0);
    lemma_differ_at(t[8], pf, 0);
}

proof fn lemma_extension_instructions_hold(exts: Seq<AnyExtensionView>)
    ensures
        extension_instructions(exts).contains(tailscale_copy_line()) <==> exts.contains(AnyExtensionView::Tailscale),
        extension_instructions(exts).contains(pitchfork_dir_line()) <==> exts.contains(AnyExtensionView::Pitchfork),
    decreases exts.len(),
{
    lemma_extension_lines();
    if exts.len() > 0 {
        let init = exts.drop_last();
        lemma_extension_instructions_hold(init);
        let before = extension_instructions(init);
        let added = match ext_image_instructions(exts.last()) {
            Some(instructions) => instructions,
            None => Seq::<Seq<char>>::empty(),
        };
        let all = extension_instructions(exts);
        assert(all == before + added);
        let ts = tailscale_copy_line();
        let pf = pitchfork_dir_line();
        assert(added.contains(ts) <==> exts.last() == AnyExtensionView::Tailscale) by {
            if added.contains(ts) {
                let j = choose|j: int| 0 <= j < added.len() && added[j] == ts;
            }
            if exts.last() == AnyExtensionView::Tailscale {
                assert(added[0] == ts);
            }
        }
        assert(added.contains(pf) <==> exts.last() == AnyExtensionView::Pitchfork) by {
            if added.contains(pf) {
                let j = choose|j: int| 0 <= j < added.len() && added[j] == pf;
            }
            if exts.last() == AnyExtensionView::Pitchfork {
                assert(added[0] == pf);
            }
        }
        lemma_contains_concat(before, added, ts);
        lemma_contains_concat(before, added, pf);
        lemma_contains_last(exts, AnyExtensionView::Tailscale);
        lemma_contains_last(exts, AnyExtensionView::Pitchfork);
    }
}

proof fn lemma_contains_concat<A>(a: Seq<A>, b: Seq<A>, x: A)
    ensures
        (a + b).contains(x) <==> a.contains(x) || b.contains(x),
{
    if (a + b).contains(x) {
        let j = choose|j: int| 0 <= j < (a + b).len() && (a + b)[j] == x;
        if j < a.len() {
            assert(a[j] == x);
        } else {
            assert(b[j - a.len()] == x);
        }
    }
    if a.contains(x) {
        let j = choose|j: int| 0 <= j < a.len() && a[j] == x;
        assert((a + b)[j] == x);
    }
    if b.contains(x) {
        let j = choose|j: int| 0 <= j < b.len() && b[j] == x;
        assert((a + b)[a.len() + j] == x);
    }
}

proof fn lemma_contains_last<A>(s: Seq<A>, x: A)
    requires
        s.len() > 0,
    ensures
        s.contains(x) <==> s.drop_last().contains(x) || s.last() == x,
{
    if s.contains(x) {
        let j = choose|j: int| 0 <= j < s.len() && s[j] == x;
        if j < s.len() - 1 {
            assert(s.drop_last()[j] == x);
        }
    }
    if s.drop_last().contains(x) {
        let j = choose|j: int| 0 <= j < s.drop_last().len() && s.drop_last()[j] == x;
        assert(s[j] == x);
    }
    if s.last() == x {
        assert(s[s.len() - 1] == x);
    }
}

/// A kitchen's Containerfile holds exactly the lines of its own extensions:
/// tailscale's daemon definition is copied in exactly when tailscale is among
/// the kitchen's extensions, which is exactly when the build context holds the
/// copied file; pitchfork's directory is prepared exactly when pitchfork is
/// among them. A disabled extension adds no line.
pub proof fn law_containerfile_follows_extensions(k: KitchenConfig, res: Resources, self_binary: Seq<u8>)
    ensures
        kitchen_instructions(k).contains("COPY tailscale/pitchfork.toml /etc/kitchen/daemons/tailscale.toml"@)
            <==> extension_views(k.extensions@).contains(AnyExtensionView::Tailscale),
        kitchen_instructions(k).contains("RUN mkdir -p /etc/pitchfork/ && chown k:k /etc/pitchfork/"@)
            <==> extension_views(k.extensions@).contains(AnyExtensionView::Pitchfork),
        kitchen_instructions(k).contains("COPY tailscale/pitchfork.toml /etc/kitchen/daemons/tailscale.toml"@)
            <==> exists|i: int| 0 <= i < context_file_views(k, res, self_binary).len()
                && (#[trigger] context_file_views(k, res, self_binary)[i]).path == "tailscale/pitchfork.toml"@,
{
    let exts = extension_views(k.extensions@);
    let h = containerfile_head(k.container.base_image@, string_views(k.system_packages@));
    let e = extension_instructions(exts);
    let t = containerfile_tail();
    lemma_fixed_lines_are_not_extension_lines(k.container.base_image@, string_views(k.system_packages@));
    lemma_extension_instructions_hold(exts);
    lemma_contains_concat(h, e, tailscale_copy_line());
    lemma_contains_concat(h + e, t, tailscale_copy_line());
    lemma_contains_concat(h, e, pitchfork_dir_line());
    lemma_contains_concat(h + e, t, pitchfork_dir_line());
    law_context_files_hold_their_resources(k, res, self_binary);
    reveal_strlit("tailscale/pitchfork.toml");
    reveal_strlit("Dockerfile");
    reveal_strlit("init.sh");
    reveal_strlit("kitchen-pkg");
    reveal_strlit("kitchen");
    let files = context_file_views(k, res, self_binary);
    if files.len() > 4 {
        assert(files[4].path == "tailscale/pitchfork.toml"@);
    }
    if exists|i: int| 0 <= i < files.len() && (#[trigger] files[i]).path == "tailscale/pitchfork.toml"@ {
        let i = choose|i: int| 0 <= i < files.len() && (#[trigger] files[i]).path == "tailscale/pitchfork.toml"@;
        if i < 4 {
            assert(files[i].path.len() != "tailscale/pitchfork.toml"@.len());
        }
    }
}

/// The frame of every kitchen's Containerfile: it starts from the kitchen's
/// base image, copies in the package installer, the program and the entry
/// point script from the build context, switches to the user `k`, and ends by
/// running `/init.sh` as its entry point.
pub proof fn law_containerfile_frame(k: KitchenConfig)
    ensures
        ({
            let ins = kitchen_instructions(k);
            &&& ins[0] == "FROM "@ + k.container.base_image@
            &&& ins.last() == "ENTRYPOINT [\"/init.sh\"]"@
            &&& ins.contains("COPY kitchen-pkg /usr/lib/kitchen/kitchen-pkg"@)
            &&& ins.contains("COPY kitchen /usr/local/bin/kitchen"@)
            &&& ins.contains("COPY init.sh /init.sh"@)
            &&& ins.contains("USER k"@)
        }),
{
    reveal_strlit("FROM ");
    reveal_strlit("ENTRYPOINT [");
    reveal_strlit("]");
    reveal_strlit(", ");
    reveal_strlit("/init.sh");
    reveal_strlit("ENTRYPOINT [\"/init.sh\"]");
    reveal_strlit("COPY ");
    reveal_strlit(" ");
    reveal_strlit("USER ");
    reveal_strlit("k");
    reveal_strlit("kitchen-pkg");
    reveal_strlit("/usr/lib/kitchen/kitchen-pkg");
    reveal_strlit("kitchen");
    reveal_strlit("/usr/local/bin/kitchen");
    reveal_strlit("init.sh");
    reveal_strlit("COPY kitchen-pkg /usr/lib/kitchen/kitchen-pkg");
    reveal_strlit("COPY kitchen /usr/local/bin/kitchen");
    reveal_strlit("COPY init.sh /init.sh");
    reveal_strlit("USER k");
    let exts = extension_views(k.extensions@);
    let h = containerfile_head(k.container.base_image@, string_views(k.system_packages@));
    let e = extension_instructions(exts);
    let t = containerfile_tail();
    let ins = kitchen_instructions(k);
    assert(ins == h + e + t);
    let init = "/init.sh"@;
    assert forall|i: int| 0 <= i < init.len() implies (init[i] as u32) >= 0x20 && init[i] != '"' && init[i] != '\\' by {}
    containerfile::law_plain_json_literal(init);
    assert(seq![init].map_values(|a: Seq<char>| containerfile::json_string_literal(a)) =~= seq![seq!['"'] + init + seq!['"']]);
    assert(t[8] =~= "ENTRYPOINT [\"/init.sh\"]"@);
    assert(ins.last() == t[8]);
    assert(ins[0] == h[0]);
    assert(h[3] =~= "COPY kitchen-pkg /usr/lib/kitchen/kitchen-pkg"@);
    assert(ins[3] == h[3]);
    assert(t[1] =~= "COPY kitchen /usr/local/bin/kitchen"@);
    assert(ins[(h.len() + e.len() + 1) as int] == t[1]);
    assert(t[5] =~= "COPY init.sh /init.sh"@);
    assert(ins[(h.len() + e.len() + 5) as int] == t[5]);
    assert(t[7] =~= "USER k"@);
    assert(ins[(h.len() + e.len() + 7) as int] == t[7]);
}

/// The files that an extension list adds to the build context, in extension
/// order.
pub open spec fn extension_context(exts: Seq<AnyExtensionView>, res: Resources) -> Seq<ContextFileView>
    decreases exts.len(),
{
    if exts.len() == 0 {
        Seq::empty()
    } else {
        extension_context(exts.drop_last(), res) + ext_image_context(exts.last(), res)
    }
}

/// The mode of the executables of the build context: `rwxr-xr-x`.
pub open spec fn executable_mode() -> u32 {
    0o755
}

/// The files of a kitchen's image build context: the Containerfile, the entry
/// point script, the package installer and this program's own binary
/// (`self_binary`), the last three executable; then the extensions' files.
pub open spec fn context_file_views(k: KitchenConfig, res: Resources, self_binary: Seq<u8>) -> Seq<ContextFileView> {
    seq![
        ContextFileView {
            path: "Dockerfile"@,
            contents: vstd::utf8::encode_utf8(seq_join(kitchen_instructions(k), "\n"@)),
            mode: default_file_mode(),
        },
        ContextFileView { path: "init.sh"@, contents: res.init_sh@, mode: executable_mode() },
        ContextFileView { path: "kitchen-pkg"@, contents: res.kitchen_pkg@, mode: executable_mode() },
        ContextFileView { path: "kitchen"@, contents: self_binary, mode: executable_mode() },
    ] + extension_context(extension_views(k.extensions@), res)
}

/// The views of a list of context files.
pub open spec fn context_views(files: Seq<ContextFile>) -> Seq<ContextFileView> {
    files.map_values(|f: ContextFile| f@)
}

/// The files of a kitchen's image build context.
pub fn context_files(kitchen: &KitchenConfig, res: &Resources, self_binary: Vec<u8>) -> (files: Result<Vec<ContextFile>, String>)
    ensures
        files matches Ok(v) && context_views(v@) == context_file_views(*kitchen, *res, self_binary@),
{
    let containerfile = match build_containerfile(kitchen) {
        Ok(c) => c,
        Err(e) => return Err(e),
    };
    let mut files = vec![
        ContextFile::new("Dockerfile", containerfile.as_str().as_bytes_vec()),
        ContextFile::new("init.sh", res.init_sh.clone()).with_mode(0o755),
        ContextFile::new("kitchen-pkg", res.kitchen_pkg.clone()).with_mode(0o755),
        ContextFile::new("kitchen", self_binary).with_mode(0o755),
    ];
    let ghost start = context_views(files@);
    let ghost exts = extension_views(kitchen.extensions@);
    let mut j: usize = 0;
    while j < kitchen.extensions.len()
        invariant
            j <= kitchen.extensions@.len(),
            exts == extension_views(kitchen.extensions@),
            context_views(files@) =~= start + extension_context(exts.take(j as int), *res),
        decreases kitchen.extensions.len() - j,
    {
        proof {
            assert(exts.take(j + 1).drop_last() =~= exts.take(j as int));
            assert(exts.take(j + 1).last() == kitchen.extensions@[j as int]@);
        }
        let extra = kitchen.extensions[j].image_context(kitchen, res);
        let mut k: usize = 0;
        let ghost before = context_views(files@);
        while k < extra.len()
            invariant
                k <= extra@.len(),
                context_views(files@) =~= before + context_views(extra@).take(k as int),
            decreases extra.len() - k,
        {
            let f = &extra[k];
            let copy = ContextFile { path: f.path.clone(), contents: f.contents.clone(), mode: f.mode };
            let ghost prior = files@;
            files.push(copy);
            proof {
                assert(context_views(files@) =~= context_views(prior).push(copy@));
                assert(context_views(extra@).take(k + 1) =~= context_views(extra@).take(k as int).push(extra@[k as int]@));
            }
            k = k + 1;
        }
        assert(context_views(extra@).take(extra@.len() as int) =~= context_views(extra@));
        j = j + 1;
    }
    assert(exts.take(kitchen.extensions@.len() as int) =~= exts);
    Ok(files)
}

/// The archive entries of a list of context files.
pub open spec fn archive_entries_of(files: Seq<ContextFileView>) -> Seq<(Seq<char>, Seq<u8>, u32)> {
    files.map_values(|f: ContextFileView| (f.path, f.contents, f.mode))
}

/// Whether every entry is accepted when appended after the ones before it.
pub open spec fn entries_accepted(entries: Seq<(Seq<char>, Seq<u8>, u32)>) -> bool {
    forall|i: int| 0 <= i < entries.len() ==> #[trigger] append_accepted(
        entries.take(i),
        entries[i].0,
        entries[i].1,
        entries[i].2,
    )
}

proof fn lemma_fixed_paths_plain()
    ensures
        plain_archive_path("Dockerfile"@),
        plain_archive_path("init.sh"@),
        plain_archive_path("kitchen-pkg"@),
        plain_archive_path("kitchen"@),
        plain_archive_path("tailscale/pitchfork.toml"@),
{
    reveal_strlit("Dockerfile");
    reveal_strlit("init.sh");
    reveal_strlit("kitchen-pkg");
    reveal_strlit("kitchen");
    reveal_strlit("tailscale/pitchfork.toml");
}

proof fn lemma_extension_context_paths(exts: Seq<AnyExtensionView>, res: Resources)
    ensures
        forall|i: int| 0 <= i < extension_context(exts, res).len() ==> (#[trigger] extension_context(exts, res)[i]).path
            == "tailscale/pitchfork.toml"@,
    decreases exts.len(),
{
    if exts.len() > 0 {
        lemma_extension_context_paths(exts.drop_last(), res);
        let before = extension_context(exts.drop_last(), res);
        let added = ext_image_context(exts.last(), res);
        assert forall|i: int| 0 <= i < extension_context(exts, res).len() implies (#[trigger] extension_context(exts, res)[i]).path
            == "tailscale/pitchfork.toml"@ by {
            if i < before.len() {
                assert(extension_context(exts, res)[i] == before[i]);
            } else {
                assert(extension_context(exts, res)[i] == added[i - before.len()]);
            }
        }
    }
}

/// Every file of a kitchen's build context has a plain archive path.
proof fn lemma_context_paths_plain(k: KitchenConfig, res: Resources, self_binary: Seq<u8>)
    ensures
        forall|i: int| 0 <= i < context_file_views(k, res, self_binary).len() ==> plain_archive_path(
            (#[trigger] context_file_views(k, res, self_binary)[i]).path,
        ),
{
    lemma_fixed_paths_plain();
    let exts = extension_views(k.extensions@);
    lemma_extension_context_paths(exts, res);
    let all = context_file_views(k, res, self_binary);
    assert forall|i: int| 0 <= i < all.len() implies plain_archive_path((#[trigger] all[i]).path) by {
        if i >= 4 {
            assert(all[i] == extension_context(exts, res)[i - 4]);
        }
    }
}

proof fn lemma_extension_context_files(exts: Seq<AnyExtensionView>, res: Resources)
    ensures
        forall|i: int| 0 <= i < extension_context(exts, res).len() ==> #[trigger] extension_context(exts, res)[i]
            == (ContextFileView { path: "tailscale/pitchfork.toml"@, contents: res.tailscale_pitchfork_toml@, mode: 0o644 }),
        extension_context(exts, res).len() > 0 <==> exts.contains(AnyExtensionView::Tailscale),
    decreases exts.len(),
{
    if exts.len() > 0 {
        let init = exts.drop_last();
        lemma_extension_context_files(init, res);
        let before = extension_context(init, res);
        let added = ext_image_context(exts.last(), res);
        assert forall|i: int| 0 <= i < extension_context(exts, res).len() implies #[trigger] extension_context(exts, res)[i]
            == (ContextFileView { path: "tailscale/pitchfork.toml"@, contents: res.tailscale_pitchfork_toml@, mode: 0o644 }) by {
            if i < before.len() {
                assert(extension_context(exts, res)[i] == before[i]);
            } else {
                assert(extension_context(exts, res)[i] == added[i - before.len()]);
            }
        }
        if exts.contains(AnyExtensionView::Tailscale) {
            let j = choose|j: int| 0 <= j < exts.len() && exts[j] == AnyExtensionView::Tailscale;
            if j < exts.len() - 1 {
                assert(init[j] == AnyExtensionView::Tailscale);
            }
        }
        if init.contains(AnyExtensionView::Tailscale) {
            let j = choose|j: int| 0 <= j < init.len() && init[j] == AnyExtensionView::Tailscale;
            assert(exts[j] == AnyExtensionView::Tailscale);
        }
        if exts.last() == AnyExtensionView::Tailscale {
            assert(exts[exts.len() - 1] == AnyExtensionView::Tailscale);
        }
    }
}

/// Each file of the build context holds what its name says. It opens with
/// `Dockerfile` (the UTF-8 text of the kitchen's Containerfile, mode 0o644),
/// `init.sh` (the bundled entry point script), `kitchen-pkg` (the bundled
/// package installer) and `kitchen` (the program's own binary), these three
/// with mode 0o755; every later file is `tailscale/pitchfork.toml`, the bundled
/// daemon definition with mode 0o644, which is there exactly when tailscale is
/// among the kitchen's extensions. Whatever its position, a file of a given
/// name holds that name's contents.
pub proof fn law_context_files_hold_their_resources(k: KitchenConfig, res: Resources, self_binary: Seq<u8>)
    ensures
        ({
            let files = context_file_views(k, res, self_binary);
            &&& files.len() >= 4
            &&& files[0].path == "Dockerfile"@
            &&& files[1].path == "init.sh"@
            &&& files[2].path == "kitchen-pkg"@
            &&& files[3].path == "kitchen"@
            &&& forall|i: int| 0 <= i < files.len() && #[trigger] files[i].path == "Dockerfile"@ ==> files[i].contents
                == vstd::utf8::encode_utf8(seq_join(kitchen_instructions(k), "\n"@)) && files[i].mode == 0o644
            &&& forall|i: int| 0 <= i < files.len() && #[trigger] files[i].path == "init.sh"@ ==> files[i].contents
                == res.init_sh@ && files[i].mode == 0o755
            &&& forall|i: int| 0 <= i < files.len() && #[trigger] files[i].path == "kitchen-pkg"@ ==> files[i].contents
                == res.kitchen_pkg@ && files[i].mode == 0o755
            &&& forall|i: int| 0 <= i < files.len() && #[trigger] files[i].path == "kitchen"@ ==> files[i].contents
                == self_binary && files[i].mode == 0o755
            &&& forall|i: int| 4 <= i < files.len() ==> (#[trigger] files[i]).path == "tailscale/pitchfork.toml"@
                && files[i].contents == res.tailscale_pitchfork_toml@ && files[i].mode == 0o644
            &&& files.len() > 4 <==> extension_views(k.extensions@).contains(AnyExtensionView::Tailscale)
        }),
{
    reveal_strlit("Dockerfile");
    reveal_strlit("init.sh");
    reveal_strlit("kitchen-pkg");
    reveal_strlit("kitchen");
    reveal_strlit("tailscale/pitchfork.toml");
    let exts = extension_views(k.extensions@);
    lemma_extension_context_files(exts, res);
    let files = context_file_views(k, res, self_binary);
    let ctx = extension_context(exts, res);
    assert forall|i: int| 4 <= i < files.len() implies (#[trigger] files[i]).path == "tailscale/pitchfork.toml"@
        && files[i].contents == res.tailscale_pitchfork_toml@ && files[i].mode == 0o644 by {
        assert(files[i] == ctx[i - 4]);
    }
    assert("init.sh"@[0] != "kitchen"@[0]);
    assert("kitchen"@.len() != "tailscale/pitchfork.toml"@.len());
    assert("init.sh"@.len() != "tailscale/pitchfork.toml"@.len());
    assert("kitchen-pkg"@.len() != "tailscale/pitchfork.toml"@.len());
    assert("Dockerfile"@.len() != "tailscale/pitchfork.toml"@.len());
    assert forall|i: int| 0 <= i < files.len() && #[trigger] files[i].path == "init.sh"@ implies files[i].contents
        == res.init_sh@ && files[i].mode == 0o755 by {
        if i >= 4 {
            assert(files[i] == ctx[i - 4]);
        }
    }
    assert forall|i: int| 0 <= i < files.len() && #[trigger] files[i].path == "kitchen"@ implies files[i].contents
        == self_binary && files[i].mode == 0o755 by {
        if i >= 4 {
            assert(files[i] == ctx[i - 4]);
        }
    }
    assert forall|i: int| 0 <= i < files.len() && #[trigger] files[i].path == "kitchen-pkg"@ implies files[i].contents
        == res.kitchen_pkg@ && files[i].mode == 0o755 by {
        if i >= 4 {
            assert(files[i] == ctx[i - 4]);
        }
    }
    assert forall|i: int| 0 <= i < files.len() && #[trigger] files[i].path == "Dockerfile"@ implies files[i].contents
        == vstd::utf8::encode_utf8(seq_join(kitchen_instructions(k), "\n"@)) && files[i].mode == 0o644 by {
        if i >= 4 {
            assert(files[i] == ctx[i - 4]);
        }
    }
}

/// The gzip-compressed tar archive of a kitchen's image build context, in which
/// the context files stand in order. The archiver accepts every file (their
/// paths are plain), so the archive is built exactly when finishing it succeeds.
pub fn build_context_tar(kitchen: &KitchenConfig, res: &Resources, self_binary: Vec<u8>) -> (archive: Result<Vec<u8>, String>)
    ensures
        ({
            let entries = archive_entries_of(context_file_views(*kitchen, *res, self_binary@));
            &&& entries_accepted(entries)
            &&& archive is Ok <==> compressed_archive(entries) is Some
            &&& archive matches Ok(bytes) ==> compressed_archive(entries) == Some(bytes@)
        }),
{
    let ghost binary = self_binary@;
    proof {
        lemma_context_paths_plain(*kitchen, *res, binary);
    }
    let files = match context_files(kitchen, res, self_binary) {
        Ok(f) => f,
        Err(e) => return Err(e),
    };
    let ghost entries = archive_entries_of(context_views(files@));
    assert(entries == archive_entries_of(context_file_views(*kitchen, *res, binary)));
    assert forall|j: int| 0 <= j < entries.len() implies plain_archive_path(#[trigger] entries[j].0) by {
        assert(entries[j].0 == context_file_views(*kitchen, *res, binary)[j].path);
    }
    let mut ar = archive_new();
    let mut i: usize = 0;
    while i < files.len()
        invariant
            i <= files@.len(),
            entries == archive_entries_of(context_views(files@)),
            entries == archive_entries_of(context_file_views(*kitchen, *res, binary)),
            binary == self_binary@,
            forall|j: int| 0 <= j < entries.len() ==> plain_archive_path(#[trigger] entries[j].0),
            archive_entries(ar) =~= entries.take(i as int),
            forall|j: int| 0 <= j < i ==> #[trigger] append_accepted(
                entries.take(j),
                entries[j].0,
                entries[j].1,
                entries[j].2,
            ),
        decreases files.len() - i,
    {
        let file = &files[i];
        assert(entries[i as int] == (file.path@, file.contents@, file.mode));
        assert(plain_archive_path(entries[i as int].0));
        match archive_append(ar, file.path.as_str(), file.contents.as_slice(), file.mode) {
            Ok(next) => {
                ar = next;
            },
            Err(e) => {
                assert(false);
                return Err(e);
            },
        }
        proof {
            assert(entries.take(i + 1) =~= entries.take(i as int).push(entries[i as int]));
        }
        i = i + 1;
    }
    assert(entries.take(files@.len() as int) =~= entries);
    archive_finish(ar)
}

/// The build arguments of a kitchen's image: `KITCHEN_WORKSPACE` is the
/// container workspace path.
pub fn build_args(kitchen: &KitchenConfig) -> (args: Vec<(String, String)>)
    ensures
        args@.len() == 1,
        args@[0].0@ == "KITCHEN_WORKSPACE"@,
        args@[0].1@ == kitchen.container_workspace_path@,
{
    vec![("KITCHEN_WORKSPACE".to_owned(), kitchen.container_workspace_path_str().to_owned())]
}

} // verus!
