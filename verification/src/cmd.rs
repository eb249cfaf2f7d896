//! Running scripts and commands on the host: a builder that records how a
//! script or program is to be run, and the decisions of a run (what is spawned,
//! what is fed to its stdin, what a failure reports).
use vstd::prelude::*;

use crate::text::{has_prefix, i64_to_decimal, signed_decimal, starts_with, str_eq, string_views};

verus! {

/// What a runner runs: a script piped to a shell's stdin, or a program with
/// arguments run directly.
pub enum ScriptInput {
    Script(String),
    Command(String, Vec<String>),
}

/// The view of a `ScriptInput`.
pub enum ScriptInputView {
    Script(Seq<char>),
    Command(Seq<char>, Seq<Seq<char>>),
}

impl View for ScriptInput {
    type V = ScriptInputView;

    open spec fn view(&self) -> ScriptInputView {
        match self {
            ScriptInput::Script(s) => ScriptInputView::Script(s@),
            ScriptInput::Command(p, args) => ScriptInputView::Command(p@, string_views(args@)),
        }
    }
}

/// The environment variables as a map: a later pair for a key overrides an
/// earlier one.
pub open spec fn env_map(pairs: Seq<(String, String)>) -> Map<Seq<char>, Seq<char>>
    decreases pairs.len(),
{
    if pairs.len() == 0 {
        Map::empty()
    } else {
        env_map(pairs.drop_last()).insert(pairs.last().0@, pairs.last().1@)
    }
}

/// No variable name occurs twice.
pub open spec fn env_keys_distinct(pairs: Seq<(String, String)>) -> bool {
    forall|i: int, j: int|
        0 <= i < pairs.len() && 0 <= j < pairs.len() && i != j ==> pairs[i].0@ != pairs[j].0@
}

/// The view of a `ScriptRunner`: every setting it was built with.
pub struct ScriptRunnerView {
    pub input: ScriptInputView,
    pub sudo: bool,
    pub shell: Seq<char>,
    pub working_dir: Option<Seq<char>>,
    pub env: Map<Seq<char>, Seq<char>>,
    pub timeout: Option<std::time::Duration>,
    pub label: Option<Seq<char>>,
}

/// Settings for running a script or a command.
pub struct ScriptRunner {
    input: ScriptInput,
    sudo: bool,
    shell: String,
    working_dir: Option<String>,
    env: Vec<(String, String)>,
    timeout: Option<std::time::Duration>,
    label: Option<String>,
}

impl View for ScriptRunner {
    type V = ScriptRunnerView;

    closed spec fn view(&self) -> ScriptRunnerView {
        ScriptRunnerView {
            input: self.input@,
            sudo: self.sudo,
            shell: self.shell@,
            working_dir: match self.working_dir {
                Some(d) => Some(d@),
                None => None,
            },
            env: env_map(self.env@),
            timeout: self.timeout,
            label: match self.label {
                Some(l) => Some(l@),
                None => None,
            },
        }
    }
}

/// The settings of a runner fresh from `ScriptRunner::new`.
pub open spec fn default_runner(input: ScriptInputView) -> ScriptRunnerView {
    ScriptRunnerView {
        input: input,
        sudo: false,
        shell: "sh"@,
        working_dir: None,
        env: Map::empty(),
        timeout: None,
        label: None,
    }
}

/// How the child's stdin is set up.
pub enum StdinMode {
    /// Piped, with this script written to it and then closed.
    Script(String),
    /// Connected to nothing.
    Null,
}

/// The process that a run spawns.
pub struct Invocation {
    pub program: String,
    pub args: Vec<String>,
    pub stdin: StdinMode,
}

/// The program, arguments and stdin of a run: a script is piped to `<shell> -s`
/// (`sudo <shell> -s` with sudo); a command runs its program directly (behind
/// `sudo` with sudo) with its arguments and no stdin.
pub open spec fn invocation_of(r: ScriptRunnerView) -> (Seq<char>, Seq<Seq<char>>, Option<Seq<char>>) {
    match r.input {
        ScriptInputView::Script(script) => if r.sudo {
            ("sudo"@, seq![r.shell, "-s"@], Some(script))
        } else {
            (r.shell, seq!["-s"@], Some(script))
        },
        ScriptInputView::Command(program, args) => if r.sudo {
            ("sudo"@, seq![program] + args, None)
        } else {
            (program, args, None)
        },
    }
}

/// The name a run goes by in messages: its label, or `script`.
pub open spec fn label_text_of(r: ScriptRunnerView) -> Seq<char> {
    match r.label {
        Some(l) => l,
        None => "script"@,
    }
}

/// The prefix that every script fetched from a URL must carry.
pub open spec fn is_secure_script_url(url: Seq<char>) -> bool {
    has_prefix(url, "https://"@)
}

proof fn lemma_env_map_update(pairs: Seq<(String, String)>, j: int, pair: (String, String))
    requires
        env_keys_distinct(pairs),
        0 <= j < pairs.len(),
        pairs[j].0@ == pair.0@,
    ensures
        env_map(pairs.update(j, pair)) == env_map(pairs).insert(pair.0@, pair.1@),
    decreases pairs.len(),
{
    let updated = pairs.update(j, pair);
    if j == pairs.len() - 1 {
        assert(updated.drop_last() =~= pairs.drop_last());
        assert(env_map(updated) =~= env_map(pairs).insert(pair.0@, pair.1@));
    } else {
        let shorter = pairs.drop_last();
        assert(updated.drop_last() =~= shorter.update(j, pair));
        lemma_env_map_update(shorter, j, pair);
        assert(pairs.last().0@ != pair.0@);
        assert(env_map(updated) =~= env_map(pairs).insert(pair.0@, pair.1@));
    }
}

/// A runner's settings after setting the environment variable `key` to `val`.
pub open spec fn with_env(r: ScriptRunnerView, key: Seq<char>, val: Seq<char>) -> ScriptRunnerView {
    ScriptRunnerView { env: r.env.insert(key, val), ..r }
}

/// Setting a variable twice keeps the later value: a runner after
/// `.env(k, v1).env(k, v2)` is the runner after `.env(k, v2)` alone, and the
/// variable reads back as set to `v2` whatever was set before.
pub proof fn law_env_last_write_wins(r: ScriptRunnerView, key: Seq<char>, v1: Seq<char>, v2: Seq<char>)
    ensures
        with_env(with_env(r, key, v1), key, v2) == with_env(r, key, v2),
        with_env(r, key, v2).env.dom().contains(key),
        with_env(r, key, v2).env[key] == v2,
{
    assert(r.env.insert(key, v1).insert(key, v2) =~= r.env.insert(key, v2));
}

/// Setting a variable leaves every other variable, and every other setting of
/// the runner, as it was.
pub proof fn law_env_other_keys_unchanged(r: ScriptRunnerView, key: Seq<char>, val: Seq<char>, other: Seq<char>)
    requires
        other != key,
    ensures
        with_env(r, key, val).env.dom().contains(other) == r.env.dom().contains(other),
        r.env.dom().contains(other) ==> with_env(r, key, val).env[other] == r.env[other],
        with_env(r, key, val).input == r.input,
        with_env(r, key, val).sudo == r.sudo,
        with_env(r, key, val).shell == r.shell,
        with_env(r, key, val).working_dir == r.working_dir,
        with_env(r, key, val).timeout == r.timeout,
        with_env(r, key, val).label == r.label,
{
}

/// A script runs through a shell reading it from stdin; a command runs its
/// program directly with no stdin; `sudo` only puts `sudo` in front.
pub proof fn law_invocation_shape(r: ScriptRunnerView)
    ensures
        r.input is Script ==> invocation_of(r).2 is Some && invocation_of(r).1.last() == "-s"@,
        r.input is Command ==> invocation_of(r).2 is None,
        r.sudo ==> invocation_of(r).0 == "sudo"@,
        r.sudo ==> invocation_of(r).1 == seq![invocation_of(ScriptRunnerView { sudo: false, ..r }).0]
            + invocation_of(ScriptRunnerView { sudo: false, ..r }).1,
{
    match r.input {
        ScriptInputView::Script(_) => {
            if r.sudo {
                assert(seq![r.shell, "-s"@] =~= seq![r.shell] + seq!["-s"@]);
            }
        },
        ScriptInputView::Command(_, _) => {},
    }
}

/// What a run feeds and passes on is what it was given: a script run pipes
/// exactly its script to the process, with or without sudo; a command run
/// passes exactly its arguments after the program, with or without sudo, and
/// feeds nothing. Turning sudo on or off never changes the stdin.
pub proof fn law_run_passes_its_input(r: ScriptRunnerView)
    ensures
        forall|script: Seq<char>| r.input == ScriptInputView::Script(script) ==> invocation_of(r).2 == Some(script),
        forall|program: Seq<char>, args: Seq<Seq<char>>|
            r.input == ScriptInputView::Command(program, args) ==> {
                let inv = invocation_of(r);
                &&& inv.2 is None
                &&& inv.1.len() >= args.len()
                &&& inv.1.subrange(inv.1.len() - args.len(), inv.1.len() as int) == args
                &&& (if r.sudo { inv.1[0] == program } else { inv.0 == program })
            },
        invocation_of(ScriptRunnerView { sudo: true, ..r }).2 == invocation_of(ScriptRunnerView { sudo: false, ..r }).2,
{
    match r.input {
        ScriptInputView::Script(_) => {},
        ScriptInputView::Command(program, args) => {
            let inv = invocation_of(r);
            if r.sudo {
                assert(inv.1.subrange(1, inv.1.len() as int) =~= args);
            } else {
                assert(inv.1.subrange(0, inv.1.len() as int) =~= args);
            }
        },
    }
}

impl ScriptRunner {
    #[verifier::type_invariant]
    closed spec fn wf(self) -> bool {
        env_keys_distinct(self.env@)
    }

    /// A runner that pipes `script` to `sh -s`.
    pub fn script(script: &str) -> (res: Self)
        ensures
            res@ == default_runner(ScriptInputView::Script(script@)),
    {
        Self::new(ScriptInput::Script(script.to_owned()))
    }

    /// A runner that runs `program` with `args` directly.
    pub fn command(program: &str, args: &[&str]) -> (res: Self)
        ensures
            res@ == default_runner(
                ScriptInputView::Command(program@, args@.map_values(|a: &str| a@)),
            ),
    {
        let mut owned: Vec<String> = Vec::new();
        let mut i: usize = 0;
        while i < args.len()
            invariant
                i <= args@.len(),
                string_views(owned@) =~= args@.map_values(|a: &str| a@).take(i as int),
            decreases args.len() - i,
        {
            let ghost before = owned@;
            owned.push(args[i].to_owned());
            proof {
                assert(string_views(owned@) =~= string_views(before).push(args@[i as int]@));
                assert(args@.map_values(|a: &str| a@).take(i + 1) =~= args@.map_values(
                    |a: &str| a@,
                ).take(i as int).push(args@[i as int]@));
            }
            i = i + 1;
        }
        assert(args@.map_values(|a: &str| a@).take(args@.len() as int) =~= args@.map_values(
            |a: &str| a@,
        ));
        Self::new(ScriptInput::Command(program.to_owned(), owned))
    }

    /// A runner for `input` with the defaults: no sudo, shell `sh`, the
    /// inherited working directory and environment, no timeout, no label.
    pub fn new(input: ScriptInput) -> (res: Self)
        ensures
            res@ == default_runner(input@),
    {
        let res = ScriptRunner {
            input,
            sudo: false,
            shell: "sh".to_owned(),
            working_dir: None,
            env: Vec::new(),
            timeout: None,
            label: None,
        };
        assert(res@.env =~= Map::<Seq<char>, Seq<char>>::empty());
        res
    }

    /// Runs the script or program through `sudo`.
    pub fn sudo(self) -> (res: Self)
        ensures
            res@ == (ScriptRunnerView { sudo: true, ..self@ }),
    {
        proof {
            use_type_invariant(&self);
        }
        ScriptRunner { sudo: true, ..self }
    }

    /// Uses `shell` in place of `sh` for scripts.
    pub fn shell(self, shell: &str) -> (res: Self)
        ensures
            res@ == (ScriptRunnerView { shell: shell@, ..self@ }),
    {
        proof {
            use_type_invariant(&self);
        }
        ScriptRunner { shell: shell.to_owned(), ..self }
    }

    /// Runs in `working_dir`.
    pub fn working_dir(self, working_dir: &str) -> (res: Self)
        ensures
            res@ == (ScriptRunnerView { working_dir: Some(working_dir@), ..self@ }),
    {
        proof {
            use_type_invariant(&self);
        }
        ScriptRunner { working_dir: Some(working_dir.to_owned()), ..self }
    }

    /// Sets the environment variable `key` to `val` on top of the inherited
    /// environment; a later setting of the same key replaces an earlier one.
    pub fn env(self, key: &str, val: &str) -> (res: Self)
        ensures
            res@ == with_env(self@, key@, val@),
    {
        proof {
            use_type_invariant(&self);
        }
        let ScriptRunner { input, sudo, shell, working_dir, env, timeout, label } = self;
        let mut env = env;
        let ghost old_env = env@;
        let mut i: usize = 0;
        let mut found: Option<usize> = None;
        while i < env.len()
            invariant
                i <= env@.len(),
                env@ == old_env,
                found is None ==> forall|j: int| 0 <= j < i ==> env@[j].0@ != key@,
                found matches Some(j) ==> j < env@.len() && env@[j as int].0@ == key@,
            ensures
                env@ == old_env,
                found is None ==> forall|j: int| 0 <= j < env@.len() ==> env@[j].0@ != key@,
                found matches Some(j) ==> j < env@.len() && env@[j as int].0@ == key@,
            decreases env.len() - i,
        {
            if str_eq(env[i].0.as_str(), key) {
                found = Some(i);
                break;
            }
            i = i + 1;
        }
        let pair = (key.to_owned(), val.to_owned());
        match found {
            Some(j) => {
                proof {
                    lemma_env_map_update(old_env, j as int, pair);
                }
                env.set(j, pair);
                assert(env@ == old_env.update(j as int, pair));
                assert(env_keys_distinct(env@)) by {
                    assert forall|a: int, b: int|
                        0 <= a < env@.len() && 0 <= b < env@.len() && a != b implies env@[a].0@
                        != env@[b].0@ by {
                        assert(old_env[j as int].0@ == key@);
                    }
                }
            },
            None => {
                env.push(pair);
                assert(env@.drop_last() =~= old_env);
                assert(env_keys_distinct(env@)) by {
                    assert forall|a: int, b: int|
                        0 <= a < env@.len() && 0 <= b < env@.len() && a != b implies env@[a].0@
                        != env@[b].0@ by {
                        if a < old_env.len() && b < old_env.len() {
                            assert(env@[a] == old_env[a]);
                            assert(env@[b] == old_env[b]);
                        } else if a < old_env.len() {
                            assert(env@[a] == old_env[a]);
                        } else {
                            assert(env@[b] == old_env[b]);
                        }
                    }
                }
            },
        }
        ScriptRunner { input, sudo, shell, working_dir, env, timeout, label }
    }

    /// Gives up the run when it has not finished after `dur`.
    pub fn timeout(self, dur: std::time::Duration) -> (res: Self)
        ensures
            res@ == (ScriptRunnerView { timeout: Some(dur), ..self@ }),
    {
        proof {
            use_type_invariant(&self);
        }
        ScriptRunner { timeout: Some(dur), ..self }
    }

    /// Names the run: announced before it starts and used in its errors.
    pub fn label(self, label: &str) -> (res: Self)
        ensures
            res@ == (ScriptRunnerView { label: Some(label@), ..self@ }),
    {
        proof {
            use_type_invariant(&self);
        }
        ScriptRunner { label: Some(label.to_owned()), ..self }
    }

    /// The program, arguments and stdin that a run spawns.
    pub fn invocation(&self) -> (res: Invocation)
        ensures
            (res.program@, string_views(res.args@), match res.stdin {
                StdinMode::Script(s) => Some(s@),
                StdinMode::Null => None,
            }) == invocation_of(self@),
    {
        match &self.input {
            ScriptInput::Script(script) => {
                if self.sudo {
                    let args = vec![self.shell.clone(), "-s".to_owned()];
                    assert(string_views(args@) =~= seq![self.shell@, "-s"@]);
                    Invocation { program: "sudo".to_owned(), args, stdin: StdinMode::Script(script.clone()) }
                } else {
                    let args = vec!["-s".to_owned()];
                    assert(string_views(args@) =~= seq!["-s"@]);
                    Invocation { program: self.shell.clone(), args, stdin: StdinMode::Script(script.clone()) }
                }
            },
            ScriptInput::Command(program, args) => {
                if self.sudo {
                    let mut all = vec![program.clone()];
                    let mut i: usize = 0;
                    while i < args.len()
                        invariant
                            i <= args@.len(),
                            string_views(all@) =~= seq![program@] + string_views(args@).take(i as int),
                        decreases args.len() - i,
                    {
                        let ghost before = all@;
                        all.push(args[i].clone());
                        proof {
                            assert(string_views(all@) =~= string_views(before).push(args@[i as int]@));
                            assert(string_views(args@).take(i + 1) =~= string_views(args@).take(i as int).push(args@[i as int]@));
                        }
                        i = i + 1;
                    }
                    assert(string_views(args@).take(args@.len() as int) =~= string_views(args@));
                    Invocation { program: "sudo".to_owned(), args: all, stdin: StdinMode::Null }
                } else {
                    let copy = args.clone();
                    assert(copy@ == args@);
                    Invocation { program: program.clone(), args: copy, stdin: StdinMode::Null }
                }
            },
        }
    }

    /// The working directory of the run, if one was set.
    pub fn working_dir_path(&self) -> (res: Option<String>)
        ensures
            match res {
                Some(d) => self@.working_dir == Some(d@),
                None => self@.working_dir is None,
            },
    {
        self.working_dir.clone()
    }

    /// The environment variables that the run sets, each name once.
    pub fn env_vars(&self) -> (res: Vec<(String, String)>)
        ensures
            env_map(res@) == self@.env,
            env_keys_distinct(res@),
    {
        proof {
            use_type_invariant(self);
        }
        let mut res: Vec<(String, String)> = Vec::new();
        let mut i: usize = 0;
        while i < self.env.len()
            invariant
                i <= self.env@.len(),
                res@ =~= self.env@.take(i as int),
            decreases self.env.len() - i,
        {
            let (k, v) = (self.env[i].0.clone(), self.env[i].1.clone());
            res.push((k, v));
            proof {
                assert(self.env@.take(i + 1) =~= self.env@.take(i as int).push(self.env@[i as int]));
            }
            i = i + 1;
        }
        assert(self.env@.take(self.env@.len() as int) =~= self.env@);
        res
    }

    /// The timeout of the run, if one was set.
    pub fn timeout_duration(&self) -> (res: Option<std::time::Duration>)
        ensures
            res == self@.timeout,
    {
        self.timeout
    }

    /// The name that the run goes by in messages.
    pub fn label_text(&self) -> (res: String)
        ensures
            res@ == label_text_of(self@),
    {
        match &self.label {
            Some(l) => l.clone(),
            None => "script".to_owned(),
        }
    }

    /// The line announced before the run starts: `==> <label>`, only for a
    /// labelled run.
    pub fn banner(&self) -> (res: Option<String>)
        ensures
            match self@.label {
                Some(l) => res matches Some(b) && b@ == "==> "@ + l,
                None => res is None,
            },
    {
        match &self.label {
            Some(l) => {
                let mut b = "==> ".to_owned();
                b.append(l.as_str());
                Some(b)
            },
            None => None,
        }
    }

    /// The error of a run whose process exited unsuccessfully with `code`
    /// (`None` when it was ended by a signal, reported as -1).
    pub fn exit_error(&self, code: Option<i32>) -> (res: String)
        ensures
            res@ == label_text_of(self@) + " exited with status "@ + signed_decimal(
                match code {
                    Some(c) => c as int,
                    None => -1,
                },
            ),
    {
        let mut msg = self.label_text();
        msg.append(" exited with status ");
        let c: i64 = match code {
            Some(c) => c as i64,
            None => -1,
        };
        msg.append(i64_to_decimal(c).as_str());
        msg
    }

    /// The error of a run that did not finish within its timeout; `elapsed` is
    /// the timeout as it is displayed.
    pub fn timeout_error(&self, elapsed: &str) -> (res: String)
        ensures
            res@ == label_text_of(self@) + " timed out after "@ + elapsed@,
    {
        let mut msg = self.label_text();
        msg.append(" timed out after ");
        msg.append(elapsed);
        msg
    }
}

/// Accepts a script URL only over TLS: a URL that does not begin with
/// `https://` is refused, naming the URL.
pub fn check_script_url(url: &str) -> (res: Result<(), String>)
    ensures
        res is Ok <==> is_secure_script_url(url@),
        res matches Err(e) ==> e@ == "refusing to fetch script over plain HTTP: "@ + url@,
{
    if starts_with(url, "https://") {
        Ok(())
    } else {
        let mut msg = "refusing to fetch script over plain HTTP: ".to_owned();
        msg.append(url);
        Err(msg)
    }
}

} // verus!
