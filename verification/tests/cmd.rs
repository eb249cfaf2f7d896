use kitchen::cmd::{check_script_url, ScriptInput, ScriptRunner, StdinMode};

#[test]
fn script_runs_through_sh_reading_stdin() {
    let inv = ScriptRunner::script("echo hi").invocation();
    assert_eq!(inv.program, "sh");
    assert_eq!(inv.args, vec!["-s".to_string()]);
    match inv.stdin {
        StdinMode::Script(s) => assert_eq!(s, "echo hi"),
        StdinMode::Null => panic!("a script is piped to the shell"),
    }
}

#[test]
fn script_with_sudo_and_other_shell() {
    let inv = ScriptRunner::script("x").shell("bash").sudo().invocation();
    assert_eq!(inv.program, "sudo");
    assert_eq!(inv.args, vec!["bash".to_string(), "-s".to_string()]);
}

#[test]
fn command_runs_program_directly() {
    let inv = ScriptRunner::command("tailscale", &["up", "--ssh"]).invocation();
    assert_eq!(inv.program, "tailscale");
    assert_eq!(inv.args, vec!["up".to_string(), "--ssh".to_string()]);
    assert!(matches!(inv.stdin, StdinMode::Null));
}

#[test]
fn command_with_sudo_puts_program_after_sudo() {
    let inv = ScriptRunner::command("tailscale", &["up"]).sudo().invocation();
    assert_eq!(inv.program, "sudo");
    assert_eq!(inv.args, vec!["tailscale".to_string(), "up".to_string()]);
}

#[test]
fn new_takes_any_input() {
    let inv = ScriptRunner::new(ScriptInput::Command("ls".to_string(), vec!["-l".to_string()])).invocation();
    assert_eq!(inv.program, "ls");
    assert_eq!(inv.args, vec!["-l".to_string()]);
}

#[test]
fn env_later_value_replaces_earlier() {
    let r = ScriptRunner::script("x").env("A", "1").env("B", "2").env("A", "3");
    let mut vars = r.env_vars();
    vars.sort();
    assert_eq!(vars, vec![("A".to_string(), "3".to_string()), ("B".to_string(), "2".to_string())]);
}

#[test]
fn defaults_and_settings() {
    let r = ScriptRunner::script("x");
    assert_eq!(r.working_dir_path(), None);
    assert!(r.env_vars().is_empty());
    assert!(r.timeout_duration().is_none());
    assert_eq!(r.banner(), None);
    let r = r.working_dir("/tmp").timeout(std::time::Duration::from_secs(5)).label("Build");
    assert_eq!(r.working_dir_path().as_deref(), Some("/tmp"));
    assert_eq!(r.timeout_duration(), Some(std::time::Duration::from_secs(5)));
    assert_eq!(r.banner().as_deref(), Some("==> Build"));
}

#[test]
fn errors_name_the_label_or_script() {
    let r = ScriptRunner::script("x");
    assert_eq!(r.exit_error(Some(3)), "script exited with status 3");
    assert_eq!(r.exit_error(None), "script exited with status -1");
    let r = r.label("Installing mise");
    assert_eq!(r.exit_error(Some(-20)), "Installing mise exited with status -20");
    assert_eq!(r.exit_error(Some(i32::MIN)), "Installing mise exited with status -2147483648");
    assert_eq!(r.timeout_error("300s"), "Installing mise timed out after 300s");
    assert_eq!(r.label_text(), "Installing mise");
}

#[test]
fn only_https_urls_are_fetched() {
    assert!(check_script_url("https://mise.run").is_ok());
    assert_eq!(
        check_script_url("http://mise.run"),
        Err("refusing to fetch script over plain HTTP: http://mise.run".to_string())
    );
    assert!(check_script_url("").is_err());
}
