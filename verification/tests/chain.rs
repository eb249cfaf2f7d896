use kitchen::cmd::StdinMode;
use kitchen::container::{ensure_action, EnsureAction, InspectOutcome};
use kitchen::extensions::{chain_next, chain_start, ChainStep, DotfilesRun};

/// Runs a chain of actions whose outcomes are given, by its steps; gives the
/// indices run and how the chain ended.
fn drive(outcomes: &[Result<(), &str>]) -> (Vec<usize>, Result<(), String>) {
    let n = outcomes.len();
    let mut ran = Vec::new();
    let mut step = chain_start(n);
    loop {
        match step {
            ChainStep::Run(i) => {
                ran.push(i);
                let outcome = outcomes[i].map_err(|e| e.to_string());
                step = chain_next(n, i, outcome);
            }
            ChainStep::Done(r) => return (ran, r),
        }
    }
}

#[test]
fn empty_chain_succeeds_at_once() {
    assert_eq!(drive(&[]), (vec![], Ok(())));
}

#[test]
fn chain_runs_every_action_in_order_when_all_succeed() {
    assert_eq!(drive(&[Ok(()), Ok(()), Ok(())]), (vec![0, 1, 2], Ok(())));
}

#[test]
fn chain_stops_at_the_first_failure_and_returns_it() {
    assert_eq!(
        drive(&[Ok(()), Err("second failed"), Err("third failed")]),
        (vec![0, 1], Err("second failed".to_string()))
    );
    assert_eq!(drive(&[Err("first")]), (vec![0], Err("first".to_string())));
}

#[test]
fn dotfiles_run_invocation_and_outcome() {
    let d = DotfilesRun {
        script: "echo hi".to_string(),
        repo: "https://github.com/me/dotfiles".to_string(),
        install_cmd: "./install.sh".to_string(),
    };
    let inv = d.invocation();
    assert_eq!(inv.program, "sh");
    assert_eq!(
        inv.args,
        vec!["-s".to_string(), "--".to_string(), "https://github.com/me/dotfiles".to_string(), "./install.sh".to_string()]
    );
    match inv.stdin {
        StdinMode::Script(s) => assert_eq!(s, "echo hi"),
        StdinMode::Null => panic!("the script goes to stdin"),
    }
    assert_eq!(d.outcome(true), Ok(()));
    assert_eq!(d.outcome(false), Err("dotfiles provisioning failed".to_string()));
}

#[test]
fn ensuring_a_volume_or_network() {
    assert_eq!(ensure_action(InspectOutcome::Found), EnsureAction::Nothing);
    assert_eq!(ensure_action(InspectOutcome::ServerError(404)), EnsureAction::Create);
    assert_eq!(ensure_action(InspectOutcome::ServerError(500)), EnsureAction::Fail);
    assert_eq!(ensure_action(InspectOutcome::OtherError), EnsureAction::Fail);
}
