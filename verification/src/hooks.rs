//! The workspace's own hooks: an executable `.kitchen/hooks/poststart` in the
//! workspace is run after the container has started.
use vstd::prelude::*;

use crate::cmd::{default_runner, ScriptInputView, ScriptRunner, ScriptRunnerView};
use crate::kitchen::KitchenConfig;
use crate::text::{join_path, path_join};

verus! {

/// Where the workspace's post-start hook lives in the container.
pub open spec fn poststart_hook_path_of(k: KitchenConfig) -> Seq<char> {
    path_join(path_join(path_join(k.container_workspace_path@, ".kitchen"@), "hooks"@), "poststart"@)
}

/// Where the workspace's post-start hook lives in the container.
pub fn poststart_hook_path(k: &KitchenConfig) -> (res: String)
    ensures
        res@ == poststart_hook_path_of(*k),
{
    let dir = join_path(k.container_workspace_path.as_str(), ".kitchen");
    let hooks = join_path(dir.as_str(), "hooks");
    join_path(hooks.as_str(), "poststart")
}

/// The run of the post-start hook, when it exists: the hook itself, without
/// arguments, under the label `Running poststart hook`.
pub fn poststart(k: &KitchenConfig) -> (runner: ScriptRunner)
    ensures
        runner@ == (ScriptRunnerView {
            label: Some("Running poststart hook"@),
            ..default_runner(ScriptInputView::Command(poststart_hook_path_of(*k), Seq::empty()))
        }),
{
    let path = poststart_hook_path(k);
    let no_args: [&str; 0] = [];
    let runner = ScriptRunner::command(path.as_str(), &no_args).label("Running poststart hook");
    assert(no_args@.map_values(|a: &str| a@) =~= Seq::<Seq<char>>::empty());
    runner
}

} // verus!
