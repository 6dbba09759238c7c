//! The post-build hook: an external user script invoked with the current
//! environment tag and a lifecycle signal.

use vstd::prelude::*;

use crate::exec;
use crate::runner::{env_tag, Env};

verus! {

/// Why running the hook script failed.
#[derive(Debug)]
pub enum Error {
    Exec(crate::exec::Error),
}

/// The lifecycle signal handed to the hook script.
#[derive(Debug, Clone, Copy, PartialEq, Eq, Structural)]
pub enum Event {
    BeforeAssetHash,
    AfterAssetHash,
}

/// The tag of a lifecycle signal on the script's command line.
pub open spec fn event_tag(event: Event) -> Seq<char> {
    match event {
        Event::BeforeAssetHash => "before_asset_hash"@,
        Event::AfterAssetHash => "after_asset_hash"@,
    }
}

impl Event {
    /// The tag handed to the hook script on its command line.
    pub fn as_str(&self) -> (r: &'static str)
        ensures
            r@ == event_tag(*self),
    {
        match self {
            Event::BeforeAssetHash => "before_asset_hash",
            Event::AfterAssetHash => "after_asset_hash",
        }
    }
}

/// The configured hook: the script's path and the environment tag it is
/// invoked with.
#[derive(Debug, Clone)]
pub struct ScriptRunner {
    script_path: String,
    env: Env,
}

/// The mathematical content of a configured hook.
#[verifier::ext_equal]
pub ghost struct ScriptRunnerView {
    pub script_path: Seq<char>,
    pub env: Env,
}

impl View for ScriptRunner {
    type V = ScriptRunnerView;

    closed spec fn view(&self) -> ScriptRunnerView {
        ScriptRunnerView { script_path: self.script_path@, env: self.env }
    }
}

impl ScriptRunner {
    /// Configures the hook.
    pub fn new(script_path: String, env: &Env) -> (r: Self)
        ensures
            r@ == (ScriptRunnerView { script_path: script_path@, env: *env }),
    {
        Self { script_path, env: *env }
    }

    /// The command that runs the hook script for the given lifecycle signal:
    /// the script itself, handed the environment tag and the signal tag, from
    /// the working directory the session runs in. Executing the command is
    /// the embedding binary's part.
    pub fn run(&self, event: Event) -> (cmd: exec::Config)
        ensures
            cmd@.work_dir == "."@,
            cmd@.cmd == self@.script_path,
            cmd@.args =~= seq![env_tag(self@.env), event_tag(event)],
    {
        let args = vec![self.env.as_str().to_owned(), event.as_str().to_owned()];
        let cmd = exec::Config { work_dir: ".".to_owned(), cmd: self.script_path.clone(), args };
        proof {
            assert(cmd@.args =~= seq![env_tag(self@.env), event_tag(event)]);
        }
        cmd
    }
}

} // verus!
