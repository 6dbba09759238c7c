//! The build environment tag, the interface of an external build stage, and
//! the steps a build plan is made of.

use vstd::prelude::*;

use crate::exec;

verus! {

/// A build-stage or hook collaborator. The scheduler invokes `run` and treats
/// any `Err` as a failed stage: the failure is reported to the caller and the
/// current cycle's pipeline stops, but scheduler state stays consistent.
/// Implementations live outside this library (they execute processes).
pub trait Runner<E> {
    fn run(&self) -> Result<(), E>;
}

/// The environment a build runs for: development or release.
#[derive(Debug, Clone, Copy, PartialEq, Eq, Structural)]
pub enum Env {
    Dev,
    Release,
}

/// The tag of an environment on an external script's command line.
pub open spec fn env_tag(env: Env) -> Seq<char> {
    match env {
        Env::Dev => "dev"@,
        Env::Release => "release"@,
    }
}

impl Env {
    /// The tag handed to external scripts on their command line.
    pub fn as_str(&self) -> (r: &'static str)
        ensures
            r@ == env_tag(*self),
    {
        match self {
            Env::Dev => "dev",
            Env::Release => "release",
        }
    }
}

/// One step of a build plan. The plan generators are pure and verified; the
/// binary that embeds this library executes the steps in order, stopping at
/// the first failure.
#[derive(Debug, Clone)]
pub enum BuildStep {
    /// Create a directory and its parents.
    CreateDir { path: String },
    /// Remove a directory tree; absence is no failure.
    RemoveDir { path: String },
    /// Execute an external command.
    Exec { config: exec::Config },
    /// Copy a directory into another, overwriting.
    CopyDir { from: String, to: String },
    /// Rewrite the wasm glue file at `path` for the backend bundler, as
    /// `rust_builder::patch_backend_wasm_glue` prescribes.
    PatchGlueFile { path: String, project_name: String },
}

/// The mathematical content of a build step.
#[verifier::ext_equal]
pub ghost enum StepView {
    CreateDir { path: Seq<char> },
    RemoveDir { path: Seq<char> },
    Exec { config: exec::ConfigView },
    CopyDir { from: Seq<char>, to: Seq<char> },
    PatchGlueFile { path: Seq<char>, project_name: Seq<char> },
}

impl View for BuildStep {
    type V = StepView;

    open spec fn view(&self) -> StepView {
        match self {
            BuildStep::CreateDir { path } => StepView::CreateDir { path: path@ },
            BuildStep::RemoveDir { path } => StepView::RemoveDir { path: path@ },
            BuildStep::Exec { config } => StepView::Exec { config: config@ },
            BuildStep::CopyDir { from, to } => StepView::CopyDir { from: from@, to: to@ },
            BuildStep::PatchGlueFile { path, project_name } => StepView::PatchGlueFile {
                path: path@,
                project_name: project_name@,
            },
        }
    }
}

impl DeepView for BuildStep {
    type V = StepView;

    open spec fn deep_view(&self) -> StepView {
        self.view()
    }
}

} // verus!
