//! Cleaning of the build output directories before a fresh build.

use vstd::prelude::*;

use crate::project_info::ProjectInfo;
use crate::runner::{BuildStep, StepView};

verus! {

/// What the cleaner works on: the dist directory and the web project.
#[derive(Debug, Clone)]
pub struct Config {
    pub dist_path: String,
    pub web_project_path: String,
}

impl Config {
    /// Takes the paths the cleaner needs from the discovered layout.
    pub fn from_project_info(project_info: &ProjectInfo) -> (r: Self)
        ensures
            r.dist_path@ == project_info@.dist_path,
            r.web_project_path@ == project_info@.web_project_path,
    {
        Self {
            dist_path: project_info.dist_path.clone(),
            web_project_path: project_info.web_project_path.clone(),
        }
    }

    /// The wasm directory inside the web project.
    pub fn web_project_wasm_path(&self) -> (r: String)
        ensures
            r@ == self.web_project_path@ + "/"@ + "wasm"@,
    {
        crate::text::path_join(self.web_project_path.as_str(), "wasm")
    }
}

/// Why cleaning failed. The embedding binary constructs these from the
/// outcome of the directory operations.
#[derive(Debug)]
pub enum Error {
    CreateDistDir(String),
    CreateWebWasmDir(String),
}

/// Recreates the output directories from scratch.
pub struct Cleaner {
    config: Config,
}

/// The mathematical content of a cleaner.
#[verifier::ext_equal]
pub ghost struct CleanerView {
    pub dist_path: Seq<char>,
    pub web_project_path: Seq<char>,
}

impl View for Cleaner {
    type V = CleanerView;

    closed spec fn view(&self) -> CleanerView {
        CleanerView {
            dist_path: self.config.dist_path@,
            web_project_path: self.config.web_project_path@,
        }
    }
}

/// The steps that clean a layout: each output directory is removed and then
/// created empty; a removal of a directory that is not there is no failure.
pub open spec fn clean_plan(c: CleanerView) -> Seq<StepView> {
    seq![
        StepView::RemoveDir { path: c.dist_path },
        StepView::CreateDir { path: c.dist_path },
        StepView::RemoveDir { path: c.web_project_path + "/"@ + "wasm"@ },
        StepView::CreateDir { path: c.web_project_path + "/"@ + "wasm"@ },
    ]
}

impl Cleaner {
    /// Configures the cleaner.
    pub fn new(config: Config) -> (r: Self)
        ensures
            r@ == (CleanerView {
                dist_path: config.dist_path@,
                web_project_path: config.web_project_path@,
            }),
    {
        Self { config }
    }

    /// The steps that clean the configured layout, in order. Executing them
    /// is the embedding binary's part.
    pub fn plan(&self) -> (r: Vec<BuildStep>)
        ensures
            r.deep_view() =~~= clean_plan(self@),
    {
        let wasm_path = self.config.web_project_wasm_path();
        let mut steps: Vec<BuildStep> = Vec::new();
        steps.push(BuildStep::RemoveDir { path: self.config.dist_path.clone() });
        steps.push(BuildStep::CreateDir { path: self.config.dist_path.clone() });
        steps.push(BuildStep::RemoveDir { path: wasm_path.clone() });
        steps.push(BuildStep::CreateDir { path: wasm_path });
        steps
    }
}

} // verus!
