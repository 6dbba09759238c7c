//! The web-stage build: npm commands in the web project.

use vstd::prelude::*;

use crate::exec;
use crate::project_info::ProjectInfo;
use crate::runner::{BuildStep, Env, StepView};

verus! {

/// What the web stage works on.
#[derive(Debug, Clone)]
pub struct Config {
    pub env: Env,
    pub web_project_path: String,
}

impl Config {
    /// Takes what the web stage needs from the discovered layout.
    pub fn from_project_info(env: &Env, project_info: &ProjectInfo) -> (r: Self)
        ensures
            r.env == *env,
            r.web_project_path@ == project_info@.web_project_path,
    {
        Self { env: *env, web_project_path: project_info.web_project_path.clone() }
    }
}

/// Why a web-stage command failed. The embedding binary constructs these from
/// the outcome of the npm invocations.
#[derive(Debug)]
pub enum Error {
    NpmInstall(crate::exec::Error),
    NpmBuildDev(crate::exec::Error),
    NpmBuildRelease(crate::exec::Error),
}

/// Builds the web assets through npm.
#[derive(Debug, Clone)]
pub struct WebBuilder {
    config: Config,
}

/// The mathematical content of a web builder.
#[verifier::ext_equal]
pub ghost struct WebBuilderView {
    pub env: Env,
    pub web_project_path: Seq<char>,
}

impl View for WebBuilder {
    type V = WebBuilderView;

    closed spec fn view(&self) -> WebBuilderView {
        WebBuilderView { env: self.config.env, web_project_path: self.config.web_project_path@ }
    }
}

/// An npm invocation in the web project.
pub open spec fn npm_command(web_project_path: Seq<char>, args: Seq<Seq<char>>) -> exec::ConfigView {
    exec::ConfigView { work_dir: web_project_path, cmd: "npm"@, args: args }
}

/// The steps of a web-stage build: an install, then the build script of the
/// environment.
pub open spec fn web_plan(c: WebBuilderView) -> Seq<StepView> {
    seq![
        StepView::Exec { config: npm_command(c.web_project_path, seq!["install"@]) },
        StepView::Exec {
            config: npm_command(
                c.web_project_path,
                match c.env {
                    Env::Dev => seq!["run"@, "build-dev"@],
                    Env::Release => seq!["run"@, "build-release"@],
                },
            )
        },
    ]
}

impl WebBuilder {
    /// Configures the web stage.
    pub fn new(config: Config) -> (r: Self)
        ensures
            r@ == (WebBuilderView {
                env: config.env,
                web_project_path: config.web_project_path@,
            }),
    {
        Self { config }
    }

    /// The npm install command.
    pub fn npm_install(&self) -> (r: exec::Config)
        ensures
            r@ =~~= npm_command(self@.web_project_path, seq!["install"@]),
    {
        exec::Config {
            work_dir: self.config.web_project_path.clone(),
            cmd: "npm".to_owned(),
            args: exec::to_args(&["install"]),
        }
    }

    /// The steps of a development build of the web assets.
    pub fn build_dev(&self) -> (r: Vec<BuildStep>)
        ensures
            r.deep_view() =~~= web_plan(
                WebBuilderView { env: Env::Dev, web_project_path: self@.web_project_path },
            ),
    {
        let mut steps: Vec<BuildStep> = Vec::new();
        steps.push(BuildStep::Exec { config: self.npm_install() });
        steps.push(
            BuildStep::Exec {
                config: exec::Config {
                    work_dir: self.config.web_project_path.clone(),
                    cmd: "npm".to_owned(),
                    args: exec::to_args(&["run", "build-dev"]),
                },
            },
        );
        proof {
            assert(steps.deep_view()[1]->Exec_config.args =~= seq!["run"@, "build-dev"@]);
        }
        steps
    }

    /// The steps of a release build of the web assets.
    pub fn build_release(&self) -> (r: Vec<BuildStep>)
        ensures
            r.deep_view() =~~= web_plan(
                WebBuilderView { env: Env::Release, web_project_path: self@.web_project_path },
            ),
    {
        let mut steps: Vec<BuildStep> = Vec::new();
        steps.push(BuildStep::Exec { config: self.npm_install() });
        steps.push(
            BuildStep::Exec {
                config: exec::Config {
                    work_dir: self.config.web_project_path.clone(),
                    cmd: "npm".to_owned(),
                    args: exec::to_args(&["run", "build-release"]),
                },
            },
        );
        proof {
            assert(steps.deep_view()[1]->Exec_config.args =~= seq!["run"@, "build-release"@]);
        }
        steps
    }

    /// The steps of a build for the configured environment.
    pub fn plan(&self) -> (r: Vec<BuildStep>)
        ensures
            r.deep_view() =~~= web_plan(self@),
    {
        match self.config.env {
            Env::Dev => self.build_dev(),
            Env::Release => self.build_release(),
        }
    }
}

} // verus!
