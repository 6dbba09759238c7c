//! The native-stage build: cargo and wasm-pack commands, the copies of the
//! wasm bundles into the dist trees, and the backend glue patch.

use vstd::prelude::*;

use crate::exec;
use crate::project_info::ProjectInfo;
use crate::runner::{BuildStep, Env, StepView};
use crate::text;
use crate::text::replace_seq;

verus! {

/// What the native stage works on.
#[derive(Debug, Clone)]
pub struct Config {
    pub env: Env,
    pub project_name: String,
    pub frontend_dist_path: String,
    pub backend_dist_path: String,
    pub web_project_path: String,
    pub wasm_project_path: String,
    pub cloudflare_project_path: String,
}

impl Config {
    /// Takes what the native stage needs from the discovered layout.
    pub fn from_project_info(env: &Env, project_info: &ProjectInfo) -> (r: Self)
        ensures
            r.env == *env,
            r.project_name@ == project_info@.project_name,
            r.frontend_dist_path@ == project_info@.dist_path,
            r.backend_dist_path@ == project_info@.backend_dist_path,
            r.web_project_path@ == project_info@.web_project_path,
            r.wasm_project_path@ == project_info@.wasm_project_path,
            r.cloudflare_project_path@ == project_info@.cloudflare_project_path,
    {
        Self {
            env: *env,
            project_name: project_info.project_name.clone(),
            frontend_dist_path: project_info.dist_path.clone(),
            backend_dist_path: project_info.backend_dist_path.clone(),
            web_project_path: project_info.web_project_path.clone(),
            wasm_project_path: project_info.wasm_project_path.clone(),
            cloudflare_project_path: project_info.cloudflare_project_path.clone(),
        }
    }

    /// The directory the frontend wasm bundle is packed into.
    pub fn web_project_wasm_frontend_path(&self) -> (r: String)
        ensures
            r@ == self.web_project_path@ + "/"@ + "wasm"@,
    {
        text::path_join(self.web_project_path.as_str(), "wasm")
    }

    /// The directory the backend wasm bundle is packed into.
    pub fn web_project_wasm_backend_path(&self) -> (r: String)
        ensures
            r@ == self.web_project_path@ + "/"@ + "wasm_backend"@,
    {
        text::path_join(self.web_project_path.as_str(), "wasm_backend")
    }
}

/// Why a native-stage step failed. The embedding binary constructs these from
/// the outcome of the filesystem operations and command invocations.
#[derive(Debug)]
pub enum Error {
    CreateDistDir(String),
    CreateWebWasmDir(String),
    CargoBuild(crate::exec::Error),
    WasmPack(crate::exec::Error),
    CopyWasmToDist(String),
    ReadBackendWasmGlue(String),
    WriteBackendWasmGlue(String),
}

/// Builds the native stage.
#[derive(Debug, Clone)]
pub struct RustBuilder {
    config: Config,
}

/// The mathematical content of a native-stage builder.
#[verifier::ext_equal]
pub ghost struct RustBuilderView {
    pub env: Env,
    pub project_name: Seq<char>,
    pub frontend_dist_path: Seq<char>,
    pub backend_dist_path: Seq<char>,
    pub web_project_path: Seq<char>,
    pub wasm_project_path: Seq<char>,
    pub cloudflare_project_path: Seq<char>,
}

impl View for RustBuilder {
    type V = RustBuilderView;

    closed spec fn view(&self) -> RustBuilderView {
        RustBuilderView {
            env: self.config.env,
            project_name: self.config.project_name@,
            frontend_dist_path: self.config.frontend_dist_path@,
            backend_dist_path: self.config.backend_dist_path@,
            web_project_path: self.config.web_project_path@,
            wasm_project_path: self.config.wasm_project_path@,
            cloudflare_project_path: self.config.cloudflare_project_path@,
        }
    }
}

/// The cargo invocation that builds the workspace.
pub open spec fn cargo_command(release: bool) -> exec::ConfigView {
    exec::ConfigView {
        work_dir: "."@,
        cmd: "cargo"@,
        args: if release {
            seq!["build"@, "--release"@, "--color"@, "always"@]
        } else {
            seq!["build"@, "--color"@, "always"@]
        },
    }
}

/// The wasm-pack invocation that packs the wasm project for one target into
/// an output directory.
pub open spec fn wasm_pack_command(
    wasm_project_path: Seq<char>,
    release: bool,
    target: Seq<char>,
    out_name: Seq<char>,
    out_dir: Seq<char>,
) -> exec::ConfigView {
    exec::ConfigView {
        work_dir: wasm_project_path,
        cmd: "wasm-pack"@,
        args: (if release {
            seq!["build"@, "--release"@]
        } else {
            seq!["build"@, "--dev"@, "--no-opt"@]
        }) + seq!["--target"@, target, "--out-name"@, out_name, "--out-dir"@, out_dir],
    }
}

/// The glue file the backend bundle is loaded through.
pub open spec fn glue_file_path(c: RustBuilderView) -> Seq<char> {
    (c.web_project_path + "/"@ + "wasm_backend"@) + "/"@ + (c.project_name + ".js"@)
}

/// The steps of a native-stage build: the dist and wasm output directories
/// are created, the workspace is compiled, the wasm project is packed for the
/// web and for node, each bundle is copied into its dist tree, and the
/// backend glue file is patched in between.
pub open spec fn rust_plan(c: RustBuilderView, release: bool) -> Seq<StepView> {
    let frontend_wasm = c.web_project_path + "/"@ + "wasm"@;
    let backend_wasm = c.web_project_path + "/"@ + "wasm_backend"@;
    seq![
        StepView::CreateDir { path: c.frontend_dist_path },
        StepView::CreateDir { path: c.backend_dist_path },
        StepView::CreateDir { path: frontend_wasm },
        StepView::CreateDir { path: backend_wasm },
        StepView::Exec { config: cargo_command(release) },
        StepView::Exec {
            config: wasm_pack_command(
                c.wasm_project_path,
                release,
                "web"@,
                c.project_name,
                frontend_wasm,
            )
        },
        StepView::CopyDir { from: frontend_wasm, to: c.frontend_dist_path },
        StepView::Exec {
            config: wasm_pack_command(
                c.wasm_project_path,
                release,
                "nodejs"@,
                c.project_name,
                backend_wasm,
            )
        },
        StepView::PatchGlueFile { path: glue_file_path(c), project_name: c.project_name },
        StepView::CopyDir { from: backend_wasm, to: c.backend_dist_path },
    ]
}

/// The content of a backend glue file after patching: the node-specific
/// prelude lines are cut out and the filesystem load of the wasm module is
/// turned into a bundler import.
pub open spec fn patched_glue(content: Seq<char>, name: Seq<char>) -> Seq<char> {
    let s1 = replace_seq(
        content,
        "const { TextDecoder, TextEncoder } = require(`util`);"@,
        ""@,
    );
    let s2 = replace_seq(s1, "const { TextEncoder, TextDecoder } = require(`util`);"@, ""@);
    let s3 = replace_seq(s2, "const bytes = require('fs').readFileSync(path);"@, ""@);
    let s4 = replace_seq(s3, "const wasmModule = new WebAssembly.Module(bytes);"@, ""@);
    replace_seq(
        s4,
        "const path = require('path').join(__dirname, '"@ + name + "_bg.wasm');"@,
        "import wasmModule from \"./"@ + name + "_bg.wasm\";"@,
    )
}

/// Rewrites the content of the backend glue file that wasm-pack emitted for
/// node so that a bundler can consume it.
pub fn patch_backend_wasm_glue(content: &str, project_name: &str) -> (r: String)
    ensures
        r@ == patched_glue(content@, project_name@),
{
    let s1 = text::replace(content, "const { TextDecoder, TextEncoder } = require(`util`);", "");
    let s2 = text::replace(
        s1.as_str(),
        "const { TextEncoder, TextDecoder } = require(`util`);",
        "",
    );
    let s3 = text::replace(s2.as_str(), "const bytes = require('fs').readFileSync(path);", "");
    let s4 = text::replace(s3.as_str(), "const wasmModule = new WebAssembly.Module(bytes);", "");
    let mut from = "const path = require('path').join(__dirname, '".to_owned();
    from.append(project_name);
    from.append("_bg.wasm');");
    let mut to = "import wasmModule from \"./".to_owned();
    to.append(project_name);
    to.append("_bg.wasm\";");
    text::replace(s4.as_str(), from.as_str(), to.as_str())
}

impl RustBuilder {
    /// Configures the native stage.
    pub fn new(config: Config) -> (r: Self)
        ensures
            r@ == (RustBuilderView {
                env: config.env,
                project_name: config.project_name@,
                frontend_dist_path: config.frontend_dist_path@,
                backend_dist_path: config.backend_dist_path@,
                web_project_path: config.web_project_path@,
                wasm_project_path: config.wasm_project_path@,
                cloudflare_project_path: config.cloudflare_project_path@,
            }),
    {
        Self { config }
    }

    /// The steps of a development build of the native stage.
    pub fn build_dev(&self) -> (r: Vec<BuildStep>)
        ensures
            r.deep_view() =~~= rust_plan(self@, false),
    {
        self.plan_for(false)
    }

    /// The steps of a release build of the native stage.
    pub fn build_release(&self) -> (r: Vec<BuildStep>)
        ensures
            r.deep_view() =~~= rust_plan(self@, true),
    {
        self.plan_for(true)
    }

    /// The steps of a build for the configured environment.
    pub fn plan(&self) -> (r: Vec<BuildStep>)
        ensures
            r.deep_view() =~~= rust_plan(self@, self@.env is Release),
    {
        match self.config.env {
            Env::Dev => self.build_dev(),
            Env::Release => self.build_release(),
        }
    }

    fn plan_for(&self, release: bool) -> (r: Vec<BuildStep>)
        ensures
            r.deep_view() =~~= rust_plan(self@, release),
    {
        let frontend_wasm = self.config.web_project_wasm_frontend_path();
        let backend_wasm = self.config.web_project_wasm_backend_path();
        let mut steps: Vec<BuildStep> = Vec::new();
        steps.push(BuildStep::CreateDir { path: self.config.frontend_dist_path.clone() });
        steps.push(BuildStep::CreateDir { path: self.config.backend_dist_path.clone() });
        steps.push(BuildStep::CreateDir { path: frontend_wasm.clone() });
        steps.push(BuildStep::CreateDir { path: backend_wasm.clone() });
        let cargo_args = if release {
            exec::to_args(&["build", "--release", "--color", "always"])
        } else {
            exec::to_args(&["build", "--color", "always"])
        };
        steps.push(
            BuildStep::Exec {
                config: exec::Config {
                    work_dir: ".".to_owned(),
                    cmd: "cargo".to_owned(),
                    args: cargo_args,
                },
            },
        );
        proof {
            assert(steps.deep_view()[4]->Exec_config =~~= cargo_command(release));
        }
        steps.push(
            BuildStep::Exec {
                config: self.wasm_pack_config(release, "web", frontend_wasm.as_str()),
            },
        );
        steps.push(
            BuildStep::CopyDir {
                from: frontend_wasm.clone(),
                to: self.config.frontend_dist_path.clone(),
            },
        );
        steps.push(
            BuildStep::Exec {
                config: self.wasm_pack_config(release, "nodejs", backend_wasm.as_str()),
            },
        );
        let mut glue_name = self.config.project_name.clone();
        glue_name.append(".js");
        let glue_path = text::path_join(backend_wasm.as_str(), glue_name.as_str());
        steps.push(
            BuildStep::PatchGlueFile {
                path: glue_path,
                project_name: self.config.project_name.clone(),
            },
        );
        steps.push(
            BuildStep::CopyDir {
                from: backend_wasm.clone(),
                to: self.config.backend_dist_path.clone(),
            },
        );
        steps
    }

    fn wasm_pack_config(&self, release: bool, target: &str, out_dir: &str) -> (r: exec::Config)
        ensures
            r@ =~~= wasm_pack_command(
                self@.wasm_project_path,
                release,
                target@,
                self@.project_name,
                out_dir@,
            ),
    {
        let mut args: Vec<String> = if release {
            exec::to_args(&["build", "--release"])
        } else {
            exec::to_args(&["build", "--dev", "--no-opt"])
        };
        let ghost d0 = args.deep_view();
        args.push("--target".to_owned());
        proof {
            assert(args.deep_view() =~= d0.push("--target"@));
        }
        let ghost d1 = args.deep_view();
        args.push(target.to_owned());
        proof {
            assert(args.deep_view() =~= d1.push(target@));
        }
        let ghost d2 = args.deep_view();
        args.push("--out-name".to_owned());
        proof {
            assert(args.deep_view() =~= d2.push("--out-name"@));
        }
        let ghost d3 = args.deep_view();
        args.push(self.config.project_name.clone());
        proof {
            assert(args.deep_view() =~= d3.push(self@.project_name));
        }
        let ghost d4 = args.deep_view();
        args.push("--out-dir".to_owned());
        proof {
            assert(args.deep_view() =~= d4.push("--out-dir"@));
        }
        let ghost d5 = args.deep_view();
        args.push(out_dir.to_owned());
        proof {
            assert(args.deep_view() =~= d5.push(out_dir@));
        }
        let r = exec::Config {
            work_dir: self.config.wasm_project_path.clone(),
            cmd: "wasm-pack".to_owned(),
            args,
        };
        proof {
            assert(r@.args =~= wasm_pack_command(
                self@.wasm_project_path,
                release,
                target@,
                self@.project_name,
                out_dir@,
            ).args);
        }
        r
    }
}

} // verus!
