use elmio_cli::cleaner::{Cleaner, Config as CleanerConfig};
use elmio_cli::exec::{cmd_from_str, to_args, Config as ExecConfig, Error as ExecError, Output as ExecOutput};
use elmio_cli::runner::{BuildStep, Env};
use elmio_cli::rust_builder::{patch_backend_wasm_glue, Config as RustConfig, RustBuilder};
use elmio_cli::script_runner::{Event as HookEvent, ScriptRunner};
use elmio_cli::web_builder::{Config as WebConfig, WebBuilder};

fn rust_config(env: Env) -> RustConfig {
    RustConfig {
        env,
        project_name: String::from("app"),
        frontend_dist_path: String::from("/proj/dist"),
        backend_dist_path: String::from("/proj/app_cloudflare/dist_backend"),
        web_project_path: String::from("/proj/app_web"),
        wasm_project_path: String::from("/proj/app_wasm"),
        cloudflare_project_path: String::from("/proj/app_cloudflare"),
    }
}

fn exec_step(step: &BuildStep) -> &ExecConfig {
    match step {
        BuildStep::Exec { config } => config,
        _ => panic!("expected an Exec step"),
    }
}

#[test]
fn rust_dev_plan_steps() {
    let builder = RustBuilder::new(rust_config(Env::Dev));
    let plan = builder.build_dev();
    assert_eq!(plan.len(), 10);

    assert!(matches!(&plan[0], BuildStep::CreateDir { path } if path == "/proj/dist"));
    assert!(matches!(
        &plan[1],
        BuildStep::CreateDir { path } if path == "/proj/app_cloudflare/dist_backend"
    ));
    assert!(matches!(&plan[2], BuildStep::CreateDir { path } if path == "/proj/app_web/wasm"));
    assert!(matches!(
        &plan[3],
        BuildStep::CreateDir { path } if path == "/proj/app_web/wasm_backend"
    ));

    let cargo = exec_step(&plan[4]);
    assert_eq!(cargo.work_dir, ".");
    assert_eq!(cargo.cmd, "cargo");
    assert_eq!(cargo.args, vec!["build", "--color", "always"]);

    let pack_web = exec_step(&plan[5]);
    assert_eq!(pack_web.work_dir, "/proj/app_wasm");
    assert_eq!(pack_web.cmd, "wasm-pack");
    assert_eq!(
        pack_web.args,
        vec![
            "build",
            "--dev",
            "--no-opt",
            "--target",
            "web",
            "--out-name",
            "app",
            "--out-dir",
            "/proj/app_web/wasm"
        ]
    );

    assert!(matches!(
        &plan[6],
        BuildStep::CopyDir { from, to } if from == "/proj/app_web/wasm" && to == "/proj/dist"
    ));

    let pack_node = exec_step(&plan[7]);
    assert_eq!(
        pack_node.args,
        vec![
            "build",
            "--dev",
            "--no-opt",
            "--target",
            "nodejs",
            "--out-name",
            "app",
            "--out-dir",
            "/proj/app_web/wasm_backend"
        ]
    );

    assert!(matches!(
        &plan[8],
        BuildStep::PatchGlueFile { path, project_name }
            if path == "/proj/app_web/wasm_backend/app.js" && project_name == "app"
    ));
    assert!(matches!(
        &plan[9],
        BuildStep::CopyDir { from, to }
            if from == "/proj/app_web/wasm_backend" && to == "/proj/app_cloudflare/dist_backend"
    ));
}

#[test]
fn rust_release_plan_uses_release_flags() {
    let builder = RustBuilder::new(rust_config(Env::Release));
    let plan = builder.plan();
    let cargo = exec_step(&plan[4]);
    assert_eq!(cargo.args, vec!["build", "--release", "--color", "always"]);
    let pack = exec_step(&plan[5]);
    assert_eq!(&pack.args[0..2], &["build", "--release"]);
}

#[test]
fn glue_patch_rewrites_node_prelude() {
    let content = "const { TextDecoder, TextEncoder } = require(`util`);\n\
                   let a = 1;\n\
                   const path = require('path').join(__dirname, 'app_bg.wasm');\n\
                   const bytes = require('fs').readFileSync(path);\n\
                   const wasmModule = new WebAssembly.Module(bytes);\n";
    let patched = patch_backend_wasm_glue(content, "app");
    assert_eq!(patched, "\nlet a = 1;\nimport wasmModule from \"./app_bg.wasm\";\n\n\n");
}

#[test]
fn glue_patch_leaves_other_text() {
    assert_eq!(patch_backend_wasm_glue("nothing to do", "app"), "nothing to do");
}

#[test]
fn web_plans() {
    let web = WebBuilder::new(WebConfig { env: Env::Dev, web_project_path: String::from("/w") });
    let plan = web.plan();
    assert_eq!(plan.len(), 2);
    let install = exec_step(&plan[0]);
    assert_eq!(install.work_dir, "/w");
    assert_eq!(install.cmd, "npm");
    assert_eq!(install.args, vec!["install"]);
    let build = exec_step(&plan[1]);
    assert_eq!(build.args, vec!["run", "build-dev"]);

    let release =
        WebBuilder::new(WebConfig { env: Env::Release, web_project_path: String::from("/w") });
    let plan = release.build_release();
    assert_eq!(exec_step(&plan[1]).args, vec!["run", "build-release"]);
}

#[test]
fn cleaner_plan_recreates_output_dirs() {
    let cleaner = Cleaner::new(CleanerConfig {
        dist_path: String::from("/proj/dist"),
        web_project_path: String::from("/proj/app_web"),
    });
    let plan = cleaner.plan();
    assert_eq!(plan.len(), 4);
    assert!(matches!(&plan[0], BuildStep::RemoveDir { path } if path == "/proj/dist"));
    assert!(matches!(&plan[1], BuildStep::CreateDir { path } if path == "/proj/dist"));
    assert!(matches!(&plan[2], BuildStep::RemoveDir { path } if path == "/proj/app_web/wasm"));
    assert!(matches!(&plan[3], BuildStep::CreateDir { path } if path == "/proj/app_web/wasm"));
}

#[test]
fn hook_command_carries_env_and_signal() {
    let runner = ScriptRunner::new(String::from("/proj/post_build.sh"), &Env::Dev);
    let cmd = runner.run(HookEvent::BeforeAssetHash);
    assert_eq!(cmd.work_dir, ".");
    assert_eq!(cmd.cmd, "/proj/post_build.sh");
    assert_eq!(cmd.args, vec!["dev", "before_asset_hash"]);

    let release = ScriptRunner::new(String::from("hook"), &Env::Release);
    let cmd = release.run(HookEvent::AfterAssetHash);
    assert_eq!(cmd.args, vec!["release", "after_asset_hash"]);
}

#[test]
fn command_lines_parse_on_whitespace() {
    let (cmd, args) = cmd_from_str("npm run build").expect("three words");
    assert_eq!(cmd, "npm");
    assert_eq!(args, vec!["run", "build"]);

    let (cmd, args) = cmd_from_str("  lone ").expect("one word");
    assert_eq!(cmd, "lone");
    assert!(args.is_empty());

    assert!(cmd_from_str("").is_none());
    assert!(cmd_from_str("   \t ").is_none());
}

#[test]
fn to_args_copies_literals() {
    let args = to_args(&["a", "b"]);
    assert_eq!(args, vec!["a", "b"]);
}

#[test]
fn command_output_classifies() {
    let ok = ExecOutput {
        success: true,
        exit_status: Some(0),
        stdout: Vec::from("fine\n".as_bytes()),
        stderr: Vec::new(),
    };
    assert!(matches!(ok.read_stdout(), Ok(s) if s == "fine\n"));

    let failed = ExecOutput {
        success: false,
        exit_status: Some(2),
        stdout: Vec::from("out".as_bytes()),
        stderr: Vec::from("broken".as_bytes()),
    };
    assert!(matches!(
        failed.read_stdout(),
        Err(ExecError::ExitFailure { stdout, stderr, exit_status: Some(2) })
            if stdout == "out" && stderr == "broken"
    ));

    let garbled = ExecOutput {
        success: true,
        exit_status: Some(0),
        stdout: vec![0xff, 0xfe],
        stderr: Vec::new(),
    };
    assert!(matches!(garbled.read_stdout(), Err(ExecError::FailedToReadStdout(_))));
}
