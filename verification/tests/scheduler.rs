use std::cell::RefCell;

use elmio_cli::backlog_builder::{BacklogBuilder, Backlog, BuildError, BuildType, ChangeType, Config, State};
use elmio_cli::runner::{Env, Runner};
use elmio_cli::rust_builder;
use elmio_cli::script_runner;
use elmio_cli::web_builder;

fn sample_rust_builder() -> rust_builder::RustBuilder {
    rust_builder::RustBuilder::new(rust_builder::Config {
        env: Env::Dev,
        project_name: String::from("app"),
        frontend_dist_path: String::from("/proj/dist"),
        backend_dist_path: String::from("/proj/app_cloudflare/dist_backend"),
        web_project_path: String::from("/proj/app_web"),
        wasm_project_path: String::from("/proj/app_wasm"),
        cloudflare_project_path: String::from("/proj/app_cloudflare"),
    })
}

fn sample_web_builder() -> web_builder::WebBuilder {
    web_builder::WebBuilder::new(web_builder::Config {
        env: Env::Dev,
        web_project_path: String::from("/proj/app_web"),
    })
}

fn sample_builder() -> BacklogBuilder {
    BacklogBuilder::new(Config {
        rust_builder: sample_rust_builder(),
        web_builder: sample_web_builder(),
        post_build_runner: None,
    })
}

struct CountingRust {
    calls: RefCell<u32>,
}

impl Runner<rust_builder::Error> for CountingRust {
    fn run(&self) -> Result<(), rust_builder::Error> {
        *self.calls.borrow_mut() += 1;
        Ok(())
    }
}

struct CountingWeb {
    calls: RefCell<u32>,
    fail: bool,
}

impl Runner<web_builder::Error> for CountingWeb {
    fn run(&self) -> Result<(), web_builder::Error> {
        *self.calls.borrow_mut() += 1;
        if self.fail {
            Err(web_builder::Error::NpmInstall(elmio_cli::exec::Error::FailedToExecute(
                String::from("simulated failure"),
            )))
        } else {
            Ok(())
        }
    }
}

struct CountingHook {
    calls: RefCell<u32>,
}

impl Runner<script_runner::Error> for CountingHook {
    fn run(&self) -> Result<(), script_runner::Error> {
        *self.calls.borrow_mut() += 1;
        Ok(())
    }
}

#[test]
fn backlog_collapses_duplicates() {
    let mut backlog = Backlog::new();
    assert!(backlog.is_empty());
    backlog.insert(ChangeType::Rust);
    backlog.insert(ChangeType::Rust);
    assert!(backlog.contains(ChangeType::Rust));
    assert!(!backlog.contains(ChangeType::TypeScript));
    assert!(!backlog.is_empty());
}

#[test]
fn state_starts_idle() {
    let _state = State::new();
    let builder = sample_builder();
    assert!(!builder.is_running());
}

#[test]
fn scope_of_web_only_sets() {
    let mut ts = Backlog::new();
    ts.insert(ChangeType::TypeScript);
    assert_eq!(BuildType::from_changes(&ts), BuildType::OnlyWeb);

    let mut css = Backlog::new();
    css.insert(ChangeType::Css);
    assert_eq!(BuildType::from_changes(&css), BuildType::OnlyWeb);
}

#[test]
fn scope_defaults_to_full() {
    let mut rust = Backlog::new();
    rust.insert(ChangeType::Rust);
    assert_eq!(BuildType::from_changes(&rust), BuildType::All);

    let mut mixed = Backlog::new();
    mixed.insert(ChangeType::TypeScript);
    mixed.insert(ChangeType::Css);
    assert_eq!(BuildType::from_changes(&mixed), BuildType::All);

    let mut with_rust = Backlog::new();
    with_rust.insert(ChangeType::Rust);
    with_rust.insert(ChangeType::TypeScript);
    assert_eq!(BuildType::from_changes(&with_rust), BuildType::All);
}

#[test]
fn coalescing_before_first_cycle() {
    // Enqueuing NativeSource, NativeSource, WebSource before any cycle
    // starts yields one cycle whose snapshot holds both kinds.
    let mut builder = sample_builder();
    assert!(builder.run(ChangeType::Rust));
    assert!(!builder.run(ChangeType::Rust));
    assert!(!builder.run(ChangeType::TypeScript));

    let snapshot = builder.next_cycle().expect("one cycle expected");
    assert!(snapshot.contains(ChangeType::Rust));
    assert!(snapshot.contains(ChangeType::TypeScript));
    assert!(!snapshot.contains(ChangeType::Css));

    assert!(builder.next_cycle().is_none());
    assert!(!builder.is_running());
}

#[test]
fn scenario_native_then_web_change() {
    // A native-source change followed by a web-source change with no cycle
    // running: one full cycle.
    let mut builder = sample_builder();
    assert!(builder.run(ChangeType::Rust));
    assert!(!builder.run(ChangeType::TypeScript));

    let snapshot = builder.next_cycle().expect("one cycle expected");
    assert_eq!(BuildType::from_changes(&snapshot), BuildType::All);
    assert!(snapshot.contains(ChangeType::Rust));
    assert!(snapshot.contains(ChangeType::TypeScript));
    assert!(builder.next_cycle().is_none());
}

#[test]
fn scenario_change_during_cycle() {
    // A stylesheet change lands while a cycle is mid-flight: it is recorded,
    // and on completion a second, web-only cycle runs.
    let mut builder = sample_builder();
    assert!(builder.run(ChangeType::Rust));
    let first = builder.next_cycle().expect("first cycle");
    assert_eq!(BuildType::from_changes(&first), BuildType::All);

    // Mid-flight: the scheduler is running, so no new worker is handed off.
    assert!(builder.is_running());
    assert!(!builder.run(ChangeType::Css));

    let second = builder.next_cycle().expect("second cycle");
    assert!(second.contains(ChangeType::Css));
    assert!(!second.contains(ChangeType::Rust));
    assert_eq!(BuildType::from_changes(&second), BuildType::OnlyWeb);

    assert!(builder.next_cycle().is_none());
    assert!(!builder.is_running());
}

#[test]
fn idle_convergence_after_empty_recheck() {
    let mut builder = sample_builder();
    assert!(builder.run(ChangeType::Css));
    assert!(builder.next_cycle().is_some());
    assert!(builder.next_cycle().is_none());
    assert!(!builder.is_running());
    // The next qualifying change hands off to a fresh worker.
    assert!(builder.run(ChangeType::Css));
}

#[test]
fn driver_runs_full_cycle_stages() {
    let mut builder = sample_builder();
    let rust = CountingRust { calls: RefCell::new(0) };
    let web = CountingWeb { calls: RefCell::new(0), fail: false };
    let hook = CountingHook { calls: RefCell::new(0) };

    assert!(builder.run(ChangeType::Rust));
    let failures = builder.run_pending_cycles(&rust, &web, Some(&hook));
    assert_eq!(failures.len(), 0);
    assert_eq!(*rust.calls.borrow(), 1);
    assert_eq!(*web.calls.borrow(), 1);
    assert_eq!(*hook.calls.borrow(), 1);
    assert!(!builder.is_running());
}

#[test]
fn driver_runs_web_only_cycle() {
    let mut builder = sample_builder();
    let rust = CountingRust { calls: RefCell::new(0) };
    let web = CountingWeb { calls: RefCell::new(0), fail: false };

    assert!(builder.run(ChangeType::Css));
    let failures =
        builder.run_pending_cycles::<_, _, CountingHook>(&rust, &web, None);
    assert_eq!(failures.len(), 0);
    assert_eq!(*rust.calls.borrow(), 0);
    assert_eq!(*web.calls.borrow(), 1);
}

#[test]
fn scenario_web_stage_failure() {
    // The web stage fails during a cycle: the failure is reported, the
    // scheduler still re-checks and goes idle, and a later qualifying change
    // triggers normally.
    let mut builder = sample_builder();
    let rust = CountingRust { calls: RefCell::new(0) };
    let web = CountingWeb { calls: RefCell::new(0), fail: true };
    let hook = CountingHook { calls: RefCell::new(0) };

    assert!(builder.run(ChangeType::TypeScript));
    let failures = builder.run_pending_cycles(&rust, &web, Some(&hook));
    assert_eq!(failures.len(), 1);
    assert!(matches!(failures[0], BuildError::WebBuild(_)));
    // The failed pipeline stops before the hook.
    assert_eq!(*hook.calls.borrow(), 0);
    assert!(!builder.is_running());

    // A later change still triggers normally.
    assert!(builder.run(ChangeType::TypeScript));
    let ok_web = CountingWeb { calls: RefCell::new(0), fail: false };
    let failures = builder.run_pending_cycles(&rust, &ok_web, Some(&hook));
    assert_eq!(failures.len(), 0);
    assert_eq!(*ok_web.calls.borrow(), 1);
    assert_eq!(*hook.calls.borrow(), 1);
}

#[test]
fn scope_of_empty_backlog_defaults_to_full() {
    // The resolver is only ever handed non-empty snapshots; ambiguity — and
    // the degenerate empty set — never under-builds.
    let empty = Backlog::new();
    assert_eq!(BuildType::from_changes(&empty), BuildType::All);
}

#[test]
fn hook_failure_is_reported() {
    struct FailingHook;
    impl Runner<script_runner::Error> for FailingHook {
        fn run(&self) -> Result<(), script_runner::Error> {
            Err(script_runner::Error::Exec(elmio_cli::exec::Error::FailedToExecute(
                String::from("missing script"),
            )))
        }
    }
    let mut builder = sample_builder();
    let rust = CountingRust { calls: RefCell::new(0) };
    let web = CountingWeb { calls: RefCell::new(0), fail: false };

    assert!(builder.run(ChangeType::Rust));
    let failures = builder.run_pending_cycles(&rust, &web, Some(&FailingHook));
    assert_eq!(failures.len(), 1);
    assert!(matches!(failures[0], BuildError::PostBuildRunner(_)));
    assert!(!builder.is_running());
}

#[test]
fn rust_failure_stops_pipeline_before_web() {
    struct FailingRust;
    impl Runner<rust_builder::Error> for FailingRust {
        fn run(&self) -> Result<(), rust_builder::Error> {
            Err(rust_builder::Error::CreateDistDir(String::from("denied")))
        }
    }
    let mut builder = sample_builder();
    let web = CountingWeb { calls: RefCell::new(0), fail: false };

    assert!(builder.run(ChangeType::Rust));
    let failures =
        builder.run_pending_cycles::<_, _, CountingHook>(&FailingRust, &web, None);
    assert_eq!(failures.len(), 1);
    assert!(matches!(failures[0], BuildError::RustBuild(_)));
    assert_eq!(*web.calls.borrow(), 0);
    assert!(!builder.is_running());
}
