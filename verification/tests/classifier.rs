use elmio_cli::backlog_builder::{BacklogBuilder, ChangeType, Config as SchedulerConfig};
use elmio_cli::runner::Env;
use elmio_cli::rust_builder;
use elmio_cli::watch::{
    classify_file, extension, filepath_from_event, is_ignored, is_ignored_by_component,
    is_ignored_by_git, on_event, Config, CreateKind, DataChange, Error, Event, EventKind,
    ModifyKind,
};
use elmio_cli::web_builder;

fn classifier_config(gitignore: Option<String>) -> Config {
    classifier_config_at("/proj", gitignore)
}

fn classifier_config_at(root: &str, gitignore: Option<String>) -> Config {
    let rust = rust_builder::RustBuilder::new(rust_builder::Config {
        env: Env::Dev,
        project_name: String::from("app"),
        frontend_dist_path: String::from("/proj/dist"),
        backend_dist_path: String::from("/proj/app_cloudflare/dist_backend"),
        web_project_path: String::from("/proj/app_web"),
        wasm_project_path: String::from("/proj/app_wasm"),
        cloudflare_project_path: String::from("/proj/app_cloudflare"),
    });
    let web = web_builder::WebBuilder::new(web_builder::Config {
        env: Env::Dev,
        web_project_path: String::from("/proj/app_web"),
    });
    let builder = BacklogBuilder::new(SchedulerConfig {
        rust_builder: rust,
        web_builder: web,
        post_build_runner: None,
    });
    Config::new(root, gitignore, builder)
}

#[test]
fn denylisted_components_are_ignored() {
    assert!(is_ignored_by_component("web/node_modules/lib/index.ts"));
    assert!(is_ignored_by_component("target/debug/foo.rs"));
    assert!(is_ignored_by_component("dist/app.css"));
    assert!(is_ignored_by_component("app_cloudflare/dist_backend/app.rs"));
    assert!(is_ignored_by_component("app_web/wasm/app.ts"));
    assert!(is_ignored_by_component("app_web/wasm_backend/app.ts"));
    assert!(is_ignored_by_component(".git/config.rs"));
    assert!(is_ignored_by_component("a/.hidden/b.css"));
    assert!(!is_ignored_by_component("app_core/src/page.rs"));
    assert!(!is_ignored_by_component("app_web/src/main.ts"));
}

#[test]
fn classify_by_extension() {
    let config = classifier_config(None);
    assert!(matches!(classify_file(&config, "app_core/src/page.rs"), Ok(ChangeType::Rust)));
    assert!(matches!(classify_file(&config, "app_web/src/main.ts"), Ok(ChangeType::TypeScript)));
    assert!(matches!(classify_file(&config, "app_web/css/app.css"), Ok(ChangeType::Css)));
    assert!(matches!(classify_file(&config, "README.md"), Err(Error::IgnoredFileType(_))));
    assert!(matches!(classify_file(&config, "Makefile"), Err(Error::IgnoredFileType(_))));
}

#[test]
fn scenario_output_dir_change_discarded() {
    // A change under `target` is discarded whatever its extension.
    let config = classifier_config(None);
    assert!(matches!(classify_file(&config, "target/debug/foo"), Err(Error::IgnoredFileType(_))));
    assert!(matches!(
        classify_file(&config, "target/debug/foo.rs"),
        Err(Error::IgnoredFileType(_))
    ));
}

#[test]
fn gitignore_patterns_apply() {
    let config = classifier_config(Some(String::from("generated.css\n")));
    assert!(is_ignored_by_git(&config, "generated.css"));
    assert!(!is_ignored_by_git(&config, "style.css"));
    assert!(is_ignored(&config, "generated.css"));
    assert!(matches!(classify_file(&config, "generated.css"), Err(Error::IgnoredFileType(_))));
    assert!(matches!(classify_file(&config, "style.css"), Ok(ChangeType::Css)));
}

#[test]
fn gitignore_engine_faults_are_contained() {
    // Blank and whitespace-only lines, a bare negation, and a line with an
    // unclosed character class would fault the pattern engine; they are
    // dropped before the engine sees them, and the remaining patterns still
    // apply.
    let config = classifier_config(Some(String::from("\n   \n!\nbroken[\ngenerated.css\n")));
    assert!(is_ignored_by_git(&config, "generated.css"));
    assert!(!is_ignored_by_git(&config, "kept.css"));
}

#[test]
fn gitignore_unsafe_root_disables_patterns() {
    // A watched root the pattern engine cannot take disables pattern
    // matching instead of faulting; the fixed denylist still applies.
    let config = classifier_config_at("/pr[oj", Some(String::from("generated.css\n")));
    assert!(!is_ignored_by_git(&config, "generated.css"));
    assert!(is_ignored(&config, "target/generated.css"));
}

#[test]
fn no_gitignore_means_denylist_only() {
    let config = classifier_config(None);
    assert!(!is_ignored_by_git(&config, "anything.css"));
    assert!(is_ignored(&config, "dist/anything.css"));
}

#[test]
fn extension_of_path() {
    assert_eq!(extension("a/b.tar.gz"), "gz");
    assert_eq!(extension("a/b.rs"), "rs");
    assert_eq!(extension(".gitignore"), "");
    assert_eq!(extension("a/.gitignore"), "");
    assert_eq!(extension("noext"), "");
    assert_eq!(extension("dir.d/noext"), "");
}

#[test]
fn filepath_for_qualifying_events() {
    let event = Event {
        kind: EventKind::Create(CreateKind::File),
        paths: vec![String::from("/proj/a.rs")],
    };
    assert!(matches!(filepath_from_event(&event), Ok(p) if p == "/proj/a.rs"));

    let modify = Event {
        kind: EventKind::Modify(ModifyKind::Data(DataChange::Content)),
        paths: vec![String::from("/proj/b.ts")],
    };
    assert!(matches!(filepath_from_event(&modify), Ok(p) if p == "/proj/b.ts"));

    let rename = Event {
        kind: EventKind::Modify(ModifyKind::Name),
        paths: vec![String::from("/proj/c.css")],
    };
    assert!(matches!(filepath_from_event(&rename), Ok(p) if p == "/proj/c.css"));

    let remove = Event { kind: EventKind::Remove, paths: vec![String::from("/proj/d.rs")] };
    assert!(matches!(filepath_from_event(&remove), Ok(p) if p == "/proj/d.rs"));
}

#[test]
fn filepath_rejects_other_events() {
    let dir_create = Event {
        kind: EventKind::Create(CreateKind::Other),
        paths: vec![String::from("/proj/newdir")],
    };
    assert!(matches!(filepath_from_event(&dir_create), Err(Error::IgnoredEvent(_))));

    let metadata = Event {
        kind: EventKind::Modify(ModifyKind::Other),
        paths: vec![String::from("/proj/a.rs")],
    };
    assert!(matches!(filepath_from_event(&metadata), Err(Error::IgnoredEvent(_))));

    let no_paths = Event { kind: EventKind::Remove, paths: vec![] };
    assert!(matches!(filepath_from_event(&no_paths), Err(Error::EventFilePath(_))));
}

#[test]
fn on_event_classifies_and_enqueues() {
    let mut config = classifier_config(None);
    let event = Event {
        kind: EventKind::Create(CreateKind::File),
        paths: vec![String::from("/proj/app_core/src/page.rs")],
    };
    let outcome = on_event(&mut config, &event);
    assert!(matches!(outcome, Ok((ChangeType::Rust, true))));
    assert!(config.builder.is_running());

    // A second qualifying event while the worker is pending: recorded only.
    let second = Event {
        kind: EventKind::Modify(ModifyKind::Data(DataChange::Content)),
        paths: vec![String::from("/proj/app_web/src/main.ts")],
    };
    assert!(matches!(on_event(&mut config, &second), Ok((ChangeType::TypeScript, false))));

    let snapshot = config.builder.next_cycle().expect("one cycle");
    assert!(snapshot.contains(ChangeType::Rust));
    assert!(snapshot.contains(ChangeType::TypeScript));
}

#[test]
fn on_event_discards_without_state_change() {
    let mut config = classifier_config(None);

    // Outside the watched root.
    let outside = Event {
        kind: EventKind::Create(CreateKind::File),
        paths: vec![String::from("/elsewhere/foo.rs")],
    };
    assert!(matches!(on_event(&mut config, &outside), Err(Error::RelativePath(_))));
    assert!(!config.builder.is_running());

    // Under an excluded directory: discarded, no cycle.
    let excluded = Event {
        kind: EventKind::Modify(ModifyKind::Data(DataChange::Content)),
        paths: vec![String::from("/proj/target/debug/foo")],
    };
    assert!(matches!(on_event(&mut config, &excluded), Err(Error::IgnoredFileType(_))));
    assert!(!config.builder.is_running());
}
