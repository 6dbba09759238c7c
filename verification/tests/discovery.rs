use elmio_cli::project_info::{CargoWorkspaceConfig, Error, ProjectInfo};

const MANIFEST: &str = "[workspace]\nmembers = [\"app_core\", \"app_web\", \"app_wasm\"]\n";

#[test]
fn workspace_members_parse() {
    let config = CargoWorkspaceConfig::from_toml_str(MANIFEST).expect("manifest parses");
    assert_eq!(config.workspace.members, vec!["app_core", "app_web", "app_wasm"]);
}

#[test]
fn project_name_from_core_member() {
    let config = CargoWorkspaceConfig::from_toml_str(MANIFEST).expect("manifest parses");
    assert_eq!(config.project_name(), Some(String::from("app")));

    let other = CargoWorkspaceConfig::from_toml_str(
        "[workspace]\nmembers = [\"lib_web\", \"lib_wasm\"]\n",
    )
    .expect("manifest parses");
    assert_eq!(other.project_name(), None);
}

#[test]
fn discovery_builds_layout() {
    let info = ProjectInfo::from_dir("/proj", MANIFEST, true, true).expect("layout");
    assert_eq!(info.project_name, "app");
    assert_eq!(info.dist_path, "/proj/dist");
    assert_eq!(info.web_project_path, "/proj/app_web");
    assert_eq!(info.core_project_path, "/proj/app_core");
    assert_eq!(info.wasm_project_path, "/proj/app_wasm");
    assert_eq!(info.cloudflare_project_path, "/proj/app_cloudflare");
    assert_eq!(info.backend_dist_path, "/proj/app_cloudflare/dist_backend");
    assert_eq!(info.core_project_path_src(), "/proj/app_core/src");
    assert_eq!(info.web_project_path_src(), "/proj/app_web/src");
    assert_eq!(info.web_project_path_css(), "/proj/app_web/css");
}

#[test]
fn discovery_requires_absolute_dir() {
    let outcome = ProjectInfo::from_dir("relative", MANIFEST, true, true);
    assert!(matches!(outcome, Err(Error::CurrentDirNotAbsolute(p)) if p == "relative"));
}

#[test]
fn discovery_rejects_bad_manifest() {
    assert!(matches!(
        ProjectInfo::from_dir("/proj", "not toml [", true, true),
        Err(Error::ParseCargoWorkspace)
    ));
    assert!(matches!(
        ProjectInfo::from_dir("/proj", "[package]\nname = \"x\"\n", true, true),
        Err(Error::ParseCargoWorkspace)
    ));
    assert!(matches!(
        ProjectInfo::from_dir("/proj", "[workspace]\nmembers = [\"app_web\"]\n", true, true),
        Err(Error::NoProjectName)
    ));
}

#[test]
fn discovery_requires_sibling_projects() {
    assert!(matches!(
        ProjectInfo::from_dir("/proj", MANIFEST, false, true),
        Err(Error::WebProjectNotFound(p)) if p == "/proj/app_web"
    ));
    assert!(matches!(
        ProjectInfo::from_dir("/proj", MANIFEST, true, false),
        Err(Error::WasmProjectNotFound(p)) if p == "/proj/app_wasm"
    ));
}
