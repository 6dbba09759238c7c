//! Discovery of the project layout: the project's name from the cargo
//! workspace manifest, and the derived sibling-project and output paths.
//!
//! Paths are plain `/`-separated strings; an absolute path is one that
//! starts with `/`. Reading the manifest file and probing directories for
//! existence is the embedding binary's part: it hands the manifest text and
//! the existence answers in.

use vstd::prelude::*;

use crate::text;
use crate::text::ends_with_seq;

verus! {

/// Why project discovery failed.
#[derive(Debug)]
pub enum Error {
    CurrentDirNotAbsolute(String),
    NoProjectName,
    WebProjectNotFound(String),
    WasmProjectNotFound(String),
    ReadCargoWorkspace(String),
    ParseCargoWorkspace,
}

/// The discovered project layout.
#[derive(Debug, Clone)]
pub struct ProjectInfo {
    pub project_name: String,
    pub dist_path: String,
    pub web_project_path: String,
    pub core_project_path: String,
    pub wasm_project_path: String,
    pub cloudflare_project_path: String,
    pub backend_dist_path: String,
}

/// The mathematical content of a discovered project layout.
#[verifier::ext_equal]
pub ghost struct ProjectInfoView {
    pub project_name: Seq<char>,
    pub dist_path: Seq<char>,
    pub web_project_path: Seq<char>,
    pub core_project_path: Seq<char>,
    pub wasm_project_path: Seq<char>,
    pub cloudflare_project_path: Seq<char>,
    pub backend_dist_path: Seq<char>,
}

impl View for ProjectInfo {
    type V = ProjectInfoView;

    open spec fn view(&self) -> ProjectInfoView {
        ProjectInfoView {
            project_name: self.project_name@,
            dist_path: self.dist_path@,
            web_project_path: self.web_project_path@,
            core_project_path: self.core_project_path@,
            wasm_project_path: self.wasm_project_path@,
            cloudflare_project_path: self.cloudflare_project_path@,
            backend_dist_path: self.backend_dist_path@,
        }
    }
}

/// A path that starts at the filesystem root.
pub open spec fn is_absolute_path(p: Seq<char>) -> bool {
    p.len() > 0 && p[0] == '/'
}

/// The layout that a working directory and a project name determine.
pub open spec fn layout_of(cd: Seq<char>, name: Seq<char>) -> ProjectInfoView {
    ProjectInfoView {
        project_name: name,
        dist_path: cd + "/"@ + "dist"@,
        web_project_path: cd + "/"@ + (name + "_web"@),
        core_project_path: cd + "/"@ + (name + "_core"@),
        wasm_project_path: cd + "/"@ + (name + "_wasm"@),
        cloudflare_project_path: cd + "/"@ + (name + "_cloudflare"@),
        backend_dist_path: (cd + "/"@ + (name + "_cloudflare"@)) + "/"@ + "dist_backend"@,
    }
}

/// What the `workspace.members` array of a cargo manifest holds, or nothing
/// when the text is not a TOML document with such an array of strings.
pub uninterp spec fn toml_workspace_members(s: Seq<char>) -> Option<Seq<Seq<char>>>;

/// Relies on `toml::from_str` and `toml::Value::{get, as_array, as_str}`:
/// parses a TOML document and reads its `workspace.members` array of
/// strings. The result depends on the document text alone.
#[verifier::external_body]
fn parse_workspace_members(s: &str) -> (r: Option<Vec<String>>)
    ensures
        r.deep_view() == toml_workspace_members(s@),
{
    let doc: toml::Value = match toml::from_str(s) {
        Ok(v) => v,
        Err(_) => return None,
    };
    let members = doc.get("workspace")?.get("members")?.as_array()?;
    members.iter().map(|m| m.as_str().map(|x| x.to_owned())).collect()
}

/// The name of the first workspace member that ends in `_core`, without that
/// suffix.
pub open spec fn core_project_name(members: Seq<Seq<char>>) -> Option<Seq<char>>
    decreases members.len(),
{
    if members.len() == 0 {
        None
    } else if ends_with_seq(members.first(), "_core"@) {
        Some(members.first().take(members.first().len() - "_core"@.len()))
    } else {
        core_project_name(members.drop_first())
    }
}

/// The project name a cargo manifest text determines, if any.
pub open spec fn name_from_manifest(cargo_toml: Seq<char>) -> Option<Seq<char>> {
    match toml_workspace_members(cargo_toml) {
        Some(members) => core_project_name(members),
        None => None,
    }
}

/// The `workspace` table of a cargo manifest.
#[derive(Debug, Clone)]
pub struct Workspace {
    pub members: Vec<String>,
}

/// A cargo workspace manifest, reduced to what discovery reads.
#[derive(Debug, Clone)]
pub struct CargoWorkspaceConfig {
    pub workspace: Workspace,
}

impl CargoWorkspaceConfig {
    /// Parses the manifest text.
    pub fn from_toml_str(cargo_toml: &str) -> (r: Result<Self, Error>)
        ensures
            toml_workspace_members(cargo_toml@) matches Some(m) ==> (r matches Ok(c)
                && c.workspace.members.deep_view() == m),
            toml_workspace_members(cargo_toml@) is None ==> (r matches Err(e)
                && e is ParseCargoWorkspace),
    {
        match parse_workspace_members(cargo_toml) {
            Some(members) => Ok(CargoWorkspaceConfig { workspace: Workspace { members } }),
            None => Err(Error::ParseCargoWorkspace),
        }
    }

    /// The name of the first workspace member ending in `_core`, without that
    /// suffix.
    pub fn project_name(&self) -> (r: Option<String>)
        ensures
            r.deep_view() == core_project_name(self.workspace.members.deep_view()),
    {
        let ghost all = self.workspace.members.deep_view();
        let mut i: usize = 0;
        proof {
            assert(all.skip(0) =~= all);
        }
        while i < self.workspace.members.len()
            invariant
                0 <= i <= self.workspace.members.len(),
                all == self.workspace.members.deep_view(),
                all.len() == self.workspace.members.len(),
                core_project_name(all) == core_project_name(all.skip(i as int)),
            decreases self.workspace.members.len() - i,
        {
            let ghost rem = all.skip(i as int);
            proof {
                assert(rem.first() == all[i as int]);
                assert(rem.drop_first() =~= all.skip(i as int + 1));
                assert(all[i as int] == self.workspace.members@[i as int]@);
            }
            let member = &self.workspace.members[i];
            let n = member.as_str().unicode_len();
            if text::ends_with(member.as_str(), "_core") {
                proof {
                    reveal_strlit("_core");
                }
                let name = member.as_str().substring_char(0, n - 5).to_owned();
                proof {
                    assert(name@ =~= rem.first().take(rem.first().len() - "_core"@.len()));
                }
                return Some(name);
            }
            i += 1;
        }
        proof {
            assert(all.skip(all.len() as int) =~= Seq::<Seq<char>>::empty());
        }
        None
    }
}

impl ProjectInfo {
    /// Discovers the project layout under a working directory: the project's
    /// name comes from the first workspace member ending in `_core` of the
    /// given cargo manifest text, and the sibling web and wasm projects must
    /// exist, as the given existence answers report.
    pub fn from_dir(
        current_dir: &str,
        cargo_toml: &str,
        web_project_exists: bool,
        wasm_project_exists: bool,
    ) -> (r: Result<ProjectInfo, Error>)
        ensures
            !is_absolute_path(current_dir@) ==> (r matches Err(e) && e matches
                Error::CurrentDirNotAbsolute(p) && p@ == current_dir@),
            is_absolute_path(current_dir@) && toml_workspace_members(cargo_toml@) is None ==> (
            r matches Err(e) && e is ParseCargoWorkspace),
            is_absolute_path(current_dir@) && toml_workspace_members(cargo_toml@) is Some
                && name_from_manifest(cargo_toml@) is None ==> (r matches Err(e)
                && e is NoProjectName),
            is_absolute_path(current_dir@) && !web_project_exists ==> (name_from_manifest(
                cargo_toml@,
            ) matches Some(name) ==> (r matches Err(e) && e matches Error::WebProjectNotFound(p)
                && p@ == layout_of(current_dir@, name).web_project_path)),
            is_absolute_path(current_dir@) && web_project_exists && !wasm_project_exists ==> (
            name_from_manifest(cargo_toml@) matches Some(name) ==> (r matches Err(e) && e matches
                Error::WasmProjectNotFound(p) && p@ == layout_of(
                current_dir@,
                name,
            ).wasm_project_path)),
            is_absolute_path(current_dir@) && web_project_exists && wasm_project_exists ==> (
            name_from_manifest(cargo_toml@) matches Some(name) ==> (r matches Ok(info) && info@
                == layout_of(current_dir@, name))),
    {
        let n = current_dir.unicode_len();
        if !(n > 0 && current_dir.get_char(0) == '/') {
            return Err(Error::CurrentDirNotAbsolute(current_dir.to_owned()));
        }
        let cargo_workspace = match CargoWorkspaceConfig::from_toml_str(cargo_toml) {
            Ok(c) => c,
            Err(e) => {
                return Err(e);
            }
        };
        let project_name = match cargo_workspace.project_name() {
            Some(name) => name,
            None => {
                return Err(Error::NoProjectName);
            }
        };
        let mut web_name = project_name.clone();
        web_name.append("_web");
        let web_project_path = text::path_join(current_dir, web_name.as_str());
        let mut core_name = project_name.clone();
        core_name.append("_core");
        let core_project_path = text::path_join(current_dir, core_name.as_str());
        let mut wasm_name = project_name.clone();
        wasm_name.append("_wasm");
        let wasm_project_path = text::path_join(current_dir, wasm_name.as_str());
        let mut cloudflare_name = project_name.clone();
        cloudflare_name.append("_cloudflare");
        let cloudflare_project_path = text::path_join(current_dir, cloudflare_name.as_str());
        let backend_dist_path = text::path_join(cloudflare_project_path.as_str(), "dist_backend");
        if !web_project_exists {
            return Err(Error::WebProjectNotFound(web_project_path));
        }
        if !wasm_project_exists {
            return Err(Error::WasmProjectNotFound(wasm_project_path));
        }
        let dist_path = text::path_join(current_dir, "dist");
        Ok(
            ProjectInfo {
                project_name,
                dist_path,
                web_project_path,
                core_project_path,
                wasm_project_path,
                cloudflare_project_path,
                backend_dist_path,
            },
        )
    }

    /// The source directory of the core project.
    pub fn core_project_path_src(&self) -> (r: String)
        ensures
            r@ == self@.core_project_path + "/"@ + "src"@,
    {
        text::path_join(self.core_project_path.as_str(), "src")
    }

    /// The source directory of the web project.
    pub fn web_project_path_src(&self) -> (r: String)
        ensures
            r@ == self@.web_project_path + "/"@ + "src"@,
    {
        text::path_join(self.web_project_path.as_str(), "src")
    }

    /// The stylesheet directory of the web project.
    pub fn web_project_path_css(&self) -> (r: String)
        ensures
            r@ == self@.web_project_path + "/"@ + "css"@,
    {
        text::path_join(self.web_project_path.as_str(), "css")
    }
}

} // verus!
