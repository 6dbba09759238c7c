//! Project scaffolding: template descriptions, project-name validation, page
//! naming in the casings the templates use, and the text rewrites that
//! instantiate a template.
//!
//! Downloading a template archive, unpacking it, and copying files is the
//! embedding binary's part; this module holds every decision and rewrite on
//! plain text.

use vstd::prelude::*;

use crate::text;
use crate::text::{contains_seq, ends_with_seq, replace_seq};

verus! {

/// Why scaffolding failed. The variants that carry a message are constructed
/// by the embedding binary from the outcome of its filesystem and network
/// work.
#[derive(Debug)]
pub enum Error {
    InvalidProjectName,
    TempDir(String),
    GetUrl(String),
    ReadResponse(String),
    ZipExtract(String),
    ReadFile(String),
    WriteFile(String),
    RenameDir(String),
    CopyToDestination(String),
    RenameTemplateDir(String),
    TemplateProjectInfo(crate::project_info::Error),
    ReadCoreHomePage(String),
    WriteCoreHomePage(String),
    ReadLibFile(String),
}

/// The snake_case rendering of a name. It depends on the name alone.
pub uninterp spec fn case_snake_of(s: Seq<char>) -> Seq<char>;

/// Relies on `convert_case::Casing::to_case` with `Case::Snake`: the
/// snake_case rendering of a name depends on the name alone.
#[verifier::external_body]
fn to_snake_case(s: &str) -> (r: String)
    ensures
        r@ == case_snake_of(s@),
{
    convert_case::Casing::to_case(&s, convert_case::Case::Snake)
}

/// The PascalCase rendering of a snake_case name. It depends on the name
/// alone.
pub uninterp spec fn snake_to_pascal_of(s: Seq<char>) -> Seq<char>;

/// Relies on `convert_case::Casing::from_case` and `to_case` with
/// `Case::Snake` and `Case::Pascal`: the rendering depends on the name alone.
#[verifier::external_body]
fn snake_to_pascal(s: &str) -> (r: String)
    ensures
        r@ == snake_to_pascal_of(s@),
{
    convert_case::Casing::from_case(&s, convert_case::Case::Snake).to_case(
        convert_case::Case::Pascal,
    )
}

/// The camelCase rendering of a snake_case name. It depends on the name
/// alone.
pub uninterp spec fn snake_to_camel_of(s: Seq<char>) -> Seq<char>;

/// Relies on `convert_case::Casing::from_case` and `to_case` with
/// `Case::Snake` and `Case::Camel`: the rendering depends on the name alone.
#[verifier::external_body]
fn snake_to_camel(s: &str) -> (r: String)
    ensures
        r@ == snake_to_camel_of(s@),
{
    convert_case::Casing::from_case(&s, convert_case::Case::Snake).to_case(
        convert_case::Case::Camel,
    )
}

/// The Title Case rendering of a snake_case name. It depends on the name
/// alone.
pub uninterp spec fn snake_to_title_of(s: Seq<char>) -> Seq<char>;

/// Relies on `convert_case::Casing::from_case` and `to_case` with
/// `Case::Snake` and `Case::Title`: the rendering depends on the name alone.
#[verifier::external_body]
fn snake_to_title(s: &str) -> (r: String)
    ensures
        r@ == snake_to_title_of(s@),
{
    convert_case::Casing::from_case(&s, convert_case::Case::Snake).to_case(
        convert_case::Case::Title,
    )
}

/// The canonical page name a user-given name determines: its snake_case
/// rendering, with `_page` appended unless the rendering already ends in
/// `page`.
pub open spec fn page_name_of(name: Seq<char>) -> Seq<char> {
    let snake = case_snake_of(name);
    if ends_with_seq(snake, "page"@) {
        snake
    } else {
        snake + "_page"@
    }
}

/// A page's canonical name, held in snake_case.
#[derive(Debug, Clone)]
pub struct PageName(String);

impl View for PageName {
    type V = Seq<char>;

    closed spec fn view(&self) -> Seq<char> {
        self.0@
    }
}

impl PageName {
    /// Canonicalizes a user-given page name.
    pub fn new(name: &str) -> (r: PageName)
        ensures
            r@ == page_name_of(name@),
    {
        let mut snake_case_name = to_snake_case(name);
        if !text::ends_with(snake_case_name.as_str(), "page") {
            snake_case_name.append("_page");
        }
        PageName(snake_case_name)
    }

    /// The name in snake_case.
    pub fn snake_case(&self) -> (r: String)
        ensures
            r@ == self@,
    {
        self.0.clone()
    }

    /// The name in PascalCase.
    pub fn pascal_case(&self) -> (r: String)
        ensures
            r@ == snake_to_pascal_of(self@),
    {
        snake_to_pascal(self.0.as_str())
    }

    /// The name in camelCase.
    pub fn camel_case(&self) -> (r: String)
        ensures
            r@ == snake_to_camel_of(self@),
    {
        snake_to_camel(self.0.as_str())
    }

    /// The name in Title Case.
    pub fn title_case(&self) -> (r: String)
        ensures
            r@ == snake_to_title_of(self@),
    {
        snake_to_title(self.0.as_str())
    }
}

/// What a template is: where its archive lives, the directory inside the
/// archive, the placeholder its files carry, and the page its sources start
/// with.
#[derive(Clone)]
pub struct TemplateInfo {
    pub url: String,
    pub path: String,
    pub placeholder: String,
    pub default_page_name: PageName,
}

/// A project template: the built-in one, or a custom description.
#[derive(Clone)]
pub enum Template {
    CounterTailwind,
    Custom(TemplateInfo),
}

impl Template {
    /// The description of the template.
    pub fn info(&self) -> (r: TemplateInfo)
        ensures
            self is CounterTailwind ==> r.url@
                == "https://github.com/xosnrdev/elmio-templates/archive/refs/heads/master.zip"@
                && r.path@ == "counter-tailwind"@ && r.placeholder@ == "counterapp"@
                && r.default_page_name@ == page_name_of("home_page"@),
            self matches Template::Custom(info) ==> r.url@ == info.url@ && r.path@ == info.path@
                && r.placeholder@ == info.placeholder@ && r.default_page_name@
                == info.default_page_name@,
    {
        match self {
            Template::CounterTailwind => TemplateInfo {
                url: "https://github.com/xosnrdev/elmio-templates/archive/refs/heads/master.zip".to_owned(),
                path: "counter-tailwind".to_owned(),
                placeholder: "counterapp".to_owned(),
                default_page_name: PageName::new("home_page"),
            },
            Template::Custom(info) => TemplateInfo {
                url: info.url.clone(),
                path: info.path.clone(),
                placeholder: info.placeholder.clone(),
                default_page_name: PageName(info.default_page_name.0.clone()),
            },
        }
    }
}

/// What scaffolding works on: the project's name, its template, and the
/// directory the project is created in.
pub struct Config {
    pub name: String,
    pub template: Template,
    pub current_dir: String,
}

/// A project to scaffold.
pub struct Project {
    pub config: Config,
}

impl Project {
    /// Wraps a scaffolding configuration.
    pub fn new(config: Config) -> (r: Project)
        ensures
            r.config.name@ == config.name@,
            r.config.current_dir@ == config.current_dir@,
    {
        Project { config }
    }
}

/// A valid project name: non-empty, all ASCII lowercase letters or
/// underscores, and starting with a letter.
pub open spec fn valid_project_name(name: Seq<char>) -> bool {
    &&& name.len() > 0
    &&& forall|i: int| 0 <= i < name.len() ==> ('a' <= #[trigger] name[i] <= 'z' || name[i] == '_')
    &&& 'a' <= name[0] <= 'z'
}

/// Accepts exactly the valid project names.
pub fn validate_name(name: &str) -> (r: Result<(), Error>)
    ensures
        r is Ok <==> valid_project_name(name@),
        r matches Err(e) ==> e is InvalidProjectName,
{
    let n = name.unicode_len();
    if n == 0 {
        return Err(Error::InvalidProjectName);
    }
    let first = name.get_char(0);
    if !('a' <= first && first <= 'z') {
        return Err(Error::InvalidProjectName);
    }
    let mut i: usize = 0;
    while i < n
        invariant
            n == name@.len(),
            0 <= i <= n,
            forall|k: int| 0 <= k < i ==> ('a' <= #[trigger] name@[k] <= 'z' || name@[k] == '_'),
        decreases n - i,
    {
        let c = name.get_char(i);
        if !(('a' <= c && c <= 'z') || c == '_') {
            return Err(Error::InvalidProjectName);
        }
        i += 1;
    }
    Ok(())
}

/// A text with one page's name rewritten to another's, in every casing the
/// templates use: snake, Pascal, camel and Title, in that order.
pub open spec fn page_name_replaced(content: Seq<char>, from: Seq<char>, to: Seq<char>) -> Seq<
    char,
> {
    let s1 = replace_seq(content, from, to);
    let s2 = replace_seq(s1, snake_to_pascal_of(from), snake_to_pascal_of(to));
    let s3 = replace_seq(s2, snake_to_camel_of(from), snake_to_camel_of(to));
    replace_seq(s3, snake_to_title_of(from), snake_to_title_of(to))
}

/// Rewrites one page's name to another's in every casing the templates use.
pub fn replace_page_name(content: &str, from: &PageName, to: &PageName) -> (r: String)
    ensures
        r@ == page_name_replaced(content@, from@, to@),
{
    let s1 = text::replace(content, from.snake_case().as_str(), to.snake_case().as_str());
    let s2 = text::replace(s1.as_str(), from.pascal_case().as_str(), to.pascal_case().as_str());
    let s3 = text::replace(s2.as_str(), from.camel_case().as_str(), to.camel_case().as_str());
    text::replace(s3.as_str(), from.title_case().as_str(), to.title_case().as_str())
}

/// A core library file with a page's module line present: the content gets a
/// trailing newline if it lacks one, and the module line is appended unless
/// it already occurs.
pub open spec fn with_page_module(content: Seq<char>, page: Seq<char>) -> Seq<char> {
    let module_line = "pub mod "@ + page + ";"@;
    let base = if content.len() > 0 && content.last() == '\n' {
        content
    } else {
        content + "\n"@
    };
    if contains_seq(base, module_line) {
        base
    } else {
        base + module_line + "\n"@
    }
}

/// Adds a page's module line to the content of a project's library file,
/// unless it is already there. Reading and writing the file is the embedding
/// binary's part.
pub fn add_page_to_lib(lib_content: &str, page_name: &PageName) -> (r: String)
    ensures
        r@ == with_page_module(lib_content@, page_name@),
{
    let mut module_line = "pub mod ".to_owned();
    module_line.append(page_name.snake_case().as_str());
    module_line.append(";");
    let n = lib_content.unicode_len();
    let mut new_content = lib_content.to_owned();
    if !(n > 0 && lib_content.get_char(n - 1) == '\n') {
        new_content.append("\n");
    }
    if !text::contains_sub(new_content.as_str(), module_line.as_str()) {
        new_content.append(module_line.as_str());
        new_content.append("\n");
    }
    new_content
}

/// The file contents with the template's placeholder replaced by the
/// project's name, one for one.
pub open spec fn placeholders_replaced(
    contents: Seq<Seq<char>>,
    placeholder: Seq<char>,
    name: Seq<char>,
) -> Seq<Seq<char>> {
    contents.map_values(|c: Seq<char>| replace_seq(c, placeholder, name))
}

/// Replaces the template's placeholder with the project's name in each given
/// file content. Walking the template tree, reading the files and writing
/// them back is the embedding binary's part.
pub fn replace_placeholders(project_name: &str, template_info: &TemplateInfo, contents: &Vec<
    String,
>) -> (r: Vec<String>)
    ensures
        r.deep_view() == placeholders_replaced(
            contents.deep_view(),
            template_info.placeholder@,
            project_name@,
        ),
{
    let ghost cv = contents.deep_view();
    let mut out: Vec<String> = Vec::new();
    let mut i: usize = 0;
    while i < contents.len()
        invariant
            0 <= i <= contents.len(),
            cv == contents.deep_view(),
            cv.len() == contents.len(),
            out.deep_view().len() == i,
            forall|k: int|
                0 <= k < i ==> out.deep_view()[k] == replace_seq(
                    #[trigger] cv[k],
                    template_info.placeholder@,
                    project_name@,
                ),
        decreases contents.len() - i,
    {
        proof {
            assert(cv[i as int] == contents@[i as int]@);
        }
        let ghost dv0 = out.deep_view();
        let replaced = text::replace(
            contents[i].as_str(),
            template_info.placeholder.as_str(),
            project_name,
        );
        out.push(replaced);
        proof {
            assert(out.deep_view() =~= dv0.push(
                replace_seq(cv[i as int], template_info.placeholder@, project_name@),
            ));
        }
        i += 1;
    }
    proof {
        assert(out.deep_view() =~= placeholders_replaced(
            cv,
            template_info.placeholder@,
            project_name@,
        ));
    }
    out
}

/// The relative path of a page's source file inside a project.
pub fn page_file_rel_path(page: &PageName, file_ext: &str) -> (r: String)
    ensures
        r@ == "src/"@ + page@ + "."@ + file_ext@,
{
    let mut r = "src/".to_owned();
    r.append(page.snake_case().as_str());
    r.append(".");
    r.append(file_ext);
    r
}

} // verus!
