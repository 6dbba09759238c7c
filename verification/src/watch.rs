//! The event classifier: maps raw filesystem change events to zero-or-one
//! qualifying change, applying the fixed path-component denylist and the
//! optional gitignore patterns, and feeds the backlog scheduler.
//!
//! The watch subscription itself — observing the project tree and delivering
//! events — is the embedding binary's part: it converts each raw notification
//! into an [`Event`] and hands it to [`on_event`].

use vstd::prelude::*;

use crate::backlog_builder::{enqueue_step, BacklogBuilder, ChangeType};
use crate::text;

verus! {

/// How a file was created, as far as the classifier cares: a plain file, or
/// anything else (a directory, an unknown kind).
#[derive(Debug, Clone, Copy, PartialEq, Eq, Structural)]
pub enum CreateKind {
    File,
    Other,
}

/// What part of a file's data changed.
#[derive(Debug, Clone, Copy, PartialEq, Eq, Structural)]
pub enum DataChange {
    Content,
    Other,
}

/// How a file was modified.
#[derive(Debug, Clone, Copy, PartialEq, Eq, Structural)]
pub enum ModifyKind {
    Data(DataChange),
    Name,
    Other,
}

/// The kind of a raw filesystem change event.
#[derive(Debug, Clone, Copy, PartialEq, Eq, Structural)]
pub enum EventKind {
    Create(CreateKind),
    Modify(ModifyKind),
    Remove,
    Other,
}

/// A raw filesystem change event: its kind and the affected absolute paths.
#[derive(Debug, Clone)]
pub struct Event {
    pub kind: EventKind,
    pub paths: Vec<String>,
}

/// The mathematical content of an event.
#[verifier::ext_equal]
pub ghost struct EventView {
    pub kind: EventKind,
    pub paths: Seq<Seq<char>>,
}

impl View for Event {
    type V = EventView;

    open spec fn view(&self) -> EventView {
        EventView { kind: self.kind, paths: self.paths.deep_view() }
    }
}

/// Why an event produced no qualifying change. All of these are recoverable:
/// the event is discarded and the session continues.
#[derive(Debug)]
pub enum Error {
    Notify(String),
    IgnoredEvent(Event),
    EventFilePath(Event),
    RelativePath(String),
    IgnoredFileType(String),
}

/// The events the classifier accepts: file creation, content modification,
/// rename, and removal. Everything else is discarded.
pub open spec fn event_qualifies(kind: EventKind) -> bool {
    match kind {
        EventKind::Create(CreateKind::File) => true,
        EventKind::Modify(ModifyKind::Data(DataChange::Content)) => true,
        EventKind::Modify(ModifyKind::Name) => true,
        EventKind::Remove => true,
        _ => false,
    }
}

/// A copy of an event with the same mathematical content.
fn event_copy(event: &Event) -> (r: Event)
    ensures
        r@ =~~= event@,
{
    let paths = event.paths.clone();
    proof {
        broadcast use vstd::std_specs::vec::vec_clone_deep_view_proof;

        assert(paths.deep_view() == event.paths.deep_view());
    }
    Event { kind: event.kind, paths }
}

/// The primary affected path of a qualifying event.
pub fn filepath_from_event(event: &Event) -> (r: Result<String, Error>)
    ensures
        event_qualifies(event.kind) && event@.paths.len() > 0 ==> (r matches Ok(p) && p@
            == event@.paths[0]),
        event_qualifies(event.kind) && event@.paths.len() == 0 ==> (r matches Err(e) && e matches
            Error::EventFilePath(ev) && ev@ =~~= event@),
        !event_qualifies(event.kind) ==> (r matches Err(e) && e matches Error::IgnoredEvent(ev)
            && ev@ =~~= event@),
{
    let qualifies = match &event.kind {
        EventKind::Create(CreateKind::File) => true,
        EventKind::Modify(ModifyKind::Data(DataChange::Content)) => true,
        EventKind::Modify(ModifyKind::Name) => true,
        EventKind::Remove => true,
        _ => false,
    };
    if !qualifies {
        Err(Error::IgnoredEvent(event_copy(event)))
    } else if event.paths.len() > 0 {
        proof {
            assert(event@.paths[0] == event.paths@[0]@);
        }
        Ok(event.paths[0].clone())
    } else {
        Err(Error::EventFilePath(event_copy(event)))
    }
}

/// The path components the classifier rejects outright: the build output and
/// dependency directories, and every dot-prefixed component.
pub open spec fn component_denied(c: Seq<char>) -> bool {
    ||| c == "wasm"@
    ||| c == "wasm_backend"@
    ||| c == "dist"@
    ||| c == "dist_backend"@
    ||| c == "node_modules"@
    ||| c == "target"@
    ||| (c.len() > 0 && c[0] == '.')
}

/// The non-empty `/`-separated components of a path.
pub open spec fn path_components(p: Seq<char>) -> Seq<Seq<char>> {
    text::keep_non_empty(text::split_char_seq(p, '/'))
}

/// Whether some component of the path is on the denylist.
pub open spec fn ignored_by_component(p: Seq<char>) -> bool {
    exists|i: int|
        0 <= i < path_components(p).len() && component_denied(#[trigger] path_components(p)[i])
}

/// Whether some component of the path is on the fixed denylist or
/// dot-prefixed. This check always applies, whether or not an
/// ignore-pattern source was loaded.
pub fn is_ignored_by_component(path: &str) -> (r: bool)
    ensures
        r == ignored_by_component(path@),
{
    let raw = text::split_char(path, '/');
    let parts = text::non_empty_parts(&raw);
    let ghost comps = path_components(path@);
    let mut i: usize = 0;
    while i < parts.len()
        invariant
            0 <= i <= parts.len(),
            comps == parts.deep_view(),
            comps == path_components(path@),
            comps.len() == parts.len(),
            forall|k: int| 0 <= k < i ==> !component_denied(#[trigger] comps[k]),
        decreases parts.len() - i,
    {
        let part = &parts[i];
        proof {
            assert(comps[i as int] == parts@[i as int]@);
        }
        let denied = text::str_eq(part.as_str(), "wasm") || text::str_eq(
            part.as_str(),
            "wasm_backend",
        ) || text::str_eq(part.as_str(), "dist") || text::str_eq(part.as_str(), "dist_backend")
            || text::str_eq(part.as_str(), "node_modules") || text::str_eq(part.as_str(), "target")
            || (part.as_str().unicode_len() > 0 && part.as_str().get_char(0) == '.');
        if denied {
            proof {
                assert(component_denied(path_components(path@)[i as int]));
            }
            return true;
        }
        i += 1;
    }
    false
}

/// Whether the loaded gitignore patterns, applied from the given root, ignore
/// the given path. The matching itself is delegated to the pattern engine and
/// depends on the root, the pattern lines and the path alone.
pub uninterp spec fn gitignore_matches(
    root: Seq<char>,
    patterns: Seq<Seq<char>>,
    path: Seq<char>,
) -> bool;

/// A text free of the glob metacharacters whose misuse makes the pattern
/// engine's glob dialect fail to compile.
pub open spec fn glob_meta_free(s: Seq<char>) -> bool {
    forall|i: int|
        0 <= i < s.len() ==> #[trigger] s[i] != '[' && s[i] != '{' && s[i] != '}' && s[i] != '\\'
}

/// A text holding at least one visible ASCII character — one the engine's
/// whitespace removal is sure to keep.
pub open spec fn has_visible_char(s: Seq<char>) -> bool {
    exists|i: int| 0 <= i < s.len() && '!' <= #[trigger] s[i] <= '~'
}

/// A gitignore line the pattern engine takes without fault: it is free of
/// the glob metacharacters, and — beyond an optional leading `!` — at least
/// one visible ASCII character survives the engine's whitespace removal.
pub open spec fn engine_safe_line(line: Seq<char>) -> bool {
    glob_meta_free(line) && if line.len() > 0 && line[0] == '!' {
        has_visible_char(line.skip(1))
    } else {
        has_visible_char(line)
    }
}

/// The gitignore lines the engine is handed: those it takes without fault,
/// in order. Blank lines are separators in the gitignore format, so dropping
/// them loses nothing; a faulting pattern line is dropped rather than
/// allowed to kill the watch session.
pub open spec fn engine_safe_lines(ls: Seq<Seq<char>>) -> Seq<Seq<char>>
    decreases ls.len(),
{
    if ls.len() == 0 {
        Seq::empty()
    } else {
        let rest = engine_safe_lines(ls.drop_last());
        if engine_safe_line(ls.last()) {
            rest.push(ls.last())
        } else {
            rest
        }
    }
}

/// Every line handed to the engine is one it takes without fault.
proof fn lemma_engine_safe_lines_safe(ls: Seq<Seq<char>>)
    ensures
        forall|i: int|
            0 <= i < engine_safe_lines(ls).len() ==> engine_safe_line(
                #[trigger] engine_safe_lines(ls)[i],
            ),
    decreases ls.len(),
{
    if ls.len() > 0 {
        lemma_engine_safe_lines_safe(ls.drop_last());
        let rest = engine_safe_lines(ls.drop_last());
        assert forall|i: int|
            0 <= i < engine_safe_lines(ls).len() implies engine_safe_line(
            #[trigger] engine_safe_lines(ls)[i],
        ) by {
            if i < rest.len() {
                assert(engine_safe_lines(ls)[i] == rest[i]);
            }
        }
    }
}

/// Relies on `gitignored::Gitignore::new` and `gitignored::Gitignore::ignores`:
/// whether a gitignore pattern list ignores a path under a root is a function
/// of the root, the pattern lines and the path alone — the engine reads no
/// filesystem, clock or environment on this path. The engine reads the first
/// character left of each line once whitespace and a leading `!` are removed,
/// and compiles globs it assembles from the root and the lines, where the
/// characters `[`, `{`, `}` and `\` are the only sources of compile errors in
/// its glob dialect; the `requires` keeps every input on which the engine
/// would fault out.
#[verifier::external_body]
fn gitignore_ignores(root: &str, patterns: &Vec<String>, path: &str) -> (r: bool)
    requires
        glob_meta_free(root@),
        forall|i: int|
            0 <= i < patterns.deep_view().len() ==> engine_safe_line(
                #[trigger] patterns.deep_view()[i],
            ),
    ensures
        r == gitignore_matches(root@, patterns.deep_view(), path@),
{
    let mut gi = gitignored::Gitignore::new(root, false, false);
    let lines: Vec<&str> = patterns.iter().map(|p| p.as_str()).collect();
    let target = std::path::Path::new(root).join(path);
    gi.ignores(&lines, target)
}

/// Whether the loaded ignore-pattern source, if any, ignores the path: the
/// source's lines that the engine takes without fault are applied from the
/// watched root. Without a source, nothing is ignored by this rule; with a
/// root the engine cannot take, pattern matching is disabled and only the
/// fixed denylist applies — a fault in the loaded patterns must never kill
/// the watch session.
pub open spec fn ignored_by_git(
    current_dir: Seq<char>,
    gitignore: Option<Seq<char>>,
    path: Seq<char>,
) -> bool {
    match gitignore {
        Some(g) => glob_meta_free(current_dir) && gitignore_matches(
            current_dir,
            engine_safe_lines(text::lines_seq(g)),
            path,
        ),
        None => false,
    }
}

/// Whether the text is free of the engine's glob metacharacters.
fn is_glob_meta_free(s: &str) -> (r: bool)
    ensures
        r == glob_meta_free(s@),
{
    let n = s.unicode_len();
    let mut i: usize = 0;
    while i < n
        invariant
            n == s@.len(),
            0 <= i <= n,
            forall|k: int|
                0 <= k < i ==> #[trigger] s@[k] != '[' && s@[k] != '{' && s@[k] != '}' && s@[k]
                    != '\\',
        decreases n - i,
    {
        let c = s.get_char(i);
        if c == '[' || c == '{' || c == '}' || c == '\\' {
            return false;
        }
        i += 1;
    }
    true
}

/// Whether the engine takes this gitignore line without fault.
fn is_engine_safe_line(line: &str) -> (r: bool)
    ensures
        r == engine_safe_line(line@),
{
    if !is_glob_meta_free(line) {
        return false;
    }
    let n = line.unicode_len();
    let start: usize = if n > 0 && line.get_char(0) == '!' {
        1
    } else {
        0
    };
    let ghost body = if line@.len() > 0 && line@[0] == '!' {
        line@.skip(1)
    } else {
        line@
    };
    let mut j: usize = start;
    while j < n
        invariant
            n == line@.len(),
            start <= j <= n,
            glob_meta_free(line@),
            start == (if n > 0 && line@[0] == '!' {
                1int
            } else {
                0int
            }),
            body == (if line@.len() > 0 && line@[0] == '!' {
                line@.skip(1)
            } else {
                line@
            }),
            forall|k: int| 0 <= k < j - start ==> !('!' <= #[trigger] body[k] <= '~'),
        decreases n - j,
    {
        let c = line.get_char(j);
        proof {
            assert(body[j - start] == line@[j as int]);
        }
        if '!' <= c && c <= '~' {
            proof {
                if start == 1 {
                    assert('!' <= line@.skip(1)[j - 1] <= '~');
                    assert(has_visible_char(line@.skip(1)));
                } else {
                    assert(has_visible_char(line@));
                }
            }
            return true;
        }
        j += 1;
    }
    false
}

/// Keeps the gitignore lines the engine takes without fault, in order.
fn keep_engine_safe(parts: &Vec<String>) -> (r: Vec<String>)
    ensures
        r.deep_view() == engine_safe_lines(parts.deep_view()),
{
    let ghost pv = parts.deep_view();
    let mut out: Vec<String> = Vec::new();
    let mut i: usize = 0;
    proof {
        assert(pv.take(0) =~= Seq::<Seq<char>>::empty());
        assert(out.deep_view() =~= engine_safe_lines(pv.take(0)));
    }
    while i < parts.len()
        invariant
            0 <= i <= parts.len(),
            pv == parts.deep_view(),
            pv.len() == parts.len(),
            out.deep_view() == engine_safe_lines(pv.take(i as int)),
        decreases parts.len() - i,
    {
        let ghost dv0 = out.deep_view();
        proof {
            assert(pv.take(i as int + 1).drop_last() =~= pv.take(i as int));
            assert(pv.take(i as int + 1).last() == pv[i as int]);
            assert(pv[i as int] == parts@[i as int]@);
        }
        let part = &parts[i];
        if is_engine_safe_line(part.as_str()) {
            out.push(part.clone());
            proof {
                assert(out.deep_view() =~= dv0.push(pv[i as int]));
            }
        }
        i += 1;
    }
    proof {
        assert(pv.take(pv.len() as int) =~= pv);
    }
    out
}

/// Whether the path is excluded: by a denylisted component, or by the loaded
/// ignore patterns.
pub open spec fn spec_is_ignored(
    current_dir: Seq<char>,
    gitignore: Option<Seq<char>>,
    path: Seq<char>,
) -> bool {
    ignored_by_component(path) || ignored_by_git(current_dir, gitignore, path)
}

/// What the watch session is configured with: the watched root, the optional
/// ignore-pattern text, and the scheduler the classified changes feed.
pub struct Config {
    pub current_dir: String,
    pub gitignore: Option<String>,
    pub builder: BacklogBuilder,
}

impl Config {
    /// Wires a watch session together. Loading the ignore-pattern text is the
    /// embedding binary's part; absence means only the fixed denylist
    /// applies.
    pub fn new(current_dir: &str, gitignore: Option<String>, builder: BacklogBuilder) -> (r: Self)
        ensures
            r.current_dir@ == current_dir@,
            r.gitignore.deep_view() == gitignore.deep_view(),
            r.builder == builder,
    {
        Self { current_dir: current_dir.to_owned(), gitignore, builder }
    }
}

/// Whether the path is excluded, by component or by ignore pattern.
pub fn is_ignored(config: &Config, path: &str) -> (r: bool)
    ensures
        r == spec_is_ignored(config.current_dir@, config.gitignore.deep_view(), path@),
{
    if is_ignored_by_component(path) {
        return true;
    }
    is_ignored_by_git(config, path)
}

/// Whether the loaded ignore patterns exclude the path. Lines the pattern
/// engine would fault on are dropped first, and a root it cannot take
/// disables pattern matching: a malformed ignore file never kills the watch
/// session.
pub fn is_ignored_by_git(config: &Config, path: &str) -> (r: bool)
    ensures
        r == ignored_by_git(config.current_dir@, config.gitignore.deep_view(), path@),
{
    match &config.gitignore {
        Some(g) => {
            if !is_glob_meta_free(config.current_dir.as_str()) {
                return false;
            }
            let all_lines = text::lines(g.as_str());
            let patterns = keep_engine_safe(&all_lines);
            proof {
                lemma_engine_safe_lines_safe(all_lines.deep_view());
            }
            gitignore_ignores(config.current_dir.as_str(), &patterns, path)
        }
        None => false,
    }
}

/// The extension a file name determines: the text after its last dot, where
/// that dot is not the name's first character; nothing otherwise.
pub open spec fn ext_opt(name: Seq<char>) -> Option<Seq<char>>
    decreases name.len(),
{
    if name.len() <= 1 {
        None
    } else if name.last() == '.' {
        Some(Seq::empty())
    } else {
        match ext_opt(name.drop_last()) {
            Some(e) => Some(e.push(name.last())),
            None => None,
        }
    }
}

/// The extension a file name determines, or the empty string.
pub open spec fn ext_of_name(name: Seq<char>) -> Seq<char> {
    match ext_opt(name) {
        Some(e) => e,
        None => Seq::empty(),
    }
}

/// The extension of a path's last `/`-separated component, or the empty
/// string.
pub open spec fn extension_of(p: Seq<char>) -> Seq<char> {
    ext_of_name(text::split_char_seq(p, '/').last())
}

proof fn lemma_ext_none(name: Seq<char>)
    requires
        forall|t: int| 1 <= t < name.len() ==> name[t] != '.',
    ensures
        ext_opt(name) is None,
    decreases name.len(),
{
    if name.len() > 1 {
        assert(name[name.len() - 1] != '.');
        lemma_ext_none(name.drop_last());
    }
}

proof fn lemma_ext_at(name: Seq<char>, d: int)
    requires
        1 <= d < name.len(),
        name[d] == '.',
        forall|t: int| d < t < name.len() ==> name[t] != '.',
    ensures
        ext_opt(name) == Some(name.skip(d + 1)),
    decreases name.len(),
{
    if d == name.len() - 1 {
        assert(name.skip(d + 1) =~= Seq::<char>::empty());
    } else {
        assert(name[name.len() - 1] != '.');
        lemma_ext_at(name.drop_last(), d);
        assert(name.skip(d + 1) =~= name.drop_last().skip(d + 1).push(name.last()));
    }
}

/// The extension of the path's file name, or the empty string: what the
/// classifier dispatches on.
pub fn extension(path: &str) -> (r: String)
    ensures
        r@ == extension_of(path@),
{
    let parts = text::split_char(path, '/');
    proof {
        text::lemma_split_char_len(path@, '/');
        assert(parts.deep_view().last() == parts@[parts@.len() - 1]@);
    }
    let name = &parts[parts.len() - 1];
    let n = name.as_str().unicode_len();
    let mut last_dot: usize = 0;
    let mut j: usize = 1;
    while j < n
        invariant
            n == name@.len(),
            n >= 1 ==> 1 <= j <= n,
            n == 0 ==> j == 1,
            last_dot == 0 ==> forall|t: int| 1 <= t < j ==> name@[t] != '.',
            last_dot != 0 ==> 1 <= last_dot < j <= n && name@[last_dot as int] == '.' && forall|
                t: int,
            | last_dot < t < j ==> name@[t] != '.',
        decreases n - j,
    {
        if name.as_str().get_char(j) == '.' {
            last_dot = j;
        }
        j += 1;
    }
    if last_dot == 0 {
        proof {
            lemma_ext_none(name@);
        }
        String::new()
    } else {
        proof {
            lemma_ext_at(name@, last_dot as int);
        }
        name.as_str().substring_char(last_dot + 1, n).to_owned()
    }
}

/// How a relative path classifies: excluded paths and unknown extensions
/// yield nothing; otherwise the extension names the affected build stage.
pub open spec fn classify_spec(
    current_dir: Seq<char>,
    gitignore: Option<Seq<char>>,
    path: Seq<char>,
) -> Option<ChangeType> {
    if spec_is_ignored(current_dir, gitignore, path) {
        None
    } else if extension_of(path) == "rs"@ {
        Some(ChangeType::Rust)
    } else if extension_of(path) == "ts"@ {
        Some(ChangeType::TypeScript)
    } else if extension_of(path) == "css"@ {
        Some(ChangeType::Css)
    } else {
        None
    }
}

/// Classifies a relative path: native sources by the `rs` extension, web
/// sources by `ts`, stylesheets by `css`; excluded paths and every other
/// extension are discarded.
pub fn classify_file(config: &Config, path: &str) -> (r: Result<ChangeType, Error>)
    ensures
        classify_spec(config.current_dir@, config.gitignore.deep_view(), path@) matches Some(c)
            ==> (r matches Ok(rc) && rc == c),
        classify_spec(config.current_dir@, config.gitignore.deep_view(), path@) is None ==> (
        r matches Err(e) && e matches Error::IgnoredFileType(p) && p@ == path@),
{
    if is_ignored(config, path) {
        return Err(Error::IgnoredFileType(path.to_owned()));
    }
    let ext = extension(path);
    if text::str_eq(ext.as_str(), "rs") {
        Ok(ChangeType::Rust)
    } else if text::str_eq(ext.as_str(), "ts") {
        Ok(ChangeType::TypeScript)
    } else if text::str_eq(ext.as_str(), "css") {
        Ok(ChangeType::Css)
    } else {
        Err(Error::IgnoredFileType(path.to_owned()))
    }
}

/// Every change under a denylisted or dot-prefixed path component is
/// discarded, regardless of its extension and of any loaded ignore patterns.
pub proof fn lemma_denylist_discards(
    current_dir: Seq<char>,
    gitignore: Option<Seq<char>>,
    path: Seq<char>,
)
    requires
        ignored_by_component(path),
    ensures
        classify_spec(current_dir, gitignore, path) is None,
{
}

/// Handles one raw event: takes its primary path, resolves it relative to
/// the watched root, classifies it, and enqueues the resulting change. On
/// success it returns the classified change and whether a worker execution
/// must be handed off; every rejection leaves the configuration, the
/// scheduler included, untouched.
pub fn on_event(config: &mut Config, event: &Event) -> (r: Result<(ChangeType, bool), Error>)
    ensures
        !event_qualifies(event.kind) ==> (r matches Err(e) && e matches Error::IgnoredEvent(ev)
            && ev@ =~~= event@) && *final(config) == *old(config),
        event_qualifies(event.kind) && event@.paths.len() == 0 ==> (r matches Err(e) && e matches
            Error::EventFilePath(ev) && ev@ =~~= event@) && *final(config) == *old(config),
        event_qualifies(event.kind) && event@.paths.len() > 0 && text::strip_prefix_spec(
            event@.paths[0],
            old(config).current_dir@,
        ) is None ==> (r matches Err(e) && e matches Error::RelativePath(p) && p@
            == event@.paths[0]) && *final(config) == *old(config),
        event_qualifies(event.kind) && event@.paths.len() > 0 ==> (text::strip_prefix_spec(
            event@.paths[0],
            old(config).current_dir@,
        ) matches Some(rel) ==> {
            let verdict = classify_spec(
                old(config).current_dir@,
                old(config).gitignore.deep_view(),
                rel,
            );
            &&& (verdict is None ==> (r matches Err(e) && e matches Error::IgnoredFileType(p)
                && p@ == rel) && *final(config) == *old(config))
            &&& (verdict matches Some(c) ==> (r matches Ok(pair) && pair.0 == c && pair.1
                == !old(config).builder.sched().running)
                && final(config).builder.sched() == enqueue_step(old(config).builder.sched(), c)
                && final(config).builder.cfg() == old(config).builder.cfg()
                && final(config).current_dir == old(config).current_dir
                && final(config).gitignore == old(config).gitignore)
        }),
{
    let file_path = match filepath_from_event(event) {
        Ok(p) => p,
        Err(e) => {
            return Err(e);
        }
    };
    let rel_path = match text::strip_prefix(file_path.as_str(), config.current_dir.as_str()) {
        Some(p) => p,
        None => {
            return Err(Error::RelativePath(file_path));
        }
    };
    let change = match classify_file(config, rel_path.as_str()) {
        Ok(c) => c,
        Err(e) => {
            return Err(e);
        }
    };
    let started = config.builder.run(change);
    Ok((change, started))
}

} // verus!
