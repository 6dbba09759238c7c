//! Cache-busting asset hashing: each dist asset is identified by its URI,
//! hashed, and the short hash is substituted into source files that refer to
//! the asset with a `?hash=` query.
//!
//! Walking the dist tree and reading and writing files is the embedding
//! binary's part: it hands file lists and file contents in and writes the
//! rewritten contents back.

use vstd::prelude::*;

use crate::project_info::ProjectInfo;
use crate::text;
use crate::watch::extension_of;

verus! {

/// What the asset hasher works on.
pub struct Config {
    pub core_project_path_src: String,
    pub web_project_path_src: String,
    pub web_project_path_css: String,
    pub dist_path: String,
}

impl Config {
    /// Takes the directories the hasher needs from the discovered layout.
    pub fn from_project_info(project_info: &ProjectInfo) -> (r: Self)
        ensures
            r.core_project_path_src@ == project_info@.core_project_path + "/"@ + "src"@,
            r.web_project_path_src@ == project_info@.web_project_path + "/"@ + "src"@,
            r.web_project_path_css@ == project_info@.web_project_path + "/"@ + "css"@,
            r.dist_path@ == project_info@.dist_path,
    {
        Self {
            core_project_path_src: project_info.core_project_path_src(),
            web_project_path_src: project_info.web_project_path_src(),
            web_project_path_css: project_info.web_project_path_css(),
            dist_path: project_info.dist_path.clone(),
        }
    }
}

/// Rewrites asset references to carry the current content hashes.
pub struct AssetHasher {
    config: Config,
}

/// The mathematical content of an asset hasher.
#[verifier::ext_equal]
pub ghost struct AssetHasherView {
    pub core_project_path_src: Seq<char>,
    pub web_project_path_src: Seq<char>,
    pub web_project_path_css: Seq<char>,
    pub dist_path: Seq<char>,
}

impl View for AssetHasher {
    type V = AssetHasherView;

    closed spec fn view(&self) -> AssetHasherView {
        AssetHasherView {
            core_project_path_src: self.config.core_project_path_src@,
            web_project_path_src: self.config.web_project_path_src@,
            web_project_path_css: self.config.web_project_path_css@,
            dist_path: self.config.dist_path@,
        }
    }
}

/// Why hashing or rewriting failed.
#[derive(Debug)]
pub enum Error {
    ReadFile(String),
    OpenAssetFile(String),
    HashAssetFile(String),
    WriteSourceFile(String),
    StripPathPrefix,
    Regex,
}

/// One file under the dist directory: its path and the URI it is served
/// under.
#[derive(Debug, Clone)]
pub struct Asset {
    uri: String,
    path: String,
}

/// The mathematical content of an asset.
#[verifier::ext_equal]
pub ghost struct AssetView {
    pub uri: Seq<char>,
    pub path: Seq<char>,
}

impl View for Asset {
    type V = AssetView;

    closed spec fn view(&self) -> AssetView {
        AssetView { uri: self.uri@, path: self.path@ }
    }
}

impl DeepView for Asset {
    type V = AssetView;

    open spec fn deep_view(&self) -> AssetView {
        self.view()
    }
}

impl Asset {
    /// The URI the asset is served under.
    pub fn uri(&self) -> (r: &String)
        ensures
            r@ == self@.uri,
    {
        &self.uri
    }

    /// The path of the asset file.
    pub fn path(&self) -> (r: &String)
        ensures
            r@ == self@.path,
    {
        &self.path
    }
}

/// The SHA-256 digest of a byte string. It depends on the bytes alone.
pub uninterp spec fn sha256_digest(data: Seq<u8>) -> Seq<u8>;

/// Relies on `sha2::Sha256` through the `Digest` trait: the SHA-256 digest
/// of a byte string depends on the bytes alone and is 32 bytes long.
#[verifier::external_body]
fn sha256(data: &Vec<u8>) -> (r: Vec<u8>)
    ensures
        r@ == sha256_digest(data@),
        r@.len() == 32,
{
    <sha2::Sha256 as sha2::Digest>::digest(data.as_slice()).to_vec()
}

/// The lowercase hex digit of a value below 16.
pub open spec fn hex_digit(n: u8) -> char {
    if n == 0 {
        '0'
    } else if n == 1 {
        '1'
    } else if n == 2 {
        '2'
    } else if n == 3 {
        '3'
    } else if n == 4 {
        '4'
    } else if n == 5 {
        '5'
    } else if n == 6 {
        '6'
    } else if n == 7 {
        '7'
    } else if n == 8 {
        '8'
    } else if n == 9 {
        '9'
    } else if n == 10 {
        'a'
    } else if n == 11 {
        'b'
    } else if n == 12 {
        'c'
    } else if n == 13 {
        'd'
    } else if n == 14 {
        'e'
    } else {
        'f'
    }
}

/// The lowercase hex encoding of a byte string: two digits per byte, high
/// nibble first.
pub open spec fn hex_lower_of(bytes: Seq<u8>) -> Seq<char>
    decreases bytes.len(),
{
    if bytes.len() == 0 {
        Seq::empty()
    } else {
        hex_lower_of(bytes.drop_last()) + seq![
            hex_digit(bytes.last() / 16),
            hex_digit(bytes.last() % 16),
        ]
    }
}

/// Hex encoding yields two digits per byte.
pub proof fn lemma_hex_len(bytes: Seq<u8>)
    ensures
        hex_lower_of(bytes).len() == 2 * bytes.len(),
    decreases bytes.len(),
{
    if bytes.len() > 0 {
        lemma_hex_len(bytes.drop_last());
    }
}

/// Relies on `data_encoding::HEXLOWER.encode`: the lowercase hex encoding of
/// the bytes, two digits per byte, high nibble first.
#[verifier::external_body]
fn hex_lower(bytes: &Vec<u8>) -> (r: String)
    ensures
        r@ == hex_lower_of(bytes@),
{
    data_encoding::HEXLOWER.encode(bytes.as_slice())
}

/// Whether a regular-expression pattern compiles. It depends on the pattern
/// alone.
pub uninterp spec fn re_valid(pattern: Seq<char>) -> bool;

/// Relies on `regex::Regex::new`: whether a pattern compiles depends on the
/// pattern text alone.
#[verifier::external_body]
fn regex_is_valid(pattern: &str) -> (r: bool)
    ensures
        r == re_valid(pattern@),
{
    regex::Regex::new(pattern).is_ok()
}

/// The `hash` named group of the first match of a pattern in a text, if any.
/// It depends on the pattern and the text alone.
pub uninterp spec fn re_hash_capture(pattern: Seq<char>, text: Seq<char>) -> Option<Seq<char>>;

/// Relies on `regex::Regex::new`, `regex::Regex::captures` and
/// `regex::Captures::name`: the `hash` named group of the first match
/// depends on the pattern and the text alone. A pattern that does not
/// compile, or whose first match binds no such group, matches nothing.
#[verifier::external_body]
fn regex_capture_hash(pattern: &str, text: &str) -> (r: Option<String>)
    ensures
        re_valid(pattern@) ==> r.deep_view() == re_hash_capture(pattern@, text@),
        !re_valid(pattern@) ==> r is None,
{
    match regex::Regex::new(pattern) {
        Ok(re) => re.captures(text).and_then(
            |groups| groups.name("hash").map(|m| m.as_str().to_owned()),
        ),
        Err(_) => None,
    }
}

/// The pattern that finds an asset's URI with a `?hash=` query and captures
/// the hash.
pub open spec fn hash_pattern(uri: Seq<char>) -> Seq<char> {
    uri + "\\?hash=(?<hash>[a-zA-Z0-9]+)"@
}

/// An asset together with its content hash and the pattern that finds its
/// references.
#[derive(Debug, Clone)]
pub struct HashedAsset {
    asset: Asset,
    hash: String,
    pattern: String,
}

/// The mathematical content of a hashed asset.
#[verifier::ext_equal]
pub ghost struct HashedAssetView {
    pub asset: AssetView,
    pub hash: Seq<char>,
    pub pattern: Seq<char>,
}

impl View for HashedAsset {
    type V = HashedAssetView;

    closed spec fn view(&self) -> HashedAssetView {
        HashedAssetView { asset: self.asset@, hash: self.hash@, pattern: self.pattern@ }
    }
}

impl DeepView for HashedAsset {
    type V = HashedAssetView;

    open spec fn deep_view(&self) -> HashedAssetView {
        self.view()
    }
}

/// The short form of an asset's hash: its first seven hex digits.
pub open spec fn short_of(h: HashedAssetView) -> Seq<char> {
    h.hash.take(7)
}

impl HashedAsset {
    /// The asset's full content hash, in lowercase hex.
    pub fn hash(&self) -> (r: &String)
        ensures
            r@ == self@.hash,
    {
        &self.hash
    }

    /// The asset.
    pub fn asset(&self) -> (r: &Asset)
        ensures
            r@ == self@.asset,
    {
        &self.asset
    }

    /// The short form of the hash that is substituted into source files.
    pub fn short_hash(&self) -> (r: String)
        requires
            self@.hash.len() >= 7,
        ensures
            r@ == short_of(self@),
    {
        let r = self.hash.as_str().substring_char(0, 7).to_owned();
        proof {
            assert(self@.hash.subrange(0, 7) =~= self@.hash.take(7));
        }
        r
    }

    /// The hash an existing reference to this asset carries in the given
    /// line, if the line refers to it.
    pub fn extract_hash(&self, s: &str) -> (r: Option<String>)
        ensures
            re_valid(self@.pattern) ==> r.deep_view() == re_hash_capture(self@.pattern, s@),
            !re_valid(self@.pattern) ==> r is None,
    {
        regex_capture_hash(self.pattern.as_str(), s)
    }
}

/// The assets of a list of dist files: each file keyed by the URI it is
/// served under, which is its path relative to the dist directory behind a
/// leading slash. A file outside the dist directory yields nothing.
pub open spec fn dist_assets_spec(dist: Seq<char>, files: Seq<Seq<char>>) -> Option<Seq<AssetView>>
    decreases files.len(),
{
    if files.len() == 0 {
        Some(Seq::empty())
    } else {
        match dist_assets_spec(dist, files.drop_last()) {
            Some(rest) => match text::strip_prefix_spec(files.last(), dist) {
                Some(rel) => Some(
                    rest.push(AssetView { uri: "/"@ + rel, path: files.last() }),
                ),
                None => None,
            },
            None => None,
        }
    }
}

impl AssetHasher {
    /// Configures the asset hasher.
    pub fn new(config: Config) -> (r: AssetHasher)
        ensures
            r@ == (AssetHasherView {
                core_project_path_src: config.core_project_path_src@,
                web_project_path_src: config.web_project_path_src@,
                web_project_path_css: config.web_project_path_css@,
                dist_path: config.dist_path@,
            }),
    {
        AssetHasher { config }
    }

    /// The URI a dist file is served under: its path relative to the dist
    /// directory behind a leading slash.
    pub fn get_dist_uri(&self, dist_path: &str, path: &str) -> (r: Result<String, Error>)
        ensures
            text::strip_prefix_spec(path@, dist_path@) matches Some(rel) ==> (r matches Ok(uri)
                && uri@ == "/"@ + rel),
            text::strip_prefix_spec(path@, dist_path@) is None ==> (r matches Err(e)
                && e is StripPathPrefix),
    {
        match text::strip_prefix(path, dist_path) {
            Some(rel) => {
                let mut uri = "/".to_owned();
                uri.append(rel.as_str());
                Ok(uri)
            }
            None => Err(Error::StripPathPrefix),
        }
    }

    /// Keys each given dist file by its URI. The file list — the files found
    /// under the dist directory — comes from the embedding binary.
    pub fn collect_dist_assets(&self, dist_files: &Vec<String>) -> (r: Result<Vec<Asset>, Error>)
        ensures
            dist_assets_spec(self@.dist_path, dist_files.deep_view()) matches Some(avs) ==> (
            r matches Ok(assets) && assets.deep_view() =~~= avs),
            dist_assets_spec(self@.dist_path, dist_files.deep_view()) is None ==> (r matches Err(e)
                && e is StripPathPrefix),
    {
        let ghost fv = dist_files.deep_view();
        let mut assets: Vec<Asset> = Vec::new();
        let mut i: usize = 0;
        proof {
            assert(fv.take(0) =~= Seq::<Seq<char>>::empty());
        }
        while i < dist_files.len()
            invariant
                0 <= i <= dist_files.len(),
                fv == dist_files.deep_view(),
                fv.len() == dist_files.len(),
                dist_assets_spec(self@.dist_path, fv.take(i as int)) matches Some(avs)
                    && assets.deep_view() =~~= avs,
            decreases dist_files.len() - i,
        {
            let ghost pre = fv.take(i as int);
            proof {
                assert(fv.take(i as int + 1).drop_last() =~= pre);
                assert(fv.take(i as int + 1).last() == fv[i as int]);
                assert(fv[i as int] == dist_files@[i as int]@);
            }
            let path = &dist_files[i];
            let uri = match self.get_dist_uri(self.config.dist_path.as_str(), path.as_str()) {
                Ok(uri) => uri,
                Err(e) => {
                    proof {
                        assert(dist_assets_spec(self@.dist_path, fv.take(i as int + 1)) is None);
                        lemma_dist_assets_none_extends(self@.dist_path, fv, i as int + 1);
                    }
                    return Err(e);
                }
            };
            let ghost dv0 = assets.deep_view();
            assets.push(Asset { uri, path: path.clone() });
            proof {
                assert(assets.deep_view() =~= dv0.push(assets@[assets@.len() - 1]@));
            }
            i += 1;
        }
        proof {
            assert(fv.take(fv.len() as int) =~= fv);
        }
        Ok(assets)
    }

    /// Hashes one asset's content: the asset is keyed with the lowercase hex
    /// SHA-256 digest of its content, and the pattern that finds its
    /// references is built from its URI. A URI whose pattern is no valid
    /// regular expression is rejected. Reading the content is the embedding
    /// binary's part.
    pub fn hash_asset(&self, asset: Asset, content: &Vec<u8>) -> (r: Result<HashedAsset, Error>)
        ensures
            re_valid(hash_pattern(asset@.uri)) ==> (r matches Ok(h) && h@ == (HashedAssetView {
                asset: asset@,
                hash: hex_lower_of(sha256_digest(content@)),
                pattern: hash_pattern(asset@.uri),
            }) && h@.hash.len() == 64),
            !re_valid(hash_pattern(asset@.uri)) ==> (r matches Err(e) && e is Regex),
    {
        let mut pattern = asset.uri.clone();
        pattern.append("\\?hash=(?<hash>[a-zA-Z0-9]+)");
        if !regex_is_valid(pattern.as_str()) {
            return Err(Error::Regex);
        }
        let digest = sha256(content);
        let hash = hex_lower(&digest);
        proof {
            lemma_hex_len(digest@);
        }
        Ok(HashedAsset { asset, hash, pattern })
    }
}

proof fn lemma_dist_assets_none_extends(dist: Seq<char>, files: Seq<Seq<char>>, i: int)
    requires
        0 <= i <= files.len(),
        dist_assets_spec(dist, files.take(i)) is None,
    ensures
        dist_assets_spec(dist, files) is None,
    decreases files.len() - i,
{
    if i < files.len() {
        assert(files.take(i + 1).drop_last() =~= files.take(i));
        lemma_dist_assets_none_extends(dist, files, i + 1);
    } else {
        assert(files.take(i) =~= files);
    }
}

/// The result of applying one hashed asset to one line: if the line carries a
/// reference to the asset with an outdated hash, every occurrence of that
/// outdated hash in the line is replaced by the asset's short hash.
pub open spec fn line_step(line: Seq<char>, h: HashedAssetView) -> (Seq<char>, bool) {
    if re_valid(h.pattern) {
        match re_hash_capture(h.pattern, line) {
            Some(old_hash) => if old_hash != short_of(h) {
                (text::replace_seq(line, old_hash, short_of(h)), true)
            } else {
                (line, false)
            },
            None => (line, false),
        }
    } else {
        (line, false)
    }
}

/// One line after all hashed assets were applied in order, and whether any
/// of them changed it.
pub open spec fn process_line(line: Seq<char>, assets: Seq<HashedAssetView>) -> (Seq<char>, bool)
    decreases assets.len(),
{
    if assets.len() == 0 {
        (line, false)
    } else {
        let step = line_step(line, assets.first());
        let rest = process_line(step.0, assets.drop_first());
        (rest.0, step.1 || rest.1)
    }
}

/// All lines after the hashed assets were applied, and whether any line
/// changed.
pub open spec fn process_lines(ls: Seq<Seq<char>>, assets: Seq<HashedAssetView>) -> (
    Seq<Seq<char>>,
    bool,
)
    decreases ls.len(),
{
    if ls.len() == 0 {
        (Seq::empty(), false)
    } else {
        let rest = process_lines(ls.drop_last(), assets);
        let here = process_line(ls.last(), assets);
        (rest.0.push(here.0), rest.1 || here.1)
    }
}

/// A file's content after the hashed assets were applied line by line, the
/// lines joined back with line feeds, and whether anything changed.
pub open spec fn checksums_replaced(content: Seq<char>, assets: Seq<HashedAssetView>) -> (
    Seq<char>,
    bool,
) {
    let r = process_lines(text::lines_seq(content), assets);
    (text::join_with(r.0, "\n"@), r.1)
}

fn process_one_line(line: &str, assets: &Vec<HashedAsset>) -> (r: (String, bool))
    requires
        forall|k: int|
            0 <= k < assets.deep_view().len() ==> (#[trigger] assets.deep_view()[k]).hash.len()
                >= 7,
    ensures
        r.0@ == process_line(line@, assets.deep_view()).0,
        r.1 == process_line(line@, assets.deep_view()).1,
{
    let ghost dv = assets.deep_view();
    let mut cur = line.to_owned();
    let mut changed = false;
    let mut i: usize = 0;
    proof {
        assert(dv.skip(0) =~= dv);
    }
    while i < assets.len()
        invariant
            0 <= i <= assets.len(),
            dv == assets.deep_view(),
            dv.len() == assets.len(),
            forall|k: int| 0 <= k < dv.len() ==> (#[trigger] dv[k]).hash.len() >= 7,
            process_line(line@, dv).0 == process_line(cur@, dv.skip(i as int)).0,
            process_line(line@, dv).1 == (changed || process_line(cur@, dv.skip(i as int)).1),
        decreases assets.len() - i,
    {
        let ghost rem = dv.skip(i as int);
        proof {
            assert(rem.first() == dv[i as int]);
            assert(rem.drop_first() =~= dv.skip(i as int + 1));
            assert(dv[i as int] == assets@[i as int]@);
        }
        let asset = &assets[i];
        let short = asset.short_hash();
        match asset.extract_hash(cur.as_str()) {
            Some(old_hash) => {
                if !text::str_eq(old_hash.as_str(), short.as_str()) {
                    cur = text::replace(cur.as_str(), old_hash.as_str(), short.as_str());
                    changed = true;
                }
            }
            None => {}
        }
        i += 1;
    }
    proof {
        assert(dv.skip(dv.len() as int) =~= Seq::<HashedAssetView>::empty());
    }
    (cur, changed)
}

/// A file's content with every outdated asset reference rewritten to the
/// current short hash, and whether anything changed: the lines are processed
/// independently and joined back with line feeds.
pub fn replace_checksum_in_content(content: &str, assets: &Vec<HashedAsset>) -> (r: (String, bool))
    requires
        forall|k: int|
            0 <= k < assets.deep_view().len() ==> (#[trigger] assets.deep_view()[k]).hash.len()
                >= 7,
    ensures
        r.0@ == checksums_replaced(content@, assets.deep_view()).0,
        r.1 == checksums_replaced(content@, assets.deep_view()).1,
{
    let ghost dv = assets.deep_view();
    let ls = text::lines(content);
    let ghost lv = text::lines_seq(content@);
    let mut out: Vec<String> = Vec::new();
    let mut changed = false;
    let mut i: usize = 0;
    proof {
        assert(lv.take(0) =~= Seq::<Seq<char>>::empty());
    }
    while i < ls.len()
        invariant
            0 <= i <= ls.len(),
            dv == assets.deep_view(),
            lv == ls.deep_view(),
            lv.len() == ls.len(),
            forall|k: int| 0 <= k < dv.len() ==> (#[trigger] dv[k]).hash.len() >= 7,
            out.deep_view() == process_lines(lv.take(i as int), dv).0,
            changed == process_lines(lv.take(i as int), dv).1,
        decreases ls.len() - i,
    {
        proof {
            assert(lv.take(i as int + 1).drop_last() =~= lv.take(i as int));
            assert(lv.take(i as int + 1).last() == lv[i as int]);
            assert(lv[i as int] == ls@[i as int]@);
        }
        let (new_line, line_changed) = process_one_line(ls[i].as_str(), assets);
        let ghost dv0 = out.deep_view();
        out.push(new_line);
        proof {
            assert(out.deep_view() =~= dv0.push(process_line(lv[i as int], dv).0));
        }
        changed = changed || line_changed;
        i += 1;
    }
    proof {
        assert(lv.take(lv.len() as int) =~= lv);
    }
    let joined = text::join(&out, "\n");
    (joined, changed)
}

/// The keep-order filter of the paths whose extension is the given one.
pub open spec fn filtered_by_ext(paths: Seq<Seq<char>>, ext: Seq<char>) -> Seq<Seq<char>>
    decreases paths.len(),
{
    if paths.len() == 0 {
        Seq::empty()
    } else {
        let rest = filtered_by_ext(paths.drop_last(), ext);
        if extension_of(paths.last()) == ext {
            rest.push(paths.last())
        } else {
            rest
        }
    }
}

/// Keeps the paths with the given extension, in order. The path lists come
/// from the embedding binary's directory walks.
pub fn filter_paths_by_ext(paths: &Vec<String>, ext: &str) -> (r: Vec<String>)
    ensures
        r.deep_view() == filtered_by_ext(paths.deep_view(), ext@),
{
    let ghost pv = paths.deep_view();
    let mut out: Vec<String> = Vec::new();
    let mut i: usize = 0;
    proof {
        assert(pv.take(0) =~= Seq::<Seq<char>>::empty());
        assert(out.deep_view() =~= filtered_by_ext(pv.take(0), ext@));
    }
    while i < paths.len()
        invariant
            0 <= i <= paths.len(),
            pv == paths.deep_view(),
            pv.len() == paths.len(),
            out.deep_view() == filtered_by_ext(pv.take(i as int), ext@),
        decreases paths.len() - i,
    {
        proof {
            assert(pv.take(i as int + 1).drop_last() =~= pv.take(i as int));
            assert(pv.take(i as int + 1).last() == pv[i as int]);
            assert(pv[i as int] == paths@[i as int]@);
        }
        let path = &paths[i];
        let path_ext = crate::watch::extension(path.as_str());
        let ghost dv0 = out.deep_view();
        if text::str_eq(path_ext.as_str(), ext) {
            out.push(path.clone());
            proof {
                assert(out.deep_view() =~= dv0.push(pv[i as int]));
            }
        }
        i += 1;
    }
    proof {
        assert(pv.take(pv.len() as int) =~= pv);
    }
    out
}

} // verus!
