//! The preview server's decision logic: route parsing, request-path
//! matching, response-header parsing, and the listen port a dist path
//! determines.
//!
//! The server loop itself — sockets, request reading, file serving — is the
//! embedding binary's part.

use vstd::prelude::*;

use crate::text;
use crate::text::{lines_seq, split_char_seq, trim_seq};

verus! {

/// A command route: requests matching `path` are answered by running `cmd`.
#[derive(Debug, Clone)]
pub struct Route {
    pub path: String,
    pub cmd: String,
}

/// The mathematical content of a route.
#[verifier::ext_equal]
pub ghost struct RouteView {
    pub path: Seq<char>,
    pub cmd: Seq<char>,
}

impl View for Route {
    type V = RouteView;

    open spec fn view(&self) -> RouteView {
        RouteView { path: self.path@, cmd: self.cmd@ }
    }
}

impl DeepView for Route {
    type V = RouteView;

    open spec fn deep_view(&self) -> RouteView {
        self.view()
    }
}

/// What the preview server works on: the directory static files are served
/// from, the command routes, and extra response headers.
pub struct Config {
    pub static_base_path: String,
    pub routes: Vec<Route>,
    pub response_headers: Vec<String>,
}

/// The pieces of `s` between non-overlapping occurrences of `pat`, scanned
/// left to right, with `cur` the piece accumulated so far. An empty `pat`
/// yields the text as one piece.
pub open spec fn split_sub_rec(s: Seq<char>, pat: Seq<char>, cur: Seq<char>) -> Seq<Seq<char>>
    decreases s.len(),
{
    if s.len() == 0 {
        seq![cur]
    } else if 0 < pat.len() <= s.len() && s.subrange(0, pat.len() as int) == pat {
        seq![cur] + split_sub_rec(s.skip(pat.len() as int), pat, Seq::empty())
    } else {
        split_sub_rec(s.drop_first(), pat, cur.push(s.first()))
    }
}

/// The pieces of `s` between non-overlapping occurrences of `pat`.
pub open spec fn split_sub_seq(s: Seq<char>, pat: Seq<char>) -> Seq<Seq<char>> {
    split_sub_rec(s, pat, Seq::empty())
}

/// Splits `s` on every non-overlapping occurrence of `pat`.
pub fn split_sub(s: &str, pat: &str) -> (r: Vec<String>)
    ensures
        r.deep_view() == split_sub_seq(s@, pat@),
{
    let n = s.unicode_len();
    let m = pat.unicode_len();
    let mut out: Vec<String> = Vec::new();
    let mut cur = String::new();
    let mut i: usize = 0;
    proof {
        assert(s@.skip(0) =~= s@);
        assert(out.deep_view() =~= Seq::<Seq<char>>::empty());
        assert(out.deep_view() + split_sub_rec(s@, pat@, cur@) =~= split_sub_rec(s@, pat@, cur@));
    }
    while i < n
        invariant
            n == s@.len(),
            m == pat@.len(),
            0 <= i <= n,
            split_sub_seq(s@, pat@) == out.deep_view() + split_sub_rec(
                s@.skip(i as int),
                pat@,
                cur@,
            ),
        decreases n - i,
    {
        let ghost rem = s@.skip(i as int);
        let ghost dv0 = out.deep_view();
        let ghost cv0 = cur@;
        proof {
            assert(rem.first() == s@[i as int]);
            assert(rem.drop_first() =~= s@.skip(i as int + 1));
        }
        if 0 < m && m <= n - i && text::check_match_at(s, i, pat) {
            proof {
                assert(rem.subrange(0, m as int) =~= s@.subrange(i as int, i as int + m));
                assert(rem.skip(m as int) =~= s@.skip(i as int + m));
            }
            out.push(cur);
            cur = String::new();
            proof {
                assert(out.deep_view() =~= dv0.push(cv0));
                assert(dv0 + (seq![cv0] + split_sub_rec(s@.skip(i as int + m), pat@, Seq::empty()))
                    =~= dv0.push(cv0) + split_sub_rec(s@.skip(i as int + m), pat@, cur@));
            }
            i += m;
        } else {
            proof {
                if 0 < m <= rem.len() {
                    assert(rem.subrange(0, m as int) =~= s@.subrange(i as int, i as int + m));
                }
            }
            let piece = s.substring_char(i, i + 1);
            cur.append(piece);
            proof {
                assert(piece@ =~= seq![s@[i as int]]);
                assert(cur@ =~= cv0.push(s@[i as int]));
            }
            i += 1;
        }
    }
    proof {
        assert(s@.skip(n as int) =~= Seq::<char>::empty());
    }
    let ghost dv0 = out.deep_view();
    let ghost cv0 = cur@;
    out.push(cur);
    proof {
        assert(out.deep_view() =~= dv0.push(cv0));
        assert(dv0 + seq![cv0] =~= dv0.push(cv0));
    }
    out
}

/// The route one line of a routes file defines: the text left and right of a
/// single `=>`, trimmed; a line without exactly one `=>` defines no route.
pub open spec fn line_route(l: Seq<char>) -> Option<RouteView> {
    let parts = split_sub_seq(l, "=>"@);
    if parts.len() == 2 {
        Some(RouteView { path: trim_seq(parts[0]), cmd: trim_seq(parts[1]) })
    } else {
        None
    }
}

/// The routes a sequence of lines defines, in order.
pub open spec fn routes_of_lines(ls: Seq<Seq<char>>) -> Seq<RouteView>
    decreases ls.len(),
{
    if ls.len() == 0 {
        Seq::empty()
    } else {
        let rest = routes_of_lines(ls.drop_last());
        match line_route(ls.last()) {
            Some(r) => rest.push(r),
            None => rest,
        }
    }
}

/// The routes a routes-file text defines.
pub open spec fn routes_of(content: Seq<char>) -> Seq<RouteView> {
    routes_of_lines(lines_seq(content))
}

/// Parses a routes-file text: one route per line of the form
/// `path => command`. Reading the file is the embedding binary's part.
pub fn parse_routes(content: &str) -> (r: Vec<Route>)
    ensures
        r.deep_view() =~~= routes_of(content@),
{
    let ls = text::lines(content);
    let ghost lv = lines_seq(content@);
    let mut out: Vec<Route> = Vec::new();
    let mut i: usize = 0;
    proof {
        assert(lv.take(0) =~= Seq::<Seq<char>>::empty());
    }
    while i < ls.len()
        invariant
            0 <= i <= ls.len(),
            lv == ls.deep_view(),
            lv.len() == ls.len(),
            out.deep_view() =~~= routes_of_lines(lv.take(i as int)),
        decreases ls.len() - i,
    {
        proof {
            assert(lv.take(i as int + 1).drop_last() =~= lv.take(i as int));
            assert(lv.take(i as int + 1).last() == lv[i as int]);
            assert(lv[i as int] == ls@[i as int]@);
        }
        let parts = split_sub(ls[i].as_str(), "=>");
        let ghost dv0 = out.deep_view();
        if parts.len() == 2 {
            proof {
                assert(parts.deep_view()[0] == parts@[0]@);
                assert(parts.deep_view()[1] == parts@[1]@);
            }
            let route = Route { path: text::trim(parts[0].as_str()), cmd: text::trim(
                parts[1].as_str(),
            ) };
            out.push(route);
            proof {
                assert(out.deep_view() =~~= dv0.push(line_route(lv[i as int])->Some_0));
            }
        }
        i += 1;
    }
    proof {
        assert(lv.take(lv.len() as int) =~= lv);
    }
    out
}

/// Whether a request path's pieces match a route path's pieces: same number
/// of pieces, each equal or matched by the `*` wildcard in the route.
pub open spec fn parts_match(req: Seq<Seq<char>>, route: Seq<Seq<char>>) -> bool {
    req.len() == route.len() && forall|i: int|
        0 <= i < req.len() ==> (req[i] == route[i] || #[trigger] route[i] == "*"@)
}

/// Whether the request path pieces match the route path pieces, piece by
/// piece, with `*` in the route matching any piece.
pub fn compare_path_paths(req_parts: &Vec<String>, route_parts: &Vec<String>) -> (r: bool)
    ensures
        r == parts_match(req_parts.deep_view(), route_parts.deep_view()),
{
    if req_parts.len() != route_parts.len() {
        return false;
    }
    let mut i: usize = 0;
    while i < req_parts.len()
        invariant
            0 <= i <= req_parts.len(),
            req_parts.deep_view().len() == req_parts.len(),
            route_parts.deep_view().len() == route_parts.len(),
            req_parts.len() == route_parts.len(),
            forall|k: int|
                0 <= k < i ==> (req_parts.deep_view()[k] == route_parts.deep_view()[k]
                    || #[trigger] route_parts.deep_view()[k] == "*"@),
        decreases req_parts.len() - i,
    {
        proof {
            assert(req_parts.deep_view()[i as int] == req_parts@[i as int]@);
            assert(route_parts.deep_view()[i as int] == route_parts@[i as int]@);
        }
        if !(text::str_eq(req_parts[i].as_str(), route_parts[i].as_str()) || text::str_eq(
            route_parts[i].as_str(),
            "*",
        )) {
            return false;
        }
        i += 1;
    }
    true
}

/// `s` without its leading occurrences of `c`.
pub open spec fn trim_char_start(s: Seq<char>, c: char) -> Seq<char>
    decreases s.len(),
{
    if s.len() > 0 && s.first() == c {
        trim_char_start(s.drop_first(), c)
    } else {
        s
    }
}

/// `s` without its trailing occurrences of `c`.
pub open spec fn trim_char_end(s: Seq<char>, c: char) -> Seq<char>
    decreases s.len(),
{
    if s.len() > 0 && s.last() == c {
        trim_char_end(s.drop_last(), c)
    } else {
        s
    }
}

proof fn lemma_trim_char_start_skip(s: Seq<char>, c: char, a: int)
    requires
        0 <= a <= s.len(),
        forall|k: int| 0 <= k < a ==> s[k] == c,
        a < s.len() ==> s[a] != c,
    ensures
        trim_char_start(s, c) == s.skip(a),
    decreases a,
{
    if a == 0 {
        assert(s.skip(0) =~= s);
    } else {
        lemma_trim_char_start_skip(s.drop_first(), c, a - 1);
        assert(s.drop_first().skip(a - 1) =~= s.skip(a));
    }
}

proof fn lemma_trim_char_end_take(s: Seq<char>, c: char, b: int)
    requires
        0 <= b <= s.len(),
        forall|k: int| b <= k < s.len() ==> s[k] == c,
        b > 0 ==> s[b - 1] != c,
    ensures
        trim_char_end(s, c) == s.take(b),
    decreases s.len() - b,
{
    if b == s.len() {
        assert(s.take(b) =~= s);
    } else {
        lemma_trim_char_end_take(s.drop_last(), c, b);
        assert(s.drop_last().take(b) =~= s.take(b));
    }
}

/// The pieces of a request path: the path without leading and trailing
/// slashes, split on `/`. Empty pieces between doubled slashes are kept.
pub open spec fn path_parts(s: Seq<char>) -> Seq<Seq<char>> {
    split_char_seq(trim_char_end(trim_char_start(s, '/'), '/'), '/')
}

/// Splits a request or route path into its pieces.
pub fn path_to_parts(s: &str) -> (r: Vec<String>)
    ensures
        r.deep_view() == path_parts(s@),
{
    let n = s.unicode_len();
    let mut a: usize = 0;
    while a < n && s.get_char(a) == '/'
        invariant
            n == s@.len(),
            0 <= a <= n,
            forall|k: int| 0 <= k < a ==> s@[k] == '/',
        decreases n - a,
    {
        a += 1;
    }
    let mut b: usize = n;
    while b > a && s.get_char(b - 1) == '/'
        invariant
            n == s@.len(),
            a <= b <= n,
            forall|k: int| 0 <= k < a ==> s@[k] == '/',
            a < n ==> s@[a as int] != '/',
            forall|k: int| b <= k < n ==> s@[k] == '/',
        decreases b,
    {
        b -= 1;
    }
    proof {
        lemma_trim_char_start_skip(s@, '/', a as int);
        let t = s@.skip(a as int);
        lemma_trim_char_end_take(t, '/', b - a);
        assert(t.take(b - a) =~= s@.subrange(a as int, b as int));
    }
    let trimmed = s.substring_char(a, b);
    text::split_char(trimmed, '/')
}

/// The first route whose path pieces match the request path's pieces.
pub open spec fn match_route_spec(routes: Seq<RouteView>, req_path: Seq<char>) -> Option<RouteView>
    decreases routes.len(),
{
    if routes.len() == 0 {
        None
    } else if parts_match(path_parts(req_path), path_parts(routes.first().path)) {
        Some(routes.first())
    } else {
        match_route_spec(routes.drop_first(), req_path)
    }
}

/// The first configured route matching the request path, if any.
pub fn match_route(config: &Config, req_path: &str) -> (r: Option<Route>)
    ensures
        r.deep_view() == match_route_spec(config.routes.deep_view(), req_path@),
{
    let ghost rv = config.routes.deep_view();
    let req_parts = path_to_parts(req_path);
    let mut i: usize = 0;
    proof {
        assert(rv.skip(0) =~= rv);
    }
    while i < config.routes.len()
        invariant
            0 <= i <= config.routes.len(),
            rv == config.routes.deep_view(),
            rv.len() == config.routes.len(),
            req_parts.deep_view() == path_parts(req_path@),
            match_route_spec(rv, req_path@) == match_route_spec(rv.skip(i as int), req_path@),
        decreases config.routes.len() - i,
    {
        let ghost rem = rv.skip(i as int);
        proof {
            assert(rem.first() == rv[i as int]);
            assert(rem.drop_first() =~= rv.skip(i as int + 1));
            assert(rv[i as int] == config.routes@[i as int]@);
        }
        let route = &config.routes[i];
        let route_parts = path_to_parts(route.path.as_str());
        if compare_path_paths(&req_parts, &route_parts) {
            let found = Route { path: route.path.clone(), cmd: route.cmd.clone() };
            return Some(found);
        }
        i += 1;
    }
    proof {
        assert(rv.skip(rv.len() as int) =~= Seq::<RouteView>::empty());
    }
    None
}

/// The header name and value one configured header line defines: the text
/// left and right of a single colon, trimmed; a line without exactly one
/// colon defines nothing.
pub open spec fn header_pair(l: Seq<char>) -> Option<(Seq<char>, Seq<char>)> {
    let parts = split_char_seq(l, ':');
    if parts.len() == 2 {
        Some((trim_seq(parts[0]), trim_seq(parts[1])))
    } else {
        None
    }
}

/// The header pairs a list of configured header lines defines, in order.
pub open spec fn header_pairs_of(hs: Seq<Seq<char>>) -> Seq<(Seq<char>, Seq<char>)>
    decreases hs.len(),
{
    if hs.len() == 0 {
        Seq::empty()
    } else {
        let rest = header_pairs_of(hs.drop_last());
        match header_pair(hs.last()) {
            Some(p) => rest.push(p),
            None => rest,
        }
    }
}

/// Parses the configured extra response headers into name/value pairs.
pub fn parse_header_pairs(headers: &Vec<String>) -> (r: Vec<(String, String)>)
    ensures
        r.deep_view() =~~= header_pairs_of(headers.deep_view()),
{
    let ghost hv = headers.deep_view();
    let mut out: Vec<(String, String)> = Vec::new();
    let mut i: usize = 0;
    proof {
        assert(hv.take(0) =~= Seq::<Seq<char>>::empty());
    }
    while i < headers.len()
        invariant
            0 <= i <= headers.len(),
            hv == headers.deep_view(),
            hv.len() == headers.len(),
            out.deep_view() =~~= header_pairs_of(hv.take(i as int)),
        decreases headers.len() - i,
    {
        proof {
            assert(hv.take(i as int + 1).drop_last() =~= hv.take(i as int));
            assert(hv.take(i as int + 1).last() == hv[i as int]);
            assert(hv[i as int] == headers@[i as int]@);
        }
        let parts = text::split_char(headers[i].as_str(), ':');
        let ghost dv0 = out.deep_view();
        if parts.len() == 2 {
            proof {
                assert(parts.deep_view()[0] == parts@[0]@);
                assert(parts.deep_view()[1] == parts@[1]@);
            }
            let pair = (text::trim(parts[0].as_str()), text::trim(parts[1].as_str()));
            out.push(pair);
            proof {
                assert(out.deep_view() =~~= dv0.push(header_pair(hv[i as int])->Some_0));
            }
        }
        i += 1;
    }
    proof {
        assert(hv.take(hv.len() as int) =~= hv);
    }
    out
}

/// Whether a character is an ASCII letter or digit.
pub open spec fn is_alnum(c: char) -> bool {
    ('0' <= c <= '9') || ('a' <= c <= 'z') || ('A' <= c <= 'Z')
}

/// The base-36 value of an ASCII letter or digit, case-insensitively; other
/// characters count zero.
pub open spec fn digit36(c: char) -> int {
    if '0' <= c <= '9' {
        c as int - '0' as int
    } else if 'a' <= c <= 'z' {
        c as int - 'a' as int + 10
    } else if 'A' <= c <= 'Z' {
        c as int - 'A' as int + 10
    } else {
        0
    }
}

/// The sum of the base-36 values of the alphanumeric characters of `s`.
pub open spec fn port_sum(s: Seq<char>) -> int
    decreases s.len(),
{
    if s.len() == 0 {
        0
    } else {
        port_sum(s.drop_last()) + (if is_alnum(s.last()) {
            digit36(s.last())
        } else {
            0
        })
    }
}

/// The port the preview server listens on: derived from the static base
/// path, in the range 8000 to 8999.
pub fn listen_port_from_str(s: &str) -> (r: u32)
    ensures
        r == 8000 + port_sum(s@) % 1000,
        8000 <= r <= 8999,
{
    let n = s.unicode_len();
    let mut acc: u32 = 0;
    let mut i: usize = 0;
    proof {
        assert(s@.take(0) =~= Seq::<char>::empty());
    }
    while i < n
        invariant
            n == s@.len(),
            0 <= i <= n,
            acc < 1000,
            acc == port_sum(s@.take(i as int)) % 1000,
        decreases n - i,
    {
        let ghost pre = s@.take(i as int);
        proof {
            assert(s@.take(i as int + 1).drop_last() =~= pre);
            assert(s@.take(i as int + 1).last() == s@[i as int]);
        }
        let c = s.get_char(i);
        let d: u32 = if '0' <= c && c <= '9' {
            (c as u32) - 48
        } else if 'a' <= c && c <= 'z' {
            (c as u32) - 97 + 10
        } else if 'A' <= c && c <= 'Z' {
            (c as u32) - 65 + 10
        } else {
            0
        };
        proof {
            let total = port_sum(pre);
            vstd::arithmetic::div_mod::lemma_add_mod_noop(total, d as int, 1000);
            assert(d as int % 1000 == d as int);
            assert((total % 1000 + d as int) % 1000 == (total + d as int) % 1000);
        }
        acc = (acc + d) % 1000;
        i += 1;
    }
    proof {
        assert(s@.take(n as int) =~= s@);
    }
    8000 + acc
}

} // verus!
