//! Verified text utilities: substring search, replacement, splitting and
//! trimming over `Seq<char>` views.

use vstd::prelude::*;

verus! {

/// `pat` occurs in `s` at position `i`.
pub open spec fn matches_at(s: Seq<char>, i: int, pat: Seq<char>) -> bool {
    0 <= i && i + pat.len() <= s.len() && s.subrange(i, i + pat.len()) == pat
}

/// `pat` occurs somewhere in `s`.
pub open spec fn contains_seq(s: Seq<char>, pat: Seq<char>) -> bool {
    exists|i: int| matches_at(s, i, pat)
}

/// `s` begins with `pat`.
pub open spec fn starts_with_seq(s: Seq<char>, pat: Seq<char>) -> bool {
    matches_at(s, 0, pat)
}

/// `s` ends with `pat`.
pub open spec fn ends_with_seq(s: Seq<char>, pat: Seq<char>) -> bool {
    pat.len() <= s.len() && matches_at(s, s.len() - pat.len(), pat)
}

/// `s` with every non-overlapping occurrence of `from`, scanned left to
/// right, replaced by `to`; `s` unchanged when `from` is empty.
pub open spec fn replace_seq(s: Seq<char>, from: Seq<char>, to: Seq<char>) -> Seq<char>
    decreases s.len(),
{
    if from.len() == 0 || s.len() < from.len() {
        s
    } else if s.subrange(0, from.len() as int) == from {
        to + replace_seq(s.skip(from.len() as int), from, to)
    } else {
        seq![s[0]] + replace_seq(s.skip(1), from, to)
    }
}

/// Whether `pat` occurs in `s` at position `i`.
pub fn check_match_at(s: &str, i: usize, pat: &str) -> (r: bool)
    requires
        i + pat@.len() <= s@.len(),
    ensures
        r == matches_at(s@, i as int, pat@),
{
    let n = s.unicode_len();
    let m = pat.unicode_len();
    let mut j: usize = 0;
    while j < m
        invariant
            0 <= j <= m,
            n == s@.len(),
            m == pat@.len(),
            i + m <= n,
            forall|k: int| 0 <= k < j ==> s@[i + k] == pat@[k],
        decreases m - j,
    {
        if s.get_char(i + j) != pat.get_char(j) {
            proof {
                assert(s@.subrange(i as int, i as int + pat@.len()) != pat@) by {
                    assert(s@.subrange(i as int, i as int + pat@.len())[j as int] == s@[i + j]);
                }
            }
            return false;
        }
        j += 1;
    }
    proof {
        assert(s@.subrange(i as int, i as int + pat@.len()) =~= pat@);
    }
    true
}

/// The position of the first occurrence of `pat` in `s`, if any.
pub fn find_sub(s: &str, pat: &str) -> (r: Option<usize>)
    ensures
        r matches Some(j) ==> matches_at(s@, j as int, pat@) && forall|k: int|
            0 <= k < j ==> !matches_at(s@, k, pat@),
        r is None ==> forall|k: int| !matches_at(s@, k, pat@),
{
    let n = s.unicode_len();
    let m = pat.unicode_len();
    if m > n {
        return None;
    }
    if m == 0 {
        proof {
            assert(s@.subrange(0, 0) =~= pat@);
        }
        return Some(0);
    }
    let mut i: usize = 0;
    while i <= n - m
        invariant
            n == s@.len(),
            m == pat@.len(),
            0 < m <= n,
            0 <= i <= n - m + 1,
            forall|k: int| 0 <= k < i ==> !matches_at(s@, k, pat@),
        decreases n + 1 - i,
    {
        if check_match_at(s, i, pat) {
            return Some(i);
        }
        i += 1;
    }
    None
}

/// Whether `pat` occurs anywhere in `s`.
pub fn contains_sub(s: &str, pat: &str) -> (r: bool)
    ensures
        r == contains_seq(s@, pat@),
{
    match find_sub(s, pat) {
        Some(i) => {
            proof {
                assert(matches_at(s@, i as int, pat@));
            }
            true
        }
        None => false,
    }
}

/// Whether `s` begins with `pat`.
pub fn starts_with(s: &str, pat: &str) -> (r: bool)
    ensures
        r == starts_with_seq(s@, pat@),
{
    let n = s.unicode_len();
    let m = pat.unicode_len();
    if m > n {
        return false;
    }
    check_match_at(s, 0, pat)
}

/// Whether `s` ends with `pat`.
pub fn ends_with(s: &str, pat: &str) -> (r: bool)
    ensures
        r == ends_with_seq(s@, pat@),
{
    let n = s.unicode_len();
    let m = pat.unicode_len();
    if m > n {
        return false;
    }
    check_match_at(s, n - m, pat)
}

/// `s` with every occurrence of `from` replaced by `to`, scanning left to
/// right without overlap; `s` unchanged when `from` is empty.
pub fn replace(s: &str, from: &str, to: &str) -> (r: String)
    ensures
        r@ == replace_seq(s@, from@, to@),
{
    let n = s.unicode_len();
    let m = from.unicode_len();
    if m == 0 {
        return s.to_owned();
    }
    let mut out = String::new();
    let mut i: usize = 0;
    proof {
        assert(s@.skip(0) =~= s@);
        assert(out@ + replace_seq(s@, from@, to@) =~= replace_seq(s@, from@, to@));
    }
    while i < n
        invariant
            n == s@.len(),
            m == from@.len(),
            m > 0,
            0 <= i <= n,
            out@ + replace_seq(s@.skip(i as int), from@, to@) == replace_seq(s@, from@, to@),
        decreases n - i,
    {
        let ghost rem = s@.skip(i as int);
        if m <= n - i && check_match_at(s, i, from) {
            proof {
                assert(rem.subrange(0, m as int) =~= s@.subrange(i as int, i as int + m));
                assert(rem.skip(m as int) =~= s@.skip(i as int + m));
                assert(replace_seq(rem, from@, to@) == to@ + replace_seq(
                    s@.skip(i as int + m),
                    from@,
                    to@,
                ));
            }
            out.append(to);
            i += m;
        } else {
            proof {
                if rem.len() >= m {
                    assert(rem.subrange(0, m as int) =~= s@.subrange(i as int, i as int + m));
                    assert(rem.subrange(0, m as int) != from@);
                    assert(rem.skip(1) =~= s@.skip(i as int + 1));
                    assert(replace_seq(rem, from@, to@) == seq![rem[0]] + replace_seq(
                        s@.skip(i as int + 1),
                        from@,
                        to@,
                    ));
                } else {
                    assert(replace_seq(rem, from@, to@) == rem);
                    assert(rem.skip(1) =~= s@.skip(i as int + 1));
                    assert(replace_seq(s@.skip(i as int + 1), from@, to@) == s@.skip(i as int + 1));
                }
                assert(seq![rem[0]] =~= s@.subrange(i as int, i as int + 1));
            }
            let c = s.substring_char(i, i + 1);
            out.append(c);
            i += 1;
        }
    }
    proof {
        assert(s@.skip(n as int) =~= Seq::<char>::empty());
        assert(replace_seq(s@.skip(n as int), from@, to@) == Seq::<char>::empty());
        assert(out@ =~= out@ + Seq::<char>::empty());
    }
    out
}

/// The pieces of `s` between occurrences of `sep`, with `cur` the piece
/// accumulated so far: the recursion scheme of splitting on one character.
pub open spec fn split_char_rec(s: Seq<char>, sep: char, cur: Seq<char>) -> Seq<Seq<char>>
    decreases s.len(),
{
    if s.len() == 0 {
        seq![cur]
    } else if s.first() == sep {
        seq![cur] + split_char_rec(s.drop_first(), sep, Seq::empty())
    } else {
        split_char_rec(s.drop_first(), sep, cur.push(s.first()))
    }
}

/// The pieces of `s` between occurrences of `sep`; empty pieces are kept, and
/// an empty `s` yields one empty piece.
pub open spec fn split_char_seq(s: Seq<char>, sep: char) -> Seq<Seq<char>> {
    split_char_rec(s, sep, Seq::empty())
}

/// Splits `s` on every occurrence of `sep`.
pub fn split_char(s: &str, sep: char) -> (r: Vec<String>)
    ensures
        r.deep_view() == split_char_seq(s@, sep),
{
    let n = s.unicode_len();
    let mut out: Vec<String> = Vec::new();
    let mut cur = String::new();
    let mut i: usize = 0;
    proof {
        assert(s@.skip(0) =~= s@);
        assert(out.deep_view() =~= Seq::<Seq<char>>::empty());
        assert(out.deep_view() + split_char_rec(s@, sep, cur@) =~= split_char_rec(s@, sep, cur@));
    }
    while i < n
        invariant
            n == s@.len(),
            0 <= i <= n,
            split_char_seq(s@, sep) == out.deep_view() + split_char_rec(
                s@.skip(i as int),
                sep,
                cur@,
            ),
        decreases n - i,
    {
        let ghost rem = s@.skip(i as int);
        let ghost dv0 = out.deep_view();
        let ghost cv0 = cur@;
        proof {
            assert(rem.first() == s@[i as int]);
            assert(rem.drop_first() =~= s@.skip(i as int + 1));
        }
        let c = s.get_char(i);
        if c == sep {
            out.push(cur);
            cur = String::new();
            proof {
                assert(out.deep_view() =~= dv0.push(cv0));
                assert(dv0 + (seq![cv0] + split_char_rec(rem.drop_first(), sep, Seq::empty()))
                    =~= dv0.push(cv0) + split_char_rec(s@.skip(i as int + 1), sep, cur@));
            }
        } else {
            let piece = s.substring_char(i, i + 1);
            cur.append(piece);
            proof {
                assert(piece@ =~= seq![s@[i as int]]);
                assert(cur@ =~= cv0.push(s@[i as int]));
            }
        }
        i += 1;
    }
    proof {
        assert(s@.skip(n as int) =~= Seq::<char>::empty());
    }
    let ghost dv0 = out.deep_view();
    let ghost cv0 = cur@;
    out.push(cur);
    proof {
        assert(out.deep_view() =~= dv0.push(cv0));
        assert(dv0 + seq![cv0] =~= dv0.push(cv0));
    }
    out
}

/// The non-empty pieces of `parts`, in order.
pub open spec fn keep_non_empty(parts: Seq<Seq<char>>) -> Seq<Seq<char>>
    decreases parts.len(),
{
    if parts.len() == 0 {
        Seq::empty()
    } else {
        let rest = keep_non_empty(parts.drop_last());
        if parts.last().len() > 0 {
            rest.push(parts.last())
        } else {
            rest
        }
    }
}

/// Drops the empty strings from `parts`.
pub fn non_empty_parts(parts: &Vec<String>) -> (r: Vec<String>)
    ensures
        r.deep_view() == keep_non_empty(parts.deep_view()),
{
    let mut out: Vec<String> = Vec::new();
    let mut i: usize = 0;
    proof {
        assert(parts.deep_view().take(0) =~= Seq::<Seq<char>>::empty());
        assert(out.deep_view() =~= keep_non_empty(parts.deep_view().take(0)));
    }
    while i < parts.len()
        invariant
            0 <= i <= parts.len(),
            parts.deep_view().len() == parts.len(),
            out.deep_view() == keep_non_empty(parts.deep_view().take(i as int)),
        decreases parts.len() - i,
    {
        let ghost dv0 = out.deep_view();
        let ghost pre = parts.deep_view().take(i as int);
        proof {
            assert(parts.deep_view().take(i as int + 1).drop_last() =~= pre);
            assert(parts.deep_view().take(i as int + 1).last() == parts.deep_view()[i as int]);
            assert(parts.deep_view()[i as int] == parts@[i as int]@);
        }
        let part = &parts[i];
        if part.as_str().unicode_len() > 0 {
            out.push(part.clone());
            proof {
                assert(out.deep_view() =~= dv0.push(parts.deep_view()[i as int]));
            }
        }
        i += 1;
    }
    proof {
        assert(parts.deep_view().take(parts.deep_view().len() as int) =~= parts.deep_view());
    }
    out
}

/// `parts` joined with `sep` between consecutive pieces.
pub open spec fn join_with(parts: Seq<Seq<char>>, sep: Seq<char>) -> Seq<char>
    decreases parts.len(),
{
    if parts.len() == 0 {
        Seq::empty()
    } else if parts.len() == 1 {
        parts[0]
    } else {
        join_with(parts.drop_last(), sep) + sep + parts.last()
    }
}

/// Joins `parts` with `sep` between consecutive pieces.
pub fn join(parts: &Vec<String>, sep: &str) -> (r: String)
    ensures
        r@ == join_with(parts.deep_view(), sep@),
{
    let mut out = String::new();
    let mut i: usize = 0;
    proof {
        assert(parts.deep_view().take(0) =~= Seq::<Seq<char>>::empty());
        assert(out@ =~= join_with(parts.deep_view().take(0), sep@));
    }
    while i < parts.len()
        invariant
            0 <= i <= parts.len(),
            parts.deep_view().len() == parts.len(),
            out@ == join_with(parts.deep_view().take(i as int), sep@),
        decreases parts.len() - i,
    {
        proof {
            assert(parts.deep_view().take(i as int + 1).drop_last() =~= parts.deep_view().take(
                i as int,
            ));
            assert(parts.deep_view().take(i as int + 1).last() == parts.deep_view()[i as int]);
            assert(parts.deep_view()[i as int] == parts@[i as int]@);
        }
        if i > 0 {
            out.append(sep);
        }
        out.append(parts[i].as_str());
        proof {
            if i == 0 {
                assert(parts.deep_view().take(1)[0] == parts.deep_view()[0]);
            }
        }
        i += 1;
    }
    proof {
        assert(parts.deep_view().take(parts.deep_view().len() as int) =~= parts.deep_view());
    }
    out
}

/// A whitespace character, as the Unicode White_Space property defines it:
/// the ASCII controls and space, next line, no-break space, ogham space
/// mark, the en-quad family, the line and paragraph separators, narrow and
/// medium mathematical spaces, and the ideographic space.
pub open spec fn is_space_char(c: char) -> bool {
    ||| ('\u{0009}' <= c <= '\u{000D}')
    ||| c == ' '
    ||| c == '\u{0085}'
    ||| c == '\u{00A0}'
    ||| c == '\u{1680}'
    ||| ('\u{2000}' <= c <= '\u{200A}')
    ||| c == '\u{2028}'
    ||| c == '\u{2029}'
    ||| c == '\u{202F}'
    ||| c == '\u{205F}'
    ||| c == '\u{3000}'
}

/// The pieces of `s` between whitespace characters, with `cur` the piece
/// accumulated so far.
pub open spec fn split_space_rec(s: Seq<char>, cur: Seq<char>) -> Seq<Seq<char>>
    decreases s.len(),
{
    if s.len() == 0 {
        seq![cur]
    } else if is_space_char(s.first()) {
        seq![cur] + split_space_rec(s.drop_first(), Seq::empty())
    } else {
        split_space_rec(s.drop_first(), cur.push(s.first()))
    }
}

/// The whitespace-separated words of `s`, in order, without empty pieces.
pub open spec fn space_tokens_seq(s: Seq<char>) -> Seq<Seq<char>> {
    keep_non_empty(split_space_rec(s, Seq::empty()))
}

/// Splits `s` into its whitespace-separated words.
pub fn space_tokens(s: &str) -> (r: Vec<String>)
    ensures
        r.deep_view() == space_tokens_seq(s@),
{
    let n = s.unicode_len();
    let mut raw: Vec<String> = Vec::new();
    let mut cur = String::new();
    let mut i: usize = 0;
    proof {
        assert(s@.skip(0) =~= s@);
        assert(raw.deep_view() =~= Seq::<Seq<char>>::empty());
        assert(raw.deep_view() + split_space_rec(s@, cur@) =~= split_space_rec(s@, cur@));
    }
    while i < n
        invariant
            n == s@.len(),
            0 <= i <= n,
            split_space_rec(s@, Seq::empty()) == raw.deep_view() + split_space_rec(
                s@.skip(i as int),
                cur@,
            ),
        decreases n - i,
    {
        let ghost rem = s@.skip(i as int);
        let ghost dv0 = raw.deep_view();
        let ghost cv0 = cur@;
        proof {
            assert(rem.first() == s@[i as int]);
            assert(rem.drop_first() =~= s@.skip(i as int + 1));
        }
        let c = s.get_char(i);
        if is_space(c) {
            raw.push(cur);
            cur = String::new();
            proof {
                assert(raw.deep_view() =~= dv0.push(cv0));
                assert(dv0 + (seq![cv0] + split_space_rec(rem.drop_first(), Seq::empty()))
                    =~= dv0.push(cv0) + split_space_rec(s@.skip(i as int + 1), cur@));
            }
        } else {
            let piece = s.substring_char(i, i + 1);
            cur.append(piece);
            proof {
                assert(piece@ =~= seq![s@[i as int]]);
                assert(cur@ =~= cv0.push(s@[i as int]));
            }
        }
        i += 1;
    }
    proof {
        assert(s@.skip(n as int) =~= Seq::<char>::empty());
    }
    let ghost dv0 = raw.deep_view();
    let ghost cv0 = cur@;
    raw.push(cur);
    proof {
        assert(raw.deep_view() =~= dv0.push(cv0));
        assert(dv0 + seq![cv0] =~= dv0.push(cv0));
    }
    non_empty_parts(&raw)
}

/// Whether two strings hold the same characters.
pub fn str_eq(a: &str, b: &str) -> (r: bool)
    ensures
        r == (a@ == b@),
{
    let n = a.unicode_len();
    let m = b.unicode_len();
    if n != m {
        return false;
    }
    let r = check_match_at(a, 0, b);
    proof {
        assert(a@.subrange(0, n as int) =~= a@);
    }
    r
}

/// `s` without its leading whitespace.
pub open spec fn trim_start_seq(s: Seq<char>) -> Seq<char>
    decreases s.len(),
{
    if s.len() > 0 && is_space_char(s.first()) {
        trim_start_seq(s.drop_first())
    } else {
        s
    }
}

/// `s` without its trailing whitespace.
pub open spec fn trim_end_seq(s: Seq<char>) -> Seq<char>
    decreases s.len(),
{
    if s.len() > 0 && is_space_char(s.last()) {
        trim_end_seq(s.drop_last())
    } else {
        s
    }
}

/// `s` without leading and trailing whitespace.
pub open spec fn trim_seq(s: Seq<char>) -> Seq<char> {
    trim_end_seq(trim_start_seq(s))
}

proof fn lemma_trim_start_skip(s: Seq<char>, a: int)
    requires
        0 <= a <= s.len(),
        forall|k: int| 0 <= k < a ==> is_space_char(s[k]),
        a < s.len() ==> !is_space_char(s[a]),
    ensures
        trim_start_seq(s) == s.skip(a),
    decreases a,
{
    if a == 0 {
        assert(s.skip(0) =~= s);
    } else {
        assert(is_space_char(s.first()));
        lemma_trim_start_skip(s.drop_first(), a - 1);
        assert(s.drop_first().skip(a - 1) =~= s.skip(a));
    }
}

proof fn lemma_trim_end_take(s: Seq<char>, b: int)
    requires
        0 <= b <= s.len(),
        forall|k: int| b <= k < s.len() ==> is_space_char(s[k]),
        b > 0 ==> !is_space_char(s[b - 1]),
    ensures
        trim_end_seq(s) == s.take(b),
    decreases s.len() - b,
{
    if b == s.len() {
        assert(s.take(b) =~= s);
    } else {
        assert(is_space_char(s.last()));
        lemma_trim_end_take(s.drop_last(), b);
        assert(s.drop_last().take(b) =~= s.take(b));
    }
}

/// Whether `c` is whitespace.
pub fn is_space(c: char) -> (r: bool)
    ensures
        r == is_space_char(c),
{
    ('\u{0009}' <= c && c <= '\u{000D}') || c == ' ' || c == '\u{0085}' || c == '\u{00A0}'
        || c == '\u{1680}' || ('\u{2000}' <= c && c <= '\u{200A}') || c == '\u{2028}'
        || c == '\u{2029}' || c == '\u{202F}' || c == '\u{205F}' || c == '\u{3000}'
}

/// `s` with leading and trailing whitespace removed.
pub fn trim(s: &str) -> (r: String)
    ensures
        r@ == trim_seq(s@),
{
    let n = s.unicode_len();
    let mut a: usize = 0;
    while a < n && is_space(s.get_char(a))
        invariant
            n == s@.len(),
            0 <= a <= n,
            forall|k: int| 0 <= k < a ==> is_space_char(s@[k]),
        decreases n - a,
    {
        a += 1;
    }
    let mut b: usize = n;
    while b > a && is_space(s.get_char(b - 1))
        invariant
            n == s@.len(),
            a <= b <= n,
            forall|k: int| 0 <= k < a ==> is_space_char(s@[k]),
            a < n ==> !is_space_char(s@[a as int]),
            forall|k: int| b <= k < n ==> is_space_char(s@[k]),
        decreases b,
    {
        b -= 1;
    }
    proof {
        lemma_trim_start_skip(s@, a as int);
        let t = s@.skip(a as int);
        lemma_trim_end_take(t, b - a);
        assert(t.take(b - a) =~= s@.subrange(a as int, b as int));
    }
    s.substring_char(a, b).to_owned()
}

/// `base` and `seg` joined by one path separator.
pub fn path_join(base: &str, seg: &str) -> (r: String)
    ensures
        r@ == base@ + "/"@ + seg@,
{
    let mut out = base.to_owned();
    out.append("/");
    out.append(seg);
    out
}

/// Splitting yields at least one piece.
pub proof fn lemma_split_char_len(s: Seq<char>, sep: char)
    ensures
        split_char_seq(s, sep).len() >= 1,
{
    lemma_split_char_rec_len(s, sep, Seq::empty());
}

proof fn lemma_split_char_rec_len(s: Seq<char>, sep: char, cur: Seq<char>)
    ensures
        split_char_rec(s, sep, cur).len() >= 1,
    decreases s.len(),
{
    if s.len() > 0 {
        if s.first() == sep {
            lemma_split_char_rec_len(s.drop_first(), sep, Seq::empty());
        } else {
            lemma_split_char_rec_len(s.drop_first(), sep, cur.push(s.first()));
        }
    }
}

/// One trailing carriage return removed, as the end-of-line handling of
/// line splitting requires.
pub open spec fn strip_cr(l: Seq<char>) -> Seq<char> {
    if l.len() > 0 && l.last() == '\r' {
        l.drop_last()
    } else {
        l
    }
}

/// The lines of `s`: pieces between line feeds, without a final empty piece,
/// each with one trailing carriage return removed.
pub open spec fn lines_seq(s: Seq<char>) -> Seq<Seq<char>> {
    let parts = split_char_seq(s, '\n');
    let kept = if parts.len() > 0 && parts.last().len() == 0 {
        parts.drop_last()
    } else {
        parts
    };
    kept.map_values(|l: Seq<char>| strip_cr(l))
}

/// Splits `s` into lines.
pub fn lines(s: &str) -> (r: Vec<String>)
    ensures
        r.deep_view() == lines_seq(s@),
{
    let mut parts = split_char(s, '\n');
    let ghost all = parts.deep_view();
    let keep_last = match parts.last() {
        Some(l) => l.as_str().unicode_len() > 0,
        None => true,
    };
    proof {
        lemma_split_char_rec_len(s@, '\n', Seq::empty());
        assert(all.len() > 0);
    }
    if !keep_last {
        parts.pop();
        proof {
            assert(parts.deep_view() =~= all.drop_last());
        }
    }
    let ghost kept = parts.deep_view();
    let mut out: Vec<String> = Vec::new();
    let mut i: usize = 0;
    while i < parts.len()
        invariant
            parts.deep_view() == kept,
            kept.len() == parts.len(),
            0 <= i <= parts.len(),
            out.deep_view().len() == i,
            forall|k: int| 0 <= k < i ==> out.deep_view()[k] == strip_cr(kept[k]),
        decreases parts.len() - i,
    {
        let ghost dv0 = out.deep_view();
        let part = &parts[i];
        let len = part.as_str().unicode_len();
        proof {
            assert(kept[i as int] == parts@[i as int]@);
        }
        if len > 0 && part.as_str().get_char(len - 1) == '\r' {
            let stripped = part.as_str().substring_char(0, len - 1).to_owned();
            proof {
                assert(stripped@ =~= kept[i as int].drop_last());
            }
            out.push(stripped);
        } else {
            out.push(part.clone());
        }
        proof {
            assert(out.deep_view() =~= dv0.push(strip_cr(kept[i as int])));
        }
        i += 1;
    }
    proof {
        assert(out.deep_view() =~= kept.map_values(|l: Seq<char>| strip_cr(l)));
    }
    out
}

/// The path relative to a base: the remainder after the base and one path
/// separator, or the empty path when they are equal. A base that itself ends
/// in a separator — the filesystem root `/` included — already separates, so
/// the remainder starts right after it.
pub open spec fn strip_prefix_spec(p: Seq<char>, base: Seq<char>) -> Option<Seq<char>> {
    if p == base {
        Some(Seq::empty())
    } else if base.len() > 0 && base.last() == '/' && p.len() > base.len() && p.take(
        base.len() as int,
    ) == base {
        Some(p.skip(base.len() as int))
    } else if p.len() > base.len() && p.take(base.len() as int) == base && p[base.len() as int]
        == '/' {
        Some(p.skip(base.len() as int + 1))
    } else {
        None
    }
}

/// Resolves a path relative to a base.
pub fn strip_prefix(path: &str, base: &str) -> (r: Option<String>)
    ensures
        r.deep_view() == strip_prefix_spec(path@, base@),
{
    let n = path.unicode_len();
    let m = base.unicode_len();
    if str_eq(path, base) {
        let empty = String::new();
        proof {
            assert(Some(empty).deep_view() == strip_prefix_spec(path@, base@));
        }
        return Some(empty);
    }
    if n > m && check_match_at(path, 0, base) {
        proof {
            assert(path@.take(m as int) =~= path@.subrange(0, m as int));
        }
        if m > 0 && base.get_char(m - 1) == '/' {
            let rest = path.substring_char(m, n).to_owned();
            Some(rest)
        } else if path.get_char(m) == '/' {
            let rest = path.substring_char(m + 1, n).to_owned();
            Some(rest)
        } else {
            None
        }
    } else {
        proof {
            if path@.len() > base@.len() && path@.take(base@.len() as int) == base@ {
                assert(path@.subrange(0, m as int) =~= path@.take(m as int));
            }
        }
        None
    }
}

} // verus!
