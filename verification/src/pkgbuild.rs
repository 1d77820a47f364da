//! The domains a build may contact: a fixed list of package hosts, and every
//! host that a URL in the package's `PKGBUILD` names.
//!
//! Reading the file belongs to the program around this library; it hands
//! the file's lines to [`extract_allowed_domains`].

use vstd::prelude::*;
use crate::domains::{string_views, DomainSet};

verus! {

#[verifier::external_type_specification]
#[verifier::external_body]
pub struct ExRegex(regex::Regex);

#[verifier::external_type_specification]
#[verifier::external_body]
pub struct ExRegexError(regex::Error);

/// Whether `regex` accepts a pattern (`regex::Regex::new` returns `Ok`).
pub uninterp spec fn regex_compiles(pattern: Seq<char>) -> bool;

/// For each match that `regex` finds, in order and without overlaps, in
/// `haystack` with the compiled `pattern`, the text of capture group `group`
/// (`None` where the group did not take part in the match).
pub uninterp spec fn regex_group_captures(pattern: Seq<char>, haystack: Seq<char>, group: nat) -> Seq<
    Option<Seq<char>>,
>;

/// Calls `regex::Regex::new`. The contract claims that it succeeds exactly
/// on the patterns of `regex_compiles`, a function of the pattern alone.
#[verifier::external_body]
fn compile_regex(pattern: &str) -> (res: Result<regex::Regex, regex::Error>)
    ensures
        res is Ok <==> regex_compiles(pattern@),
{
    regex::Regex::new(pattern)
}

/// A regular expression together with the pattern it was compiled from.
/// Only [`CompiledPattern::compile`] builds one.
pub struct CompiledPattern {
    source: String,
    regex: regex::Regex,
}

impl CompiledPattern {
    /// The pattern this expression was compiled from.
    pub closed spec fn source(&self) -> Seq<char> {
        self.source@
    }

    /// Compiles `pattern`.
    pub fn compile(pattern: &str) -> (res: Result<CompiledPattern, regex::Error>)
        ensures
            res is Ok <==> regex_compiles(pattern@),
            res matches Ok(p) ==> p.source() == pattern@,
    {
        match compile_regex(pattern) {
            Ok(regex) => Ok(CompiledPattern { source: String::from_str(pattern), regex }),
            Err(e) => Err(e),
        }
    }
}

/// Whether `c` has the Unicode `White_Space` property (what `\s` matches in
/// a Unicode-aware regular expression).
pub open spec fn is_white_space(c: char) -> bool {
    let n = c as u32;
    ||| 0x9 <= n <= 0xD
    ||| n == 0x20
    ||| n == 0x85
    ||| n == 0xA0
    ||| n == 0x1680
    ||| 0x2000 <= n <= 0x200A
    ||| n == 0x2028
    ||| n == 0x2029
    ||| n == 0x202F
    ||| n == 0x205F
    ||| n == 0x3000
}

/// Whether `c` may be part of a URL's host: anything but `/`, `:` and white space.
pub open spec fn is_host_char(c: char) -> bool {
    c != '/' && c != ':' && !is_white_space(c)
}

/// Whether `s` holds `p` at position `i`.
pub open spec fn has_at(s: Seq<char>, i: int, p: Seq<char>) -> bool {
    0 <= i && i + p.len() <= s.len() && s.subrange(i, i + p.len()) == p
}

/// Whether `https://` or `http://` stands at position `p` of `s` and ends
/// just before position `b`.
pub open spec fn scheme_ends_at(s: Seq<char>, p: int, b: int) -> bool {
    ||| has_at(s, p, seq!['h', 't', 't', 'p', 's', ':', '/', '/']) && b == p + 8
    ||| has_at(s, p, seq!['h', 't', 't', 'p', ':', '/', '/']) && b == p + 7
}

/// Where the host of a URL that starts at position `i` begins: after
/// `https://` or `http://` (in that order of preference), when a host
/// character follows; -1 when no URL starts at `i`.
pub open spec fn host_start(s: Seq<char>, i: int) -> int {
    if has_at(s, i, seq!['h', 't', 't', 'p', 's', ':', '/', '/']) && i + 8 < s.len()
        && is_host_char(s[i + 8]) {
        i + 8
    } else if has_at(s, i, seq!['h', 't', 't', 'p', ':', '/', '/']) && i + 7 < s.len()
        && is_host_char(s[i + 7]) {
        i + 7
    } else {
        -1
    }
}

/// The end of the run of host characters that begins at `j`.
pub open spec fn host_end(s: Seq<char>, j: int) -> int
    decreases s.len() - j,
{
    if j < 0 || j >= s.len() || !is_host_char(s[j]) {
        j
    } else {
        host_end(s, j + 1)
    }
}

/// The run of host characters from `j` is the longest one: every character
/// in it is a host character, and it ends at the end of `s` or before a
/// character that is not.
pub proof fn lemma_host_end(s: Seq<char>, j: int)
    requires
        0 <= j <= s.len(),
    ensures
        j <= host_end(s, j) <= s.len(),
        forall|k: int| j <= k < host_end(s, j) ==> is_host_char(#[trigger] s[k]),
        host_end(s, j) == s.len() || !is_host_char(s[host_end(s, j)]),
        j < s.len() && is_host_char(s[j]) ==> host_end(s, j) > j,
    decreases s.len() - j,
{
    if j < s.len() && is_host_char(s[j]) {
        lemma_host_end(s, j + 1);
    }
}

/// The hosts of the URLs of `s` from position `i` on, as a leftmost-first
/// search finds them: at the first position where a URL starts, its host is
/// the longest run of host characters, and the search goes on after it.
pub open spec fn hosts_from(s: Seq<char>, i: int) -> Seq<Seq<char>>
    decreases s.len() - i,
{
    if i < 0 || i >= s.len() {
        Seq::empty()
    } else if host_start(s, i) >= 0 {
        let b = host_start(s, i);
        proof {
            lemma_host_end(s, b);
        }
        let e = host_end(s, b);
        seq![s.subrange(b, e)] + hosts_from(s, e)
    } else {
        hosts_from(s, i + 1)
    }
}

/// The hosts of the URLs in a line, in order.
pub open spec fn url_hosts(s: Seq<char>) -> Seq<Seq<char>> {
    hosts_from(s, 0)
}

/// The hosts of the URLs in any of the lines.
pub open spec fn line_url_hosts(lines: Seq<Seq<char>>) -> Set<Seq<char>> {
    Set::new(|h: Seq<char>| exists|i: int| 0 <= i < lines.len() && #[trigger] url_hosts(lines[i]).contains(h))
}

/// Every host found is a whole URL host of the line: it follows `https://`
/// or `http://`, is not empty, holds only host characters, and ends at the
/// end of the line or before a character that is not a host character (no
/// mere prefix of a host is found).
pub proof fn law_found_hosts_are_whole_url_hosts(s: Seq<char>, h: Seq<char>)
    requires
        url_hosts(s).contains(h),
    ensures
        exists|p: int, b: int|
            #![trigger scheme_ends_at(s, p, b)]
            {
                &&& scheme_ends_at(s, p, b)
                &&& 0 < h.len()
                &&& b + h.len() <= s.len()
                &&& h == s.subrange(b, b + h.len())
                &&& forall|k: int| 0 <= k < h.len() ==> is_host_char(#[trigger] h[k])
                &&& b + h.len() == s.len() || !is_host_char(s[b + h.len()])
            },
{
    lemma_hosts_from_are_whole(s, 0, h);
}

proof fn lemma_hosts_from_are_whole(s: Seq<char>, i: int, h: Seq<char>)
    requires
        hosts_from(s, i).contains(h),
    ensures
        exists|p: int, b: int|
            #![trigger scheme_ends_at(s, p, b)]
            {
                &&& scheme_ends_at(s, p, b)
                &&& 0 < h.len()
                &&& b + h.len() <= s.len()
                &&& h == s.subrange(b, b + h.len())
                &&& forall|k: int| 0 <= k < h.len() ==> is_host_char(#[trigger] h[k])
                &&& b + h.len() == s.len() || !is_host_char(s[b + h.len()])
            },
    decreases s.len() - i,
{
    if i < 0 || i >= s.len() {
    } else if host_start(s, i) >= 0 {
        let b = host_start(s, i);
        lemma_host_end(s, b);
        let e = host_end(s, b);
        let first = s.subrange(b, e);
        let rest = hosts_from(s, e);
        assert(hosts_from(s, i) == seq![first] + rest);
        let j = choose|j: int| 0 <= j < hosts_from(s, i).len() && hosts_from(s, i)[j] == h;
        if j == 0 {
            assert(h == first);
            assert(scheme_ends_at(s, i, b));
            assert forall|k: int| 0 <= k < h.len() implies is_host_char(#[trigger] h[k]) by {
                assert(h[k] == s[b + k]);
            }
            assert(s.subrange(b, b + h.len()) =~= h);
        } else {
            assert(rest[j - 1] == h);
            lemma_hosts_from_are_whole(s, e, h);
        }
    } else {
        lemma_hosts_from_are_whole(s, i + 1, h);
    }
}

proof fn lemma_uncovered_host_found(s: Seq<char>, i: int, p: int)
    requires
        0 <= i <= p,
        host_start(s, p) >= 0,
        forall|q: int|
            i <= q < p && #[trigger] host_start(s, q) >= 0 ==> host_end(s, host_start(s, q)) <= p,
    ensures
        hosts_from(s, i).contains(s.subrange(host_start(s, p), host_end(s, host_start(s, p)))),
    decreases p - i,
{
    let bp = host_start(s, p);
    let hp = s.subrange(bp, host_end(s, bp));
    if i == p {
        assert(hosts_from(s, i)[0] == hp);
    } else if host_start(s, i) >= 0 {
        let b = host_start(s, i);
        lemma_host_end(s, b);
        let e = host_end(s, b);
        assert(e <= p);
        lemma_uncovered_host_found(s, e, p);
        let rest = hosts_from(s, e);
        let j = choose|j: int| 0 <= j < rest.len() && rest[j] == hp;
        assert(hosts_from(s, i) == seq![s.subrange(b, e)] + rest);
        assert(hosts_from(s, i)[j + 1] == hp);
    } else {
        lemma_uncovered_host_found(s, i + 1, p);
    }
}

/// Every URL of a line whose start does not lie inside an earlier URL
/// (a `https://` or `http://` followed by host characters) has its whole
/// host found, whatever character precedes it: a URL that starts at `p`,
/// where every URL starting before `p` ends (with its longest host) at or
/// before `p`, contributes its longest host.
pub proof fn law_every_url_host_is_found(s: Seq<char>, p: int)
    requires
        0 <= p,
        host_start(s, p) >= 0,
        forall|q: int| 0 <= q < p && #[trigger] host_start(s, q) >= 0 ==> host_end(s, host_start(s, q)) <= p,
    ensures
        url_hosts(s).contains(s.subrange(host_start(s, p), host_end(s, host_start(s, p)))),
{
    lemma_uncovered_host_found(s, 0, p);
}

/// The domains a package may contact cover the URLs of its `PKGBUILD`:
/// every URL host found in a line is allowed, and every allowed domain is a
/// default domain or a whole URL host of some line.
pub proof fn law_allowed_domains_cover_pkgbuild_urls(lines: Seq<Seq<char>>, i: int, p: int, d: Seq<char>)
    requires
        0 <= i < lines.len(),
        0 <= p,
        host_start(lines[i], p) >= 0,
        forall|q: int|
            0 <= q < p && #[trigger] host_start(lines[i], q) >= 0 ==> host_end(
                lines[i],
                host_start(lines[i], q),
            ) <= p,
    ensures
        default_domains().to_set().union(line_url_hosts(lines)).contains(
            lines[i].subrange(host_start(lines[i], p), host_end(lines[i], host_start(lines[i], p))),
        ),
        default_domains().to_set().union(line_url_hosts(lines)).contains(d) ==> default_domains().contains(d)
            || exists|j: int| 0 <= j < lines.len() && #[trigger] url_hosts(lines[j]).contains(d),
{
    law_every_url_host_is_found(lines[i], p);
    assert(url_hosts(lines[i]).contains(
        lines[i].subrange(host_start(lines[i], p), host_end(lines[i], host_start(lines[i], p))),
    ));
}

/// Calls `regex::Regex::captures_iter` on the expression of `pattern` and
/// `haystack`, and takes from each match the text of group `group`
/// (`Captures::get`, `Match::as_str`). The contract claims that the result is
/// `regex_group_captures` of the pattern the expression was compiled from, a
/// function of the pattern, the haystack and the group alone; it rests on
/// `CompiledPattern::compile` being the only constructor. For the URL
/// pattern `https?://([^/:\s]+)` and group 1 it also claims what the
/// crate's documented semantics give: the matches are found leftmost-first
/// and without overlaps, `s?` prefers `https://`, the host class takes the
/// longest run of characters other than `/`, `:` and Unicode white space
/// (`regex-syntax`'s `WHITE_SPACE` table), so the group texts are
/// `url_hosts` of the haystack.
#[verifier::external_body]
fn capture_group_texts(pattern: &CompiledPattern, haystack: &str, group: usize) -> (res: Vec<
    Option<String>,
>)
    ensures
        res.deep_view() == regex_group_captures(pattern.source(), haystack@, group as nat),
        pattern.source() == "https?://([^/:\\s]+)"@ && group == 1 ==> res.deep_view() == url_hosts(
            haystack@,
        ).map_values(|h: Seq<char>| Some(h)),
{
    pattern.regex.captures_iter(haystack).map(|c| c.get(group).map(|m| m.as_str().to_string())).collect()
}

/// The pattern of a URL whose host part is capture group 1: `http://` or
/// `https://`, then the longest run of characters other than `/`, `:` and
/// white space.
pub open spec fn url_host_pattern() -> Seq<char> {
    "https?://([^/:\\s]+)"@
}

/// The hosts that a package build may always contact.
pub open spec fn default_domains() -> Seq<Seq<char>> {
    seq![
        "aur.archlinux.org"@,
        "archlinux.org"@,
        "github.com"@,
        "codeload.github.com"@,
        "raw.githubusercontent.com"@,
        "gitlab.com"@,
        "bitbucket.org"@,
        "codeberg.org"@,
    ]
}

/// The texts present in a sequence of capture lists.
pub open spec fn captured_texts(captures: Seq<Seq<Option<Seq<char>>>>) -> Set<Seq<char>> {
    Set::new(
        |d: Seq<char>|
            exists|i: int, j: int|
                0 <= i < captures.len() && 0 <= j < captures[i].len() && #[trigger] captures[i][j]
                    == Some(d),
    )
}

/// The hosts of the URLs in each line, as the URL pattern captures them.
pub open spec fn url_hosts_of_lines(lines: Seq<Seq<char>>) -> Seq<Seq<Option<Seq<char>>>> {
    lines.map_values(|l: Seq<char>| regex_group_captures(url_host_pattern(), l, 1))
}

/// Why the allowed domains could not be computed.
#[derive(Debug, PartialEq, Eq, Structural)]
pub enum DomainError {
    /// The URL pattern was refused by the regular-expression engine.
    InvalidPattern,
}

/// The set of the hosts that a package build may always contact.
pub fn default_allowed_domains() -> (d: DomainSet)
    ensures
        d@ == default_domains().to_set(),
{
    let mut d = DomainSet::new();
    d.insert(String::from_str("aur.archlinux.org"));
    d.insert(String::from_str("archlinux.org"));
    d.insert(String::from_str("github.com"));
    d.insert(String::from_str("codeload.github.com"));
    d.insert(String::from_str("raw.githubusercontent.com"));
    d.insert(String::from_str("gitlab.com"));
    d.insert(String::from_str("bitbucket.org"));
    d.insert(String::from_str("codeberg.org"));
    assert(d@ =~= default_domains().to_set()) by {
        let dd = default_domains();
        assert forall|x: Seq<char>| dd.to_set().contains(x) <==> d@.contains(x) by {
            if dd.contains(x) {
                let k = choose|k: int| 0 <= k < dd.len() && dd[k] == x;
                assert(0 <= k < 8);
            }
            if d@.contains(x) {
                if x == dd[0] {} else if x == dd[1] {} else if x == dd[2] {} else if x == dd[3] {}
                else if x == dd[4] {} else if x == dd[5] {} else if x == dd[6] {} else {
                    assert(x == dd[7]);
                }
            }
        }
    }
    d
}

/// The default domains together with every text in `captures`.
pub fn allowed_domains_from_captures(captures: &Vec<Vec<Option<String>>>) -> (d: DomainSet)
    ensures
        d@ == default_domains().to_set().union(captured_texts(captures.deep_view())),
{
    let ghost c = captures.deep_view();
    let mut d = default_allowed_domains();
    let mut i: usize = 0;
    while i < captures.len()
        invariant
            0 <= i <= captures@.len(),
            c == captures.deep_view(),
            d@ == default_domains().to_set().union(captured_texts(c.take(i as int))),
        decreases captures@.len() - i,
    {
        let line = &captures[i];
        let mut j: usize = 0;
        while j < line.len()
            invariant
                0 <= i < captures@.len(),
                0 <= j <= line@.len(),
                c == captures.deep_view(),
                line.deep_view() == c[i as int],
                d@ == default_domains().to_set().union(captured_texts(c.take(i as int))).union(
                    Set::new(|t: Seq<char>| exists|k: int| 0 <= k < j && line.deep_view()[k] == Some(t)),
                ),
            decreases line@.len() - j,
        {
            match &line[j] {
                Some(text) => {
                    d.insert(text.clone());
                },
                None => {},
            }
            proof {
                let old_set = Set::new(|t: Seq<char>| exists|k: int| 0 <= k < j && line.deep_view()[k] == Some(t));
                let new_set = Set::new(|t: Seq<char>| exists|k: int| 0 <= k < j + 1 && line.deep_view()[k] == Some(t));
                assert(line.deep_view()[j as int] == match line@[j as int] { Some(s) => Some(s@), None => None });
                match line@[j as int] {
                    Some(s) => {
                        assert(new_set =~= old_set.insert(s@));
                    },
                    None => {
                        assert(new_set =~= old_set);
                    },
                }
                assert(d@ =~= default_domains().to_set().union(captured_texts(c.take(i as int))).union(new_set));
            }
            j = j + 1;
        }
        proof {
            let line_set = Set::new(|t: Seq<char>| exists|k: int| 0 <= k < j && line.deep_view()[k] == Some(t));
            assert(captured_texts(c.take(i + 1)) =~= captured_texts(c.take(i as int)).union(line_set)) by {
                assert forall|t: Seq<char>| captured_texts(c.take(i + 1)).contains(t) implies
                    captured_texts(c.take(i as int)).union(line_set).contains(t) by {
                    let (a, b) = choose|a: int, b: int|
                        0 <= a < c.take(i + 1).len() && 0 <= b < c.take(i + 1)[a].len() && #[trigger] c.take(i + 1)[a][b] == Some(t);
                    if a < i {
                        assert(c.take(i as int)[a][b] == Some(t));
                    } else {
                        assert(line.deep_view()[b] == Some(t));
                    }
                }
                assert forall|t: Seq<char>| captured_texts(c.take(i as int)).union(line_set).contains(t) implies
                    captured_texts(c.take(i + 1)).contains(t) by {
                    if captured_texts(c.take(i as int)).contains(t) {
                        let (a, b) = choose|a: int, b: int|
                            0 <= a < c.take(i as int).len() && 0 <= b < c.take(i as int)[a].len() && #[trigger] c.take(i as int)[a][b] == Some(t);
                        assert(c.take(i + 1)[a][b] == Some(t));
                    } else {
                        let k = choose|k: int| 0 <= k < j && line.deep_view()[k] == Some(t);
                        assert(c.take(i + 1)[i as int][k] == Some(t));
                    }
                }
            }
        }
        i = i + 1;
    }
    assert(c.take(i as int) =~= c);
    d
}

/// The domains a package build may contact: the default domains and the host
/// of every `http://` or `https://` URL in the lines of its `PKGBUILD`.
pub fn extract_allowed_domains(lines: &Vec<String>) -> (res: Result<DomainSet, DomainError>)
    ensures
        res is Ok <==> regex_compiles(url_host_pattern()),
        res matches Ok(d) ==> d@ == default_domains().to_set().union(
            captured_texts(url_hosts_of_lines(string_views(lines@))),
        ),
        res matches Ok(d) ==> d@ == default_domains().to_set().union(
            line_url_hosts(string_views(lines@)),
        ),
{
    let pattern = match CompiledPattern::compile("https?://([^/:\\s]+)") {
        Ok(p) => p,
        Err(_) => {
            return Err(DomainError::InvalidPattern);
        },
    };
    let mut captures: Vec<Vec<Option<String>>> = Vec::new();
    let mut i: usize = 0;
    while i < lines.len()
        invariant
            0 <= i <= lines@.len(),
            pattern.source() == url_host_pattern(),
            captures.deep_view() == url_hosts_of_lines(string_views(lines@)).take(i as int),
            pattern.source() == "https?://([^/:\\s]+)"@,
            forall|k: int|
                0 <= k < i ==> #[trigger] captures.deep_view()[k] == url_hosts(lines@[k]@).map_values(
                    |h: Seq<char>| Some(h),
                ),
        decreases lines@.len() - i,
    {
        let found = capture_group_texts(&pattern, lines[i].as_str(), 1);
        let ghost before = captures.deep_view();
        captures.push(found);
        assert(captures.deep_view() =~= before.push(found.deep_view()));
        assert(url_hosts_of_lines(string_views(lines@)).take(i + 1) =~= url_hosts_of_lines(
            string_views(lines@),
        ).take(i as int).push(regex_group_captures(url_host_pattern(), lines@[i as int]@, 1)));
        i = i + 1;
    }
    assert(url_hosts_of_lines(string_views(lines@)).take(i as int) =~= url_hosts_of_lines(
        string_views(lines@),
    ));
    let d = allowed_domains_from_captures(&captures);
    proof {
        let c = captures.deep_view();
        let ls = string_views(lines@);
        assert(captured_texts(c) =~= line_url_hosts(ls)) by {
            assert forall|h: Seq<char>| captured_texts(c).contains(h) implies line_url_hosts(ls).contains(h) by {
                let (a, b) = choose|a: int, b: int|
                    0 <= a < c.len() && 0 <= b < c[a].len() && #[trigger] c[a][b] == Some(h);
                assert(c[a] == url_hosts(ls[a]).map_values(|x: Seq<char>| Some(x)));
                assert(url_hosts(ls[a])[b] == h);
                assert(url_hosts(ls[a]).contains(h));
            }
            assert forall|h: Seq<char>| line_url_hosts(ls).contains(h) implies captured_texts(c).contains(h) by {
                let a = choose|a: int| 0 <= a < ls.len() && #[trigger] url_hosts(ls[a]).contains(h);
                let b = choose|b: int| 0 <= b < url_hosts(ls[a]).len() && url_hosts(ls[a])[b] == h;
                assert(c[a] == url_hosts(ls[a]).map_values(|x: Seq<char>| Some(x)));
                assert(c[a][b] == Some(h));
            }
        }
    }
    Ok(d)
}

} // verus!
