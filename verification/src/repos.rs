//! Repositories: how a repository reference is parsed, how a repository is
//! named, and the decisions that the repository index takes around its
//! queries.
use vstd::prelude::*;

use crate::SwarmError;
use crate::text::{
    chars_of, find_first, find_last, git_suffix, has_ws, has_ws_range, rsplit_once, split_once,
    starts_with_range, strip_git_range, strip_git_suffixes, text_equals, trim, trim_class,
    trim_range, CharClass,
};

verus! {

/// A host, an owner and a repository name.
pub type Parts = (Seq<char>, Seq<char>, Seq<char>);

/// The text `https://`.
pub open spec fn https_scheme() -> Seq<char> {
    seq!['h', 't', 't', 'p', 's', ':', '/', '/']
}

/// The text `http://`.
pub open spec fn http_scheme() -> Seq<char> {
    seq!['h', 't', 't', 'p', ':', '/', '/']
}

/// The text `ssh://`.
pub open spec fn ssh_scheme() -> Seq<char> {
    seq!['s', 's', 'h', ':', '/', '/']
}

/// The text `git@`.
pub open spec fn git_user() -> Seq<char> {
    seq!['g', 'i', 't', '@']
}

/// The three parts of a repository name are non-empty and hold no whitespace.
pub open spec fn valid_parts(host: Seq<char>, owner: Seq<char>, name: Seq<char>) -> bool {
    &&& host.len() > 0
    &&& owner.len() > 0
    &&& name.len() > 0
    &&& !has_ws(host)
    &&& !has_ws(owner)
    &&& !has_ws(name)
}

/// The owner and name at the start of the path of a repository on `host`:
/// the path loses its surrounding slashes, its first segment is the owner and
/// its second, without trailing `.git`, the name; further segments are
/// accepted only where `allow_extra_segments` holds.
pub open spec fn spec_parse_repository_path(
    host: Seq<char>,
    path: Seq<char>,
    allow_extra_segments: bool,
) -> Option<Parts> {
    let p = trim_class(path, CharClass::Slash);
    match split_once(p, '/') {
        None => None,
        Some((first, rest)) => {
            let second = match split_once(rest, '/') {
                Some((s, _)) => s,
                None => rest,
            };
            let h = trim(host);
            let o = trim(first);
            let n = trim(strip_git_suffixes(second));
            if !allow_extra_segments && split_once(rest, '/') is Some {
                None
            } else if valid_parts(h, o, n) {
                Some((h, o, n))
            } else {
                None
            }
        },
    }
}

/// A URL without its scheme: the authority runs to the first slash, a user
/// before the last `@` of the authority is dropped, and the path follows.
pub open spec fn spec_parse_url_like(input: Seq<char>) -> Option<Parts> {
    match split_once(input, '/') {
        None => None,
        Some((authority, path)) => {
            let host = match rsplit_once(authority, '@') {
                Some((_, h)) => h,
                None => authority,
            };
            spec_parse_repository_path(host, path, true)
        },
    }
}

/// A repository given as an `https://`, `http://` or `ssh://` URL, or in the
/// `git@host:owner/name` form.
pub open spec fn spec_parse_repository_url(input: Seq<char>) -> Option<Parts> {
    if https_scheme().is_prefix_of(input) {
        spec_parse_url_like(input.skip(8))
    } else if http_scheme().is_prefix_of(input) {
        spec_parse_url_like(input.skip(7))
    } else if ssh_scheme().is_prefix_of(input) {
        let rest = input.skip(6);
        spec_parse_url_like(
            if git_user().is_prefix_of(rest) {
                rest.skip(4)
            } else {
                rest
            },
        )
    } else if git_user().is_prefix_of(input) {
        match split_once(input.skip(4), ':') {
            None => None,
            Some((host, path)) => spec_parse_repository_path(host, path, true),
        }
    } else {
        None
    }
}

/// A repository given canonically, as exactly three slash-separated parts
/// `host/owner/name`, where the name may end in `.git`.
pub open spec fn spec_parse_canonical(input: Seq<char>) -> Option<Parts> {
    match split_once(input, '/') {
        None => None,
        Some((first, rest)) => match split_once(rest, '/') {
            None => None,
            Some((second, third)) => {
                let h = trim(first);
                let o = trim(second);
                let n = trim(strip_git_suffixes(third));
                if split_once(third, '/') is Some {
                    None
                } else if valid_parts(h, o, n) {
                    Some((h, o, n))
                } else {
                    None
                }
            },
        },
    }
}

/// The repository that a reference names: the trimmed reference read as a
/// URL, or else in canonical form.
pub open spec fn spec_parse_repository(input: Seq<char>) -> Option<Parts> {
    let t = trim(input);
    match spec_parse_repository_url(t) {
        Some(p) => Some(p),
        None => spec_parse_canonical(t),
    }
}

/// The text of an optional string.
pub open spec fn opt_text(a: Option<&str>) -> Option<Seq<char>> {
    match a {
        Some(s) => Some(s@),
        None => None,
    }
}

/// The alias that a repository named `name` gets: the trimmed alias given, or
/// the name where none or only whitespace is given.
pub open spec fn chosen_alias(alias: Option<Seq<char>>, name: Seq<char>) -> Seq<char> {
    match alias {
        Some(a) => if trim(a).len() > 0 {
            trim(a)
        } else {
            name
        },
        None => name,
    }
}

/// The repository that `input` names, known by `alias`.
pub open spec fn spec_repository(input: Seq<char>, alias: Option<Seq<char>>) -> Option<
    RepositoryView,
> {
    match spec_parse_repository(input) {
        Some((h, o, n)) => Some(
            RepositoryView { host: h, owner: o, name: n, alias: Some(chosen_alias(alias, n)) },
        ),
        None => None,
    }
}

/// A range `lo..hi` of character positions.
pub type Span = (usize, usize);

/// The host, owner and name ranges of a parsed repository.
pub type Spans = (Span, Span, Span);

/// The range lies within `v`.
pub open spec fn span_ok(v: Seq<char>, r: Span) -> bool {
    r.0 <= r.1 <= v.len()
}

/// The characters of `v` in the range.
pub open spec fn span_text(v: Seq<char>, r: Span) -> Seq<char> {
    v.subrange(r.0 as int, r.1 as int)
}

/// All three ranges lie within `v`.
pub open spec fn spans_ok(v: Seq<char>, t: Spans) -> bool {
    span_ok(v, t.0) && span_ok(v, t.1) && span_ok(v, t.2)
}

/// The characters of `v` in the three ranges.
pub open spec fn spans_text(v: Seq<char>, t: Spans) -> Parts {
    (span_text(v, t.0), span_text(v, t.1), span_text(v, t.2))
}

/// The result of a parse on ranges of `v`, read as text.
pub open spec fn parsed_text(v: Seq<char>, r: Option<Spans>) -> Option<Parts> {
    match r {
        Some(t) => Some(spans_text(v, t)),
        None => None,
    }
}

/// A parse result on ranges of `v` lies within `v`.
pub open spec fn parsed_ok(v: Seq<char>, r: Option<Spans>) -> bool {
    match r {
        Some(t) => spans_ok(v, t),
        None => true,
    }
}

/// Whether the host, owner and name ranges of `v` are non-empty and free of whitespace.
fn validate_repository_parts(v: &Vec<char>, host: Span, owner: Span, name: Span) -> (r: bool)
    requires
        span_ok(v@, host),
        span_ok(v@, owner),
        span_ok(v@, name),
    ensures
        r == valid_parts(span_text(v@, host), span_text(v@, owner), span_text(v@, name)),
{
    host.0 < host.1 && owner.0 < owner.1 && name.0 < name.1 && !has_ws_range(v, host.0, host.1)
        && !has_ws_range(v, owner.0, owner.1) && !has_ws_range(v, name.0, name.1)
}

/// The split of the range `lo..hi` of `v` at its first `c`, as the position of that `c`.
proof fn lemma_split_at(v: Seq<char>, lo: int, hi: int, i: int, c: char)
    requires
        0 <= lo <= i < hi <= v.len(),
        v.subrange(lo, hi).index_of_first(c) == Some(i - lo),
    ensures
        split_once(v.subrange(lo, hi), c) == Some((v.subrange(lo, i), v.subrange(i + 1, hi))),
{
    let s = v.subrange(lo, hi);
    assert(s.take(i - lo) =~= v.subrange(lo, i));
    assert(s.skip(i - lo + 1) =~= v.subrange(i + 1, hi));
}

/// The split of the range `lo..hi` of `v` at its last `c`, as the position of that `c`.
proof fn lemma_rsplit_at(v: Seq<char>, lo: int, hi: int, i: int, c: char)
    requires
        0 <= lo <= i < hi <= v.len(),
        v.subrange(lo, hi).index_of_last(c) == Some(i - lo),
    ensures
        rsplit_once(v.subrange(lo, hi), c) == Some((v.subrange(lo, i), v.subrange(i + 1, hi))),
{
    let s = v.subrange(lo, hi);
    assert(s.take(i - lo) =~= v.subrange(lo, i));
    assert(s.skip(i - lo + 1) =~= v.subrange(i + 1, hi));
}

/// The repository at the start of the path range of `v`, on the host range of `v`.
fn parse_repository_path(v: &Vec<char>, host: Span, path: Span, allow_extra_segments: bool) -> (r:
    Option<Spans>)
    requires
        span_ok(v@, host),
        span_ok(v@, path),
    ensures
        parsed_ok(v@, r),
        parsed_text(v@, r) == spec_parse_repository_path(
            span_text(v@, host),
            span_text(v@, path),
            allow_extra_segments,
        ),
{
    let (pl, ph) = trim_range(v, path.0, path.1, CharClass::Slash);
    let i = match find_first(v, pl, ph, '/') {
        Some(i) => i,
        None => {
            return None;
        },
    };
    proof {
        lemma_split_at(v@, pl as int, ph as int, i as int, '/');
    }
    let j = find_first(v, i + 1, ph, '/');
    let second_end = match j {
        Some(j) => {
            proof {
                lemma_split_at(v@, i + 1, ph as int, j as int, '/');
            }
            j
        },
        None => ph,
    };
    let (ol, oh) = trim_range(v, pl, i, CharClass::Whitespace);
    let ne = strip_git_range(v, i + 1, second_end);
    let (nl, nh) = trim_range(v, i + 1, ne, CharClass::Whitespace);
    if !allow_extra_segments && j.is_some() {
        return None;
    }
    let (hl, hh) = trim_range(v, host.0, host.1, CharClass::Whitespace);
    if validate_repository_parts(v, (hl, hh), (ol, oh), (nl, nh)) {
        Some(((hl, hh), (ol, oh), (nl, nh)))
    } else {
        None
    }
}

/// The repository in a URL range of `v` that starts after its scheme.
fn parse_url_like_repository(v: &Vec<char>, input: Span) -> (r: Option<Spans>)
    requires
        span_ok(v@, input),
    ensures
        parsed_ok(v@, r),
        parsed_text(v@, r) == spec_parse_url_like(span_text(v@, input)),
{
    let (lo, hi) = input;
    let i = match find_first(v, lo, hi, '/') {
        Some(i) => i,
        None => {
            return None;
        },
    };
    proof {
        lemma_split_at(v@, lo as int, hi as int, i as int, '/');
    }
    let host = match find_last(v, lo, i, '@') {
        Some(k) => {
            proof {
                lemma_rsplit_at(v@, lo as int, i as int, k as int, '@');
            }
            (k + 1, i)
        },
        None => (lo, i),
    };
    parse_repository_path(v, host, (i + 1, hi), true)
}

/// The repository in a range of `v` given as a URL or in `git@` form.
fn parse_repository_url(v: &Vec<char>, input: Span) -> (r: Option<Spans>)
    requires
        span_ok(v@, input),
    ensures
        parsed_ok(v@, r),
        parsed_text(v@, r) == spec_parse_repository_url(span_text(v@, input)),
{
    let (lo, hi) = input;
    let ghost s = span_text(v@, input);
    let https: [char; 8] = ['h', 't', 't', 'p', 's', ':', '/', '/'];
    let http: [char; 7] = ['h', 't', 't', 'p', ':', '/', '/'];
    let ssh: [char; 6] = ['s', 's', 'h', ':', '/', '/'];
    let git: [char; 4] = ['g', 'i', 't', '@'];
    assert(https@ =~= https_scheme());
    assert(http@ =~= http_scheme());
    assert(ssh@ =~= ssh_scheme());
    assert(git@ =~= git_user());
    if starts_with_range(v, lo, hi, &https) {
        assert(s.skip(8) =~= v@.subrange(lo + 8, hi as int));
        return parse_url_like_repository(v, (lo + 8, hi));
    }
    if starts_with_range(v, lo, hi, &http) {
        assert(s.skip(7) =~= v@.subrange(lo + 7, hi as int));
        return parse_url_like_repository(v, (lo + 7, hi));
    }
    if starts_with_range(v, lo, hi, &ssh) {
        let rest = lo + 6;
        assert(s.skip(6) =~= v@.subrange(rest as int, hi as int));
        let start = if starts_with_range(v, rest, hi, &git) {
            assert(s.skip(6).skip(4) =~= v@.subrange(rest + 4, hi as int));
            rest + 4
        } else {
            rest
        };
        return parse_url_like_repository(v, (start, hi));
    }
    if starts_with_range(v, lo, hi, &git) {
        let rest = lo + 4;
        assert(s.skip(4) =~= v@.subrange(rest as int, hi as int));
        let k = match find_first(v, rest, hi, ':') {
            Some(k) => k,
            None => {
                return None;
            },
        };
        proof {
            lemma_split_at(v@, rest as int, hi as int, k as int, ':');
        }
        return parse_repository_path(v, (rest, k), (k + 1, hi), true);
    }
    None
}

/// The repository in a range of `v` given canonically as `host/owner/name`.
fn parse_canonical_repository(v: &Vec<char>, input: Span) -> (r: Option<Spans>)
    requires
        span_ok(v@, input),
    ensures
        parsed_ok(v@, r),
        parsed_text(v@, r) == spec_parse_canonical(span_text(v@, input)),
{
    let (lo, hi) = input;
    let i = match find_first(v, lo, hi, '/') {
        Some(i) => i,
        None => {
            return None;
        },
    };
    proof {
        lemma_split_at(v@, lo as int, hi as int, i as int, '/');
    }
    let j = match find_first(v, i + 1, hi, '/') {
        Some(j) => j,
        None => {
            return None;
        },
    };
    proof {
        lemma_split_at(v@, i + 1, hi as int, j as int, '/');
    }
    let (hl, hh) = trim_range(v, lo, i, CharClass::Whitespace);
    let (ol, oh) = trim_range(v, i + 1, j, CharClass::Whitespace);
    let ne = strip_git_range(v, j + 1, hi);
    let (nl, nh) = trim_range(v, j + 1, ne, CharClass::Whitespace);
    match find_first(v, j + 1, hi, '/') {
        Some(k) => {
            proof {
                lemma_split_at(v@, j + 1, hi as int, k as int, '/');
            }
            return None;
        },
        None => {},
    }
    if validate_repository_parts(v, (hl, hh), (ol, oh), (nl, nh)) {
        Some(((hl, hh), (ol, oh), (nl, nh)))
    } else {
        None
    }
}

/// The repository that the whole of `v` names, after trimming, as ranges of
/// `v`, or the range of the trimmed text where it names none.
fn parse_repository_input(v: &Vec<char>) -> (r: Result<Spans, Span>)
    ensures
        match r {
            Ok(t) => spans_ok(v@, t) && spec_parse_repository(v@) == Some(spans_text(v@, t)),
            Err(e) => span_ok(v@, e) && spec_parse_repository(v@) is None && span_text(v@, e)
                == trim(v@),
        },
{
    let (lo, hi) = trim_range(v, 0, v.len(), CharClass::Whitespace);
    assert(v@.subrange(0, v@.len() as int) =~= v@);
    match parse_repository_url(v, (lo, hi)) {
        Some(t) => {
            return Ok(t);
        },
        None => {},
    }
    match parse_canonical_repository(v, (lo, hi)) {
        Some(t) => Ok(t),
        None => Err((lo, hi)),
    }
}

/// The text of the range `r` of `s`.
fn span_string(s: &str, r: Span) -> (out: String)
    requires
        r.0 <= r.1 <= s@.len(),
    ensures
        out@ == s@.subrange(r.0 as int, r.1 as int),
{
    String::from_str(s.substring_char(r.0, r.1))
}

/// A repository hosted at `host` under `owner` as `name`, known locally by `alias`.
#[derive(Debug, Clone)]
pub struct Repository {
    pub host: String,
    pub owner: String,
    pub name: String,
    pub alias: Option<String>,
}

/// The texts of a repository's fields.
#[verifier::ext_equal]
pub struct RepositoryView {
    pub host: Seq<char>,
    pub owner: Seq<char>,
    pub name: Seq<char>,
    pub alias: Option<Seq<char>>,
}

impl View for Repository {
    type V = RepositoryView;

    open spec fn view(&self) -> RepositoryView {
        RepositoryView {
            host: self.host@,
            owner: self.owner@,
            name: self.name@,
            alias: match self.alias {
                Some(a) => Some(a@),
                None => None,
            },
        }
    }
}

impl Repository {
    /// Reads a repository reference: a URL (`https://`, `http://`, `ssh://`),
    /// a `git@host:owner/name` remote or a canonical `host/owner/name`. The
    /// alias is the trimmed `alias` where it is not blank, else the name.
    pub fn parse(input: &str, alias: Option<&str>) -> (r: Result<Repository, SwarmError>)
        ensures
            match r {
                Ok(repo) => spec_repository(input@, opt_text(alias)) == Some(repo@),
                Err(e) => {
                    &&& spec_repository(input@, opt_text(alias)) is None
                    &&& e matches SwarmError::InvalidRepository(t) && t@ == trim(input@)
                },
            },
    {
        let v = chars_of(input);
        let (host, owner, name) = match parse_repository_input(&v) {
            Ok(t) => t,
            Err(e) => {
                return Err(SwarmError::InvalidRepository(span_string(input, e)));
            },
        };
        let name_text = span_string(input, name);
        let chosen = match alias {
            Some(a) => {
                let av = chars_of(a);
                let (x, y) = trim_range(&av, 0, av.len(), CharClass::Whitespace);
                assert(av@.subrange(0, av@.len() as int) =~= a@);
                if x < y {
                    span_string(a, (x, y))
                } else {
                    name_text.clone()
                }
            },
            None => name_text.clone(),
        };
        Ok(
            Repository {
                host: span_string(input, host),
                owner: span_string(input, owner),
                name: name_text,
                alias: Some(chosen),
            },
        )
    }
}


/// The canonical name `host/owner/name` of a repository.
pub open spec fn canonical_text(host: Seq<char>, owner: Seq<char>, name: Seq<char>) -> Seq<char> {
    host + seq!['/'] + owner + seq!['/'] + name
}

/// The host that serves the remote of a repository on `host`: the short names
/// `github`, `gitlab`, `codeberg` and `bitbucket` stand for their sites.
pub open spec fn spec_resolve_remote_host(host: Seq<char>) -> Seq<char> {
    if host == "github"@ {
        "github.com"@
    } else if host == "gitlab"@ {
        "gitlab.com"@
    } else if host == "codeberg"@ {
        "codeberg.org"@
    } else if host == "bitbucket"@ {
        "bitbucket.org"@
    } else {
        host
    }
}

/// The clone URL `https://remote-host/owner/name.git` of a repository.
pub open spec fn remote_url_text(host: Seq<char>, owner: Seq<char>, name: Seq<char>) -> Seq<char> {
    https_scheme() + spec_resolve_remote_host(host) + seq!['/'] + owner + seq!['/'] + name
        + git_suffix()
}

/// The host that serves the remote of a repository on `host`.
pub fn resolve_remote_host<'a>(host: &'a str) -> (r: &'a str)
    ensures
        r@ == spec_resolve_remote_host(host@),
{
    if text_equals(host, "github") {
        "github.com"
    } else if text_equals(host, "gitlab") {
        "gitlab.com"
    } else if text_equals(host, "codeberg") {
        "codeberg.org"
    } else if text_equals(host, "bitbucket") {
        "bitbucket.org"
    } else {
        host
    }
}

impl Repository {
    /// The canonical name `host/owner/name`.
    pub fn canonical(&self) -> (r: String)
        ensures
            r@ == canonical_text(self.host@, self.owner@, self.name@),
    {
        let mut out = self.host.clone();
        out.append("/");
        out.append(self.owner.as_str());
        out.append("/");
        out.append(self.name.as_str());
        proof {
            reveal_strlit("/");
        }
        out
    }

    /// The clone URL `https://remote-host/owner/name.git`.
    pub fn remote_url(&self) -> (r: String)
        ensures
            r@ == remote_url_text(self.host@, self.owner@, self.name@),
    {
        let mut out = String::from_str("https://");
        out.append(resolve_remote_host(self.host.as_str()));
        out.append("/");
        out.append(self.owner.as_str());
        out.append("/");
        out.append(self.name.as_str());
        out.append(".git");
        proof {
            reveal_strlit("https://");
            reveal_strlit("/");
            reveal_strlit(".git");
        }
        out
    }
}

/// The text that `format!("{:?}", s)` gives for the text `s`.
pub uninterp spec fn debug_text(s: Seq<char>) -> Seq<char>;

/// Formats `s` with `<str as core::fmt::Debug>::fmt`. The contract only names
/// the result: that it is `s` in double quotes with special characters
/// escaped is not stated.
#[verifier::external_body]
fn debug_str(s: &str) -> (r: String)
    ensures
        r@ == debug_text(s@),
{
    format!("{:?}", s)
}

/// The line `key = quoted` of a metadata file.
pub open spec fn quoted_line(key: Seq<char>, quoted: Seq<char>) -> Seq<char> {
    key + " = "@ + quoted + "\n"@
}

/// The `key = value` line of a metadata file, with the value in debug form.
pub open spec fn meta_line(key: Seq<char>, value: Seq<char>) -> Seq<char> {
    quoted_line(key, debug_text(value))
}

/// The metadata file of a repository: its host, owner, name, canonical name
/// and, where it has one, its alias.
pub open spec fn meta_toml_text(repo: RepositoryView) -> Seq<char> {
    meta_line("host"@, repo.host) + meta_line("owner"@, repo.owner) + meta_line("name"@, repo.name)
        + meta_line("canonical"@, canonical_text(repo.host, repo.owner, repo.name)) + match repo.alias {
        Some(a) => meta_line("alias"@, a),
        None => Seq::empty(),
    }
}

/// Appends the line `key = quoted` to `out`, where `quoted` is a value already
/// in debug form.
pub fn push_quoted_line(out: &mut String, key: &str, quoted: &str)
    ensures
        final(out)@ == old(out)@ + quoted_line(key@, quoted@),
{
    out.append(key);
    out.append(" = ");
    out.append(quoted);
    out.append("\n");
}

/// Appends the line `key = value` to `out`, with the value in debug form.
fn push_meta_line(out: &mut String, key: &str, value: &str)
    ensures
        final(out)@ == old(out)@ + meta_line(key@, value@),
{
    let quoted = debug_str(value);
    push_quoted_line(out, key, quoted.as_str());
}

/// The metadata file that is written beside a registered repository.
pub fn render_meta_toml(repo: &Repository) -> (r: String)
    ensures
        r@ == meta_toml_text(repo@),
{
    let mut out = String::new();
    push_meta_line(&mut out, "host", repo.host.as_str());
    push_meta_line(&mut out, "owner", repo.owner.as_str());
    push_meta_line(&mut out, "name", repo.name.as_str());
    let canonical = repo.canonical();
    push_meta_line(&mut out, "canonical", canonical.as_str());
    match &repo.alias {
        Some(alias) => push_meta_line(&mut out, "alias", alias.as_str()),
        None => {},
    }
    assert(out@ =~= meta_toml_text(repo@));
    out
}


// ---------------------------------------------------------------------------
// The clock
// ---------------------------------------------------------------------------

/// `std::time::SystemTime`, carried through opaquely.
#[verifier::external_type_specification]
#[verifier::external_body]
pub struct ExSystemTime(std::time::SystemTime);

/// `std::time::SystemTimeError`, carried through opaquely.
#[verifier::external_type_specification]
#[verifier::external_body]
pub struct ExSystemTimeError(std::time::SystemTimeError);

/// Reads the system clock with `std::time::SystemTime::now`; nothing is stated
/// of the time read.
#[verifier::external_body]
fn system_now() -> std::time::SystemTime {
    std::time::SystemTime::now()
}

/// Calls `SystemTime::duration_since` with the Unix epoch; nothing is stated
/// of the outcome, which rests on the clock.
#[verifier::external_body]
fn elapsed_since_epoch(t: &std::time::SystemTime) -> Result<
    core::time::Duration,
    std::time::SystemTimeError,
> {
    t.duration_since(std::time::UNIX_EPOCH)
}

/// Calls `Duration::as_secs`; nothing is stated of the whole seconds returned.
#[verifier::external_body]
fn whole_seconds(d: &core::time::Duration) -> u64 {
    d.as_secs()
}

/// The timestamp recorded for `secs` whole seconds since the Unix epoch, or 0
/// where the clock is before the epoch; seconds beyond `i64::MAX` wrap as an
/// `as` cast does.
pub fn timestamp_from_elapsed(secs: Option<u64>) -> (r: i64)
    ensures
        r == match secs {
            Some(s) => s as i64,
            None => 0,
        },
{
    match secs {
        Some(s) => s as i64,
        None => 0,
    }
}

/// The current Unix time in whole seconds, as `timestamp_from_elapsed` computes
/// it from the clock.
pub fn unix_timestamp() -> i64 {
    let now = system_now();
    let secs = match elapsed_since_epoch(&now) {
        Ok(d) => Some(whole_seconds(&d)),
        Err(_) => None,
    };
    timestamp_from_elapsed(secs)
}

// ---------------------------------------------------------------------------
// The decisions of the repository index around its queries
// ---------------------------------------------------------------------------

/// What the index does next while it registers a repository.
#[derive(Debug)]
pub enum AddStep {
    /// Look the repository up by host, owner and name.
    FindRepository(Repository),
    /// Look up whether the repository's alias is taken.
    FindAlias(Repository),
    /// Create the repository's directory, metadata and database, and record it.
    Create(Repository),
    /// Give up with the error.
    Fail(SwarmError),
}

/// The first step of registering `repository` under `alias`: the reference is
/// parsed, and the repository looked up, or the registration fails.
pub fn add_start(repository: &str, alias: Option<&str>) -> (r: AddStep)
    ensures
        match r {
            AddStep::FindRepository(repo) => spec_repository(repository@, opt_text(alias)) == Some(
                repo@,
            ),
            AddStep::Fail(e) => {
                &&& spec_repository(repository@, opt_text(alias)) is None
                &&& e matches SwarmError::InvalidRepository(t) && t@ == trim(repository@)
            },
            _ => false,
        },
{
    match Repository::parse(repository, alias) {
        Ok(repo) => AddStep::FindRepository(repo),
        Err(e) => AddStep::Fail(e),
    }
}

/// The step after looking `repo` up: a repository that is already registered
/// is refused by its canonical name; otherwise its alias is looked up, or,
/// without an alias, it is created.
pub fn add_after_find_repository(repo: Repository, found: bool) -> (r: AddStep)
    ensures
        found ==> (r matches AddStep::Fail(e) && e matches SwarmError::DuplicateRepository(c)
            && c@ == canonical_text(repo@.host, repo@.owner, repo@.name)),
        !found && repo.alias is Some ==> r == AddStep::FindAlias(repo),
        !found && repo.alias is None ==> r == AddStep::Create(repo),
{
    if found {
        AddStep::Fail(SwarmError::DuplicateRepository(repo.canonical()))
    } else if repo.alias.is_some() {
        AddStep::FindAlias(repo)
    } else {
        AddStep::Create(repo)
    }
}

/// The step after looking up the alias of `repo`: a taken alias is refused,
/// otherwise the repository is created.
pub fn add_after_find_alias(repo: Repository, taken: bool) -> (r: AddStep)
    ensures
        (taken && repo.alias is Some) ==> (r matches AddStep::Fail(e)
            && e matches SwarmError::DuplicateAlias(a) && a@ == repo@.alias.unwrap()),
        !(taken && repo.alias is Some) ==> r == AddStep::Create(repo),
{
    if taken {
        match &repo.alias {
            Some(a) => {
                return AddStep::Fail(SwarmError::DuplicateAlias(a.clone()));
            },
            None => {},
        }
    }
    AddStep::Create(repo)
}

/// What the index does next while it resolves a reference.
#[derive(Debug)]
pub enum ResolveStep {
    /// Look the repository up by host, owner and name.
    FindRepository(Repository),
    /// The reference resolves to this, or to nothing.
    Done(Option<Repository>),
}

/// The step after looking `reference` up as an alias: a repository found by
/// alias is the answer; otherwise a reference that parses is looked up by its
/// host, owner and name, and one that does not resolves to nothing.
pub fn resolve_after_alias(reference: &str, by_alias: Option<Repository>) -> (r: ResolveStep)
    ensures
        by_alias is Some ==> r == ResolveStep::Done(by_alias),
        by_alias is None ==> match spec_parse_repository(reference@) {
            Some((h, o, n)) => r matches ResolveStep::FindRepository(key) && key@ == RepositoryView {
                host: h,
                owner: o,
                name: n,
                alias: None,
            },
            None => r == ResolveStep::Done(None),
        },
{
    match by_alias {
        Some(repo) => ResolveStep::Done(Some(repo)),
        None => match Repository::parse(reference, Some("placeholder")) {
            Ok(repo) => ResolveStep::FindRepository(
                Repository { host: repo.host, owner: repo.owner, name: repo.name, alias: None },
            ),
            Err(_) => ResolveStep::Done(None),
        },
    }
}

/// The repository that `remove` deletes: the one `reference` resolved to, or
/// the error that none matches.
pub fn remove_target(reference: &str, resolved: Option<Repository>) -> (r: Result<
    Repository,
    SwarmError,
>)
    ensures
        match resolved {
            Some(repo) => r == Ok::<Repository, SwarmError>(repo),
            None => r matches Err(SwarmError::RepositoryNotFound(t)) && t@ == reference@,
        },
{
    match resolved {
        Some(repo) => Ok(repo),
        None => Err(SwarmError::RepositoryNotFound(String::from_str(reference))),
    }
}

} // verus!
