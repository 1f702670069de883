//! Laws of repository references: what a parse gives, and which names and
//! URLs of a repository parse back to it.
use vstd::prelude::*;

use crate::paths::{joined_path, repo_dir_text};
use crate::repos::{
    debug_text, meta_toml_text,
    canonical_text, git_user, http_scheme, https_scheme, remote_url_text, spec_parse_canonical,
    spec_parse_repository, spec_parse_repository_path, spec_parse_repository_url,
    spec_parse_url_like, spec_repository, spec_resolve_remote_host, ssh_scheme, valid_parts, Parts,
    RepositoryView,
};
use crate::text::{
    git_suffix, has_ws, is_ws, lemma_index_of_first_concat, lemma_rsplit_once_none,
    lemma_split_once_none, lemma_strip_git_appended, lemma_trim_class_chars,
    lemma_trim_class_fixed, lemma_trim_idempotent, rsplit_once, split_once, strip_git_suffixes,
    trim, trim_class, CharClass,
};

verus! {

/// A non-empty text without whitespace is its own trim.
proof fn lemma_trim_solid(s: Seq<char>)
    requires
        s.len() > 0,
        !has_ws(s),
    ensures
        trim(s) == s,
{
    assert(!is_ws(s[0]));
    assert(!is_ws(s[s.len() - 1]));
    lemma_trim_class_fixed(s, CharClass::Whitespace);
}

/// A text that does not end with `.git` keeps its end.
proof fn lemma_strip_git_none(s: Seq<char>)
    requires
        !git_suffix().is_suffix_of(s),
    ensures
        strip_git_suffixes(s) == s,
{
}

/// Reading a reference ignores whitespace around it.
pub proof fn law_parse_ignores_surrounding_whitespace(input: Seq<char>)
    ensures
        spec_parse_repository(trim(input)) == spec_parse_repository(input),
{
    lemma_trim_idempotent(input);
}

/// The canonical name of a repository reads back as that repository, unless
/// the host holds a slash, the name ends in `.git`, or the host starts with
/// `git@` and a colon occurs in the host, owner or name (then the canonical
/// name reads as a `git@` remote).
pub proof fn law_canonical_roundtrip(host: Seq<char>, owner: Seq<char>, name: Seq<char>)
    requires
        valid_parts(host, owner, name),
        !host.contains('/'),
        !owner.contains('/'),
        !name.contains('/'),
        !git_suffix().is_suffix_of(name),
        git_user().is_prefix_of(host) ==> !host.contains(':') && !owner.contains(':')
            && !name.contains(':'),
    ensures
        spec_parse_repository(canonical_text(host, owner, name)) == Some((host, owner, name)),
{
    let c = canonical_text(host, owner, name);
    let hl = host.len() as int;
    let tail = owner + seq!['/'] + name;
    assert(c =~= host + seq!['/'] + tail);
    // The canonical name is already trimmed.
    assert(c[0] == host[0]);
    assert(c[c.len() - 1] == name[name.len() - 1]);
    assert(!is_ws(host[0]));
    assert(!is_ws(name[name.len() - 1]));
    lemma_trim_class_fixed(c, CharClass::Whitespace);
    // Where the slashes of the canonical name are.
    assert(c[hl] == '/');
    assert(c[hl + 1] == owner[0]);
    assert(owner[0] != '/') by {
        if owner[0] == '/' {
            assert(owner.contains('/'));
        }
    }
    assert forall|j: int| 0 <= j < hl implies c[j] != '/' by {
        assert(c[j] == host[j]);
        if host[j] == '/' {
            assert(host.contains('/'));
        }
    }
    // It is not a URL.
    assert(!https_scheme().is_prefix_of(c)) by {
        if https_scheme().is_prefix_of(c) {
            assert(c[6] == https_scheme()[6]);
            assert(c[7] == https_scheme()[7]);
            if hl < 6 {
                assert(c[hl] == https_scheme()[hl]);
            }
        }
    }
    assert(!http_scheme().is_prefix_of(c)) by {
        if http_scheme().is_prefix_of(c) {
            assert(c[5] == http_scheme()[5]);
            assert(c[6] == http_scheme()[6]);
            if hl < 5 {
                assert(c[hl] == http_scheme()[hl]);
            }
        }
    }
    assert(!ssh_scheme().is_prefix_of(c)) by {
        if ssh_scheme().is_prefix_of(c) {
            assert(c[4] == ssh_scheme()[4]);
            assert(c[5] == ssh_scheme()[5]);
            if hl < 4 {
                assert(c[hl] == ssh_scheme()[hl]);
            }
        }
    }
    if git_user().is_prefix_of(c) {
        assert(c[0] == git_user()[0]);
        assert(c[1] == git_user()[1]);
        assert(c[2] == git_user()[2]);
        assert(c[3] == git_user()[3]);
        assert(hl >= 4);
        assert(git_user() =~= host.subrange(0, 4));
        assert(git_user().is_prefix_of(host));
        let rest = c.skip(4);
        assert(!rest.contains(':')) by {
            if rest.contains(':') {
                let k = choose|k: int| 0 <= k < rest.len() && rest[k] == ':';
                let j = k + 4;
                assert(c[j] == ':');
                if j < hl {
                    assert(host[j] == ':');
                    assert(host.contains(':'));
                } else if j == hl {
                } else if j < hl + 1 + owner.len() {
                    assert(owner[j - hl - 1] == ':');
                    assert(owner.contains(':'));
                } else if j == hl + 1 + owner.len() {
                } else {
                    assert(name[j - hl - 2 - owner.len()] == ':');
                    assert(name.contains(':'));
                }
            }
        }
        lemma_split_once_none(rest, ':');
    }
    assert(spec_parse_repository_url(c) is None);
    // It reads canonically.
    lemma_index_of_first_concat(host, '/', tail);
    lemma_index_of_first_concat(owner, '/', name);
    lemma_split_once_none(name, '/');
    lemma_strip_git_none(name);
    lemma_trim_solid(host);
    lemma_trim_solid(owner);
    lemma_trim_solid(name);
    assert(spec_parse_canonical(c) == Some((host, owner, name)));
}


/// The owner and name of a parse result hold no slash, and all three parts are valid.
pub open spec fn parsed_shape(r: Option<Parts>) -> bool {
    match r {
        Some((h, o, n)) => valid_parts(h, o, n) && !o.contains('/') && !n.contains('/'),
        None => true,
    }
}

/// The part before the first `c` holds no `c`; without `c` there is no split.
proof fn lemma_split_once_parts(s: Seq<char>, c: char)
    ensures
        match split_once(s, c) {
            Some((a, b)) => !a.contains(c),
            None => !s.contains(c),
        },
{
    s.index_of_first_ensures(c);
    match s.index_of_first(c) {
        Some(i) => {
            let a = s.take(i);
            assert forall|j: int| 0 <= j < a.len() implies a[j] != c by {
                assert(a[j] == s[j]);
            }
        },
        None => {},
    }
}

/// Trimming keeps a character away.
proof fn lemma_trim_keeps_out(s: Seq<char>, class: CharClass, c: char)
    requires
        !s.contains(c),
    ensures
        !trim_class(s, class).contains(c),
{
    let t = trim_class(s, class);
    assert forall|i: int| 0 <= i < t.len() implies t[i] != c by {
        lemma_trim_class_chars(s, class, i);
    }
}

/// Stripping `.git` suffixes leaves a prefix of the text.
proof fn lemma_strip_git_prefix(s: Seq<char>)
    ensures
        strip_git_suffixes(s).is_prefix_of(s),
    decreases s.len(),
{
    if git_suffix().is_suffix_of(s) {
        let t = s.take(s.len() - 4);
        lemma_strip_git_prefix(t);
        assert(strip_git_suffixes(s) =~= s.subrange(0, strip_git_suffixes(s).len() as int));
    } else {
        assert(s =~= s.subrange(0, s.len() as int));
    }
}

/// Stripping `.git` suffixes keeps a character away.
proof fn lemma_strip_git_keeps_out(s: Seq<char>, c: char)
    requires
        !s.contains(c),
    ensures
        !strip_git_suffixes(s).contains(c),
{
    lemma_strip_git_prefix(s);
    let t = strip_git_suffixes(s);
    assert forall|i: int| 0 <= i < t.len() implies t[i] != c by {
        assert(t[i] == s[i]);
    }
}

proof fn lemma_path_shape(host: Seq<char>, path: Seq<char>, allow: bool)
    ensures
        parsed_shape(spec_parse_repository_path(host, path, allow)),
{
    let p = trim_class(path, CharClass::Slash);
    lemma_split_once_parts(p, '/');
    match split_once(p, '/') {
        Some((first, rest)) => {
            lemma_split_once_parts(rest, '/');
            let second = match split_once(rest, '/') {
                Some((s, _)) => s,
                None => rest,
            };
            assert(!second.contains('/'));
            lemma_trim_keeps_out(first, CharClass::Whitespace, '/');
            lemma_strip_git_keeps_out(second, '/');
            lemma_trim_keeps_out(strip_git_suffixes(second), CharClass::Whitespace, '/');
        },
        None => {},
    }
}

proof fn lemma_url_like_shape(input: Seq<char>)
    ensures
        parsed_shape(spec_parse_url_like(input)),
{
    match split_once(input, '/') {
        Some((authority, path)) => {
            let host = match rsplit_once(authority, '@') {
                Some((_, h)) => h,
                None => authority,
            };
            lemma_path_shape(host, path, true);
        },
        None => {},
    }
}

proof fn lemma_canonical_shape(input: Seq<char>)
    ensures
        parsed_shape(spec_parse_canonical(input)),
{
    match split_once(input, '/') {
        Some((first, rest)) => {
            lemma_split_once_parts(rest, '/');
            match split_once(rest, '/') {
                Some((second, third)) => {
                    lemma_trim_keeps_out(second, CharClass::Whitespace, '/');
                    lemma_split_once_parts(third, '/');
                    if split_once(third, '/') is None {
                        lemma_strip_git_keeps_out(third, '/');
                        lemma_trim_keeps_out(
                            strip_git_suffixes(third),
                            CharClass::Whitespace,
                            '/',
                        );
                    }
                },
                None => {},
            }
        },
        None => {},
    }
}

/// Every repository that a reference names has a non-empty host, owner and
/// name without whitespace, and its owner and name hold no slash.
pub proof fn law_parse_shape(input: Seq<char>)
    ensures
        parsed_shape(spec_parse_repository(input)),
{
    let t = trim(input);
    lemma_url_like_shape(t.skip(8));
    lemma_url_like_shape(t.skip(7));
    lemma_url_like_shape(t.skip(6));
    lemma_url_like_shape(t.skip(6).skip(4));
    match split_once(t.skip(4), ':') {
        Some((h, p)) => lemma_path_shape(h, p, true),
        None => {},
    }
    lemma_canonical_shape(t);
}


/// A literal host name is non-empty, free of whitespace, slashes and `@`.
proof fn lemma_solid_host_literal(s: Seq<char>)
    requires
        s == "github.com"@ || s == "gitlab.com"@ || s == "codeberg.org"@ || s == "bitbucket.org"@,
    ensures
        s.len() > 0,
        !has_ws(s),
        !s.contains('/'),
        !s.contains('@'),
{
    reveal_strlit("github.com");
    reveal_strlit("gitlab.com");
    reveal_strlit("codeberg.org");
    reveal_strlit("bitbucket.org");
    assert forall|i: int| 0 <= i < s.len() implies !is_ws(s[i]) && s[i] != '/' && s[i] != '@' by {
        if s == "github.com"@ {
        } else if s == "gitlab.com"@ {
        } else if s == "codeberg.org"@ {
        } else {
        }
    }
}

/// The remote host of a host without slash and `@` is again such a host.
proof fn lemma_remote_host_shape(host: Seq<char>)
    requires
        host.len() > 0,
        !has_ws(host),
        !host.contains('/'),
        !host.contains('@'),
    ensures
        spec_resolve_remote_host(host).len() > 0,
        !has_ws(spec_resolve_remote_host(host)),
        !spec_resolve_remote_host(host).contains('/'),
        !spec_resolve_remote_host(host).contains('@'),
{
    let r = spec_resolve_remote_host(host);
    if r != host {
        lemma_solid_host_literal(r);
    }
}

/// A path `owner/segment`, or `owner/segment/extra`, after a host.
pub open spec fn path_of(owner: Seq<char>, segment: Seq<char>, extra: Option<Seq<char>>) -> Seq<
    char,
> {
    match extra {
        None => owner + seq!['/'] + segment,
        Some(e) => owner + seq!['/'] + (segment + seq!['/'] + e),
    }
}

/// A path whose first segment is `owner` and whose second segment names
/// `name` reads as `owner` and `name` on `host`, whatever follows them.
proof fn lemma_path_reads(
    host: Seq<char>,
    owner: Seq<char>,
    name: Seq<char>,
    segment: Seq<char>,
    extra: Option<Seq<char>>,
)
    requires
        valid_parts(host, owner, name),
        !owner.contains('/'),
        !segment.contains('/'),
        segment.len() > 0,
        trim(strip_git_suffixes(segment)) == name,
        match extra {
            Some(e) => e.len() > 0 && e.last() != '/',
            None => segment.last() != '/',
        },
    ensures
        spec_parse_repository_path(host, path_of(owner, segment, extra), true) == Some(
            (host, owner, name),
        ),
{
    let path = path_of(owner, segment, extra);
    let rest = match extra {
        None => segment,
        Some(e) => segment + seq!['/'] + e,
    };
    assert(path =~= owner + seq!['/'] + rest);
    assert(path[0] == owner[0]);
    assert(owner[0] != '/') by {
        if owner[0] == '/' {
            assert(owner.contains('/'));
        }
    }
    match extra {
        None => {
            assert(path[path.len() - 1] == segment.last());
            lemma_split_once_none(segment, '/');
        },
        Some(e) => {
            assert(path[path.len() - 1] == e.last());
            lemma_index_of_first_concat(segment, '/', e);
        },
    }
    lemma_trim_class_fixed(path, CharClass::Slash);
    lemma_index_of_first_concat(owner, '/', rest);
    lemma_trim_solid(host);
    lemma_trim_solid(owner);
}

/// A name followed by `.git` still names the name.
proof fn lemma_git_named(name: Seq<char>)
    requires
        name.len() > 0,
        !has_ws(name),
        !name.contains('/'),
        !git_suffix().is_suffix_of(name),
    ensures
        trim(strip_git_suffixes(name + git_suffix())) == name,
        trim(strip_git_suffixes(name)) == name,
        !(name + git_suffix()).contains('/'),
        (name + git_suffix()).last() == 't',
{
    let named = name + git_suffix();
    assert(!named.contains('/')) by {
        if named.contains('/') {
            let k = choose|k: int| 0 <= k < named.len() && named[k] == '/';
            if k < name.len() {
                assert(name[k] == '/');
                assert(name.contains('/'));
            }
        }
    }
    lemma_strip_git_appended(name);
    lemma_strip_git_none(name);
    lemma_trim_solid(name);
}

/// A URL that starts with `https://` and whose authority is a host without
/// `@` reads as the repository at the path on that host.
proof fn lemma_https_url(host: Seq<char>, path: Seq<char>)
    requires
        !host.contains('/'),
        !host.contains('@'),
        host.len() > 0,
        !is_ws(host[0]),
        path.len() > 0,
        !is_ws(path[path.len() - 1]),
    ensures
        trim(https_scheme() + (host + seq!['/'] + path)) == https_scheme() + (host + seq!['/']
            + path),
        spec_parse_repository_url(https_scheme() + (host + seq!['/'] + path))
            == spec_parse_repository_path(host, path, true),
{
    let after = host + seq!['/'] + path;
    let u = https_scheme() + after;
    assert(u[0] == 'h');
    assert(u[u.len() - 1] == path[path.len() - 1]);
    lemma_trim_class_fixed(u, CharClass::Whitespace);
    assert(https_scheme() =~= u.subrange(0, 8));
    assert(u.skip(8) =~= after);
    lemma_index_of_first_concat(host, '/', path);
    lemma_rsplit_once_none(host, '@');
    assert(https_scheme().is_prefix_of(u));
    assert(spec_parse_url_like(after) == spec_parse_repository_path(host, path, true));
}

/// The clone URL of a repository reads back as the repository on its remote
/// host, unless the host holds a slash or `@`, or the name ends in `.git`.
pub proof fn law_remote_url_roundtrip(host: Seq<char>, owner: Seq<char>, name: Seq<char>)
    requires
        valid_parts(host, owner, name),
        !host.contains('/'),
        !host.contains('@'),
        !owner.contains('/'),
        !name.contains('/'),
        !git_suffix().is_suffix_of(name),
    ensures
        spec_parse_repository(remote_url_text(host, owner, name)) == Some(
            (spec_resolve_remote_host(host), owner, name),
        ),
{
    let r = spec_resolve_remote_host(host);
    lemma_remote_host_shape(host);
    let path = owner + seq!['/'] + (name + git_suffix());
    assert(remote_url_text(host, owner, name) =~= https_scheme() + (r + seq!['/'] + path));
    assert(!is_ws(r[0]));
    assert(path[path.len() - 1] == 't');
    lemma_https_url(r, path);
    lemma_git_named(name);
    assert(path == path_of(owner, name + git_suffix(), None));
    lemma_path_reads(r, owner, name, name + git_suffix(), None);
}


/// A repository read from any reference is read again from its canonical
/// name, whatever alias is given then, unless its host holds a slash, its name
/// ends in `.git`, or its host starts with `git@` while a colon occurs in its
/// host, owner or name.
pub proof fn law_parsed_canonical_roundtrip(
    input: Seq<char>,
    alias: Option<Seq<char>>,
    repo: RepositoryView,
    later_alias: Option<Seq<char>>,
)
    requires
        spec_repository(input, alias) == Some(repo),
        !repo.host.contains('/'),
        !git_suffix().is_suffix_of(repo.name),
        git_user().is_prefix_of(repo.host) ==> !repo.host.contains(':') && !repo.owner.contains(
            ':',
        ) && !repo.name.contains(':'),
    ensures
        spec_repository(canonical_text(repo.host, repo.owner, repo.name), later_alias) matches Some(
            again,
        ) && again.host == repo.host && again.owner == repo.owner && again.name == repo.name,
{
    law_parse_shape(input);
    law_canonical_roundtrip(repo.host, repo.owner, repo.name);
}


/// A URL without its scheme whose authority is a host without slash and `@`
/// reads as the repository at the path on that host.
proof fn lemma_url_like_reads(host: Seq<char>, path: Seq<char>)
    requires
        !host.contains('/'),
        !host.contains('@'),
    ensures
        spec_parse_url_like(host + seq!['/'] + path) == spec_parse_repository_path(host, path, true),
{
    lemma_index_of_first_concat(host, '/', path);
    lemma_rsplit_once_none(host, '@');
}

/// A text that starts with a letter and ends with a non-whitespace character
/// is its own trim.
proof fn lemma_trim_url(u: Seq<char>, last: char)
    requires
        u.len() > 0,
        u[0] == 'h' || u[0] == 's' || u[0] == 'g',
        u[u.len() - 1] == last,
        !is_ws(last),
    ensures
        trim(u) == u,
{
    lemma_trim_class_fixed(u, CharClass::Whitespace);
}

/// `http://host/path` reads as the repository at the path on the host.
proof fn lemma_http_url(host: Seq<char>, path: Seq<char>)
    requires
        !host.contains('/'),
        !host.contains('@'),
        path.len() > 0,
        !is_ws(path.last()),
    ensures
        trim(http_scheme() + (host + seq!['/'] + path)) == http_scheme() + (host + seq!['/'] + path),
        spec_parse_repository_url(http_scheme() + (host + seq!['/'] + path))
            == spec_parse_repository_path(host, path, true),
{
    let after = host + seq!['/'] + path;
    let u = http_scheme() + after;
    lemma_trim_url(u, path.last());
    assert(!https_scheme().is_prefix_of(u)) by {
        if https_scheme().is_prefix_of(u) {
            assert(u[4] == https_scheme()[4]);
        }
    }
    assert(http_scheme() =~= u.subrange(0, 7));
    assert(u.skip(7) =~= after);
    lemma_url_like_reads(host, path);
}

/// `ssh://host/path` and `ssh://git@host/path` read as the repository at the
/// path on the host.
proof fn lemma_ssh_url(host: Seq<char>, path: Seq<char>)
    requires
        !host.contains('/'),
        !host.contains('@'),
        path.len() > 0,
        !is_ws(path.last()),
    ensures
        spec_parse_repository_url(ssh_scheme() + (host + seq!['/'] + path))
            == spec_parse_repository_path(host, path, true),
        spec_parse_repository_url(ssh_scheme() + (git_user() + (host + seq!['/'] + path)))
            == spec_parse_repository_path(host, path, true),
        trim(ssh_scheme() + (host + seq!['/'] + path)) == ssh_scheme() + (host + seq!['/'] + path),
        trim(ssh_scheme() + (git_user() + (host + seq!['/'] + path))) == ssh_scheme() + (
        git_user() + (host + seq!['/'] + path)),
{
    let after = host + seq!['/'] + path;
    let u = ssh_scheme() + after;
    let w = ssh_scheme() + (git_user() + after);
    lemma_trim_url(u, path.last());
    lemma_trim_url(w, path.last());
    assert(!https_scheme().is_prefix_of(u)) by {
        if https_scheme().is_prefix_of(u) {
            assert(u[0] == https_scheme()[0]);
        }
    }
    assert(!http_scheme().is_prefix_of(u)) by {
        if http_scheme().is_prefix_of(u) {
            assert(u[0] == http_scheme()[0]);
        }
    }
    assert(!https_scheme().is_prefix_of(w)) by {
        if https_scheme().is_prefix_of(w) {
            assert(w[0] == https_scheme()[0]);
        }
    }
    assert(!http_scheme().is_prefix_of(w)) by {
        if http_scheme().is_prefix_of(w) {
            assert(w[0] == http_scheme()[0]);
        }
    }
    assert(ssh_scheme() =~= u.subrange(0, 6));
    assert(ssh_scheme() =~= w.subrange(0, 6));
    assert(u.skip(6) =~= after);
    assert(w.skip(6) =~= git_user() + after);
    assert(git_user() =~= (git_user() + after).subrange(0, 4));
    assert((git_user() + after).skip(4) =~= after);
    // The host does not start with `git@`.
    assert(!git_user().is_prefix_of(after)) by {
        if git_user().is_prefix_of(after) {
            assert(after[3] == '@');
            if host.len() > 3 {
                assert(host[3] == '@');
                assert(host.contains('@'));
            } else {
                assert(after[host.len() as int] == '/');
                assert(after[host.len() as int] == git_user()[host.len() as int]);
            }
        }
    }
    lemma_url_like_reads(host, path);
}

/// `git@host:path` reads as the repository at the path on the host.
proof fn lemma_git_remote(host: Seq<char>, path: Seq<char>)
    requires
        !host.contains(':'),
        path.len() > 0,
        !is_ws(path.last()),
    ensures
        spec_parse_repository_url(git_user() + (host + seq![':'] + path))
            == spec_parse_repository_path(host, path, true),
        trim(git_user() + (host + seq![':'] + path)) == git_user() + (host + seq![':'] + path),
{
    let after = host + seq![':'] + path;
    let u = git_user() + after;
    lemma_trim_url(u, path.last());
    assert(!https_scheme().is_prefix_of(u)) by {
        if https_scheme().is_prefix_of(u) {
            assert(u[0] == https_scheme()[0]);
        }
    }
    assert(!http_scheme().is_prefix_of(u)) by {
        if http_scheme().is_prefix_of(u) {
            assert(u[0] == http_scheme()[0]);
        }
    }
    assert(!ssh_scheme().is_prefix_of(u)) by {
        if ssh_scheme().is_prefix_of(u) {
            assert(u[0] == ssh_scheme()[0]);
        }
    }
    assert(git_user() =~= u.subrange(0, 4));
    assert(u.skip(4) =~= after);
    lemma_index_of_first_concat(host, ':', path);
}

/// A trimmed text that reads as a URL is read as that URL.
proof fn lemma_parse_via_url(u: Seq<char>)
    requires
        trim(u) == u,
        spec_parse_repository_url(u) is Some,
    ensures
        spec_parse_repository(u) == spec_parse_repository_url(u),
{
}

/// Every remote spelling of a repository reads as that repository: its
/// `https://` URL with or without `.git`, with further path segments after
/// the name, its `http://` URL, its `ssh://` URL with or without the `git@`
/// user, and its `git@host:owner/name.git` remote; unless the host holds a
/// slash, `@` or a colon, or the name ends in `.git`.
pub proof fn law_remote_spellings_agree(
    host: Seq<char>,
    owner: Seq<char>,
    name: Seq<char>,
    extra: Seq<char>,
)
    requires
        valid_parts(host, owner, name),
        !host.contains('/'),
        !host.contains('@'),
        !host.contains(':'),
        !owner.contains('/'),
        !name.contains('/'),
        !git_suffix().is_suffix_of(name),
        extra.len() > 0,
        extra.last() != '/',
        !is_ws(extra.last()),
    ensures
        spec_parse_repository(https_scheme() + (host + seq!['/'] + path_of(owner, name, None)))
            == Some((host, owner, name)),
        spec_parse_repository(
            https_scheme() + (host + seq!['/'] + path_of(owner, name + git_suffix(), None)),
        ) == Some((host, owner, name)),
        spec_parse_repository(
            https_scheme() + (host + seq!['/'] + path_of(owner, name, Some(extra))),
        ) == Some((host, owner, name)),
        spec_parse_repository(http_scheme() + (host + seq!['/'] + path_of(owner, name, None)))
            == Some((host, owner, name)),
        spec_parse_repository(
            ssh_scheme() + (host + seq!['/'] + path_of(owner, name + git_suffix(), None)),
        ) == Some((host, owner, name)),
        spec_parse_repository(
            ssh_scheme() + (git_user() + (host + seq!['/'] + path_of(
                owner,
                name + git_suffix(),
                None,
            ))),
        ) == Some((host, owner, name)),
        spec_parse_repository(
            git_user() + (host + seq![':'] + path_of(owner, name + git_suffix(), None)),
        ) == Some((host, owner, name)),
{
    lemma_git_named(name);
    assert(!is_ws(host[0]));
    assert(!is_ws(name.last()));
    let plain = path_of(owner, name, None);
    let dotted = path_of(owner, name + git_suffix(), None);
    let longer = path_of(owner, name, Some(extra));
    assert(plain.last() == name.last());
    assert(dotted.last() == 't');
    assert(longer.last() == extra.last());
    lemma_path_reads(host, owner, name, name, None);
    lemma_path_reads(host, owner, name, name + git_suffix(), None);
    lemma_path_reads(host, owner, name, name, Some(extra));
    let found = Some((host, owner, name));
    assert(spec_parse_repository(https_scheme() + (host + seq!['/'] + plain)) == found) by {
        lemma_https_url(host, plain);
        lemma_parse_via_url(https_scheme() + (host + seq!['/'] + plain));
    }
    assert(spec_parse_repository(https_scheme() + (host + seq!['/'] + dotted)) == found) by {
        lemma_https_url(host, dotted);
        lemma_parse_via_url(https_scheme() + (host + seq!['/'] + dotted));
    }
    assert(spec_parse_repository(https_scheme() + (host + seq!['/'] + longer)) == found) by {
        lemma_https_url(host, longer);
        lemma_parse_via_url(https_scheme() + (host + seq!['/'] + longer));
    }
    assert(spec_parse_repository(http_scheme() + (host + seq!['/'] + plain)) == found) by {
        lemma_http_url(host, plain);
        lemma_parse_via_url(http_scheme() + (host + seq!['/'] + plain));
    }
    assert(spec_parse_repository(ssh_scheme() + (host + seq!['/'] + dotted)) == found) by {
        lemma_ssh_url(host, dotted);
        lemma_parse_via_url(ssh_scheme() + (host + seq!['/'] + dotted));
    }
    assert(spec_parse_repository(ssh_scheme() + (git_user() + (host + seq!['/'] + dotted)))
        == found) by {
        lemma_ssh_url(host, dotted);
        lemma_parse_via_url(ssh_scheme() + (git_user() + (host + seq!['/'] + dotted)));
    }
    assert(spec_parse_repository(git_user() + (host + seq![':'] + dotted)) == found) by {
        lemma_git_remote(host, dotted);
        lemma_parse_via_url(git_user() + (host + seq![':'] + dotted));
    }
}


/// The directory of a repository is the repositories directory joined with
/// its host, then its owner, then its name; the alias plays no part, so two
/// repositories that agree on host, owner and name share their directory (and
/// every path under it) whatever their aliases.
pub proof fn law_repo_dir_ignores_alias(repos_dir: Seq<char>, a: RepositoryView, b: RepositoryView)
    requires
        a.host == b.host,
        a.owner == b.owner,
        a.name == b.name,
    ensures
        repo_dir_text(repos_dir, a) == repo_dir_text(repos_dir, b),
        repo_dir_text(repos_dir, a) == joined_path(
            joined_path(joined_path(repos_dir, a.host), a.owner),
            a.name,
        ),
{
}

/// Only the exact short names `github`, `gitlab`, `codeberg` and `bitbucket`
/// stand for a public site; every other host, including one that merely
/// starts with such a name, serves its own remote.
pub proof fn law_remote_host_kept(host: Seq<char>)
    ensures
        host != "github"@ && host != "gitlab"@ && host != "codeberg"@ && host != "bitbucket"@
            ==> spec_resolve_remote_host(host) == host,
        host == "github"@ ==> spec_resolve_remote_host(host) == "github.com"@,
        host == "gitlab"@ ==> spec_resolve_remote_host(host) == "gitlab.com"@,
        host == "codeberg"@ ==> spec_resolve_remote_host(host) == "codeberg.org"@,
        host == "bitbucket"@ ==> spec_resolve_remote_host(host) == "bitbucket.org"@,
        host != "github"@ && host != "gitlab"@ && host != "codeberg"@ && host != "bitbucket"@
            ==> remote_url_text(host, seq!['o'], seq!['n']) == https_scheme() + host + seq![
            '/',
            'o',
            '/',
            'n',
        ] + git_suffix(),
{
    reveal_strlit("github");
    reveal_strlit("gitlab");
    reveal_strlit("codeberg");
    reveal_strlit("bitbucket");
    assert("gitlab"@[3] != "github"@[3]);
    assert("codeberg"@.len() != "github"@.len());
    assert("codeberg"@.len() != "gitlab"@.len());
    assert("bitbucket"@.len() != "github"@.len());
    assert("bitbucket"@.len() != "gitlab"@.len());
    assert("bitbucket"@.len() != "codeberg"@.len());
    if host != "github"@ && host != "gitlab"@ && host != "codeberg"@ && host != "bitbucket"@ {
        assert(remote_url_text(host, seq!['o'], seq!['n']) =~= https_scheme() + host + seq![
            '/',
            'o',
            '/',
            'n',
        ] + git_suffix());
    }
}

/// The metadata of a repository with an alias is the metadata of the same
/// repository without one, followed by the line `alias = <debug form>`,
/// whatever the alias is, the name included.
pub proof fn law_meta_alias_line(repo: RepositoryView, alias: Seq<char>)
    ensures
        meta_toml_text(RepositoryView { alias: Some(alias), ..repo }) == meta_toml_text(
            RepositoryView { alias: None, ..repo },
        ) + "alias"@ + " = "@ + debug_text(alias) + "\n"@,
        meta_toml_text(RepositoryView { alias: Some(repo.name), ..repo }) == meta_toml_text(
            RepositoryView { alias: None, ..repo },
        ) + "alias"@ + " = "@ + debug_text(repo.name) + "\n"@,
{
    let with = RepositoryView { alias: Some(alias), ..repo };
    let without = RepositoryView { alias: None, ..repo };
    assert(meta_toml_text(with) =~= meta_toml_text(without) + "alias"@ + " = "@ + debug_text(
        alias,
    ) + "\n"@);
    let named = RepositoryView { alias: Some(repo.name), ..repo };
    assert(meta_toml_text(named) =~= meta_toml_text(without) + "alias"@ + " = "@ + debug_text(
        repo.name,
    ) + "\n"@);
}

/// Every triple of non-empty parts without whitespace is accepted: its
/// canonical name reads back as it (whatever other characters, such as `-`,
/// the parts hold), under the exclusions of `law_canonical_roundtrip`.
pub proof fn law_canonical_accepts_solid_parts(host: Seq<char>, owner: Seq<char>, name: Seq<char>)
    requires
        host.len() > 0,
        owner.len() > 0,
        name.len() > 0,
        !has_ws(host),
        !has_ws(owner),
        !has_ws(name),
        !host.contains('/'),
        !owner.contains('/'),
        !name.contains('/'),
        !git_suffix().is_suffix_of(name),
        git_user().is_prefix_of(host) ==> !host.contains(':') && !owner.contains(':')
            && !name.contains(':'),
    ensures
        spec_parse_repository(canonical_text(host, owner, name)) == Some((host, owner, name)),
{
    law_canonical_roundtrip(host, owner, name);
}

/// A given alias that is not blank becomes the repository's alias with only
/// its surrounding whitespace removed: every other character is kept, in
/// order, whatever its length; an alias that is already trimmed is kept as
/// given. A blank or missing alias gives the name.
pub proof fn law_given_alias_kept(input: Seq<char>, alias: Seq<char>, repo: RepositoryView)
    requires
        spec_repository(input, Some(alias)) == Some(repo),
    ensures
        trim(alias).len() > 0 ==> repo.alias == Some(trim(alias)),
        alias.len() > 0 && !is_ws(alias[0]) && !is_ws(alias.last()) ==> repo.alias == Some(alias),
        trim(alias).len() == 0 ==> repo.alias == Some(repo.name),
{
    if alias.len() > 0 && !is_ws(alias[0]) && !is_ws(alias.last()) {
        lemma_trim_class_fixed(alias, CharClass::Whitespace);
    }
}

/// Without a given alias, a repository is known by its name.
pub proof fn law_missing_alias_is_name(input: Seq<char>, repo: RepositoryView)
    requires
        spec_repository(input, None) == Some(repo),
    ensures
        repo.alias == Some(repo.name),
{
}

} // verus!
