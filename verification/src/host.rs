//! The host of a URL: what is left of it without the scheme in front and the
//! path behind.

use crate::text::{chars_of, lemma_first_occurrence, lemma_no_occurrence, position_from};
use vstd::prelude::*;

verus! {

/// How many characters the scheme of `url` takes, its `://` included.
///
/// A URL has a scheme where its first `/` follows a `:` and is followed
/// by another `/`: the scheme is what stands in front of that `://`, and it
/// holds no `/`. Any other URL has none, and the result is 0.
pub open spec fn scheme_len(url: Seq<char>) -> int {
    match url.index_of_first('/') {
        Some(i) => if i >= 1 && url[i - 1] == ':' && i + 1 < url.len() && url[i + 1] == '/' {
            i + 2
        } else {
            0
        },
        None => 0,
    }
}

/// `url` without its scheme and the `://` behind it.
pub open spec fn without_scheme(url: Seq<char>) -> Seq<char> {
    url.skip(scheme_len(url))
}

/// The part of `s` in front of its first `/`, and all of `s` if it has none.
pub open spec fn up_to_slash(s: Seq<char>) -> Seq<char> {
    match s.index_of_first('/') {
        Some(i) => s.take(i),
        None => s,
    }
}

/// The host named by `url`: the text between the scheme, if it has one, and
/// the first `/` behind it.
pub open spec fn host_of(url: Seq<char>) -> Seq<char> {
    up_to_slash(without_scheme(url))
}

/// Strips the scheme and everything from the first `/` behind it on from
/// `url`.
pub fn canonicalize_url<'a>(url: &'a str) -> (host: &'a str)
    ensures
        host@ == host_of(url@),
{
    let chars = chars_of(url);
    let slash: usize = position_from(&chars, 0, '/');
    proof {
        if slash < chars.len() {
            lemma_first_occurrence(url@, '/', slash as int);
        } else {
            lemma_no_occurrence(url@, '/');
        }
    }
    let start: usize = if slash >= 1 && slash < chars.len() && slash + 1 < chars.len()
        && chars[slash - 1] == ':' && chars[slash + 1] == '/' {
        slash + 2
    } else {
        0
    };
    let end: usize = position_from(&chars, start, '/');
    proof {
        let rest = without_scheme(url@);
        if end < chars.len() {
            lemma_first_occurrence(rest, '/', end - start);
        } else {
            lemma_no_occurrence(rest, '/');
        }
    }
    url.substring_char(start, end)
}

/// A host without `/` is read back from every URL that puts a scheme
/// without `/` and `://` in front of it and, behind it, nothing or a path
/// that begins with `/`.
pub proof fn lemma_host_between_scheme_and_path(
    scheme: Seq<char>,
    host: Seq<char>,
    path: Seq<char>,
)
    requires
        !scheme.contains('/'),
        !host.contains('/'),
        path.len() > 0 ==> path[0] == '/',
    ensures
        host_of(scheme + "://"@ + host + path) == host,
{
    reveal_strlit("://");
    let url = scheme + "://"@ + host + path;
    lemma_first_occurrence(url, '/', scheme.len() as int + 1);
    assert(url.skip(scheme.len() as int + 3) =~= host + path);
    lemma_host_before_path(host, path);
}

/// Without a scheme, the host is what stands in front of the path: a host
/// without `/` is read back from every URL that puts nothing in front of it
/// and, behind it, nothing or a path that begins with `/`, unless the host
/// ends in `:` and the path begins with `//`, which makes the host a scheme.
pub proof fn lemma_host_without_scheme(host: Seq<char>, path: Seq<char>)
    requires
        !host.contains('/'),
        path.len() > 0 ==> path[0] == '/',
        host.len() > 0 && host.last() == ':' ==> path.len() < 2 || path[1] != '/',
    ensures
        host_of(host + path) == host,
{
    let url = host + path;
    if path.len() > 0 {
        lemma_first_occurrence(url, '/', host.len() as int);
        if host.len() > 0 && path.len() >= 2 {
            assert(url[host.len() - 1] == host.last());
            assert(url[host.len() as int + 1] == path[1]);
        }
    } else {
        lemma_no_occurrence(url, '/');
    }
    assert(url.skip(0) =~= url);
    lemma_host_before_path(host, path);
}

/// The host of a URL holds no `/`, and the URL without its scheme begins
/// with it.
pub proof fn lemma_host_is_slash_free_prefix(url: Seq<char>)
    ensures
        !host_of(url).contains('/'),
        host_of(url).is_prefix_of(without_scheme(url)),
{
    without_scheme(url).index_of_first_ensures('/');
}

/// In front of a path that is empty or begins with `/`, a text without `/`
/// ends where the first `/` stands.
proof fn lemma_host_before_path(host: Seq<char>, path: Seq<char>)
    requires
        !host.contains('/'),
        path.len() > 0 ==> path[0] == '/',
    ensures
        up_to_slash(host + path) == host,
{
    let rest = host + path;
    if path.len() > 0 {
        lemma_first_occurrence(rest, '/', host.len() as int);
    } else {
        lemma_no_occurrence(rest, '/');
    }
}

} // verus!
