use webshot::canonicalize_url;

#[test]
fn host_stands_between_scheme_and_path() {
    assert_eq!(canonicalize_url("https://example.com/page?x=1"), "example.com");
}

#[test]
fn plain_scheme_is_stripped_too() {
    assert_eq!(canonicalize_url("http://example.com/a/b/c"), "example.com");
}

#[test]
fn url_without_path_is_all_host() {
    assert_eq!(canonicalize_url("https://example.com"), "example.com");
    assert_eq!(canonicalize_url("http://example.com"), "example.com");
}

#[test]
fn url_without_scheme_is_cut_at_first_slash() {
    assert_eq!(canonicalize_url("example.com/index.html"), "example.com");
    assert_eq!(canonicalize_url("example.com"), "example.com");
}

#[test]
fn every_scheme_is_stripped() {
    assert_eq!(canonicalize_url("ftp://example.com/page"), "example.com");
    assert_eq!(canonicalize_url("ftp://example.com/file"), "example.com");
    assert_eq!(canonicalize_url("HTTPS://example.com/"), "example.com");
    assert_eq!(canonicalize_url("ws://example.com"), "example.com");
    assert_eq!(canonicalize_url("view-source+x.1://example.com/a"), "example.com");
    assert_eq!(canonicalize_url("file:///tmp/page.html"), "");
    assert_eq!(canonicalize_url("://example.com/a"), "example.com");
}

#[test]
fn a_slash_in_front_makes_no_scheme() {
    assert_eq!(canonicalize_url("example.com/a://b"), "example.com");
    assert_eq!(canonicalize_url("/ftp://example.com"), "");
    assert_eq!(canonicalize_url("a/b://c/d"), "a");
}

#[test]
fn only_one_scheme_is_stripped() {
    assert_eq!(canonicalize_url("https://http://example.com"), "http:");
    assert_eq!(canonicalize_url("http://https://example.com"), "https:");
}

#[test]
fn query_without_slash_stays_with_host() {
    assert_eq!(canonicalize_url("https://example.com?x=1"), "example.com?x=1");
    assert_eq!(canonicalize_url("https://example.com:8080/x"), "example.com:8080");
}

#[test]
fn empty_hosts() {
    assert_eq!(canonicalize_url(""), "");
    assert_eq!(canonicalize_url("/"), "");
    assert_eq!(canonicalize_url("https://"), "");
    assert_eq!(canonicalize_url("https:///path"), "");
    assert_eq!(canonicalize_url("http://"), "");
}

#[test]
fn truncated_schemes_are_text() {
    assert_eq!(canonicalize_url("https:/example.com"), "https:");
    assert_eq!(canonicalize_url("http:"), "http:");
    assert_eq!(canonicalize_url("https"), "https");
}

#[test]
fn hosts_beyond_ascii() {
    assert_eq!(canonicalize_url("https://bücher.example/straße"), "bücher.example");
    assert_eq!(canonicalize_url("http://例え.jp/パス"), "例え.jp");
}

#[test]
fn host_agrees_with_find_and_split() {
    let pieces = ["https", "ftp", "://", ":", "/", "a.b", "?x=1", "ü"];
    let mut urls = vec![String::new()];
    let mut last = vec![String::new()];
    for _ in 0..5 {
        let mut next = Vec::new();
        for url in &last {
            for piece in pieces {
                next.push(format!("{url}{piece}"));
            }
        }
        urls.extend(next.iter().cloned());
        last = next;
    }
    for url in &urls {
        let rest = match url.find("://") {
            Some(at) if !url[..at].contains('/') => &url[at + 3..],
            _ => url.as_str(),
        };
        let host = rest.split('/').next().unwrap_or("");
        assert_eq!(canonicalize_url(url), host, "url {url:?}");
    }
}
