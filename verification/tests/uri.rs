use valve::uri::{is_authority, upstream_uri, UriError};

#[test]
fn address_is_rewritten_and_path_and_query_stay() {
    let uri = upstream_uri("127.0.0.1", 8000, Some("/echo?msg=hello&n=1")).unwrap();
    assert_eq!(uri.scheme, "http");
    assert_eq!(uri.authority, "127.0.0.1:8000");
    assert_eq!(uri.path_and_query, "/echo?msg=hello&n=1");
}

#[test]
fn rewritten_uri_is_one_that_hyper_builds() {
    let uri = upstream_uri("localhost", 1024, Some("/a/b?c=%20d")).unwrap();
    let built = hyper::Uri::builder()
        .scheme(uri.scheme.as_str())
        .authority(uri.authority.as_str())
        .path_and_query(uri.path_and_query.as_str())
        .build()
        .unwrap();
    assert_eq!(built.to_string(), "http://localhost:1024/a/b?c=%20d");
}

#[test]
fn ipv6_host_is_an_authority_in_brackets_only() {
    assert!(upstream_uri("[::1]", 80, Some("/")).is_ok());
    assert_eq!(upstream_uri("::1", 80, Some("/")).unwrap_err(), UriError::Authority);
}

#[test]
fn malformed_host_is_no_authority() {
    assert_eq!(upstream_uri("a b", 80, Some("/")).unwrap_err(), UriError::Authority);
    assert_eq!(upstream_uri("a/b", 80, Some("/")).unwrap_err(), UriError::Authority);
    assert_eq!(upstream_uri("a b", 80, None).unwrap_err(), UriError::Authority);
}

#[test]
fn malformed_path_is_refused() {
    assert_eq!(upstream_uri("h", 80, Some("/a b")).unwrap_err(), UriError::Path);
    assert_eq!(upstream_uri("h", 80, Some("/\u{e9}")).unwrap_err(), UriError::Path);
}

#[test]
fn request_without_path_is_incomplete() {
    assert_eq!(upstream_uri("h", 80, None).unwrap_err(), UriError::Incomplete);
}

#[test]
fn fragment_is_cut_off() {
    let uri = upstream_uri("h", 80, Some("/a?b#c")).unwrap();
    assert_eq!(uri.path_and_query, "/a?b");
}

#[test]
fn empty_path_reads_as_root() {
    let uri = upstream_uri("h", 80, Some("")).unwrap();
    assert_eq!(uri.path_and_query, "/");
}

#[test]
fn every_plain_path_character_is_accepted() {
    let path: String = ('!'..='~')
        .filter(|c| {
            *c == '!'
                || ('$'..=';').contains(c)
                || *c == '='
                || ('?'..='_').contains(c)
                || c.is_ascii_lowercase()
                || *c == '|'
                || *c == '~'
        })
        .collect();
    assert_eq!(upstream_uri("h", 80, Some(&path)).unwrap().path_and_query, path);
}

#[test]
fn every_plain_host_character_is_accepted() {
    let host: String = ('!'..='~')
        .filter(|c| c.is_ascii_alphanumeric() || *c == '.' || *c == '-')
        .collect();
    let uri = upstream_uri(&host, 80, Some("/")).unwrap();
    assert_eq!(uri.authority, format!("{}:80", host));
    assert!(upstream_uri("", 80, Some("/")).is_ok());
}

#[test]
fn very_long_path_keeps_its_text() {
    let mut path = String::from("/");
    path.push_str(&"a".repeat(65534));
    path.push_str("?q#f");
    let kept = upstream_uri("h", 80, Some(&path)).unwrap().path_and_query;
    let again = upstream_uri("h", 80, Some(&kept)).unwrap().path_and_query;
    assert_eq!(kept, again);
}

#[test]
fn workers_that_can_be_addressed_are_told_apart() {
    assert!(is_authority("127.0.0.1", 8000));
    assert!(is_authority("[::1]", 8000));
    assert!(!is_authority("bad host", 8001));
    assert!(!is_authority("::1", 8000));
}
