use domain_redirect::{location_error_body, App, ConfigError, DomainPair, Reply};

fn pair(s: &str) -> DomainPair {
    DomainPair::from_str(s).unwrap()
}

fn example_app(fallback: Option<&str>, insecure: bool) -> App {
    App::new(
        vec![pair("example.com=www.example.com"), pair("old.org=new.org")],
        fallback.map(|f| f.to_owned()),
        insecure,
    )
    .unwrap()
}

fn assert_redirect(r: &Reply, url: &str) {
    assert_eq!(r.status, 308);
    assert_eq!(r.body, "Redirecting");
    assert_eq!(r.location.as_deref(), Some(url));
}

fn assert_refused(r: &Reply, status: u16, body: &str) {
    assert_eq!(r.status, status);
    assert_eq!(r.body, body);
    assert_eq!(r.location, None);
}

#[test]
fn example_redirect_keeps_path_and_query() {
    let app = App::new(vec![pair("example.com=www.example.com")], None, false).unwrap();
    let r = app.handle_inner(Some(b"example.com"), "/foo?x=1");
    assert_redirect(&r, "https://www.example.com/foo?x=1");
}

#[test]
fn example_unmapped_host_is_unsupported() {
    let app = App::new(vec![pair("example.com=www.example.com")], None, false).unwrap();
    let r = app.handle_inner(Some(b"other.com"), "/foo?x=1");
    assert_refused(&r, 400, "Unsupported hostname");
}

#[test]
fn every_pair_redirects_to_its_destination() {
    let app = example_app(None, false);
    assert_redirect(&app.handle_inner(Some(b"example.com"), "/"), "https://www.example.com/");
    assert_redirect(&app.handle_inner(Some(b"old.org"), "/a/b?c=d&e"), "https://new.org/a/b?c=d&e");
}

#[test]
fn insecure_mode_uses_http() {
    let app = example_app(None, true);
    assert_redirect(&app.handle_inner(Some(b"old.org"), "/x"), "http://new.org/x");
}

#[test]
fn unmapped_host_goes_to_fallback() {
    let app = example_app(Some("fallback.net"), false);
    assert_redirect(&app.handle_inner(Some(b"other.com"), "/p?q"), "https://fallback.net/p?q");
    let app = example_app(Some("fallback.net"), true);
    assert_redirect(&app.handle_inner(Some(b"other.com"), "/"), "http://fallback.net/");
}

#[test]
fn mapped_host_wins_over_fallback() {
    let app = example_app(Some("fallback.net"), false);
    assert_redirect(&app.handle_inner(Some(b"example.com"), "/"), "https://www.example.com/");
}

#[test]
fn missing_host_is_refused() {
    let app = example_app(Some("fallback.net"), false);
    assert_refused(&app.handle_inner(None, "/"), 400, "Missing host header");
}

#[test]
fn host_is_matched_byte_for_byte() {
    let app = example_app(None, false);
    assert_refused(&app.handle_inner(Some(b"Example.com"), "/"), 400, "Unsupported hostname");
    assert_refused(&app.handle_inner(Some(b"example.com:80"), "/"), 400, "Unsupported hostname");
    assert_refused(&app.handle_inner(Some(b"example.com."), "/"), 400, "Unsupported hostname");
    assert_refused(&app.handle_inner(Some(b""), "/"), 400, "Unsupported hostname");
}

#[test]
fn non_utf8_host_uses_fallback() {
    let app = example_app(Some("fallback.net"), false);
    assert_redirect(&app.handle_inner(Some(&[0xff, 0xfe]), "/z"), "https://fallback.net/z");
}

#[test]
fn non_ascii_source_matches_its_utf8_bytes() {
    let app = App::new(vec![pair("bücher.de=books.de")], None, false).unwrap();
    assert_redirect(&app.handle_inner(Some("bücher.de".as_bytes()), "/"), "https://books.de/");
}

#[test]
fn uri_passes_through_unescaped() {
    let app = example_app(None, false);
    let uri = "/a%20b/ü?x=<y>&z=\"q\"\t#frag";
    let r = app.handle_inner(Some(b"example.com"), uri);
    assert_redirect(&r, &format!("https://www.example.com{}", uri));
    assert!(r.location.unwrap().ends_with(uri));
}

#[test]
fn illegal_header_bytes_give_internal_error() {
    let app = example_app(None, false);
    let r = app.handle_inner(Some(b"example.com"), "/a\nb");
    assert_refused(
        &r,
        500,
        "Unable to convert location \"https://www.example.com/a\\nb\" to HTTP header value: InvalidHeaderValue",
    );
    let r = app.handle_inner(Some(b"example.com"), "/\u{7f}");
    assert_eq!(r.status, 500);
    assert_eq!(r.location, None);
}

#[test]
fn location_error_body_joins_its_parts() {
    assert_eq!(
        location_error_body("\"x\"", "E"),
        "Unable to convert location \"x\" to HTTP header value: E"
    );
}

#[test]
fn pair_splits_at_its_equals_sign() {
    let p = pair("a.com=b.com");
    assert_eq!(p.source, "a.com");
    assert_eq!(p.dest, "b.com");
    let p = pair("=b");
    assert_eq!(p.source, "");
    assert_eq!(p.dest, "b");
    let p = pair("a=");
    assert_eq!(p.source, "a");
    assert_eq!(p.dest, "");
}

#[test]
fn malformed_pairs_are_refused() {
    for s in ["a.com", "a=b=c", "", "==", "=a="] {
        assert!(DomainPair::parse_option(s).is_none(), "{}", s);
        match DomainPair::from_str(s) {
            Err(ConfigError::InvalidPair(t)) => assert_eq!(t, s),
            other => panic!("unexpected {:?}", other),
        }
    }
}

#[test]
fn invalid_pair_message() {
    let e = DomainPair::from_str("a.com").unwrap_err();
    assert_eq!(e.message(), "Invalid domain pair: a.com");
}

#[test]
fn duplicate_sources_are_refused() {
    let r = App::new(vec![pair("a.com=b.com"), pair("a.com=c.com")], None, false);
    match r {
        Err(ConfigError::DuplicateSource(s)) => assert_eq!(s, "a.com"),
        other => panic!("unexpected {:?}", other.map(|_| ())),
    }
}

#[test]
fn first_repeated_source_is_reported() {
    let r = App::new(
        vec![pair("x=1"), pair("y=2"), pair("y=3"), pair("x=4")],
        None,
        false,
    );
    let e = r.map(|_| ()).unwrap_err();
    assert_eq!(e.message(), "Duplicate destination for domain name y");
}

#[test]
fn same_destination_twice_is_accepted() {
    let app = App::new(vec![pair("a=d"), pair("b=d")], None, false).unwrap();
    assert_redirect(&app.handle_inner(Some(b"b"), "/"), "https://d/");
}

#[test]
fn empty_table_without_fallback_refuses_all() {
    let app = App::new(vec![], None, false).unwrap();
    assert_refused(&app.handle_inner(Some(b"a"), "/"), 400, "Unsupported hostname");
}
