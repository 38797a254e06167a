use cookie_store::cookie_domain::domain_match;
use cookie_store::cookie_path::{path_match, CookiePath};
use cookie_store::cookie_store_serialized::{
    load, load_all, save, save_incl_expired_and_nonpersistent,
};
use cookie_store::{
    Cookie, CookieDomain, CookieExpiration, CookieStore, Error, RawAttributes, RequestUrl,
};

fn url(url_str: &str) -> RequestUrl {
    let u = url::Url::parse(url_str).expect("unable to parse url");
    RequestUrl {
        scheme: u.scheme().to_string(),
        host: u.host_str().map(|h| h.to_string()),
        host_is_ip: matches!(
            u.host(),
            Some(url::Host::Ipv4(_)) | Some(url::Host::Ipv6(_))
        ),
        path: u.path().to_string(),
    }
}

fn raw_attrs(cookie_str: &str) -> RawAttributes {
    let c = cookie::Cookie::parse(cookie_str).expect("unable to parse cookie string");
    RawAttributes {
        name: c.name().to_string(),
        value: c.value().to_string(),
        domain: c.domain().map(|d| d.to_string()),
        path: c.path().map(|p| p.to_string()),
        max_age: c.max_age().map(|d| d.whole_seconds()),
        expires: c.expires_datetime().map(|t| t.unix_timestamp()),
        secure: c.secure(),
        http_only: c.http_only(),
        raw: cookie_str.to_string(),
    }
}

fn make_cookie(cookie_str: &str, url_str: &str) -> Cookie {
    Cookie::parse(cookie_str, &url(url_str)).expect("unable to make cookie")
}

#[test]
fn domain_match_examples() {
    assert!(domain_match("example.com", "foo.example.com", false));
    assert!(!domain_match("example.com", "myexample.com", false));
    assert!(domain_match("example.com", "baz.foo.example.com", false));
    assert!(domain_match("foo.example.com", "baz.foo.example.com", false));
    assert!(!domain_match("bar.example.com", "baz.foo.example.com", false));
    assert!(!domain_match("o.example.com", "baz.foo.example.com", false));
    assert!(domain_match("example.com", "example.com", false));
}

#[test]
fn domain_match_ip_literals() {
    // an IP host matches by exact equality only, never by suffix
    assert!(domain_match("127.0.0.1", "127.0.0.1", true));
    assert!(!domain_match("0.0.1", "127.0.0.1", true));
    assert!(domain_match("0.0.1", "127.0.0.1", false));
}

#[test]
fn host_only_scope() {
    let ua = make_cookie("a=1", "http://example.com/foo/bar");
    assert!(*ua.domain() == CookieDomain::HostOnly(String::from("example.com")));
}

#[test]
fn default_path_examples() {
    fn default_of(url_str: &str) -> String {
        CookiePath::default_path(&url(url_str)).as_str().to_string()
    }
    assert_eq!(default_of("http://example.com/foo/bar/"), "/foo/bar");
    assert_eq!(default_of("http://example.com/foo/bar"), "/foo");
    assert_eq!(default_of("http://example.com/foo"), "/");
    assert_eq!(default_of("http://example.com/"), "/");
}

#[test]
fn path_match_examples() {
    assert!(path_match("/foo", "/foo/bar"));
    assert!(!path_match("/fo", "/foo/bar"));
    assert!(path_match("/foo/", "/foo/bar"));
    assert!(path_match("/foo", "/foo"));
    assert!(!path_match("/foo/bar", "/foo"));
}

#[test]
fn rejected_domain_mismatch() {
    let r = Cookie::parse("a=1; Domain=bar.example.com", &url("http://foo.example.com/"));
    assert_eq!(r.err(), Some(Error::DomainMismatch));
}

#[test]
fn accepted_parent_domain() {
    let r = Cookie::parse("a=1; Domain=example.com", &url("http://foo.example.com/"));
    let c = r.expect("cookie should be accepted");
    assert!(*c.domain() == CookieDomain::Suffix(String::from("example.com")));
}

#[test]
fn rejected_non_http_scheme() {
    let r = Cookie::parse("a=1; HttpOnly", &url("ftp://example.com/"));
    assert_eq!(r.err(), Some(Error::NonHttpScheme));
}

#[test]
fn rejected_non_relative_scheme() {
    let r = Cookie::parse("a=1", &url("data:nonrelativescheme"));
    assert_eq!(r.err(), Some(Error::NonRelativeScheme));
}

#[test]
fn rejected_unparseable_text() {
    let r = Cookie::parse("no-equals-sign-and-no-value;;;", &url("http://example.com/"));
    assert_eq!(r.err(), Some(Error::Parse));
}

#[test]
fn public_suffix_rejected_unless_own_host() {
    let suffixes = vec![String::from("com")];
    let attrs = raw_attrs("a=1; Domain=com");
    let r = Cookie::try_from_raw_cookie_with(&attrs, &url("http://foo.com/"), &suffixes, 0);
    assert_eq!(r.err(), Some(Error::PublicSuffix));
    // a site may scope a cookie to itself even if its own name is a suffix
    let r = Cookie::try_from_raw_cookie_with(&attrs, &url("http://com/"), &suffixes, 0);
    let c = r.expect("cookie should be accepted");
    assert!(*c.domain() == CookieDomain::Suffix(String::from("com")));
}

#[test]
fn max_age_precedence_over_expires() {
    // Max-Age=60 wins whether Expires is earlier or later
    let now: i64 = 1_000_000;
    for expires in [Some(now - 86_400), Some(now + 86_400_000), None] {
        let mut attrs = raw_attrs("a=1; Max-Age=60");
        attrs.expires = expires;
        let c = Cookie::try_from_raw_cookie_at(&attrs, &url("http://example.com/"), now)
            .expect("cookie should build");
        assert_eq!(c.expires(), CookieExpiration::AtUtc(now + 60));
    }
}

#[test]
fn max_age_clamps_instead_of_overflowing() {
    let mut attrs = raw_attrs("a=1");
    attrs.max_age = Some(i64::MAX);
    let c = Cookie::try_from_raw_cookie_at(&attrs, &url("http://example.com/"), 1_000_000)
        .expect("cookie should build");
    match c.expires() {
        CookieExpiration::AtUtc(t) => assert_eq!(t, 253402300799),
        _ => panic!("expected an absolute expiration"),
    }
}

#[test]
fn non_positive_max_age_is_immediate_expiry() {
    let mut attrs = raw_attrs("a=1");
    attrs.max_age = Some(0);
    let c = Cookie::try_from_raw_cookie_at(&attrs, &url("http://example.com/"), 1_000_000)
        .expect("cookie should build");
    assert_eq!(c.expires(), CookieExpiration::AtUtc(-377705116800));
    assert!(c.is_expired());
}

#[test]
fn expire_forces_immediate_expiry() {
    let mut c = make_cookie("a=1; Max-Age=3600", "http://example.com/foo/bar");
    assert!(!c.is_expired());
    c.expire();
    assert!(c.is_expired());
    assert!(c.is_persistent());
    assert_eq!(c.name(), "a");
    assert_eq!(c.value(), "1");
}

#[test]
fn emitted_attributes_are_lossy() {
    let c = make_cookie(
        "a=1; Max-Age=3600; Path=/foo; Domain=example.com",
        "http://example.com/foo/bar",
    );
    // Max-Age is never reconstructed; an absolute instant is emitted instead
    assert!(c.emitted_expires().is_some());
    assert_eq!(c.emitted_path(), Some("/foo"));
    assert_eq!(c.emitted_domain(), Some("example.com"));

    let d = make_cookie("a=1", "http://example.com/foo/bar");
    assert_eq!(d.emitted_expires(), None);
    assert_eq!(d.emitted_path(), None);
    assert_eq!(d.emitted_domain(), None);
}

#[test]
fn insert_get_remove() {
    let mut store = CookieStore::new();
    let c1 = make_cookie("a=1", "http://example.com/foo/bar");
    let c2 = make_cookie("b=2; Path=/", "http://example.com/foo/bar");
    store.insert(c1.clone());
    store.insert(c2.clone());
    assert_eq!(store.len(), 2);

    let got = store.get("example.com", "/foo", "a").expect("a should be stored");
    assert!(*got == c1);
    assert!(store.get("example.com", "/foo", "b").is_none());
    assert!(store.get("example.com", "/", "b").is_some());

    let removed = store.remove("example.com", "/foo", "a").expect("a should be removed");
    assert!(removed == c1);
    assert_eq!(store.len(), 1);
    assert!(store.get("example.com", "/foo", "a").is_none());
    assert!(store.remove("example.com", "/foo", "a").is_none());

    store.clear();
    assert_eq!(store.len(), 0);
}

#[test]
fn insert_replaces_same_key() {
    let mut store = CookieStore::new();
    store.insert(make_cookie("a=1", "http://example.com/foo/bar"));
    store.insert(make_cookie("a=2", "http://example.com/foo/bar"));
    assert_eq!(store.len(), 1);
    let got = store.get("example.com", "/foo", "a").expect("a should be stored");
    assert_eq!(got.value(), "2");
}

#[test]
fn expired_insert_hides_from_unexpired_iteration() {
    // a deliberately-expired replacement is how a server deletes a cookie
    let mut store = CookieStore::new();
    store.insert(make_cookie("a=live; Max-Age=3600", "http://example.com/foo/bar"));
    assert_eq!(store.iter_unexpired().len(), 1);

    store.insert(make_cookie("a=dead; Max-Age=0", "http://example.com/foo/bar"));
    assert_eq!(store.len(), 1);
    assert_eq!(store.iter_unexpired().len(), 0);
    let got = store.get("example.com", "/foo", "a").expect("entry should remain");
    assert_eq!(got.value(), "dead");
    assert!(got.is_expired());
}

#[test]
fn query_filters_by_matching() {
    let mut store = CookieStore::new();
    store.insert(make_cookie("a=1; Path=/foo", "http://example.com/foo/bar"));
    store.insert(make_cookie("b=2; Path=/other", "http://example.com/other"));
    store.insert(make_cookie("c=3; Secure", "http://example.com/foo/bar"));
    store.insert(make_cookie("d=4; Domain=example.com", "http://foo.example.com/foo/bar"));

    let names: Vec<String> = store
        .query(&url("http://example.com/foo/bar"))
        .iter()
        .map(|c| c.name().to_string())
        .collect();
    assert!(names.contains(&String::from("a")));
    assert!(!names.contains(&String::from("b")));
    assert!(!names.contains(&String::from("c"))); // Secure cookie, http request
    assert!(names.contains(&String::from("d")));

    let names: Vec<String> = store
        .query(&url("https://example.com/foo/bar"))
        .iter()
        .map(|c| c.name().to_string())
        .collect();
    assert!(names.contains(&String::from("c"))); // https is secure

    let names: Vec<String> = store
        .query(&url("http://sub.foo.example.com/foo/bar"))
        .iter()
        .map(|c| c.name().to_string())
        .collect();
    assert!(!names.contains(&String::from("a"))); // host-only scope
    assert!(names.contains(&String::from("d"))); // suffix scope
}

#[test]
fn from_records_drops_or_keeps_expired() {
    let expired = make_cookie("a=1; Max-Age=0", "http://example.com/foo/bar");

    let store = CookieStore::from_records(vec![Ok(expired.clone())], false)
        .expect("no record fails");
    assert_eq!(store.iter_any().len(), 0);
    assert_eq!(store.iter_unexpired().len(), 0);

    let store = CookieStore::from_records(vec![Ok(expired)], true).expect("no record fails");
    assert_eq!(store.iter_any().len(), 1);
    assert_eq!(store.iter_unexpired().len(), 0);
}

#[test]
fn from_records_aborts_on_first_error() {
    let good = make_cookie("a=1", "http://example.com/foo/bar");
    let r = CookieStore::from_records(
        vec![Ok(good), Err(Error::DomainMismatch), Err(Error::Parse)],
        true,
    );
    assert_eq!(r.err(), Some(Error::DomainMismatch));
}

#[test]
fn save_load_round_trip() {
    let mut store = CookieStore::new();
    store.insert(make_cookie("keep=1; Max-Age=3600", "http://example.com/foo/bar"));
    store.insert(make_cookie("gone=2; Max-Age=0", "http://example.com/foo/bar2"));
    store.insert(make_cookie("session=3", "http://example.com/foo/bar3"));

    let saved = save(&store);
    assert_eq!(saved.cookies.len(), 1);
    assert_eq!(saved.cookies[0].name(), "keep");

    let reloaded = load(saved);
    let entries = reloaded.iter_any();
    assert_eq!(entries.len(), 1);
    let got = reloaded.get("example.com", "/foo", "keep").expect("keep should survive");
    assert_eq!(got.value(), "1");
    assert!(got.is_persistent());
    assert!(!got.is_expired());
}

#[test]
fn save_all_keeps_everything() {
    let mut store = CookieStore::new();
    store.insert(make_cookie("keep=1; Max-Age=3600", "http://example.com/foo/bar"));
    store.insert(make_cookie("gone=2; Max-Age=0", "http://example.com/foo/bar2"));
    store.insert(make_cookie("session=3", "http://example.com/foo/bar3"));

    let saved = save_incl_expired_and_nonpersistent(&store);
    assert_eq!(saved.cookies.len(), 3);

    let reloaded = load_all(saved);
    assert_eq!(reloaded.iter_any().len(), 3);
    assert_eq!(reloaded.iter_unexpired().len(), 2);
}

#[test]
fn insert_from_text_validates() {
    let mut store = CookieStore::new();
    store
        .insert_from_text("a=1", &url("http://example.com/foo/bar"))
        .expect("valid cookie");
    assert_eq!(store.len(), 1);
    let r = store.insert_from_text("b=2; Domain=other.com", &url("http://example.com/"));
    assert_eq!(r.err(), Some(Error::DomainMismatch));
    assert_eq!(store.len(), 1); // the store is left unmodified on failure
}

#[test]
fn default_path_without_leading_slash() {
    assert_eq!(cookie_store::cookie_path::default_path_of("nonslash"), "/");
    assert_eq!(cookie_store::cookie_path::default_path_of(""), "/");
    assert_eq!(cookie_store::cookie_path::default_path_of("/"), "/");
}

#[test]
fn error_messages_are_nonempty() {
    let errors = [
        Error::NonHttpScheme,
        Error::NonRelativeScheme,
        Error::DomainMismatch,
        Error::Parse,
        Error::PublicSuffix,
        Error::UnspecifiedDomain,
        Error::Expired,
    ];
    for e in errors {
        assert!(!e.message().is_empty());
    }
}

#[test]
fn round_trip_at_fixed_instant() {
    let t: i64 = 1_000_000;
    let mut store = CookieStore::new();
    let keep = Cookie::parse_at(
        "keep=1; Max-Age=3600",
        &url("http://example.com/foo/bar"),
        t,
    )
    .expect("cookie should build");
    let gone = Cookie::parse_at(
        "gone=2; Max-Age=0",
        &url("http://example.com/foo/bar2"),
        t,
    )
    .expect("cookie should build");
    let session =
        Cookie::parse_at("session=3", &url("http://example.com/foo/bar3"), t)
            .expect("cookie should build");
    store.insert(keep.clone());
    store.insert(gone);
    store.insert(session);

    assert_eq!(store.iter_unexpired_at(t).len(), 2);

    let saved = cookie_store::cookie_store_serialized::save_at(&store, t);
    assert_eq!(saved.cookies.len(), 1);
    let reloaded = cookie_store::cookie_store_serialized::load_at(saved, t);
    let entries = reloaded.iter_any();
    assert_eq!(entries.len(), 1);
    assert!(entries[0] == keep);
}
