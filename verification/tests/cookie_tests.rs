use cookie_store::{Cookie, CookieDomain, CookieExpiration, RawAttributes, RequestUrl};
use time::{Duration, OffsetDateTime};

fn url(url_str: &str) -> RequestUrl {
    let u = url::Url::parse(url_str).expect("unable to parse url");
    RequestUrl {
        scheme: u.scheme().to_string(),
        host: u.host_str().map(|h| h.to_string()),
        host_is_ip: matches!(
            u.host(),
            Some(url::Host::Ipv4(_)) | Some(url::Host::Ipv6(_))
        ),
        path: u.path().to_string(),
    }
}

fn raw_attrs(cookie_str: &str) -> RawAttributes {
    let c = cookie::Cookie::parse(cookie_str).expect("unable to parse cookie string");
    RawAttributes {
        name: c.name().to_string(),
        value: c.value().to_string(),
        domain: c.domain().map(|d| d.to_string()),
        path: c.path().map(|p| p.to_string()),
        max_age: c.max_age().map(|d| d.whole_seconds()),
        expires: c.expires_datetime().map(|t| t.unix_timestamp()),
        secure: c.secure(),
        http_only: c.http_only(),
        raw: cookie_str.to_string(),
    }
}

fn make_cookie(
    cookie_str: &str,
    url_str: &str,
    expires: Option<OffsetDateTime>,
    max_age: Option<u64>,
) -> Cookie {
    let mut attrs = raw_attrs(cookie_str);
    if let Some(e) = expires {
        attrs.expires = Some(e.unix_timestamp());
    }
    if let Some(m) = max_age {
        attrs.max_age = Some(i64::try_from(m).unwrap_or(i64::MAX));
    }
    Cookie::try_from_raw_cookie(&attrs, &url(url_str)).expect("unable to make cookie")
}

fn cmp_domain(cookie: &str, url_str: &str, exp: CookieDomain) {
    let ua = make_cookie(cookie, url_str, None, None);
    assert!(*ua.domain() == exp, "\n{:?}", ua.domain_str());
}

#[test]
fn no_domain() {
    let request_url = url("http://example.com/foo/bar");
    cmp_domain(
        "cookie1=value1",
        "http://example.com/foo/bar",
        CookieDomain::host_only(&request_url).expect("unable to parse domain"),
    );
}

#[test]
fn empty_domain() {
    let request_url = url("http://example.com/foo/bar");
    cmp_domain(
        "cookie1=value1; Domain=",
        "http://example.com/foo/bar",
        CookieDomain::host_only(&request_url).expect("unable to parse domain"),
    );
}

#[test]
fn mismatched_domain() {
    let attrs = raw_attrs("cookie1=value1; Domain=notmydomain.com");
    let ua = Cookie::try_from_raw_cookie(&attrs, &url("http://example.com/foo/bar"));
    assert!(ua.is_err(), "{:?}", ua.is_ok());
}

#[test]
fn domains() {
    fn domain_from(domain: &str, request_url: &str, is_some: bool) {
        let cookie_str = format!("cookie1=value1; Domain={}", domain);
        let attrs = raw_attrs(&cookie_str);
        let cookie = Cookie::try_from_raw_cookie(&attrs, &url(request_url));
        assert_eq!(is_some, cookie.is_ok())
    }
    domain_from("example.com", "http://foo.example.com", true);
    domain_from(".example.com", "http://foo.example.com", true);
    domain_from("foo.example.com", "http://foo.example.com", true);
    domain_from(".foo.example.com", "http://foo.example.com", true);

    domain_from("oo.example.com", "http://foo.example.com", false);
    domain_from("myexample.com", "http://foo.example.com", false);
    domain_from("bar.example.com", "http://foo.example.com", false);
    domain_from("baz.foo.example.com", "http://foo.example.com", false);
}

#[test]
fn httponly() {
    let attrs = raw_attrs("cookie1=value1; HttpOnly");
    let request_url = url("ftp://example.com/foo/bar");
    let ua = Cookie::try_from_raw_cookie(&attrs, &request_url);
    assert!(ua.is_err(), "{:?}", ua.is_ok());
}

#[test]
fn identical_domain() {
    cmp_domain(
        "cookie1=value1; Domain=example.com",
        "http://example.com/foo/bar",
        CookieDomain::Suffix(String::from("example.com")),
    );
}

#[test]
fn identical_domain_leading_dot() {
    cmp_domain(
        "cookie1=value1; Domain=.example.com",
        "http://example.com/foo/bar",
        CookieDomain::Suffix(String::from("example.com")),
    );
}

#[test]
fn identical_domain_two_leading_dots() {
    cmp_domain(
        "cookie1=value1; Domain=..example.com",
        "http://..example.com/foo/bar",
        CookieDomain::Suffix(String::from(".example.com")),
    );
}

#[test]
fn upper_case_domain() {
    cmp_domain(
        "cookie1=value1; Domain=EXAMPLE.com",
        "http://example.com/foo/bar",
        CookieDomain::Suffix(String::from("example.com")),
    );
}

fn cmp_path(cookie: &str, url_str: &str, exp: &str) {
    let ua = make_cookie(cookie, url_str, None, None);
    assert!(ua.path_str() == exp, "\n{:?}", ua.path_str());
}

#[test]
fn no_path() {
    cmp_path("cookie1=value1", "http://example.com/foo/bar/", "/foo/bar");
    cmp_path("cookie1=value1", "http://example.com/foo/bar", "/foo");
    cmp_path("cookie1=value1", "http://example.com/foo", "/");
    cmp_path("cookie1=value1", "http://example.com/", "/");
    cmp_path("cookie1=value1", "http://example.com", "/");
}

#[test]
fn empty_path() {
    cmp_path(
        "cookie1=value1; Path=",
        "http://example.com/foo/bar/",
        "/foo/bar",
    );
    cmp_path("cookie1=value1; Path=", "http://example.com/foo/bar", "/foo");
    cmp_path("cookie1=value1; Path=", "http://example.com/foo", "/");
    cmp_path("cookie1=value1; Path=", "http://example.com/", "/");
    cmp_path("cookie1=value1; Path=", "http://example.com", "/");
}

#[test]
fn invalid_path() {
    cmp_path(
        "cookie1=value1; Path=baz",
        "http://example.com/foo/bar/",
        "/foo/bar",
    );
    cmp_path(
        "cookie1=value1; Path=baz",
        "http://example.com/foo/bar",
        "/foo",
    );
    cmp_path("cookie1=value1; Path=baz", "http://example.com/foo", "/");
    cmp_path("cookie1=value1; Path=baz", "http://example.com/", "/");
    cmp_path("cookie1=value1; Path=baz", "http://example.com", "/");
}

#[test]
fn path() {
    cmp_path(
        "cookie1=value1; Path=/baz",
        "http://example.com/foo/bar/",
        "/baz",
    );
    cmp_path(
        "cookie1=value1; Path=/baz/",
        "http://example.com/foo/bar/",
        "/baz/",
    );
}

fn in_days(days: i64) -> OffsetDateTime {
    OffsetDateTime::now_utc() + Duration::days(days)
}

fn in_minutes(mins: i64) -> OffsetDateTime {
    OffsetDateTime::now_utc() + Duration::minutes(mins)
}

#[test]
fn max_age_bounds() {
    let ua = make_cookie(
        "cookie1=value1",
        "http://example.com/foo/bar",
        None,
        Some(9223372036854776),
    );
    assert!(match ua.expires() {
        CookieExpiration::AtUtc(_) => true,
        _ => false,
    });
}

#[test]
fn max_age() {
    let ua = make_cookie("cookie1=value1", "http://example.com/foo/bar", None, Some(60));
    assert!(!ua.is_expired());
    assert!(ua.expires_by(in_minutes(2).unix_timestamp()));
}

#[test]
fn expired() {
    let ua = make_cookie("cookie1=value1", "http://example.com/foo/bar", None, Some(0u64));
    assert!(ua.is_expired());
    assert!(ua.expires_by(in_days(-1).unix_timestamp()));
    let ua = make_cookie(
        "cookie1=value1; Max-Age=0",
        "http://example.com/foo/bar",
        None,
        None,
    );
    assert!(ua.is_expired());
    assert!(ua.expires_by(in_days(-1).unix_timestamp()));
    let ua = make_cookie(
        "cookie1=value1; Max-Age=-1",
        "http://example.com/foo/bar",
        None,
        None,
    );
    assert!(ua.is_expired());
    assert!(ua.expires_by(in_days(-1).unix_timestamp()));
}

#[test]
fn session_end() {
    let ua = make_cookie("cookie1=value1", "http://example.com/foo/bar", None, None);
    assert!(match ua.expires() {
        CookieExpiration::SessionEnd => true,
        _ => false,
    });
    assert!(!ua.is_expired());
    assert!(!ua.expires_by(in_days(1).unix_timestamp()));
    assert!(!ua.expires_by(in_days(-1).unix_timestamp()));
}

#[test]
fn expires_tmrw_at_utc() {
    let ua = make_cookie(
        "cookie1=value1",
        "http://example.com/foo/bar",
        Some(in_days(1)),
        None,
    );
    assert!(!ua.is_expired());
    assert!(ua.expires_by(in_days(2).unix_timestamp()));
}

#[test]
fn expired_yest_at_utc() {
    let ua = make_cookie(
        "cookie1=value1",
        "http://example.com/foo/bar",
        Some(in_days(-1)),
        None,
    );
    assert!(ua.is_expired());
    assert!(!ua.expires_by(in_days(-2).unix_timestamp()));
}

#[test]
fn is_persistent() {
    let ua = make_cookie("cookie1=value1", "http://example.com/foo/bar", None, None);
    assert!(!ua.is_persistent()); // SessionEnd
    let ua = make_cookie(
        "cookie1=value1",
        "http://example.com/foo/bar",
        Some(in_days(1)),
        None,
    );
    assert!(ua.is_persistent()); // AtUtc from Expires
    let ua = make_cookie(
        "cookie1=value1",
        "http://example.com/foo/bar",
        Some(in_days(1)),
        Some(60),
    );
    assert!(ua.is_persistent()); // AtUtc from Max-Age
}

#[test]
fn max_age_overrides_expires() {
    // Expires indicates expiration yesterday, but Max-Age indicates expiry
    // in 1 minute
    let ua = make_cookie(
        "cookie1=value1",
        "http://example.com/foo/bar",
        Some(in_days(-1)),
        Some(60),
    );
    assert!(!ua.is_expired());
    assert!(ua.expires_by(in_minutes(2).unix_timestamp()));
}

#[test]
fn matches() {
    fn do_match(exp: bool, cookie: &str, src_url: &str, request_url: Option<&str>) {
        let ua = make_cookie(cookie, src_url, None, None);
        let request_url = request_url.unwrap_or(src_url);
        assert!(
            exp == ua.matches(&url(request_url)),
            "\n>> {:?}\nshould{}match\n>> {:?}\n",
            cookie,
            if exp { " " } else { " NOT " },
            request_url
        );
    }
    fn is_match(cookie: &str, url: &str, request_url: Option<&str>) {
        do_match(true, cookie, url, request_url);
    }
    fn is_mismatch(cookie: &str, url: &str, request_url: Option<&str>) {
        do_match(false, cookie, url, request_url);
    }

    // match: request-path & cookie-path (defaulted from request-uri) identical
    is_match("cookie1=value1", "http://example.com/foo/bar", None);
    // mismatch: request-path & cookie-path do not match
    is_mismatch(
        "cookie1=value1",
        "http://example.com/bus/baz/",
        Some("http://example.com/foo/bar"),
    );
    is_mismatch(
        "cookie1=value1; Path=/bus/baz",
        "http://example.com/foo/bar",
        None,
    );
    // match: cookie-path a prefix of request-path and last character of
    // cookie-path is /
    is_match(
        "cookie1=value1",
        "http://example.com/foo/bar",
        Some("http://example.com/foo/bar"),
    );
    is_match(
        "cookie1=value1; Path=/foo/",
        "http://example.com/foo/bar",
        None,
    );
    // mismatch: cookie-path a prefix of request-path but last character of
    // cookie-path is not / and first character of request-path not included
    // in cookie-path is not /
    is_mismatch(
        "cookie1=value1",
        "http://example.com/fo/",
        Some("http://example.com/foo/bar"),
    );
    is_mismatch(
        "cookie1=value1; Path=/fo",
        "http://example.com/foo/bar",
        None,
    );
    // match: cookie-path a prefix of request-path and first character of
    // request-path not included in the cookie-path is /
    is_match(
        "cookie1=value1",
        "http://example.com/foo/",
        Some("http://example.com/foo/bar"),
    );
    is_match(
        "cookie1=value1; Path=/foo",
        "http://example.com/foo/bar",
        None,
    );
    // match: Path overridden to /, which matches all paths from the domain
    is_match(
        "cookie1=value1; Path=/",
        "http://example.com/foo/bar",
        Some("http://example.com/bus/baz"),
    );
    // mismatch: different domain
    is_mismatch(
        "cookie1=value1",
        "http://example.com/foo/",
        Some("http://notmydomain.com/foo/bar"),
    );
    is_mismatch(
        "cookie1=value1; Domain=example.com",
        "http://foo.example.com/foo/",
        Some("http://notmydomain.com/foo/bar"),
    );
    // match: secure protocol
    is_match(
        "cookie1=value1; Secure",
        "http://example.com/foo/bar",
        Some("https://example.com/foo/bar"),
    );
    // mismatch: non-secure protocol
    is_mismatch(
        "cookie1=value1; Secure",
        "http://example.com/foo/bar",
        Some("http://example.com/foo/bar"),
    );
    // match: no http restriction
    is_match(
        "cookie1=value1",
        "http://example.com/foo/bar",
        Some("ftp://example.com/foo/bar"),
    );
    // match: http protocol
    is_match(
        "cookie1=value1; HttpOnly",
        "http://example.com/foo/bar",
        Some("http://example.com/foo/bar"),
    );
    is_match(
        "cookie1=value1; HttpOnly",
        "http://example.com/foo/bar",
        Some("HTTP://example.com/foo/bar"),
    );
    is_match(
        "cookie1=value1; HttpOnly",
        "http://example.com/foo/bar",
        Some("https://example.com/foo/bar"),
    );
    // mismatch: http required
    is_mismatch(
        "cookie1=value1; HttpOnly",
        "http://example.com/foo/bar",
        Some("ftp://example.com/foo/bar"),
    );
    is_mismatch(
        "cookie1=value1; HttpOnly",
        "http://example.com/foo/bar",
        Some("data:nonrelativescheme"),
    );
}
