//! The cookie entity: validated construction from a parsed attribute set and
//! a request URL, and the per-cookie predicates.
//!
//! Tokenizing raw Set-Cookie text into attributes is an external
//! collaborator, called behind a trusted wrapper; every rule applied to the
//! attributes is verified against [`spec_build`].

use vstd::prelude::*;
use vstd::string::StrSliceExecFns;
use crate::Error;
use crate::cookie_domain::{
    ascii_domain, idna_to_ascii, spec_domain_covers, spec_domain_match, CookieDomain,
    CookieDomainV,
};
use crate::cookie_expiration::{
    spec_expires_by, spec_from_max_age, CookieExpiration, EARLIEST_INSTANT, LATEST_INSTANT,
};
use crate::cookie_expiration::now_utc_seconds;
use crate::cookie_path::{spec_default_path, spec_path_match, CookiePath, CookiePathV};
use crate::request::{
    spec_is_http_scheme, spec_is_secure_scheme, RequestUrl, RequestUrlV,
};
use crate::strutil::str_eq;

verus! {

/// The structured attribute set the external tokenizer yields for one
/// Set-Cookie line. The `domain` value comes with one leading `.` already
/// removed, as the tokenizer hands it out.
#[derive(Debug, Clone)]
pub struct RawAttributes {
    pub name: String,
    pub value: String,
    pub domain: Option<String>,
    pub path: Option<String>,
    /// Max-Age in seconds.
    pub max_age: Option<i64>,
    /// Expires as a UTC Unix timestamp in seconds.
    pub expires: Option<i64>,
    pub secure: Option<bool>,
    pub http_only: Option<bool>,
    /// The raw Set-Cookie text, retained for serialization round-trips.
    pub raw: String,
}

/// Mathematical view of a [`RawAttributes`].
#[verifier::ext_equal]
pub ghost struct RawAttributesV {
    pub name: Seq<char>,
    pub value: Seq<char>,
    pub domain: Option<Seq<char>>,
    pub path: Option<Seq<char>>,
    pub max_age: Option<i64>,
    pub expires: Option<i64>,
    pub secure: Option<bool>,
    pub http_only: Option<bool>,
    pub raw: Seq<char>,
}

impl View for RawAttributes {
    type V = RawAttributesV;

    open spec fn view(&self) -> RawAttributesV {
        RawAttributesV {
            name: self.name@,
            value: self.value@,
            domain: match self.domain {
                Option::Some(d) => Option::Some(d@),
                Option::None => Option::None,
            },
            path: match self.path {
                Option::Some(p) => Option::Some(p@),
                Option::None => Option::None,
            },
            max_age: self.max_age,
            expires: self.expires,
            secure: self.secure,
            http_only: self.http_only,
            raw: self.raw@,
        }
    }
}

/// What the tokenizer yields for a given Set-Cookie text; the tokenizer is
/// deterministic, so the outcome is a function of the text alone.
pub uninterp spec fn parsed_attributes(s: Seq<char>) -> Option<RawAttributesV>;

/// Relies on `cookie::Cookie::parse`: tokenizes one Set-Cookie line into its
/// attributes, deterministically. Its `domain()` hands the Domain value with
/// one leading `.` removed; `max_age()` and `expires_datetime()` carry the
/// parsed Max-Age and Expires values.
#[verifier::external_body]
fn parse_set_cookie(s: &str) -> (r: Option<RawAttributes>)
    ensures
        (r is Some) == (parsed_attributes(s@) is Some),
        r matches Some(a) ==> parsed_attributes(s@) == Some(a@),
{
    let c = match ::cookie::Cookie::parse(s) { Ok(c) => c, Err(_) => return None };
    Some(RawAttributes {
        name: c.name().to_string(),
        value: c.value().to_string(),
        domain: c.domain().map(|d| d.to_string()),
        path: c.path().map(|p| p.to_string()),
        max_age: c.max_age().map(|d| d.whole_seconds()),
        expires: c.expires_datetime().map(|t| t.unix_timestamp()),
        secure: c.secure(),
        http_only: c.http_only(),
        raw: s.to_string(),
    })
}

/// A validated cookie record: scope, expiration and flags normalized against
/// the request URL that set it.
#[derive(Debug)]
pub struct Cookie {
    raw_cookie: String,
    /// The Path attribute, or the default-path of the request URL.
    pub path: CookiePath,
    /// The honored Domain attribute, or the host-only scope of the request
    /// URL.
    pub domain: CookieDomain,
    /// The resolved expiration: an absolute instant for a persistent cookie,
    /// session-end otherwise.
    pub expires: CookieExpiration,
    name: String,
    value: String,
    secure: bool,
    http_only: bool,
}

/// Mathematical view of a [`Cookie`].
#[verifier::ext_equal]
pub ghost struct CookieV {
    pub raw: Seq<char>,
    pub path: CookiePathV,
    pub domain: CookieDomainV,
    pub expires: CookieExpiration,
    pub name: Seq<char>,
    pub value: Seq<char>,
    pub secure: bool,
    pub http_only: bool,
}

impl View for Cookie {
    type V = CookieV;

    closed spec fn view(&self) -> CookieV {
        CookieV {
            raw: self.raw_cookie@,
            path: self.path@,
            domain: self.domain@,
            expires: self.expires,
            name: self.name@,
            value: self.value@,
            secure: self.secure,
            http_only: self.http_only,
        }
    }
}

impl DeepView for Cookie {
    type V = CookieV;

    open spec fn deep_view(&self) -> CookieV {
        self.view()
    }
}

impl Clone for Cookie {
    fn clone(&self) -> (r: Self)
        ensures
            r@ == self@,
    {
        let r = Cookie {
            raw_cookie: self.raw_cookie.clone(),
            path: self.path.clone(),
            domain: self.domain.clone(),
            expires: self.expires,
            name: self.name.clone(),
            value: self.value.clone(),
            secure: self.secure,
            http_only: self.http_only,
        };
        proof {
            assert(r@ =~= self@);
        }
        r
    }
}

impl PartialEq for Cookie {
    fn eq(&self, other: &Self) -> (r: bool) {
        let r = str_eq(self.raw_cookie.as_str(), other.raw_cookie.as_str()) && self.path
            == other.path && self.domain == other.domain && self.expires == other.expires
            && str_eq(self.name.as_str(), other.name.as_str()) && str_eq(
            self.value.as_str(),
            other.value.as_str(),
        ) && self.secure == other.secure && self.http_only == other.http_only;
        proof {
            if r {
                assert(self@ =~= other@);
            }
        }
        r
    }
}

impl vstd::std_specs::cmp::PartialEqSpecImpl for Cookie {
    open spec fn obeys_eq_spec() -> bool {
        true
    }

    open spec fn eq_spec(&self, other: &Self) -> bool {
        self@ == other@
    }
}

impl Eq for Cookie {}

/// The domain scope resolved from an optional Domain attribute: an honored,
/// canonicalized and matching suffix; or the host-only scope when the
/// attribute is absent or empty.
pub open spec fn spec_resolve_domain(
    domain_attr: Option<Seq<char>>,
    u: RequestUrlV,
    public_suffixes: Seq<Seq<char>>,
) -> Result<CookieDomainV, Error> {
    match domain_attr {
        Some(ds) => {
            if ds.len() == 0 {
                spec_host_only(u)
            } else {
                match ascii_domain(ds) {
                    None => Err(Error::Parse),
                    Some(canon) => {
                        if u.host matches Some(h) && spec_domain_match(canon, h, u.host_is_ip) {
                            if public_suffixes.contains(canon) && u.host != Some(canon) {
                                Err(Error::PublicSuffix)
                            } else {
                                Ok(CookieDomainV::Suffix(canon))
                            }
                        } else {
                            Err(Error::DomainMismatch)
                        }
                    },
                }
            }
        },
        None => spec_host_only(u),
    }
}

/// The host-only scope of a request URL, if it has a host.
pub open spec fn spec_host_only(u: RequestUrlV) -> Result<CookieDomainV, Error> {
    match u.host {
        Some(h) => Ok(CookieDomainV::HostOnly(h)),
        None => Err(Error::NonRelativeScheme),
    }
}

/// The cookie-path resolved from an optional Path attribute: taken verbatim
/// when it starts with `/`, the default-path of the request URL otherwise.
pub open spec fn spec_resolve_path(
    path_attr: Option<Seq<char>>,
    uri_path: Seq<char>,
) -> CookiePathV {
    match path_attr {
        Some(p) => {
            if p.len() > 0 && p[0] == '/' {
                CookiePathV { path: p, from_attr: true }
            } else {
                CookiePathV { path: spec_default_path(uri_path), from_attr: false }
            }
        },
        None => CookiePathV { path: spec_default_path(uri_path), from_attr: false },
    }
}

/// The expiration resolved at instant `now`: Max-Age, if present, wins
/// unconditionally over Expires; otherwise Expires; otherwise session-end.
pub open spec fn spec_resolve_expiration(
    max_age: Option<i64>,
    expires: Option<i64>,
    now: int,
) -> CookieExpiration {
    match max_age {
        Some(delta) => spec_from_max_age(now, delta as int),
        None => match expires {
            Some(t) => CookieExpiration::AtUtc(t),
            None => CookieExpiration::SessionEnd,
        },
    }
}

/// The cookie a given attribute set and request URL yield at instant `now`,
/// or the error that rejects them.
pub open spec fn spec_build(
    a: RawAttributesV,
    u: RequestUrlV,
    public_suffixes: Seq<Seq<char>>,
    now: int,
) -> Result<CookieV, Error> {
    if a.http_only == Some(true) && !spec_is_http_scheme(u.scheme) {
        Err(Error::NonHttpScheme)
    } else {
        match spec_resolve_domain(a.domain, u, public_suffixes) {
            Err(e) => Err(e),
            Ok(d) => Ok(
                CookieV {
                    raw: a.raw,
                    path: spec_resolve_path(a.path, u.path),
                    domain: d,
                    expires: spec_resolve_expiration(a.max_age, a.expires, now),
                    name: a.name,
                    value: a.value,
                    secure: a.secure == Some(true),
                    http_only: a.http_only == Some(true),
                },
            ),
        }
    }
}

/// The cookie a raw Set-Cookie text and request URL yield at instant `now`:
/// tokenizer failure is `Parse`, everything else follows [`spec_build`].
pub open spec fn spec_parse(s: Seq<char>, u: RequestUrlV, now: int) -> Result<CookieV, Error> {
    match parsed_attributes(s) {
        None => Err(Error::Parse),
        Some(a) => spec_build(a, u, Seq::empty(), now),
    }
}

/// The view of an exec construction result.
pub open spec fn result_view(r: Result<Cookie, Error>) -> Result<CookieV, Error> {
    match r {
        Ok(c) => Ok(c@),
        Err(e) => Err(e),
    }
}

/// Whether a stored cookie applies to a request: its path and domain scopes
/// cover the URL, a Secure cookie needs a secure scheme, and an HttpOnly
/// cookie needs an HTTP-family scheme.
pub open spec fn spec_matches(c: CookieV, u: RequestUrlV) -> bool {
    &&& spec_path_match(c.path.path, u.path)
    &&& match u.host {
        Some(h) => spec_domain_covers(c.domain, h, u.host_is_ip),
        None => false,
    }
    &&& (!c.secure || spec_is_secure_scheme(u.scheme))
    &&& (!c.http_only || spec_is_http_scheme(u.scheme))
}

/// Whether the construction outcome is independent of the instant: every
/// rejection is.
proof fn lemma_build_error_stable(
    a: RawAttributesV,
    u: RequestUrlV,
    ps: Seq<Seq<char>>,
    t1: int,
    t2: int,
)
    ensures
        (spec_build(a, u, ps, t1) is Err) ==> spec_build(a, u, ps, t1) == spec_build(
            a,
            u,
            ps,
            t2,
        ),
{
}

/// Membership of `s` in a list of strings.
fn contains_str(list: &Vec<String>, s: &str) -> (r: bool)
    ensures
        r == list.deep_view().contains(s@),
{
    let n = list.len();
    let mut i: usize = 0;
    while i < n
        invariant
            i <= n,
            n == list.len(),
            forall|j: int| 0 <= j < i ==> list.deep_view()[j] != s@,
        decreases n - i,
    {
        if str_eq(list[i].as_str(), s) {
            proof {
                assert(list.deep_view()[i as int] == s@);
            }
            return true;
        }
        i += 1;
    }
    proof {
        assert(forall|j: int| 0 <= j < list.deep_view().len() ==> list.deep_view()[j] != s@);
    }
    false
}

impl Cookie {
    /// Build a cookie from a tokenized attribute set received from
    /// `request_url`, resolving Max-Age against the instant `now` and
    /// rejecting a Domain attribute found in `public_suffixes` unless it
    /// equals the request host exactly.
    pub fn try_from_raw_cookie_with(
        attrs: &RawAttributes,
        request_url: &RequestUrl,
        public_suffixes: &Vec<String>,
        now: i64,
    ) -> (r: Result<Cookie, Error>)
        ensures
            result_view(r) == spec_build(
                attrs@,
                request_url@,
                public_suffixes.deep_view(),
                now as int,
            ),
    {
        let http_only = match attrs.http_only {
            Some(b) => b,
            None => false,
        };
        if http_only && !request_url.is_http_scheme() {
            return Err(Error::NonHttpScheme);
        }
        let domain = match &attrs.domain {
            Some(d) => {
                if d.unicode_len() == 0 {
                    match CookieDomain::host_only(request_url) {
                        Ok(dd) => dd,
                        Err(e) => return Err(e),
                    }
                } else {
                    match idna_to_ascii(d.as_str()) {
                        None => return Err(Error::Parse),
                        Some(canon) => {
                            let cd = CookieDomain::Suffix(canon);
                            if !cd.matches(request_url) {
                                return Err(Error::DomainMismatch);
                            }
                            let equals_host = match &request_url.host {
                                Some(h) => str_eq(h.as_str(), cd.as_str()),
                                None => false,
                            };
                            if contains_str(public_suffixes, cd.as_str()) && !equals_host {
                                return Err(Error::PublicSuffix);
                            }
                            cd
                        },
                    }
                }
            },
            None => match CookieDomain::host_only(request_url) {
                Ok(dd) => dd,
                Err(e) => return Err(e),
            },
        };
        let path = match &attrs.path {
            Some(p) => match CookiePath::parse(p.as_str()) {
                Some(cp) => cp,
                None => CookiePath::default_path(request_url),
            },
            None => CookiePath::default_path(request_url),
        };
        let expires = match attrs.max_age {
            Some(delta) => CookieExpiration::from_max_age(now, delta),
            None => match attrs.expires {
                Some(t) => CookieExpiration::from_expires(t),
                None => CookieExpiration::SessionEnd,
            },
        };
        let c = Cookie {
            raw_cookie: attrs.raw.clone(),
            path,
            domain,
            expires,
            name: attrs.name.clone(),
            value: attrs.value.clone(),
            secure: match attrs.secure {
                Some(b) => b,
                None => false,
            },
            http_only,
        };
        proof {
            let built = spec_build(attrs@, request_url@, public_suffixes.deep_view(), now as int);
            assert(built matches Ok(cv) && c@ =~= cv);
        }
        Ok(c)
    }

    /// Build a cookie from a tokenized attribute set received from
    /// `request_url`, resolving Max-Age against the instant `now`.
    pub fn try_from_raw_cookie_at(
        attrs: &RawAttributes,
        request_url: &RequestUrl,
        now: i64,
    ) -> (r: Result<Cookie, Error>)
        ensures
            result_view(r) == spec_build(attrs@, request_url@, Seq::empty(), now as int),
    {
        let none: Vec<String> = Vec::new();
        proof {
            assert(none.deep_view() =~= Seq::<Seq<char>>::empty());
        }
        Cookie::try_from_raw_cookie_with(attrs, request_url, &none, now)
    }

    /// Build a cookie from a tokenized attribute set received from
    /// `request_url`, resolving Max-Age against the ambient clock.
    pub fn try_from_raw_cookie(attrs: &RawAttributes, request_url: &RequestUrl) -> (r: Result<
        Cookie,
        Error,
    >)
        ensures
            r matches Err(e) ==> forall|t: int|
                spec_build(attrs@, request_url@, Seq::empty(), t) == Err::<CookieV, Error>(e),
            r matches Ok(c) ==> exists|t: int|
                EARLIEST_INSTANT <= t <= LATEST_INSTANT && spec_build(
                    attrs@,
                    request_url@,
                    Seq::empty(),
                    t,
                ) == Ok::<CookieV, Error>(c@),
    {
        let now = now_utc_seconds();
        let r = Cookie::try_from_raw_cookie_at(attrs, request_url, now);
        proof {
            if r is Err {
                assert forall|t: int|
                    spec_build(attrs@, request_url@, Seq::empty(), t) == Err::<CookieV, Error>(
                        r->Err_0,
                    ) by {
                    lemma_build_error_stable(attrs@, request_url@, Seq::empty(), now as int, t);
                }
            }
        }
        r
    }

    /// Parse one raw Set-Cookie line received from `request_url`, resolving
    /// Max-Age against the instant `now`.
    pub fn parse_at(cookie_str: &str, request_url: &RequestUrl, now: i64) -> (r: Result<
        Cookie,
        Error,
    >)
        ensures
            result_view(r) == spec_parse(cookie_str@, request_url@, now as int),
    {
        match parse_set_cookie(cookie_str) {
            None => Err(Error::Parse),
            Some(attrs) => Cookie::try_from_raw_cookie_at(&attrs, request_url, now),
        }
    }

    /// Parse one raw Set-Cookie line received from `request_url`, resolving
    /// Max-Age against the ambient clock.
    pub fn parse(cookie_str: &str, request_url: &RequestUrl) -> (r: Result<Cookie, Error>)
        ensures
            r matches Err(e) ==> forall|t: int|
                spec_parse(cookie_str@, request_url@, t) == Err::<CookieV, Error>(e),
            r matches Ok(c) ==> exists|t: int|
                EARLIEST_INSTANT <= t <= LATEST_INSTANT && spec_parse(
                    cookie_str@,
                    request_url@,
                    t,
                ) == Ok::<CookieV, Error>(c@),
    {
        match parse_set_cookie(cookie_str) {
            None => Err(Error::Parse),
            Some(attrs) => {
                let r = Cookie::try_from_raw_cookie(&attrs, request_url);
                proof {
                    assert(parsed_attributes(cookie_str@) == Some(attrs@));
                    if r is Ok {
                        let c = r->Ok_0;
                        let t = choose|t: int|
                            EARLIEST_INSTANT <= t <= LATEST_INSTANT && spec_build(
                                attrs@,
                                request_url@,
                                Seq::empty(),
                                t,
                            ) == Ok::<CookieV, Error>(c@);
                        assert(spec_parse(cookie_str@, request_url@, t) == Ok::<CookieV, Error>(
                            c@,
                        ));
                    }
                }
                r
            },
        }
    }

    /// Rebuild a stored cookie record: the name, value and flags are
    /// re-parsed from the retained raw text, while scope and expiration are
    /// taken as stored.
    pub fn from_parts(
        raw_cookie: &str,
        path: CookiePath,
        domain: CookieDomain,
        expires: CookieExpiration,
    ) -> (r: Option<Cookie>)
        ensures
            ({
                match parsed_attributes(raw_cookie@) {
                    None => r is None,
                    Some(a) => r matches Some(c) && c@ == (CookieV {
                        raw: raw_cookie@,
                        path: path@,
                        domain: domain@,
                        expires,
                        name: a.name,
                        value: a.value,
                        secure: a.secure == Some(true),
                        http_only: a.http_only == Some(true),
                    }),
                }
            }),
    {
        match parse_set_cookie(raw_cookie) {
            None => None,
            Some(attrs) => {
                let c = Cookie {
                    raw_cookie: raw_cookie.to_owned(),
                    path,
                    domain,
                    expires,
                    name: attrs.name,
                    value: attrs.value,
                    secure: match attrs.secure {
                        Some(b) => b,
                        None => false,
                    },
                    http_only: match attrs.http_only {
                        Some(b) => b,
                        None => false,
                    },
                };
                proof {
                    assert(c@ =~= (CookieV {
                        raw: raw_cookie@,
                        path: c@.path,
                        domain: c@.domain,
                        expires,
                        name: parsed_attributes(raw_cookie@)->0.name,
                        value: parsed_attributes(raw_cookie@)->0.value,
                        secure: parsed_attributes(raw_cookie@)->0.secure == Some(true),
                        http_only: parsed_attributes(raw_cookie@)->0.http_only == Some(true),
                    }));
                }
                Some(c)
            },
        }
    }

    /// Whether this cookie should be included for a request to `request_url`.
    pub fn matches(&self, request_url: &RequestUrl) -> (r: bool)
        ensures
            r == spec_matches(self@, request_url@),
    {
        self.path.matches(request_url) && self.domain.matches(request_url) && (!self.secure
            || request_url.is_secure()) && (!self.http_only || request_url.is_http_scheme())
    }

    /// Whether this cookie persists across sessions.
    pub fn is_persistent(&self) -> (r: bool)
        ensures
            r == (self@.expires is AtUtc),
    {
        match self.expires {
            CookieExpiration::AtUtc(_) => true,
            CookieExpiration::SessionEnd => false,
        }
    }

    /// Force immediate expiry: the expiration becomes the earliest
    /// representable instant; no other field changes.
    pub fn expire(&mut self)
        ensures
            final(self)@ == (CookieV {
                expires: CookieExpiration::AtUtc(EARLIEST_INSTANT),
                ..old(self)@
            }),
    {
        self.expires = CookieExpiration::AtUtc(EARLIEST_INSTANT);
        proof {
            assert(self@ =~= (CookieV {
                expires: CookieExpiration::AtUtc(EARLIEST_INSTANT),
                ..old(self)@
            }));
        }
    }

    /// Whether this cookie expires at or before instant `t`; a session cookie
    /// never expires by any supplied instant.
    pub fn expires_by(&self, t: i64) -> (r: bool)
        ensures
            r == spec_expires_by(self@.expires, t as int),
    {
        self.expires.expires_by(t)
    }

    /// Whether this cookie is expired at the current instant; always false
    /// for a session cookie.
    pub fn is_expired(&self) -> (r: bool)
        ensures
            self@.expires is SessionEnd ==> !r,
            self@.expires == CookieExpiration::AtUtc(EARLIEST_INSTANT) ==> r,
            exists|t: i64|
                #![auto]
                EARLIEST_INSTANT <= t <= LATEST_INSTANT && r == spec_expires_by(
                    self@.expires,
                    t as int,
                ),
    {
        self.expires.is_expired()
    }

    /// This cookie as an owned value.
    pub fn into_owned(self) -> (r: Cookie)
        ensures
            r@ == self@,
    {
        self
    }

    /// The cookie's name.
    pub fn name(&self) -> (r: &str)
        ensures
            r@ == self@.name,
    {
        self.name.as_str()
    }

    /// The cookie's value.
    pub fn value(&self) -> (r: &str)
        ensures
            r@ == self@.value,
    {
        self.value.as_str()
    }

    /// Whether the Secure attribute was set.
    pub fn secure(&self) -> (r: bool)
        ensures
            r == self@.secure,
    {
        self.secure
    }

    /// Whether the HttpOnly attribute was set.
    pub fn http_only(&self) -> (r: bool)
        ensures
            r == self@.http_only,
    {
        self.http_only
    }

    /// The canonical domain string, the store's domain key.
    pub fn domain_str(&self) -> (r: &str)
        ensures
            r@ == crate::cookie_domain::spec_domain_str(self@.domain),
    {
        self.domain.as_str()
    }

    /// The cookie-path string, the store's path key.
    pub fn path_str(&self) -> (r: &str)
        ensures
            r@ == self@.path.path,
    {
        self.path.as_str()
    }

    /// The domain scope.
    pub fn domain(&self) -> (r: &CookieDomain)
        ensures
            r@ == self@.domain,
    {
        &self.domain
    }

    /// The cookie-path.
    pub fn path(&self) -> (r: &CookiePath)
        ensures
            r@ == self@.path,
    {
        &self.path
    }

    /// The resolved expiration.
    pub fn expires(&self) -> (r: CookieExpiration)
        ensures
            r == self@.expires,
    {
        self.expires
    }

    /// The Expires value that conversion back to raw attribute text
    /// re-emits: the absolute instant of a persistent cookie, nothing for a
    /// session cookie. Max-Age is never reconstructed — it is relative and
    /// would not keep its meaning later.
    pub fn emitted_expires(&self) -> (r: Option<i64>)
        ensures
            r == match self@.expires {
                CookieExpiration::AtUtc(t) => Some(t),
                CookieExpiration::SessionEnd => None::<i64>,
            },
    {
        match self.expires {
            CookieExpiration::AtUtc(t) => Some(t),
            CookieExpiration::SessionEnd => None,
        }
    }

    /// The Domain attribute that conversion back to raw attribute text
    /// re-emits: only an honored suffix scope, never a host-only one.
    pub fn emitted_domain(&self) -> (r: Option<&str>)
        ensures
            match self@.domain {
                CookieDomainV::Suffix(s) => r matches Some(d) && d@ == s,
                CookieDomainV::HostOnly(_) => r is None,
            },
    {
        match &self.domain {
            CookieDomain::Suffix(s) => Some(s.as_str()),
            CookieDomain::HostOnly(_) => None,
        }
    }

    /// The Path attribute that conversion back to raw attribute text
    /// re-emits: only a path that came from an explicit Path attribute.
    pub fn emitted_path(&self) -> (r: Option<&str>)
        ensures
            if self@.path.from_attr {
                r matches Some(p) && p@ == self@.path.path
            } else {
                r is None
            },
    {
        if self.path.is_from_path_attr() {
            Some(self.path.as_str())
        } else {
            None
        }
    }

    /// The retained raw Set-Cookie text.
    pub fn raw_cookie(&self) -> (r: &str)
        ensures
            r@ == self@.raw,
    {
        self.raw_cookie.as_str()
    }
}

/// Max-Age precedence: when a Max-Age attribute is present the resolved
/// expiration is the Max-Age-derived instant, whatever Expires holds — an
/// earlier one, a later one, or none.
pub proof fn lemma_max_age_precedence(
    max_age: i64,
    expires_a: Option<i64>,
    expires_b: Option<i64>,
    now: int,
)
    ensures
        spec_resolve_expiration(Some(max_age), expires_a, now) == spec_from_max_age(
            now,
            max_age as int,
        ),
        spec_resolve_expiration(Some(max_age), expires_a, now) == spec_resolve_expiration(
            Some(max_age),
            expires_b,
            now,
        ),
{
}

} // verus!
