//! Domain scoping: canonicalization of hosts and the domain-match rule of
//! RFC 6265.
//!
//! IDNA normalization is an external collaborator, called behind a trusted
//! wrapper; the matching rule itself is verified string logic.

use vstd::prelude::*;
use vstd::string::StrSliceExecFns;
use crate::Error;
use crate::request::RequestUrl;
use crate::strutil::str_eq;

verus! {

/// The domain scope of a cookie: exactly one host (no Domain attribute was
/// honored), or a domain suffix and all its subdomains (an explicit Domain
/// attribute was honored).
#[derive(Debug)]
pub enum CookieDomain {
    HostOnly(String),
    Suffix(String),
}

/// Mathematical view of a [`CookieDomain`].
pub ghost enum CookieDomainV {
    HostOnly(Seq<char>),
    Suffix(Seq<char>),
}

impl View for CookieDomain {
    type V = CookieDomainV;

    open spec fn view(&self) -> CookieDomainV {
        match self {
            CookieDomain::HostOnly(h) => CookieDomainV::HostOnly(h@),
            CookieDomain::Suffix(d) => CookieDomainV::Suffix(d@),
        }
    }
}

impl DeepView for CookieDomain {
    type V = CookieDomainV;

    open spec fn deep_view(&self) -> CookieDomainV {
        self.view()
    }
}

impl Clone for CookieDomain {
    fn clone(&self) -> (r: Self)
        ensures
            r@ == self@,
    {
        match self {
            CookieDomain::HostOnly(h) => CookieDomain::HostOnly(h.clone()),
            CookieDomain::Suffix(d) => CookieDomain::Suffix(d.clone()),
        }
    }
}

impl PartialEq for CookieDomain {
    fn eq(&self, other: &Self) -> (r: bool) {
        match (self, other) {
            (CookieDomain::HostOnly(a), CookieDomain::HostOnly(b)) => str_eq(
                a.as_str(),
                b.as_str(),
            ),
            (CookieDomain::Suffix(a), CookieDomain::Suffix(b)) => str_eq(a.as_str(), b.as_str()),
            _ => false,
        }
    }
}

impl vstd::std_specs::cmp::PartialEqSpecImpl for CookieDomain {
    open spec fn obeys_eq_spec() -> bool {
        true
    }

    open spec fn eq_spec(&self, other: &Self) -> bool {
        self@ == other@
    }
}

impl Eq for CookieDomain {}

/// The string carried inside the domain scope, the store's domain key.
pub open spec fn spec_domain_str(d: CookieDomainV) -> Seq<char> {
    match d {
        CookieDomainV::HostOnly(h) => h,
        CookieDomainV::Suffix(s) => s,
    }
}

/// A cookie domain covers a request host iff the two are identical, or the
/// host ends with the domain, the character just before that suffix is `.`,
/// and the host is not a numeric IP literal.
pub open spec fn spec_domain_match(
    cookie_domain: Seq<char>,
    host: Seq<char>,
    host_is_ip: bool,
) -> bool {
    ||| cookie_domain == host
    ||| {
        &&& !host_is_ip
        &&& cookie_domain.len() < host.len()
        &&& host.subrange(
            host.len() - cookie_domain.len(),
            host.len() as int,
        ) == cookie_domain
        &&& host[host.len() - cookie_domain.len() - 1] == '.'
    }
}

/// Whether a domain scope covers a request host: exact equality for a
/// host-only scope, the domain-match rule for a suffix scope.
pub open spec fn spec_domain_covers(
    d: CookieDomainV,
    host: Seq<char>,
    host_is_ip: bool,
) -> bool {
    match d {
        CookieDomainV::HostOnly(h) => h == host,
        CookieDomainV::Suffix(s) => spec_domain_match(s, host, host_is_ip),
    }
}

/// The domain-match rule on plain strings.
pub fn domain_match(cookie_domain: &str, request_host: &str, host_is_ip: bool) -> (r: bool)
    ensures
        r == spec_domain_match(cookie_domain@, request_host@, host_is_ip),
{
    if str_eq(cookie_domain, request_host) {
        return true;
    }
    if host_is_ip {
        return false;
    }
    let cn = cookie_domain.unicode_len();
    let hn = request_host.unicode_len();
    if cn >= hn {
        return false;
    }
    let start = hn - cn;
    let mut i: usize = 0;
    while i < cn
        invariant
            i <= cn,
            cn < hn,
            start == hn - cn,
            cn == cookie_domain@.len(),
            hn == request_host@.len(),
            forall|j: int| 0 <= j < i ==> cookie_domain@[j] == request_host@[start + j],
        decreases cn - i,
    {
        if cookie_domain.get_char(i) != request_host.get_char(start + i) {
            proof {
                let tail = request_host@.subrange(
                    request_host@.len() - cookie_domain@.len(),
                    request_host@.len() as int,
                );
                assert(tail[i as int] == request_host@[start + i]);
            }
            return false;
        }
        i += 1;
    }
    proof {
        assert(request_host@.subrange(
            request_host@.len() - cookie_domain@.len(),
            request_host@.len() as int,
        ) =~= cookie_domain@);
    }
    request_host.get_char(start - 1) == '.'
}

/// What IDNA normalization yields for a given domain; the algorithm is
/// deterministic, so the outcome is a function of the input characters alone.
pub uninterp spec fn ascii_domain(s: Seq<char>) -> Option<Seq<char>>;

/// Relies on `idna::domain_to_ascii`: lowercases and IDNA-normalizes a domain
/// name (Punycode where needed); the process can fail, and both outcome and
/// failure depend on the input alone.
#[verifier::external_body]
pub(crate) fn idna_to_ascii(domain: &str) -> (r: Option<String>)
    ensures
        (r is Some) == (ascii_domain(domain@) is Some),
        r matches Some(s) ==> ascii_domain(domain@) == Some(s@),
{
    idna::domain_to_ascii(domain).ok()
}

impl CookieDomain {
    /// The host-only scope of a request URL, or `NonRelativeScheme` when the
    /// URL has no determinable host.
    pub fn host_only(url: &RequestUrl) -> (r: Result<CookieDomain, Error>)
        ensures
            ({
                match url@.host {
                    Some(h) => r matches Ok(d) && d@ == CookieDomainV::HostOnly(h),
                    None => r matches Err(e) && e == Error::NonRelativeScheme,
                }
            }),
    {
        match &url.host {
            Some(h) => Ok(CookieDomain::HostOnly(h.clone())),
            None => Err(Error::NonRelativeScheme),
        }
    }

    /// Whether this scope covers the host of `url`; false when the URL has no
    /// host.
    pub fn matches(&self, url: &RequestUrl) -> (r: bool)
        ensures
            r == ({
                match url@.host {
                    Some(h) => spec_domain_covers(self@, h, url@.host_is_ip),
                    None => false,
                }
            }),
    {
        match &url.host {
            None => false,
            Some(h) => match self {
                CookieDomain::HostOnly(d) => str_eq(d.as_str(), h.as_str()),
                CookieDomain::Suffix(s) => domain_match(s.as_str(), h.as_str(), url.host_is_ip),
            },
        }
    }

    /// The canonical string carried inside the scope.
    pub fn as_str(&self) -> (r: &str)
        ensures
            r@ == spec_domain_str(self@),
    {
        match self {
            CookieDomain::HostOnly(h) => h.as_str(),
            CookieDomain::Suffix(s) => s.as_str(),
        }
    }
}

} // verus!
