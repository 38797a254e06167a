//! The request context a cookie is set from or matched against: a scheme, an
//! optional canonical host, and a path.
//!
//! The URL parser itself is an external collaborator: whoever holds a parsed
//! URL hands its scheme, canonical host and path over as plain values, and
//! every rule here is verified against those.

use vstd::prelude::*;
use crate::strutil::str_eq;

verus! {

/// The parts of a request URL that the cookie rules read.
pub struct RequestUrl {
    /// The URL scheme, lowercase (the parser canonicalizes it).
    pub scheme: String,
    /// The canonical host, absent when the scheme is non-relative.
    pub host: Option<String>,
    /// Whether the host is a numeric IP literal rather than a domain name.
    pub host_is_ip: bool,
    /// The URL path.
    pub path: String,
}

/// Mathematical view of a [`RequestUrl`].
pub ghost struct RequestUrlV {
    pub scheme: Seq<char>,
    pub host: Option<Seq<char>>,
    pub host_is_ip: bool,
    pub path: Seq<char>,
}

impl View for RequestUrl {
    type V = RequestUrlV;

    open spec fn view(&self) -> RequestUrlV {
        RequestUrlV {
            scheme: self.scheme@,
            host: match self.host {
                Option::Some(h) => Option::Some(h@),
                Option::None => Option::None,
            },
            host_is_ip: self.host_is_ip,
            path: self.path@,
        }
    }
}

/// Whether `scheme` is an HTTP-family scheme.
pub open spec fn spec_is_http_scheme(scheme: Seq<char>) -> bool {
    scheme == "http"@ || scheme == "https"@
}

/// Whether `scheme` is a secure scheme.
pub open spec fn spec_is_secure_scheme(scheme: Seq<char>) -> bool {
    scheme == "https"@
}

impl RequestUrl {
    /// Whether the request scheme is an HTTP-family scheme.
    pub fn is_http_scheme(&self) -> (r: bool)
        ensures
            r == spec_is_http_scheme(self@.scheme),
    {
        str_eq(self.scheme.as_str(), "http") || str_eq(self.scheme.as_str(), "https")
    }

    /// Whether the request scheme is a secure scheme.
    pub fn is_secure(&self) -> (r: bool)
        ensures
            r == spec_is_secure_scheme(self@.scheme),
    {
        str_eq(self.scheme.as_str(), "https")
    }
}

} // verus!
