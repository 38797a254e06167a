//! An in-memory, RFC 6265-style cookie jar.
//!
//! Raw cookie attributes are normalized against a request URL into a
//! validated [`Cookie`] record; a [`CookieStore`](cookie_store::CookieStore)
//! keeps at most one record per (domain, path, name) triple and answers
//! URL-scoped queries by re-applying the matching predicates.

use vstd::prelude::*;

pub mod cookie;
pub mod cookie_domain;
pub mod cookie_expiration;
pub mod cookie_path;
pub mod cookie_store;
pub mod cookie_store_serialized;
pub mod request;
pub mod strutil;

pub use crate::cookie::Cookie;
pub use crate::cookie::RawAttributes;
pub use crate::cookie_domain::CookieDomain;
pub use crate::cookie_expiration::CookieExpiration;
pub use crate::cookie_path::CookiePath;
pub use crate::cookie_store::CookieStore;
pub use crate::cookie_store_serialized::CookieStoreSerialized;
pub use crate::request::RequestUrl;

verus! {

/// The outcome of building one cookie.
pub type CookieResult = Result<crate::cookie::Cookie, Error>;

/// Why a cookie could not be built from its attributes and the request URL.
#[derive(Debug, Clone, Copy, PartialEq, Eq, Structural)]
pub enum Error {
    /// The HttpOnly attribute was set, but the request URL's scheme is not an
    /// HTTP-family scheme.
    NonHttpScheme,
    /// No Domain attribute was given and no host can be determined from the
    /// request URL.
    NonRelativeScheme,
    /// The Domain attribute does not domain-match the request host.
    DomainMismatch,
    /// The raw attribute text (or a host inside it) could not be parsed.
    Parse,
    /// The Domain attribute names a public suffix other than the request host
    /// itself.
    PublicSuffix,
    /// A host-only or absent domain was used where a Suffix value is required.
    UnspecifiedDomain,
    /// A non-expired cookie was required.
    Expired,
}

impl Error {
    /// A short human-readable description of the error.
    pub fn message(&self) -> (r: &'static str)
        ensures
            r@.len() > 0,
    {
        let r = match self {
            Error::NonHttpScheme => "request-uri is not an http scheme but HttpOnly attribute set",
            Error::NonRelativeScheme => "request-uri is not a relative scheme; cannot determine host",
            Error::DomainMismatch => "request-uri does not domain-match the cookie",
            Error::Parse => "unable to parse string as cookie",
            Error::PublicSuffix => "domain-attribute value is a public suffix",
            Error::UnspecifiedDomain => "domain-attribute is not specified",
            Error::Expired => "attempted to utilize an Expired Cookie",
        };
        proof {
            reveal_strlit("request-uri is not an http scheme but HttpOnly attribute set");
            reveal_strlit("request-uri is not a relative scheme; cannot determine host");
            reveal_strlit("request-uri does not domain-match the cookie");
            reveal_strlit("unable to parse string as cookie");
            reveal_strlit("domain-attribute value is a public suffix");
            reveal_strlit("domain-attribute is not specified");
            reveal_strlit("attempted to utilize an Expired Cookie");
        }
        r
    }
}

} // verus!
