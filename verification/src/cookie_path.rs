//! Path scoping: the default-path computation and the path-match rule of
//! RFC 6265.

use vstd::prelude::*;
use vstd::string::StrSliceExecFns;
use crate::request::RequestUrl;
use crate::strutil::{spec_is_prefix, str_is_prefix, str_eq};

verus! {

/// A request-path path-matches a cookie-path iff they are identical, or the
/// cookie-path is a prefix of the request-path and either ends with `/` or is
/// followed in the request-path by a `/`.
pub open spec fn spec_path_match(cookie_path: Seq<char>, request_path: Seq<char>) -> bool {
    ||| cookie_path == request_path
    ||| {
        &&& spec_is_prefix(cookie_path, request_path)
        &&& {
            ||| (cookie_path.len() > 0 && cookie_path.last() == '/')
            ||| (request_path.len() > cookie_path.len()
                && request_path[cookie_path.len() as int] == '/')
        }
    }
}

/// The rightmost index `< n` holding `/`, or 0 when there is none below `n`.
pub open spec fn last_slash_upto(p: Seq<char>, n: int) -> int
    decreases n,
{
    if n <= 1 {
        0
    } else if p[n - 1] == '/' {
        n - 1
    } else {
        last_slash_upto(p, n - 1)
    }
}

/// The default-path of a request URL path: `/` when the path is empty, does
/// not start with `/`, or has no `/` past position 0; otherwise everything up
/// to (excluding) the final `/`-delimited segment.
pub open spec fn spec_default_path(uri_path: Seq<char>) -> Seq<char> {
    if uri_path.len() == 0 || uri_path[0] != '/' {
        seq!['/']
    } else if last_slash_upto(uri_path, uri_path.len() as int) == 0 {
        seq!['/']
    } else {
        uri_path.subrange(0, last_slash_upto(uri_path, uri_path.len() as int))
    }
}

proof fn lemma_last_slash_upto_bounds(p: Seq<char>, n: int)
    requires
        n >= 1,
    ensures
        0 <= last_slash_upto(p, n) < n,
    decreases n,
{
    if n > 1 && p[n - 1] != '/' {
        lemma_last_slash_upto_bounds(p, n - 1);
    }
}

/// The default-path always begins with `/`.
pub proof fn lemma_default_path_wf(p: Seq<char>)
    ensures
        spec_default_path(p).len() > 0,
        spec_default_path(p)[0] == '/',
{
    if p.len() == 0 || p[0] != '/' {
    } else {
        let j = last_slash_upto(p, p.len() as int);
        lemma_last_slash_upto_bounds(p, p.len() as int);
        if j != 0 {
            assert(p.subrange(0, j)[0] == p[0]);
        }
    }
}

/// The cookie-path: either taken verbatim from a Path attribute, or computed
/// as the default-path of the request URL.
#[derive(Debug)]
pub struct CookiePath {
    path: String,
    from_attr: bool,
}

/// Mathematical view of a [`CookiePath`].
pub ghost struct CookiePathV {
    pub path: Seq<char>,
    pub from_attr: bool,
}

impl View for CookiePath {
    type V = CookiePathV;

    closed spec fn view(&self) -> CookiePathV {
        CookiePathV { path: self.path@, from_attr: self.from_attr }
    }
}

impl DeepView for CookiePath {
    type V = CookiePathV;

    open spec fn deep_view(&self) -> CookiePathV {
        self.view()
    }
}

impl Clone for CookiePath {
    fn clone(&self) -> (r: Self)
        ensures
            r@ == self@,
    {
        CookiePath { path: self.path.clone(), from_attr: self.from_attr }
    }
}

impl PartialEq for CookiePath {
    fn eq(&self, other: &Self) -> (r: bool) {
        str_eq(self.path.as_str(), other.path.as_str()) && self.from_attr == other.from_attr
    }
}

impl vstd::std_specs::cmp::PartialEqSpecImpl for CookiePath {
    open spec fn obeys_eq_spec() -> bool {
        true
    }

    open spec fn eq_spec(&self, other: &Self) -> bool {
        self@ == other@
    }
}

impl Eq for CookiePath {}

/// A well-formed cookie-path always begins with `/`.
pub open spec fn spec_path_wf(p: CookiePathV) -> bool {
    p.path.len() > 0 && p.path[0] == '/'
}

/// A `String` holding exactly `/`.
fn root_path_string() -> (r: String)
    ensures
        r@ =~= seq!['/'],
{
    proof {
        reveal_strlit("/");
    }
    "/".to_owned()
}

impl CookiePath {
    /// Use a Path attribute verbatim when it starts with `/`; otherwise
    /// signal "use the default-path".
    pub fn parse(path_attr: &str) -> (r: Option<CookiePath>)
        ensures
            ({
                if path_attr@.len() > 0 && path_attr@[0] == '/' {
                    r matches Some(p) && p@ == (CookiePathV {
                        path: path_attr@,
                        from_attr: true,
                    })
                } else {
                    r is None
                }
            }),
    {
        if path_attr.unicode_len() > 0 && path_attr.get_char(0) == '/' {
            Some(CookiePath { path: path_attr.to_owned(), from_attr: true })
        } else {
            None
        }
    }

    /// The default-path of `url`, flagged as not coming from a Path attribute.
    pub fn default_path(url: &RequestUrl) -> (r: CookiePath)
        ensures
            r@ == (CookiePathV { path: spec_default_path(url@.path), from_attr: false }),
            spec_path_wf(r@),
    {
        proof {
            lemma_default_path_wf(url@.path);
        }
        CookiePath { path: default_path_of(url.path.as_str()), from_attr: false }
    }

    /// Whether this cookie-path path-matches the path of `url`.
    pub fn matches(&self, url: &RequestUrl) -> (r: bool)
        ensures
            r == spec_path_match(self@.path, url@.path),
    {
        path_match(self.path.as_str(), url.path.as_str())
    }

    /// Whether the path came from an explicit Path attribute.
    pub fn is_from_path_attr(&self) -> (r: bool)
        ensures
            r == self@.from_attr,
    {
        self.from_attr
    }

    /// A cookie-path rebuilt from its stored parts.
    pub fn from_parts(path: String, from_attr: bool) -> (r: CookiePath)
        ensures
            r@ == (CookiePathV { path: path@, from_attr }),
    {
        CookiePath { path, from_attr }
    }

    /// The cookie-path string.
    pub fn as_str(&self) -> (r: &str)
        ensures
            r@ == self@.path,
    {
        self.path.as_str()
    }
}

/// The path-match rule on plain strings.
pub fn path_match(cookie_path: &str, request_path: &str) -> (r: bool)
    ensures
        r == spec_path_match(cookie_path@, request_path@),
{
    if !str_is_prefix(cookie_path, request_path) {
        proof {
            // Identical strings are prefixes of each other, so neither branch
            // of the rule can hold.
            if cookie_path@ == request_path@ {
                assert(request_path@.subrange(0, cookie_path@.len() as int) =~= cookie_path@);
            }
        }
        return false;
    }
    let cn = cookie_path.unicode_len();
    let rn = request_path.unicode_len();
    if cn == rn {
        proof {
            assert(request_path@.subrange(0, cookie_path@.len() as int) =~= request_path@);
        }
        return true;
    }
    if cn > 0 && cookie_path.get_char(cn - 1) == '/' {
        return true;
    }
    request_path.get_char(cn) == '/'
}

/// The default-path computation on a plain URL path string.
pub fn default_path_of(uri_path: &str) -> (r: String)
    ensures
        r@ == spec_default_path(uri_path@),
{
    let n = uri_path.unicode_len();
    if n == 0 || uri_path.get_char(0) != '/' {
        return root_path_string();
    }
    let mut j: usize = n;
    while j > 1 && uri_path.get_char(j - 1) != '/'
        invariant
            1 <= j <= n,
            n == uri_path@.len(),
            uri_path@[0] == '/',
            last_slash_upto(uri_path@, n as int) == last_slash_upto(uri_path@, j as int),
        decreases j,
    {
        j -= 1;
    }
    // Here either j == 1, or uri_path@[j - 1] == '/'.
    if j == 1 {
        proof {
            assert(last_slash_upto(uri_path@, n as int) == 0);
        }
        root_path_string()
    } else {
        proof {
            assert(last_slash_upto(uri_path@, j as int) == j - 1);
            assert(uri_path@.subrange(0, j - 1)[0] == uri_path@[0]);
        }
        uri_path.substring_char(0, j - 1).to_owned()
    }
}

} // verus!
