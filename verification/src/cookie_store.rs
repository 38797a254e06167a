//! The indexed cookie store: at most one cookie per (domain, path, name)
//! triple, insertion with unconditional replacement, exact-key lookup and
//! removal, URL-scoped querying, and bulk construction.

use vstd::prelude::*;
use crate::Error;
use crate::cookie::{spec_matches, spec_parse, Cookie, CookieV};
use crate::cookie_domain::spec_domain_str;
use crate::cookie_expiration::{
    now_utc_seconds, spec_expires_by, EARLIEST_INSTANT, LATEST_INSTANT,
};
use crate::request::RequestUrl;
use crate::strutil::str_eq;

verus! {

/// The replacement key of a cookie: the canonical domain string, the
/// cookie-path, and the name.
pub open spec fn spec_key(c: CookieV) -> (Seq<char>, Seq<char>, Seq<char>) {
    (spec_domain_str(c.domain), c.path.path, c.name)
}

/// Whether some entry of `s` carries key `k`.
pub open spec fn has_key(s: Seq<CookieV>, k: (Seq<char>, Seq<char>, Seq<char>)) -> bool {
    exists|i: int| 0 <= i < s.len() && spec_key(s[i]) == k
}

/// The index of the entry of `s` carrying key `k` (unique in a well-formed
/// store).
pub open spec fn key_index(s: Seq<CookieV>, k: (Seq<char>, Seq<char>, Seq<char>)) -> int {
    choose|i: int| 0 <= i < s.len() && spec_key(s[i]) == k
}

/// No two entries of `s` share a key.
pub open spec fn store_keys_distinct(s: Seq<CookieV>) -> bool {
    forall|i: int, j: int|
        0 <= i < j < s.len() ==> spec_key(s[i]) != spec_key(s[j])
}

/// Insertion with unconditional replacement: an entry sharing the key is
/// overwritten in place, anything else is appended.
pub open spec fn seq_insert(s: Seq<CookieV>, c: CookieV) -> Seq<CookieV> {
    if has_key(s, spec_key(c)) {
        s.update(key_index(s, spec_key(c)), c)
    } else {
        s.push(c)
    }
}

/// In a well-formed store the entry carrying a present key is unique, so
/// `key_index` picks exactly the matching position.
pub proof fn lemma_key_index_unique(s: Seq<CookieV>, i: int)
    requires
        store_keys_distinct(s),
        0 <= i < s.len(),
    ensures
        has_key(s, spec_key(s[i])),
        key_index(s, spec_key(s[i])) == i,
{
    let k = spec_key(s[i]);
    assert(0 <= i < s.len() && spec_key(s[i]) == k);
    let j = key_index(s, k);
    assert(0 <= j < s.len() && spec_key(s[j]) == k);
    if j != i {
        assert(false);
    }
}

/// The unexpired selection: every entry not expired at instant `t`.
pub open spec fn spec_unexpired(s: Seq<CookieV>, t: int) -> Seq<CookieV> {
    s.filter(|c: CookieV| !spec_expires_by(c.expires, t))
}

/// An indexed collection of cookies, keyed by (domain, path, name).
#[derive(Debug)]
pub struct CookieStore {
    cookies: Vec<Cookie>,
}

impl View for CookieStore {
    type V = Seq<CookieV>;

    closed spec fn view(&self) -> Seq<CookieV> {
        self.cookies.deep_view()
    }
}

impl CookieStore {
    /// Well-formedness: no two entries share a (domain, path, name) key.
    /// Every constructor establishes it and every mutation preserves it.
    pub open spec fn wf(&self) -> bool {
        store_keys_distinct(self@)
    }

    /// An empty store.
    pub fn new() -> (r: CookieStore)
        ensures
            r@ == Seq::<CookieV>::empty(),
            r.wf(),
    {
        let r = CookieStore { cookies: Vec::new() };
        proof {
            assert(r@ =~= Seq::<CookieV>::empty());
        }
        r
    }

    /// The number of stored cookies.
    pub fn len(&self) -> (r: usize)
        ensures
            r == self@.len(),
    {
        self.cookies.len()
    }

    /// Empty the store.
    pub fn clear(&mut self)
        ensures
            final(self)@ == Seq::<CookieV>::empty(),
            final(self).wf(),
    {
        self.cookies.clear();
        proof {
            assert(self@ =~= Seq::<CookieV>::empty());
        }
    }

    /// Insert `cookie`, unconditionally overwriting any entry sharing its
    /// (domain, path, name) key, whatever either cookie's expiration state.
    pub fn insert(&mut self, cookie: Cookie)
        requires
            old(self).wf(),
        ensures
            final(self)@ == seq_insert(old(self)@, cookie@),
            final(self).wf(),
    {
        let n = self.cookies.len();
        let mut i: usize = 0;
        while i < n
            invariant
                i <= n,
                n == self.cookies.len(),
                self@ == old(self)@,
                store_keys_distinct(self@),
                forall|j: int| 0 <= j < i ==> spec_key(self@[j]) != spec_key(cookie@),
            decreases n - i,
        {
            if key_eq(&self.cookies[i], &cookie) {
                proof {
                    lemma_key_index_unique(old(self)@, i as int);
                }
                let ghost cv = cookie@;
                let ghost k = spec_key(cookie@);
                self.cookies.set(i, cookie);
                proof {
                    assert(self@ =~= old(self)@.update(i as int, cv));
                    assert(has_key(old(self)@, k));
                    assert(key_index(old(self)@, k) == i as int);
                    assert forall|j: int| 0 <= j < self@.len() implies spec_key(self@[j])
                        == spec_key(old(self)@[j]) by {}
                    assert forall|p: int, q: int|
                        0 <= p < q < self@.len() implies spec_key(self@[p]) != spec_key(
                        self@[q],
                    ) by {}
                }
                return;
            }
            i += 1;
        }
        self.cookies.push(cookie);
        proof {
            assert(!has_key(old(self)@, spec_key(cookie@)));
            assert(self@ =~= old(self)@.push(cookie@));
        }
    }

    /// Parse one raw Set-Cookie line received from `request_url` and insert
    /// the resulting cookie; on validation failure the store is left
    /// unmodified and the error is returned.
    pub fn insert_from_text(&mut self, raw_text: &str, request_url: &RequestUrl) -> (r: Result<
        (),
        Error,
    >)
        requires
            old(self).wf(),
        ensures
            final(self).wf(),
            r matches Err(e) ==> final(self)@ == old(self)@ && forall|t: int|
                spec_parse(raw_text@, request_url@, t) == Err::<CookieV, Error>(e),
            r is Ok ==> exists|t: int|
                {
                    &&& EARLIEST_INSTANT <= t <= LATEST_INSTANT
                    &&& #[trigger] spec_parse(raw_text@, request_url@, t) matches Ok(cv)
                        && final(self)@ == seq_insert(old(self)@, cv)
                },
    {
        match Cookie::parse(raw_text, request_url) {
            Err(e) => Err(e),
            Ok(c) => {
                let ghost cv = c@;
                self.insert(c);
                proof {
                    let t = choose|t: int|
                        EARLIEST_INSTANT <= t <= LATEST_INSTANT && spec_parse(
                            raw_text@,
                            request_url@,
                            t,
                        ) == Ok::<CookieV, Error>(cv);
                    assert({
                        &&& EARLIEST_INSTANT <= t <= LATEST_INSTANT
                        &&& spec_parse(raw_text@, request_url@, t) matches Ok(v) && final(self)@
                            == seq_insert(old(self)@, v)
                    });
                }
                Ok(())
            },
        }
    }

    /// Exact-key lookup, ignoring expiration.
    pub fn get(&self, domain: &str, path: &str, name: &str) -> (r: Option<&Cookie>)
        requires
            self.wf(),
        ensures
            ({
                let k = (domain@, path@, name@);
                match r {
                    Some(c) => has_key(self@, k) && c@ == self@[key_index(self@, k)],
                    None => !has_key(self@, k),
                }
            }),
    {
        let n = self.cookies.len();
        let mut i: usize = 0;
        while i < n
            invariant
                i <= n,
                n == self.cookies.len(),
                store_keys_distinct(self@),
                forall|j: int| 0 <= j < i ==> spec_key(self@[j]) != (domain@, path@, name@),
            decreases n - i,
        {
            if key_matches(&self.cookies[i], domain, path, name) {
                proof {
                    lemma_key_index_unique(self@, i as int);
                }
                return Some(&self.cookies[i]);
            }
            i += 1;
        }
        None
    }

    /// Exact-key removal, returning the removed cookie if one was there.
    pub fn remove(&mut self, domain: &str, path: &str, name: &str) -> (r: Option<Cookie>)
        requires
            old(self).wf(),
        ensures
            final(self).wf(),
            ({
                let k = (domain@, path@, name@);
                if has_key(old(self)@, k) {
                    &&& r matches Some(c) && c@ == old(self)@[key_index(old(self)@, k)]
                    &&& final(self)@ == old(self)@.remove(key_index(old(self)@, k))
                } else {
                    r is None && final(self)@ == old(self)@
                }
            }),
    {
        let n = self.cookies.len();
        let mut i: usize = 0;
        while i < n
            invariant
                i <= n,
                n == self.cookies.len(),
                self@ == old(self)@,
                store_keys_distinct(self@),
                forall|j: int| 0 <= j < i ==> spec_key(self@[j]) != (domain@, path@, name@),
            decreases n - i,
        {
            if key_matches(&self.cookies[i], domain, path, name) {
                proof {
                    lemma_key_index_unique(self@, i as int);
                }
                let c = self.cookies.remove(i);
                proof {
                    assert(self@ =~= old(self)@.remove(i as int));
                    assert forall|p: int, q: int|
                        0 <= p < q < self@.len() implies spec_key(self@[p]) != spec_key(
                        self@[q],
                    ) by {
                        assert(self@[p] == old(self)@[if p < i as int { p } else { p + 1 }]);
                        assert(self@[q] == old(self)@[if q < i as int { q } else { q + 1 }]);
                    }
                }
                return Some(c);
            }
            i += 1;
        }
        None
    }

    /// Every stored cookie, expired or not, that matches `request_url`.
    pub fn query(&self, request_url: &RequestUrl) -> (r: Vec<Cookie>)
        ensures
            r.deep_view() == self@.filter(|c: CookieV| spec_matches(c, request_url@)),
    {
        let n = self.cookies.len();
        let mut out: Vec<Cookie> = Vec::new();
        let mut i: usize = 0;
        proof {
            assert(out.deep_view() =~= self@.subrange(0, 0).filter(
                |c: CookieV| spec_matches(c, request_url@),
            )) by {
                reveal(Seq::filter);
            }
        }
        while i < n
            invariant
                i <= n,
                n == self.cookies.len(),
                out.deep_view() == self@.subrange(0, i as int).filter(
                    |c: CookieV| spec_matches(c, request_url@),
                ),
            decreases n - i,
        {
            let ghost pred = |c: CookieV| spec_matches(c, request_url@);
            proof {
                lemma_filter_step(self@, i as int, pred);
            }
            if self.cookies[i].matches(request_url) {
                let c = self.cookies[i].clone();
                let ghost cc = c;
                let ghost prev = out;
                out.push(c);
                proof {
                    lemma_push_deep_view(prev, out, cc);
                }
            }
            proof {
                assert(out.deep_view() =~= self@.subrange(0, i + 1).filter(pred));
            }
            i += 1;
        }
        proof {
            assert(self@.subrange(0, n as int) =~= self@);
        }
        out
    }

    /// Every stored cookie, regardless of expiry.
    pub fn iter_any(&self) -> (r: Vec<Cookie>)
        ensures
            r.deep_view() == self@,
    {
        let n = self.cookies.len();
        let mut out: Vec<Cookie> = Vec::new();
        let mut i: usize = 0;
        while i < n
            invariant
                i <= n,
                n == self.cookies.len(),
                out.deep_view() == self@.subrange(0, i as int),
            decreases n - i,
        {
            let c = self.cookies[i].clone();
            let ghost cc = c;
            let ghost prev = out;
            out.push(c);
            proof {
                lemma_push_deep_view(prev, out, cc);
                assert(out.deep_view() =~= self@.subrange(0, i + 1));
            }
            i += 1;
        }
        proof {
            assert(self@.subrange(0, n as int) =~= self@);
        }
        out
    }

    /// Every stored cookie not expired at instant `t`.
    pub fn iter_unexpired_at(&self, t: i64) -> (r: Vec<Cookie>)
        ensures
            r.deep_view() == spec_unexpired(self@, t as int),
    {
        let n = self.cookies.len();
        let mut out: Vec<Cookie> = Vec::new();
        let mut i: usize = 0;
        proof {
            assert(out.deep_view() =~= self@.subrange(0, 0).filter(
                |c: CookieV| !spec_expires_by(c.expires, t as int),
            )) by {
                reveal(Seq::filter);
            }
        }
        while i < n
            invariant
                i <= n,
                n == self.cookies.len(),
                out.deep_view() == self@.subrange(0, i as int).filter(
                    |c: CookieV| !spec_expires_by(c.expires, t as int),
                ),
            decreases n - i,
        {
            let ghost pred = |c: CookieV| !spec_expires_by(c.expires, t as int);
            proof {
                lemma_filter_step(self@, i as int, pred);
            }
            if !self.cookies[i].expires_by(t) {
                let c = self.cookies[i].clone();
                let ghost cc = c;
                let ghost prev = out;
                out.push(c);
                proof {
                    lemma_push_deep_view(prev, out, cc);
                }
            }
            proof {
                assert(out.deep_view() =~= self@.subrange(0, i + 1).filter(pred));
            }
            i += 1;
        }
        proof {
            assert(self@.subrange(0, n as int) =~= self@);
        }
        out
    }

    /// Every stored cookie not expired at the current instant.
    pub fn iter_unexpired(&self) -> (r: Vec<Cookie>)
        ensures
            exists|t: i64|
                #![auto]
                EARLIEST_INSTANT <= t <= LATEST_INSTANT && r.deep_view() == spec_unexpired(
                    self@,
                    t as int,
                ),
    {
        let t = now_utc_seconds();
        self.iter_unexpired_at(t)
    }

    /// Build a store from fallible records at instant `t`, aborting on the
    /// first error; a cookie expired at `t` is dropped unless
    /// `include_expired` is set.
    pub fn from_records_at(
        records: Vec<Result<Cookie, Error>>,
        include_expired: bool,
        t: i64,
    ) -> (r: Result<CookieStore, Error>)
        ensures
            ({
                let built = spec_from_records(records@, include_expired, t as int);
                match r {
                    Ok(store) => built == Ok::<Seq<CookieV>, Error>(store@) && store.wf(),
                    Err(e) => built == Err::<Seq<CookieV>, Error>(e),
                }
            }),
    {
        let n = records.len();
        let mut store = CookieStore::new();
        let mut i: usize = 0;
        proof {
            assert(records@.subrange(0, 0) =~= Seq::<Result<Cookie, Error>>::empty());
        }
        while i < n
            invariant
                i <= n,
                n == records.len(),
                store.wf(),
                spec_from_records(
                    records@.subrange(0, i as int),
                    include_expired,
                    t as int,
                ) == Ok::<Seq<CookieV>, Error>(store@),
            decreases n - i,
        {
            let ghost rs = records@;
            proof {
                assert(rs.subrange(0, i + 1).drop_last() =~= rs.subrange(0, i as int));
                assert(rs.subrange(0, i + 1).last() == rs[i as int]);
            }
            match &records[i] {
                Err(e) => {
                    let err = *e;
                    proof {
                        lemma_from_records_err_extends(rs, include_expired, t as int, i as int, err);
                    }
                    return Err(err);
                },
                Ok(c) => {
                    if include_expired || !c.expires_by(t) {
                        store.insert(c.clone());
                    }
                },
            }
            i += 1;
        }
        proof {
            assert(records@.subrange(0, n as int) =~= records@);
        }
        Ok(store)
    }

    /// Build a store from fallible records against the ambient clock,
    /// aborting on the first error; an already-expired cookie is dropped
    /// unless `include_expired` is set.
    pub fn from_records(records: Vec<Result<Cookie, Error>>, include_expired: bool) -> (r: Result<
        CookieStore,
        Error,
    >)
        ensures
            r matches Err(e) ==> forall|t: int|
                spec_from_records(records@, include_expired, t) == Err::<
                    Seq<CookieV>,
                    Error,
                >(e),
            r matches Ok(store) ==> store.wf() && exists|t: int|
                EARLIEST_INSTANT <= t <= LATEST_INSTANT && spec_from_records(
                    records@,
                    include_expired,
                    t,
                ) == Ok::<Seq<CookieV>, Error>(store@),
    {
        let now = now_utc_seconds();
        let ghost rs = records@;
        let r = CookieStore::from_records_at(records, include_expired, now);
        proof {
            if r is Err {
                assert forall|t: int|
                    spec_from_records(rs, include_expired, t) == Err::<Seq<CookieV>, Error>(
                        r->Err_0,
                    ) by {
                    lemma_from_records_err_stable(rs, include_expired, now as int, t);
                }
            }
        }
        r
    }
}

/// Pushing onto a vector pushes its deep view.
pub(crate) proof fn lemma_push_deep_view(v1: Vec<Cookie>, v2: Vec<Cookie>, c: Cookie)
    requires
        v2@ == v1@.push(c),
    ensures
        v2.deep_view() =~= v1.deep_view().push(c@),
{
    assert forall|j: int| 0 <= j < v2.deep_view().len() implies v2.deep_view()[j]
        == v1.deep_view().push(c@)[j] by {
        if j < v1@.len() {
            assert(v2@[j] == v1@[j]);
        } else {
            assert(v2@[j] == c);
        }
    }
}

/// Whether two cookies share their (domain, path, name) key.
fn key_eq(a: &Cookie, b: &Cookie) -> (r: bool)
    ensures
        r == (spec_key(a@) == spec_key(b@)),
{
    str_eq(a.domain_str(), b.domain_str()) && str_eq(a.path_str(), b.path_str())
        && str_eq(a.name(), b.name())
}

/// Whether a cookie carries exactly the key (`domain`, `path`, `name`).
fn key_matches(c: &Cookie, domain: &str, path: &str, name: &str) -> (r: bool)
    ensures
        r == (spec_key(c@) == (domain@, path@, name@)),
{
    str_eq(c.domain_str(), domain) && str_eq(c.path_str(), path) && str_eq(c.name(), name)
}

/// The store contents that fallible records yield at instant `t`: the first
/// error aborts the whole batch; otherwise each cookie is inserted in order
/// (with replacement), skipping those expired at `t` unless `include_expired`
/// is set.
pub open spec fn spec_from_records(
    rs: Seq<Result<Cookie, Error>>,
    include_expired: bool,
    t: int,
) -> Result<Seq<CookieV>, Error>
    decreases rs.len(),
{
    if rs.len() == 0 {
        Ok(Seq::empty())
    } else {
        match spec_from_records(rs.drop_last(), include_expired, t) {
            Err(e) => Err(e),
            Ok(s) => match rs.last() {
                Err(e) => Err(e),
                Ok(c) => {
                    if include_expired || !spec_expires_by(c@.expires, t) {
                        Ok(seq_insert(s, c@))
                    } else {
                        Ok(s)
                    }
                },
            },
        }
    }
}

/// Once a prefix of the records has failed, every longer prefix fails with
/// the same (first) error.
proof fn lemma_from_records_err_extends(
    rs: Seq<Result<Cookie, Error>>,
    include_expired: bool,
    t: int,
    i: int,
    e: Error,
)
    requires
        0 <= i < rs.len(),
        spec_from_records(rs.subrange(0, i), include_expired, t) is Ok,
        rs[i] == Err::<Cookie, Error>(e),
    ensures
        spec_from_records(rs, include_expired, t) == Err::<Seq<CookieV>, Error>(e),
    decreases rs.len() - i,
{
    assert(rs.subrange(0, i + 1).drop_last() =~= rs.subrange(0, i));
    assert(rs.subrange(0, i + 1).last() == rs[i]);
    assert(spec_from_records(rs.subrange(0, i + 1), include_expired, t) == Err::<
        Seq<CookieV>,
        Error,
    >(e));
    lemma_from_records_err_propagates(rs, include_expired, t, i + 1, e);
}

/// An error outcome on a prefix propagates to the whole sequence.
proof fn lemma_from_records_err_propagates(
    rs: Seq<Result<Cookie, Error>>,
    include_expired: bool,
    t: int,
    j: int,
    e: Error,
)
    requires
        0 < j <= rs.len(),
        spec_from_records(rs.subrange(0, j), include_expired, t) == Err::<Seq<CookieV>, Error>(e),
    ensures
        spec_from_records(rs, include_expired, t) == Err::<Seq<CookieV>, Error>(e),
    decreases rs.len() - j,
{
    if j == rs.len() {
        assert(rs.subrange(0, j) =~= rs);
    } else {
        assert(rs.subrange(0, j + 1).drop_last() =~= rs.subrange(0, j));
        lemma_from_records_err_propagates(rs, include_expired, t, j + 1, e);
    }
}

/// Whether the records fail, and with which error, does not depend on the
/// instant: only the elements themselves can fail.
proof fn lemma_from_records_err_stable(
    rs: Seq<Result<Cookie, Error>>,
    include_expired: bool,
    t1: int,
    t2: int,
)
    ensures
        (spec_from_records(rs, include_expired, t1) is Err) ==> spec_from_records(
            rs,
            include_expired,
            t1,
        ) == spec_from_records(rs, include_expired, t2),
    decreases rs.len(),
{
    if rs.len() > 0 {
        lemma_from_records_err_stable(rs.drop_last(), include_expired, t1, t2);
        lemma_from_records_err_stable(rs.drop_last(), include_expired, t2, t1);
    }
}

/// Filtering one more element: the filtered prefix grows by the element
/// exactly when the predicate holds of it.
pub(crate) proof fn lemma_filter_step(s: Seq<CookieV>, i: int, pred: spec_fn(CookieV) -> bool)
    requires
        0 <= i < s.len(),
    ensures
        s.subrange(0, i + 1).filter(pred) == if pred(s[i]) {
            s.subrange(0, i).filter(pred).push(s[i])
        } else {
            s.subrange(0, i).filter(pred)
        },
{
    reveal(Seq::filter);
    assert(s.subrange(0, i + 1).drop_last() =~= s.subrange(0, i));
    assert(s.subrange(0, i + 1).last() == s[i]);
}

/// Replacing an entry that the predicate rejects filters the same as
/// removing it.
proof fn lemma_filter_update_false(s: Seq<CookieV>, i: int, x: CookieV, pred: spec_fn(CookieV) -> bool)
    requires
        0 <= i < s.len(),
        !pred(x),
    ensures
        s.update(i, x).filter(pred) == s.remove(i).filter(pred),
    decreases s.len(),
{
    reveal(Seq::filter);
    if i == s.len() - 1 {
        assert(s.update(i, x).drop_last() =~= s.remove(i));
        assert(s.update(i, x).last() == x);
    } else {
        lemma_filter_update_false(s.drop_last(), i, x, pred);
        assert(s.update(i, x).drop_last() =~= s.drop_last().update(i, x));
        assert(s.remove(i).drop_last() =~= s.drop_last().remove(i));
        assert(s.update(i, x).last() == s.last());
        assert(s.remove(i).last() == s.last());
    }
}

/// Replace-on-write against `iter_unexpired`: inserting a cookie that shares
/// its key with an existing entry overwrites that entry in place, and when
/// the inserted cookie is already expired at `t` while the old entry was
/// not, the unexpired selection is exactly that of the store without the old
/// entry — the new entry never appears in it.
pub proof fn lemma_insert_expired_replaces(s: Seq<CookieV>, c: CookieV, t: int)
    requires
        store_keys_distinct(s),
        has_key(s, spec_key(c)),
        spec_expires_by(c.expires, t),
    ensures
        seq_insert(s, c) == s.update(key_index(s, spec_key(c)), c),
        spec_unexpired(seq_insert(s, c), t) == spec_unexpired(
            s.remove(key_index(s, spec_key(c))),
            t,
        ),
        !spec_unexpired(seq_insert(s, c), t).contains(c),
{
    let i = key_index(s, spec_key(c));
    let pred = |x: CookieV| !spec_expires_by(x.expires, t);
    lemma_filter_update_false(s, i, c, pred);
    let out = spec_unexpired(seq_insert(s, c), t);
    assert forall|j: int| 0 <= j < out.len() implies out[j] != c by {
        seq_insert(s, c).lemma_filter_pred(pred, j);
    }
    if out.contains(c) {
        let j = choose|j: int| 0 <= j < out.len() && out[j] == c;
        assert(out[j] != c);
    }
}

} // verus!
