//! Persistence at the schema level: selecting which cookies a store saves,
//! and rebuilding a store from loaded records.
//!
//! The concrete text encodings and the reader/writer I/O around them are
//! external collaborators; what is verified here is the selection, the
//! drop-expired-on-load rule, and the round trip between the two.

use vstd::prelude::*;
use crate::cookie::{Cookie, CookieV};
use crate::cookie_expiration::{
    now_utc_seconds, spec_expires_by, CookieExpiration, EARLIEST_INSTANT, LATEST_INSTANT,
};
use crate::cookie_store::{
    has_key, lemma_filter_step, lemma_push_deep_view, seq_insert, spec_key, spec_unexpired,
    store_keys_distinct, CookieStore,
};

verus! {

/// The serializable form of a store: a flat sequence of cookie records.
#[derive(Debug)]
pub struct CookieStoreSerialized {
    pub cookies: Vec<Cookie>,
}

/// The persistent-and-unexpired scope at instant `t`: every stored cookie
/// that is not expired at `t` and carries an absolute expiration.
pub open spec fn spec_save_scope(s: Seq<CookieV>, t: int) -> Seq<CookieV> {
    spec_unexpired(s, t).filter(|c: CookieV| c.expires is AtUtc)
}

/// The store contents that loaded records yield at instant `t`: each record
/// inserted in order (with replacement), skipping those expired at `t`
/// unless `include_expired` is set.
pub open spec fn spec_load(cs: Seq<CookieV>, include_expired: bool, t: int) -> Seq<CookieV>
    decreases cs.len(),
{
    if cs.len() == 0 {
        Seq::empty()
    } else {
        let s = spec_load(cs.drop_last(), include_expired, t);
        if include_expired || !spec_expires_by(cs.last().expires, t) {
            seq_insert(s, cs.last())
        } else {
            s
        }
    }
}

/// Build a store from loaded cookie records at instant `t`.
fn load_records(cookies: Vec<Cookie>, include_expired: bool, t: i64) -> (r: CookieStore)
    ensures
        r@ == spec_load(cookies.deep_view(), include_expired, t as int),
        r.wf(),
{
    let n = cookies.len();
    let mut store = CookieStore::new();
    let mut i: usize = 0;
    proof {
        assert(cookies.deep_view().subrange(0, 0) =~= Seq::<CookieV>::empty());
    }
    while i < n
        invariant
            i <= n,
            n == cookies.len(),
            store.wf(),
            store@ == spec_load(cookies.deep_view().subrange(0, i as int), include_expired, t as int),
        decreases n - i,
    {
        let ghost cs = cookies.deep_view();
        proof {
            assert(cs.subrange(0, i + 1).drop_last() =~= cs.subrange(0, i as int));
            assert(cs.subrange(0, i + 1).last() == cs[i as int]);
        }
        if include_expired || !cookies[i].expires_by(t) {
            store.insert(cookies[i].clone());
        }
        i += 1;
    }
    proof {
        assert(cookies.deep_view().subrange(0, n as int) =~= cookies.deep_view());
    }
    store
}

/// The serializable selection of every unexpired persistent cookie at
/// instant `t`.
pub fn save_at(cookie_store: &CookieStore, t: i64) -> (r: CookieStoreSerialized)
    ensures
        r.cookies.deep_view() == spec_save_scope(cookie_store@, t as int),
{
    let unexpired = cookie_store.iter_unexpired_at(t);
    let n = unexpired.len();
    let mut out: Vec<Cookie> = Vec::new();
    let ghost pred = |c: CookieV| c.expires is AtUtc;
    proof {
        assert(out.deep_view() =~= unexpired.deep_view().subrange(0, 0).filter(pred)) by {
            reveal(Seq::filter);
        }
    }
    let mut i: usize = 0;
    while i < n
        invariant
            i <= n,
            n == unexpired.len(),
            out.deep_view() == unexpired.deep_view().subrange(0, i as int).filter(pred),
            pred == (|c: CookieV| c.expires is AtUtc),
        decreases n - i,
    {
        proof {
            lemma_filter_step(unexpired.deep_view(), i as int, pred);
        }
        if unexpired[i].is_persistent() {
            let c = unexpired[i].clone();
            let ghost cc = c;
            let ghost prev = out;
            out.push(c);
            proof {
                lemma_push_deep_view(prev, out, cc);
            }
        }
        proof {
            assert(out.deep_view() =~= unexpired.deep_view().subrange(0, i + 1).filter(pred));
        }
        i += 1;
    }
    proof {
        assert(unexpired.deep_view().subrange(0, n as int) =~= unexpired.deep_view());
    }
    CookieStoreSerialized { cookies: out }
}

/// The serializable selection of every unexpired persistent cookie at the
/// current instant.
pub fn save(cookie_store: &CookieStore) -> (r: CookieStoreSerialized)
    ensures
        exists|t: i64|
            #![auto]
            EARLIEST_INSTANT <= t <= LATEST_INSTANT && r.cookies.deep_view() == spec_save_scope(
                cookie_store@,
                t as int,
            ),
{
    let t = now_utc_seconds();
    save_at(cookie_store, t)
}

/// The serializable form of every stored cookie, expired and non-persistent
/// ones included.
pub fn save_incl_expired_and_nonpersistent(cookie_store: &CookieStore) -> (r:
    CookieStoreSerialized)
    ensures
        r.cookies.deep_view() == cookie_store@,
{
    CookieStoreSerialized { cookies: cookie_store.iter_any() }
}

/// Rebuild a store from loaded records at instant `t`, dropping every record
/// already expired at `t`.
pub fn load_at(serialized: CookieStoreSerialized, t: i64) -> (r: CookieStore)
    ensures
        r@ == spec_load(serialized.cookies.deep_view(), false, t as int),
        r.wf(),
{
    load_records(serialized.cookies, false, t)
}

/// Rebuild a store from loaded records, dropping every record already
/// expired at the current instant.
pub fn load(serialized: CookieStoreSerialized) -> (r: CookieStore)
    ensures
        r.wf(),
        exists|t: i64|
            #![auto]
            EARLIEST_INSTANT <= t <= LATEST_INSTANT && r@ == spec_load(
                serialized.cookies.deep_view(),
                false,
                t as int,
            ),
{
    let t = now_utc_seconds();
    load_at(serialized, t)
}

/// Rebuild a store from loaded records, keeping expired ones too.
pub fn load_all(serialized: CookieStoreSerialized) -> (r: CookieStore)
    ensures
        r@ == spec_load(serialized.cookies.deep_view(), true, 0),
        r.wf(),
{
    let r = load_records(serialized.cookies, true, 0);
    r
}

/// Every element of a filtered sequence is an element of the unfiltered one, and
/// filtering keeps the store keys pairwise distinct.
proof fn lemma_filter_sub(s: Seq<CookieV>, pred: spec_fn(CookieV) -> bool)
    ensures
        forall|j: int|
            0 <= j < s.filter(pred).len() ==> s.contains(#[trigger] s.filter(pred)[j]),
        store_keys_distinct(s) ==> store_keys_distinct(s.filter(pred)),
    decreases s.len(),
{
    reveal(Seq::filter);
    if s.len() > 0 {
        let prefix = s.drop_last();
        lemma_filter_sub(prefix, pred);
        assert forall|j: int|
            0 <= j < s.filter(pred).len() implies s.contains(#[trigger] s.filter(pred)[j]) by {
            if j < prefix.filter(pred).len() {
                assert(s.filter(pred)[j] == prefix.filter(pred)[j]);
                assert(prefix.contains(prefix.filter(pred)[j]));
                let w = choose|w: int|
                    0 <= w < prefix.len() && prefix[w] == prefix.filter(pred)[j];
                assert(s[w] == s.filter(pred)[j]);
            } else {
                assert(s.filter(pred)[j] == s.last());
                assert(s[s.len() - 1] == s.last());
            }
        }
        if store_keys_distinct(s) {
            assert(store_keys_distinct(prefix)) by {
                assert forall|p: int, q: int|
                    0 <= p < q < prefix.len() implies spec_key(prefix[p]) != spec_key(
                    prefix[q],
                ) by {
                    assert(prefix[p] == s[p] && prefix[q] == s[q]);
                }
            }
            let out = s.filter(pred);
            assert forall|p: int, q: int|
                0 <= p < q < out.len() implies spec_key(out[p]) != spec_key(out[q]) by {
                let wp = choose|w: int| 0 <= w < s.len() && s[w] == out[p];
                let wq = choose|w: int| 0 <= w < s.len() && s[w] == out[q];
                if pred(s.last()) && q == out.len() - 1 {
                    // the last filtered entry is s.last(); the earlier one
                    // comes from the strict prefix
                    assert(out[q] == s.last());
                    assert(out[p] == prefix.filter(pred)[p]);
                    assert(prefix.contains(out[p]));
                    let w = choose|w: int| 0 <= w < prefix.len() && prefix[w] == out[p];
                    assert(s[w] == out[p]);
                    assert(spec_key(s[w]) != spec_key(s[s.len() - 1]));
                } else {
                    assert(out[p] == prefix.filter(pred)[p] && out[q] == prefix.filter(pred)[q]);
                }
            }
        }
    }
}

/// Loading records whose keys are pairwise distinct and which are all
/// unexpired at `t` reproduces them exactly.
proof fn lemma_load_identity(cs: Seq<CookieV>, t: int)
    requires
        store_keys_distinct(cs),
        forall|i: int| 0 <= i < cs.len() ==> !spec_expires_by(cs[i].expires, t),
    ensures
        spec_load(cs, false, t) == cs,
    decreases cs.len(),
{
    if cs.len() > 0 {
        let prefix = cs.drop_last();
        assert(store_keys_distinct(prefix)) by {
            assert forall|p: int, q: int|
                0 <= p < q < prefix.len() implies spec_key(prefix[p]) != spec_key(prefix[q]) by {
                assert(prefix[p] == cs[p] && prefix[q] == cs[q]);
            }
        }
        lemma_load_identity(prefix, t);
        assert(!spec_expires_by(cs.last().expires, t));
        assert(!has_key(prefix, spec_key(cs.last()))) by {
            if has_key(prefix, spec_key(cs.last())) {
                let w = choose|w: int|
                    0 <= w < prefix.len() && spec_key(prefix[w]) == spec_key(cs.last());
                assert(spec_key(cs[w]) == spec_key(cs[cs.len() - 1]));
            }
        }
        assert(spec_load(cs, false, t) == prefix.push(cs.last()));
        assert(prefix.push(cs.last()) =~= cs);
    }
}

/// Round trip: saving the persistent-and-unexpired scope of a well-formed
/// store and loading the result back (with the same drop-expired rule, at
/// the same instant) reproduces exactly the saved selection — no cookie is
/// lost, duplicated, or replaced.
pub proof fn lemma_save_load_round_trip(s: Seq<CookieV>, t: int)
    requires
        store_keys_distinct(s),
    ensures
        spec_load(spec_save_scope(s, t), false, t) == spec_save_scope(s, t),
{
    let unexpired = spec_unexpired(s, t);
    let pred1 = |c: CookieV| !spec_expires_by(c.expires, t);
    let pred2 = |c: CookieV| c.expires is AtUtc;
    lemma_filter_sub(s, pred1);
    lemma_filter_sub(unexpired, pred2);
    let sel = spec_save_scope(s, t);
    assert forall|i: int| 0 <= i < sel.len() implies !spec_expires_by(
        sel[i].expires,
        t,
    ) by {
        assert(unexpired.contains(sel[i]));
        let w = choose|w: int| 0 <= w < unexpired.len() && unexpired[w] == sel[i];
        s.lemma_filter_pred(pred1, w);
    }
    lemma_load_identity(sel, t);
}

} // verus!
