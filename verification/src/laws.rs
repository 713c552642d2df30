//! Laws of the store and of the session step, stated and proved once
//! for all inputs: what a covering query returns after distinct
//! inserts, that re-inserting a timestamp overwrites, that an empty
//! range answers 0, that an unrecognized frame is a no-op, and that a
//! query is idempotent.

use vstd::prelude::*;
use crate::session::{step_response, step_store};
use crate::store::{
    average_in_range, count_in_range, has_key, in_range, key_index, keys_distinct,
    lemma_key_index_is, lemma_upsert_distinct, lookup, sum_in_range, trunc_div, upsert,
};
use crate::wire::{spec_decode, Message};

verus! {

/// The store a sequence of inserts leaves behind, starting from the
/// empty store every session begins with.
pub open spec fn store_after(inserts: Seq<(i32, i32)>) -> Seq<(i32, i32)>
    decreases inserts.len(),
{
    if inserts.len() == 0 {
        Seq::empty()
    } else {
        upsert(store_after(inserts.drop_last()), inserts.last().0, inserts.last().1)
    }
}

/// Sum of the prices of all entries.
pub open spec fn sum_prices(s: Seq<(i32, i32)>) -> int
    decreases s.len(),
{
    if s.len() == 0 {
        0
    } else {
        sum_prices(s.drop_last()) + s.last().1
    }
}

/// Inserts at pairwise-distinct timestamps pile up verbatim: the store
/// they leave behind is exactly the inserted sequence.
pub proof fn lemma_store_after_distinct(inserts: Seq<(i32, i32)>)
    requires
        keys_distinct(inserts),
    ensures
        store_after(inserts) == inserts,
    decreases inserts.len(),
{
    if inserts.len() == 0 {
        assert(store_after(inserts) =~= inserts);
    } else {
        let dl = inserts.drop_last();
        let last = inserts.last();
        assert(keys_distinct(dl)) by {
            assert(forall|k: int| 0 <= k < dl.len() ==> dl[k] == inserts[k]);
        }
        lemma_store_after_distinct(dl);
        assert(!has_key(dl, last.0)) by {
            if has_key(dl, last.0) {
                let j = key_index(dl, last.0);
                assert(0 <= j < dl.len() && dl[j].0 == last.0);
                assert(inserts[j].0 == inserts[inserts.len() - 1].0);
            }
        }
        assert((last.0, last.1) == last);
        assert(dl.push(last) =~= inserts);
    }
}

/// When every timestamp of `s` lies in the range, the query counts and
/// sums every entry.
pub proof fn lemma_all_in_range(s: Seq<(i32, i32)>, mintime: i32, maxtime: i32)
    requires
        forall|k: int| 0 <= k < s.len() ==> in_range(#[trigger] s[k].0, mintime, maxtime),
    ensures
        count_in_range(s, mintime, maxtime) == s.len(),
        sum_in_range(s, mintime, maxtime) == sum_prices(s),
    decreases s.len(),
{
    if s.len() > 0 {
        let dl = s.drop_last();
        assert(forall|k: int| 0 <= k < dl.len() ==> dl[k] == s[k]);
        lemma_all_in_range(dl, mintime, maxtime);
    }
}

/// Any sequence of inserts with pairwise-distinct timestamps, followed
/// by a query whose range covers them all, answers the truncated mean
/// of every inserted price (and 0 when nothing was inserted).
pub proof fn lemma_distinct_inserts_full_query(
    inserts: Seq<(i32, i32)>,
    mintime: i32,
    maxtime: i32,
)
    requires
        keys_distinct(inserts),
        forall|k: int| 0 <= k < inserts.len() ==> in_range(#[trigger] inserts[k].0, mintime, maxtime),
    ensures
        average_in_range(store_after(inserts), mintime, maxtime) == if inserts.len() == 0 {
            0int
        } else {
            trunc_div(sum_prices(inserts), inserts.len() as int)
        },
{
    lemma_store_after_distinct(inserts);
    lemma_all_in_range(inserts, mintime, maxtime);
}

/// Re-inserting at an already-used timestamp overwrites: two upserts
/// at one timestamp leave exactly the store the second alone would, so
/// every later query reflects the last price and never both.
pub proof fn lemma_upsert_overwrites(s: Seq<(i32, i32)>, t: i32, p1: i32, p2: i32)
    requires
        keys_distinct(s),
    ensures
        upsert(upsert(s, t, p1), t, p2) == upsert(s, t, p2),
{
    lemma_upsert_distinct(s, t, p1);
    let s1 = upsert(s, t, p1);
    if has_key(s, t) {
        let i = key_index(s, t);
        assert(0 <= i < s.len() && s[i].0 == t);
        lemma_key_index_is(s, t, i);
        assert(s1[i].0 == t);
        lemma_key_index_is(s1, t, i);
        assert(s1.update(i, (t, p2)) =~= s.update(i, (t, p2)));
    } else {
        let n = s.len() as int;
        assert(s1[n].0 == t);
        lemma_key_index_is(s1, t, n);
        assert(s1.update(n, (t, p2)) =~= s.push((t, p2)));
    }
}

/// After an upsert the upserted timestamp maps to the new price, and
/// every other timestamp keeps whatever it mapped to before.
pub proof fn lemma_upsert_lookup(s: Seq<(i32, i32)>, t: i32, p: i32, t2: i32)
    requires
        keys_distinct(s),
    ensures
        lookup(upsert(s, t, p), t) == Some(p),
        t2 != t ==> lookup(upsert(s, t, p), t2) == lookup(s, t2),
{
    lemma_upsert_distinct(s, t, p);
    let r = upsert(s, t, p);
    if has_key(s, t) {
        let i = key_index(s, t);
        assert(0 <= i < s.len() && s[i].0 == t);
        lemma_key_index_is(s, t, i);
        assert(r[i].0 == t);
        lemma_key_index_is(r, t, i);
    } else {
        let n = s.len() as int;
        assert(r[n].0 == t);
        lemma_key_index_is(r, t, n);
    }
    if t2 != t {
        if has_key(s, t2) {
            let j = key_index(s, t2);
            assert(0 <= j < s.len() && s[j].0 == t2);
            lemma_key_index_is(s, t2, j);
            assert(r[j] == s[j]);
            lemma_key_index_is(r, t2, j);
        } else {
            assert(!has_key(r, t2)) by {
                if has_key(r, t2) {
                    let j = key_index(r, t2);
                    assert(0 <= j < r.len() && r[j].0 == t2);
                    if has_key(s, t) {
                        assert(r[j] == s.update(key_index(s, t), (t, p))[j]);
                        assert(s[j].0 == t2);
                    } else {
                        if j < s.len() {
                            assert(s[j].0 == t2);
                        }
                    }
                }
            }
        }
    }
}

/// A query over an empty range answers exactly 0: either the bounds
/// are inverted (`mintime > maxtime`), or no stored timestamp lies
/// between them.
pub proof fn lemma_empty_range_zero(s: Seq<(i32, i32)>, mintime: i32, maxtime: i32)
    requires
        mintime > maxtime || forall|k: int|
            0 <= k < s.len() ==> !in_range(#[trigger] s[k].0, mintime, maxtime),
    ensures
        average_in_range(s, mintime, maxtime) == 0,
{
    lemma_none_in_range_counts_zero(s, mintime, maxtime);
}

/// Helper for the empty-range law: with no timestamp in range the
/// count is 0.
proof fn lemma_none_in_range_counts_zero(s: Seq<(i32, i32)>, mintime: i32, maxtime: i32)
    requires
        mintime > maxtime || forall|k: int|
            0 <= k < s.len() ==> !in_range(#[trigger] s[k].0, mintime, maxtime),
    ensures
        count_in_range(s, mintime, maxtime) == 0,
    decreases s.len(),
{
    if s.len() > 0 {
        let dl = s.drop_last();
        assert(forall|k: int| 0 <= k < dl.len() ==> dl[k] == s[k]);
        lemma_none_in_range_counts_zero(dl, mintime, maxtime);
        assert(!in_range(s[s.len() - 1].0, mintime, maxtime));
    }
}

/// A frame whose discriminant is neither `I` nor `Q` elicits no
/// response and leaves the store untouched; the session stays usable.
pub proof fn lemma_unknown_frame_ignored(s: Seq<(i32, i32)>, frame: Seq<u8>)
    requires
        frame.len() == 9,
        frame[0] != crate::wire::TAG_INSERT,
        frame[0] != crate::wire::TAG_QUERY,
    ensures
        step_store(s, frame) == s,
        step_response(s, frame) == None::<int>,
{
}

/// A query mutates nothing, so the same query issued twice with no
/// intervening insert is answered identically both times.
pub proof fn lemma_query_idempotent(s: Seq<(i32, i32)>, frame: Seq<u8>)
    requires
        frame.len() == 9,
        spec_decode(frame) matches Some(Message::Query(_)),
    ensures
        step_store(s, frame) == s,
        step_response(step_store(s, frame), frame) == step_response(s, frame),
{
}

} // verus!
