//! The per-session price store: a mapping from timestamp to price with
//! last-write-wins upserts, and the range-average query over it. Each
//! connection owns one store; nothing is shared across sessions.

use vstd::arithmetic::div_mod::{lemma_div_is_ordered, lemma_div_multiples_vanish};
use vstd::prelude::*;
use crate::wire::QueryMessage;

verus! {

/// All timestamps in `s` are pairwise distinct: one entry per key.
pub open spec fn keys_distinct(s: Seq<(i32, i32)>) -> bool {
    forall|i: int, j: int| 0 <= i < j < s.len() ==> s[i].0 != s[j].0
}

/// Some entry of `s` carries timestamp `t`.
pub open spec fn has_key(s: Seq<(i32, i32)>, t: i32) -> bool {
    exists|i: int| 0 <= i < s.len() && s[i].0 == t
}

/// An index of an entry carrying timestamp `t` (the only one, when the
/// keys are distinct).
pub open spec fn key_index(s: Seq<(i32, i32)>, t: i32) -> int {
    choose|i: int| 0 <= i < s.len() && s[i].0 == t
}

/// The price stored for timestamp `t`, if any.
pub open spec fn lookup(s: Seq<(i32, i32)>, t: i32) -> Option<i32> {
    if has_key(s, t) {
        Some(s[key_index(s, t)].1)
    } else {
        None
    }
}

/// The store after an upsert: overwrite the entry that already holds
/// `t`, or append a fresh one.
pub open spec fn upsert(s: Seq<(i32, i32)>, t: i32, p: i32) -> Seq<(i32, i32)> {
    if has_key(s, t) {
        s.update(key_index(s, t), (t, p))
    } else {
        s.push((t, p))
    }
}

/// When the keys of `s` are distinct, the entry at a witnessed index
/// is the one `key_index` picks.
pub proof fn lemma_key_index_is(s: Seq<(i32, i32)>, t: i32, i: int)
    requires
        keys_distinct(s),
        0 <= i < s.len(),
        s[i].0 == t,
    ensures
        has_key(s, t),
        key_index(s, t) == i,
{
    assert(has_key(s, t));
    let j = key_index(s, t);
    assert(0 <= j < s.len() && s[j].0 == t);
    if i < j {
        assert(s[i].0 != s[j].0);
    } else if j < i {
        assert(s[j].0 != s[i].0);
    }
}

/// An upsert keeps the keys distinct.
pub proof fn lemma_upsert_distinct(s: Seq<(i32, i32)>, t: i32, p: i32)
    requires
        keys_distinct(s),
    ensures
        keys_distinct(upsert(s, t, p)),
{
    let r = upsert(s, t, p);
    if has_key(s, t) {
        let i = key_index(s, t);
        assert(0 <= i < s.len() && s[i].0 == t);
        assert forall|a: int, b: int| 0 <= a < b < r.len() implies r[a].0 != r[b].0 by {
            assert(r[a].0 == s[a].0 && r[b].0 == s[b].0);
        }
    } else {
        assert forall|a: int, b: int| 0 <= a < b < r.len() implies r[a].0 != r[b].0 by {
            if b < s.len() {
                assert(s[a].0 != s[b].0);
            } else {
                if r[a].0 == t {
                    assert(s[a].0 == t);
                    assert(has_key(s, t));
                }
            }
        }
    }
}

/// `mintime <= t <= maxtime`, both ends inclusive.
pub open spec fn in_range(t: i32, mintime: i32, maxtime: i32) -> bool {
    mintime <= t && t <= maxtime
}

/// Sum of the prices of the entries whose timestamp lies in the range.
pub open spec fn sum_in_range(s: Seq<(i32, i32)>, mintime: i32, maxtime: i32) -> int
    decreases s.len(),
{
    if s.len() == 0 {
        0
    } else {
        sum_in_range(s.drop_last(), mintime, maxtime) + if in_range(
            s.last().0,
            mintime,
            maxtime,
        ) {
            s.last().1 as int
        } else {
            0
        }
    }
}

/// Number of entries whose timestamp lies in the range.
pub open spec fn count_in_range(s: Seq<(i32, i32)>, mintime: i32, maxtime: i32) -> int
    decreases s.len(),
{
    if s.len() == 0 {
        0
    } else {
        count_in_range(s.drop_last(), mintime, maxtime) + if in_range(
            s.last().0,
            mintime,
            maxtime,
        ) {
            1int
        } else {
            0
        }
    }
}

/// Integer division truncated toward zero (for a positive divisor):
/// the negative quotient is the negated quotient of the magnitudes.
pub open spec fn trunc_div(a: int, b: int) -> int
    recommends
        b > 0,
{
    if a >= 0 {
        a / b
    } else {
        -((-a) / b)
    }
}

/// The query result over `s`: the truncated mean of the prices in
/// range, and 0 when the range holds no entry (in particular whenever
/// `mintime > maxtime`).
pub open spec fn average_in_range(s: Seq<(i32, i32)>, mintime: i32, maxtime: i32) -> int {
    if count_in_range(s, mintime, maxtime) == 0 {
        0
    } else {
        trunc_div(sum_in_range(s, mintime, maxtime), count_in_range(s, mintime, maxtime))
    }
}

/// One session's private store of prices keyed by timestamp.
pub struct PriceStore {
    entries: Vec<(i32, i32)>,
}

impl View for PriceStore {
    type V = Seq<(i32, i32)>;

    closed spec fn view(&self) -> Seq<(i32, i32)> {
        self.entries@
    }
}

impl PriceStore {
    /// The store's invariant: at most one entry per timestamp.
    pub open spec fn wf(&self) -> bool {
        keys_distinct(self@)
    }

    /// An empty store, as every session starts with.
    pub fn new() -> (s: PriceStore)
        ensures
            s@ == Seq::<(i32, i32)>::empty(),
            s.wf(),
    {
        PriceStore { entries: Vec::new() }
    }

    /// Upserts `price` at `timestamp`: a timestamp seen before has its
    /// price overwritten, a fresh one is added. No validation: negative
    /// prices and out-of-order timestamps are stored as-is.
    pub fn insert(&mut self, timestamp: i32, price: i32)
        requires
            old(self).wf(),
        ensures
            final(self).wf(),
            final(self)@ == upsert(old(self)@, timestamp, price),
    {
        let n = self.entries.len();
        let mut i: usize = 0;
        while i < n
            invariant
                n == self.entries.len(),
                i <= n,
                self.entries@ == old(self)@,
                keys_distinct(self.entries@),
                forall|k: int| 0 <= k < i ==> self.entries@[k].0 != timestamp,
            decreases n - i,
        {
            if self.entries[i].0 == timestamp {
                proof {
                    lemma_key_index_is(old(self)@, timestamp, i as int);
                    lemma_upsert_distinct(old(self)@, timestamp, price);
                }
                self.entries.set(i, (timestamp, price));
                return ;
            }
            i += 1;
        }
        proof {
            assert(!has_key(old(self)@, timestamp)) by {
                if has_key(old(self)@, timestamp) {
                    let j = key_index(old(self)@, timestamp);
                    assert(0 <= j < old(self)@.len() && old(self)@[j].0 == timestamp);
                }
            }
            lemma_upsert_distinct(old(self)@, timestamp, price);
        }
        self.entries.push((timestamp, price));
    }

    /// The price stored at `timestamp`, if any.
    pub fn get(&self, timestamp: i32) -> (r: Option<i32>)
        requires
            self.wf(),
        ensures
            r == lookup(self@, timestamp),
    {
        let n = self.entries.len();
        let mut i: usize = 0;
        while i < n
            invariant
                n == self.entries.len(),
                i <= n,
                self.wf(),
                forall|k: int| 0 <= k < i ==> self.entries@[k].0 != timestamp,
            decreases n - i,
        {
            if self.entries[i].0 == timestamp {
                proof {
                    lemma_key_index_is(self@, timestamp, i as int);
                }
                return Some(self.entries[i].1);
            }
            i += 1;
        }
        proof {
            assert(!has_key(self@, timestamp)) by {
                if has_key(self@, timestamp) {
                    let j = key_index(self@, timestamp);
                    assert(0 <= j < self@.len() && self@[j].0 == timestamp);
                }
            }
        }
        None
    }

    /// Number of stored entries.
    pub fn len(&self) -> (n: usize)
        ensures
            n == self@.len(),
    {
        self.entries.len()
    }
}

/// Computes the query answer over the store: the sum of every price in
/// `[mintime, maxtime]` in a 128-bit accumulator (so accumulation can
/// never wrap), divided by the number of such prices with truncation
/// toward zero, and 0 when the range holds none of them.
pub fn calc_average(message: &QueryMessage, prices: &PriceStore) -> (r: i32)
    ensures
        r as int == average_in_range(prices@, message.mintime, message.maxtime),
{
    let n = prices.entries.len();
    let mut sum: i128 = 0;
    let mut count: usize = 0;
    let mut i: usize = 0;
    while i < n
        invariant
            n == prices.entries.len(),
            i <= n,
            count <= i,
            sum == sum_in_range(prices@.take(i as int), message.mintime, message.maxtime),
            count == count_in_range(prices@.take(i as int), message.mintime, message.maxtime),
            -(count as int) * 0x8000_0000 <= sum <= (count as int) * 0x7FFF_FFFF,
        decreases n - i,
    {
        let pair = prices.entries[i];
        proof {
            assert(prices@.take(i as int + 1).drop_last() =~= prices@.take(i as int));
            assert(prices@.take(i as int + 1).last() == prices@[i as int]);
        }
        if message.mintime <= pair.0 && pair.0 <= message.maxtime {
            sum = sum + (pair.1 as i128);
            count = count + 1;
        }
        i += 1;
    }
    proof {
        assert(prices@.take(n as int) =~= prices@);
    }
    if count == 0 {
        return 0;
    }
    let c = count as u128;
    let q: i128 = if sum >= 0 {
        let d = (sum as u128) / c;
        proof {
            lemma_div_is_ordered(sum as int, (count as int) * 0x7FFF_FFFF, count as int);
            lemma_div_multiples_vanish(0x7FFF_FFFF, count as int);
        }
        d as i128
    } else {
        let d = ((-sum) as u128) / c;
        proof {
            lemma_div_is_ordered(-(sum as int), (count as int) * 0x8000_0000, count as int);
            lemma_div_multiples_vanish(0x8000_0000, count as int);
        }
        -(d as i128)
    };
    q as i32
}

} // verus!
