use vstd::prelude::*;
use crate::clock::{age, age_of};

verus! {

/// A value stamped with the time it was seen (nanoseconds on some clock).
pub trait Stamped {
    spec fn stamp(&self) -> u64;

    fn time(&self) -> (t: u64)
        ensures
            t == self.stamp();
}

impl<T> Stamped for (u64, T) {
    open spec fn stamp(&self) -> u64 {
        self.0
    }

    fn time(&self) -> (t: u64) {
        self.0
    }
}

impl Stamped for u64 {
    open spec fn stamp(&self) -> u64 {
        *self
    }

    fn time(&self) -> (t: u64) {
        *self
    }
}

/// The entries of `s` stamped no more than `limit` before `now`.
pub open spec fn recent<S: Stamped>(s: Seq<S>, now: u64, limit: u64) -> Seq<S> {
    s.filter(|e: S| age(now, e.stamp()) <= limit)
}

/// Keeps, in order, the entries of `v` stamped no more than `limit` before
/// `now`.
pub fn keep_recent<S: Stamped>(v: Vec<S>, now: u64, limit: u64) -> (r: Vec<S>)
    ensures
        r@ == recent(v@, now, limit),
{
    let ghost pred = |e: S| age(now, e.stamp()) <= limit;
    let ghost orig = v@;
    let mut r: Vec<S> = Vec::new();
    for e in it: v.into_iter()
        invariant
            it.seq() == orig,
            pred == (|e: S| age(now, e.stamp()) <= limit),
            r@ == orig.take(it.index()).filter(pred),
    {
        let ghost i = it.index();
        proof {
            orig.take(i).lemma_filter_push(e, pred);
            assert(orig.take(i).push(e) =~= orig.take(i + 1));
        }
        if age_of(now, e.time()) <= limit {
            r.push(e);
        }
    }
    assert(orig.take(orig.len() as int) =~= orig);
    r
}

/// Filtering keeps every occurrence of a value that passes and none of one
/// that fails.
pub proof fn lemma_filter_counts<T>(s: Seq<T>, p: spec_fn(T) -> bool, x: T)
    ensures
        s.filter(p).to_multiset().count(x) == if p(x) { s.to_multiset().count(x) } else { 0 },
    decreases s.len(),
{
    broadcast use vstd::seq_lib::group_to_multiset_ensures;
    reveal(Seq::filter);
    if s.len() == 0 {
        assert(!s.filter(p).contains(x));
        assert(!s.contains(x));
    } else {
        let r = s.drop_last();
        let last = s.last();
        lemma_filter_counts(r, p, x);
        assert(s == r.push(last));
        if p(last) {
            assert(s.filter(p) == r.filter(p).push(last));
        } else {
            assert(s.filter(p) == r.filter(p));
        }
    }
}

/// `s` without its longest prefix of entries older than `limit` at `now`.
pub open spec fn drop_stale<S: Stamped>(s: Seq<S>, now: u64, limit: u64) -> Seq<S>
    decreases s.len(),
{
    if s.len() > 0 && age(now, s[0].stamp()) > limit {
        drop_stale(s.drop_first(), now, limit)
    } else {
        s
    }
}

/// Whether the entries are in time order.
pub open spec fn in_time_order<S: Stamped>(s: Seq<S>) -> bool {
    forall|i: int, j: int| 0 <= i <= j < s.len() ==> s[i].stamp() <= s[j].stamp()
}

/// Whether the entries are in time order and none is later than `t`.
pub open spec fn ordered_up_to<S: Stamped>(s: Seq<S>, t: u64) -> bool {
    &&& in_time_order(s)
    &&& forall|i: int| 0 <= i < s.len() ==> (#[trigger] s[i]).stamp() <= t
}

/// Dropping stale entries only drops from the front: what remains is a
/// suffix of what was.
pub proof fn lemma_drop_stale_is_suffix<S: Stamped>(s: Seq<S>, now: u64, limit: u64)
    ensures
        drop_stale(s, now, limit).len() <= s.len(),
        drop_stale(s, now, limit) == s.subrange(s.len() - drop_stale(s, now, limit).len(), s.len() as int),
    decreases s.len(),
{
    if s.len() > 0 && age(now, s[0].stamp()) > limit {
        lemma_drop_stale_is_suffix(s.drop_first(), now, limit);
        let d = drop_stale(s.drop_first(), now, limit);
        assert(d == s.subrange(s.len() - d.len(), s.len() as int));
    } else {
        assert(s == s.subrange(0, s.len() as int));
    }
}

/// Dropping stale entries again at the same time drops nothing: afterwards
/// the front entry (if any) is at most `limit` old.
pub proof fn lemma_drop_stale_twice_drops_nothing<S: Stamped>(s: Seq<S>, now: u64, limit: u64)
    ensures
        drop_stale(drop_stale(s, now, limit), now, limit) == drop_stale(s, now, limit),
        drop_stale(s, now, limit).len() > 0 ==> age(now, drop_stale(s, now, limit)[0].stamp()) <= limit,
    decreases s.len(),
{
    if s.len() > 0 && age(now, s[0].stamp()) > limit {
        lemma_drop_stale_twice_drops_nothing(s.drop_first(), now, limit);
    }
}

/// With entries in time order and none later than `now`, dropping the stale
/// prefix leaves entries in time order that are all at most `limit` old.
pub proof fn lemma_drop_stale_leaves_recent<S: Stamped>(s: Seq<S>, now: u64, limit: u64)
    requires
        ordered_up_to(s, now),
    ensures
        in_time_order(drop_stale(s, now, limit)),
        forall|i: int| 0 <= i < drop_stale(s, now, limit).len()
            ==> age(now, (#[trigger] drop_stale(s, now, limit)[i]).stamp()) <= limit,
    decreases s.len(),
{
    if s.len() > 0 && age(now, s[0].stamp()) > limit {
        let rest = s.drop_first();
        assert forall|i: int, j: int| 0 <= i <= j < rest.len() implies rest[i].stamp() <= rest[j].stamp() by {
            assert(rest[i] == s[i + 1] && rest[j] == s[j + 1]);
        }
        assert forall|i: int| 0 <= i < rest.len() implies (#[trigger] rest[i]).stamp() <= now by {
            assert(rest[i] == s[i + 1]);
        }
        lemma_drop_stale_leaves_recent(rest, now, limit);
        assert(drop_stale(s, now, limit) == drop_stale(rest, now, limit));
    } else {
        assert(drop_stale(s, now, limit) == s);
        assert forall|i: int| 0 <= i < s.len() implies age(now, (#[trigger] s[i]).stamp()) <= limit by {
            assert(s[0].stamp() <= s[i].stamp());
        }
    }
}

/// Appending an entry no earlier than the last one keeps time order.
pub proof fn lemma_append_keeps_time_order<S: Stamped>(s: Seq<S>, e: S)
    requires
        in_time_order(s),
        s.len() > 0 ==> s[s.len() - 1].stamp() <= e.stamp(),
    ensures
        in_time_order(s.push(e)),
{
    let t = s.push(e);
    assert forall|i: int, j: int| 0 <= i <= j < t.len() implies t[i].stamp() <= t[j].stamp() by {
        if j < s.len() {
            assert(t[i] == s[i] && t[j] == s[j]);
        } else if i < s.len() {
            assert(t[i] == s[i]);
            assert(s[i].stamp() <= s[s.len() - 1].stamp());
        }
    }
}

/// Appending an entry no earlier than the others, then dropping the stale
/// prefix at a time no earlier than it, leaves entries in time order, none
/// later than the appended one, all at most `limit` old.
pub proof fn lemma_push_keeps_time_window<S: Stamped>(s: Seq<S>, e: S, now: u64, limit: u64)
    requires
        ordered_up_to(s, e.stamp()),
        e.stamp() <= now,
    ensures
        ordered_up_to(drop_stale(s.push(e), now, limit), e.stamp()),
        forall|i: int| 0 <= i < drop_stale(s.push(e), now, limit).len()
            ==> age(now, (#[trigger] drop_stale(s.push(e), now, limit)[i]).stamp()) <= limit,
{
    let t = s.push(e);
    lemma_append_keeps_time_order(s, e);
    assert forall|i: int| 0 <= i < t.len() implies (#[trigger] t[i]).stamp() <= now by {
        if i < s.len() {
            assert(t[i] == s[i]);
        }
    }
    lemma_drop_stale_leaves_recent(t, now, limit);
    lemma_drop_stale_is_suffix(t, now, limit);
    let d = drop_stale(t, now, limit);
    assert forall|i: int| 0 <= i < d.len() implies (#[trigger] d[i]).stamp() <= e.stamp() by {
        let k = t.len() - d.len() + i;
        assert(d[i] == t[k]);
        if k < s.len() {
            assert(t[k] == s[k]);
        }
    }
}

} // verus!
