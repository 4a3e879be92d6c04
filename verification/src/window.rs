//! The sliding window itself: which timestamps still count, how a record
//! is pruned, and what the record written back by a check looks like.

use vstd::prelude::*;

verus! {

/// Length of the sliding window, in seconds. An entry idle for this long
/// falls out of every later window.
pub const WINDOW_SECONDS: u64 = 120;

/// Largest number of arrivals admitted within one window.
pub const MAX_REQUESTS: usize = 5;

/// Whether a request at `t` still counts against the window ending at `now`.
pub open spec fn in_window(t: u64, now: u64) -> bool {
    now - t < WINDOW_SECONDS
}

/// The timestamps of `h` still inside the window ending at `now`, in order.
pub open spec fn prune_spec(h: Seq<u64>, now: u64) -> Seq<u64> {
    h.filter(|t: u64| in_window(t, now))
}

/// The record a check at `now` persists over a prior history `h`: the
/// pruned history with the current arrival appended.
pub open spec fn record_spec(h: Seq<u64>, now: u64) -> Seq<u64> {
    prune_spec(h, now).push(now)
}

/// Timestamps in non-decreasing order, as a stored record keeps them.
pub open spec fn non_decreasing(s: Seq<u64>) -> bool {
    forall|i: int, j: int| 0 <= i <= j < s.len() ==> s[i] <= s[j]
}

/// Drop the timestamps of `h` that have left the window ending at `now`.
pub fn prune(h: &Vec<u64>, now: u64) -> (r: Vec<u64>)
    ensures
        r@ == prune_spec(h@, now),
{
    let mut r: Vec<u64> = Vec::new();
    let mut i: usize = 0;
    while i < h.len()
        invariant
            i <= h.len(),
            r@ == prune_spec(h@.take(i as int), now),
        decreases h.len() - i,
    {
        let t = h[i];
        if t >= now || now - t < WINDOW_SECONDS {
            r.push(t);
        }
        proof {
            broadcast use Seq::lemma_filter_push;

            assert(h@.take(i as int + 1) == h@.take(i as int).push(h@[i as int]));
        }
        i = i + 1;
    }
    proof {
        assert(h@.take(h@.len() as int) == h@);
    }
    r
}

/// No timestamp of a freshly written record is stale: everything a check
/// persists lies inside the window ending at the check's own time.
pub proof fn lemma_record_in_window(h: Seq<u64>, now: u64)
    ensures
        forall|i: int|
            0 <= i < record_spec(h, now).len() ==> in_window(
                #[trigger] record_spec(h, now)[i],
                now,
            ),
{
    let pred = |t: u64| in_window(t, now);
    let p = prune_spec(h, now);
    assert forall|i: int| 0 <= i < record_spec(h, now).len() implies in_window(
        record_spec(h, now)[i],
        now,
    ) by {
        if i < p.len() {
            h.lemma_filter_pred(pred, i);
        }
    }
}

/// After a full window of silence the pruned history is empty: a check
/// whose time is at least `WINDOW_SECONDS` past every stored timestamp
/// retains none of them.
pub proof fn lemma_window_expired(h: Seq<u64>, t0: u64, now: u64)
    requires
        forall|i: int| 0 <= i < h.len() ==> h[i] <= t0,
        now - t0 >= WINDOW_SECONDS,
    ensures
        prune_spec(h, now).len() == 0,
{
    let pred = |t: u64| in_window(t, now);
    assert(h.all(|t: u64| !pred(t)));
    h.lemma_all_neg_filter_empty(pred);
}

/// Pruning keeps the stored order: a record in non-decreasing order stays
/// in non-decreasing order once pruned and extended by the current time.
pub proof fn lemma_record_ordered(h: Seq<u64>, now: u64)
    requires
        non_decreasing(h),
        forall|i: int| 0 <= i < h.len() ==> h[i] <= now,
    ensures
        non_decreasing(record_spec(h, now)),
{
    let pred = |t: u64| in_window(t, now);
    lemma_filter_keeps_order(h, pred);
    let p = prune_spec(h, now);
    assert forall|i: int| 0 <= i < p.len() implies p[i] <= now by {
        assert(p.contains(p[i]));
        h.lemma_filter_contains_rev(pred, p[i]);
        let j = choose|j: int| 0 <= j < h.len() && h[j] == p[i];
        assert(h[j] <= now);
    }
    assert forall|i: int, j: int|
        0 <= i <= j < record_spec(h, now).len() implies record_spec(h, now)[i] <= record_spec(
        h,
        now,
    )[j] by {
        if j < p.len() {
            assert(p[i] <= p[j]);
        }
    }
}

/// Filtering a non-decreasing sequence leaves a non-decreasing sequence.
proof fn lemma_filter_keeps_order(h: Seq<u64>, pred: spec_fn(u64) -> bool)
    requires
        non_decreasing(h),
    ensures
        non_decreasing(h.filter(pred)),
    decreases h.len(),
{
    reveal(Seq::filter);
    if h.len() > 0 {
        let rest = h.drop_last();
        assert(non_decreasing(rest));
        lemma_filter_keeps_order(rest, pred);
        if pred(h.last()) {
            let f = rest.filter(pred);
            assert forall|i: int| 0 <= i < f.len() implies f[i] <= h.last() by {
                assert(f.contains(f[i]));
                rest.lemma_filter_contains_rev(pred, f[i]);
                let j = choose|j: int| 0 <= j < rest.len() && rest[j] == f[i];
                assert(rest[j] <= h.last());
            }
        }
    }
}

} // verus!
