//! The admission check: read a client's window record, prune it, append
//! the current arrival, write it back, and decide.

use vstd::prelude::*;

use crate::codec::decode_record;
use crate::codec::decoded_of;
use crate::codec::encode_record;
use crate::codec::json_of;
use crate::store::KeyValueStore;
use crate::store::StoreError;
use crate::window::prune;
use crate::window::record_spec;
use crate::window::MAX_REQUESTS;
use crate::window::WINDOW_SECONDS;

verus! {

/// Why a request was refused.
#[derive(Clone, Copy, Debug, PartialEq, Eq)]
pub enum RateLimitError {
    /// The window already held the threshold when this arrival was added.
    TooManyRequests,
    /// A read or write against the backend failed; the check fails closed.
    StoreUnavailable,
}

impl RateLimitError {
    /// The message the service shows for this rejection.
    pub fn message(&self) -> (r: String)
        ensures
            self is TooManyRequests ==> r@ == "Too many requests"@,
            self is StoreUnavailable ==> r@ == "data store not available"@,
    {
        match self {
            RateLimitError::TooManyRequests => "Too many requests".to_owned(),
            RateLimitError::StoreUnavailable => "data store not available".to_owned(),
        }
    }
}

/// What one admission check persists and decides: the fresh record, its
/// serialized form, and whether the arrival is admitted once the write
/// lands.
#[derive(Debug)]
pub struct WritePlan {
    /// The pruned history with the current arrival appended.
    pub record: Vec<u64>,
    /// The serialized record to persist.
    pub payload: String,
    /// Whether the arrival stays within the threshold.
    pub admitted: bool,
}

/// Turn the outcome of the store read into the record to write back and
/// the admission decision. A failed read, or a stored value that does not
/// parse as a timestamp list, fails closed; rejection for count never
/// happens here, since the record is persisted before the threshold is
/// enforced.
pub fn plan_update(read: Result<Option<String>, StoreError>, now: u64) -> (r: Result<
    WritePlan,
    RateLimitError,
>)
    ensures
        read is Err ==> r == Err::<WritePlan, RateLimitError>(RateLimitError::StoreUnavailable),
        r matches Err(e) ==> e == RateLimitError::StoreUnavailable,
        r matches Ok(p) ==> {
            &&& exists|h: Seq<u64>| p.record@ == #[trigger] record_spec(h, now)
            &&& p.payload@ == json_of(p.record@)
            &&& p.admitted == (p.record@.len() <= MAX_REQUESTS)
        },
        read matches Ok(None) ==> (r matches Ok(p) && p.record@ == seq![now]),
        read matches Ok(Some(s)) ==> (match decoded_of(s@) {
            Some(h) => r matches Ok(p) && p.record@ == record_spec(h, now),
            None => r == Err::<WritePlan, RateLimitError>(RateLimitError::StoreUnavailable),
        }),
        forall|h: Seq<u64>|
            (read matches Ok(Some(s)) && s@ == #[trigger] json_of(h)) ==> (r matches Ok(p)
                && p.record@ == record_spec(h, now)),
{
    match read {
        Err(_) => Err(RateLimitError::StoreUnavailable),
        Ok(None) => {
            let mut record: Vec<u64> = Vec::new();
            record.push(now);
            proof {
                reveal(Seq::filter);
                assert(record@ == record_spec(Seq::<u64>::empty(), now));
            }
            let payload = encode_record(&record);
            let admitted = record.len() <= MAX_REQUESTS;
            Ok(WritePlan { record, payload, admitted })
        },
        Ok(Some(stored)) => {
            match decode_record(stored.as_str()) {
                None => Err(RateLimitError::StoreUnavailable),
                Some(prior) => {
                    let mut record = prune(&prior, now);
                    record.push(now);
                    proof {
                        assert(record@ == record_spec(prior@, now));
                    }
                    let payload = encode_record(&record);
                    let admitted = record.len() <= MAX_REQUESTS;
                    Ok(WritePlan { record, payload, admitted })
                },
            }
        },
    }
}

/// The decision once the write has been attempted: a failed write fails
/// closed, a successful one admits exactly when the fresh record stayed
/// within the threshold.
pub fn decide_after_write(write_ok: bool, admitted: bool) -> (r: Result<(), RateLimitError>)
    ensures
        !write_ok ==> r == Err::<(), RateLimitError>(RateLimitError::StoreUnavailable),
        write_ok && admitted ==> r is Ok,
        write_ok && !admitted ==> r == Err::<(), RateLimitError>(RateLimitError::TooManyRequests),
{
    if !write_ok {
        Err(RateLimitError::StoreUnavailable)
    } else if admitted {
        Ok(())
    } else {
        Err(RateLimitError::TooManyRequests)
    }
}

/// A check at `now` over prior history `h` for `key` turned the store's
/// maps from `pre`/`pre_ttl` into `post`/`post_ttl`: the pruned record
/// extended by `now` is stored under `key` with a TTL of `WINDOW_SECONDS`.
pub open spec fn persisted_record(
    pre: Map<Seq<char>, Seq<char>>,
    pre_ttl: Map<Seq<char>, Option<u64>>,
    post: Map<Seq<char>, Seq<char>>,
    post_ttl: Map<Seq<char>, Option<u64>>,
    key: Seq<char>,
    h: Seq<u64>,
    now: u64,
) -> bool {
    &&& post == pre.insert(key, json_of(record_spec(h, now)))
    &&& post_ttl == pre_ttl.insert(key, Some(WINDOW_SECONDS))
}

/// Decide whether the client named `key` may proceed at Unix time `now`,
/// recording the arrival in the store either way.
///
/// The caller supplies the current Unix time in seconds; the arrival is
/// persisted, with a TTL of `WINDOW_SECONDS`, before the threshold is
/// enforced, so a rejected burst keeps filling the window.
pub fn check<S: KeyValueStore>(store: &mut S, key: &str, now: u64) -> (r: Result<
    (),
    RateLimitError,
>)
    requires
        key@.len() > 0,
    ensures
        // Whenever the check reaches a decision, it has persisted a pruned
        // record extended by `now`, under a TTL of `WINDOW_SECONDS`, and
        // admits exactly within the threshold.
        (r is Ok || r == Err::<(), RateLimitError>(RateLimitError::TooManyRequests)) ==> exists|
            h: Seq<u64>,
        |
            #[trigger] persisted_record(
                old(store).contents(),
                old(store).expiries(),
                final(store).contents(),
                final(store).expiries(),
                key@,
                h,
                now,
            ) && (r is Ok <==> record_spec(h, now).len() <= MAX_REQUESTS),
        // A fresh client is never rejected for count, and a successful check
        // records exactly its one arrival, under the window's TTL.
        !old(store).contents().contains_key(key@) ==> r != Err::<(), RateLimitError>(
            RateLimitError::TooManyRequests,
        ),
        !old(store).contents().contains_key(key@) && r is Ok ==> final(store).contents() == old(
            store,
        ).contents().insert(key@, json_of(seq![now])) && final(store).expiries() == old(
            store,
        ).expiries().insert(key@, Some(WINDOW_SECONDS)),
        // A stored entry is read back as serde_json parses it: one that does
        // not parse fails closed, untouched; one that parses pins the
        // outcome unless the store failed.
        old(store).contents().contains_key(key@) ==> (match decoded_of(
            old(store).contents()[key@],
        ) {
            Some(h) => r == Err::<(), RateLimitError>(RateLimitError::StoreUnavailable) || (
            persisted_record(
                old(store).contents(),
                old(store).expiries(),
                final(store).contents(),
                final(store).expiries(),
                key@,
                h,
                now,
            ) && (r is Ok <==> record_spec(h, now).len() <= MAX_REQUESTS)),
            None => r == Err::<(), RateLimitError>(RateLimitError::StoreUnavailable)
                && final(store).contents() == old(store).contents()
                && final(store).expiries() == old(store).expiries(),
        }),
        // A record the limiter itself wrote is canonical and pins the same
        // way, with no call needed to see that it parses.
        forall|h: Seq<u64>|
            old(store).contents().contains_key(key@) && old(store).contents()[key@]
                == #[trigger] json_of(h) ==> {
                ||| r == Err::<(), RateLimitError>(RateLimitError::StoreUnavailable)
                ||| persisted_record(
                    old(store).contents(),
                    old(store).expiries(),
                    final(store).contents(),
                    final(store).expiries(),
                    key@,
                    h,
                    now,
                ) && (r is Ok <==> record_spec(h, now).len() <= MAX_REQUESTS)
            },
        // The failure path leaves the store as it was, or holds exactly the
        // one record the check had planned.
        r == Err::<(), RateLimitError>(RateLimitError::StoreUnavailable) ==> (final(store).contents()
            == old(store).contents() && final(store).expiries() == old(store).expiries())
            || exists|h: Seq<u64>|
            #[trigger] persisted_record(
                old(store).contents(),
                old(store).expiries(),
                final(store).contents(),
                final(store).expiries(),
                key@,
                h,
                now,
            ),
        // No other client's record or TTL is ever touched.
        forall|k: Seq<char>|
            k != key@ && old(store).contents().contains_key(k)
                ==> final(store).contents().contains_key(k) && final(store).contents()[k] == old(
                store,
            ).contents()[k],
        forall|k: Seq<char>|
            k != key@ && old(store).expiries().contains_key(k)
                ==> final(store).expiries().contains_key(k) && final(store).expiries()[k] == old(
                store,
            ).expiries()[k],
{
    let read = store.get(key);
    let plan = match plan_update(read, now) {
        Ok(p) => p,
        Err(e) => {
            return Err(e);
        },
    };
    let wrote = store.put(key, plan.payload.as_str(), Some(WINDOW_SECONDS));
    proof {
        reveal(Seq::filter);
        assert(record_spec(Seq::<u64>::empty(), now) == seq![now]);
        let hh = choose|h: Seq<u64>| plan.record@ == record_spec(h, now);
        if wrote is Ok {
            assert(persisted_record(
                old(store).contents(),
                old(store).expiries(),
                store.contents(),
                store.expiries(),
                key@,
                hh,
                now,
            ));
        } else if store.contents() != old(store).contents() || store.expiries() != old(
            store,
        ).expiries() {
            assert(persisted_record(
                old(store).contents(),
                old(store).expiries(),
                store.contents(),
                store.expiries(),
                key@,
                hh,
                now,
            ));
        }
    }
    decide_after_write(wrote.is_ok(), plan.admitted)
}

} // verus!
