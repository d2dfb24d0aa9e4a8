use vstd::prelude::*;
use crate::engine::{
    issued_record, live_at, lookup_outcome, redeem_next, redeem_outcome, revoke_next,
    revoke_outcome,
};
use crate::keys::{counter_key_of, index_key_of, record_key_of};
use crate::ratelimit::count_after;
use crate::record::{expired_at, TokenView};

verus! {

/// How many of `n` redemptions of `token_a` in a row, at `now`, reveal a value.
pub open spec fn redeem_successes(
    records: Map<Seq<char>, TokenView>,
    token_a: Seq<char>,
    now: int,
    n: nat,
) -> nat
    decreases n,
{
    if n == 0 {
        0
    } else {
        (if redeem_outcome(records, token_a, now) is Some {
            1nat
        } else {
            0nat
        }) + redeem_successes(redeem_next(records, token_a, now), token_a, now, (n - 1) as nat)
    }
}

/// Once no live record stands under the credential's key, no redemption
/// reveals anything.
pub proof fn lemma_no_record_no_success(
    records: Map<Seq<char>, TokenView>,
    token_a: Seq<char>,
    now: int,
    n: nat,
)
    requires
        !live_at(records, record_key_of(token_a), now),
    ensures
        redeem_successes(records, token_a, now, n) == 0,
    decreases n,
{
    if n > 0 {
        lemma_no_record_no_success(redeem_next(records, token_a, now), token_a, now, (n - 1) as nat);
    }
}

/// Exactly-once redemption: of any number `n >= 1` of redemptions of a live
/// single-use record, exactly one reveals its value, and it is the first.
pub proof fn lemma_single_use_exactly_once(
    records: Map<Seq<char>, TokenView>,
    token_a: Seq<char>,
    now: int,
    n: nat,
)
    requires
        live_at(records, record_key_of(token_a), now),
        !records[record_key_of(token_a)].multi,
        n >= 1,
    ensures
        redeem_outcome(records, token_a, now) == Some(records[record_key_of(token_a)].token_b),
        redeem_successes(records, token_a, now, n) == 1,
{
    let next = redeem_next(records, token_a, now);
    assert(!next.contains_key(record_key_of(token_a)));
    lemma_no_record_no_success(next, token_a, now, (n - 1) as nat);
}

/// Multi-use idempotence: a live multi-use record stays as it is, and every one
/// of `n` redemptions reveals the same value.
pub proof fn lemma_multi_use_repeats(
    records: Map<Seq<char>, TokenView>,
    token_a: Seq<char>,
    now: int,
    n: nat,
)
    requires
        live_at(records, record_key_of(token_a), now),
        records[record_key_of(token_a)].multi,
    ensures
        redeem_outcome(records, token_a, now) == Some(records[record_key_of(token_a)].token_b),
        redeem_next(records, token_a, now) == records,
        redeem_successes(records, token_a, now, n) == n,
    decreases n,
{
    if n > 0 {
        lemma_multi_use_repeats(records, token_a, now, (n - 1) as nat);
    }
}

/// Expiry: a record whose expiry instant has come is never redeemed nor found,
/// whether or not the store still holds it.
pub proof fn lemma_expired_never_redeemed(
    records: Map<Seq<char>, TokenView>,
    pointers: Map<Seq<char>, Seq<char>>,
    token_a: Seq<char>,
    token_b: Seq<char>,
    now: int,
)
    requires
        records.contains_key(record_key_of(token_a)),
        expired_at(records[record_key_of(token_a)], now),
        pointers.contains_key(index_key_of(token_b)),
        pointers[index_key_of(token_b)] == record_key_of(token_a),
    ensures
        redeem_outcome(records, token_a, now) is None,
        lookup_outcome(records, pointers, token_b, now) is None,
{
}

/// A lifetime of zero hours gives a record that is void from its issuance on.
pub proof fn lemma_zero_ttl_void(
    records: Map<Seq<char>, TokenView>,
    token_a: Seq<char>,
    token_b: Seq<char>,
    created: int,
    multi: bool,
    now: int,
)
    requires
        now >= created,
    ensures
        expired_at(issued_record(token_a, token_b, created, 0, multi), now),
        redeem_outcome(
            records.insert(record_key_of(token_a), issued_record(token_a, token_b, created, 0, multi)),
            token_a,
            now,
        ) is None,
{
}

/// Round trip: after an issuance, until the pair expires, a lookup by the
/// revealed value gives back the credential that was issued, and a redemption
/// of that credential reveals the value.
pub proof fn lemma_issue_then_lookup(
    records: Map<Seq<char>, TokenView>,
    pointers: Map<Seq<char>, Seq<char>>,
    token_a: Seq<char>,
    token_b: Seq<char>,
    created: int,
    ttl_hours: nat,
    multi: bool,
    now: int,
)
    requires
        created <= now < created + 3600 * ttl_hours,
    ensures
        ({
            let rs = records.insert(
                record_key_of(token_a),
                issued_record(token_a, token_b, created, ttl_hours, multi),
            );
            let ps = pointers.insert(index_key_of(token_b), record_key_of(token_a));
            &&& lookup_outcome(rs, ps, token_b, now) == Some((token_a, !multi))
            &&& redeem_outcome(rs, token_a, now) == Some(token_b)
        }),
{
}

/// Revocation is idempotent: once revoked, revoking again deletes nothing.
pub proof fn lemma_revoke_twice(
    records: Map<Seq<char>, TokenView>,
    pointers: Map<Seq<char>, Seq<char>>,
    token_b: Seq<char>,
)
    ensures
        !revoke_outcome(
            revoke_next(records, pointers, token_b),
            pointers.remove(index_key_of(token_b)),
            token_b,
        ),
{
}

/// Revoking a live pair deletes its record, after which neither a redemption
/// nor a lookup finds it.
pub proof fn lemma_revoke_live(
    records: Map<Seq<char>, TokenView>,
    pointers: Map<Seq<char>, Seq<char>>,
    token_a: Seq<char>,
    token_b: Seq<char>,
    now: int,
)
    requires
        pointers.contains_key(index_key_of(token_b)),
        pointers[index_key_of(token_b)] == record_key_of(token_a),
        live_at(records, record_key_of(token_a), now),
    ensures
        revoke_outcome(records, pointers, token_b),
        redeem_outcome(revoke_next(records, pointers, token_b), token_a, now) is None,
        lookup_outcome(
            revoke_next(records, pointers, token_b),
            pointers.remove(index_key_of(token_b)),
            token_b,
            now,
        ) is None,
{
}

/// The counters after `n` admissions of one client in one window.
pub open spec fn counters_after_requests(
    counters: Map<Seq<char>, u64>,
    client: Seq<char>,
    n: nat,
) -> Map<Seq<char>, u64>
    decreases n,
{
    if n == 0 {
        counters
    } else {
        let before = counters_after_requests(counters, client, (n - 1) as nat);
        before.insert(counter_key_of(client), count_after(before, client) as u64)
    }
}

/// Fixed window: starting from no counter (a new window, or one whose counter
/// has lapsed), the `n`-th request of a client counts `n`, and is admitted
/// exactly when `n` does not exceed the maximum.
pub proof fn lemma_fixed_window(counters: Map<Seq<char>, u64>, client: Seq<char>, n: nat, max: u64)
    requires
        !counters.contains_key(counter_key_of(client)),
        1 <= n < u64::MAX,
    ensures
        count_after(counters_after_requests(counters, client, (n - 1) as nat), client) == n,
        (count_after(counters_after_requests(counters, client, (n - 1) as nat), client) <= max)
            == (n <= max),
    decreases n,
{
    if n > 1 {
        lemma_fixed_window(counters, client, (n - 1) as nat, max);
    }
}

} // verus!
