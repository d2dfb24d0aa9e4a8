use vstd::prelude::*;
use crate::keys::{index_key, index_key_of, record_key, record_key_of};
use crate::record::{
    expired_at, text_opt, DecryptRequest, GetTokenRequest, StoredToken, TokenPair, TokenRequest,
    TokenView,
};
use crate::secret::{generate_secret, is_secret_text};
use crate::store::{StoreError, TokenStore};

verus! {

/// Seconds in an hour.
pub const SECS_PER_HOUR: i64 = 3600;

/// The record that an issuance at `now` writes.
pub open spec fn issued_record(
    token_a: Seq<char>,
    token_b: Seq<char>,
    now: int,
    ttl_hours: nat,
    multi: bool,
) -> TokenView {
    TokenView {
        token_a,
        token_b,
        expires: now + 3600 * ttl_hours,
        created_at: now,
        multi,
    }
}

/// Whether a record stands under `key` and is still live at `now`.
pub open spec fn live_at(records: Map<Seq<char>, TokenView>, key: Seq<char>, now: int) -> bool {
    records.contains_key(key) && !expired_at(records[key], now)
}

/// Whether a record stands under `key` but is void at `now`.
pub open spec fn stale_at(records: Map<Seq<char>, TokenView>, key: Seq<char>, now: int) -> bool {
    records.contains_key(key) && expired_at(records[key], now)
}

/// What a redemption of `token_a` at `now` reveals: the value of a live record,
/// or nothing.
pub open spec fn redeem_outcome(
    records: Map<Seq<char>, TokenView>,
    token_a: Seq<char>,
    now: int,
) -> Option<Seq<char>> {
    let k = record_key_of(token_a);
    if live_at(records, k, now) {
        Some(records[k].token_b)
    } else {
        None
    }
}

/// The records after a redemption: a single-use record that was revealed, and
/// a void one, are gone; a live multi-use record stays.
pub open spec fn redeem_next(
    records: Map<Seq<char>, TokenView>,
    token_a: Seq<char>,
    now: int,
) -> Map<Seq<char>, TokenView> {
    let k = record_key_of(token_a);
    if records.contains_key(k) && (expired_at(records[k], now) || !records[k].multi) {
        records.remove(k)
    } else {
        records
    }
}

/// The index pointers after a redemption whose cleanup went through: the
/// pointer of a record that the redemption removed is gone too.
pub open spec fn redeem_pointers_next(
    records: Map<Seq<char>, TokenView>,
    pointers: Map<Seq<char>, Seq<char>>,
    token_a: Seq<char>,
    now: int,
) -> Map<Seq<char>, Seq<char>> {
    let k = record_key_of(token_a);
    if records.contains_key(k) && (expired_at(records[k], now) || !records[k].multi) {
        pointers.remove(index_key_of(records[k].token_b))
    } else {
        pointers
    }
}

/// The records after a lookup whose cleanup went through: a void record that
/// the index points to is gone.
pub open spec fn lookup_records_next(
    records: Map<Seq<char>, TokenView>,
    pointers: Map<Seq<char>, Seq<char>>,
    token_b: Seq<char>,
    now: int,
) -> Map<Seq<char>, TokenView> {
    let ik = index_key_of(token_b);
    if pointers.contains_key(ik) && stale_at(records, pointers[ik], now) {
        records.remove(pointers[ik])
    } else {
        records
    }
}

/// The index pointers after a lookup whose cleanup went through: a pointer to
/// a void or missing record is gone.
pub open spec fn lookup_pointers_next(
    records: Map<Seq<char>, TokenView>,
    pointers: Map<Seq<char>, Seq<char>>,
    token_b: Seq<char>,
    now: int,
) -> Map<Seq<char>, Seq<char>> {
    let ik = index_key_of(token_b);
    if pointers.contains_key(ik) && !live_at(records, pointers[ik], now) {
        pointers.remove(ik)
    } else {
        pointers
    }
}

/// What an issuer-side lookup of `token_b` at `now` reports: the credential of
/// the live record that the index points to, and whether the record is
/// single-use (and so deletes itself on redemption).
pub open spec fn lookup_outcome(
    records: Map<Seq<char>, TokenView>,
    pointers: Map<Seq<char>, Seq<char>>,
    token_b: Seq<char>,
    now: int,
) -> Option<(Seq<char>, bool)> {
    let ik = index_key_of(token_b);
    if pointers.contains_key(ik) && live_at(records, pointers[ik], now) {
        let t = records[pointers[ik]];
        Some((t.token_a, !t.multi))
    } else {
        None
    }
}

/// Whether a revocation of `token_b` deletes a record.
pub open spec fn revoke_outcome(
    records: Map<Seq<char>, TokenView>,
    pointers: Map<Seq<char>, Seq<char>>,
    token_b: Seq<char>,
) -> bool {
    let ik = index_key_of(token_b);
    pointers.contains_key(ik) && records.contains_key(pointers[ik])
}

/// The records after a revocation of `token_b`.
pub open spec fn revoke_next(
    records: Map<Seq<char>, TokenView>,
    pointers: Map<Seq<char>, Seq<char>>,
    token_b: Seq<char>,
) -> Map<Seq<char>, TokenView> {
    let ik = index_key_of(token_b);
    if pointers.contains_key(ik) {
        records.remove(pointers[ik])
    } else {
        records
    }
}

/// Stores a new pair at `now`: the record under the digest of `token_a` and a
/// pointer to it under `token_b`, both living `ttl_hours` hours, in one batch. A
/// lifetime of zero hours writes nothing, as such a record is void at once.
pub fn issue_at<S: TokenStore>(
    store: &mut S,
    token_a: String,
    token_b: String,
    now: i64,
    ttl_hours: u32,
    multi: bool,
) -> (r: Result<TokenPair, StoreError>)
    requires
        old(store).valid(),
        now + 3600 * ttl_hours <= i64::MAX,
    ensures
        final(store).valid(),
        r is Ok ==> r->Ok_0.token_a@ == token_a@,
        r is Ok ==> r->Ok_0.token_b@ == token_b@,
        r is Ok ==> r->Ok_0.expires == now + 3600 * ttl_hours,
        ttl_hours > 0 && r is Ok ==> final(store).records() == old(store).records().insert(
            record_key_of(token_a@),
            issued_record(token_a@, token_b@, now as int, ttl_hours as nat, multi),
        ),
        ttl_hours > 0 && r is Ok ==> final(store).pointers() == old(store).pointers().insert(
            index_key_of(token_b@),
            record_key_of(token_a@),
        ),
        ttl_hours == 0 ==> r is Ok && final(store).records() == old(store).records()
            && final(store).pointers() == old(store).pointers(),
        old(store).available() ==> r is Ok && final(store).available(),
        r is Err ==> final(store).records() == old(store).records() && final(store).pointers()
            == old(store).pointers(),
        final(store).counters() == old(store).counters(),
{
    let expires = now + SECS_PER_HOUR * (ttl_hours as i64);
    if ttl_hours == 0 {
        return Ok(TokenPair { token_a, token_b, expires });
    }
    let rk = record_key(token_a.as_str());
    let ik = index_key(token_b.as_str());
    let record = StoredToken {
        token_a: token_a.clone(),
        token_b: token_b.clone(),
        expires,
        created_at: now,
        multi,
    };
    let ttl_secs = (ttl_hours as u64) * 3600;
    match store.put_pair(&rk, &record, &ik, ttl_secs) {
        Ok(()) => Ok(TokenPair { token_a, token_b, expires }),
        Err(e) => Err(e),
    }
}

/// Redeems `token_a` at `now`: `Ok(Some(b))` reveals the record's value,
/// `Ok(None)` means not found, used up or expired. A single-use record is read
/// and deleted in one atomic step, so of any number of redemptions exactly one
/// sees it. A void record found is deleted with its pointer, and the pointer
/// of a single-use record goes with it; a failed deletion there is not an
/// error. A failed read leaves the store as it was.
pub fn redeem_at<S: TokenStore>(store: &mut S, token_a: &str, now: i64) -> (r: Result<
    Option<String>,
    StoreError,
>)
    requires
        old(store).valid(),
    ensures
        final(store).valid(),
        r is Ok ==> text_opt(r->Ok_0) == redeem_outcome(old(store).records(), token_a@, now as int),
        old(store).available() ==> r is Ok && final(store).available(),
        old(store).available() ==> final(store).records() == redeem_next(
            old(store).records(),
            token_a@,
            now as int,
        ) && final(store).pointers() == redeem_pointers_next(
            old(store).records(),
            old(store).pointers(),
            token_a@,
            now as int,
        ),
        r is Ok ==> final(store).records() == redeem_next(old(store).records(), token_a@, now as int)
            || (stale_at(old(store).records(), record_key_of(token_a@), now as int)
            && final(store).records() == old(store).records()),
        r is Ok ==> final(store).pointers() == redeem_pointers_next(
            old(store).records(),
            old(store).pointers(),
            token_a@,
            now as int,
        ) || final(store).pointers() == old(store).pointers(),
        r is Err ==> final(store).records() == old(store).records() && final(store).pointers()
            == old(store).pointers(),
        final(store).counters() == old(store).counters(),
{
    let rk = record_key(token_a);
    let found = match store.get_record(&rk) {
        Ok(f) => f,
        Err(e) => return Err(e),
    };
    let t = match found {
        None => return Ok(None),
        Some(t) => t,
    };
    if t.is_expired_at(now) {
        let ik = index_key(t.token_b.as_str());
        let _ = store.remove_record(&rk);
        let _ = store.remove_pointer(&ik);
        return Ok(None);
    }
    if t.multi {
        return Ok(Some(t.token_b));
    }
    let taken = match store.take_record(&rk) {
        Ok(x) => x,
        Err(e) => return Err(e),
    };
    match taken {
        None => Ok(None),
        Some(t2) => {
            let ik = index_key(t2.token_b.as_str());
            let _ = store.remove_pointer(&ik);
            Ok(Some(t2.token_b))
        },
    }
}

/// What an issuer-side lookup finds.
pub struct TokenLookup {
    /// The redemption credential of the pair.
    pub token_a: String,
    /// Whether the record is single-use, and so deletes itself on redemption.
    pub should_delete: bool,
}

/// What a lookup reports, as plain values.
pub open spec fn lookup_view(o: Option<TokenLookup>) -> Option<(Seq<char>, bool)> {
    match o {
        Some(l) => Some((l.token_a@, l.should_delete)),
        None => None,
    }
}

/// Looks a pair up at `now` from its revealed value, through the index. A void
/// record found is deleted with its pointer, and a pointer whose record is gone
/// is deleted; failures of that cleanup are not errors.
pub fn lookup_at<S: TokenStore>(store: &mut S, token_b: &str, now: i64) -> (r: Result<
    Option<TokenLookup>,
    StoreError,
>)
    requires
        old(store).valid(),
    ensures
        final(store).valid(),
        r is Ok ==> lookup_view(r->Ok_0) == lookup_outcome(
            old(store).records(),
            old(store).pointers(),
            token_b@,
            now as int,
        ),
        old(store).available() ==> r is Ok && final(store).available(),
        old(store).available() ==> final(store).records() == lookup_records_next(
            old(store).records(),
            old(store).pointers(),
            token_b@,
            now as int,
        ) && final(store).pointers() == lookup_pointers_next(
            old(store).records(),
            old(store).pointers(),
            token_b@,
            now as int,
        ),
        r is Ok ==> final(store).records() == lookup_records_next(
            old(store).records(),
            old(store).pointers(),
            token_b@,
            now as int,
        ) || final(store).records() == old(store).records(),
        r is Ok ==> final(store).pointers() == lookup_pointers_next(
            old(store).records(),
            old(store).pointers(),
            token_b@,
            now as int,
        ) || final(store).pointers() == old(store).pointers(),
        r is Ok && lookup_outcome(old(store).records(), old(store).pointers(), token_b@, now as int)
            is Some ==> final(store).records() == old(store).records() && final(store).pointers()
            == old(store).pointers(),
        r is Err ==> final(store).records() == old(store).records() && final(store).pointers()
            == old(store).pointers(),
        final(store).counters() == old(store).counters(),
{
    let ik = index_key(token_b);
    let pointer = match store.get_pointer(&ik) {
        Ok(p) => p,
        Err(e) => return Err(e),
    };
    let rk = match pointer {
        None => return Ok(None),
        Some(rk) => rk,
    };
    let found = match store.get_record(&rk) {
        Ok(f) => f,
        Err(e) => return Err(e),
    };
    match found {
        None => {
            let _ = store.remove_pointer(&ik);
            Ok(None)
        },
        Some(t) => {
            if t.is_expired_at(now) {
                let _ = store.remove_record(&rk);
                let _ = store.remove_pointer(&ik);
                Ok(None)
            } else {
                Ok(Some(TokenLookup { token_a: t.token_a, should_delete: !t.multi }))
            }
        },
    }
}

/// Revokes the pair that reveals `token_b`: deletes its record and its index
/// pointer. `Ok(true)` when a record was deleted, `Ok(false)` when there was
/// none, which is no error.
pub fn delete_token<S: TokenStore>(store: &mut S, req: &crate::record::DeleteTokenRequest) -> (r:
    Result<bool, StoreError>)
    requires
        old(store).valid(),
    ensures
        final(store).valid(),
        r is Ok ==> r->Ok_0 == revoke_outcome(
            old(store).records(),
            old(store).pointers(),
            req.token_b@,
        ),
        r is Ok ==> final(store).records() == revoke_next(
            old(store).records(),
            old(store).pointers(),
            req.token_b@,
        ),
        r is Ok ==> final(store).pointers() == old(store).pointers().remove(
            index_key_of(req.token_b@),
        ),
        !old(store).pointers().contains_key(index_key_of(req.token_b@)) ==> final(store).records()
            == old(store).records() && final(store).pointers() == old(store).pointers(),
        old(store).available() ==> r is Ok && final(store).available(),
        r is Err ==> (final(store).records() == old(store).records() || final(store).records()
            == revoke_next(old(store).records(), old(store).pointers(), req.token_b@)) && (
        final(store).pointers() == old(store).pointers() || final(store).pointers() == old(
            store,
        ).pointers().remove(index_key_of(req.token_b@))),
        final(store).counters() == old(store).counters(),
{
    let ik = index_key(req.token_b.as_str());
    let pointer = match store.get_pointer(&ik) {
        Ok(p) => p,
        Err(e) => return Err(e),
    };
    match pointer {
        None => Ok(false),
        Some(rk) => {
            let deleted = match store.remove_record(&rk) {
                Ok(d) => d,
                Err(e) => return Err(e),
            };
            match store.remove_pointer(&ik) {
                Ok(_) => Ok(deleted),
                Err(e) => Err(e),
            }
        },
    }
}

/// Why an issuance failed.
#[derive(Clone, Copy, Debug, PartialEq, Eq, Structural)]
pub enum IssueError {
    /// No secure random bytes could be had.
    RandomSourceUnavailable,
    /// The clock could not be read as seconds since 1970.
    ClockUnavailable,
    /// The clock reads a time so late that the expiry instant does not fit.
    ClockOutOfRange,
    /// The store failed; nothing was written.
    Store(StoreError),
}

/// Why a redemption or a lookup failed.
#[derive(Clone, Copy, Debug, PartialEq, Eq, Structural)]
pub enum RequestError {
    /// The clock could not be read as seconds since 1970; the store was not
    /// touched.
    ClockUnavailable,
    /// The store failed.
    Store(StoreError),
}

/// Relies on std's `SystemTime::now` and `SystemTime::duration_since`: the
/// current time in whole seconds since the Unix epoch, or none where the clock
/// reads before 1970 or past what an `i64` holds. Nothing is promised of its
/// value.
#[verifier::external_body]
fn unix_now() -> (r: Option<i64>) {
    match std::time::SystemTime::now().duration_since(std::time::UNIX_EPOCH) {
        Ok(d) => i64::try_from(d.as_secs()).ok(),
        Err(_) => None,
    }
}

/// The expiry instant of a pair issued at `now` to live `ttl_hours` hours;
/// none where it does not fit in an `i64`.
pub fn expiry_after(now: i64, ttl_hours: u32) -> (r: Option<i64>)
    ensures
        r is Some <==> now + 3600 * ttl_hours <= i64::MAX,
        r is Some ==> r->Some_0 == now + 3600 * ttl_hours,
{
    if now > i64::MAX - SECS_PER_HOUR * (ttl_hours as i64) {
        None
    } else {
        Some(now + SECS_PER_HOUR * (ttl_hours as i64))
    }
}

/// Issues a new pair: two independent fresh secrets, a lifetime of
/// `req.ttl_hours` hours (else `default_ttl_hours`), single-use unless
/// `req.multi` says otherwise. The record and its pointer are stored as
/// `issue_at` describes, at the current time. Any failure leaves the store as
/// it was.
pub fn create_token<S: TokenStore>(
    store: &mut S,
    req: &TokenRequest,
    default_ttl_hours: u32,
) -> (r: Result<TokenPair, IssueError>)
    requires
        old(store).valid(),
    ensures
        final(store).valid(),
        ({
            let ttl: nat = match req.ttl_hours {
                Some(h) => h as nat,
                None => default_ttl_hours as nat,
            };
            let multi = match req.multi {
                Some(m) => m,
                None => false,
            };
            r is Ok ==> {
                let p = r->Ok_0;
                &&& is_secret_text(p.token_a@)
                &&& is_secret_text(p.token_b@)
                &&& (ttl > 0 ==> final(store).records() == old(store).records().insert(
                    record_key_of(p.token_a@),
                    issued_record(p.token_a@, p.token_b@, p.expires - 3600 * ttl, ttl, multi),
                ))
                &&& (ttl > 0 ==> final(store).pointers() == old(store).pointers().insert(
                    index_key_of(p.token_b@),
                    record_key_of(p.token_a@),
                ))
                &&& (ttl == 0 ==> final(store).records() == old(store).records()
                    && final(store).pointers() == old(store).pointers())
            }
        }),
        r is Err ==> final(store).records() == old(store).records() && final(store).pointers()
            == old(store).pointers(),
        old(store).available() ==> final(store).available() && (r is Ok || r == Err::<
            TokenPair,
            IssueError,
        >(IssueError::RandomSourceUnavailable) || r == Err::<TokenPair, IssueError>(
            IssueError::ClockUnavailable,
        ) || r == Err::<TokenPair, IssueError>(IssueError::ClockOutOfRange)),
        final(store).counters() == old(store).counters(),
{
    let token_a = match generate_secret() {
        Ok(s) => s,
        Err(_) => return Err(IssueError::RandomSourceUnavailable),
    };
    let token_b = match generate_secret() {
        Ok(s) => s,
        Err(_) => return Err(IssueError::RandomSourceUnavailable),
    };
    let ttl_hours = match req.ttl_hours {
        Some(h) => h,
        None => default_ttl_hours,
    };
    let multi = match req.multi {
        Some(m) => m,
        None => false,
    };
    let now = match unix_now() {
        Some(t) => t,
        None => return Err(IssueError::ClockUnavailable),
    };
    if expiry_after(now, ttl_hours).is_none() {
        return Err(IssueError::ClockOutOfRange);
    }
    match issue_at(store, token_a, token_b, now, ttl_hours, multi) {
        Ok(p) => Ok(p),
        Err(e) => Err(IssueError::Store(e)),
    }
}

/// Redeems `req.token_a` at the current time, as `redeem_at` describes.
pub fn decrypt_token<S: TokenStore>(store: &mut S, req: &DecryptRequest) -> (r: Result<
    Option<String>,
    RequestError,
>)
    requires
        old(store).valid(),
    ensures
        final(store).valid(),
        r is Ok ==> exists|now: i64|
            text_opt(r->Ok_0) == #[trigger] redeem_outcome(
                old(store).records(),
                req.token_a@,
                now as int,
            ) && (old(store).available() ==> final(store).records() == redeem_next(
                old(store).records(),
                req.token_a@,
                now as int,
            ) && final(store).pointers() == redeem_pointers_next(
                old(store).records(),
                old(store).pointers(),
                req.token_a@,
                now as int,
            )),
        r is Err ==> final(store).records() == old(store).records() && final(store).pointers()
            == old(store).pointers(),
        old(store).available() ==> final(store).available() && (r is Ok || r == Err::<
            Option<String>,
            RequestError,
        >(RequestError::ClockUnavailable)),
        final(store).counters() == old(store).counters(),
{
    let now = match unix_now() {
        Some(t) => t,
        None => return Err(RequestError::ClockUnavailable),
    };
    match redeem_at(store, req.token_a.as_str(), now) {
        Ok(v) => Ok(v),
        Err(e) => Err(RequestError::Store(e)),
    }
}

/// Looks up the pair of `req.token_b` at the current time, as `lookup_at`
/// describes.
pub fn get_token<S: TokenStore>(store: &mut S, req: &GetTokenRequest) -> (r: Result<
    Option<TokenLookup>,
    RequestError,
>)
    requires
        old(store).valid(),
    ensures
        final(store).valid(),
        r is Ok ==> exists|now: i64|
            lookup_view(r->Ok_0) == #[trigger] lookup_outcome(
                old(store).records(),
                old(store).pointers(),
                req.token_b@,
                now as int,
            ) && (old(store).available() ==> final(store).records() == lookup_records_next(
                old(store).records(),
                old(store).pointers(),
                req.token_b@,
                now as int,
            ) && final(store).pointers() == lookup_pointers_next(
                old(store).records(),
                old(store).pointers(),
                req.token_b@,
                now as int,
            )),
        r is Ok && r->Ok_0 is Some ==> final(store).records() == old(store).records()
            && final(store).pointers() == old(store).pointers(),
        r is Err ==> final(store).records() == old(store).records() && final(store).pointers()
            == old(store).pointers(),
        old(store).available() ==> final(store).available() && (r is Ok || r == Err::<
            Option<TokenLookup>,
            RequestError,
        >(RequestError::ClockUnavailable)),
        final(store).counters() == old(store).counters(),
{
    let now = match unix_now() {
        Some(t) => t,
        None => return Err(RequestError::ClockUnavailable),
    };
    match lookup_at(store, req.token_b.as_str(), now) {
        Ok(v) => Ok(v),
        Err(e) => Err(RequestError::Store(e)),
    }
}

} // verus!
