use vstd::prelude::*;

verus! {

/// What a stored record holds, as plain values. Times are Unix seconds.
pub struct TokenView {
    pub token_a: Seq<char>,
    pub token_b: Seq<char>,
    pub expires: int,
    pub created_at: int,
    pub multi: bool,
}

/// The record kept for an issued pair. Times are Unix seconds.
pub struct StoredToken {
    /// The redemption credential.
    pub token_a: String,
    /// The value revealed on redemption.
    pub token_b: String,
    /// The record is void from this instant on.
    pub expires: i64,
    pub created_at: i64,
    /// Whether the record may be redeemed more than once.
    pub multi: bool,
}

impl View for StoredToken {
    type V = TokenView;

    open spec fn view(&self) -> TokenView {
        TokenView {
            token_a: self.token_a@,
            token_b: self.token_b@,
            expires: self.expires as int,
            created_at: self.created_at as int,
            multi: self.multi,
        }
    }
}

impl StoredToken {
    /// A copy with the same contents.
    pub fn duplicate(&self) -> (r: StoredToken)
        ensures
            r@ == self@,
    {
        StoredToken {
            token_a: self.token_a.clone(),
            token_b: self.token_b.clone(),
            expires: self.expires,
            created_at: self.created_at,
            multi: self.multi,
        }
    }

    /// Whether the record is void at `now`.
    pub fn is_expired_at(&self, now: i64) -> (r: bool)
        ensures
            r == expired_at(self@, now as int),
    {
        now >= self.expires
    }
}

/// A record is void at and after its expiry instant.
pub open spec fn expired_at(t: TokenView, now: int) -> bool {
    now >= t.expires
}

/// What the issuer receives: both secrets and the expiry instant.
pub struct TokenPair {
    pub token_a: String,
    pub token_b: String,
    pub expires: i64,
}

/// Options of an issuance: a lifetime in hours and the multi-use flag.
pub struct TokenRequest {
    pub ttl_hours: Option<u32>,
    pub multi: Option<bool>,
}

/// A redemption: the redeemer's credential.
pub struct DecryptRequest {
    pub token_a: String,
}

/// An issuer-side lookup by the revealed value.
pub struct GetTokenRequest {
    pub token_b: String,
}

/// An issuer-side revocation by the revealed value.
pub struct DeleteTokenRequest {
    pub token_b: String,
}

} // verus!

verus! {

/// The contents of a record that may be absent.
pub open spec fn record_opt(o: Option<StoredToken>) -> Option<TokenView> {
    match o {
        Some(t) => Some(t@),
        None => None,
    }
}

/// The characters of a text that may be absent.
pub open spec fn text_opt(o: Option<String>) -> Option<Seq<char>> {
    match o {
        Some(s) => Some(s@),
        None => None,
    }
}

} // verus!
