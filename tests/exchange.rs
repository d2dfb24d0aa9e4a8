use token_exchange::{
    counter_key, create_token, decrypt_token, delete_token, generate_secret, get_token, index_key,
    issue_at, lookup_at, record_key, redeem_at, DecryptRequest, DeleteTokenRequest,
    GetTokenRequest, MemoryStore, TokenRequest,
};

fn url_safe(s: &str) -> bool {
    s.chars().all(|c| c.is_ascii_alphanumeric() || c == '-' || c == '_')
}

fn issue(store: &mut MemoryStore, ttl_hours: Option<u32>, multi: Option<bool>) -> (String, String, i64) {
    let pair = create_token(store, &TokenRequest { ttl_hours, multi }, 24).unwrap();
    (pair.token_a, pair.token_b, pair.expires)
}

fn redeem(store: &mut MemoryStore, a: &str) -> Option<String> {
    decrypt_token(store, &DecryptRequest { token_a: a.to_string() }).unwrap()
}

#[test]
fn secrets_are_43_url_safe_characters() {
    let a = generate_secret().unwrap();
    let b = generate_secret().unwrap();
    assert_eq!(a.len(), 43);
    assert_eq!(b.len(), 43);
    assert!(url_safe(&a) && url_safe(&b));
    assert_ne!(a, b);
}

#[test]
fn issue_redeem_once_then_not_found() {
    let mut store = MemoryStore::new();
    let before = chrono::Utc::now().timestamp();
    let (a, b, expires) = issue(&mut store, None, None);
    let after = chrono::Utc::now().timestamp();
    assert_eq!(a.len(), 43);
    assert_eq!(b.len(), 43);
    assert!(url_safe(&a) && url_safe(&b));
    assert_ne!(a, b);
    assert!(expires >= before + 24 * 3600 && expires <= after + 24 * 3600);
    assert_eq!(redeem(&mut store, &a), Some(b.clone()));
    assert_eq!(redeem(&mut store, &a), None);
}

#[test]
fn single_use_redeems_exactly_once() {
    let mut store = MemoryStore::new();
    let (a, b, _) = issue(&mut store, Some(1), Some(false));
    let mut wins = Vec::new();
    for _ in 0..10 {
        if let Some(v) = redeem(&mut store, &a) {
            wins.push(v);
        }
    }
    assert_eq!(wins, vec![b]);
}

#[test]
fn multi_use_redeems_repeatedly() {
    let mut store = MemoryStore::new();
    let (a, b, _) = issue(&mut store, Some(2), Some(true));
    for _ in 0..5 {
        assert_eq!(redeem(&mut store, &a), Some(b.clone()));
    }
}

#[test]
fn zero_ttl_is_never_redeemable() {
    let mut store = MemoryStore::new();
    let (a, b, _) = issue(&mut store, Some(0), None);
    assert_eq!(redeem(&mut store, &a), None);
    assert!(get_token(&mut store, &GetTokenRequest { token_b: b }).unwrap().is_none());
}

#[test]
fn past_expiry_is_not_redeemable_though_stored() {
    let mut store = MemoryStore::new();
    let pair = issue_at(&mut store, "alpha".to_string(), "beta".to_string(), 1000, 1, false).unwrap();
    assert_eq!(pair.expires, 4600);
    assert!(lookup_at(&mut store, "beta", 4599).unwrap().is_some());
    assert_eq!(redeem_at(&mut store, "alpha", 4600).unwrap(), None);
    assert!(lookup_at(&mut store, "beta", 1000).unwrap().is_none());
}

#[test]
fn expired_multi_use_is_not_redeemable() {
    let mut store = MemoryStore::new();
    issue_at(&mut store, "a1".to_string(), "b1".to_string(), 0, 2, true).unwrap();
    assert_eq!(redeem_at(&mut store, "a1", 7199).unwrap(), Some("b1".to_string()));
    assert_eq!(redeem_at(&mut store, "a1", 7200).unwrap(), None);
}

#[test]
fn lookup_returns_issued_credential() {
    let mut store = MemoryStore::new();
    let (a, b, _) = issue(&mut store, None, None);
    let found = get_token(&mut store, &GetTokenRequest { token_b: b.clone() }).unwrap().unwrap();
    assert_eq!(found.token_a, a);
    assert!(found.should_delete);
    let (a2, b2, _) = issue(&mut store, None, Some(true));
    let found2 = get_token(&mut store, &GetTokenRequest { token_b: b2 }).unwrap().unwrap();
    assert_eq!(found2.token_a, a2);
    assert!(!found2.should_delete);
}

#[test]
fn lookup_after_redemption_is_not_found() {
    let mut store = MemoryStore::new();
    let (a, b, _) = issue(&mut store, None, None);
    assert!(redeem(&mut store, &a).is_some());
    assert!(get_token(&mut store, &GetTokenRequest { token_b: b }).unwrap().is_none());
}

#[test]
fn revoke_live_then_again() {
    let mut store = MemoryStore::new();
    let (a, b, _) = issue(&mut store, None, Some(true));
    let req = DeleteTokenRequest { token_b: b.clone() };
    assert_eq!(delete_token(&mut store, &req), Ok(true));
    assert_eq!(redeem(&mut store, &a), None);
    assert!(get_token(&mut store, &GetTokenRequest { token_b: b }).unwrap().is_none());
    assert_eq!(delete_token(&mut store, &req), Ok(false));
}

#[test]
fn revoke_unknown_is_false() {
    let mut store = MemoryStore::new();
    let req = DeleteTokenRequest { token_b: "nothing".to_string() };
    assert_eq!(delete_token(&mut store, &req), Ok(false));
}

#[test]
fn store_lifetime_lapses_records() {
    let mut store = MemoryStore::new();
    issue_at(&mut store, "x".to_string(), "y".to_string(), 0, 1, true).unwrap();
    assert_eq!(redeem_at(&mut store, "x", 10).unwrap(), Some("y".to_string()));
    store.advance(3600);
    assert_eq!(redeem_at(&mut store, "x", 10).unwrap(), None);
}

#[test]
fn record_key_is_hex_sha256() {
    assert_eq!(
        record_key("abc"),
        "token:ba7816bf8f01cfea414140de5dae2223b00361a396177a9cb410ff61f20015ad"
    );
    assert_eq!(index_key("b"), "tokenidx:b");
    assert_eq!(counter_key("1.2.3.4"), "ratelimit:1.2.3.4");
}

#[test]
fn expiry_instant_is_exact_or_refused() {
    assert_eq!(token_exchange::expiry_after(1000, 24), Some(1000 + 86400));
    assert_eq!(token_exchange::expiry_after(0, 0), Some(0));
    assert_eq!(token_exchange::expiry_after(i64::MAX, 1), None);
}

#[test]
fn unknown_credential_is_not_found() {
    let mut store = MemoryStore::new();
    assert_eq!(redeem_at(&mut store, "never-issued", 0).unwrap(), None);
    assert!(lookup_at(&mut store, "never-issued", 0).unwrap().is_none());
}
