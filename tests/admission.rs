use token_exchange::{client_identity, first_hop, rate_limit, MemoryStore};

#[test]
fn fourth_request_in_window_is_denied() {
    let mut store = MemoryStore::new();
    assert_eq!(rate_limit(&mut store, "c", 3, 60), Ok(true));
    assert_eq!(rate_limit(&mut store, "c", 3, 60), Ok(true));
    assert_eq!(rate_limit(&mut store, "c", 3, 60), Ok(true));
    assert_eq!(rate_limit(&mut store, "c", 3, 60), Ok(false));
    assert_eq!(rate_limit(&mut store, "other", 3, 60), Ok(true));
}

#[test]
fn window_lapse_resets_count() {
    let mut store = MemoryStore::new();
    for _ in 0..4 {
        let _ = rate_limit(&mut store, "c", 3, 60);
    }
    store.advance(59);
    assert_eq!(rate_limit(&mut store, "c", 3, 60), Ok(false));
    store.advance(1);
    assert_eq!(rate_limit(&mut store, "c", 3, 60), Ok(true));
    assert_eq!(rate_limit(&mut store, "c", 3, 60), Ok(true));
    assert_eq!(rate_limit(&mut store, "c", 3, 60), Ok(true));
    assert_eq!(rate_limit(&mut store, "c", 3, 60), Ok(false));
}

#[test]
fn first_hop_trims_and_cuts() {
    assert_eq!(first_hop(" 1.2.3.4 , 5.6.7.8"), "1.2.3.4");
    assert_eq!(first_hop("10.0.0.1"), "10.0.0.1");
    assert_eq!(first_hop("   "), "");
    assert_eq!(first_hop(",1.1.1.1"), "");
}

#[test]
fn identity_falls_back() {
    assert_eq!(client_identity(Some("7.7.7.7, 8.8.8.8".to_string()), Some("9.9.9.9".to_string())), "7.7.7.7");
    assert_eq!(client_identity(Some(" ".to_string()), Some("9.9.9.9".to_string())), "9.9.9.9");
    assert_eq!(client_identity(None, None), "unknown");
}
