use mcdl::net::{
    cache_rel_path, commit_step, hit_step, is_transient, key_hash, parse_age, parse_max_age,
    read_step, resolve_ttl, retry_step, CacheRead, CacheStore, CachedResponse, FailureClass,
    FetchError, RetryStep, DEFAULT_TTL_SECS,
};

#[test]
fn create_url() {
    assert_eq!(
        mcdl::minecraft::api_path("versions"),
        "https://piston-meta.mojang.com/versions"
    );
}

#[test]
fn envelope_round_trip() {
    let env = CachedResponse::new(vec![1, 2, 3, 250], 123456789);
    let bytes = env.to_bytes();
    let back = CachedResponse::from_bytes(&bytes).unwrap();
    assert_eq!(back.expires, 123456789);
    assert_eq!(back.data, vec![1, 2, 3, 250]);
}

#[test]
fn envelope_short_record_is_undecodable() {
    assert!(CachedResponse::from_bytes(&vec![1, 2, 3]).is_none());
}

#[test]
fn envelope_expiry() {
    let env = CachedResponse::new(Vec::new(), 100);
    assert!(!env.is_expired_at(99));
    assert!(env.is_expired_at(100));
    assert!(env.is_expired_at(101));
}

#[test]
fn cache_path_shape() {
    let p = cache_rel_path("https://piston-meta.mojang.com/mc/game/version_manifest_v2.json");
    // two-character shard directory over the sixteen-digit hex key
    assert_eq!(p.len(), 19);
    assert_eq!(p.chars().nth(2), Some('/'));
    assert_eq!(&p[0..2], &p[3..5]);
    // deterministic, and distinct URIs get distinct keys
    assert_eq!(
        p,
        cache_rel_path("https://piston-meta.mojang.com/mc/game/version_manifest_v2.json")
    );
    assert_ne!(key_hash("https://a.example"), key_hash("https://b.example"));
}

#[test]
fn ttl_precedence() {
    // Cache-Control: max-age=120 with Age: 20 expires in 100 s,
    // whatever TTL the caller supplied.
    assert_eq!(resolve_ttl(Some(120), Some(20), None), 100);
    assert_eq!(resolve_ttl(Some(120), Some(20), Some(7)), 100);
    assert_eq!(resolve_ttl(Some(120), Some(20), Some(0)), 100);
    // An Age at or past max-age floors at zero.
    assert_eq!(resolve_ttl(Some(120), Some(120), Some(7)), 0);
    assert_eq!(resolve_ttl(Some(120), Some(500), None), 0);
    // Without headers the caller's TTL applies, then the default.
    assert_eq!(resolve_ttl(None, None, Some(42)), 42);
    assert_eq!(resolve_ttl(None, None, None), DEFAULT_TTL_SECS);
    let committed = commit_step(1000, Some(120), Some(20), Some(7), vec![9]).unwrap();
    assert_eq!(committed.expires, 1100);
}

#[test]
fn bypass_touches_nothing() {
    // A caller TTL of zero never reads the cache...
    assert!(matches!(read_step("https://example.com", Some(0)), CacheRead::Bypass));
    // ...and never persists, whatever the headers say.
    assert!(commit_step(1000, Some(120), Some(20), Some(0), vec![1]).is_none());
    assert!(commit_step(1000, None, None, Some(0), vec![1]).is_none());
}

#[test]
fn zero_ttl_not_persisted() {
    assert!(commit_step(1000, Some(60), Some(60), None, vec![1]).is_none());
    let committed = commit_step(1000, None, None, Some(5), vec![1]).unwrap();
    assert_eq!(committed.expires, 1005);
}

/// One fetch-or-reuse round against an in-memory store; counts the
/// network calls it would make.
fn fetch_sim(
    store: &mut CacheStore,
    uri: &str,
    now: u64,
    caller_ttl: Option<u64>,
    max_age: Option<u64>,
    age: Option<u64>,
    body: &[u8],
    network_calls: &mut u32,
) -> Vec<u8> {
    let key = key_hash(uri);
    match read_step(uri, caller_ttl) {
        CacheRead::ReadAt { .. } => {
            let found = store.get(key).map(|e| CachedResponse::new(e.data.clone(), e.expires));
            if let Some(data) = hit_step(found, now) {
                return data;
            }
        }
        CacheRead::Bypass => {}
    }
    *network_calls += 1;
    let data = body.to_vec();
    if let Some(env) = commit_step(now, max_age, age, caller_ttl, data.clone()) {
        store.put(key, env);
    }
    data
}

#[test]
fn cache_idempotence() {
    // Two sequential fetches of one URI within the TTL window make
    // exactly one network call.
    let mut store = CacheStore::new();
    let mut calls: u32 = 0;
    let uri = "https://piston-meta.mojang.com/mc/game/version_manifest_v2.json";
    let a = fetch_sim(&mut store, uri, 1000, None, None, None, b"payload", &mut calls);
    let b = fetch_sim(&mut store, uri, 1200, None, None, None, b"payload", &mut calls);
    assert_eq!(calls, 1);
    assert_eq!(a, b"payload");
    assert_eq!(b, b"payload");
    // After expiry the entry is refreshed.
    let _ = fetch_sim(&mut store, uri, 1000 + DEFAULT_TTL_SECS, None, None, None, b"fresh", &mut calls);
    assert_eq!(calls, 2);
}

#[test]
fn bypass_always_fetches() {
    let mut store = CacheStore::new();
    let mut calls: u32 = 0;
    let uri = "https://example.com/doc.json";
    let _ = fetch_sim(&mut store, uri, 1000, Some(0), None, None, b"x", &mut calls);
    let _ = fetch_sim(&mut store, uri, 1001, Some(0), None, None, b"x", &mut calls);
    assert_eq!(calls, 2);
    // Nothing was persisted either: a normal fetch still misses.
    let _ = fetch_sim(&mut store, uri, 1002, None, None, None, b"x", &mut calls);
    assert_eq!(calls, 3);
}

#[test]
fn corrupt_entry_is_a_miss() {
    // An undecodable record reads as `None`, which the hit step treats
    // exactly like a missing entry.
    assert!(hit_step(None, 1000).is_none());
}

#[test]
fn retry_classification() {
    assert!(is_transient(&FailureClass::Connect));
    assert!(is_transient(&FailureClass::Resolve));
    assert!(is_transient(&FailureClass::Status(500)));
    assert!(is_transient(&FailureClass::Status(503)));
    assert!(!is_transient(&FailureClass::Status(404)));
    assert!(!is_transient(&FailureClass::Status(400)));
    assert!(!is_transient(&FailureClass::Decode));
}

#[test]
fn retry_backoff_is_fibonacci() {
    // 200 ms base, Fibonacci shape, terminal failures give up at once.
    assert_eq!(
        retry_step(&FailureClass::Status(500), 0),
        RetryStep::Retry { delay_ms: 200 }
    );
    assert_eq!(
        retry_step(&FailureClass::Status(500), 1),
        RetryStep::Retry { delay_ms: 200 }
    );
    assert_eq!(
        retry_step(&FailureClass::Status(500), 2),
        RetryStep::Retry { delay_ms: 400 }
    );
    assert_eq!(
        retry_step(&FailureClass::Status(500), 3),
        RetryStep::Retry { delay_ms: 600 }
    );
    assert_eq!(
        retry_step(&FailureClass::Status(500), 4),
        RetryStep::GiveUp { error: FetchError::Network }
    );
    assert_eq!(
        retry_step(&FailureClass::Status(404), 0),
        RetryStep::GiveUp { error: FetchError::Network }
    );
    assert_eq!(
        retry_step(&FailureClass::Decode, 0),
        RetryStep::GiveUp { error: FetchError::Decode }
    );
}

#[test]
fn cache_control_max_age() {
    assert_eq!(parse_max_age("max-age=120"), Some(120));
    assert_eq!(parse_max_age("public, max-age=120, must-revalidate"), Some(120));
    assert_eq!(parse_max_age("max-age=0"), Some(0));
    assert_eq!(parse_max_age("no-cache"), None);
    assert_eq!(parse_max_age("max-age="), None);
    assert_eq!(parse_max_age("max-age=abc"), None);
    assert_eq!(parse_max_age("s-maxage=30, max-age=60"), Some(60));
}

#[test]
fn age_header_value() {
    assert_eq!(parse_age("20"), Some(20));
    assert_eq!(parse_age("0"), Some(0));
    assert_eq!(parse_age(""), None);
    assert_eq!(parse_age("12x"), None);
    assert_eq!(parse_age("99999999999999999999999"), None);
}
