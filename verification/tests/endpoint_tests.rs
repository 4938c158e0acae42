use cfc_relay::endpoint::{EndpointCache, ResolveStep};

#[test]
fn configured_url_is_used_directly() {
    let mut cache = EndpointCache::new(Some("https://example.invalid/hook".to_string()));
    match cache.begin_resolve() {
        ResolveStep::UseReady(url) => assert_eq!(url, "https://example.invalid/hook"),
        _ => panic!("a configured endpoint must be reused"),
    }
}

#[test]
fn only_the_first_caller_gets_the_creation_claim() {
    let mut cache = EndpointCache::new(None);
    let mut claims = 0;
    // three concurrent first-time publishers, interleaved before any completes
    for _ in 0..3 {
        match cache.begin_resolve() {
            ResolveStep::Claim => claims += 1,
            ResolveStep::AwaitWinner => {},
            ResolveStep::UseReady(_) => panic!("nothing is cached yet"),
        }
    }
    assert_eq!(claims, 1);
}

#[test]
fn all_callers_observe_the_same_handle_after_completion() {
    let mut cache = EndpointCache::new(None);
    assert!(matches!(cache.begin_resolve(), ResolveStep::Claim));
    cache.complete_resolve("https://example.invalid/created".to_string());
    for _ in 0..3 {
        match cache.begin_resolve() {
            ResolveStep::UseReady(url) => assert_eq!(url, "https://example.invalid/created"),
            _ => panic!("a resolved endpoint must be reused"),
        }
    }
    assert_eq!(cache.cached_url().map(|u| u.as_str()), Some("https://example.invalid/created"));
}

#[test]
fn a_failed_resolution_releases_the_claim() {
    let mut cache = EndpointCache::new(None);
    assert!(matches!(cache.begin_resolve(), ResolveStep::Claim));
    cache.fail_resolve();
    assert!(cache.cached_url().is_none());
    assert!(matches!(cache.begin_resolve(), ResolveStep::Claim));
}
