use rio_rs::client::{
    first_server_check, needs_refresh, note_step, object_address, second_server_check,
    service_object_address, redirect_step, ClientConnectionManager, PlacementCache, RedirectStep,
    RetryState, DEFAULT_TIMEOUT_MILLIS, MAX_RETRIES, PLACEMENT_CACHE_SIZE, RETRY_MAX_NANOS,
    RETRY_MIN_NANOS, subscription_step, SubscriptionStep,
};
use rio_rs::protocol::{ClientError, RequestError, ResponseError};

#[test]
fn connection_manager_defaults() {
    let manager = ClientConnectionManager::new(7u32);
    assert_eq!(*manager.members_storage(), 7);
    assert_eq!(manager.timeout_millis(), DEFAULT_TIMEOUT_MILLIS);
    assert_eq!(DEFAULT_TIMEOUT_MILLIS, 500);
}

#[test]
fn refresh_rules() {
    assert!(needs_refresh(false, 1));
    assert!(needs_refresh(true, 0));
    assert!(!needs_refresh(true, 1));
}

#[test]
fn server_checks() {
    let none: Option<Vec<String>> = None;
    assert_eq!(first_server_check(&none, "a"), Err(ClientError::NoServersAvailable));
    assert_eq!(first_server_check(&Some(vec![]), "a"), Err(ClientError::NoServersAvailable));
    let servers = Some(vec!["a".to_string(), "b".to_string()]);
    assert_eq!(first_server_check(&servers, "b"), Ok(true));
    assert_eq!(first_server_check(&servers, "c"), Ok(false));
    assert_eq!(second_server_check(&servers, "a"), Ok(()));
    assert_eq!(second_server_check(&servers, "c"), Err(ClientError::ServerNotAvailable("c".to_string())));
    assert_eq!(second_server_check(&Some(vec![]), "c"), Err(ClientError::ServerNotAvailable("c".to_string())));
    assert_eq!(second_server_check(&none, "c"), Err(ClientError::NoServersAvailable));
}

#[test]
fn service_object_address_choice() {
    let servers = Some(vec!["s1".to_string(), "s2".to_string()]);
    assert_eq!(service_object_address(Some("cached".to_string()), &servers), Ok("cached".to_string()));
    let picked = service_object_address(None, &servers).unwrap();
    assert!(picked == "s1" || picked == "s2");
    assert_eq!(service_object_address(None, &Some(vec![])), Err(ClientError::NoServersAvailable));
    assert_eq!(service_object_address(None, &None), Err(ClientError::NoServersAvailable));
}

#[test]
fn redirects_and_finishes() {
    let state = RetryState::new();
    let (s, step) = redirect_step::<String>(state, Err(RequestError::ResponseError(ResponseError::Redirect("x:1".to_string()))));
    assert_eq!(s, state);
    assert!(matches!(step, RedirectStep::Redirect(to) if to == "x:1"));
    let (_, step) = redirect_step::<String>(state, Ok(vec![1]));
    assert!(matches!(step, RedirectStep::Finish(Ok(v)) if v == vec![1]));
    let (_, step) = redirect_step::<String>(state, Err(RequestError::ApplicationError("e".to_string())));
    assert!(matches!(step, RedirectStep::Finish(Err(RequestError::ApplicationError(_)))));
    let (_, step) = redirect_step::<String>(state, Err(RequestError::ClientError(ClientError::Connectivity)));
    assert!(matches!(step, RedirectStep::Finish(Err(_))));
}

#[test]
fn retries_double_and_stop() {
    let mut state = RetryState::new();
    let mut waits = vec![];
    loop {
        let (next, step) = redirect_step::<String>(state, Err(RequestError::ClientError(ClientError::Disconnect)));
        match step {
            RedirectStep::Retry(wait) => waits.push(wait),
            RedirectStep::Finish(Err(RequestError::ClientError(ClientError::Disconnect))) => break,
            other => panic!("unexpected {:?}", other),
        }
        state = next;
    }
    assert_eq!(waits.len() as u64, MAX_RETRIES + 1);
    assert_eq!(waits[0], RETRY_MIN_NANOS);
    assert_eq!(waits[1], 2 * RETRY_MIN_NANOS);
    assert_eq!(*waits.last().unwrap(), 1_048_576_000);
    assert!(waits.iter().all(|w| *w <= RETRY_MAX_NANOS));
}

#[test]
fn placement_cache_remembers_and_forgets() {
    let mut cache = PlacementCache::new();
    assert_eq!(cache.cached("Svc", "1"), None);
    cache.remember("Svc", "1", "10.0.0.1:5000".to_string());
    cache.remember("Svc", "2", "10.0.0.2:5000".to_string());
    assert_eq!(cache.cached("Svc", "1"), Some("10.0.0.1:5000".to_string()));
    cache.remember("Svc", "1", "10.0.0.3:5000".to_string());
    assert_eq!(cache.cached("Svc", "1"), Some("10.0.0.3:5000".to_string()));
    cache.forget("Svc", "1");
    assert_eq!(cache.cached("Svc", "1"), None);
    assert_eq!(cache.cached("Svc", "2"), Some("10.0.0.2:5000".to_string()));
    // The type and the id are told apart
    assert_eq!(cache.cached("Svc2", ""), None);
}

#[test]
fn placement_cache_drops_least_recently_used() {
    let mut cache = PlacementCache::new();
    for i in 0..PLACEMENT_CACHE_SIZE {
        cache.remember("Svc", &i.to_string(), format!("s{}", i));
    }
    // Using the first entry makes the second one the least recently used
    assert_eq!(cache.cached("Svc", "0"), Some("s0".to_string()));
    cache.remember("Svc", "new", "s-new".to_string());
    assert_eq!(cache.cached("Svc", "1"), None);
    assert_eq!(cache.cached("Svc", "0"), Some("s0".to_string()));
    assert_eq!(cache.cached("Svc", "new"), Some("s-new".to_string()));
}

#[test]
fn object_address_prefers_the_cache() {
    let mut cache = PlacementCache::new();
    let servers = Some(vec!["s1".to_string()]);
    assert_eq!(object_address(&mut cache, "Svc", "1", &servers), Ok("s1".to_string()));
    cache.remember("Svc", "1", "s9".to_string());
    assert_eq!(object_address(&mut cache, "Svc", "1", &servers), Ok("s9".to_string()));
    assert_eq!(object_address(&mut cache, "Svc", "2", &None), Err(ClientError::NoServersAvailable));
    assert_eq!(object_address(&mut cache, "Svc", "1", &None), Ok("s9".to_string()));
}

#[test]
fn steps_update_the_cache() {
    let mut cache = PlacementCache::new();
    let redirect: RedirectStep<String> = RedirectStep::Redirect("s2".to_string());
    note_step(&mut cache, "Svc", "1", &redirect);
    assert_eq!(cache.cached("Svc", "1"), Some("s2".to_string()));
    let finish: RedirectStep<String> = RedirectStep::Finish(Ok(vec![1]));
    note_step(&mut cache, "Svc", "1", &finish);
    assert_eq!(cache.cached("Svc", "1"), Some("s2".to_string()));
    let retry: RedirectStep<String> = RedirectStep::Retry(RETRY_MIN_NANOS);
    note_step(&mut cache, "Svc", "1", &retry);
    assert_eq!(cache.cached("Svc", "1"), None);
}

#[test]
fn subscription_items() {
    let moved: Result<u8, ResponseError> = Err(ResponseError::Redirect("s2:1".to_string()));
    assert!(matches!(subscription_step(moved), SubscriptionStep::Reconnect(to) if to == "s2:1"));
    let item: Result<u8, ResponseError> = Ok(7);
    assert!(matches!(subscription_step(item), SubscriptionStep::Deliver(Ok(7))));
    let failed: Result<u8, ResponseError> = Err(ResponseError::Allocate);
    assert!(matches!(
        subscription_step(failed),
        SubscriptionStep::Deliver(Err(ClientError::ResponseError(ResponseError::Allocate)))
    ));
}

#[test]
fn placement_cache_evicts_exactly_one() {
    let mut cache = PlacementCache::new();
    for i in 0..PLACEMENT_CACHE_SIZE {
        cache.remember("Svc", &i.to_string(), format!("s{}", i));
    }
    cache.remember("Svc", "new", "s-new".to_string());
    assert_eq!(cache.cached("Svc", "0"), None);
    for i in 1..PLACEMENT_CACHE_SIZE {
        assert_eq!(cache.cached("Svc", &i.to_string()), Some(format!("s{}", i)));
    }
    // a key already cached replaces its value and evicts nothing
    cache.remember("Svc", "new", "s-newer".to_string());
    for i in 1..PLACEMENT_CACHE_SIZE {
        assert_eq!(cache.cached("Svc", &i.to_string()), Some(format!("s{}", i)));
    }
    assert_eq!(cache.cached("Svc", "new"), Some("s-newer".to_string()));
}
