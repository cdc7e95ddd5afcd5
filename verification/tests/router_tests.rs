//! The router end to end, against an in-memory registry: readiness and
//! capability filtering, affinity, demotion, weighted selection and the
//! reaper.

use hub_router::codec::parse_status;
use hub_router::routing::{
    make_routing_decision, reap_sessions, select_weighted, AffinityMap, RoutingDecision,
    RoutingError,
};
use hub_router::schema::NewSessionRequestCapability;
use hub_router::state::HubRouterState;

fn cap(browser: Option<&str>, platform: Option<&str>) -> NewSessionRequestCapability {
    NewSessionRequestCapability {
        browserName: browser.map(|s| s.to_string()),
        platformName: platform.map(|s| s.to_string()),
    }
}

fn status_doc(browser: &str, platform: &str, slots: usize, busy: usize) -> String {
    let mut slot_docs: Vec<String> = Vec::new();
    for i in 0..slots {
        let session = if i < busy {
            format!(
                "{{\"sessionId\":\"s{}\",\"start\":\"t\",\"uri\":\"u\",\"stereotype\":{{\"browserName\":\"{}\",\"platformName\":\"{}\"}}}}",
                i, browser, platform
            )
        } else {
            "null".to_string()
        };
        slot_docs.push(format!(
            "{{\"id\":{{\"hostId\":\"h\",\"id\":\"s{}\"}},\"lastStarted\":\"t\",\"session\":{},\"stereotype\":{{\"browserName\":\"{}\",\"platformName\":\"{}\"}}}}",
            i, session, browser, platform
        ));
    }
    format!(
        "{{\"value\":{{\"ready\":true,\"message\":\"UP\",\"nodes\":[{{\"id\":\"n\",\"uri\":\"u\",\"maxSessions\":{},\"osInfo\":{{\"arch\":\"a\",\"name\":\"n\",\"version\":\"v\"}},\"availability\":\"UP\",\"version\":\"4\",\"slots\":[{}]}}]}}}}",
        slots,
        slot_docs.join(",")
    )
}

#[test]
fn routing_with_no_hubs_fails() {
    let state = HubRouterState::new();
    let mut map = AffinityMap::new();
    let r = make_routing_decision(None, None, &mut map, &state, 0);
    assert!(matches!(r, Err(RoutingError::NoHealthyNodes(_))));
}

#[test]
fn routing_with_only_unready_hubs_fails() {
    let mut state = HubRouterState::new();
    state.hubs.register("H", "http://h1:4444").expect("registers");
    let mut map = AffinityMap::new();
    let r = make_routing_decision(None, None, &mut map, &state, 0);
    assert!(matches!(r, Err(RoutingError::NoHealthyNodes(_))));
}

#[test]
fn register_poll_route() {
    let mut state = HubRouterState::new();
    let id = state.hubs.register("H", "http://h1:4444").expect("registers");
    let status = parse_status(&status_doc("chrome", "linux", 2, 0)).expect("status decodes");
    state.hubs.record_status(&id, &status);

    let hub = state.hubs.get(&id).expect("hub is present");
    assert_eq!(hub.state.get_readiness(), hub_router::hub::HubReadiness::Ready);
    assert_eq!(
        hub.state.get_stereotype_fullness(Some(cap(Some("chrome"), Some("linux")))),
        (0, 2)
    );

    let mut map = AffinityMap::new();
    let r = make_routing_decision(
        None,
        Some(vec![cap(Some("chrome"), Some("linux"))]),
        &mut map,
        &state,
        7,
    )
    .expect("routes to the one capable hub");
    assert_eq!(r.hub_uuid, id);
    assert_eq!(r.hub_endpoint, "http://h1:4444/");
    assert_eq!(r.decision_time, 7);

    // The forwarder records the decision once the hub answers with the id.
    map.insert("S1".to_string(), r.duplicate());
    let again =
        make_routing_decision(Some("S1".to_string()), None, &mut map, &state, 99).expect("affine");
    assert_eq!(again.hub_endpoint, "http://h1:4444/");
    assert_eq!(again.decision_time, 7);
}

#[test]
fn affinity_released_on_delete() {
    let mut state = HubRouterState::new();
    let id = state.hubs.register("H", "http://h1:4444").expect("registers");
    let status = parse_status(&status_doc("chrome", "linux", 2, 0)).expect("status decodes");
    state.hubs.record_status(&id, &status);

    let mut map = AffinityMap::new();
    map.insert("S1".to_string(), RoutingDecision::new(id, "http://h1:4444/".to_string(), 0));
    assert!(map.get("S1").is_some());
    // After the DELETE is forwarded, the forwarder drops the entry.
    map.remove("S1");
    assert!(map.get("S1").is_none());
}

#[test]
fn demotion_after_three_failures() {
    let mut state = HubRouterState::new();
    let id = state.hubs.register("H", "http://h1:4444").expect("registers");
    let status = parse_status(&status_doc("chrome", "linux", 2, 0)).expect("status decodes");
    state.hubs.record_status(&id, &status);
    assert_eq!(
        state.hubs.get(&id).unwrap().state.get_readiness(),
        hub_router::hub::HubReadiness::Ready
    );

    state.hubs.record_failure(&id);
    assert_eq!(
        state.hubs.get(&id).unwrap().state.get_readiness(),
        hub_router::hub::HubReadiness::Ready
    );
    state.hubs.record_failure(&id);
    state.hubs.record_failure(&id);
    assert_eq!(
        state.hubs.get(&id).unwrap().state.get_readiness(),
        hub_router::hub::HubReadiness::Unhealthy
    );

    let mut map = AffinityMap::new();
    let r = make_routing_decision(None, None, &mut map, &state, 0);
    assert!(matches!(r, Err(RoutingError::NoHealthyNodes(_))));
}

#[test]
fn first_match_fallback() {
    let mut state = HubRouterState::new();
    let a = state.hubs.register("A", "http://a:4444").expect("registers");
    let b = state.hubs.register("B", "http://b:4444").expect("registers");
    let sa = parse_status(&status_doc("firefox", "linux", 2, 0)).expect("status decodes");
    let sb = parse_status(&status_doc("chrome", "linux", 2, 0)).expect("status decodes");
    state.hubs.record_status(&a, &sa);
    state.hubs.record_status(&b, &sb);

    let mut map = AffinityMap::new();
    let r = make_routing_decision(
        None,
        Some(vec![cap(Some("safari"), None), cap(Some("chrome"), None)]),
        &mut map,
        &state,
        0,
    )
    .expect("second matcher is satisfiable");
    assert_eq!(r.hub_uuid, b);
    assert_eq!(r.hub_endpoint, "http://b:4444/");
}

#[test]
fn empty_matcher_list_falls_back_to_all_ready() {
    let mut state = HubRouterState::new();
    let id = state.hubs.register("H", "http://h1:4444").expect("registers");
    let status = parse_status(&status_doc("chrome", "linux", 2, 0)).expect("status decodes");
    state.hubs.record_status(&id, &status);

    let mut map = AffinityMap::new();
    let r = make_routing_decision(None, Some(Vec::new()), &mut map, &state, 0)
        .expect("no matcher means every ready hub is a candidate");
    assert_eq!(r.hub_uuid, id);
}

#[test]
fn unsatisfiable_matchers_are_rejected() {
    let mut state = HubRouterState::new();
    let id = state.hubs.register("H", "http://h1:4444").expect("registers");
    let status = parse_status(&status_doc("chrome", "linux", 2, 0)).expect("status decodes");
    state.hubs.record_status(&id, &status);

    let mut map = AffinityMap::new();
    let r = make_routing_decision(
        None,
        Some(vec![cap(Some("safari"), None)]),
        &mut map,
        &state,
        0,
    );
    assert!(matches!(r, Err(RoutingError::UnableToSatisfyCapabilities(_))));
}

#[test]
fn matching_is_case_insensitive() {
    let mut state = HubRouterState::new();
    let id = state.hubs.register("H", "http://h1:4444").expect("registers");
    let status = parse_status(&status_doc("Chrome", "LINUX", 2, 0)).expect("status decodes");
    state.hubs.record_status(&id, &status);

    let mut map = AffinityMap::new();
    let r = make_routing_decision(
        None,
        Some(vec![cap(Some("chrome"), Some("Linux"))]),
        &mut map,
        &state,
        0,
    )
    .expect("case differences do not matter");
    assert_eq!(r.hub_uuid, id);
}

#[test]
fn single_candidate_is_always_selected() {
    for r in 0..=11u64 {
        assert_eq!(select_weighted(&vec![11u64], r), 0);
    }
}

#[test]
fn weighted_walk_is_biased_by_fullness() {
    // Two hubs with capacity four: an empty one weighs 8, one with three
    // active sessions weighs 5; over the whole draw range the picks split
    // 9 to 5 (the draw is inclusive at both ends).
    let weights = vec![8u64, 5u64];
    let mut picks = [0usize; 2];
    for r in 0..=13u64 {
        picks[select_weighted(&weights, r)] += 1;
    }
    assert_eq!(picks[0], 9);
    assert_eq!(picks[1], 5);
}

#[test]
fn reaper_evicts_old_sessions() {
    let mut map = AffinityMap::new();
    map.insert("old".to_string(), RoutingDecision::new(1, "http://a/".to_string(), 7));
    map.insert("fresh".to_string(), RoutingDecision::new(2, "http://b/".to_string(), 9));
    // now = 10, max age 2: the entry from time 7 is 3 seconds old and goes.
    reap_sessions(&mut map, 10, 2);
    assert!(map.get("old").is_none());
    assert!(map.get("fresh").is_some());
}

#[test]
fn duplicate_urls_are_refused() {
    let mut state = HubRouterState::new();
    state.hubs.register("H", "http://h1:4444").expect("registers");
    let again = state.hubs.register("H2", "http://h1:4444");
    assert!(matches!(again, Err(hub_router::registry::RegisterError::AlreadyRegistered)));
    let bad = state.hubs.register("H3", "not a url");
    assert!(matches!(bad, Err(hub_router::registry::RegisterError::InvalidUrl)));
}
