//! The state container: fullness derivation, configuration keys, the
//! persistence round trip, hub construction and the severe-log ring.

use hub_router::handler::generate_possible_capabilities;
use hub_router::hub::{compute_hub_fullness, mock_status_schema, Hub, HubReadiness};
use hub_router::logger::{SevereLog, SevereLogStore};
use hub_router::persist::{decode_state, encode_state};
use hub_router::schema::{
    NewSessionRequestBody, NewSessionRequestCapabilities, NewSessionRequestCapability,
};
use hub_router::state::{HubRouterState, Ipv4};

fn cap(browser: Option<&str>, platform: Option<&str>) -> NewSessionRequestCapability {
    NewSessionRequestCapability {
        browserName: browser.map(|s| s.to_string()),
        platformName: platform.map(|s| s.to_string()),
    }
}

#[test]
fn fullness_of_zero_nodes_is_empty() {
    let status = mock_status_schema(4, 0, 0);
    let fullness = compute_hub_fullness(&status);
    assert_eq!(fullness.len(), 0);

    // Zero nodes also means the hub is counted as failing its healthcheck.
    let mut state = HubRouterState::new();
    let id = state.hubs.register("H", "http://h1:4444").expect("registers");
    state.hubs.record_status(&id, &status);
    assert_eq!(
        state.hubs.get(&id).unwrap().state.get_readiness(),
        HubReadiness::Unhealthy
    );
}

#[test]
fn fullness_accumulates_per_stereotype() {
    // Three slots of one stereotype, two of them holding sessions.
    let status = mock_status_schema(3, 1, 3);
    let fullness = compute_hub_fullness(&status);
    assert_eq!(fullness.len(), 1);
    assert_eq!(fullness[0].1, (3, 3));

    let mut hub = Hub::new("http://h:1".to_string());
    hub.apply_status(&status);
    assert_eq!(hub.state.get_stereotype_fullness(None), (3, 3));
    assert_eq!(
        hub.state.get_stereotype_fullness(Some(cap(Some("none"), None))),
        (0, 0)
    );
}

#[test]
fn config_keys_get_and_set() {
    let mut state = HubRouterState::new();
    assert_eq!(state.get_reaper_interval_secs(), Some(60));
    assert_eq!(state.get_reaper_max_session_mins(), Some(30));
    assert_eq!(state.get_healthcheck_interval_secs(), Some(1));

    assert!(state.set_config("healthcheck_interval", 5));
    assert!(state.set_config("healthcheck_timeout", 9));
    assert!(state.set_config("reaper_interval", 120));
    assert!(state.set_config("reaper_max_duration", 45));
    assert!(!state.set_config("no_such_key", 1));

    assert_eq!(state.get_config("healthcheck_interval"), Some(5));
    assert_eq!(state.get_config("healthcheck_timeout"), Some(9));
    assert_eq!(state.get_config("reaper_interval"), Some(120));
    assert_eq!(state.get_config("reaper_max_duration"), Some(45));
    assert_eq!(state.get_config("no_such_key"), None);
}

#[test]
fn state_round_trip_keeps_metadata_and_resets_transients() {
    let mut state = HubRouterState::new();
    let a = state.hubs.register("Alpha", "http://a:4444").expect("registers");
    let b = state.hubs.register("Beta", "http://b:4444").expect("registers");
    state.set_config("reaper_interval", 99);

    // Give one hub live transient state, which must not survive the trip.
    state.hubs.record_status(&a, &mock_status_schema(2, 1, 1));
    assert_eq!(state.hubs.get(&a).unwrap().state.get_readiness(), HubReadiness::Ready);

    let text = encode_state(&state);
    let back = decode_state(&text).expect("the serialized state loads");

    assert_eq!(back.configs.reaper_thread_interval, 99);
    assert_eq!(back.configs.bind_port, 6543);
    assert_eq!(back.hubs.len(), 2);
    for id in [a, b] {
        let orig = state.hubs.get(&id).unwrap();
        let hub = back.hubs.get(&id).expect("metadata survives");
        assert_eq!(hub.meta.uuid, orig.meta.uuid);
        assert_eq!(hub.meta.name, orig.meta.name);
        assert_eq!(hub.meta.url, orig.meta.url);
        assert_eq!(hub.state.get_readiness(), HubReadiness::Unhealthy);
        assert_eq!(hub.state.consecutive_healthcheck_failures, 0);
        assert_eq!(hub.state.fullness.len(), 0);
        assert_eq!(hub.state.stereotypes.len(), 0);
    }

    assert!(decode_state("not json").is_none());
    assert!(decode_state("{\"hubs\":3}").is_none());
    // A persisted hub whose URL does not parse rejects the whole document.
    assert!(decode_state(
        "{\"hubs\":[{\"name\":\"x\",\"url\":\"not a url\",\"uuid\":\"1\"}]}"
    )
    .is_none());
    // Missing members fall back to defaults.
    let sparse = decode_state("{\"hubs\":[]}").expect("defaults fill the gaps");
    assert_eq!(sparse.configs.reaper_thread_interval, 60);
    assert_eq!(sparse.configs.api_bind_port, 8080);
}

#[test]
fn hub_names_carry_a_url_tag() {
    let hub = Hub::new("http://h1:4444/".to_string());
    assert!(hub.meta.name.starts_with("Hub_"));
    assert_eq!(hub.meta.name.chars().count(), 10);
    for c in hub.meta.name.chars().skip(4) {
        assert!(c.is_ascii_alphanumeric() || c == '-' || c == '_');
    }
    let named = Hub::new_with_name("mine", "http://h2:1/".to_string());
    assert_eq!(named.meta.name, "mine");
    assert_eq!(named.state.consecutive_healthcheck_failures, 0);
}

#[test]
fn effective_matchers_merge_and_fall_back() {
    let body = NewSessionRequestBody {
        capabilities: NewSessionRequestCapabilities {
            alwaysMatch: cap(Some("chrome"), None),
            firstMatch: vec![cap(Some("firefox"), Some("linux")), cap(None, Some("mac"))],
        },
    };
    let merged = generate_possible_capabilities(body);
    assert_eq!(merged.len(), 2);
    // A field the firstMatch entry gives wins; alwaysMatch fills the gaps.
    assert_eq!(merged[0].browserName, Some("firefox".to_string()));
    assert_eq!(merged[0].platformName, Some("linux".to_string()));
    assert_eq!(merged[1].browserName, Some("chrome".to_string()));
    assert_eq!(merged[1].platformName, Some("mac".to_string()));

    let lonely = NewSessionRequestBody {
        capabilities: NewSessionRequestCapabilities {
            alwaysMatch: cap(Some("edge"), None),
            firstMatch: Vec::new(),
        },
    };
    let fallback = generate_possible_capabilities(lonely);
    assert_eq!(fallback.len(), 1);
    assert_eq!(fallback[0].browserName, Some("edge".to_string()));
}

#[test]
fn severe_logs_deduplicate_and_rotate() {
    let mut store = SevereLogStore::new(2);
    store.save_log(SevereLog { log: "boom".to_string(), time: 1 });
    store.save_log(SevereLog { log: "boom".to_string(), time: 5 });
    let entries = store.entries();
    assert_eq!(entries.len(), 1);
    assert_eq!(entries[0].log, "boom");
    assert_eq!(entries[0].time, 5);

    store.save_log(SevereLog { log: "crash".to_string(), time: 6 });
    store.save_log(SevereLog { log: "fail".to_string(), time: 7 });
    let entries = store.entries();
    assert_eq!(entries.len(), 2);
    // The ring is full: the oldest slot was overwritten in rotation.
    assert!(entries.iter().any(|e| e.log == "fail"));
}

#[test]
fn addresses_pack_and_unpack() {
    let ip = Ipv4 { a: 192, b: 168, c: 1, d: 77 };
    assert_eq!(Ipv4::unpack(ip.packed()), ip);
    assert_eq!(Ipv4::unspecified().packed(), 0);
}

#[test]
fn rewriting_targets_the_chosen_hub() {
    let out = hub_router::handler::apply_routing_decision(
        "/session/S1/element?a=1&b=2",
        "http://h1:4444/",
    )
    .expect("a valid endpoint rewrites");
    assert_eq!(out, "http://h1:4444/session/S1/element?a=1&b=2");
    let plain = hub_router::handler::apply_routing_decision("/status", "http://h1:4444/")
        .expect("a bare path rewrites");
    assert_eq!(plain, "http://h1:4444/status");
    // Userinfo and fragment of the base are stripped on the way out.
    let stripped = hub_router::handler::apply_routing_decision(
        "/x",
        "http://user:pw@h1:4444/old?q=1#frag",
    )
    .expect("a decorated base still rewrites");
    assert_eq!(stripped, "http://h1:4444/x");
    assert!(hub_router::handler::apply_routing_decision("/x", "::nope::").is_err());
}

#[test]
fn capability_extraction_reports_bad_bodies() {
    let good = hub_router::handler::extract_capabilities_from_new_session_request(
        "{\"capabilities\":{\"alwaysMatch\":{},\"firstMatch\":[{\"browserName\":\"chrome\"}]}}",
    )
    .expect("a well-formed body yields matchers");
    assert_eq!(good.len(), 1);
    assert_eq!(good[0].browserName, Some("chrome".to_string()));
    let bad = hub_router::handler::extract_capabilities_from_new_session_request("{}");
    assert!(bad.is_err());
}
