//! The persistence codec: the proxy's configurable state as one JSON
//! document holding the hub metadata and the flat configuration
//! primitives. Transient hub state is never written, and loading resets it.

use vstd::prelude::*;

use crate::json::{
    Json, JsonV, jv, jvs, jvm, jget, jget_from, spec_parse_json, spec_encode, parse_json,
    encode_json, lemma_json_round_trip, lemma_jv_arr, lemma_jv_obj, jget_exec, plain_nums,
};
use crate::codec::str_field;
use crate::hub::{Hub, HubMetadata, MetaV, HubReadiness};
use crate::state::{HubRouterState, HubRouterPrimitiveConfigs, Ipv4, spec_default_configs};
use crate::urlutil::{parse_url, url_norm};
use crate::registry::HubRegistry;
use crate::strutil::{
    spec_dec, spec_parse_dec_u128, parse_dec_u128, append_dec128, lemma_parse_dec_u128_round,
};

verus! {

/// The model of a persisted state: hub identities and configuration.
pub ghost struct StateV {
    pub metas: Seq<MetaV>,
    pub configs: HubRouterPrimitiveConfigs,
}

/// The address an integer packs, each octet taken modulo 256.
pub open spec fn spec_unpack_ip(v: int) -> Ipv4 {
    Ipv4 {
        a: ((v / 0x1000000) % 0x100) as u8,
        b: ((v / 0x10000) % 0x100) as u8,
        c: ((v / 0x100) % 0x100) as u8,
        d: (v % 0x100) as u8,
    }
}

/// The JSON form of one hub identity.
pub open spec fn spec_meta_json(m: MetaV) -> JsonV {
    JsonV::Obj(
        seq![
            ("name"@, JsonV::Str(m.name)),
            ("url"@, JsonV::Str(m.url)),
            ("uuid"@, JsonV::Str(spec_dec(m.uuid as nat))),
        ],
    )
}

/// The JSON form of a persisted state.
pub open spec fn spec_state_json(sv: StateV) -> JsonV {
    JsonV::Obj(
        seq![
            ("hubs"@, JsonV::Arr(sv.metas.map_values(|m: MetaV| spec_meta_json(m)))),
            ("reaper_thread_interval"@, JsonV::Num(sv.configs.reaper_thread_interval)),
            ("reaper_thread_duration_max"@, JsonV::Num(sv.configs.reaper_thread_duration_max)),
            ("healthcheck_thread_interval"@, JsonV::Num(sv.configs.healthcheck_thread_interval)),
            ("healthcheck_timeout"@, JsonV::Num(sv.configs.healthcheck_timeout)),
            ("bind_port"@, JsonV::Num(sv.configs.bind_port as u64)),
            ("bind_ip"@, JsonV::Num(sv.configs.bind_ip.spec_packed() as u64)),
            ("api_bind_port"@, JsonV::Num(sv.configs.api_bind_port as u64)),
            ("api_bind_ip"@, JsonV::Num(sv.configs.api_bind_ip.spec_packed() as u64)),
        ],
    )
}

/// Reading one hub identity out of a JSON value.
pub open spec fn spec_meta_of(v: JsonV) -> Option<MetaV> {
    match v {
        JsonV::Obj(ms) => match (str_field(ms, "name"@), str_field(ms, "url"@), str_field(
            ms,
            "uuid"@,
        )) {
            (Some(n), Some(u), Some(us)) => match spec_parse_dec_u128(us) {
                Some(id) => Some(MetaV { name: n, url: u, uuid: id }),
                None => None,
            },
            _ => None,
        },
        _ => None,
    }
}

/// Reading a list of hub identities, from position `i` on.
pub open spec fn spec_metas_of(es: Seq<JsonV>, i: int) -> Option<Seq<MetaV>>
    decreases es.len() - i,
{
    if i >= es.len() || i < 0 {
        Some(Seq::empty())
    } else {
        match spec_meta_of(es[i]) {
            None => None,
            Some(m) => match spec_metas_of(es, i + 1) {
                Some(r) => Some(seq![m] + r),
                None => None,
            },
        }
    }
}

/// A numeric configuration member: its value when present, the default
/// when absent, nothing when present but not a number.
pub open spec fn cfg_u64(ms: Seq<(Seq<char>, JsonV)>, k: Seq<char>, dflt: u64) -> Option<u64> {
    match jget(ms, k) {
        None => Some(dflt),
        Some(JsonV::Num(n)) => Some(n),
        Some(_) => None,
    }
}

/// A port-sized configuration member, read like `cfg_u64` with a range
/// check.
pub open spec fn cfg_u16(ms: Seq<(Seq<char>, JsonV)>, k: Seq<char>, dflt: u16) -> Option<u16> {
    match jget(ms, k) {
        None => Some(dflt),
        Some(JsonV::Num(n)) => if n <= 0xffff {
            Some(n as u16)
        } else {
            None
        },
        Some(_) => None,
    }
}

/// An address configuration member, stored packed, read like `cfg_u64`
/// with a range check.
pub open spec fn cfg_ip(ms: Seq<(Seq<char>, JsonV)>, k: Seq<char>, dflt: Ipv4) -> Option<Ipv4> {
    match jget(ms, k) {
        None => Some(dflt),
        Some(JsonV::Num(n)) => if n <= 0xffff_ffff {
            Some(spec_unpack_ip(n as int))
        } else {
            None
        },
        Some(_) => None,
    }
}

/// Reading a persisted state out of a JSON value: the hub list must be
/// present and well-formed; missing configuration members fall back to the
/// defaults.
pub open spec fn spec_state_of(v: JsonV) -> Option<StateV> {
    match v {
        JsonV::Obj(ms) => {
            let metas = match jget(ms, "hubs"@) {
                Some(JsonV::Arr(es)) => spec_metas_of(es, 0),
                _ => None,
            };
            let d = spec_default_configs();
            match (metas, cfg_u64(ms, "reaper_thread_interval"@, d.reaper_thread_interval), cfg_u64(
                ms,
                "reaper_thread_duration_max"@,
                d.reaper_thread_duration_max,
            ), cfg_u64(ms, "healthcheck_thread_interval"@, d.healthcheck_thread_interval), cfg_u64(
                ms,
                "healthcheck_timeout"@,
                d.healthcheck_timeout,
            ), cfg_u16(ms, "bind_port"@, d.bind_port), cfg_ip(ms, "bind_ip"@, d.bind_ip), cfg_u16(
                ms,
                "api_bind_port"@,
                d.api_bind_port,
            ), cfg_ip(ms, "api_bind_ip"@, d.api_bind_ip)) {
                (
                    Some(m),
                    Some(ri),
                    Some(rm),
                    Some(hi),
                    Some(ht),
                    Some(bp),
                    Some(bi),
                    Some(ap),
                    Some(ai),
                ) => Some(
                    StateV {
                        metas: m,
                        configs: HubRouterPrimitiveConfigs {
                            reaper_thread_interval: ri,
                            reaper_thread_duration_max: rm,
                            healthcheck_thread_interval: hi,
                            healthcheck_timeout: ht,
                            bind_port: bp,
                            bind_ip: bi,
                            api_bind_port: ap,
                            api_bind_ip: ai,
                        },
                    },
                ),
                _ => None,
            }
        },
        _ => None,
    }
}

/// The JSON value of one hub identity.
fn meta_to_json(m: &HubMetadata) -> (r: Json)
    ensures
        jv(r) == spec_meta_json(m@),
{
    let mut us = String::new();
    append_dec128(&mut us, m.uuid);
    proof {
        assert(us@ =~= spec_dec(m.uuid as nat));
    }
    let mut ms: Vec<(String, Json)> = Vec::new();
    ms.push(("name".to_owned(), Json::Str(m.name.clone())));
    ms.push(("url".to_owned(), Json::Str(m.url.clone())));
    ms.push(("uuid".to_owned(), Json::Str(us)));
    let r = Json::Obj(ms);
    proof {
        match &r {
            Json::Obj(v) => {
                lemma_jv_obj(*v);
                assert(jvm(v@) =~= spec_meta_json(m@)->Obj_0);
            },
            _ => {},
        }
    }
    r
}

/// Serialize the state: the hub identities in the registry's iteration
/// order, and the configuration primitives flat beside them. The result is
/// the canonical encoding of `spec_state_json` applied to some hub-identity
/// order that lists exactly the registry's hubs.
pub fn encode_state(state: &HubRouterState) -> (r: String)
    requires
        state.hubs.inv(),
    ensures
        exists|sv: StateV|
            {
                &&& r@ == spec_encode(#[trigger] spec_state_json(sv))
                &&& sv.configs == state.configs
                &&& forall|i: int|
                    0 <= i < sv.metas.len() ==> state.hubs.hubs().dom().contains(
                        (#[trigger] sv.metas[i]).uuid,
                    ) && state.hubs.hubs()[sv.metas[i].uuid].meta@ == sv.metas[i]
                &&& forall|k: u128|
                    state.hubs.hubs().dom().contains(k) ==> exists|i: int|
                        0 <= i < sv.metas.len() && (#[trigger] sv.metas[i]).uuid == k
            },
{
    let snap = state.hubs.snapshot();
    let mut hubs_json: Vec<Json> = Vec::new();
    let n = snap.len();
    for i in 0..n
        invariant
            n == snap.len(),
            hubs_json.len() == i,
            forall|q: int|
                0 <= q < i ==> jv(#[trigger] hubs_json@[q]) == spec_meta_json(snap@[q].1.meta@),
            forall|q: int|
                0 <= q < snap@.len() ==> state.hubs.hubs().dom().contains(#[trigger] snap@[q].0)
                    && state.hubs.hubs()[snap@[q].0] == snap@[q].1,
            forall|k: u128|
                state.hubs.hubs().dom().contains(k) ==> exists|q: int|
                    0 <= q < snap@.len() && (#[trigger] snap@[q]).0 == k,
    {
        hubs_json.push(meta_to_json(&snap[i].1.meta));
    }
    let ghost metas = snap@.map_values(|p: (u128, Hub)| p.1.meta@);
    proof {
        assert(jvs(hubs_json@) =~= metas.map_values(|m: MetaV| spec_meta_json(m)));
    }
    let mut ms: Vec<(String, Json)> = Vec::new();
    let arr = Json::Arr(hubs_json);
    proof {
        match &arr {
            Json::Arr(v) => {
                lemma_jv_arr(*v);
            },
            _ => {},
        }
    }
    ms.push(("hubs".to_owned(), arr));
    ms.push(("reaper_thread_interval".to_owned(), Json::Num(state.configs.reaper_thread_interval)));
    ms.push(
        (
            "reaper_thread_duration_max".to_owned(),
            Json::Num(state.configs.reaper_thread_duration_max),
        ),
    );
    ms.push(
        (
            "healthcheck_thread_interval".to_owned(),
            Json::Num(state.configs.healthcheck_thread_interval),
        ),
    );
    ms.push(("healthcheck_timeout".to_owned(), Json::Num(state.configs.healthcheck_timeout)));
    ms.push(("bind_port".to_owned(), Json::Num(state.configs.bind_port as u64)));
    ms.push(("bind_ip".to_owned(), Json::Num(state.configs.bind_ip.packed() as u64)));
    ms.push(("api_bind_port".to_owned(), Json::Num(state.configs.api_bind_port as u64)));
    ms.push(("api_bind_ip".to_owned(), Json::Num(state.configs.api_bind_ip.packed() as u64)));
    let doc = Json::Obj(ms);
    let ghost sv = StateV { metas: metas, configs: state.configs };
    proof {
        match &doc {
            Json::Obj(v) => {
                lemma_jv_obj(*v);
                assert(jvm(v@) =~= spec_state_json(sv)->Obj_0);
            },
            _ => {},
        }
        assert(jv(doc) == spec_state_json(sv));
        assert forall|i: int|
            0 <= i < sv.metas.len() implies state.hubs.hubs().dom().contains(
            (#[trigger] sv.metas[i]).uuid,
        ) && state.hubs.hubs()[sv.metas[i].uuid].meta@ == sv.metas[i] by {
            assert(sv.metas[i] == snap@[i].1.meta@);
            assert(snap@[i].1.meta.uuid == snap@[i].0);
        }
        assert forall|k: u128| state.hubs.hubs().dom().contains(k) implies exists|i: int|
            0 <= i < sv.metas.len() && (#[trigger] sv.metas[i]).uuid == k by {
            let q = choose|q: int| 0 <= q < snap@.len() && (#[trigger] snap@[q]).0 == k;
            assert(sv.metas[q] == snap@[q].1.meta@);
            assert(sv.metas[q].uuid == k);
        }
    }
    encode_json(&doc)
}

/// Read one hub identity from an in-memory JSON value.
fn decode_meta(j: &Json) -> (r: Option<HubMetadata>)
    ensures
        match r {
            Some(m) => spec_meta_of(jv(*j)) == Some(m@),
            None => spec_meta_of(jv(*j)) is None,
        },
{
    match j {
        Json::Obj(ms) => {
            proof {
                lemma_jv_obj(*ms);
            }
            let n = match crate::codec::get_str(ms, "name") {
                Some(x) => x,
                None => {
                    return None;
                },
            };
            let u = match crate::codec::get_str(ms, "url") {
                Some(x) => x,
                None => {
                    return None;
                },
            };
            let us = match crate::codec::get_str(ms, "uuid") {
                Some(x) => x,
                None => {
                    return None;
                },
            };
            match parse_dec_u128(us.as_str()) {
                Some(id) => Some(HubMetadata { name: n, url: u, uuid: id }),
                None => None,
            }
        },
        _ => None,
    }
}

/// Read a list of hub identities from position `i` on.
fn decode_metas(es: &Vec<Json>, i: usize) -> (r: Option<Vec<HubMetadata>>)
    requires
        i <= es.len(),
    ensures
        match r {
            Some(v) => spec_metas_of(jvs(es@), i as int) == Some(
                v@.map_values(|m: HubMetadata| m@),
            ),
            None => spec_metas_of(jvs(es@), i as int) is None,
        },
    decreases es.len() - i,
{
    if i == es.len() {
        let v: Vec<HubMetadata> = Vec::new();
        proof {
            assert(v@.map_values(|m: HubMetadata| m@) =~= Seq::<MetaV>::empty());
        }
        return Some(v);
    }
    proof {
        assert(jvs(es@)[i as int] == jv(es@[i as int]));
    }
    match decode_meta(&es[i]) {
        None => None,
        Some(m) => match decode_metas(es, i + 1) {
            None => None,
            Some(mut v) => {
                let ghost oldv = v@;
                v.insert(0, m);
                proof {
                    assert(v@ =~= seq![m] + oldv);
                    assert(v@.map_values(|x: HubMetadata| x@) =~= seq![m@] + oldv.map_values(
                        |x: HubMetadata| x@,
                    ));
                }
                Some(v)
            },
        },
    }
}

/// Read one numeric configuration member with its default.
fn get_cfg_u64(ms: &Vec<(String, Json)>, k: &str, dflt: u64) -> (r: Option<u64>)
    ensures
        r == cfg_u64(jvm(ms@), k@, dflt),
{
    match jget_exec(ms, k) {
        None => Some(dflt),
        Some(Json::Num(n)) => Some(*n),
        Some(_) => None,
    }
}

/// Read one port-sized configuration member with its default.
fn get_cfg_u16(ms: &Vec<(String, Json)>, k: &str, dflt: u16) -> (r: Option<u16>)
    ensures
        r == cfg_u16(jvm(ms@), k@, dflt),
{
    match jget_exec(ms, k) {
        None => Some(dflt),
        Some(Json::Num(n)) => {
            if *n <= 0xffff {
                Some(*n as u16)
            } else {
                None
            }
        },
        Some(_) => None,
    }
}

/// Read one address configuration member with its default.
fn get_cfg_ip(ms: &Vec<(String, Json)>, k: &str, dflt: Ipv4) -> (r: Option<Ipv4>)
    ensures
        r == cfg_ip(jvm(ms@), k@, dflt),
{
    match jget_exec(ms, k) {
        None => Some(dflt),
        Some(Json::Num(n)) => {
            if *n <= 0xffff_ffff {
                let v = *n as u32;
                let ip = Ipv4::unpack(v);
                proof {
                    let a = v / 0x1000000;
                    let b = (v / 0x10000) % 0x100;
                    let c = (v / 0x100) % 0x100;
                    let d = v % 0x100;
                    assert(a < 0x100 && b < 0x100 && c < 0x100 && d < 0x100) by (bit_vector)
                        requires
                            a == v / 0x1000000 && b == (v / 0x10000) % 0x100 && c == (v / 0x100)
                                % 0x100 && d == v % 0x100,
                    ;
                    assert(spec_unpack_ip(v as int) == ip) by {
                        assert(ip.spec_packed() == v as int);
                        lemma_unpack_packed(ip, v);
                    }
                }
                Some(ip)
            } else {
                None
            }
        },
        Some(_) => None,
    }
}

/// Unpacking the packed form of an address gives the address back.
proof fn lemma_unpack_packed(ip: Ipv4, v: u32)
    requires
        ip.spec_packed() == v as int,
    ensures
        spec_unpack_ip(v as int) == ip,
{
    let a = ip.a;
    let b = ip.b;
    let c = ip.c;
    let d = ip.d;
    assert((v / 0x1000000) % 0x100 == a && (v / 0x10000) % 0x100 == b && (v / 0x100) % 0x100 == c
        && v % 0x100 == d) by (bit_vector)
        requires
            v == a as u32 * 0x1000000 + b as u32 * 0x10000 + c as u32 * 0x100 + d as u32 && a
                < 0x100 && b < 0x100 && c < 0x100 && d < 0x100,
    ;
}

/// Read a persisted state from an in-memory JSON document.
pub fn decode_state_doc(j: &Json) -> (r: Option<(Vec<HubMetadata>, HubRouterPrimitiveConfigs)>)
    ensures
        match r {
            Some(p) => spec_state_of(jv(*j)) == Some(
                StateV { metas: p.0@.map_values(|m: HubMetadata| m@), configs: p.1 },
            ),
            None => spec_state_of(jv(*j)) is None,
        },
{
    match j {
        Json::Obj(ms) => {
            proof {
                lemma_jv_obj(*ms);
            }
            let metas = match jget_exec(ms, "hubs") {
                Some(Json::Arr(es)) => {
                    proof {
                        lemma_jv_arr(*es);
                    }
                    match decode_metas(es, 0) {
                        Some(v) => v,
                        None => {
                            return None;
                        },
                    }
                },
                _ => {
                    return None;
                },
            };
            let d = HubRouterPrimitiveConfigs::default();
            let ri = match get_cfg_u64(ms, "reaper_thread_interval", d.reaper_thread_interval) {
                Some(x) => x,
                None => {
                    return None;
                },
            };
            let rm = match get_cfg_u64(
                ms,
                "reaper_thread_duration_max",
                d.reaper_thread_duration_max,
            ) {
                Some(x) => x,
                None => {
                    return None;
                },
            };
            let hi = match get_cfg_u64(
                ms,
                "healthcheck_thread_interval",
                d.healthcheck_thread_interval,
            ) {
                Some(x) => x,
                None => {
                    return None;
                },
            };
            let ht = match get_cfg_u64(ms, "healthcheck_timeout", d.healthcheck_timeout) {
                Some(x) => x,
                None => {
                    return None;
                },
            };
            let bp = match get_cfg_u16(ms, "bind_port", d.bind_port) {
                Some(x) => x,
                None => {
                    return None;
                },
            };
            let bi = match get_cfg_ip(ms, "bind_ip", d.bind_ip) {
                Some(x) => x,
                None => {
                    return None;
                },
            };
            let ap = match get_cfg_u16(ms, "api_bind_port", d.api_bind_port) {
                Some(x) => x,
                None => {
                    return None;
                },
            };
            let ai = match get_cfg_ip(ms, "api_bind_ip", d.api_bind_ip) {
                Some(x) => x,
                None => {
                    return None;
                },
            };
            Some(
                (
                    metas,
                    HubRouterPrimitiveConfigs {
                        reaper_thread_interval: ri,
                        reaper_thread_duration_max: rm,
                        healthcheck_thread_interval: hi,
                        healthcheck_timeout: ht,
                        bind_port: bp,
                        bind_ip: bi,
                        api_bind_port: ap,
                        api_bind_ip: ai,
                    },
                ),
            )
        },
        _ => None,
    }
}

/// Load a persisted state from raw text: the hub identities are restored
/// with their transient state reset, and missing configuration members
/// fall back to the defaults. Fails exactly when the document does not
/// parse, does not hold a well-formed state, or names a hub URL that is
/// not an absolute URL.
#[verifier::loop_isolation(false)]
pub fn decode_state(s: &str) -> (r: Option<HubRouterState>)
    ensures
        match r {
            Some(st) => (match spec_parse_json(s@) {
                Some(j) => spec_state_of(j) matches Some(sv) && st.configs == sv.configs
                    && st.hubs.inv() && (forall|i: int|
                    0 <= i < sv.metas.len() ==> url_norm((#[trigger] sv.metas[i]).url) is Some)
                    && (forall|
                    i: int,
                |
                    0 <= i < sv.metas.len() ==> st.hubs.hubs().dom().contains(
                        (#[trigger] sv.metas[i]).uuid,
                    )) && (forall|k: u128|
                    #[trigger] st.hubs.hubs().dom().contains(k) ==> (exists|i: int|
                        0 <= i < sv.metas.len() && (#[trigger] sv.metas[i]).uuid == k
                            && st.hubs.hubs()[k].meta@ == sv.metas[i])
                        && st.hubs.hubs()[k].state.readiness == HubReadiness::Unhealthy
                        && st.hubs.hubs()[k].state.consecutive_healthcheck_failures == 0
                        && st.hubs.hubs()[k].state.fullness@.len() == 0
                        && st.hubs.hubs()[k].state.stereotypes@.len() == 0),
                None => false,
            }),
            None => (match spec_parse_json(s@) {
                Some(j) => spec_state_of(j) is None || (spec_state_of(j) matches Some(sv)
                    && exists|i: int|
                    0 <= i < sv.metas.len() && url_norm((#[trigger] sv.metas[i]).url) is None),
                None => true,
            }),
        },
{
    let j = match parse_json(s) {
        Some(j) => j,
        None => {
            return None;
        },
    };
    let (metas, configs) = match decode_state_doc(&j) {
        Some(p) => p,
        None => {
            return None;
        },
    };
    let ghost mv = metas@.map_values(|m: HubMetadata| m@);
    let ghost sv0 = choose|x: StateV| spec_state_of(jv(j)) == Some(x);
    proof {
        assert(spec_state_of(jv(j)) == Some(sv0));
        assert(sv0.metas =~= mv) by {
            assert forall|q: int| 0 <= q < sv0.metas.len() implies sv0.metas[q] == mv[q] by {
                assert(sv0.metas[q] == metas@[q]@);
                assert(mv[q] == metas@[q]@);
            }
        }
    }
    // A persisted hub URL must still parse; the registry never held one
    // that does not.
    let vn = metas.len();
    for i in 0..vn
        invariant
            vn == metas.len(),
            mv == metas@.map_values(|m: HubMetadata| m@),
            spec_state_of(jv(j)) == Some(sv0),
            sv0.metas == mv,
            forall|q: int| 0 <= q < i ==> url_norm((#[trigger] mv[q]).url) is Some,
    {
        if parse_url(metas[i].url.as_str()).is_none() {
            proof {
                assert(url_norm(mv[i as int].url) is None);
                assert(url_norm(sv0.metas[i as int].url) is None);
            }
            return None;
        }
    }
    let mut hubs = HubRegistry::new();
    let n = metas.len();
    for i in 0..n
        invariant
            n == metas.len(),
            mv == metas@.map_values(|m: HubMetadata| m@),
            hubs.inv(),
            forall|k: u128|
                hubs.hubs().dom().contains(k) ==> exists|q: int|
                    0 <= q < i && (#[trigger] mv[q]).uuid == k,
            forall|q: int| 0 <= q < i ==> hubs.hubs().dom().contains((#[trigger] mv[q]).uuid),
            forall|k: u128|
                #[trigger] hubs.hubs().dom().contains(k) ==> (exists|q: int|
                    0 <= q < i && (#[trigger] mv[q]).uuid == k && hubs.hubs()[k].meta@ == mv[q])
                    && hubs.hubs()[k].state.readiness == HubReadiness::Unhealthy
                    && hubs.hubs()[k].state.consecutive_healthcheck_failures == 0
                    && hubs.hubs()[k].state.fullness@.len() == 0 && hubs.hubs()[k].state.stereotypes@.len()
                    == 0,
    {
        let m = &metas[i];
        let hub = Hub::from_meta(
            HubMetadata { name: m.name.clone(), url: m.url.clone(), uuid: m.uuid },
        );
        proof {
            assert(hub.meta@ == mv[i as int]);
        }
        hubs.insert_hub(hub);
    }
    proof {
        assert(mv.len() == n);
        let sv = choose|sv: StateV| spec_state_of(jv(j)) == Some(sv);
        assert(spec_state_of(jv(j)) == Some(sv));
        assert(sv.metas =~= mv) by {
            assert forall|q: int| 0 <= q < n implies sv.metas[q] == mv[q] by {
                assert(sv.metas[q] == metas@[q]@);
                assert(mv[q] == metas@[q]@);
            }
        }
        assert forall|k: u128| #[trigger] hubs.hubs().dom().contains(k) implies (exists|i: int|
            0 <= i < sv.metas.len() && (#[trigger] sv.metas[i]).uuid == k && hubs.hubs()[k].meta@
                == sv.metas[i]) by {
            let q = choose|q: int|
                0 <= q < n && (#[trigger] mv[q]).uuid == k && hubs.hubs()[k].meta@ == mv[q];
            assert(0 <= q < sv.metas.len() && sv.metas[q].uuid == k && hubs.hubs()[k].meta@
                == sv.metas[q]);
        }
        assert forall|i: int| 0 <= i < sv.metas.len() implies hubs.hubs().dom().contains(
            (#[trigger] sv.metas[i]).uuid,
        ) by {
            assert(sv.metas[i] == mv[i]);
        }
        assert forall|i: int| 0 <= i < sv.metas.len() implies url_norm(
            (#[trigger] sv.metas[i]).url,
        ) is Some by {
            assert(sv.metas[i] == mv[i]);
        }
    }
    Some(HubRouterState { hubs, configs })
}

/// The nine top-level keys and the three identity keys are pairwise
/// distinct.
proof fn lemma_persist_keys_distinct()
    ensures
        "name"@ != "url"@ && "name"@ != "uuid"@ && "url"@ != "uuid"@,
        "hubs"@ != "reaper_thread_interval"@,
        "hubs"@ != "reaper_thread_duration_max"@ && "hubs"@ != "healthcheck_thread_interval"@,
        "hubs"@ != "healthcheck_timeout"@ && "hubs"@ != "bind_port"@ && "hubs"@ != "bind_ip"@,
        "hubs"@ != "api_bind_port"@ && "hubs"@ != "api_bind_ip"@,
        "reaper_thread_interval"@ != "reaper_thread_duration_max"@,
        "reaper_thread_interval"@ != "healthcheck_thread_interval"@,
        "reaper_thread_interval"@ != "healthcheck_timeout"@,
        "reaper_thread_interval"@ != "bind_port"@ && "reaper_thread_interval"@ != "bind_ip"@,
        "reaper_thread_interval"@ != "api_bind_port"@,
        "reaper_thread_interval"@ != "api_bind_ip"@,
        "reaper_thread_duration_max"@ != "healthcheck_thread_interval"@,
        "reaper_thread_duration_max"@ != "healthcheck_timeout"@,
        "reaper_thread_duration_max"@ != "bind_port"@,
        "reaper_thread_duration_max"@ != "bind_ip"@,
        "reaper_thread_duration_max"@ != "api_bind_port"@,
        "reaper_thread_duration_max"@ != "api_bind_ip"@,
        "healthcheck_thread_interval"@ != "healthcheck_timeout"@,
        "healthcheck_thread_interval"@ != "bind_port"@,
        "healthcheck_thread_interval"@ != "bind_ip"@,
        "healthcheck_thread_interval"@ != "api_bind_port"@,
        "healthcheck_thread_interval"@ != "api_bind_ip"@,
        "healthcheck_timeout"@ != "bind_port"@ && "healthcheck_timeout"@ != "bind_ip"@,
        "healthcheck_timeout"@ != "api_bind_port"@ && "healthcheck_timeout"@ != "api_bind_ip"@,
        "bind_port"@ != "bind_ip"@ && "bind_port"@ != "api_bind_port"@,
        "bind_port"@ != "api_bind_ip"@,
        "bind_ip"@ != "api_bind_port"@ && "bind_ip"@ != "api_bind_ip"@,
        "api_bind_port"@ != "api_bind_ip"@,
{
    reveal_strlit("name");
    reveal_strlit("url");
    reveal_strlit("uuid");
    reveal_strlit("hubs");
    reveal_strlit("reaper_thread_interval");
    reveal_strlit("reaper_thread_duration_max");
    reveal_strlit("healthcheck_thread_interval");
    reveal_strlit("healthcheck_timeout");
    reveal_strlit("bind_port");
    reveal_strlit("bind_ip");
    reveal_strlit("api_bind_port");
    reveal_strlit("api_bind_ip");
    assert("name"@.len() == 4 && "url"@.len() == 3 && "uuid"@.len() == 4);
    assert("name"@[0] == 'n' && "uuid"@[0] == 'u');
    assert("hubs"@.len() == 4 && "reaper_thread_interval"@.len() == 22
        && "reaper_thread_duration_max"@.len() == 26 && "healthcheck_thread_interval"@.len() == 27
        && "healthcheck_timeout"@.len() == 19 && "bind_port"@.len() == 9 && "bind_ip"@.len() == 7
        && "api_bind_port"@.len() == 13 && "api_bind_ip"@.len() == 11);
}

/// The canonical JSON form of one hub identity holds no number tokens.
proof fn lemma_plain_meta_json(m: MetaV)
    ensures
        plain_nums(spec_meta_json(m)),
{
    let ms = spec_meta_json(m)->Obj_0;
    assert forall|i: int| 0 <= i < ms.len() implies plain_nums((#[trigger] ms[i]).1) by {
        assert(ms[i].1 is Str);
    }
}

/// The canonical JSON form of a persisted state holds no number tokens.
proof fn lemma_plain_state_json(sv: StateV)
    ensures
        plain_nums(spec_state_json(sv)),
{
    let mj = sv.metas.map_values(|m: MetaV| spec_meta_json(m));
    assert forall|i: int| 0 <= i < mj.len() implies plain_nums(#[trigger] mj[i]) by {
        lemma_plain_meta_json(sv.metas[i]);
        assert(mj[i] == spec_meta_json(sv.metas[i]));
    }
    let ms = spec_state_json(sv)->Obj_0;
    assert forall|i: int| 0 <= i < ms.len() implies plain_nums((#[trigger] ms[i]).1) by {
        if i == 0 {
            assert(ms[i].1 == JsonV::Arr(mj));
        } else {
            assert(ms[i].1 is Num);
        }
    }
}

/// Reading back the canonical JSON form of one hub identity gives the
/// identity.
proof fn lemma_meta_codec(m: MetaV)
    ensures
        spec_meta_of(spec_meta_json(m)) == Some(m),
{
    lemma_persist_keys_distinct();
    reveal_with_fuel(jget_from, 5);
    let ms = spec_meta_json(m)->Obj_0;
    assert(jget(ms, "name"@) == Some(JsonV::Str(m.name)));
    assert(jget(ms, "url"@) == Some(JsonV::Str(m.url)));
    assert(jget(ms, "uuid"@) == Some(JsonV::Str(spec_dec(m.uuid as nat))));
    lemma_parse_dec_u128_round(m.uuid);
    assert(spec_meta_of(spec_meta_json(m)) == Some(
        MetaV { name: m.name, url: m.url, uuid: m.uuid },
    ));
    assert(MetaV { name: m.name, url: m.url, uuid: m.uuid } == m);
}

/// Reading back a canonical list of hub identities gives the list.
proof fn lemma_metas_codec(ms: Seq<MetaV>, i: int)
    requires
        0 <= i <= ms.len(),
    ensures
        spec_metas_of(ms.map_values(|m: MetaV| spec_meta_json(m)), i) == Some(
            ms.subrange(i, ms.len() as int),
        ),
    decreases ms.len() - i,
{
    let es = ms.map_values(|m: MetaV| spec_meta_json(m));
    if i == ms.len() {
        assert(ms.subrange(i, ms.len() as int) =~= Seq::<MetaV>::empty());
    } else {
        lemma_meta_codec(ms[i]);
        assert(es[i] == spec_meta_json(ms[i]));
        lemma_metas_codec(ms, i + 1);
        assert(seq![ms[i]] + ms.subrange(i + 1, ms.len() as int) =~= ms.subrange(
            i,
            ms.len() as int,
        ));
    }
}

/// Serializing a state and reading it back yields the same hub identities
/// and the same configuration: the parse of the canonical encoding
/// succeeds, and reading the parsed JSON as a state yields the original
/// identities and configuration (transient hub state is not part of the
/// document at all).
pub proof fn lemma_state_round_trip(sv: StateV)
    ensures
        spec_parse_json(spec_encode(spec_state_json(sv))) == Some(spec_state_json(sv)),
        spec_state_of(spec_state_json(sv)) == Some(sv),
{
    lemma_plain_state_json(sv);
    lemma_json_round_trip(spec_state_json(sv));
    lemma_persist_keys_distinct();
    reveal_with_fuel(jget_from, 11);
    let doc = spec_state_json(sv);
    let ms = doc->Obj_0;
    assert(jget(ms, "hubs"@) == Some(
        JsonV::Arr(sv.metas.map_values(|m: MetaV| spec_meta_json(m))),
    ));
    assert(jget(ms, "reaper_thread_interval"@) == Some(
        JsonV::Num(sv.configs.reaper_thread_interval),
    ));
    assert(jget(ms, "reaper_thread_duration_max"@) == Some(
        JsonV::Num(sv.configs.reaper_thread_duration_max),
    ));
    assert(jget(ms, "healthcheck_thread_interval"@) == Some(
        JsonV::Num(sv.configs.healthcheck_thread_interval),
    ));
    assert(jget(ms, "healthcheck_timeout"@) == Some(JsonV::Num(sv.configs.healthcheck_timeout)));
    assert(jget(ms, "bind_port"@) == Some(JsonV::Num(sv.configs.bind_port as u64)));
    assert(jget(ms, "bind_ip"@) == Some(JsonV::Num(sv.configs.bind_ip.spec_packed() as u64)));
    assert(jget(ms, "api_bind_port"@) == Some(JsonV::Num(sv.configs.api_bind_port as u64)));
    assert(jget(ms, "api_bind_ip"@) == Some(JsonV::Num(sv.configs.api_bind_ip.spec_packed() as u64)));
    lemma_metas_codec(sv.metas, 0);
    assert(sv.metas.subrange(0, sv.metas.len() as int) =~= sv.metas);
    lemma_ip_pack_round(sv.configs.bind_ip);
    lemma_ip_pack_round(sv.configs.api_bind_ip);
    let d = spec_default_configs();
    assert(cfg_u16(ms, "bind_port"@, d.bind_port) == Some(sv.configs.bind_port));
    assert(cfg_u16(ms, "api_bind_port"@, d.api_bind_port) == Some(sv.configs.api_bind_port));
    assert(spec_state_of(doc) == Some(StateV { metas: sv.metas, configs: sv.configs }));
    assert(StateV { metas: sv.metas, configs: sv.configs } == sv);
}

/// Unpacking an address's packed form gives the address back.
proof fn lemma_ip_pack_round(ip: Ipv4)
    ensures
        0 <= ip.spec_packed() <= 0xffff_ffff,
        spec_unpack_ip(ip.spec_packed()) == ip,
{
    let a = ip.a;
    let b = ip.b;
    let c = ip.c;
    let d = ip.d;
    let v: u32 = (((a as u32) * 0x1000000 + (b as u32) * 0x10000 + (c as u32) * 0x100 + (
    d as u32)) as int) as u32;
    assert(v as int == ip.spec_packed());
    assert((v / 0x1000000) % 0x100 == a && (v / 0x10000) % 0x100 == b && (v / 0x100) % 0x100 == c
        && v % 0x100 == d) by (bit_vector)
        requires
            v == a as u32 * 0x1000000 + b as u32 * 0x10000 + c as u32 * 0x100 + d as u32,
    ;
    assert(ip.spec_packed() == v as int);
}

} // verus!
