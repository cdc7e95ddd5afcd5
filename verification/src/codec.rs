//! Codecs between the schema types and the JSON value model: decoding hub
//! `/status` documents and new-session responses, and both directions for
//! WebDriver new-session request bodies, with a proof that a body survives
//! an encode/parse round trip.

use vstd::prelude::*;

use crate::json::{
    Json, JsonV, jv, jvs, jvm, jget, jget_from, spec_parse_json, spec_encode, parse_json,
    encode_json, lemma_json_round_trip, lemma_jv_arr, lemma_jv_obj, jget_exec, plain_nums,
};
use crate::schema::{
    NewSessionRequestCapability, NewSessionRequestCapabilities, NewSessionRequestBody, CapV, BodyV,
    opt_view, NewSessionResponse, NewSessionResponseValue, NewSessionResponseCapabilities, RespV,
    RespValueV, RespCapsV, HubStatusJSONSchema, HubStatusValueJSONSchema, HubStatusNodeJSONSchema,
    HubStatusOSInfoJSONSchema, HubStatusNodeSlotJSONSchema, HubStatusNodeSlotIDJSONSchema,
    HubStatusNodeSlotSessionJSONSchema, HubStatusNodeSlotSessionCapabilitiesJSONSchema,
    HubStatusStereotypeJSONSchema, StatusV, StatusValueV, NodeV, OsInfoV, SlotV, SlotIdV,
    SlotSessionV, SessionCapsV, StereoV,
};

verus! {

/// A required string member.
pub open spec fn str_field(ms: Seq<(Seq<char>, JsonV)>, k: Seq<char>) -> Option<Seq<char>> {
    match jget(ms, k) {
        Some(JsonV::Str(s)) => Some(s),
        _ => None,
    }
}

/// An optional string member: absent or null both mean "not given"; any
/// other non-string value is an error.
pub open spec fn opt_str_field(ms: Seq<(Seq<char>, JsonV)>, k: Seq<char>) -> Option<
    Option<Seq<char>>,
> {
    match jget(ms, k) {
        None => Some(None),
        Some(JsonV::Null) => Some(None),
        Some(JsonV::Str(s)) => Some(Some(s)),
        Some(_) => None,
    }
}

/// An optional boolean member, read like `opt_str_field`.
pub open spec fn opt_bool_field(ms: Seq<(Seq<char>, JsonV)>, k: Seq<char>) -> Option<Option<bool>> {
    match jget(ms, k) {
        None => Some(None),
        Some(JsonV::Null) => Some(None),
        Some(JsonV::Bool(b)) => Some(Some(b)),
        Some(_) => None,
    }
}

/// Executable required string member.
pub fn get_str(ms: &Vec<(String, Json)>, k: &str) -> (r: Option<String>)
    ensures
        match r {
            Some(s) => str_field(jvm(ms@), k@) == Some(s@),
            None => str_field(jvm(ms@), k@) is None,
        },
{
    match jget_exec(ms, k) {
        Some(Json::Str(s)) => Some(s.clone()),
        _ => None,
    }
}

/// Executable optional string member.
pub fn get_opt_str(ms: &Vec<(String, Json)>, k: &str) -> (r: Option<Option<String>>)
    ensures
        match r {
            Some(o) => opt_str_field(jvm(ms@), k@) == Some(opt_view(o)),
            None => opt_str_field(jvm(ms@), k@) is None,
        },
{
    match jget_exec(ms, k) {
        None => Some(None),
        Some(Json::Null) => Some(None),
        Some(Json::Str(s)) => Some(Some(s.clone())),
        Some(_) => None,
    }
}

/// Executable optional boolean member.
pub fn get_opt_bool(ms: &Vec<(String, Json)>, k: &str) -> (r: Option<Option<bool>>)
    ensures
        match r {
            Some(o) => opt_bool_field(jvm(ms@), k@) == Some(o),
            None => opt_bool_field(jvm(ms@), k@) is None,
        },
{
    match jget_exec(ms, k) {
        None => Some(None),
        Some(Json::Null) => Some(None),
        Some(Json::Bool(b)) => Some(Some(*b)),
        Some(_) => None,
    }
}

/// The JSON form of a capability matcher: present fields only, browser
/// first.
pub open spec fn spec_cap_json(c: CapV) -> JsonV {
    JsonV::Obj(
        (match c.browser {
            Some(b) => seq![("browserName"@, JsonV::Str(b))],
            None => Seq::empty(),
        }) + (match c.platform {
            Some(p) => seq![("platformName"@, JsonV::Str(p))],
            None => Seq::empty(),
        }),
    )
}

/// Reading a capability matcher out of a JSON value.
pub open spec fn spec_cap_of(v: JsonV) -> Option<CapV> {
    match v {
        JsonV::Obj(ms) => match (opt_str_field(ms, "browserName"@), opt_str_field(
            ms,
            "platformName"@,
        )) {
            (Some(b), Some(p)) => Some(CapV { browser: b, platform: p }),
            _ => None,
        },
        _ => None,
    }
}

/// Reading a list of capability matchers, from position `i` on.
pub open spec fn spec_caps_list_of(es: Seq<JsonV>, i: int) -> Option<Seq<CapV>>
    decreases es.len() - i,
{
    if i >= es.len() || i < 0 {
        Some(Seq::empty())
    } else {
        match spec_cap_of(es[i]) {
            None => None,
            Some(c) => match spec_caps_list_of(es, i + 1) {
                Some(r) => Some(seq![c] + r),
                None => None,
            },
        }
    }
}

/// The JSON form of a new-session body.
pub open spec fn spec_body_json(b: BodyV) -> JsonV {
    JsonV::Obj(
        seq![
            (
                "capabilities"@,
                JsonV::Obj(
                    seq![
                        ("alwaysMatch"@, spec_cap_json(b.always_match)),
                        ("firstMatch"@, JsonV::Arr(b.first_match.map_values(|c: CapV| spec_cap_json(c)))),
                    ],
                ),
            ),
        ],
    )
}

/// Reading a new-session body out of a JSON value.
pub open spec fn spec_body_of(v: JsonV) -> Option<BodyV> {
    match v {
        JsonV::Obj(ms) => match jget(ms, "capabilities"@) {
            Some(JsonV::Obj(cms)) => {
                let am = match jget(cms, "alwaysMatch"@) {
                    Some(av) => spec_cap_of(av),
                    None => None,
                };
                let fm = match jget(cms, "firstMatch"@) {
                    Some(JsonV::Arr(es)) => spec_caps_list_of(es, 0),
                    _ => None,
                };
                match (am, fm) {
                    (Some(a), Some(f)) => Some(BodyV { always_match: a, first_match: f }),
                    _ => None,
                }
            },
            _ => None,
        },
        _ => None,
    }
}

/// The JSON value of a capability matcher.
pub fn cap_to_json(c: &NewSessionRequestCapability) -> (r: Json)
    ensures
        jv(r) == spec_cap_json(c@),
{
    let mut ms: Vec<(String, Json)> = Vec::new();
    match &c.browserName {
        Some(b) => {
            ms.push(("browserName".to_owned(), Json::Str(b.clone())));
        },
        None => {},
    }
    match &c.platformName {
        Some(p) => {
            ms.push(("platformName".to_owned(), Json::Str(p.clone())));
        },
        None => {},
    }
    let r = Json::Obj(ms);
    proof {
        match &r {
            Json::Obj(v) => {
                lemma_jv_obj(*v);
                assert(jvm(v@) =~= spec_cap_json(c@)->Obj_0);
            },
            _ => {},
        }
    }
    r
}

/// The JSON value of a new-session body.
pub fn body_to_json(b: &NewSessionRequestBody) -> (r: Json)
    ensures
        jv(r) == spec_body_json(b@),
{
    let mut fm: Vec<Json> = Vec::new();
    let n = b.capabilities.firstMatch.len();
    for i in 0..n
        invariant
            n == b.capabilities.firstMatch.len(),
            fm.len() == i,
            forall|q: int| 0 <= q < i ==> jv(#[trigger] fm@[q]) == spec_cap_json(
                b.capabilities.firstMatch@[q]@,
            ),
    {
        fm.push(cap_to_json(&b.capabilities.firstMatch[i]));
    }
    proof {
        assert(jvs(fm@) =~= b@.first_match.map_values(|c: CapV| spec_cap_json(c))) by {
            assert forall|q: int| 0 <= q < n implies jvs(fm@)[q] == b@.first_match.map_values(
                |c: CapV| spec_cap_json(c),
            )[q] by {
                assert(jvs(fm@)[q] == jv(fm@[q]));
                assert(b@.first_match[q] == b.capabilities.firstMatch@[q]@);
            }
        }
    }
    let am = cap_to_json(&b.capabilities.alwaysMatch);
    let ghost gfm = fm@;
    let fm_json = Json::Arr(fm);
    proof {
        match &fm_json {
            Json::Arr(v) => {
                lemma_jv_arr(*v);
                assert(jvs(v@) =~= b@.first_match.map_values(|c: CapV| spec_cap_json(c)));
            },
            _ => {},
        }
        assert(jv(fm_json) == JsonV::Arr(b@.first_match.map_values(|c: CapV| spec_cap_json(c))));
    }
    let mut cms: Vec<(String, Json)> = Vec::new();
    cms.push(("alwaysMatch".to_owned(), am));
    cms.push(("firstMatch".to_owned(), fm_json));
    let caps = Json::Obj(cms);
    proof {
        match &caps {
            Json::Obj(v) => {
                lemma_jv_obj(*v);
                assert(jvm(v@) =~= spec_body_json(b@)->Obj_0[0].1->Obj_0);
            },
            _ => {},
        }
    }
    let mut ms: Vec<(String, Json)> = Vec::new();
    ms.push(("capabilities".to_owned(), caps));
    let r = Json::Obj(ms);
    proof {
        match &r {
            Json::Obj(v) => {
                lemma_jv_obj(*v);
                assert(jvm(v@) =~= spec_body_json(b@)->Obj_0);
            },
            _ => {},
        }
    }
    r
}

/// Encode a new-session body in its canonical JSON form.
pub fn encode_new_session_body(b: &NewSessionRequestBody) -> (r: String)
    ensures
        r@ == spec_encode(spec_body_json(b@)),
{
    let j = body_to_json(b);
    encode_json(&j)
}

/// Read a capability matcher from an in-memory JSON value.
pub fn decode_cap(j: &Json) -> (r: Option<NewSessionRequestCapability>)
    ensures
        match r {
            Some(c) => spec_cap_of(jv(*j)) == Some(c@),
            None => spec_cap_of(jv(*j)) is None,
        },
{
    match j {
        Json::Obj(ms) => {
            proof {
                lemma_jv_obj(*ms);
            }
            let b = match get_opt_str(ms, "browserName") {
                Some(o) => o,
                None => {
                    return None;
                },
            };
            let p = match get_opt_str(ms, "platformName") {
                Some(o) => o,
                None => {
                    return None;
                },
            };
            Some(NewSessionRequestCapability { browserName: b, platformName: p })
        },
        _ => None,
    }
}

/// Read a list of capability matchers from position `i` on.
fn decode_caps_list(es: &Vec<Json>, i: usize) -> (r: Option<Vec<NewSessionRequestCapability>>)
    requires
        i <= es.len(),
    ensures
        match r {
            Some(v) => spec_caps_list_of(jvs(es@), i as int) == Some(
                v@.map_values(|c: NewSessionRequestCapability| c@),
            ),
            None => spec_caps_list_of(jvs(es@), i as int) is None,
        },
    decreases es.len() - i,
{
    if i == es.len() {
        let v: Vec<NewSessionRequestCapability> = Vec::new();
        proof {
            assert(v@.map_values(|c: NewSessionRequestCapability| c@) =~= Seq::<CapV>::empty());
        }
        return Some(v);
    }
    proof {
        assert(jvs(es@)[i as int] == jv(es@[i as int]));
    }
    match decode_cap(&es[i]) {
        None => None,
        Some(c) => match decode_caps_list(es, i + 1) {
            None => None,
            Some(mut v) => {
                let ghost oldv = v@;
                v.insert(0, c);
                proof {
                    assert(v@ =~= seq![c] + oldv);
                    assert(v@.map_values(|x: NewSessionRequestCapability| x@) =~= seq![c@]
                        + oldv.map_values(|x: NewSessionRequestCapability| x@));
                }
                Some(v)
            },
        },
    }
}

/// Read a new-session body from an in-memory JSON value.
pub fn decode_new_session_body(j: &Json) -> (r: Option<NewSessionRequestBody>)
    ensures
        match r {
            Some(b) => spec_body_of(jv(*j)) == Some(b@),
            None => spec_body_of(jv(*j)) is None,
        },
{
    match j {
        Json::Obj(ms) => {
            proof {
                lemma_jv_obj(*ms);
            }
            match jget_exec(ms, "capabilities") {
                Some(Json::Obj(cms)) => {
                    proof {
                        lemma_jv_obj(*cms);
                    }
                    let am = match jget_exec(cms, "alwaysMatch") {
                        Some(av) => match decode_cap(av) {
                            Some(c) => c,
                            None => {
                                return None;
                            },
                        },
                        None => {
                            return None;
                        },
                    };
                    let fm = match jget_exec(cms, "firstMatch") {
                        Some(Json::Arr(es)) => {
                            proof {
                                lemma_jv_arr(*es);
                            }
                            match decode_caps_list(es, 0) {
                                Some(v) => v,
                                None => {
                                    return None;
                                },
                            }
                        },
                        _ => {
                            return None;
                        },
                    };
                    Some(
                        NewSessionRequestBody {
                            capabilities: NewSessionRequestCapabilities {
                                alwaysMatch: am,
                                firstMatch: fm,
                            },
                        },
                    )
                },
                _ => None,
            }
        },
        _ => None,
    }
}

/// Parse a WebDriver new-session body from raw text.
pub fn parse_new_session_body(s: &str) -> (r: Option<NewSessionRequestBody>)
    ensures
        match r {
            Some(b) => (match spec_parse_json(s@) {
                Some(v) => spec_body_of(v) == Some(b@),
                None => false,
            }),
            None => (match spec_parse_json(s@) {
                Some(v) => spec_body_of(v) is None,
                None => true,
            }),
        },
{
    match parse_json(s) {
        Some(j) => decode_new_session_body(&j),
        None => None,
    }
}

/// Keys of distinct spelling are distinct.
proof fn lemma_body_keys_distinct()
    ensures
        "browserName"@ != "platformName"@,
        "alwaysMatch"@ != "firstMatch"@,
{
    reveal_strlit("browserName");
    reveal_strlit("platformName");
    reveal_strlit("alwaysMatch");
    reveal_strlit("firstMatch");
    assert("browserName"@.len() == 11);
    assert("platformName"@.len() == 12);
    assert("alwaysMatch"@.len() == 11);
    assert("firstMatch"@.len() == 10);
}

/// The canonical JSON form of a capability matcher holds no number tokens.
proof fn lemma_plain_cap_json(c: CapV)
    ensures
        plain_nums(spec_cap_json(c)),
{
    let ms = spec_cap_json(c)->Obj_0;
    assert forall|i: int| 0 <= i < ms.len() implies plain_nums((#[trigger] ms[i]).1) by {
        assert(ms[i].1 is Str);
    }
}

/// The canonical JSON form of a new-session body holds no number tokens.
proof fn lemma_plain_body_json(b: BodyV)
    ensures
        plain_nums(spec_body_json(b)),
{
    let fmj = b.first_match.map_values(|x: CapV| spec_cap_json(x));
    assert forall|i: int| 0 <= i < fmj.len() implies plain_nums(#[trigger] fmj[i]) by {
        lemma_plain_cap_json(b.first_match[i]);
        assert(fmj[i] == spec_cap_json(b.first_match[i]));
    }
    let caps = JsonV::Obj(
        seq![("alwaysMatch"@, spec_cap_json(b.always_match)), ("firstMatch"@, JsonV::Arr(fmj))],
    );
    lemma_plain_cap_json(b.always_match);
    assert forall|i: int| 0 <= i < caps->Obj_0.len() implies plain_nums(
        (#[trigger] caps->Obj_0[i]).1,
    ) by {
        if i == 0 {
            assert(caps->Obj_0[i].1 == spec_cap_json(b.always_match));
        } else {
            assert(caps->Obj_0[i].1 == JsonV::Arr(fmj));
        }
    }
    let ms = spec_body_json(b)->Obj_0;
    assert forall|i: int| 0 <= i < ms.len() implies plain_nums((#[trigger] ms[i]).1) by {
        assert(ms[i].1 == caps);
    }
}

/// Reading back the canonical JSON form of a capability matcher gives the
/// matcher.
proof fn lemma_cap_codec(c: CapV)
    ensures
        spec_cap_of(spec_cap_json(c)) == Some(c),
{
    lemma_body_keys_distinct();
    reveal_with_fuel(jget_from, 4);
    let ms = spec_cap_json(c)->Obj_0;
    match (c.browser, c.platform) {
        (None, None) => {
            assert(ms.len() == 0);
            assert(jget(ms, "browserName"@) is None);
            assert(jget(ms, "platformName"@) is None);
        },
        (Some(b), None) => {
            assert(ms =~= seq![("browserName"@, JsonV::Str(b))]);
            assert(jget(ms, "browserName"@) == Some(JsonV::Str(b)));
            assert(jget(ms, "platformName"@) is None);
        },
        (None, Some(p)) => {
            assert(ms =~= seq![("platformName"@, JsonV::Str(p))]);
            assert(jget(ms, "browserName"@) is None);
            assert(jget(ms, "platformName"@) == Some(JsonV::Str(p)));
        },
        (Some(b), Some(p)) => {
            assert(ms =~= seq![("browserName"@, JsonV::Str(b)), ("platformName"@, JsonV::Str(p))]);
            assert(jget(ms, "browserName"@) == Some(JsonV::Str(b)));
            assert(jget(ms, "platformName"@) == Some(JsonV::Str(p)));
        },
    }
    assert(spec_cap_of(spec_cap_json(c)) == Some(CapV { browser: c.browser, platform: c.platform }));
    assert(CapV { browser: c.browser, platform: c.platform } == c);
}

/// Reading back a canonical list of capability matchers gives the list.
proof fn lemma_caps_list_codec(cs: Seq<CapV>, i: int)
    requires
        0 <= i <= cs.len(),
    ensures
        spec_caps_list_of(cs.map_values(|c: CapV| spec_cap_json(c)), i) == Some(
            cs.subrange(i, cs.len() as int),
        ),
    decreases cs.len() - i,
{
    let es = cs.map_values(|c: CapV| spec_cap_json(c));
    if i == cs.len() {
        assert(cs.subrange(i, cs.len() as int) =~= Seq::<CapV>::empty());
    } else {
        lemma_cap_codec(cs[i]);
        assert(es[i] == spec_cap_json(cs[i]));
        lemma_caps_list_codec(cs, i + 1);
        assert(seq![cs[i]] + cs.subrange(i + 1, cs.len() as int) =~= cs.subrange(
            i,
            cs.len() as int,
        ));
    }
}

/// Encoding a new-session body and parsing the result gives the body back:
/// the parse of the canonical encoding succeeds, and reading the parsed
/// JSON as a body yields the original value.
pub proof fn lemma_new_session_body_round_trip(b: BodyV)
    ensures
        spec_parse_json(spec_encode(spec_body_json(b))) == Some(spec_body_json(b)),
        spec_body_of(spec_body_json(b)) == Some(b),
{
    lemma_plain_body_json(b);
    lemma_json_round_trip(spec_body_json(b));
    lemma_body_keys_distinct();
    reveal_with_fuel(jget_from, 4);
    let bj = spec_body_json(b);
    let ms = bj->Obj_0;
    let caps = JsonV::Obj(
        seq![
            ("alwaysMatch"@, spec_cap_json(b.always_match)),
            ("firstMatch"@, JsonV::Arr(b.first_match.map_values(|c: CapV| spec_cap_json(c)))),
        ],
    );
    assert(ms == seq![("capabilities"@, caps)]);
    assert(jget(ms, "capabilities"@) == Some(caps));
    let cms = caps->Obj_0;
    assert(jget(cms, "alwaysMatch"@) == Some(spec_cap_json(b.always_match)));
    assert("firstMatch"@ != "alwaysMatch"@);
    assert(jget(cms, "firstMatch"@) == Some(
        JsonV::Arr(b.first_match.map_values(|c: CapV| spec_cap_json(c))),
    ));
    lemma_cap_codec(b.always_match);
    lemma_caps_list_codec(b.first_match, 0);
    assert(b.first_match.subrange(0, b.first_match.len() as int) =~= b.first_match);
    assert(spec_body_of(bj) == Some(BodyV { always_match: b.always_match, first_match: b.first_match }));
    assert(BodyV { always_match: b.always_match, first_match: b.first_match } == b);
}

/// Reading a stereotype out of a JSON value.
pub open spec fn spec_stereo_of(v: JsonV) -> Option<StereoV> {
    match v {
        JsonV::Obj(ms) => match (str_field(ms, "browserName"@), str_field(ms, "platformName"@)) {
            (Some(b), Some(p)) => Some(StereoV { browser: b, platform: p }),
            _ => None,
        },
        _ => None,
    }
}

/// Reading a slot-session capability block out of a JSON value.
pub open spec fn spec_sess_caps_of(v: JsonV) -> Option<SessionCapsV> {
    match v {
        JsonV::Obj(ms) => match (opt_bool_field(ms, "acceptInsecureCerts"@), opt_str_field(
            ms,
            "browserName"@,
        ), opt_str_field(ms, "browserVersion"@)) {
            (Some(a), Some(b), Some(w)) => Some(
                SessionCapsV { accept_insecure_certs: a, browser: b, browser_version: w },
            ),
            _ => None,
        },
        _ => None,
    }
}

/// Reading a running slot session out of a JSON value.
pub open spec fn spec_sess_of(v: JsonV) -> Option<SlotSessionV> {
    match v {
        JsonV::Obj(ms) => {
            let caps = match jget(ms, "capabilities"@) {
                None => Some(None),
                Some(JsonV::Null) => Some(None),
                Some(cv) => match spec_sess_caps_of(cv) {
                    Some(c) => Some(Some(c)),
                    None => None,
                },
            };
            let st = match jget(ms, "stereotype"@) {
                Some(sv) => spec_stereo_of(sv),
                None => None,
            };
            match (caps, str_field(ms, "sessionId"@), str_field(ms, "start"@), st, str_field(
                ms,
                "uri"@,
            )) {
                (Some(c), Some(sid), Some(start), Some(stv), Some(uri)) => Some(
                    SlotSessionV {
                        capabilities: c,
                        session_id: sid,
                        start: start,
                        stereotype: stv,
                        uri: uri,
                    },
                ),
                _ => None,
            }
        },
        _ => None,
    }
}

/// Reading a slot identifier out of a JSON value.
pub open spec fn spec_slot_id_of(v: JsonV) -> Option<SlotIdV> {
    match v {
        JsonV::Obj(ms) => match (str_field(ms, "hostId"@), str_field(ms, "id"@)) {
            (Some(h), Some(i)) => Some(SlotIdV { host_id: h, id: i }),
            _ => None,
        },
        _ => None,
    }
}

/// Reading a slot out of a JSON value.
pub open spec fn spec_slot_of(v: JsonV) -> Option<SlotV> {
    match v {
        JsonV::Obj(ms) => {
            let id = match jget(ms, "id"@) {
                Some(iv) => spec_slot_id_of(iv),
                None => None,
            };
            let sess = match jget(ms, "session"@) {
                None => Some(None),
                Some(JsonV::Null) => Some(None),
                Some(sv) => match spec_sess_of(sv) {
                    Some(x) => Some(Some(x)),
                    None => None,
                },
            };
            let st = match jget(ms, "stereotype"@) {
                Some(sv) => spec_stereo_of(sv),
                None => None,
            };
            match (id, str_field(ms, "lastStarted"@), sess, st) {
                (Some(i), Some(ls), Some(se), Some(stv)) => Some(
                    SlotV { id: i, last_started: ls, session: se, stereotype: stv },
                ),
                _ => None,
            }
        },
        _ => None,
    }
}

/// Reading a list of slots, from position `i` on.
pub open spec fn spec_slots_of(es: Seq<JsonV>, i: int) -> Option<Seq<SlotV>>
    decreases es.len() - i,
{
    if i >= es.len() || i < 0 {
        Some(Seq::empty())
    } else {
        match spec_slot_of(es[i]) {
            None => None,
            Some(x) => match spec_slots_of(es, i + 1) {
                Some(r) => Some(seq![x] + r),
                None => None,
            },
        }
    }
}

/// Reading a node's operating-system block out of a JSON value.
pub open spec fn spec_os_of(v: JsonV) -> Option<OsInfoV> {
    match v {
        JsonV::Obj(ms) => match (str_field(ms, "arch"@), str_field(ms, "name"@), str_field(
            ms,
            "version"@,
        )) {
            (Some(a), Some(n), Some(ve)) => Some(OsInfoV { arch: a, name: n, version: ve }),
            _ => None,
        },
        _ => None,
    }
}

/// Reading a grid node out of a JSON value.
pub open spec fn spec_node_of(v: JsonV) -> Option<NodeV> {
    match v {
        JsonV::Obj(ms) => {
            let max = match jget(ms, "maxSessions"@) {
                Some(JsonV::Num(n)) => if n <= u32::MAX {
                    Some(n as u32)
                } else {
                    None
                },
                _ => None,
            };
            let os = match jget(ms, "osInfo"@) {
                Some(ov) => spec_os_of(ov),
                None => None,
            };
            let slots = match jget(ms, "slots"@) {
                Some(JsonV::Arr(es)) => spec_slots_of(es, 0),
                _ => None,
            };
            match (str_field(ms, "id"@), str_field(ms, "uri"@), max, os, str_field(
                ms,
                "availability"@,
            ), str_field(ms, "version"@), slots) {
                (Some(i), Some(u), Some(m), Some(o), Some(a), Some(ve), Some(sl)) => Some(
                    NodeV {
                        id: i,
                        uri: u,
                        max_sessions: m,
                        os_info: o,
                        availability: a,
                        version: ve,
                        slots: sl,
                    },
                ),
                _ => None,
            }
        },
        _ => None,
    }
}

/// Reading a list of nodes, from position `i` on.
pub open spec fn spec_nodes_of(es: Seq<JsonV>, i: int) -> Option<Seq<NodeV>>
    decreases es.len() - i,
{
    if i >= es.len() || i < 0 {
        Some(Seq::empty())
    } else {
        match spec_node_of(es[i]) {
            None => None,
            Some(x) => match spec_nodes_of(es, i + 1) {
                Some(r) => Some(seq![x] + r),
                None => None,
            },
        }
    }
}

/// Reading a whole `/status` document out of a JSON value.
pub open spec fn spec_status_of(v: JsonV) -> Option<StatusV> {
    match v {
        JsonV::Obj(ms) => match jget(ms, "value"@) {
            Some(JsonV::Obj(vms)) => {
                let ready = match jget(vms, "ready"@) {
                    Some(JsonV::Bool(b)) => Some(b),
                    _ => None,
                };
                let nodes = match jget(vms, "nodes"@) {
                    Some(JsonV::Arr(es)) => spec_nodes_of(es, 0),
                    _ => None,
                };
                match (ready, str_field(vms, "message"@), nodes) {
                    (Some(r), Some(m), Some(ns)) => Some(
                        StatusV { value: StatusValueV { ready: r, message: m, nodes: ns } },
                    ),
                    _ => None,
                }
            },
            _ => None,
        },
        _ => None,
    }
}

/// Read a stereotype from an in-memory JSON value.
fn decode_stereo(j: &Json) -> (r: Option<HubStatusStereotypeJSONSchema>)
    ensures
        match r {
            Some(x) => spec_stereo_of(jv(*j)) == Some(x@),
            None => spec_stereo_of(jv(*j)) is None,
        },
{
    match j {
        Json::Obj(ms) => {
            proof {
                lemma_jv_obj(*ms);
            }
            let b = match get_str(ms, "browserName") {
                Some(x) => x,
                None => {
                    return None;
                },
            };
            let p = match get_str(ms, "platformName") {
                Some(x) => x,
                None => {
                    return None;
                },
            };
            Some(HubStatusStereotypeJSONSchema { browserName: b, platformName: p })
        },
        _ => None,
    }
}

/// Read a slot-session capability block from an in-memory JSON value.
fn decode_sess_caps(j: &Json) -> (r: Option<HubStatusNodeSlotSessionCapabilitiesJSONSchema>)
    ensures
        match r {
            Some(x) => spec_sess_caps_of(jv(*j)) == Some(x@),
            None => spec_sess_caps_of(jv(*j)) is None,
        },
{
    match j {
        Json::Obj(ms) => {
            proof {
                lemma_jv_obj(*ms);
            }
            let a = match get_opt_bool(ms, "acceptInsecureCerts") {
                Some(x) => x,
                None => {
                    return None;
                },
            };
            let b = match get_opt_str(ms, "browserName") {
                Some(x) => x,
                None => {
                    return None;
                },
            };
            let w = match get_opt_str(ms, "browserVersion") {
                Some(x) => x,
                None => {
                    return None;
                },
            };
            Some(
                HubStatusNodeSlotSessionCapabilitiesJSONSchema {
                    acceptInsecureCerts: a,
                    browserName: b,
                    browserVersion: w,
                },
            )
        },
        _ => None,
    }
}

/// Read a running slot session from an in-memory JSON value.
fn decode_sess(j: &Json) -> (r: Option<HubStatusNodeSlotSessionJSONSchema>)
    ensures
        match r {
            Some(x) => spec_sess_of(jv(*j)) == Some(x@),
            None => spec_sess_of(jv(*j)) is None,
        },
{
    match j {
        Json::Obj(ms) => {
            proof {
                lemma_jv_obj(*ms);
            }
            let caps = match jget_exec(ms, "capabilities") {
                None => None,
                Some(Json::Null) => None,
                Some(cv) => match decode_sess_caps(cv) {
                    Some(c) => Some(c),
                    None => {
                        return None;
                    },
                },
            };
            let sid = match get_str(ms, "sessionId") {
                Some(x) => x,
                None => {
                    return None;
                },
            };
            let start = match get_str(ms, "start") {
                Some(x) => x,
                None => {
                    return None;
                },
            };
            let st = match jget_exec(ms, "stereotype") {
                Some(sv) => match decode_stereo(sv) {
                    Some(x) => x,
                    None => {
                        return None;
                    },
                },
                None => {
                    return None;
                },
            };
            let uri = match get_str(ms, "uri") {
                Some(x) => x,
                None => {
                    return None;
                },
            };
            Some(
                HubStatusNodeSlotSessionJSONSchema {
                    capabilities: caps,
                    sessionId: sid,
                    start: start,
                    stereotype: st,
                    uri: uri,
                },
            )
        },
        _ => None,
    }
}

/// Read a slot identifier from an in-memory JSON value.
fn decode_slot_id(j: &Json) -> (r: Option<HubStatusNodeSlotIDJSONSchema>)
    ensures
        match r {
            Some(x) => spec_slot_id_of(jv(*j)) == Some(x@),
            None => spec_slot_id_of(jv(*j)) is None,
        },
{
    match j {
        Json::Obj(ms) => {
            proof {
                lemma_jv_obj(*ms);
            }
            let h = match get_str(ms, "hostId") {
                Some(x) => x,
                None => {
                    return None;
                },
            };
            let i = match get_str(ms, "id") {
                Some(x) => x,
                None => {
                    return None;
                },
            };
            Some(HubStatusNodeSlotIDJSONSchema { hostId: h, id: i })
        },
        _ => None,
    }
}

/// Read a slot from an in-memory JSON value.
fn decode_slot(j: &Json) -> (r: Option<HubStatusNodeSlotJSONSchema>)
    ensures
        match r {
            Some(x) => spec_slot_of(jv(*j)) == Some(x@),
            None => spec_slot_of(jv(*j)) is None,
        },
{
    match j {
        Json::Obj(ms) => {
            proof {
                lemma_jv_obj(*ms);
            }
            let id = match jget_exec(ms, "id") {
                Some(iv) => match decode_slot_id(iv) {
                    Some(x) => x,
                    None => {
                        return None;
                    },
                },
                None => {
                    return None;
                },
            };
            let ls = match get_str(ms, "lastStarted") {
                Some(x) => x,
                None => {
                    return None;
                },
            };
            let sess = match jget_exec(ms, "session") {
                None => None,
                Some(Json::Null) => None,
                Some(sv) => match decode_sess(sv) {
                    Some(x) => Some(x),
                    None => {
                        return None;
                    },
                },
            };
            let st = match jget_exec(ms, "stereotype") {
                Some(sv) => match decode_stereo(sv) {
                    Some(x) => x,
                    None => {
                        return None;
                    },
                },
                None => {
                    return None;
                },
            };
            Some(
                HubStatusNodeSlotJSONSchema { id: id, lastStarted: ls, session: sess, stereotype: st },
            )
        },
        _ => None,
    }
}

/// Read a list of slots from position `i` on.
fn decode_slots(es: &Vec<Json>, i: usize) -> (r: Option<Vec<HubStatusNodeSlotJSONSchema>>)
    requires
        i <= es.len(),
    ensures
        match r {
            Some(v) => spec_slots_of(jvs(es@), i as int) == Some(
                v@.map_values(|x: HubStatusNodeSlotJSONSchema| x@),
            ),
            None => spec_slots_of(jvs(es@), i as int) is None,
        },
    decreases es.len() - i,
{
    if i == es.len() {
        let v: Vec<HubStatusNodeSlotJSONSchema> = Vec::new();
        proof {
            assert(v@.map_values(|x: HubStatusNodeSlotJSONSchema| x@) =~= Seq::<SlotV>::empty());
        }
        return Some(v);
    }
    proof {
        assert(jvs(es@)[i as int] == jv(es@[i as int]));
    }
    match decode_slot(&es[i]) {
        None => None,
        Some(x) => match decode_slots(es, i + 1) {
            None => None,
            Some(mut v) => {
                let ghost oldv = v@;
                v.insert(0, x);
                proof {
                    assert(v@ =~= seq![x] + oldv);
                    assert(v@.map_values(|y: HubStatusNodeSlotJSONSchema| y@) =~= seq![x@]
                        + oldv.map_values(|y: HubStatusNodeSlotJSONSchema| y@));
                }
                Some(v)
            },
        },
    }
}

/// Read a node's operating-system block from an in-memory JSON value.
fn decode_os(j: &Json) -> (r: Option<HubStatusOSInfoJSONSchema>)
    ensures
        match r {
            Some(x) => spec_os_of(jv(*j)) == Some(x@),
            None => spec_os_of(jv(*j)) is None,
        },
{
    match j {
        Json::Obj(ms) => {
            proof {
                lemma_jv_obj(*ms);
            }
            let a = match get_str(ms, "arch") {
                Some(x) => x,
                None => {
                    return None;
                },
            };
            let n = match get_str(ms, "name") {
                Some(x) => x,
                None => {
                    return None;
                },
            };
            let ve = match get_str(ms, "version") {
                Some(x) => x,
                None => {
                    return None;
                },
            };
            Some(HubStatusOSInfoJSONSchema { arch: a, name: n, version: ve })
        },
        _ => None,
    }
}

/// Read a grid node from an in-memory JSON value.
fn decode_node(j: &Json) -> (r: Option<HubStatusNodeJSONSchema>)
    ensures
        match r {
            Some(x) => spec_node_of(jv(*j)) == Some(x@),
            None => spec_node_of(jv(*j)) is None,
        },
{
    match j {
        Json::Obj(ms) => {
            proof {
                lemma_jv_obj(*ms);
            }
            let max: u32 = match jget_exec(ms, "maxSessions") {
                Some(Json::Num(n)) => {
                    if *n <= 0xffff_ffff as u64 {
                        *n as u32
                    } else {
                        return None;
                    }
                },
                _ => {
                    return None;
                },
            };
            let os = match jget_exec(ms, "osInfo") {
                Some(ov) => match decode_os(ov) {
                    Some(x) => x,
                    None => {
                        return None;
                    },
                },
                None => {
                    return None;
                },
            };
            let slots = match jget_exec(ms, "slots") {
                Some(Json::Arr(es)) => {
                    proof {
                        lemma_jv_arr(*es);
                    }
                    match decode_slots(es, 0) {
                        Some(v) => v,
                        None => {
                            return None;
                        },
                    }
                },
                _ => {
                    return None;
                },
            };
            let id = match get_str(ms, "id") {
                Some(x) => x,
                None => {
                    return None;
                },
            };
            let uri = match get_str(ms, "uri") {
                Some(x) => x,
                None => {
                    return None;
                },
            };
            let av = match get_str(ms, "availability") {
                Some(x) => x,
                None => {
                    return None;
                },
            };
            let ve = match get_str(ms, "version") {
                Some(x) => x,
                None => {
                    return None;
                },
            };
            Some(
                HubStatusNodeJSONSchema {
                    id: id,
                    uri: uri,
                    maxSessions: max,
                    osInfo: os,
                    availability: av,
                    version: ve,
                    slots: slots,
                },
            )
        },
        _ => None,
    }
}

/// Read a list of nodes from position `i` on.
fn decode_nodes(es: &Vec<Json>, i: usize) -> (r: Option<Vec<HubStatusNodeJSONSchema>>)
    requires
        i <= es.len(),
    ensures
        match r {
            Some(v) => spec_nodes_of(jvs(es@), i as int) == Some(
                v@.map_values(|x: HubStatusNodeJSONSchema| x@),
            ),
            None => spec_nodes_of(jvs(es@), i as int) is None,
        },
    decreases es.len() - i,
{
    if i == es.len() {
        let v: Vec<HubStatusNodeJSONSchema> = Vec::new();
        proof {
            assert(v@.map_values(|x: HubStatusNodeJSONSchema| x@) =~= Seq::<NodeV>::empty());
        }
        return Some(v);
    }
    proof {
        assert(jvs(es@)[i as int] == jv(es@[i as int]));
    }
    match decode_node(&es[i]) {
        None => None,
        Some(x) => match decode_nodes(es, i + 1) {
            None => None,
            Some(mut v) => {
                let ghost oldv = v@;
                v.insert(0, x);
                proof {
                    assert(v@ =~= seq![x] + oldv);
                    assert(v@.map_values(|y: HubStatusNodeJSONSchema| y@) =~= seq![x@]
                        + oldv.map_values(|y: HubStatusNodeJSONSchema| y@));
                }
                Some(v)
            },
        },
    }
}

/// Read a whole `/status` document from an in-memory JSON value.
pub fn decode_status(j: &Json) -> (r: Option<HubStatusJSONSchema>)
    ensures
        match r {
            Some(x) => spec_status_of(jv(*j)) == Some(x@),
            None => spec_status_of(jv(*j)) is None,
        },
{
    match j {
        Json::Obj(ms) => {
            proof {
                lemma_jv_obj(*ms);
            }
            match jget_exec(ms, "value") {
                Some(Json::Obj(vms)) => {
                    proof {
                        lemma_jv_obj(*vms);
                    }
                    let ready = match jget_exec(vms, "ready") {
                        Some(Json::Bool(b)) => *b,
                        _ => {
                            return None;
                        },
                    };
                    let msg = match get_str(vms, "message") {
                        Some(x) => x,
                        None => {
                            return None;
                        },
                    };
                    let nodes = match jget_exec(vms, "nodes") {
                        Some(Json::Arr(es)) => {
                            proof {
                                lemma_jv_arr(*es);
                            }
                            match decode_nodes(es, 0) {
                                Some(v) => v,
                                None => {
                                    return None;
                                },
                            }
                        },
                        _ => {
                            return None;
                        },
                    };
                    Some(
                        HubStatusJSONSchema {
                            value: HubStatusValueJSONSchema { ready: ready, message: msg, nodes: nodes },
                        },
                    )
                },
                _ => None,
            }
        },
        _ => None,
    }
}

/// Parse a hub `/status` document from raw text.
pub fn parse_status(s: &str) -> (r: Option<HubStatusJSONSchema>)
    ensures
        match r {
            Some(st) => (match spec_parse_json(s@) {
                Some(v) => spec_status_of(v) == Some(st@),
                None => false,
            }),
            None => (match spec_parse_json(s@) {
                Some(v) => spec_status_of(v) is None,
                None => true,
            }),
        },
{
    match parse_json(s) {
        Some(j) => decode_status(&j),
        None => None,
    }
}

/// Reading the capability block of a new-session response out of a JSON
/// value.
pub open spec fn spec_resp_caps_of(v: JsonV) -> Option<RespCapsV> {
    match v {
        JsonV::Obj(ms) => match (opt_bool_field(ms, "acceptInsecureCerts"@), opt_str_field(
            ms,
            "browserName"@,
        ), opt_str_field(ms, "browserVersion"@), opt_str_field(ms, "platformName"@)) {
            (Some(a), Some(b), Some(w), Some(p)) => Some(
                RespCapsV {
                    accept_insecure_certs: a,
                    browser: b,
                    browser_version: w,
                    platform: p,
                },
            ),
            _ => None,
        },
        _ => None,
    }
}

/// Reading a new-session response out of a JSON value.
pub open spec fn spec_resp_of(v: JsonV) -> Option<RespV> {
    match v {
        JsonV::Obj(ms) => match jget(ms, "value"@) {
            Some(JsonV::Obj(vms)) => {
                let caps = match jget(vms, "capabilities"@) {
                    Some(cv) => spec_resp_caps_of(cv),
                    None => None,
                };
                match (str_field(vms, "sessionId"@), caps) {
                    (Some(sid), Some(c)) => Some(
                        RespV { value: RespValueV { session_id: sid, capabilities: c } },
                    ),
                    _ => None,
                }
            },
            _ => None,
        },
        _ => None,
    }
}

/// Read a new-session response from an in-memory JSON value.
pub fn decode_new_session_response(j: &Json) -> (r: Option<NewSessionResponse>)
    ensures
        match r {
            Some(x) => spec_resp_of(jv(*j)) == Some(x@),
            None => spec_resp_of(jv(*j)) is None,
        },
{
    match j {
        Json::Obj(ms) => {
            proof {
                lemma_jv_obj(*ms);
            }
            match jget_exec(ms, "value") {
                Some(Json::Obj(vms)) => {
                    proof {
                        lemma_jv_obj(*vms);
                    }
                    let sid = match get_str(vms, "sessionId") {
                        Some(x) => x,
                        None => {
                            return None;
                        },
                    };
                    let caps = match jget_exec(vms, "capabilities") {
                        Some(cv) => {
                            let a = match cv {
                                Json::Obj(cms) => {
                                    proof {
                                        lemma_jv_obj(*cms);
                                    }
                                    let ai = match get_opt_bool(cms, "acceptInsecureCerts") {
                                        Some(x) => x,
                                        None => {
                                            return None;
                                        },
                                    };
                                    let b = match get_opt_str(cms, "browserName") {
                                        Some(x) => x,
                                        None => {
                                            return None;
                                        },
                                    };
                                    let w = match get_opt_str(cms, "browserVersion") {
                                        Some(x) => x,
                                        None => {
                                            return None;
                                        },
                                    };
                                    let p = match get_opt_str(cms, "platformName") {
                                        Some(x) => x,
                                        None => {
                                            return None;
                                        },
                                    };
                                    NewSessionResponseCapabilities {
                                        acceptInsecureCerts: ai,
                                        browserName: b,
                                        browserVersion: w,
                                        platformName: p,
                                    }
                                },
                                _ => {
                                    return None;
                                },
                            };
                            a
                        },
                        None => {
                            return None;
                        },
                    };
                    Some(
                        NewSessionResponse {
                            value: NewSessionResponseValue { sessionId: sid, capabilities: caps },
                        },
                    )
                },
                _ => None,
            }
        },
        _ => None,
    }
}

/// Parse a new-session response from raw text.
pub fn parse_new_session_response(s: &str) -> (r: Option<NewSessionResponse>)
    ensures
        match r {
            Some(x) => (match spec_parse_json(s@) {
                Some(v) => spec_resp_of(v) == Some(x@),
                None => false,
            }),
            None => (match spec_parse_json(s@) {
                Some(v) => spec_resp_of(v) is None,
                None => true,
            }),
        },
{
    match parse_json(s) {
        Some(j) => decode_new_session_response(&j),
        None => None,
    }
}

} // verus!
