//! The JSON shapes the proxy exchanges with Selenium hubs: the `/status`
//! document, the WebDriver new-session request and response bodies, and
//! capability matching over them.

use vstd::prelude::*;

use crate::strutil::eq_ignore_case;

verus! {

/// The model of an optional string.
pub open spec fn opt_view(o: Option<String>) -> Option<Seq<char>> {
    match o {
        Some(s) => Some(s@),
        None => None,
    }
}

/// A client capability matcher: absent fields are wildcards.
#[allow(non_snake_case)]
#[derive(Debug, Clone)]
pub struct NewSessionRequestCapability {
    pub browserName: Option<String>,
    pub platformName: Option<String>,
}

/// The model of a capability matcher.
pub ghost struct CapV {
    pub browser: Option<Seq<char>>,
    pub platform: Option<Seq<char>>,
}

impl View for NewSessionRequestCapability {
    type V = CapV;

    open spec fn view(&self) -> CapV {
        CapV { browser: opt_view(self.browserName), platform: opt_view(self.platformName) }
    }
}

/// Case-insensitive equality of optional strings.
pub open spec fn opt_eqi(a: Option<Seq<char>>, b: Option<Seq<char>>) -> bool {
    match (a, b) {
        (None, None) => true,
        (Some(x), Some(y)) => eq_ignore_case(x, y),
        _ => false,
    }
}

/// Whether the matcher `req` is satisfied by the capability key `k`: each
/// present field of `req` must equal the corresponding field of `k`,
/// ASCII-case-insensitively; absent fields match anything.
pub open spec fn cap_satisfied_by(req: CapV, k: CapV) -> bool {
    &&& match req.platform {
        None => true,
        Some(p) => match k.platform {
            Some(q) => eq_ignore_case(p, q),
            None => false,
        },
    }
    &&& match req.browser {
        None => true,
        Some(p) => match k.browser {
            Some(q) => eq_ignore_case(p, q),
            None => false,
        },
    }
}

/// The model of an optional capability matcher.
pub open spec fn opt_cap_view(o: Option<NewSessionRequestCapability>) -> Option<CapV> {
    match o {
        Some(c) => Some(c@),
        None => None,
    }
}

/// Case-insensitive equality of two capability keys.
pub open spec fn cap_eqi(a: CapV, b: CapV) -> bool {
    opt_eqi(a.browser, b.browser) && opt_eqi(a.platform, b.platform)
}

/// Executable case-insensitive comparison of optional strings.
pub fn opt_str_eqi(a: &Option<String>, b: &Option<String>) -> (r: bool)
    ensures
        r == opt_eqi(opt_view(*a), opt_view(*b)),
{
    match (a, b) {
        (None, None) => true,
        (Some(x), Some(y)) => crate::strutil::str_eq_ignore_case(x.as_str(), y.as_str()),
        _ => false,
    }
}

impl NewSessionRequestCapability {
    /// A copy whose fields read the same.
    pub fn duplicate(&self) -> (r: NewSessionRequestCapability)
        ensures
            r@ == self@,
    {
        NewSessionRequestCapability {
            browserName: match &self.browserName {
                Some(s) => Some(s.clone()),
                None => None,
            },
            platformName: match &self.platformName {
                Some(s) => Some(s.clone()),
                None => None,
            },
        }
    }

    /// Whether this matcher is satisfied by the capability key `other`.
    pub fn satisfied_by(&self, other: &NewSessionRequestCapability) -> (r: bool)
        ensures
            r == cap_satisfied_by(self@, other@),
    {
        let platform_ok = match (&self.platformName, &other.platformName) {
            (None, _) => true,
            (Some(p), Some(q)) => crate::strutil::str_eq_ignore_case(p.as_str(), q.as_str()),
            (Some(_), None) => false,
        };
        if !platform_ok {
            return false;
        }
        match (&self.browserName, &other.browserName) {
            (None, _) => true,
            (Some(p), Some(q)) => crate::strutil::str_eq_ignore_case(p.as_str(), q.as_str()),
            (Some(_), None) => false,
        }
    }

    /// Case-insensitive equality of two capability keys.
    pub fn eqi(&self, other: &NewSessionRequestCapability) -> (r: bool)
        ensures
            r == cap_eqi(self@, other@),
    {
        opt_str_eqi(&self.browserName, &other.browserName) && opt_str_eqi(
            &self.platformName,
            &other.platformName,
        )
    }
}

/// A `(browserName, platformName)` pair a hub slot can run; pairs are
/// compared ASCII-case-insensitively.
#[allow(non_snake_case)]
#[derive(Debug, Clone)]
pub struct HubStatusStereotypeJSONSchema {
    pub browserName: String,
    pub platformName: String,
}

/// The model of a stereotype.
pub ghost struct StereoV {
    pub browser: Seq<char>,
    pub platform: Seq<char>,
}

impl View for HubStatusStereotypeJSONSchema {
    type V = StereoV;

    open spec fn view(&self) -> StereoV {
        StereoV { browser: self.browserName@, platform: self.platformName@ }
    }
}

/// Case-insensitive equality of two stereotypes.
pub open spec fn stereo_eqi(a: StereoV, b: StereoV) -> bool {
    eq_ignore_case(a.browser, b.browser) && eq_ignore_case(a.platform, b.platform)
}

impl HubStatusStereotypeJSONSchema {
    /// A copy whose fields read the same.
    pub fn duplicate(&self) -> (r: HubStatusStereotypeJSONSchema)
        ensures
            r@ == self@,
    {
        HubStatusStereotypeJSONSchema {
            browserName: self.browserName.clone(),
            platformName: self.platformName.clone(),
        }
    }

    /// Case-insensitive equality of two stereotypes.
    pub fn eqi(&self, other: &HubStatusStereotypeJSONSchema) -> (r: bool)
        ensures
            r == stereo_eqi(self@, other@),
    {
        crate::strutil::str_eq_ignore_case(self.browserName.as_str(), other.browserName.as_str())
            && crate::strutil::str_eq_ignore_case(
            self.platformName.as_str(),
            other.platformName.as_str(),
        )
    }

    /// The capability key with exactly this stereotype's fields.
    pub fn to_capability(self) -> (r: NewSessionRequestCapability)
        ensures
            r@.browser == Some(self.browserName@),
            r@.platform == Some(self.platformName@),
    {
        NewSessionRequestCapability {
            browserName: Some(self.browserName),
            platformName: Some(self.platformName),
        }
    }
}

/// Whether the matcher `req` is satisfied by the stereotype `st`.
pub open spec fn cap_matches_stereo(req: CapV, st: StereoV) -> bool {
    &&& match req.browser {
        None => true,
        Some(b) => eq_ignore_case(b, st.browser),
    }
    &&& match req.platform {
        None => true,
        Some(p) => eq_ignore_case(p, st.platform),
    }
}

/// The `/status` document of a hub.
#[derive(Debug, Clone)]
pub struct HubStatusJSONSchema {
    pub value: HubStatusValueJSONSchema,
}

#[derive(Debug, Clone)]
pub struct HubStatusValueJSONSchema {
    pub ready: bool,
    pub message: String,
    pub nodes: Vec<HubStatusNodeJSONSchema>,
}

#[allow(non_snake_case)]
#[derive(Debug, Clone)]
pub struct HubStatusNodeJSONSchema {
    pub id: String,
    pub uri: String,
    pub maxSessions: u32,
    pub osInfo: HubStatusOSInfoJSONSchema,
    pub availability: String,
    pub version: String,
    pub slots: Vec<HubStatusNodeSlotJSONSchema>,
}

#[derive(Debug, Clone)]
pub struct HubStatusOSInfoJSONSchema {
    pub arch: String,
    pub name: String,
    pub version: String,
}

#[allow(non_snake_case)]
#[derive(Debug, Clone)]
pub struct HubStatusNodeSlotJSONSchema {
    pub id: HubStatusNodeSlotIDJSONSchema,
    pub lastStarted: String,
    pub session: Option<HubStatusNodeSlotSessionJSONSchema>,
    pub stereotype: HubStatusStereotypeJSONSchema,
}

#[allow(non_snake_case)]
#[derive(Debug, Clone)]
pub struct HubStatusNodeSlotIDJSONSchema {
    pub hostId: String,
    pub id: String,
}

#[allow(non_snake_case)]
#[derive(Debug, Clone)]
pub struct HubStatusNodeSlotSessionJSONSchema {
    pub capabilities: Option<HubStatusNodeSlotSessionCapabilitiesJSONSchema>,
    pub sessionId: String,
    pub start: String,
    pub stereotype: HubStatusStereotypeJSONSchema,
    pub uri: String,
}

#[allow(non_snake_case)]
#[derive(Debug, Clone)]
pub struct HubStatusNodeSlotSessionCapabilitiesJSONSchema {
    pub acceptInsecureCerts: Option<bool>,
    pub browserName: Option<String>,
    pub browserVersion: Option<String>,
}

/// A hub's response to a successful new-session request.
#[derive(Debug, Clone)]
pub struct NewSessionResponse {
    pub value: NewSessionResponseValue,
}

#[allow(non_snake_case)]
#[derive(Debug, Clone)]
pub struct NewSessionResponseValue {
    pub sessionId: String,
    pub capabilities: NewSessionResponseCapabilities,
}

#[allow(non_snake_case)]
#[derive(Debug, Clone)]
pub struct NewSessionResponseCapabilities {
    pub acceptInsecureCerts: Option<bool>,
    pub browserName: Option<String>,
    pub browserVersion: Option<String>,
    pub platformName: Option<String>,
}

/// A WebDriver new-session request body.
#[derive(Debug, Clone)]
pub struct NewSessionRequestBody {
    pub capabilities: NewSessionRequestCapabilities,
}

#[allow(non_snake_case)]
#[derive(Debug, Clone)]
pub struct NewSessionRequestCapabilities {
    pub alwaysMatch: NewSessionRequestCapability,
    pub firstMatch: Vec<NewSessionRequestCapability>,
}

/// The model of a new-session request body.
pub ghost struct BodyV {
    pub always_match: CapV,
    pub first_match: Seq<CapV>,
}

impl View for NewSessionRequestBody {
    type V = BodyV;

    open spec fn view(&self) -> BodyV {
        BodyV {
            always_match: self.capabilities.alwaysMatch@,
            first_match: self.capabilities.firstMatch@.map_values(
                |c: NewSessionRequestCapability| c@,
            ),
        }
    }
}

/// A session entry for the administrative listing: a session id and the
/// hub endpoint it is pinned to.
#[derive(Debug, Clone)]
pub struct Session {
    id: String,
    endpoint: String,
}

impl Session {
    pub fn new(id: &String, endpoint: &String) -> (r: Session)
        ensures
            r.spec_id() == id@,
            r.spec_endpoint() == endpoint@,
    {
        Session { id: id.clone(), endpoint: endpoint.clone() }
    }

    pub closed spec fn spec_id(&self) -> Seq<char> {
        self.id@
    }

    pub closed spec fn spec_endpoint(&self) -> Seq<char> {
        self.endpoint@
    }

    /// The session id.
    pub fn id(&self) -> (r: &String)
        ensures
            r@ == self.spec_id(),
    {
        &self.id
    }

    /// The pinned hub endpoint.
    pub fn endpoint(&self) -> (r: &String)
        ensures
            r@ == self.spec_endpoint(),
    {
        &self.endpoint
    }
}

/// A GraphQL query body for the aggregation endpoint.
#[derive(Debug, Clone)]
pub struct HubGraphQLQuery {
    pub query: String,
}

/// The model of a `/status` document.
pub ghost struct StatusV {
    pub value: StatusValueV,
}

pub ghost struct StatusValueV {
    pub ready: bool,
    pub message: Seq<char>,
    pub nodes: Seq<NodeV>,
}

pub ghost struct NodeV {
    pub id: Seq<char>,
    pub uri: Seq<char>,
    pub max_sessions: u32,
    pub os_info: OsInfoV,
    pub availability: Seq<char>,
    pub version: Seq<char>,
    pub slots: Seq<SlotV>,
}

pub ghost struct OsInfoV {
    pub arch: Seq<char>,
    pub name: Seq<char>,
    pub version: Seq<char>,
}

pub ghost struct SlotV {
    pub id: SlotIdV,
    pub last_started: Seq<char>,
    pub session: Option<SlotSessionV>,
    pub stereotype: StereoV,
}

pub ghost struct SlotIdV {
    pub host_id: Seq<char>,
    pub id: Seq<char>,
}

pub ghost struct SlotSessionV {
    pub capabilities: Option<SessionCapsV>,
    pub session_id: Seq<char>,
    pub start: Seq<char>,
    pub stereotype: StereoV,
    pub uri: Seq<char>,
}

pub ghost struct SessionCapsV {
    pub accept_insecure_certs: Option<bool>,
    pub browser: Option<Seq<char>>,
    pub browser_version: Option<Seq<char>>,
}

impl View for HubStatusOSInfoJSONSchema {
    type V = OsInfoV;

    open spec fn view(&self) -> OsInfoV {
        OsInfoV { arch: self.arch@, name: self.name@, version: self.version@ }
    }
}

impl View for HubStatusNodeSlotIDJSONSchema {
    type V = SlotIdV;

    open spec fn view(&self) -> SlotIdV {
        SlotIdV { host_id: self.hostId@, id: self.id@ }
    }
}

impl View for HubStatusNodeSlotSessionCapabilitiesJSONSchema {
    type V = SessionCapsV;

    open spec fn view(&self) -> SessionCapsV {
        SessionCapsV {
            accept_insecure_certs: self.acceptInsecureCerts,
            browser: opt_view(self.browserName),
            browser_version: opt_view(self.browserVersion),
        }
    }
}

impl View for HubStatusNodeSlotSessionJSONSchema {
    type V = SlotSessionV;

    open spec fn view(&self) -> SlotSessionV {
        SlotSessionV {
            capabilities: match self.capabilities {
                Some(c) => Some(c@),
                None => None,
            },
            session_id: self.sessionId@,
            start: self.start@,
            stereotype: self.stereotype@,
            uri: self.uri@,
        }
    }
}

impl View for HubStatusNodeSlotJSONSchema {
    type V = SlotV;

    open spec fn view(&self) -> SlotV {
        SlotV {
            id: self.id@,
            last_started: self.lastStarted@,
            session: match self.session {
                Some(x) => Some(x@),
                None => None,
            },
            stereotype: self.stereotype@,
        }
    }
}

impl View for HubStatusNodeJSONSchema {
    type V = NodeV;

    open spec fn view(&self) -> NodeV {
        NodeV {
            id: self.id@,
            uri: self.uri@,
            max_sessions: self.maxSessions,
            os_info: self.osInfo@,
            availability: self.availability@,
            version: self.version@,
            slots: self.slots@.map_values(|x: HubStatusNodeSlotJSONSchema| x@),
        }
    }
}

impl View for HubStatusValueJSONSchema {
    type V = StatusValueV;

    open spec fn view(&self) -> StatusValueV {
        StatusValueV {
            ready: self.ready,
            message: self.message@,
            nodes: self.nodes@.map_values(|x: HubStatusNodeJSONSchema| x@),
        }
    }
}

impl View for HubStatusJSONSchema {
    type V = StatusV;

    open spec fn view(&self) -> StatusV {
        StatusV { value: self.value@ }
    }
}

/// The model of a new-session response.
pub ghost struct RespV {
    pub value: RespValueV,
}

pub ghost struct RespValueV {
    pub session_id: Seq<char>,
    pub capabilities: RespCapsV,
}

pub ghost struct RespCapsV {
    pub accept_insecure_certs: Option<bool>,
    pub browser: Option<Seq<char>>,
    pub browser_version: Option<Seq<char>>,
    pub platform: Option<Seq<char>>,
}

impl View for NewSessionResponseCapabilities {
    type V = RespCapsV;

    open spec fn view(&self) -> RespCapsV {
        RespCapsV {
            accept_insecure_certs: self.acceptInsecureCerts,
            browser: opt_view(self.browserName),
            browser_version: opt_view(self.browserVersion),
            platform: opt_view(self.platformName),
        }
    }
}

impl View for NewSessionResponseValue {
    type V = RespValueV;

    open spec fn view(&self) -> RespValueV {
        RespValueV { session_id: self.sessionId@, capabilities: self.capabilities@ }
    }
}

impl View for NewSessionResponse {
    type V = RespV;

    open spec fn view(&self) -> RespV {
        RespV { value: self.value@ }
    }
}

} // verus!
