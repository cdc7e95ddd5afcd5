//! Request classification for the forwarder: session-id extraction from
//! WebDriver paths, new-session and delete detection, the merging of
//! requested capabilities, and the rewriting of a request target onto a
//! chosen hub.

use vstd::prelude::*;

use crate::strutil::{is_prefix, str_starts_with, str_eq};
use crate::schema::{NewSessionRequestBody, NewSessionRequestCapability, CapV, BodyV};
use crate::codec::{parse_new_session_body, spec_body_of};
use crate::json::spec_parse_json;
use crate::routing::HubRouterError;
use crate::urlutil::{
    rewrite_url, split_path_query, spec_split_path_query, url_norm, url_rewrite,
    MAX_REWRITE_CHARS,
};

verus! {

/// The path prefix that carries a session id.
pub open spec fn session_prefix() -> Seq<char> {
    seq!['/', 's', 'e', 's', 's', 'i', 'o', 'n', '/']
}

/// The position of the first `/` at or after `i`, or the length.
pub open spec fn first_slash(s: Seq<char>, i: int) -> int
    decreases s.len() - i,
{
    if !(0 <= i && i < s.len()) {
        s.len() as int
    } else if s[i] == '/' {
        i
    } else {
        first_slash(s, i + 1)
    }
}

proof fn lemma_first_slash_from(s: Seq<char>, k: int, i: int)
    requires
        0 <= k <= i <= s.len(),
        forall|j: int| k <= j < i ==> s[j] != '/',
        i == s.len() || s[i] == '/',
    ensures
        first_slash(s, k) == i,
    decreases i - k,
{
    if k < i {
        lemma_first_slash_from(s, k + 1, i);
    }
}

/// The session id in a WebDriver path: the non-empty segment right after
/// `/session/`, up to the next `/` or the end; nothing otherwise.
pub open spec fn spec_extract_session_id(path: Seq<char>) -> Option<Seq<char>> {
    if is_prefix(session_prefix(), path) {
        let e = first_slash(path, 9);
        if e == 9 {
            None
        } else {
            Some(path.subrange(9, e))
        }
    } else {
        None
    }
}

/// Extract the session id from a request path, if the path carries one.
#[verifier::loop_isolation(false)]
pub fn extract_session_id(path: &str) -> (r: Option<String>)
    ensures
        match r {
            Some(s) => spec_extract_session_id(path@) == Some(s@),
            None => spec_extract_session_id(path@) is None,
        },
{
    proof {
        reveal_strlit("/session/");
        assert("/session/"@ =~= session_prefix());
    }
    if !str_starts_with(path, "/session/") {
        return None;
    }
    let n = path.unicode_len();
    let mut j: usize = 9;
    while j < n && path.get_char(j) != '/'
        invariant
            9 <= j <= n,
            n == path@.len(),
            forall|q: int| 9 <= q < j ==> path@[q] != '/',
        decreases n - j,
    {
        j = j + 1;
    }
    proof {
        lemma_first_slash_from(path@, 9, j as int);
    }
    if j == 9 {
        return None;
    }
    Some(path.substring_char(9, j).to_owned())
}

/// Whether the request opens a new WebDriver session: a `POST` whose
/// target is exactly `/session`.
pub fn is_request_new_session(method: &str, path_and_query: &str) -> (r: bool)
    ensures
        r == (method@ == "POST"@ && path_and_query@ == "/session"@),
{
    str_eq(method, "POST") && str_eq(path_and_query, "/session")
}

/// Whether the request deletes a WebDriver session: a `DELETE` whose
/// target starts with `/session/`.
pub fn is_delete_session(method: &str, path_and_query: &str) -> (r: bool)
    ensures
        r == (method@ == "DELETE"@ && is_prefix("/session/"@, path_and_query@)),
{
    str_eq(method, "DELETE") && str_starts_with(path_and_query, "/session/")
}

/// A matcher from `firstMatch`, with only its absent fields filled in
/// from the `alwaysMatch` defaults: a field the entry gives wins.
pub open spec fn spec_merge_caps(always: CapV, fm: CapV) -> CapV {
    CapV {
        browser: if fm.browser is Some {
            fm.browser
        } else {
            always.browser
        },
        platform: if fm.platform is Some {
            fm.platform
        } else {
            always.platform
        },
    }
}

/// The effective matchers of a new-session body: one per `firstMatch`
/// entry, each merged with `alwaysMatch`; an empty `firstMatch` is treated
/// as the one-element list holding `alwaysMatch` alone.
pub open spec fn spec_effective_matchers(b: BodyV) -> Seq<CapV> {
    if b.first_match.len() == 0 {
        seq![b.always_match]
    } else {
        b.first_match.map_values(|f: CapV| spec_merge_caps(b.always_match, f))
    }
}

/// Merge one `firstMatch` entry with the `alwaysMatch` defaults.
fn merge_caps(
    always: &NewSessionRequestCapability,
    fm: &NewSessionRequestCapability,
) -> (r: NewSessionRequestCapability)
    ensures
        r@ == spec_merge_caps(always@, fm@),
{
    NewSessionRequestCapability {
        browserName: match &fm.browserName {
            Some(b) => Some(b.clone()),
            None => match &always.browserName {
                Some(b) => Some(b.clone()),
                None => None,
            },
        },
        platformName: match &fm.platformName {
            Some(p) => Some(p.clone()),
            None => match &always.platformName {
                Some(p) => Some(p.clone()),
                None => None,
            },
        },
    }
}

/// The effective matchers of a parsed new-session body.
#[verifier::loop_isolation(false)]
pub fn generate_possible_capabilities(capability_request: NewSessionRequestBody) -> (r: Vec<
    NewSessionRequestCapability,
>)
    ensures
        crate::routing::caps_v(r@) == spec_effective_matchers(capability_request@),
        r@.len() >= 1,
{
    let always = &capability_request.capabilities.alwaysMatch;
    let fm = &capability_request.capabilities.firstMatch;
    let mut out: Vec<NewSessionRequestCapability> = Vec::new();
    if fm.len() == 0 {
        out.push(always.duplicate());
        proof {
            assert(crate::routing::caps_v(out@) =~= seq![always@]);
        }
        return out;
    }
    let n = fm.len();
    for i in 0..n
        invariant
            n == fm.len(),
            out@.len() == i,
            forall|q: int| 0 <= q < i ==> (#[trigger] out@[q])@ == spec_merge_caps(always@, fm@[q]@),
    {
        out.push(merge_caps(always, &fm[i]));
    }
    proof {
        assert(crate::routing::caps_v(out@) =~= spec_effective_matchers(capability_request@)) by {
            assert forall|q: int|
                0 <= q < n implies crate::routing::caps_v(out@)[q] == spec_effective_matchers(
                capability_request@,
            )[q] by {
                assert(crate::routing::caps_v(out@)[q] == out@[q]@);
                assert(capability_request@.first_match[q] == fm@[q]@);
            }
        }
    }
    out
}

/// Parse a new-session body and produce its effective matchers; an
/// unreadable body fails with a deserialization error, exactly when the
/// codec rejects it.
pub fn extract_capabilities_from_new_session_request(body: &str) -> (r: Result<
    Vec<NewSessionRequestCapability>,
    HubRouterError,
>)
    ensures
        match r {
            Ok(v) => (match spec_parse_json(body@) {
                Some(j) => spec_body_of(j) matches Some(b) && crate::routing::caps_v(v@)
                    == spec_effective_matchers(b),
                None => false,
            }),
            Err(e) => e is DeserializationError && (match spec_parse_json(body@) {
                Some(j) => spec_body_of(j) is None,
                None => true,
            }),
        },
{
    match parse_new_session_body(body) {
        Some(b) => Ok(generate_possible_capabilities(b)),
        None => Err(
            HubRouterError::DeserializationError(
                "Could not read the new-session request body".to_owned(),
            ),
        ),
    }
}

/// Rewrite a request target onto the chosen hub: the hub's base URL takes
/// the request's path and query, and any userinfo or fragment of the base
/// is stripped. Fails exactly when the endpoint is not a valid absolute
/// URL, or when endpoint and target together exceed the rewrite bound.
pub fn apply_routing_decision(path_and_query: &str, endpoint: &str) -> (r: Result<
    String,
    HubRouterError,
>)
    ensures
        r is Ok <==> (url_norm(endpoint@) is Some && endpoint@.len() + path_and_query@.len()
            < MAX_REWRITE_CHARS),
        r matches Ok(u) ==> ({
            let (p, q) = spec_split_path_query(path_and_query@);
            url_rewrite(endpoint@, p, q) == Some(u@)
        }),
        r matches Err(e) ==> e is Internal,
{
    let el = endpoint.unicode_len();
    let pl = path_and_query.unicode_len();
    if el >= MAX_REWRITE_CHARS || pl >= MAX_REWRITE_CHARS - el {
        return Err(
            HubRouterError::Internal("The request target is too large to rewrite".to_owned()),
        );
    }
    let (path, query) = split_path_query(path_and_query);
    let q_ref: Option<&str> = match &query {
        Some(q) => Some(q.as_str()),
        None => None,
    };
    proof {
        let (p, q) = spec_split_path_query(path_and_query@);
        crate::urlutil::lemma_split_lengths(path_and_query@);
    }
    match rewrite_url(endpoint, path.as_str(), q_ref) {
        Some(u) => Ok(u),
        None => Err(
            HubRouterError::Internal("Could not rewrite the request onto the hub".to_owned()),
        ),
    }
}

} // verus!
