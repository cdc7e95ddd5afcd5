//! Routing decisions: the session-affinity shortcut, the readiness and
//! capability filters, and capability-aware weighted random selection, with
//! the affinity map that remembers decisions per WebDriver session.

use vstd::prelude::*;

use crate::hub::{Hub, HubReadiness, fullness_v, stereos_v, spec_can_satisfy};
use crate::schema::{NewSessionRequestCapability, CapV, opt_cap_view};
use crate::state::HubRouterState;

verus! {

/// A hub base URL in its serialized form.
pub type Endpoint = String;

/// Routing errors, each with a diagnostic message.
#[derive(Debug)]
pub enum RoutingError {
    /// No registered hub is ready.
    NoHealthyNodes(String),
    /// Ready hubs exist, but none satisfies any requested matcher.
    UnableToSatisfyCapabilities(String),
    /// The inbound request target could not be read.
    MalformedRequestPath(String),
    /// The weighted walk failed to pick a hub (not reachable from this
    /// router's selection).
    NoDecision(String),
}

/// The proxy's error type; errors of outside origin are carried as their
/// rendered messages.
#[derive(Debug)]
pub enum HubRouterError {
    RoutingError(RoutingError),
    TransportError(String),
    DeserializationError(String),
    SessionCreationError(String),
    Internal(String),
}

impl HubRouterError {
    /// Wrap a routing error.
    pub fn from_routing(e: RoutingError) -> (r: HubRouterError)
        ensures
            r matches HubRouterError::RoutingError(x) && x == e,
    {
        HubRouterError::RoutingError(e)
    }
}

/// A decision of the router: which hub, its endpoint, and when the
/// decision was made (seconds on the caller's monotonic clock).
#[derive(Debug)]
pub struct RoutingDecision {
    pub hub_uuid: u128,
    pub hub_endpoint: Endpoint,
    pub decision_time: u64,
}

impl RoutingDecision {
    pub fn new(hub_uuid: u128, hub_endpoint: Endpoint, decision_time: u64) -> (r: RoutingDecision)
        ensures
            r.hub_uuid == hub_uuid,
            r.hub_endpoint == hub_endpoint,
            r.decision_time == decision_time,
    {
        RoutingDecision { hub_uuid, hub_endpoint, decision_time }
    }

    /// A copy whose fields read the same.
    pub fn duplicate(&self) -> (r: RoutingDecision)
        ensures
            r == *self,
    {
        RoutingDecision {
            hub_uuid: self.hub_uuid,
            hub_endpoint: self.hub_endpoint.clone(),
            decision_time: self.decision_time,
        }
    }
}

/// A concurrent map from session ids to routing decisions.
pub type SessionMap = dashmap::DashMap<
    String,
    RoutingDecision,
    std::collections::hash_map::RandomState,
>;

/// What a session map holds, keyed by the session id's characters.
pub uninterp spec fn session_map_contents(m: SessionMap) -> Map<Seq<char>, RoutingDecision>;

/// The contents of a session map with no entries.
pub open spec fn empty_session_map() -> Map<Seq<char>, RoutingDecision> {
    Map::empty()
}

/// Relies on `dashmap::DashMap::new`: a map with no entries.
#[verifier::external_body]
fn session_map_new() -> (r: SessionMap)
    ensures
        session_map_contents(r) == empty_session_map(),
{
    dashmap::DashMap::new()
}

/// Relies on `dashmap::DashMap::insert`: the entry is added or replaced.
#[verifier::external_body]
fn session_map_insert(m: &mut SessionMap, k: String, v: RoutingDecision)
    ensures
        session_map_contents(*final(m)) == session_map_contents(*old(m)).insert(k@, v),
{
    m.insert(k, v);
}

/// Relies on `dashmap::DashMap::get`: a copy of the value under the key.
#[verifier::external_body]
fn session_map_get(m: &SessionMap, k: &str) -> (r: Option<RoutingDecision>)
    ensures
        r == (if session_map_contents(*m).dom().contains(k@) {
            Some(session_map_contents(*m)[k@])
        } else {
            None::<RoutingDecision>
        }),
{
    match m.get(k) {
        Some(e) => Some(
            RoutingDecision {
                hub_uuid: e.value().hub_uuid,
                hub_endpoint: e.value().hub_endpoint.clone(),
                decision_time: e.value().decision_time,
            },
        ),
        None => None,
    }
}

/// Relies on `dashmap::DashMap::remove`: the entry under the key leaves the
/// map.
#[verifier::external_body]
fn session_map_remove(m: &mut SessionMap, k: &str)
    ensures
        session_map_contents(*final(m)) == session_map_contents(*old(m)).remove(k@),
{
    m.remove(k);
}

/// Relies on `dashmap::DashMap::iter`: one pair per entry, each key once,
/// in no promised order.
#[verifier::external_body]
fn session_map_snapshot(m: &SessionMap) -> (r: Vec<(String, RoutingDecision)>)
    ensures
        forall|i: int|
            0 <= i < r@.len() ==> session_map_contents(*m).dom().contains(#[trigger] r@[i].0@)
                && session_map_contents(*m)[r@[i].0@] == r@[i].1,
        forall|i: int, j: int| 0 <= i < j < r@.len() ==> r@[i].0@ != r@[j].0@,
        forall|k: Seq<char>|
            session_map_contents(*m).dom().contains(k) ==> exists|i: int|
                0 <= i < r@.len() && (#[trigger] r@[i]).0@ == k,
{
    let mut v: Vec<(String, RoutingDecision)> = Vec::new();
    for e in m.iter() {
        v.push(
            (
                e.key().clone(),
                RoutingDecision {
                    hub_uuid: e.value().hub_uuid,
                    hub_endpoint: e.value().hub_endpoint.clone(),
                    decision_time: e.value().decision_time,
                },
            ),
        );
    }
    v
}

/// The map of previous routing decisions, keyed by session id. A decision
/// keeps the chosen hub's endpoint, so a session keeps its hub even when
/// the hub is later deregistered.
pub struct AffinityMap {
    map: SessionMap,
}

/// The affinity map under its original name.
pub type RoutingPrecedentMap = AffinityMap;

impl AffinityMap {
    /// The remembered decisions, keyed by session id.
    pub closed spec fn sessions(&self) -> Map<Seq<char>, RoutingDecision> {
        session_map_contents(self.map)
    }

    /// An empty map.
    pub fn new() -> (r: AffinityMap)
        ensures
            r.sessions() == empty_session_map(),
    {
        AffinityMap { map: session_map_new() }
    }

    /// Remember a decision for a session.
    pub fn insert(&mut self, session_id: String, d: RoutingDecision)
        ensures
            final(self).sessions() == old(self).sessions().insert(session_id@, d),
    {
        session_map_insert(&mut self.map, session_id, d);
    }

    /// The remembered decision for a session, if any.
    pub fn get(&self, session_id: &str) -> (r: Option<RoutingDecision>)
        ensures
            r == (if self.sessions().dom().contains(session_id@) {
                Some(self.sessions()[session_id@])
            } else {
                None::<RoutingDecision>
            }),
    {
        session_map_get(&self.map, session_id)
    }

    /// Forget a session.
    pub fn remove(&mut self, session_id: &str)
        ensures
            final(self).sessions() == old(self).sessions().remove(session_id@),
    {
        session_map_remove(&mut self.map, session_id);
    }

    /// One `(session id, decision)` pair per entry, each id once, in no
    /// promised order.
    pub fn snapshot(&self) -> (r: Vec<(String, RoutingDecision)>)
        ensures
            forall|i: int|
                0 <= i < r@.len() ==> self.sessions().dom().contains(#[trigger] r@[i].0@)
                    && self.sessions()[r@[i].0@] == r@[i].1,
            forall|i: int, j: int| 0 <= i < j < r@.len() ==> r@[i].0@ != r@[j].0@,
            forall|k: Seq<char>|
                self.sessions().dom().contains(k) ==> exists|i: int|
                    0 <= i < r@.len() && (#[trigger] r@[i]).0@ == k,
    {
        session_map_snapshot(&self.map)
    }
}

/// The age of a decision at time `now`; a decision from the future has age
/// zero.
pub open spec fn decision_age(now: u64, decision_time: u64) -> int {
    if now >= decision_time {
        now - decision_time
    } else {
        0
    }
}

/// Remove every session whose decision is at least `max_age` seconds old.
/// Afterwards the map holds exactly the entries younger than `max_age`,
/// unchanged.
#[verifier::loop_isolation(false)]
pub fn reap_sessions(map: &mut AffinityMap, now: u64, max_age: u64)
    ensures
        forall|k: Seq<char>|
            final(map).sessions().dom().contains(k) <==> (old(map).sessions().dom().contains(k)
                && decision_age(now, old(map).sessions()[k].decision_time) < max_age),
        forall|k: Seq<char>|
            final(map).sessions().dom().contains(k) ==> final(map).sessions()[k] == old(
                map,
            ).sessions()[k],
{
    let snap = map.snapshot();
    let ghost m0 = map.sessions();
    let n = snap.len();
    let mut i: usize = 0;
    while i < n
        invariant
            0 <= i <= n,
            n == snap.len(),
            forall|k: Seq<char>|
                #[trigger] map.sessions().dom().contains(k) ==> m0.dom().contains(k)
                    && map.sessions()[k] == m0[k],
            forall|k: Seq<char>|
                m0.dom().contains(k) ==> (map.sessions().dom().contains(k) <==> !(exists|j: int|
                    0 <= j < i && (#[trigger] snap@[j]).0@ == k && decision_age(
                        now,
                        snap@[j].1.decision_time,
                    ) >= max_age)),
        decreases n - i,
    {

        let age = if now >= snap[i].1.decision_time {
            now - snap[i].1.decision_time
        } else {
            0
        };
        let ghost prev = map.sessions();
        if age >= max_age {
            map.remove(snap[i].0.as_str());
            proof {
                assert(map.sessions() == prev.remove(snap@[i as int].0@));
            }
        }
        proof {
            broadcast use vstd::map::axiom_map_remove_domain;
            broadcast use vstd::map::axiom_map_remove_different;
            let ghost key = snap@[i as int].0@;
            assert forall|k: Seq<char>|
                #[trigger] map.sessions().dom().contains(k) implies m0.dom().contains(k)
                && map.sessions()[k] == m0[k] by {
                assert(prev.dom().contains(k) ==> m0.dom().contains(k) && prev[k] == m0[k]);
                if age >= max_age {
                    assert(map.sessions().dom() == prev.remove(key).dom());
                    assert(prev.remove(key).dom() == prev.dom().remove(key));
                    assert(k != key);
                    assert(prev.remove(key)[k] == prev[k]);
                }
                assert(prev.dom().contains(k));
            }
            assert forall|k: Seq<char>|
                m0.dom().contains(k) implies (map.sessions().dom().contains(k) <==> !(exists|
                j: int,
            |
                0 <= j < i + 1 && (#[trigger] snap@[j]).0@ == k && decision_age(
                    now,
                    snap@[j].1.decision_time,
                ) >= max_age)) by {
                if k == snap@[i as int].0@ {
                    assert(m0[k] == snap@[i as int].1);
                }
            }
        }
        i = i + 1;
    }
    proof {
        assert forall|k: Seq<char>|
            map.sessions().dom().contains(k) <==> (m0.dom().contains(k) && decision_age(
                now,
                m0[k].decision_time,
            ) < max_age) by {
            if m0.dom().contains(k) {
                let j = choose|j: int| 0 <= j < snap@.len() && (#[trigger] snap@[j]).0@ == k;
                assert(snap@[j].1 == m0[k]);
                assert forall|q: int|
                    0 <= q < snap@.len() && (#[trigger] snap@[q]).0@ == k implies snap@[q].1
                    == m0[k] by {}
            }
        }
    }
}

/// Between sweeps, session ages stay bounded: if every remembered
/// decision was younger than `max_age` at the last sweep, then at any
/// moment up to one sweep interval later every decision is at most
/// `max_age + interval` old.
pub proof fn lemma_affinity_age_bound(
    m: Map<Seq<char>, RoutingDecision>,
    sweep: u64,
    now: u64,
    max_age: u64,
    interval: u64,
)
    requires
        forall|k: Seq<char>|
            m.dom().contains(k) ==> decision_age(sweep, (#[trigger] m[k]).decision_time) < max_age,
        sweep <= now,
        now - sweep <= interval,
    ensures
        forall|k: Seq<char>|
            m.dom().contains(k) ==> decision_age(now, (#[trigger] m[k]).decision_time) <= max_age
                + interval,
{
}

/// Whether the registry holds a ready hub under `k`.
pub open spec fn ready_in(hubs: Map<u128, Hub>, k: u128) -> bool {
    hubs.dom().contains(k) && hubs[k].state.readiness == HubReadiness::Ready
}

/// Whether any registered hub is ready.
pub open spec fn any_ready(hubs: Map<u128, Hub>) -> bool {
    exists|k: u128| ready_in(hubs, k)
}

/// Whether the ready hub under `k` can satisfy the matcher.
pub open spec fn hub_satisfies(hubs: Map<u128, Hub>, k: u128, c: CapV) -> bool {
    ready_in(hubs, k) && spec_can_satisfy(stereos_v(hubs[k].state.stereotypes@), c)
}

/// Whether some ready hub can satisfy the matcher.
pub open spec fn feasible(hubs: Map<u128, Hub>, c: CapV) -> bool {
    exists|k: u128| hub_satisfies(hubs, k, c)
}

/// The models of a list of matchers.
pub open spec fn caps_v(v: Seq<NewSessionRequestCapability>) -> Seq<CapV> {
    v.map_values(|c: NewSessionRequestCapability| c@)
}

/// The models of an optional list of requested matchers.
pub open spec fn reqs_v(o: Option<Vec<NewSessionRequestCapability>>) -> Option<Seq<CapV>> {
    match o {
        Some(v) => Some(caps_v(v@)),
        None => None,
    }
}

/// Whether the request carries no usable matcher (absent, or an empty
/// list): routing then falls back to all ready hubs.
pub open spec fn no_matcher(o: Option<Seq<CapV>>) -> bool {
    match o {
        None => true,
        Some(rs) => rs.len() == 0,
    }
}

/// The saturating (at `u64::MAX`) total of the weights from `i` on.
pub open spec fn sat_total(ws: Seq<u64>, i: int) -> int
    decreases ws.len() - i,
{
    if !(0 <= i && i < ws.len()) {
        0
    } else {
        let rest = sat_total(ws, i + 1);
        if ws[i] + rest > u64::MAX {
            u64::MAX as int
        } else {
            ws[i] + rest
        }
    }
}

/// The saturating total of the first `i` weights (a prefix form, used by
/// the selection walk).
pub open spec fn sat_prefix(ws: Seq<u64>, i: int) -> int
    decreases i,
{
    if i <= 0 {
        0
    } else {
        let rest = sat_prefix(ws, i - 1);
        if i - 1 < ws.len() && rest + ws[i - 1] > u64::MAX {
            u64::MAX as int
        } else if i - 1 < ws.len() {
            rest + ws[i - 1]
        } else {
            rest
        }
    }
}

/// Weighted selection: walk the weights accumulating their saturating sum
/// and return the first index whose running total reaches `r`. With `r` at
/// most the total, the walk always selects.
#[verifier::loop_isolation(false)]
pub fn select_weighted(weights: &Vec<u64>, r: u64) -> (idx: usize)
    requires
        weights.len() > 0,
        r as int <= sat_prefix(weights@, weights@.len() as int),
    ensures
        idx < weights.len(),
        sat_prefix(weights@, idx + 1) >= r,
        forall|j: int| 0 <= j < idx ==> #[trigger] sat_prefix(weights@, j + 1) < r,
{
    let mut acc: u64 = 0;
    let n = weights.len();
    for i in 0..n
        invariant
            n == weights.len(),
            acc as int == sat_prefix(weights@, i as int),
            forall|j: int| 0 <= j < i ==> #[trigger] sat_prefix(weights@, j + 1) < r,
    {
        acc = if acc as u128 + weights[i] as u128 > u64::MAX as u128 {
            u64::MAX
        } else {
            acc + weights[i]
        };
        proof {
            assert(acc as int == sat_prefix(weights@, i + 1));
        }
        if acc >= r {
            return i;
        }
    }
    proof {
        assert(sat_prefix(weights@, (n - 1) + 1) < r);
        assert(sat_prefix(weights@, n as int) < r);
        assert(false);
    }
    0
}

/// Relies on `rand::random`: a value drawn from the standard distribution.
/// Nothing is promised of the value.
pub assume_specification<T>[ rand::random::<T> ]() -> (r: T)
    where
        rand::distributions::Standard: rand::distributions::Distribution<T>,
;

/// No hub listed in `healthy` can satisfy the `j`-th requested matcher.
pub open spec fn no_healthy_match(
    snap: Seq<(u128, Hub)>,
    healthy: Seq<usize>,
    rs: Seq<CapV>,
    j: int,
) -> bool {
    forall|q: int|
        0 <= q < healthy.len() ==> !spec_can_satisfy(
            stereos_v(snap[#[trigger] healthy[q] as int].1.state.stereotypes@),
            rs[j],
        )
}

/// For each requested matcher in order, filter the ready hubs down to
/// those that can satisfy it; the first matcher with a non-empty result
/// wins. Returns the candidate positions into `snap` and the index of the
/// selected matcher, or nothing when every matcher filters to empty.
#[verifier::loop_isolation(false)]
#[verifier::rlimit(100)]
#[verifier::spinoff_prover]
fn filter_candidates(
    snap: &Vec<(u128, Hub)>,
    healthy: &Vec<usize>,
    reqs: &Vec<NewSessionRequestCapability>,
) -> (r: Option<(Vec<usize>, usize)>)
    requires
        reqs.len() > 0,
        forall|q: int|
            0 <= q < healthy.len() ==> (#[trigger] healthy@[q]) < snap.len() && snap@[
                healthy@[q] as int
            ].1.state.readiness == HubReadiness::Ready,
    ensures
        r matches Some(p) ==> {
            let rs = caps_v(reqs@);
            &&& p.1 < reqs.len()
            &&& p.0.len() > 0
            &&& (forall|q: int|
                0 <= q < p.0.len() ==> (#[trigger] p.0@[q]) < snap.len() && snap@[
                    p.0@[q] as int
                ].1.state.readiness == HubReadiness::Ready && spec_can_satisfy(
                    stereos_v(snap@[p.0@[q] as int].1.state.stereotypes@),
                    rs[p.1 as int],
                ))
            &&& (forall|j: int|
                0 <= j < p.1 ==> #[trigger] no_healthy_match(
                    snap@,
                    healthy@,
                    rs,
                    j,
                ))
        },
        r is None ==> (forall|j: int|
            0 <= j < reqs@.len() ==> #[trigger] no_healthy_match(snap@, healthy@, caps_v(reqs@), j)),
{
    let ghost rs = caps_v(reqs@);
    let rn = reqs.len();
    let mut mi: usize = 0;
    while mi < rn
        invariant
            rn == reqs.len(),
            rs == caps_v(reqs@),
            mi <= rn,
            forall|j: int| 0 <= j < mi ==> #[trigger] no_healthy_match(snap@, healthy@, rs, j),
        decreases rn - mi,
    {
        let mut c: Vec<usize> = Vec::new();
        let hn = healthy.len();
        for q in 0..hn
            invariant
                hn == healthy.len(),
                rs == caps_v(reqs@),
                0 <= mi < rn,
                rn == reqs.len(),
                forall|p: int|
                    0 <= p < c.len() ==> (#[trigger] c@[p]) < snap.len() && snap@[
                        c@[p] as int
                    ].1.state.readiness == HubReadiness::Ready && spec_can_satisfy(
                        stereos_v(snap@[c@[p] as int].1.state.stereotypes@),
                        rs[mi as int],
                    ),
                forall|p: int|
                    0 <= p < q && spec_can_satisfy(
                        stereos_v(snap@[#[trigger] healthy@[p] as int].1.state.stereotypes@),
                        rs[mi as int],
                    ) ==> exists|w: int| 0 <= w < c.len() && #[trigger] c@[w] == healthy@[p],
        {
            proof {
                assert(rs[mi as int] == reqs@[mi as int]@);
            }
            if snap[healthy[q]].1.can_satisfy_capability(&reqs[mi]) {
                let ghost c0 = c@;
                c.push(healthy[q]);
                proof {
                    assert(c@[c@.len() - 1] == healthy@[q as int]);
                    assert forall|p: int|
                        0 <= p < q + 1 && spec_can_satisfy(
                            stereos_v(snap@[#[trigger] healthy@[p] as int].1.state.stereotypes@),
                            rs[mi as int],
                        ) implies exists|w: int|
                        0 <= w < c.len() && #[trigger] c@[w] == healthy@[p] by {
                        if p < q {
                            let w = choose|w: int|
                                0 <= w < c0.len() && #[trigger] c0[w] == healthy@[p];
                            assert(c@[w] == healthy@[p]);
                        } else {
                            assert(c@[c@.len() - 1] == healthy@[p]);
                        }
                    }
                }
            }
        }
        if c.len() > 0 {
            return Some((c, mi));
        }
        proof {
            assert forall|p: int| 0 <= p < healthy.len() implies !spec_can_satisfy(
                stereos_v(snap@[#[trigger] healthy@[p] as int].1.state.stereotypes@),
                rs[mi as int],
            ) by {}
            assert(no_healthy_match(snap@, healthy@, rs, mi as int));
        }
        mi = mi + 1;
    }
    None
}

/// Whether the request's session id already has a remembered decision.
pub open spec fn affinity_hit(m: Map<Seq<char>, RoutingDecision>, sid: Option<String>) -> bool {
    match sid {
        Some(s) => m.dom().contains(s@),
        None => false,
    }
}

/// Choose a hub for a request.
///
/// If the session already has a remembered decision, that decision is
/// returned and the map is untouched. Otherwise only ready hubs are
/// considered; with no ready hub the routing fails. With requested
/// matchers, the first matcher some ready hub can satisfy defines the
/// candidate set; if none can be satisfied the routing fails. One
/// candidate is picked by weighted random selection, the decision is
/// stamped with `now`, and it is remembered when a session id was given.
#[verifier::loop_isolation(false)]
#[verifier::rlimit(100)]
#[verifier::spinoff_prover]
pub fn make_routing_decision(
    maybe_session_id: Option<String>,
    optional_requested_capabilities: Option<Vec<NewSessionRequestCapability>>,
    routing_map: &mut AffinityMap,
    state: &HubRouterState,
    now: u64,
) -> (r: Result<RoutingDecision, RoutingError>)
    requires
        state.hubs.inv(),
    ensures
        affinity_hit(old(routing_map).sessions(), maybe_session_id) ==> (maybe_session_id
            matches Some(s) && (r matches Ok(d) && d == old(routing_map).sessions()[s@])
            && final(routing_map).sessions() == old(routing_map).sessions()),
        (!affinity_hit(old(routing_map).sessions(), maybe_session_id) && !any_ready(
            state.hubs.hubs(),
        )) ==> ((r matches Err(e) && e is NoHealthyNodes) && final(routing_map).sessions() == old(
            routing_map,
        ).sessions()),
        (!affinity_hit(old(routing_map).sessions(), maybe_session_id) && any_ready(
            state.hubs.hubs(),
        ) && (reqs_v(optional_requested_capabilities) matches Some(rs) && rs.len() > 0 && (forall|
            j: int,
        | 0 <= j < rs.len() ==> !feasible(state.hubs.hubs(), #[trigger] rs[j])))) ==> ((
        r matches Err(e) && e is UnableToSatisfyCapabilities) && final(routing_map).sessions()
            == old(routing_map).sessions()),
        !affinity_hit(old(routing_map).sessions(), maybe_session_id) ==> (r matches Ok(d) ==> ({
            &&& ready_in(state.hubs.hubs(), d.hub_uuid)
            &&& d.hub_endpoint@ == state.hubs.hubs()[d.hub_uuid].meta.url@
            &&& d.decision_time == now
            &&& final(routing_map).sessions() == (match maybe_session_id {
                Some(s) => old(routing_map).sessions().insert(s@, d),
                None => old(routing_map).sessions(),
            })
            &&& (reqs_v(optional_requested_capabilities) matches Some(rs) ==> (rs.len() > 0
                ==> exists|mi: int|
                0 <= mi < rs.len() && spec_can_satisfy(
                    stereos_v(state.hubs.hubs()[d.hub_uuid].state.stereotypes@),
                    #[trigger] rs[mi],
                ) && (forall|j: int|
                    0 <= j < mi ==> !feasible(state.hubs.hubs(), #[trigger] rs[j]))))
        })),
        (!affinity_hit(old(routing_map).sessions(), maybe_session_id) && any_ready(
            state.hubs.hubs(),
        ) && (no_matcher(reqs_v(optional_requested_capabilities)) || (reqs_v(
            optional_requested_capabilities,
        ) matches Some(rs) && exists|j: int|
            0 <= j < rs.len() && feasible(state.hubs.hubs(), #[trigger] rs[j])))) ==> r is Ok,
        r matches Err(e) ==> final(routing_map).sessions() == old(routing_map).sessions(),
{
    let ghost hg = state.hubs.hubs();
    // Affinity shortcut: an existing decision wins, and is used as-is even
    // if its hub has since been deregistered.
    if let Some(sid) = &maybe_session_id {
        match routing_map.get(sid.as_str()) {
            Some(d) => {
                return Ok(d);
            },
            None => {},
        }
    }
    // Readiness filter.
    let snap = state.hubs.snapshot();
    let mut healthy: Vec<usize> = Vec::new();
    let sn = snap.len();
    for i in 0..sn
        invariant
            sn == snap.len(),
            forall|q: int|
                0 <= q < healthy.len() ==> (#[trigger] healthy@[q]) < snap.len() && snap@[
                    healthy@[q] as int
                ].1.state.readiness == HubReadiness::Ready,
            forall|j: int|
                0 <= j < i && snap@[j].1.state.readiness == HubReadiness::Ready ==> exists|q: int|
                    0 <= q < healthy.len() && #[trigger] healthy@[q] == j,
    {
        if snap[i].1.state.get_readiness() == HubReadiness::Ready {
            let ghost h0 = healthy@;
            healthy.push(i);
            proof {
                assert(healthy@[healthy@.len() - 1] == i);
                assert forall|j: int|
                    0 <= j < i + 1 && snap@[j].1.state.readiness == HubReadiness::Ready implies exists|
                    q: int,
                |
                    0 <= q < healthy.len() && #[trigger] healthy@[q] == j by {
                    if j < i {
                        let q = choose|q: int| 0 <= q < h0.len() && #[trigger] h0[q] == j;
                        assert(healthy@[q] == j);
                    } else {
                        assert(healthy@[healthy@.len() - 1] == j);
                    }
                }
            }
        }
    }
    proof {
        // The healthy list is sound and complete for readiness.
        assert(any_ready(hg) <==> healthy.len() > 0) by {
            if healthy.len() > 0 {
                let q0 = healthy@[0];
                assert(ready_in(hg, snap@[q0 as int].0));
            }
            if any_ready(hg) {
                let k = choose|k: u128| ready_in(hg, k);
                let i = choose|i: int| 0 <= i < snap@.len() && (#[trigger] snap@[i]).0 == k;
                assert(snap@[i].1 == hg[k]);
            }
        }
    }
    if healthy.len() == 0 {
        return Err(
            RoutingError::NoHealthyNodes(
                "There are no healthy hubs to serve requests to".to_owned(),
            ),
        );
    }
    // Capability filter: the first requested matcher some ready hub can
    // satisfy defines the candidates; no matchers (or an empty list) falls
    // back to every ready hub.
    let mut cands: Vec<usize> = Vec::new();
    let mut matcher: Option<&NewSessionRequestCapability> = None;
    let ghost mut sel_mi: int = 0;
    match &optional_requested_capabilities {
        Some(reqs) if reqs.len() > 0 => {
            let ghost rs = caps_v(reqs@);
            match filter_candidates(&snap, &healthy, reqs) {
                Some((c, mi)) => {
                    cands = c;
                    matcher = Some(&reqs[mi]);
                    proof {
                        sel_mi = mi as int;
                        // Matchers before the selected one are infeasible.
                        assert forall|j: int| 0 <= j < sel_mi implies !feasible(
                            hg,
                            #[trigger] rs[j],
                        ) by {
                            assert(no_healthy_match(snap@, healthy@, rs, j));
                            if feasible(hg, rs[j]) {
                                let k = choose|k: u128| hub_satisfies(hg, k, rs[j]);
                                let i = choose|i: int|
                                    0 <= i < snap@.len() && (#[trigger] snap@[i]).0 == k;
                                assert(snap@[i].1 == hg[k]);
                                let q = choose|q: int|
                                    0 <= q < healthy@.len() && #[trigger] healthy@[q] == i;
                                assert(!spec_can_satisfy(
                                    stereos_v(snap@[healthy@[q] as int].1.state.stereotypes@),
                                    rs[j],
                                ));
                            }
                        }
                    }
                },
                None => {
                    proof {
                        assert forall|j: int| 0 <= j < rs.len() implies !feasible(
                            hg,
                            #[trigger] rs[j],
                        ) by {
                            assert(no_healthy_match(snap@, healthy@, rs, j));
                            if feasible(hg, rs[j]) {
                                let k = choose|k: u128| hub_satisfies(hg, k, rs[j]);
                                let i = choose|i: int|
                                    0 <= i < snap@.len() && (#[trigger] snap@[i]).0 == k;
                                assert(snap@[i].1 == hg[k]);
                                let q = choose|q: int|
                                    0 <= q < healthy@.len() && #[trigger] healthy@[q] == i;
                                assert(!spec_can_satisfy(
                                    stereos_v(snap@[healthy@[q] as int].1.state.stereotypes@),
                                    rs[j],
                                ));
                            }
                        }
                    }
                    return Err(
                        RoutingError::UnableToSatisfyCapabilities(
                            "No hubs could satisfy the requested capabilities".to_owned(),
                        ),
                    );
                },
            }
        },
        _ => {
            cands = healthy;
        },
    }
    // Weight computation: a hub's weight is twice its selected capacity
    // minus its selected load, and at least one.
    let cn = cands.len();
    let mut weights: Vec<u64> = Vec::new();
    for q in 0..cn
        invariant
            cn == cands.len(),
            weights.len() == q,
            forall|p: int| 0 <= p < q ==> #[trigger] weights@[p] >= 1,
            forall|p: int|
                0 <= p < cands.len() ==> (#[trigger] cands@[p]) < snap.len() && snap@[
                    cands@[p] as int
                ].1.state.readiness == HubReadiness::Ready,
    {
        let hub = &snap[cands[q]].1;
        proof {
            assert(hg[snap@[cands@[q as int] as int].0] == snap@[cands@[q as int] as int].1);
            assert(hub.state.wf());
            crate::hub::lemma_sums_ordered(
                fullness_v(hub.state.fullness@),
                opt_cap_view(
                    match matcher {
                        Some(c) => Some(*c),
                        None => None,
                    },
                ),
                0,
            );
        }
        let m_arg: Option<NewSessionRequestCapability> = match matcher {
            Some(c) => Some(c.duplicate()),
            None => None,
        };
        let (active, max) = hub.state.get_stereotype_fullness(m_arg);
        let w0: u64 = 2 * (max as u64) - (active as u64);
        let w: u64 = if w0 == 0 {
            1
        } else {
            w0
        };
        weights.push(w);
    }
    // Weighted random selection; the walk always selects.
    let mut total: u64 = 0;
    let mut ti: usize = 0;
    while ti < cn
        invariant
            cn == weights.len(),
            ti <= cn,
            total as int == sat_prefix(weights@, ti as int),
        decreases cn - ti,
    {
        total = if total as u128 + weights[ti] as u128 > u64::MAX as u128 {
            u64::MAX
        } else {
            total + weights[ti]
        };
        proof {
            assert(total as int == sat_prefix(weights@, ti + 1));
        }
        ti = ti + 1;
    }
    let drawn = rand::random::<u64>();
    let dist: u64 = if total == u64::MAX {
        drawn
    } else {
        drawn % (total + 1)
    };
    let idx = select_weighted(&weights, dist);
    let chosen = cands[idx];
    let hub = &snap[chosen].1;
    let decision = RoutingDecision::new(hub.meta.uuid, hub.meta.url.clone(), now);
    proof {
        assert(hg[snap@[chosen as int].0] == snap@[chosen as int].1);
        assert(snap@[chosen as int].1.meta.uuid == snap@[chosen as int].0);
        assert(ready_in(hg, decision.hub_uuid));
    }
    proof {
        match &optional_requested_capabilities {
            Some(reqs) => {
                if reqs.len() > 0 {
                    let rs = caps_v(reqs@);
                    assert(spec_can_satisfy(
                        stereos_v(snap@[chosen as int].1.state.stereotypes@),
                        rs[sel_mi],
                    ));
                    assert(hub_satisfies(hg, decision.hub_uuid, rs[sel_mi]));
                    assert(feasible(hg, rs[sel_mi]));
                    assert(exists|mi: int|
                        0 <= mi < rs.len() && spec_can_satisfy(
                            stereos_v(hg[decision.hub_uuid].state.stereotypes@),
                            #[trigger] rs[mi],
                        ) && (forall|j: int| 0 <= j < mi ==> !feasible(hg, #[trigger] rs[j])));
                }
            },
            None => {},
        }
    }
    if let Some(sid) = maybe_session_id {
        routing_map.insert(sid, decision.duplicate());
    }
    Ok(decision)
}

} // verus!
