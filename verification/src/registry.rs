//! The hub registry: a concurrent keyed store of hubs behind trusted
//! wrappers over dashmap, with verified registration, removal and
//! healthcheck bookkeeping on top.

use vstd::prelude::*;

use crate::hub::{Hub, HubReadiness, fullness_v, stereos_v, spec_fullness_of, union_nodes};
use crate::schema::HubStatusJSONSchema;
use crate::urlutil::{parse_url, url_norm};

verus! {

#[verifier::external_type_specification]
#[verifier::external_body]
#[verifier::reject_recursive_types(K)]
#[verifier::reject_recursive_types(V)]
#[verifier::reject_recursive_types(S)]
pub struct ExDashMap<K, V, S>(dashmap::DashMap<K, V, S>);

/// A concurrent map from hub identifiers to hubs.
pub type HubMap = dashmap::DashMap<u128, Hub, std::collections::hash_map::RandomState>;

/// What a hub map holds: its key-to-hub contents.
pub uninterp spec fn hub_map_contents(m: HubMap) -> Map<u128, Hub>;

/// The contents of a map with no entries.
pub open spec fn empty_hub_map() -> Map<u128, Hub> {
    Map::empty()
}

/// Relies on `dashmap::DashMap::new`: a map with no entries.
#[verifier::external_body]
fn hub_map_new() -> (r: HubMap)
    ensures
        hub_map_contents(r) == empty_hub_map(),
{
    dashmap::DashMap::new()
}

/// Relies on `dashmap::DashMap::insert`: the entry is added or replaced,
/// and the previous value under the key is returned.
#[verifier::external_body]
fn hub_map_insert(m: &mut HubMap, k: u128, v: Hub) -> (r: Option<Hub>)
    ensures
        hub_map_contents(*final(m)) == hub_map_contents(*old(m)).insert(k, v),
        r == (if hub_map_contents(*old(m)).dom().contains(k) {
            Some(hub_map_contents(*old(m))[k])
        } else {
            None::<Hub>
        }),
{
    m.insert(k, v)
}

/// Relies on `dashmap::DashMap::remove`: the entry under the key leaves the
/// map and its value is returned.
#[verifier::external_body]
fn hub_map_remove(m: &mut HubMap, k: &u128) -> (r: Option<Hub>)
    ensures
        hub_map_contents(*final(m)) == hub_map_contents(*old(m)).remove(*k),
        r == (if hub_map_contents(*old(m)).dom().contains(*k) {
            Some(hub_map_contents(*old(m))[*k])
        } else {
            None::<Hub>
        }),
{
    match m.remove(k) {
        Some((_, v)) => Some(v),
        None => None,
    }
}

/// Relies on `dashmap::DashMap::get`: a copy of the value under the key,
/// if the key is present.
#[verifier::external_body]
fn hub_map_get(m: &HubMap, k: &u128) -> (r: Option<Hub>)
    ensures
        r == (if hub_map_contents(*m).dom().contains(*k) {
            Some(hub_map_contents(*m)[*k])
        } else {
            None::<Hub>
        }),
{
    match m.get(k) {
        Some(e) => Some(e.value().clone()),
        None => None,
    }
}

/// Relies on `dashmap::DashMap::len`: the number of entries.
#[verifier::external_body]
fn hub_map_len(m: &HubMap) -> (r: usize)
    ensures
        r as nat == hub_map_contents(*m).dom().len(),
{
    m.len()
}

/// Relies on `dashmap::DashMap::iter`: one pair per entry, each key once,
/// in no promised order.
#[verifier::external_body]
fn hub_map_snapshot(m: &HubMap) -> (r: Vec<(u128, Hub)>)
    ensures
        forall|i: int|
            0 <= i < r@.len() ==> hub_map_contents(*m).dom().contains(#[trigger] r@[i].0)
                && hub_map_contents(*m)[r@[i].0] == r@[i].1,
        forall|i: int, j: int| 0 <= i < j < r@.len() ==> r@[i].0 != r@[j].0,
        forall|k: u128|
            hub_map_contents(*m).dom().contains(k) ==> exists|i: int|
                0 <= i < r@.len() && (#[trigger] r@[i]).0 == k,
{
    let mut v: Vec<(u128, Hub)> = Vec::new();
    for e in m.iter() {
        v.push((*e.key(), e.value().clone()));
    }
    v
}

/// Why a registration was refused.
#[derive(Debug, Clone, PartialEq, Eq, Structural)]
pub enum RegisterError {
    /// The given URL does not parse as an absolute URL.
    InvalidUrl,
    /// A hub with the same (normalized) URL is already registered.
    AlreadyRegistered,
    /// The freshly drawn identifier is already in use (vanishingly
    /// unlikely); the caller may retry.
    IdentifierTaken,
}

/// The registry of hubs, keyed by each hub's identifier.
pub struct HubRegistry {
    map: HubMap,
}

impl HubRegistry {
    /// The contents of the registry.
    pub closed spec fn hubs(&self) -> Map<u128, Hub> {
        hub_map_contents(self.map)
    }

    /// Every hub is stored under its own identifier, is well-formed, and
    /// the key set is finite.
    pub open spec fn inv(&self) -> bool {
        &&& self.hubs().dom().finite()
        &&& forall|k: u128|
            self.hubs().dom().contains(k) ==> (#[trigger] self.hubs()[k]).meta.uuid == k
                && self.hubs()[k].state.wf()
    }

    /// An empty registry.
    pub fn new() -> (r: HubRegistry)
        ensures
            r.hubs() == empty_hub_map(),
            r.inv(),
    {
        let r = HubRegistry { map: hub_map_new() };
        proof {
            assert(r.hubs().dom() =~= Set::<u128>::empty());
        }
        r
    }

    /// Insert a hub under its own identifier, replacing any hub already
    /// stored there.
    pub fn insert_hub(&mut self, h: Hub)
        requires
            old(self).inv(),
            h.state.wf(),
        ensures
            final(self).hubs() == old(self).hubs().insert(h.meta.uuid, h),
            final(self).inv(),
    {
        let k = h.meta.uuid;
        hub_map_insert(&mut self.map, k, h);
    }

    /// Remove the hub under the identifier, if any.
    pub fn remove_hub(&mut self, uuid: &u128)
        requires
            old(self).inv(),
        ensures
            final(self).hubs() == old(self).hubs().remove(*uuid),
            final(self).inv(),
    {
        hub_map_remove(&mut self.map, uuid);
    }

    /// A copy of the hub under the identifier, if any.
    pub fn get(&self, uuid: &u128) -> (r: Option<Hub>)
        ensures
            r == (if self.hubs().dom().contains(*uuid) {
                Some(self.hubs()[*uuid])
            } else {
                None::<Hub>
            }),
    {
        hub_map_get(&self.map, uuid)
    }

    /// The number of registered hubs.
    pub fn len(&self) -> (r: usize)
        ensures
            r as nat == self.hubs().dom().len(),
    {
        hub_map_len(&self.map)
    }

    /// One `(uuid, hub)` pair per registered hub, each identifier once, in
    /// no promised order.
    pub fn snapshot(&self) -> (r: Vec<(u128, Hub)>)
        ensures
            forall|i: int|
                0 <= i < r@.len() ==> self.hubs().dom().contains(#[trigger] r@[i].0)
                    && self.hubs()[r@[i].0] == r@[i].1,
            forall|i: int, j: int| 0 <= i < j < r@.len() ==> r@[i].0 != r@[j].0,
            forall|k: u128|
                self.hubs().dom().contains(k) ==> exists|i: int|
                    0 <= i < r@.len() && (#[trigger] r@[i]).0 == k,
    {
        hub_map_snapshot(&self.map)
    }

    /// Register a hub under a fresh identifier. Fails exactly when the URL
    /// does not parse, or when some registered hub already has the same
    /// normalized URL; a drawn identifier that is already taken is refused
    /// rather than overwritten, so a successful registration always grows
    /// the registry by exactly one hub.
    #[verifier::loop_isolation(false)]
    pub fn register(&mut self, name: &str, url: &str) -> (r: Result<u128, RegisterError>)
        requires
            old(self).inv(),
        ensures
            final(self).inv(),
            r == Err::<u128, RegisterError>(RegisterError::InvalidUrl) <==> url_norm(url@) is None,
            r matches Err(e) ==> final(self).hubs() == old(self).hubs(),
            r == Err::<u128, RegisterError>(RegisterError::IdentifierTaken) ==> old(
                self,
            ).hubs().dom().len() > 0,
            (r == Err::<u128, RegisterError>(RegisterError::AlreadyRegistered)) <==> (url_norm(
                url@,
            ) matches Some(u) && exists|k: u128|
                old(self).hubs().dom().contains(k) && (#[trigger] old(self).hubs()[k]).meta.url@
                    == u),
            r matches Ok(id) ==> {
                let h = final(self).hubs()[id];
                &&& !old(self).hubs().dom().contains(id)
                &&& final(self).hubs().dom().contains(id)
                &&& final(self).hubs() == old(self).hubs().insert(id, h)
                &&& final(self).hubs().dom().len() == old(self).hubs().dom().len() + 1
                &&& h.meta.uuid == id
                &&& h.meta.name@ == name@
                &&& (url_norm(url@) matches Some(u) && h.meta.url@ == u)
                &&& h.state.readiness == HubReadiness::Unhealthy
                &&& h.state.consecutive_healthcheck_failures == 0
            },
    {
        let normalized = match parse_url(url) {
            Some(u) => u,
            None => {
                return Err(RegisterError::InvalidUrl);
            },
        };
        let snap = self.snapshot();
        let n = snap.len();
        for i in 0..n
            invariant
                n == snap.len(),
                url_norm(url@) == Some(normalized@),
                forall|j: int|
                    0 <= j < i ==> (#[trigger] snap@[j]).1.meta.url@ != normalized@,
                forall|q: int|
                    0 <= q < snap@.len() ==> self.hubs().dom().contains(#[trigger] snap@[q].0)
                        && self.hubs()[snap@[q].0] == snap@[q].1,
                forall|k: u128|
                    self.hubs().dom().contains(k) ==> exists|q: int|
                        0 <= q < snap@.len() && (#[trigger] snap@[q]).0 == k,
        {
            if crate::strutil::str_eq(snap[i].1.meta.url.as_str(), normalized.as_str()) {
                proof {
                    assert(self.hubs().dom().contains(snap@[i as int].0));
                }
                return Err(RegisterError::AlreadyRegistered);
            }
        }
        proof {
            assert forall|k: u128|
                self.hubs().dom().contains(k) implies (#[trigger] self.hubs()[k]).meta.url@
                != normalized@ by {
                let q = choose|q: int| 0 <= q < snap@.len() && (#[trigger] snap@[q]).0 == k;
                assert(self.hubs()[k] == snap@[q].1);
            }
        }
        let hub = Hub::new_with_name(name, normalized);
        let id = hub.meta.uuid;
        if self.get(&id).is_some() {
            proof {
                vstd::set::axiom_set_contains_len(self.hubs().dom(), id);
            }
            return Err(RegisterError::IdentifierTaken);
        }
        self.insert_hub(hub);
        proof {
            vstd::set::axiom_set_insert_len(old(self).hubs().dom(), id);
            assert(self.hubs().dom() =~= old(self).hubs().dom().insert(id));
        }
        Ok(id)
    }

    /// Record a polled `/status` document for the hub under the
    /// identifier; a hub that has left the registry is skipped silently.
    pub fn record_status(&mut self, uuid: &u128, status: &HubStatusJSONSchema)
        requires
            old(self).inv(),
        ensures
            final(self).inv(),
            !old(self).hubs().dom().contains(*uuid) ==> final(self).hubs() == old(self).hubs(),
            old(self).hubs().dom().contains(*uuid) ==> {
                let h0 = old(self).hubs()[*uuid];
                let h1 = final(self).hubs()[*uuid];
                &&& final(self).hubs() == old(self).hubs().insert(*uuid, h1)
                &&& h1.meta == h0.meta
                &&& fullness_v(h1.state.fullness@) == spec_fullness_of(status@)
                &&& stereos_v(h1.state.stereotypes@) == union_nodes(
                    status@.value.nodes,
                    0,
                    stereos_v(h0.state.stereotypes@),
                )
                &&& (status@.value.nodes.len() > 0 ==> h1.state.readiness == HubReadiness::Ready
                    && h1.state.consecutive_healthcheck_failures == 0)
                &&& (status@.value.nodes.len() == 0
                    ==> h1.state.consecutive_healthcheck_failures == (
                if h0.state.consecutive_healthcheck_failures < 255 {
                    h0.state.consecutive_healthcheck_failures + 1
                } else {
                    255int
                }) && h1.state.readiness == (if h1.state.consecutive_healthcheck_failures >= 3 {
                    HubReadiness::Unhealthy
                } else {
                    h0.state.readiness
                }))
            },
    {
        let mut hub = match self.get(uuid) {
            Some(h) => h,
            None => {
                return ;
            },
        };
        hub.apply_status(status);
        proof {
            assert(hub.meta.uuid == *uuid);
        }
        self.insert_hub(hub);
    }

    /// Record a failed healthcheck (transport error, timeout or unreadable
    /// body) for the hub under the identifier; a hub that has left the
    /// registry is skipped silently.
    pub fn record_failure(&mut self, uuid: &u128)
        requires
            old(self).inv(),
        ensures
            final(self).inv(),
            !old(self).hubs().dom().contains(*uuid) ==> final(self).hubs() == old(self).hubs(),
            old(self).hubs().dom().contains(*uuid) ==> {
                let h0 = old(self).hubs()[*uuid];
                let h1 = final(self).hubs()[*uuid];
                &&& final(self).hubs() == old(self).hubs().insert(*uuid, h1)
                &&& h1.meta == h0.meta
                &&& h1.state.fullness == h0.state.fullness
                &&& h1.state.stereotypes == h0.state.stereotypes
                &&& h1.state.consecutive_healthcheck_failures == (
                if h0.state.consecutive_healthcheck_failures < 255 {
                    h0.state.consecutive_healthcheck_failures + 1
                } else {
                    255int
                })
                &&& h1.state.readiness == (if h1.state.consecutive_healthcheck_failures >= 3 {
                    HubReadiness::Unhealthy
                } else {
                    h0.state.readiness
                })
            },
    {
        let mut hub = match self.get(uuid) {
            Some(h) => h,
            None => {
                return ;
            },
        };
        hub.fail_healthcheck();
        self.insert_hub(hub);
    }
}

} // verus!
