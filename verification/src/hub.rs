//! The internal representation of a registered Selenium hub: metadata, the
//! readiness state machine driven by healthchecks, and per-stereotype
//! fullness derived from polled `/status` documents.

use vstd::prelude::*;

use crate::schema::{
    NewSessionRequestCapability, CapV, cap_satisfied_by, cap_eqi, cap_matches_stereo, StereoV,
    stereo_eqi, HubStatusJSONSchema, HubStatusValueJSONSchema, HubStatusNodeJSONSchema,
    HubStatusOSInfoJSONSchema, HubStatusNodeSlotJSONSchema, HubStatusNodeSlotIDJSONSchema,
    HubStatusNodeSlotSessionJSONSchema, HubStatusStereotypeJSONSchema, StatusV, NodeV, SlotV,
};

verus! {

/// The readiness of a hub, as seen by the healthcheck poller.
#[derive(Debug, Copy, Clone, PartialEq, Eq, Structural)]
pub enum HubReadiness {
    /// Not responding to `/status`, or responding with no nodes.
    Unhealthy,
    /// Responding to `/status` with at least one node.
    Ready,
}

impl Default for HubReadiness {
    /// A hub starts unhealthy until a healthcheck proves otherwise.
    fn default() -> (r: Self)
        ensures
            r == HubReadiness::Unhealthy,
    {
        HubReadiness::Unhealthy
    }
}

/// The persistent identity of a hub: its label, base URL and registry key.
#[derive(Debug, Clone)]
pub struct HubMetadata {
    pub name: String,
    pub url: String,
    pub uuid: u128,
}

/// The model of a hub's persistent identity.
pub ghost struct MetaV {
    pub name: Seq<char>,
    pub url: Seq<char>,
    pub uuid: u128,
}

impl View for HubMetadata {
    type V = MetaV;

    open spec fn view(&self) -> MetaV {
        MetaV { name: self.name@, url: self.url@, uuid: self.uuid }
    }
}

/// The model of a fullness table: capability keys with `(active, max)`
/// slot counts.
pub open spec fn fullness_v(f: Seq<(NewSessionRequestCapability, (u8, u8))>) -> Seq<
    (CapV, (u8, u8)),
> {
    f.map_values(|e: (NewSessionRequestCapability, (u8, u8))| (e.0@, e.1))
}

/// The model of a stereotype list.
pub open spec fn stereos_v(st: Seq<HubStatusStereotypeJSONSchema>) -> Seq<StereoV> {
    st.map_values(|s: HubStatusStereotypeJSONSchema| s@)
}

/// Keys of a fullness table are pairwise distinct (case-insensitively) and
/// every entry has `active <= max`.
pub open spec fn wf_fullness(f: Seq<(CapV, (u8, u8))>) -> bool {
    &&& forall|i: int, j: int|
        0 <= i < j < f.len() ==> !cap_eqi(#[trigger] f[i].0, #[trigger] f[j].0)
    &&& forall|i: int| 0 <= i < f.len() ==> (#[trigger] f[i]).1.0 <= f[i].1.1
}

/// Entries of a stereotype list are pairwise distinct, case-insensitively.
pub open spec fn wf_stereos(st: Seq<StereoV>) -> bool {
    forall|i: int, j: int| 0 <= i < j < st.len() ==> !stereo_eqi(#[trigger] st[i], #[trigger] st[j])
}

/// The transient runtime state of a hub.
#[derive(Debug, Clone)]
pub struct HubState {
    pub fullness: Vec<(NewSessionRequestCapability, (u8, u8))>,
    pub stereotypes: Vec<HubStatusStereotypeJSONSchema>,
    pub readiness: HubReadiness,
    pub consecutive_healthcheck_failures: u8,
}

impl HubState {
    /// Well-formedness: the fullness and stereotype tables are proper, and
    /// three or more consecutive failures force unhealthiness (so a ready
    /// hub has strictly fewer than three).
    pub open spec fn wf(&self) -> bool {
        &&& wf_fullness(fullness_v(self.fullness@))
        &&& wf_stereos(stereos_v(self.stereotypes@))
        &&& self.consecutive_healthcheck_failures >= 3 ==> self.readiness
            == HubReadiness::Unhealthy
    }

    pub fn get_readiness(&self) -> (r: HubReadiness)
        ensures
            r == self.readiness,
    {
        self.readiness
    }
}

/// Whether the optional matcher selects the fullness key `k`: an absent
/// matcher selects everything.
pub open spec fn matcher_selects(c: Option<CapV>, k: CapV) -> bool {
    match c {
        None => true,
        Some(cv) => cap_satisfied_by(cv, k),
    }
}

/// The active-slot count selected by `c` in `f`, from position `i` on.
pub open spec fn sum_active(f: Seq<(CapV, (u8, u8))>, c: Option<CapV>, i: int) -> int
    decreases f.len() - i,
{
    if i < 0 || i >= f.len() {
        0
    } else {
        (if matcher_selects(c, f[i].0) {
            f[i].1.0 as int
        } else {
            0
        }) + sum_active(f, c, i + 1)
    }
}

/// The capacity selected by `c` in `f`, from position `i` on.
pub open spec fn sum_max(f: Seq<(CapV, (u8, u8))>, c: Option<CapV>, i: int) -> int
    decreases f.len() - i,
{
    if i < 0 || i >= f.len() {
        0
    } else {
        (if matcher_selects(c, f[i].0) {
            f[i].1.1 as int
        } else {
            0
        }) + sum_max(f, c, i + 1)
    }
}

/// Saturating sum of selected counts, clamped at 255.
pub open spec fn clamp255(v: int) -> int {
    if v > 255 {
        255
    } else {
        v
    }
}

/// With every entry's active count at most its capacity, the selected
/// active total is at most the selected capacity total.
pub proof fn lemma_sums_ordered(f: Seq<(CapV, (u8, u8))>, c: Option<CapV>, i: int)
    requires
        forall|q: int| 0 <= q < f.len() ==> (#[trigger] f[q]).1.0 <= f[q].1.1,
    ensures
        sum_active(f, c, i) <= sum_max(f, c, i),
    decreases f.len() - i,
{
    if 0 <= i && i < f.len() {
        lemma_sums_ordered(f, c, i + 1);
    }
}

/// Partial sums are not negative.
proof fn lemma_sums_nonneg(f: Seq<(CapV, (u8, u8))>, c: Option<CapV>, i: int)
    ensures
        sum_active(f, c, i) >= 0,
        sum_max(f, c, i) >= 0,
    decreases f.len() - i,
{
    if 0 <= i && i < f.len() {
        lemma_sums_nonneg(f, c, i + 1);
    }
}

impl HubState {
    /// The `(active, max)` totals over the fullness entries selected by the
    /// given matcher (all entries when it is absent), each total saturating
    /// at 255.
    pub fn get_stereotype_fullness(&self, maybe_capability: Option<NewSessionRequestCapability>) -> (r:
        (u8, u8))
        ensures
            r.0 as int == clamp255(
                sum_active(fullness_v(self.fullness@), crate::schema::opt_cap_view(maybe_capability), 0),
            ),
            r.1 as int == clamp255(
                sum_max(fullness_v(self.fullness@), crate::schema::opt_cap_view(maybe_capability), 0),
            ),
    {
        let ghost fv = fullness_v(self.fullness@);
        let ghost cv = crate::schema::opt_cap_view(maybe_capability);
        let mut active: u8 = 0;
        let mut max: u8 = 0;
        let n = self.fullness.len();
        let mut i: usize = 0;
        proof {
            lemma_sums_nonneg(fv, cv, 0);
        }
        while i < n
            invariant
                n == self.fullness.len(),
                fv == fullness_v(self.fullness@),
                cv == crate::schema::opt_cap_view(maybe_capability),
                0 <= i <= n,
                active as int == clamp255(sum_active(fv, cv, 0) - sum_active(fv, cv, i as int)),
                max as int == clamp255(sum_max(fv, cv, 0) - sum_max(fv, cv, i as int)),
                sum_active(fv, cv, i as int) >= 0,
                sum_max(fv, cv, i as int) >= 0,
                sum_active(fv, cv, 0) - sum_active(fv, cv, i as int) >= 0,
                sum_max(fv, cv, 0) - sum_max(fv, cv, i as int) >= 0,
            decreases n - i,
        {
            proof {
                assert(fv[i as int] == (self.fullness@[i as int].0@, self.fullness@[i as int].1));
                lemma_sums_nonneg(fv, cv, i as int);
                lemma_sums_nonneg(fv, cv, i + 1);
                lemma_prefix_sum_step(fv, cv, i as int);
            }
            let selected = match &maybe_capability {
                None => true,
                Some(c) => c.satisfied_by(&self.fullness[i].0),
            };
            if selected {
                let (a, m) = self.fullness[i].1;
                active = if active as u16 + a as u16 > 255 {
                    255
                } else {
                    active + a
                };
                max = if max as u16 + m as u16 > 255 {
                    255
                } else {
                    max + m
                };
            }
            i = i + 1;
        }
        proof {
            assert(sum_active(fv, cv, n as int) == 0);
            assert(sum_max(fv, cv, n as int) == 0);
        }
        (active, max)
    }
}

/// One step of the selected-sum decomposition: the sum from `i` equals the
/// contribution of entry `i` plus the sum from `i + 1`.
proof fn lemma_prefix_sum_step(f: Seq<(CapV, (u8, u8))>, c: Option<CapV>, i: int)
    requires
        0 <= i < f.len(),
    ensures
        sum_active(f, c, i) == (if matcher_selects(c, f[i].0) {
            f[i].1.0 as int
        } else {
            0int
        }) + sum_active(f, c, i + 1),
        sum_max(f, c, i) == (if matcher_selects(c, f[i].0) {
            f[i].1.1 as int
        } else {
            0int
        }) + sum_max(f, c, i + 1),
{
}

/// A complete hub: identity plus transient state.
#[derive(Debug, Clone)]
pub struct Hub {
    pub meta: HubMetadata,
    pub state: HubState,
}

impl Default for HubState {
    /// Empty tables, unhealthy, no recorded failures.
    fn default() -> (r: Self)
        ensures
            r.fullness@.len() == 0,
            r.stereotypes@.len() == 0,
            r.readiness == HubReadiness::Unhealthy,
            r.consecutive_healthcheck_failures == 0,
            r.wf(),
    {
        let r = HubState {
            fullness: Vec::new(),
            stereotypes: Vec::new(),
            readiness: HubReadiness::Unhealthy,
            consecutive_healthcheck_failures: 0,
        };
        proof {
            assert(fullness_v(r.fullness@) =~= Seq::<(CapV, (u8, u8))>::empty());
            assert(stereos_v(r.stereotypes@) =~= Seq::<StereoV>::empty());
        }
        r
    }
}

/// Relies on `uuid::Uuid::new_v4` and `Uuid::as_u128`: a freshly drawn
/// random identifier, returned as its 128-bit value. Nothing is promised
/// of the value.
#[verifier::external_body]
fn fresh_uuid() -> u128 {
    uuid::Uuid::new_v4().as_u128()
}

/// Relies on `std::collections::hash_map::DefaultHasher`: a 64-bit hash of
/// the string's bytes. Nothing is promised of the value.
#[verifier::external_body]
fn hash64_of_str(s: &str) -> u64 {
    let mut hasher = std::collections::hash_map::DefaultHasher::new();
    std::hash::Hash::hash(s, &mut hasher);
    std::hash::Hasher::finish(&hasher)
}

/// The URL-safe base64 alphabet character for a 6-bit value.
pub open spec fn b64_char(v: int) -> char {
    if v < 26 {
        ((v + 65) as u8) as char
    } else if v < 52 {
        ((v + 71) as u8) as char
    } else if v < 62 {
        ((v - 4) as u8) as char
    } else if v == 62 {
        '-'
    } else {
        '_'
    }
}

/// URL-safe base64 without padding, per the usual 6-bit grouping.
pub open spec fn spec_base64url_nopad(bs: Seq<u8>) -> Seq<char>
    decreases bs.len(),
{
    if bs.len() == 0 {
        Seq::empty()
    } else if bs.len() == 1 {
        let b0 = bs[0] as int;
        seq![b64_char(b0 / 4), b64_char((b0 % 4) * 16)]
    } else if bs.len() == 2 {
        let b0 = bs[0] as int;
        let b1 = bs[1] as int;
        seq![b64_char(b0 / 4), b64_char((b0 % 4) * 16 + b1 / 16), b64_char((b1 % 16) * 4)]
    } else {
        let b0 = bs[0] as int;
        let b1 = bs[1] as int;
        let b2 = bs[2] as int;
        seq![
            b64_char(b0 / 4),
            b64_char((b0 % 4) * 16 + b1 / 16),
            b64_char((b1 % 16) * 4 + b2 / 64),
            b64_char(b2 % 64),
        ] + spec_base64url_nopad(bs.skip(3))
    }
}

/// Four bytes encode to six characters: one full 3-byte group and one
/// trailing byte.
pub proof fn lemma_base64url_len4(bs: Seq<u8>)
    requires
        bs.len() == 4,
    ensures
        spec_base64url_nopad(bs).len() == 6,
{
    reveal_with_fuel(spec_base64url_nopad, 3);
    assert(bs.skip(3).len() == 1);
}

/// Relies on the base64 crate's `URL_SAFE_NO_PAD` engine: standard URL-safe
/// alphabet, no padding, 6-bit groups most significant first.
#[verifier::external_body]
fn b64_url_nopad(bytes: &Vec<u8>) -> (r: String)
    ensures
        r@ == spec_base64url_nopad(bytes@),
{
    base64::Engine::encode(&base64::engine::general_purpose::URL_SAFE_NO_PAD, bytes)
}

impl Hub {
    /// A new hub with a label derived from a hash of its URL: `Hub_`
    /// followed by the six-character tag of four hash bytes.
    pub fn new(url: String) -> (r: Hub)
        ensures
            r.meta.url@ == url@,
            r.meta.name@.len() == 10,
            r.meta.name@.subrange(0, 4) == "Hub_"@,
            r.state.wf(),
            r.state.readiness == HubReadiness::Unhealthy,
            r.state.consecutive_healthcheck_failures == 0,
            r.state.fullness@.len() == 0,
            r.state.stereotypes@.len() == 0,
    {
        let h = hash64_of_str(url.as_str());
        let mut bytes: Vec<u8> = Vec::new();
        bytes.push((h % 256) as u8);
        bytes.push(((h / 256) % 256) as u8);
        bytes.push(((h / 65536) % 256) as u8);
        bytes.push(((h / 16777216) % 256) as u8);
        let tag = b64_url_nopad(&bytes);
        let mut name = String::new();
        name.append("Hub_");
        name.append(tag.as_str());
        proof {
            reveal_strlit("Hub_");
            lemma_base64url_len4(bytes@);
            assert(name@.len() == 10);
            assert(name@.subrange(0, 4) =~= "Hub_"@);
        }
        Hub::new_with_name(name.as_str(), url)
    }

    /// A new hub with the given label and a freshly drawn identifier.
    pub fn new_with_name(name: &str, url: String) -> (r: Hub)
        ensures
            r.meta.name@ == name@,
            r.meta.url@ == url@,
            r.state.wf(),
            r.state.readiness == HubReadiness::Unhealthy,
            r.state.consecutive_healthcheck_failures == 0,
            r.state.fullness@.len() == 0,
            r.state.stereotypes@.len() == 0,
    {
        Hub {
            meta: HubMetadata { name: name.to_owned(), url, uuid: fresh_uuid() },
            state: HubState::default(),
        }
    }

    /// A hub rebuilt from persisted metadata: transient state is reset.
    pub fn from_meta(meta: HubMetadata) -> (r: Hub)
        ensures
            r.meta == meta,
            r.state.wf(),
            r.state.readiness == HubReadiness::Unhealthy,
            r.state.consecutive_healthcheck_failures == 0,
            r.state.fullness@.len() == 0,
            r.state.stereotypes@.len() == 0,
    {
        Hub { meta, state: HubState::default() }
    }

    /// A copy of this hub that keeps the metadata and resets the state.
    pub fn clone_from_meta(&self) -> (r: Hub)
        ensures
            r.meta.name@ == self.meta.name@,
            r.meta.url@ == self.meta.url@,
            r.meta.uuid == self.meta.uuid,
            r.state.wf(),
            r.state.readiness == HubReadiness::Unhealthy,
            r.state.consecutive_healthcheck_failures == 0,
            r.state.fullness@.len() == 0,
            r.state.stereotypes@.len() == 0,
    {
        Hub {
            meta: HubMetadata {
                name: self.meta.name.clone(),
                url: self.meta.url.clone(),
                uuid: self.meta.uuid,
            },
            state: HubState::default(),
        }
    }

    /// Whether any observed stereotype of this hub satisfies the matcher.
    pub fn can_satisfy_capability(&self, capability: &NewSessionRequestCapability) -> (r: bool)
        ensures
            r == spec_can_satisfy(stereos_v(self.state.stereotypes@), capability@),
    {
        let n = self.state.stereotypes.len();
        for i in 0..n
            invariant
                n == self.state.stereotypes.len(),
                forall|j: int|
                    0 <= j < i ==> !cap_matches_stereo(
                        capability@,
                        stereos_v(self.state.stereotypes@)[j],
                    ),
        {
            proof {
                assert(stereos_v(self.state.stereotypes@)[i as int]
                    == self.state.stereotypes@[i as int]@);
            }
            let st = &self.state.stereotypes[i];
            let browser_ok = match &capability.browserName {
                None => true,
                Some(b) => crate::strutil::str_eq_ignore_case(b.as_str(), st.browserName.as_str()),
            };
            let platform_ok = match &capability.platformName {
                None => true,
                Some(p) => crate::strutil::str_eq_ignore_case(p.as_str(), st.platformName.as_str()),
            };
            if browser_ok && platform_ok {
                return true;
            }
        }
        false
    }

    /// Whether this hub is both ready and able to satisfy the matcher.
    pub fn is_ready_and_capable(&self, capability: &NewSessionRequestCapability) -> (r: bool)
        ensures
            r == (spec_can_satisfy(stereos_v(self.state.stereotypes@), capability@)
                && self.state.readiness == HubReadiness::Ready),
    {
        self.can_satisfy_capability(capability) && self.get_ready()
    }

    /// Whether the hub is ready.
    fn get_ready(&self) -> (r: bool)
        ensures
            r == (self.state.readiness == HubReadiness::Ready),
    {
        match self.state.readiness {
            HubReadiness::Ready => true,
            HubReadiness::Unhealthy => false,
        }
    }

    /// Record a failed healthcheck: the failure counter rises (saturating
    /// at 255), and reaching three failures demotes the hub.
    pub fn fail_healthcheck(&mut self) -> (r: HubReadiness)
        requires
            old(self).state.wf(),
        ensures
            final(self).state.consecutive_healthcheck_failures == (if old(
                self,
            ).state.consecutive_healthcheck_failures < 255 {
                old(self).state.consecutive_healthcheck_failures + 1
            } else {
                255int
            }),
            final(self).state.readiness == (if final(self).state.consecutive_healthcheck_failures
                >= 3 {
                HubReadiness::Unhealthy
            } else {
                old(self).state.readiness
            }),
            final(self).meta == old(self).meta,
            final(self).state.fullness == old(self).state.fullness,
            final(self).state.stereotypes == old(self).state.stereotypes,
            final(self).state.wf(),
            r == final(self).state.readiness,
    {
        if self.state.consecutive_healthcheck_failures < 255 {
            self.state.consecutive_healthcheck_failures =
            self.state.consecutive_healthcheck_failures + 1;
        }
        if self.state.consecutive_healthcheck_failures >= 3 {
            self.state.readiness = HubReadiness::Unhealthy;
        }
        self.state.readiness
    }

    /// Record a successful healthcheck: the failure counter resets and the
    /// hub becomes ready at once.
    pub fn succeed_healthcheck(&mut self) -> (r: HubReadiness)
        requires
            old(self).state.wf(),
        ensures
            final(self).state.consecutive_healthcheck_failures == 0,
            final(self).state.readiness == HubReadiness::Ready,
            final(self).meta == old(self).meta,
            final(self).state.fullness == old(self).state.fullness,
            final(self).state.stereotypes == old(self).state.stereotypes,
            final(self).state.wf(),
            r == HubReadiness::Ready,
    {
        self.state.consecutive_healthcheck_failures = 0;
        self.state.readiness = HubReadiness::Ready;
        self.state.readiness
    }
}

/// Whether any stereotype in the list satisfies the matcher.
pub open spec fn spec_can_satisfy(sts: Seq<StereoV>, c: CapV) -> bool {
    exists|i: int| 0 <= i < sts.len() && cap_matches_stereo(c, #[trigger] sts[i])
}

/// Three or more consecutive healthcheck failures mean the hub is not
/// ready: a well-formed hub with a saturated failure counter is unhealthy.
pub proof fn lemma_failures_imply_unhealthy(h: Hub)
    requires
        h.state.wf(),
        h.state.consecutive_healthcheck_failures >= 3,
    ensures
        h.state.readiness == HubReadiness::Unhealthy,
{
}

/// A ready hub has strictly fewer than three consecutive failures; its
/// counter is exactly zero at the moment readiness is granted, which is the
/// contract of `succeed_healthcheck`.
pub proof fn lemma_ready_implies_few_failures(h: Hub)
    requires
        h.state.wf(),
        h.state.readiness == HubReadiness::Ready,
    ensures
        h.state.consecutive_healthcheck_failures < 3,
{
}

/// The capability key naming exactly a stereotype.
pub open spec fn stereo_to_cap(st: StereoV) -> CapV {
    CapV { browser: Some(st.browser), platform: Some(st.platform) }
}

/// The first position at or after `i` whose key is case-insensitively
/// equal to `k`; the length if there is none.
pub open spec fn find_cap_from(f: Seq<(CapV, (u8, u8))>, k: CapV, i: int) -> int
    decreases f.len() - i,
{
    if !(0 <= i && i < f.len()) {
        f.len() as int
    } else if cap_eqi(f[i].0, k) {
        i
    } else {
        find_cap_from(f, k, i + 1)
    }
}

/// Bounds and meaning of `find_cap_from`.
pub proof fn lemma_find_cap(f: Seq<(CapV, (u8, u8))>, k: CapV, i: int)
    requires
        0 <= i <= f.len(),
    ensures
        i <= find_cap_from(f, k, i) <= f.len(),
        find_cap_from(f, k, i) < f.len() ==> cap_eqi(f[find_cap_from(f, k, i)].0, k),
        forall|q: int| i <= q < find_cap_from(f, k, i) ==> !cap_eqi(#[trigger] f[q].0, k),
    decreases f.len() - i,
{
    if i < f.len() && !cap_eqi(f[i].0, k) {
        lemma_find_cap(f, k, i + 1);
    }
}

/// One slot's contribution to a fullness table: the entry for its
/// stereotype gains one unit of capacity, and one active unit when the
/// slot holds a session; a missing entry is created.
pub open spec fn acc_entry(m: Seq<(CapV, (u8, u8))>, st: StereoV, active: bool) -> Seq<
    (CapV, (u8, u8)),
> {
    let k = stereo_to_cap(st);
    let a: int = if active {
        1
    } else {
        0
    };
    let j = find_cap_from(m, k, 0);
    if j < m.len() {
        m.update(j, (m[j].0, (clamp255(m[j].1.0 + a) as u8, clamp255(m[j].1.1 + 1) as u8)))
    } else {
        m.push((k, (a as u8, 1u8)))
    }
}

/// The fullness table after folding in a node's slots from position `i`.
pub open spec fn fold_slots(slots: Seq<SlotV>, i: int, m: Seq<(CapV, (u8, u8))>) -> Seq<
    (CapV, (u8, u8)),
>
    decreases slots.len() - i,
{
    if !(0 <= i && i < slots.len()) {
        m
    } else {
        fold_slots(slots, i + 1, acc_entry(m, slots[i].stereotype, slots[i].session is Some))
    }
}

/// The fullness table after folding in all slots of the nodes from
/// position `i`.
pub open spec fn fold_nodes(nodes: Seq<NodeV>, i: int, m: Seq<(CapV, (u8, u8))>) -> Seq<
    (CapV, (u8, u8)),
>
    decreases nodes.len() - i,
{
    if !(0 <= i && i < nodes.len()) {
        m
    } else {
        fold_nodes(nodes, i + 1, fold_slots(nodes[i].slots, 0, m))
    }
}

/// The fullness table a `/status` document prescribes.
pub open spec fn spec_fullness_of(st: StatusV) -> Seq<(CapV, (u8, u8))> {
    fold_nodes(st.value.nodes, 0, Seq::empty())
}

/// Folding in a slot keeps the fullness table well-formed.
pub proof fn lemma_acc_entry_wf(m: Seq<(CapV, (u8, u8))>, st: StereoV, active: bool)
    requires
        wf_fullness(m),
    ensures
        wf_fullness(acc_entry(m, st, active)),
{
    let k = stereo_to_cap(st);
    lemma_find_cap(m, k, 0);
    let j = find_cap_from(m, k, 0);
    let r = acc_entry(m, st, active);
    if j < m.len() {
        assert forall|x: int, y: int| 0 <= x < y < r.len() implies !cap_eqi(
            #[trigger] r[x].0,
            #[trigger] r[y].0,
        ) by {
            assert(r[x].0 == m[x].0);
            assert(r[y].0 == m[y].0);
        }
    } else {
        assert forall|x: int, y: int| 0 <= x < y < r.len() implies !cap_eqi(
            #[trigger] r[x].0,
            #[trigger] r[y].0,
        ) by {
            if y < m.len() {
                assert(r[x].0 == m[x].0);
                assert(r[y].0 == m[y].0);
            } else {
                assert(r[x].0 == m[x].0);
                assert(r[y].0 == k);
            }
        }
    }
}

/// Add one slot's contribution to a fullness table.
#[verifier::rlimit(100)]
#[verifier::spinoff_prover]
#[verifier::loop_isolation(false)]
fn fullness_add(
    m: &mut Vec<(NewSessionRequestCapability, (u8, u8))>,
    st: &HubStatusStereotypeJSONSchema,
    has_session: bool,
)
    requires
        wf_fullness(fullness_v(old(m)@)),
    ensures
        fullness_v(final(m)@) == acc_entry(fullness_v(old(m)@), st@, has_session),
        wf_fullness(fullness_v(final(m)@)),
{
    let ghost fv = fullness_v(m@);
    let ghost k = stereo_to_cap(st@);
    proof {
        lemma_find_cap(fv, k, 0);
        lemma_acc_entry_wf(fv, st@, has_session);
    }
    let key = st.duplicate().to_capability();
    proof {
        assert(key@ == k);
    }
    let n = m.len();
    let mut j: usize = 0;
    while j < n
        invariant
            n == m.len(),
            fv == fullness_v(m@),
            k == stereo_to_cap(st@),
            key@ == k,
            0 <= j <= n,
            find_cap_from(fv, k, 0) == find_cap_from(fv, k, j as int),
        decreases n - j,
    {
        proof {
            assert(fv[j as int] == (m@[j as int].0@, m@[j as int].1));
        }
        if m[j].0.eqi(&key) {
            let (a, mx) = m[j].1;
            let add: u8 = if has_session {
                1
            } else {
                0
            };
            let na: u8 = if a as u16 + add as u16 > 255 {
                255
            } else {
                a + add
            };
            let nm: u8 = if mx as u16 + 1 > 255 {
                255
            } else {
                mx + 1
            };
            let k0 = m[j].0.duplicate();
            let ghost before = m@;
            let ghost ai: int = if has_session {
                1
            } else {
                0
            };
            m[j] = (k0, (na, nm));
            proof {
                assert(fv == fullness_v(before));
                assert(m@ =~= before.update(j as int, (k0, (na, nm))));
                assert(k0@ == fv[j as int].0);
                assert(na as int == clamp255(fv[j as int].1.0 + ai));
                assert(nm as int == clamp255(fv[j as int].1.1 + 1));
                assert(find_cap_from(fv, k, j as int) == j as int);
                assert(acc_entry(fv, st@, has_session) == fv.update(
                    j as int,
                    (
                        fv[j as int].0,
                        (
                            clamp255(fv[j as int].1.0 + ai) as u8,
                            clamp255(fv[j as int].1.1 + 1) as u8,
                        ),
                    ),
                ));
                assert(fullness_v(m@) =~= acc_entry(fv, st@, has_session));
            }
            return ;
        }
        j = j + 1;
    }
    let add: u8 = if has_session {
        1
    } else {
        0
    };
    m.push((key, (add, 1)));
    proof {
        assert(find_cap_from(fv, k, 0) == fv.len());
        assert(fullness_v(m@) =~= acc_entry(fv, st@, has_session));
    }
}

/// The fullness table derived from a `/status` document: for each slot,
/// keyed by its stereotype, one unit of capacity and one active unit per
/// held session, counts saturating at 255.
pub fn compute_hub_fullness(status: &HubStatusJSONSchema) -> (r: Vec<
    (NewSessionRequestCapability, (u8, u8)),
>)
    ensures
        fullness_v(r@) == spec_fullness_of(status@),
        wf_fullness(fullness_v(r@)),
{
    let mut m: Vec<(NewSessionRequestCapability, (u8, u8))> = Vec::new();
    proof {
        assert(fullness_v(m@) =~= Seq::<(CapV, (u8, u8))>::empty());
    }
    let ghost nodes_v = status@.value.nodes;
    let nn = status.value.nodes.len();
    for ni in 0..nn
        invariant
            nn == status.value.nodes.len(),
            nodes_v == status@.value.nodes,
            wf_fullness(fullness_v(m@)),
            fold_nodes(nodes_v, ni as int, fullness_v(m@)) == spec_fullness_of(status@),
    {
        let ghost slots_v = nodes_v[ni as int].slots;
        proof {
            assert(nodes_v[ni as int] == status.value.nodes@[ni as int]@);
        }
        let ns = status.value.nodes[ni].slots.len();
        for si in 0..ns
            invariant
                0 <= ni < nn,
                nn == status.value.nodes.len(),
                ns == status.value.nodes@[ni as int].slots.len(),
                nodes_v == status@.value.nodes,
                slots_v == nodes_v[ni as int].slots,
                wf_fullness(fullness_v(m@)),
                fold_nodes(nodes_v, ni + 1, fold_slots(slots_v, si as int, fullness_v(m@)))
                    == spec_fullness_of(status@),
        {
            proof {
                assert(slots_v[si as int] == status.value.nodes@[ni as int].slots@[si as int]@);
            }
            let slot = &status.value.nodes[ni].slots[si];
            fullness_add(&mut m, &slot.stereotype, slot.session.is_some());
        }
        proof {
            assert(fold_slots(slots_v, ns as int, fullness_v(m@)) == fullness_v(m@));
        }
    }
    proof {
        assert(fold_nodes(nodes_v, nn as int, fullness_v(m@)) == fullness_v(m@));
    }
    m
}

/// The first position at or after `i` holding a stereotype
/// case-insensitively equal to `x`; the length if there is none.
pub open spec fn find_stereo_from(st: Seq<StereoV>, x: StereoV, i: int) -> int
    decreases st.len() - i,
{
    if !(0 <= i && i < st.len()) {
        st.len() as int
    } else if stereo_eqi(st[i], x) {
        i
    } else {
        find_stereo_from(st, x, i + 1)
    }
}

/// Bounds and meaning of `find_stereo_from`.
pub proof fn lemma_find_stereo(st: Seq<StereoV>, x: StereoV, i: int)
    requires
        0 <= i <= st.len(),
    ensures
        i <= find_stereo_from(st, x, i) <= st.len(),
        find_stereo_from(st, x, i) < st.len() ==> stereo_eqi(st[find_stereo_from(st, x, i)], x),
        forall|q: int| i <= q < find_stereo_from(st, x, i) ==> !stereo_eqi(#[trigger] st[q], x),
    decreases st.len() - i,
{
    if i < st.len() && !stereo_eqi(st[i], x) {
        lemma_find_stereo(st, x, i + 1);
    }
}

/// Add one stereotype to the set, if no equivalent one is present.
pub open spec fn add_stereo(st: Seq<StereoV>, x: StereoV) -> Seq<StereoV> {
    if find_stereo_from(st, x, 0) < st.len() {
        st
    } else {
        st.push(x)
    }
}

/// Union in the stereotypes of a node's slots, from position `i`.
pub open spec fn union_slots(slots: Seq<SlotV>, i: int, st: Seq<StereoV>) -> Seq<StereoV>
    decreases slots.len() - i,
{
    if !(0 <= i && i < slots.len()) {
        st
    } else {
        union_slots(slots, i + 1, add_stereo(st, slots[i].stereotype))
    }
}

/// Union in the stereotypes of all slots of the nodes from position `i`.
pub open spec fn union_nodes(nodes: Seq<NodeV>, i: int, st: Seq<StereoV>) -> Seq<StereoV>
    decreases nodes.len() - i,
{
    if !(0 <= i && i < nodes.len()) {
        st
    } else {
        union_nodes(nodes, i + 1, union_slots(nodes[i].slots, 0, st))
    }
}

/// Adding to the set keeps its entries pairwise distinct.
pub proof fn lemma_add_stereo_wf(st: Seq<StereoV>, x: StereoV)
    requires
        wf_stereos(st),
    ensures
        wf_stereos(add_stereo(st, x)),
{
    lemma_find_stereo(st, x, 0);
    let r = add_stereo(st, x);
    if find_stereo_from(st, x, 0) == st.len() {
        assert forall|i: int, j: int| 0 <= i < j < r.len() implies !stereo_eqi(
            #[trigger] r[i],
            #[trigger] r[j],
        ) by {
            if j < st.len() {
                assert(r[i] == st[i] && r[j] == st[j]);
            } else {
                assert(r[i] == st[i] && r[j] == x);
            }
        }
    }
}

/// Add one stereotype to a distinct list, if no equivalent one is there.
#[verifier::loop_isolation(false)]
fn stereo_insert(v: &mut Vec<HubStatusStereotypeJSONSchema>, x: &HubStatusStereotypeJSONSchema)
    requires
        wf_stereos(stereos_v(old(v)@)),
    ensures
        stereos_v(final(v)@) == add_stereo(stereos_v(old(v)@), x@),
        wf_stereos(stereos_v(final(v)@)),
{
    let ghost sv = stereos_v(v@);
    proof {
        lemma_find_stereo(sv, x@, 0);
        lemma_add_stereo_wf(sv, x@);
    }
    let n = v.len();
    let mut j: usize = 0;
    while j < n
        invariant
            n == v.len(),
            sv == stereos_v(v@),
            0 <= j <= n,
            find_stereo_from(sv, x@, 0) == find_stereo_from(sv, x@, j as int),
        decreases n - j,
    {
        proof {
            assert(sv[j as int] == v@[j as int]@);
        }
        if v[j].eqi(x) {
            proof {
                assert(add_stereo(sv, x@) == sv);
            }
            return ;
        }
        j = j + 1;
    }
    v.push(x.duplicate());
    proof {
        assert(stereos_v(v@) =~= sv.push(x@));
        assert(find_stereo_from(sv, x@, 0) == sv.len());
    }
}

impl Hub {
    /// Apply one polled `/status` document: the fullness table is replaced
    /// by the one the document prescribes, the stereotype set is enlarged
    /// by the document's slot stereotypes, and readiness follows node
    /// presence: at least one node counts as a passed healthcheck, an empty
    /// node list as a failed one.
    #[verifier::loop_isolation(false)]
    pub fn apply_status(&mut self, status: &HubStatusJSONSchema)
        requires
            old(self).state.wf(),
        ensures
            final(self).meta == old(self).meta,
            fullness_v(final(self).state.fullness@) == spec_fullness_of(status@),
            stereos_v(final(self).state.stereotypes@) == union_nodes(
                status@.value.nodes,
                0,
                stereos_v(old(self).state.stereotypes@),
            ),
            status@.value.nodes.len() > 0 ==> final(self).state.readiness == HubReadiness::Ready
                && final(self).state.consecutive_healthcheck_failures == 0,
            status@.value.nodes.len() == 0 ==> final(self).state.consecutive_healthcheck_failures
                == (if old(self).state.consecutive_healthcheck_failures < 255 {
                old(self).state.consecutive_healthcheck_failures + 1
            } else {
                255int
            }),
            status@.value.nodes.len() == 0 ==> final(self).state.readiness == (if final(self).state.consecutive_healthcheck_failures >= 3 {
                HubReadiness::Unhealthy
            } else {
                old(self).state.readiness
            }),
            final(self).state.wf(),
    {
        let fullness = compute_hub_fullness(status);
        self.state.fullness = fullness;
        if status.value.nodes.len() > 0 {
            self.succeed_healthcheck();
        } else {
            self.fail_healthcheck();
        }
        let ghost mid = *self;
        let ghost nodes_v = status@.value.nodes;
        let ghost st0 = stereos_v(self.state.stereotypes@);
        let nn = status.value.nodes.len();
        for ni in 0..nn
            invariant
                nn == status.value.nodes.len(),
                nodes_v == status@.value.nodes,
                self.meta == mid.meta,
                self.state.fullness == mid.state.fullness,
                self.state.readiness == mid.state.readiness,
                self.state.consecutive_healthcheck_failures
                    == mid.state.consecutive_healthcheck_failures,
                wf_stereos(stereos_v(self.state.stereotypes@)),
                union_nodes(nodes_v, ni as int, stereos_v(self.state.stereotypes@)) == union_nodes(
                    nodes_v,
                    0,
                    st0,
                ),
        {
            let ghost slots_v = nodes_v[ni as int].slots;
            proof {
                assert(nodes_v[ni as int] == status.value.nodes@[ni as int]@);
            }
            let ns = status.value.nodes[ni].slots.len();
            for si in 0..ns
                invariant
                    0 <= ni < nn,
                    nn == status.value.nodes.len(),
                    ns == status.value.nodes@[ni as int].slots.len(),
                    nodes_v == status@.value.nodes,
                    slots_v == nodes_v[ni as int].slots,
                    self.meta == mid.meta,
                    self.state.fullness == mid.state.fullness,
                    self.state.readiness == mid.state.readiness,
                    self.state.consecutive_healthcheck_failures
                        == mid.state.consecutive_healthcheck_failures,
                    wf_stereos(stereos_v(self.state.stereotypes@)),
                    union_nodes(nodes_v, ni + 1, union_slots(
                        slots_v,
                        si as int,
                        stereos_v(self.state.stereotypes@),
                    )) == union_nodes(nodes_v, 0, st0),
            {
                proof {
                    let ghost se = status.value.nodes@[ni as int].slots@[si as int];
                    assert(slots_v[si as int] == se@);
                }
                let slot = &status.value.nodes[ni].slots[si];
                stereo_insert(&mut self.state.stereotypes, &slot.stereotype);
            }
            proof {
                assert(union_slots(slots_v, ns as int, stereos_v(self.state.stereotypes@))
                    == stereos_v(self.state.stereotypes@));
            }
        }
        proof {
            assert(union_nodes(nodes_v, nn as int, stereos_v(self.state.stereotypes@))
                == stereos_v(self.state.stereotypes@));
        }
    }
}

/// A synthetic `/status` document: the given number of nodes, each with
/// the given `maxSessions` and one occupied slot per running session.
pub fn mock_status_schema(max_sessions: u32, num_nodes: u32, num_running: u32) -> (r:
    HubStatusJSONSchema)
    ensures
        r@.value.ready == true,
        r@.value.nodes.len() == num_nodes,
        forall|i: int|
            0 <= i < num_nodes ==> (#[trigger] r@.value.nodes[i]).slots.len() == num_running
                && r@.value.nodes[i].max_sessions == max_sessions,
        forall|i: int, j: int|
            0 <= i < num_nodes && 0 <= j < num_running ==> (#[trigger] r@.value.nodes[i].slots[j]).session
                is Some,
{
    let mut nodes: Vec<HubStatusNodeJSONSchema> = Vec::new();
    let mut ni: u32 = 0;
    while ni < num_nodes
        invariant
            0 <= ni <= num_nodes,
            nodes@.len() == ni,
            forall|i: int|
                0 <= i < ni ==> (#[trigger] nodes@[i]@).slots.len() == num_running
                    && nodes@[i]@.max_sessions == max_sessions,
            forall|i: int, j: int|
                0 <= i < ni && 0 <= j < num_running ==> (#[trigger] nodes@[i]@.slots[j]).session
                    is Some,
        decreases num_nodes - ni,
    {
        let mut slots: Vec<HubStatusNodeSlotJSONSchema> = Vec::new();
        let mut si: u32 = 0;
        while si < num_running
            invariant
                0 <= si <= num_running,
                slots@.len() == si,
                forall|j: int| 0 <= j < si ==> (#[trigger] slots@[j]@).session is Some,
            decreases num_running - si,
        {
            let slot = HubStatusNodeSlotJSONSchema {
                lastStarted: "null".to_owned(),
                id: HubStatusNodeSlotIDJSONSchema {
                    hostId: "undefined".to_owned(),
                    id: "undefined".to_owned(),
                },
                session: Some(
                    HubStatusNodeSlotSessionJSONSchema {
                        capabilities: None,
                        sessionId: "undefined".to_owned(),
                        start: "undefined".to_owned(),
                        uri: "".to_owned(),
                        stereotype: HubStatusStereotypeJSONSchema {
                            browserName: "nil".to_owned(),
                            platformName: "nil".to_owned(),
                        },
                    },
                ),
                stereotype: HubStatusStereotypeJSONSchema {
                    browserName: "nil".to_owned(),
                    platformName: "nil".to_owned(),
                },
            };
            slots.push(slot);
            si = si + 1;
        }
        let node = HubStatusNodeJSONSchema {
            id: "".to_owned(),
            uri: "".to_owned(),
            maxSessions: max_sessions,
            slots: slots,
            availability: "UP".to_owned(),
            version: "undefined".to_owned(),
            osInfo: HubStatusOSInfoJSONSchema {
                arch: "x86_64".to_owned(),
                name: "foo bar".to_owned(),
                version: "undefined".to_owned(),
            },
        };
        nodes.push(node);
        ni = ni + 1;
    }
    let r = HubStatusJSONSchema {
        value: HubStatusValueJSONSchema { ready: true, message: "UP".to_owned(), nodes: nodes },
    };
    proof {
        assert forall|i: int| 0 <= i < num_nodes implies (#[trigger] r@.value.nodes[i]).slots.len()
            == num_running && r@.value.nodes[i].max_sessions == max_sessions by {
            assert(r@.value.nodes[i] == r.value.nodes@[i]@);
        }
        assert forall|i: int, j: int|
            0 <= i < num_nodes && 0 <= j < num_running implies (#[trigger] r@.value.nodes[i].slots[j]).session
            is Some by {
            assert(r@.value.nodes[i] == r.value.nodes@[i]@);
            assert(r@.value.nodes[i].slots[j] == r.value.nodes@[i].slots@[j]@);
        }
    }
    r
}

} // verus!
