//! The state container: the hub registry together with the runtime
//! configuration, and the persistence codec for both.

use vstd::prelude::*;

use crate::registry::HubRegistry;

verus! {

/// An IPv4 address as four octets.
#[derive(Debug, Clone, Copy, PartialEq, Eq, Structural)]
pub struct Ipv4 {
    pub a: u8,
    pub b: u8,
    pub c: u8,
    pub d: u8,
}

impl Ipv4 {
    /// The address as one 32-bit number, most significant octet first.
    pub open spec fn spec_packed(&self) -> int {
        self.a * 0x1000000 + self.b * 0x10000 + self.c * 0x100 + self.d
    }

    /// Pack the four octets into one number.
    pub fn packed(&self) -> (r: u32)
        ensures
            r as int == self.spec_packed(),
    {
        (self.a as u32) * 0x1000000 + (self.b as u32) * 0x10000 + (self.c as u32) * 0x100
            + self.d as u32
    }

    /// The address the number `v` packs.
    pub fn unpack(v: u32) -> (r: Ipv4)
        ensures
            r.spec_packed() == v as int,
    {
        let a = v / 0x1000000;
        let b = (v / 0x10000) % 0x100;
        let c = (v / 0x100) % 0x100;
        let d = v % 0x100;
        proof {
            assert(a < 0x100 && b < 0x100 && c < 0x100 && d < 0x100 && a * 0x1000000 + b * 0x10000
                + c * 0x100 + d == v) by (bit_vector)
                requires
                    a == v / 0x1000000 && b == (v / 0x10000) % 0x100 && c == (v / 0x100) % 0x100
                        && d == v % 0x100,
            ;
        }
        Ipv4 { a: a as u8, b: b as u8, c: c as u8, d: d as u8 }
    }

    /// The unspecified address, 0.0.0.0.
    pub fn unspecified() -> (r: Ipv4)
        ensures
            r == (Ipv4 { a: 0u8, b: 0u8, c: 0u8, d: 0u8 }),
    {
        Ipv4 { a: 0, b: 0, c: 0, d: 0 }
    }
}

/// The runtime-mutable configuration primitives.
#[derive(Debug, Clone, Copy, PartialEq, Eq, Structural)]
pub struct HubRouterPrimitiveConfigs {
    /// Seconds between reaper sweeps.
    pub reaper_thread_interval: u64,
    /// Minutes a session may stay in the affinity map.
    pub reaper_thread_duration_max: u64,
    /// Seconds between healthcheck rounds.
    pub healthcheck_thread_interval: u64,
    /// Seconds before a single healthcheck is given up.
    pub healthcheck_timeout: u64,
    pub bind_port: u16,
    pub bind_ip: Ipv4,
    pub api_bind_port: u16,
    pub api_bind_ip: Ipv4,
}

/// The documented default configuration.
pub open spec fn spec_default_configs() -> HubRouterPrimitiveConfigs {
    HubRouterPrimitiveConfigs {
        reaper_thread_interval: 60,
        reaper_thread_duration_max: 30,
        healthcheck_thread_interval: 1,
        healthcheck_timeout: 1,
        bind_port: 6543,
        bind_ip: Ipv4 { a: 0, b: 0, c: 0, d: 0 },
        api_bind_port: 8080,
        api_bind_ip: Ipv4 { a: 0, b: 0, c: 0, d: 0 },
    }
}

impl Default for HubRouterPrimitiveConfigs {
    /// The documented defaults.
    fn default() -> (r: Self)
        ensures
            r == spec_default_configs(),
            r.reaper_thread_interval == 60,
            r.reaper_thread_duration_max == 30,
            r.healthcheck_thread_interval == 1,
            r.healthcheck_timeout == 1,
            r.bind_port == 6543,
            r.bind_ip == (Ipv4 { a: 0u8, b: 0u8, c: 0u8, d: 0u8 }),
            r.api_bind_port == 8080,
            r.api_bind_ip == (Ipv4 { a: 0u8, b: 0u8, c: 0u8, d: 0u8 }),
    {
        HubRouterPrimitiveConfigs {
            reaper_thread_interval: 60,
            reaper_thread_duration_max: 30,
            healthcheck_thread_interval: 1,
            healthcheck_timeout: 1,
            bind_port: 6543,
            bind_ip: Ipv4 { a: 0, b: 0, c: 0, d: 0 },
            api_bind_port: 8080,
            api_bind_ip: Ipv4 { a: 0, b: 0, c: 0, d: 0 },
        }
    }
}

/// All configurable state of one proxy instance: the registered hubs and
/// the configuration primitives. Session affinity is runtime-only state
/// and lives outside.
pub struct HubRouterState {
    pub hubs: HubRegistry,
    pub configs: HubRouterPrimitiveConfigs,
}

impl HubRouterState {
    /// A state with no hubs and default configuration.
    pub fn new() -> (r: HubRouterState)
        ensures
            r.hubs.hubs() == crate::registry::empty_hub_map(),
            r.hubs.inv(),
            r.configs == spec_default_configs(),
    {
        HubRouterState { hubs: HubRegistry::new(), configs: HubRouterPrimitiveConfigs::default() }
    }

    /// Seconds between reaper sweeps.
    pub fn get_reaper_interval_secs(&self) -> (r: Option<u64>)
        ensures
            r == Some(self.configs.reaper_thread_interval),
    {
        Some(self.configs.reaper_thread_interval)
    }

    /// Minutes a session may stay in the affinity map.
    pub fn get_reaper_max_session_mins(&self) -> (r: Option<u64>)
        ensures
            r == Some(self.configs.reaper_thread_duration_max),
    {
        Some(self.configs.reaper_thread_duration_max)
    }

    /// Seconds between healthcheck rounds.
    pub fn get_healthcheck_interval_secs(&self) -> (r: Option<u64>)
        ensures
            r == Some(self.configs.healthcheck_thread_interval),
    {
        Some(self.configs.healthcheck_thread_interval)
    }

    /// Set one keyed configuration value; the recognized keys are
    /// `healthcheck_interval`, `healthcheck_timeout`, `reaper_interval` and
    /// `reaper_max_duration`. Returns whether the key was recognized.
    pub fn set_config(&mut self, key: &str, value: u64) -> (r: bool)
        ensures
            final(self).hubs == old(self).hubs,
            r <==> (key@ == "healthcheck_interval"@ || key@ == "healthcheck_timeout"@ || key@
                == "reaper_interval"@ || key@ == "reaper_max_duration"@),
            key@ == "healthcheck_interval"@ ==> final(self).configs
                == (HubRouterPrimitiveConfigs { healthcheck_thread_interval: value, ..old(self).configs }),
            key@ == "healthcheck_timeout"@ ==> final(self).configs
                == (HubRouterPrimitiveConfigs { healthcheck_timeout: value, ..old(self).configs }),
            key@ == "reaper_interval"@ ==> final(self).configs
                == (HubRouterPrimitiveConfigs { reaper_thread_interval: value, ..old(self).configs }),
            key@ == "reaper_max_duration"@ ==> final(self).configs
                == (HubRouterPrimitiveConfigs { reaper_thread_duration_max: value, ..old(self).configs }),
            !r ==> final(self).configs == old(self).configs,
    {
        proof {
            lemma_config_keys_distinct();
        }
        if crate::strutil::str_eq(key, "healthcheck_interval") {
            self.configs.healthcheck_thread_interval = value;
            true
        } else if crate::strutil::str_eq(key, "healthcheck_timeout") {
            self.configs.healthcheck_timeout = value;
            true
        } else if crate::strutil::str_eq(key, "reaper_interval") {
            self.configs.reaper_thread_interval = value;
            true
        } else if crate::strutil::str_eq(key, "reaper_max_duration") {
            self.configs.reaper_thread_duration_max = value;
            true
        } else {
            false
        }
    }

    /// Read one keyed configuration value, under the same keys that
    /// `set_config` recognizes.
    pub fn get_config(&self, key: &str) -> (r: Option<u64>)
        ensures
            key@ == "healthcheck_interval"@ ==> r == Some(self.configs.healthcheck_thread_interval),
            key@ == "healthcheck_timeout"@ ==> r == Some(self.configs.healthcheck_timeout),
            key@ == "reaper_interval"@ ==> r == Some(self.configs.reaper_thread_interval),
            key@ == "reaper_max_duration"@ ==> r == Some(self.configs.reaper_thread_duration_max),
            r is None <==> !(key@ == "healthcheck_interval"@ || key@ == "healthcheck_timeout"@
                || key@ == "reaper_interval"@ || key@ == "reaper_max_duration"@),
    {
        proof {
            lemma_config_keys_distinct();
        }
        if crate::strutil::str_eq(key, "healthcheck_interval") {
            Some(self.configs.healthcheck_thread_interval)
        } else if crate::strutil::str_eq(key, "healthcheck_timeout") {
            Some(self.configs.healthcheck_timeout)
        } else if crate::strutil::str_eq(key, "reaper_interval") {
            Some(self.configs.reaper_thread_interval)
        } else if crate::strutil::str_eq(key, "reaper_max_duration") {
            Some(self.configs.reaper_thread_duration_max)
        } else {
            None
        }
    }

    /// Replace the whole configuration.
    pub fn set_entire_config(&mut self, config: HubRouterPrimitiveConfigs)
        ensures
            final(self).configs == config,
            final(self).hubs == old(self).hubs,
    {
        self.configs = config;
    }

    /// A copy of the whole configuration.
    pub fn get_entire_config(&self) -> (r: HubRouterPrimitiveConfigs)
        ensures
            r == self.configs,
    {
        self.configs
    }
}

/// The four configuration keys are pairwise distinct.
proof fn lemma_config_keys_distinct()
    ensures
        "healthcheck_interval"@ != "healthcheck_timeout"@,
        "healthcheck_interval"@ != "reaper_interval"@,
        "healthcheck_interval"@ != "reaper_max_duration"@,
        "healthcheck_timeout"@ != "reaper_interval"@,
        "healthcheck_timeout"@ != "reaper_max_duration"@,
        "reaper_interval"@ != "reaper_max_duration"@,
{
    reveal_strlit("healthcheck_interval");
    reveal_strlit("healthcheck_timeout");
    reveal_strlit("reaper_interval");
    reveal_strlit("reaper_max_duration");
    assert("healthcheck_interval"@.len() == 20);
    assert("healthcheck_timeout"@.len() == 19);
    assert("reaper_interval"@.len() == 15);
    assert("reaper_max_duration"@.len() == 19);
    assert("healthcheck_timeout"@[0] == 'h' && "reaper_max_duration"@[0] == 'r');
}

} // verus!
