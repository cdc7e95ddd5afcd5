//! A WebDriver-aware reverse proxy core: hub registry with a health state
//! machine, capability-aware weighted routing, session affinity, and the
//! JSON codecs the proxy needs for hub status, session bodies and persistence.

pub mod codec;
pub mod handler;
pub mod hub;
pub mod json;
pub mod logger;
pub mod persist;
pub mod registry;
pub mod routing;
pub mod schema;
pub mod state;
pub mod strutil;
pub mod urlutil;
