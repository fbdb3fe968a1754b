//! Shared configuration: backend selection, credential token, target
//! language, minimum spacing between outbound calls, and cache capacity.

use crate::mode::Backend;
use vstd::prelude::*;

verus! {

/// Externally replaceable configuration read on every pipeline cycle.
#[derive(Debug)]
pub struct Config {
    /// Which LLM provider outbound requests go to.
    pub backend: Backend,
    /// Opaque credential sent as a bearer token.
    pub token: String,
    /// Target language, used only in translation prompts.
    pub language: String,
    /// Minimum spacing between outbound cycles, in milliseconds.
    pub rate_interval_ms: u64,
    /// Capacity of the request cache; must be positive.
    pub cache_size: usize,
}

/// An invalid configuration value found at setup or replacement time.
#[derive(Clone, Copy, Debug, PartialEq, Eq, Structural)]
pub enum ConfigError {
    /// The requested cache capacity was zero.
    ZeroCacheCapacity,
}

/// A configuration is usable when its cache capacity is positive.
pub open spec fn config_valid(c: &Config) -> bool {
    c.cache_size >= 1
}

impl Config {
    /// A field-for-field copy; `Clone` written by hand so the copy is known
    /// to equal the original.
    pub fn duplicate(&self) -> (r: Config)
        ensures
            r == *self,
    {
        Config {
            backend: self.backend,
            token: self.token.clone(),
            language: self.language.clone(),
            rate_interval_ms: self.rate_interval_ms,
            cache_size: self.cache_size,
        }
    }
}

impl Default for Config {
    /// The fallback used when no persisted configuration can be read.
    fn default() -> (r: Config)
        ensures
            r.backend == Backend::ChatGpt,
            r.token@ == Seq::<char>::empty(),
            r.language@ == "English"@,
            r.rate_interval_ms == 500,
            r.cache_size == 1024,
            config_valid(&r),
    {
        Config {
            backend: Backend::ChatGpt,
            token: String::new(),
            language: "English".to_owned(),
            rate_interval_ms: 500,
            cache_size: 1024,
        }
    }
}

} // verus!
