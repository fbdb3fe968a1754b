//! The coalescing dispatcher: the single long-lived owner of the cache and
//! configuration that serializes all outbound traffic.
//!
//! A cycle has four steps: accept the submission observed while the ingress
//! queue was empty (collapsing bursts to their latest submission), resolve it
//! through the cache, on a miss send the built request and store the answer,
//! and throttle so that consecutive cycles are spaced by the configured rate
//! interval. The blocking receive, the HTTP transport and the sleep are the
//! caller's; every decision between them is made here.

use crate::cache::{insert_model, lookup, promote, Cache, Entry, Query};
use crate::config::{config_valid, Config, ConfigError};
use crate::mode::{mode_code, Mode};
use crate::prompt::{build, endpoint, endpoint_url, is_request_for, ChatRequest};
use crate::response::{
    answer_candidates, first_nonempty, handle_response, json_body_parses, status_success,
    BackendError,
};
use vstd::prelude::*;

verus! {

/// One raw input event from the UI: the text as typed plus the requested
/// transformation mode. It carries no identity beyond its content and is
/// consumed at most once.
#[derive(Debug)]
pub struct Submission {
    pub text: String,
    pub mode: Mode,
}

/// The submission a burst collapses to: the latest one.
pub open spec fn coalesce_spec(received: Submission, queued: Seq<Submission>) -> Submission {
    if queued.len() == 0 {
        received
    } else {
        queued.last()
    }
}

/// Collapses a burst. `received` is what the blocking receive handed back;
/// `queued` is everything found behind it when the queue was drained, oldest
/// first. All but the latest submission are dropped silently: this models
/// "process only once the user has paused", not batching.
pub fn coalesce(received: Submission, queued: Vec<Submission>) -> (r: Submission)
    ensures
        r == coalesce_spec(received, queued@),
{
    let mut queued = queued;
    match queued.pop() {
        Some(s) => s,
        None => received,
    }
}

/// Coalescing: of a burst enqueued back-to-back before any drain, exactly
/// one submission is processed, and it is the last of the burst.
pub proof fn lemma_coalesce_picks_last(received: Submission, queued: Seq<Submission>)
    ensures
        coalesce_spec(received, queued) == (seq![received] + queued).last(),
{
    if queued.len() == 0 {
        assert((seq![received] + queued).last() == received);
    }
}

/// The delay still owed after a cycle took `elapsed_ms`: whatever remains of
/// the rate interval.
pub open spec fn throttle_spec(rate_interval_ms: u64, elapsed_ms: u64) -> u64 {
    if elapsed_ms >= rate_interval_ms {
        0u64
    } else {
        (rate_interval_ms - elapsed_ms) as u64
    }
}

/// How long to sleep before the next cycle may start.
pub fn throttle_delay(rate_interval_ms: u64, elapsed_ms: u64) -> (r: u64)
    ensures
        r == throttle_spec(rate_interval_ms, elapsed_ms),
{
    if elapsed_ms >= rate_interval_ms {
        0
    } else {
        rate_interval_ms - elapsed_ms
    }
}

/// Rate limiting: the time a cycle took plus the delay it still owes always
/// covers the configured interval, so consecutive emissions are spaced by at
/// least the rate interval.
pub proof fn lemma_rate_spacing(rate_interval_ms: u64, elapsed_ms: u64)
    ensures
        elapsed_ms + throttle_spec(rate_interval_ms, elapsed_ms) >= rate_interval_ms,
{
}

/// The accepted text with leading and trailing whitespace removed.
pub uninterp spec fn trim_of(s: Seq<char>) -> Seq<char>;

/// Relies on str::trim: the trimmed text depends on the characters alone.
#[verifier::external_body]
fn trim_text(s: &str) -> (r: String)
    ensures
        r@ == trim_of(s@),
{
    s.trim().to_owned()
}

/// How an accepted submission is resolved once the cache has been consulted.
#[derive(Debug)]
pub enum Resolution {
    /// The output was already cached; no outbound request is made.
    Cached(String),
    /// A cache miss: this request must be posted to `url` with `token` as
    /// the bearer credential, and the response handed to `finish_cycle`.
    Outbound { request: ChatRequest, url: String, token: String },
}

/// What the transport handed back for an outbound request.
#[derive(Debug)]
pub enum FetchOutcome {
    /// An HTTP response arrived.
    Response { status: u16, body: String },
    /// The request produced no response: timeout, connection or name
    /// resolution failure.
    TransportFailed,
}

/// The single owner of the request cache and the shared configuration.
pub struct Dispatcher {
    cache: Cache,
    config: Config,
}

impl Dispatcher {
    /// The cached entries in recency order, most-recently-used first.
    pub closed spec fn entries(&self) -> Seq<Entry> {
        self.cache.entries()
    }

    /// The cache capacity currently in force.
    pub closed spec fn capacity(&self) -> nat {
        self.cache.capacity()
    }

    /// The configuration currently in force.
    pub closed spec fn configuration(&self) -> Config {
        self.config
    }

    /// Well-formedness: the cache is well formed, the configuration valid,
    /// and the cache sized as the configuration asks.
    pub closed spec fn wf(&self) -> bool {
        &&& self.cache.wf()
        &&& config_valid(&self.config)
        &&& self.cache.capacity() == self.config.cache_size
    }

    /// Sets the dispatcher up with its initial configuration and an empty
    /// cache of the configured capacity.
    pub fn new(config: Config) -> (r: Result<Dispatcher, ConfigError>)
        ensures
            config_valid(&config) ==> (r matches Ok(d) && d.wf() && d.configuration() == config
                && d.entries() == Seq::<Entry>::empty() && d.capacity() == config.cache_size),
            !config_valid(&config) ==> (r matches Err(e) && e
                == ConfigError::ZeroCacheCapacity),
    {
        match Cache::new(config.cache_size) {
            Ok(cache) => Ok(Dispatcher { cache, config }),
            Err(e) => Err(e),
        }
    }

    /// A copy of the configuration currently in force.
    pub fn get_config(&self) -> (r: Config)
        ensures
            r == self.configuration(),
    {
        self.config.duplicate()
    }

    /// Replaces the configuration wholesale and installs a fresh, empty
    /// cache, since cached answers may depend on the backend and the target
    /// language. An invalid configuration is rejected and the running state
    /// kept: the dispatcher goes on with the last good configuration.
    pub fn set_config(&mut self, new_config: Config) -> (r: Result<(), ConfigError>)
        requires
            old(self).wf(),
        ensures
            final(self).wf(),
            config_valid(&new_config) ==> (r is Ok && final(self).configuration() == new_config
                && final(self).entries() == Seq::<Entry>::empty() && final(self).capacity()
                == new_config.cache_size),
            !config_valid(&new_config) ==> (r matches Err(e) && e
                == ConfigError::ZeroCacheCapacity && *final(self) == *old(self)),
    {
        match Cache::new(new_config.cache_size) {
            Ok(cache) => {
                self.cache = cache;
                self.config = new_config;
                Ok(())
            },
            Err(e) => Err(e),
        }
    }

    /// The first half of a cycle: normalizes the accepted text, consults the
    /// cache, and either hands back the cached output (the lookup counts as a
    /// use) or the fully built outbound request. An outbound request is
    /// returned exactly when the cache misses.
    pub fn begin_cycle(&mut self, text: &str, mode: Mode) -> (r: Resolution)
        requires
            old(self).wf(),
        ensures
            final(self).wf(),
            final(self).configuration() == old(self).configuration(),
            final(self).capacity() == old(self).capacity(),
            ({
                let k = (trim_of(text@), mode_code(mode));
                let e = old(self).entries();
                &&& (r is Cached <==> lookup(e, k) is Some)
                &&& (r matches Resolution::Cached(out) ==> Some(out@) == lookup(e, k)
                    && final(self).entries() == promote(e, k))
                &&& (r matches Resolution::Outbound { request, url, token } ==> {
                    &&& final(self).entries() == e
                    &&& is_request_for(
                        request,
                        mode,
                        trim_of(text@),
                        old(self).configuration().language@,
                        old(self).configuration().backend,
                    )
                    &&& url@ == endpoint_url(old(self).configuration().backend)
                    &&& token == old(self).configuration().token
                })
            }),
    {
        let trimmed = trim_text(text);
        let q = Query { text: trimmed, mode };
        match self.cache.get(&q) {
            Some(out) => Resolution::Cached(out),
            None => {
                let request = build(
                    mode,
                    q.text.as_str(),
                    self.config.language.as_str(),
                    self.config.backend,
                );
                let url = endpoint(self.config.backend).to_owned();
                let token = self.config.token.clone();
                Resolution::Outbound { request, url, token }
            },
        }
    }

    /// The second half of a cycle after an outbound request: classifies the
    /// transport outcome, extracts the answer from a successful response, and
    /// stores it in the cache under the submission's trimmed text and mode.
    /// On any failure the cycle is aborted with the error and the cache is
    /// left untouched; nothing is emitted for it.
    pub fn finish_cycle(&mut self, text: &str, mode: Mode, outcome: FetchOutcome) -> (r: Result<
        String,
        BackendError,
    >)
        requires
            old(self).wf(),
        ensures
            final(self).wf(),
            final(self).configuration() == old(self).configuration(),
            final(self).capacity() == old(self).capacity(),
            ({
                let k = (trim_of(text@), mode_code(mode));
                let e = old(self).entries();
                match outcome {
                    FetchOutcome::TransportFailed => r matches Err(x) && x is Transport
                        && final(self).entries() == e,
                    FetchOutcome::Response { status, body } => {
                        &&& !status_success(status) ==> (r matches Err(x) && (
                        x matches BackendError::Rejected { status: s2, body: b2 } && s2 == status
                            && b2@ == body@) && final(self).entries() == e)
                        &&& (status_success(status) && !json_body_parses(body@)) ==> (
                        r matches Err(x) && x is Decode && final(self).entries() == e)
                        &&& (status_success(status) && json_body_parses(body@)) ==> (
                        r matches Ok(out) && out@ == first_nonempty(answer_candidates(body@))
                            && final(self).entries() == insert_model(
                            e,
                            old(self).capacity(),
                            k,
                            out@,
                        ))
                    },
                }
            }),
    {
        match outcome {
            FetchOutcome::TransportFailed => Err(BackendError::Transport),
            FetchOutcome::Response { status, body } => {
                match handle_response(status, body.as_str()) {
                    Err(e) => Err(e),
                    Ok(out) => {
                        let q = Query { text: trim_text(text), mode };
                        let _evicted = self.cache.put(&q, out.clone());
                        Ok(out)
                    },
                }
            },
        }
    }
}

} // verus!
