use quicklime::config::{Config, ConfigError};
use quicklime::dispatch::{
    coalesce, throttle_delay, Dispatcher, FetchOutcome, Resolution, Submission,
};
use quicklime::mode::{Backend, Mode};

fn sub(text: &str, mode: Mode) -> Submission {
    Submission { text: text.to_owned(), mode }
}

fn test_config() -> Config {
    Config {
        backend: Backend::ChatGpt,
        token: "test-token".to_owned(),
        language: "French".to_owned(),
        rate_interval_ms: 500,
        cache_size: 16,
    }
}

fn ok_body(answer: &str) -> FetchOutcome {
    let mut body = "{\"choices\":[{\"message\":{\"content\":\"".to_owned();
    body.push_str(answer);
    body.push_str("\"}}]}");
    FetchOutcome::Response { status: 200, body }
}

#[test]
fn coalescing_a_burst_keeps_only_the_last() {
    let received = sub("h", Mode::Translation);
    let queued = vec![
        sub("he", Mode::Translation),
        sub("hel", Mode::Translation),
        sub("hello", Mode::Translation),
    ];
    let winner = coalesce(received, queued);
    assert_eq!(winner.text, "hello");
}

#[test]
fn an_empty_queue_keeps_the_received_submission() {
    let winner = coalesce(sub("hello", Mode::Polishing), Vec::new());
    assert_eq!(winner.text, "hello");
    assert_eq!(winner.mode, Mode::Polishing);
}

#[test]
fn throttle_delay_fills_up_the_rate_interval() {
    assert_eq!(throttle_delay(500, 200), 300);
    assert_eq!(throttle_delay(500, 500), 0);
    assert_eq!(throttle_delay(500, 900), 0);
    assert_eq!(throttle_delay(0, 0), 0);
}

#[test]
fn zero_cache_capacity_rejects_the_dispatcher() {
    let mut config = test_config();
    config.cache_size = 0;
    assert!(matches!(Dispatcher::new(config), Err(ConfigError::ZeroCacheCapacity)));
}

#[test]
fn scenario_hello_translation_to_french() {
    let mut d = Dispatcher::new(test_config()).unwrap();
    let mut outbound_calls = 0;

    // first submission: a miss that asks for a backend call
    let r = d.begin_cycle("hello", Mode::Translation);
    let output = match r {
        Resolution::Cached(_) => panic!("a fresh cache cannot hit"),
        Resolution::Outbound { request, url, token } => {
            outbound_calls += 1;
            assert_eq!(url, "https://api.openai.com/v1/chat/completions");
            assert_eq!(token, "test-token");
            assert_eq!(
                request.messages[0].content,
                "You are a professional translation engine. Please translate the text into French without explanation."
            );
            assert_eq!(request.messages[2].content, "hello");
            d.finish_cycle("hello", Mode::Translation, ok_body("bonjour")).unwrap()
        }
    };
    assert_eq!(output, "bonjour");

    // second identical submission: answered from the cache, no new call
    let r = d.begin_cycle("hello", Mode::Translation);
    match r {
        Resolution::Cached(out) => assert_eq!(out, "bonjour"),
        Resolution::Outbound { .. } => panic!("a cached pair must not go out again"),
    }
    assert_eq!(outbound_calls, 1);
}

#[test]
fn submissions_are_trimmed_before_caching() {
    let mut d = Dispatcher::new(test_config()).unwrap();
    match d.begin_cycle("  hello \n", Mode::Translation) {
        Resolution::Outbound { request, .. } => {
            assert_eq!(request.messages[2].content, "hello");
        }
        Resolution::Cached(_) => panic!("a fresh cache cannot hit"),
    }
    d.finish_cycle("  hello \n", Mode::Translation, ok_body("bonjour")).unwrap();
    // the untrimmed and the trimmed spelling are one cache entry
    match d.begin_cycle("hello", Mode::Translation) {
        Resolution::Cached(out) => assert_eq!(out, "bonjour"),
        Resolution::Outbound { .. } => panic!("trimmed text must hit the cached entry"),
    }
}

#[test]
fn identical_text_under_two_modes_goes_out_twice() {
    let mut d = Dispatcher::new(test_config()).unwrap();
    assert!(matches!(
        d.begin_cycle("hello", Mode::Translation),
        Resolution::Outbound { .. }
    ));
    d.finish_cycle("hello", Mode::Translation, ok_body("bonjour")).unwrap();
    // the same text under another mode is independent: it misses
    assert!(matches!(
        d.begin_cycle("hello", Mode::Polishing),
        Resolution::Outbound { .. }
    ));
    d.finish_cycle("hello", Mode::Polishing, ok_body("hello!")).unwrap();
    // and each mode keeps its own output
    match d.begin_cycle("hello", Mode::Translation) {
        Resolution::Cached(out) => assert_eq!(out, "bonjour"),
        _ => panic!("expected the translation entry"),
    }
    match d.begin_cycle("hello", Mode::Polishing) {
        Resolution::Cached(out) => assert_eq!(out, "hello!"),
        _ => panic!("expected the polishing entry"),
    }
}

#[test]
fn replacing_the_config_invalidates_the_cache() {
    let mut d = Dispatcher::new(test_config()).unwrap();
    assert!(matches!(
        d.begin_cycle("hello", Mode::Translation),
        Resolution::Outbound { .. }
    ));
    d.finish_cycle("hello", Mode::Translation, ok_body("bonjour")).unwrap();

    let mut new_config = test_config();
    new_config.language = "German".to_owned();
    d.set_config(new_config).unwrap();

    // the previously cached pair now misses and asks for a fresh call
    match d.begin_cycle("hello", Mode::Translation) {
        Resolution::Outbound { request, .. } => {
            assert_eq!(
                request.messages[0].content,
                "You are a professional translation engine. Please translate the text into German without explanation."
            );
        }
        Resolution::Cached(_) => panic!("a replaced configuration must empty the cache"),
    }
}

#[test]
fn invalid_replacement_keeps_the_running_state() {
    let mut d = Dispatcher::new(test_config()).unwrap();
    d.begin_cycle("hello", Mode::Translation);
    d.finish_cycle("hello", Mode::Translation, ok_body("bonjour")).unwrap();

    let mut bad = test_config();
    bad.cache_size = 0;
    assert!(matches!(d.set_config(bad), Err(ConfigError::ZeroCacheCapacity)));

    // the last good configuration and the cache stay in force
    assert_eq!(d.get_config().language, "French");
    assert!(matches!(
        d.begin_cycle("hello", Mode::Translation),
        Resolution::Cached(out) if out == "bonjour"
    ));
}

#[test]
fn failed_cycles_store_nothing() {
    let mut d = Dispatcher::new(test_config()).unwrap();
    d.begin_cycle("hello", Mode::Translation);
    let r = d.finish_cycle("hello", Mode::Translation, FetchOutcome::TransportFailed);
    assert!(matches!(r, Err(quicklime::response::BackendError::Transport)));
    // a failed attempt leaves no cache entry behind
    assert!(matches!(
        d.begin_cycle("hello", Mode::Translation),
        Resolution::Outbound { .. }
    ));
}

#[test]
fn grok_backend_selects_its_endpoint_and_model() {
    let mut config = test_config();
    config.backend = Backend::Grok;
    let mut d = Dispatcher::new(config).unwrap();
    match d.begin_cycle("hello", Mode::Completion) {
        Resolution::Outbound { request, url, .. } => {
            assert_eq!(url, "https://api.x.ai/v1/chat/completions");
            assert_eq!(request.model, "grok-2-latest");
        }
        Resolution::Cached(_) => panic!("a fresh cache cannot hit"),
    }
}

#[test]
fn get_config_reads_back_what_was_set() {
    let d = Dispatcher::new(test_config()).unwrap();
    let c = d.get_config();
    assert_eq!(c.backend, Backend::ChatGpt);
    assert_eq!(c.token, "test-token");
    assert_eq!(c.language, "French");
    assert_eq!(c.rate_interval_ms, 500);
    assert_eq!(c.cache_size, 16);
}

#[test]
fn default_config_values() {
    let c = Config::default();
    assert_eq!(c.backend, Backend::ChatGpt);
    assert_eq!(c.token, "");
    assert_eq!(c.language, "English");
    assert_eq!(c.rate_interval_ms, 500);
    assert_eq!(c.cache_size, 1024);
}
