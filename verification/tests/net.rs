//! The outbound-host check.

use solx_actions::config::Config;
use solx_actions::error::SolxError;
use solx_actions::net::check_outbound_url;

fn cfg_with(prefixes: &[&str], legacy: &[&str]) -> Config {
    Config {
        allowed_base_urls: prefixes.iter().map(|s| s.to_string()).collect(),
        allowed_webhook_base_urls: legacy.iter().map(|s| s.to_string()).collect(),
        command_actions: vec![],
        appdata: "/appdata".to_string(),
        logs_dir: "/logs".to_string(),
        background_timeout_secs: 3600,
        stop_grace_secs: 5,
        invocation_ttl_days: 7,
        http_stream_max_buffer_bytes: 1024,
        http_stream_idle_ttl_secs: 60,
    }
}

fn refusal(cfg: &Config, url: &str) -> String {
    check_outbound_url(cfg, url).unwrap_err().message()
}

#[test]
fn unset_allowlist_denies_everything() {
    let err = refusal(&cfg_with(&[], &[]), "https://example.com/x");
    assert!(err.contains("allowed_base_urls"), "{err}");
}

#[test]
fn empty_allowlist_denies_everything() {
    let mut cfg = cfg_with(&[], &[]);
    cfg.allowed_base_urls = vec![];
    assert!(check_outbound_url(&cfg, "https://example.com/x").is_err());
}

#[test]
fn a_listed_prefix_passes_and_an_unlisted_one_does_not() {
    let cfg = cfg_with(&["https://example.com/"], &[]);
    assert!(check_outbound_url(&cfg, "https://example.com/a/b").is_ok());
    assert!(check_outbound_url(&cfg, "https://evil.example.net/").is_err());
}

#[test]
fn a_prefix_match_is_not_a_substring_match() {
    let cfg = cfg_with(&["https://example.com/"], &[]);
    assert!(check_outbound_url(&cfg, "https://evil.net/?u=https://example.com/").is_err());
}

#[test]
fn non_http_schemes_are_refused_whatever_is_allowed() {
    let cfg = cfg_with(&["about:", "file:///", "javascript:"], &[]);
    for url in ["about:blank", "file:///etc/passwd", "javascript:alert(1)", "data:text/html,x"] {
        let err = refusal(&cfg, url);
        assert!(err.contains("http:// or https://"), "{url}: {err}");
    }
}

#[test]
fn the_legacy_config_key_still_gates() {
    let cfg = cfg_with(&[], &["https://legacy.example.com/"]);
    assert!(check_outbound_url(&cfg, "https://legacy.example.com/x").is_ok());
    assert!(check_outbound_url(&cfg, "https://other.example.com/x").is_err());
}

#[test]
fn both_lists_count_together() {
    let cfg = cfg_with(&["https://new.example.com/"], &["https://old.example.com/"]);
    assert!(check_outbound_url(&cfg, "https://new.example.com/x").is_ok());
    assert!(check_outbound_url(&cfg, "https://old.example.com/x").is_ok());
}

#[test]
fn refusals_are_execution_errors() {
    let cfg = cfg_with(&["https://example.com/"], &[]);
    assert_eq!(
        check_outbound_url(&cfg, "ftp://example.com/"),
        Err(SolxError::Exec("outbound URL 'ftp://example.com/' must use http:// or https://".to_string()))
    );
    assert_eq!(
        check_outbound_url(&cfg, "http://example.com/"),
        Err(SolxError::Exec(
            "outbound URL 'http://example.com/' does not match any prefix in solx-config.json's 'allowed_base_urls' allowlist; add a matching prefix there to allow this request".to_string()
        ))
    );
}
