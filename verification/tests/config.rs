use gatekeeper_rs::config::{
    merge_overlay, resolve_overlay, CheckMethod, Config, OverlayFile, PartialConfig, ServiceConfig,
    DEFAULT_RECOVERY_DELAY,
};

fn service(name: &str) -> ServiceConfig {
    ServiceConfig {
        name: name.into(),
        url: "http://x".into(),
        method: CheckMethod::Http,
        restart_command: "true".into(),
        recovery_delay: DEFAULT_RECOVERY_DELAY,
    }
}

/// The configuration of the sample file: `interval_secs = 30`, one service.
fn sample() -> Config {
    Config { interval_secs: 30, discord_webhook_url: None, services: vec![service("a")] }
}

#[test]
fn no_testconfig_means_no_banner() {
    let r = resolve_overlay(sample(), OverlayFile::Absent);
    assert!(r.banner.is_none());
    assert_eq!(r.config.interval_secs, 30);
}

#[test]
fn testconfig_overlay_overrides_interval_and_emits_banner() {
    // testconfig.toml holds only `interval_secs = 5`.
    let overlay = PartialConfig { interval_secs: Some(5), discord_webhook_url: None, services: None };
    let r = resolve_overlay(sample(), OverlayFile::Parsed(overlay));
    assert_eq!(r.config.interval_secs, 5);
    assert!(r.banner.as_deref().unwrap_or("").contains("TEST MODE"));
}

#[test]
fn broken_testconfig_falls_back_with_warning_banner() {
    let r = resolve_overlay(
        sample(),
        OverlayFile::Malformed("expected `=`, found `[`".to_string()),
    );
    assert_eq!(r.config.interval_secs, 30, "base config must win when overlay broken");
    let banner = r.banner.unwrap_or_default();
    assert!(banner.contains("parse error") || banner.contains("⚠"),
        "expected fallback banner, got: {banner:?}");
}

#[test]
fn test_mode_banner_counts_services_and_interval() {
    let overlay = PartialConfig {
        interval_secs: None,
        discord_webhook_url: Some("https://hook".into()),
        services: Some(vec![service("x"), service("y"), service("z")]),
    };
    let r = resolve_overlay(sample(), OverlayFile::Parsed(overlay));
    assert_eq!(
        r.banner.as_deref(),
        Some("⚠ TEST MODE — testconfig.toml active (3 services, poll every 30s)")
    );
    assert_eq!(r.config.services.len(), 3);
    assert_eq!(r.config.discord_webhook_url.as_deref(), Some("https://hook"));
}

#[test]
fn unreadable_overlay_keeps_base_and_says_why() {
    let r = resolve_overlay(sample(), OverlayFile::Unreadable("Permission denied".to_string()));
    assert_eq!(r.config.services.len(), 1);
    assert_eq!(
        r.banner.as_deref(),
        Some("⚠ testconfig.toml found but unreadable (Permission denied) — using config.toml")
    );
}

#[test]
fn empty_overlay_changes_nothing() {
    let mut base = sample();
    base.discord_webhook_url = Some("https://base".into());
    let merged = merge_overlay(
        base,
        PartialConfig { interval_secs: None, discord_webhook_url: None, services: None },
    );
    assert_eq!(merged.interval_secs, 30);
    assert_eq!(merged.discord_webhook_url.as_deref(), Some("https://base"));
    assert_eq!(merged.services[0].name, "a");
}
