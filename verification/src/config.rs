//! The monitor's configuration: the services to watch, the polling interval,
//! the alert webhook, and the rule by which an optional test overlay is laid
//! over the base configuration.

use vstd::prelude::*;
use crate::text::{decimal, push_decimal, push_str};

verus! {

/// The number of seconds a service is given to recover by itself before its
/// restart command runs, when the configuration does not say.
pub const DEFAULT_RECOVERY_DELAY: u64 = 30;

/// How a service is probed: an HTTP request, or a bare TCP connect.
#[derive(Debug, Clone, Copy, PartialEq, Eq, Structural)]
pub enum CheckMethod {
    Http,
    Tcp,
}

/// One monitored service.
#[derive(Debug, Clone)]
pub struct ServiceConfig {
    pub name: String,
    /// HTTP: full URL (e.g. "http://host:port/health") | TCP: "host:port"
    pub url: String,
    pub method: CheckMethod,
    pub restart_command: String,
    /// Seconds to wait after a service goes down before restarting it.
    pub recovery_delay: u64,
}

/// The whole configuration.
#[derive(Debug, Clone)]
pub struct Config {
    pub interval_secs: u64,
    pub discord_webhook_url: Option<String>,
    pub services: Vec<ServiceConfig>,
}

/// A configuration in which every field may be missing: the shape of the
/// test overlay file.
#[derive(Debug, Clone)]
pub struct PartialConfig {
    pub interval_secs: Option<u64>,
    pub discord_webhook_url: Option<String>,
    /// If present, replaces the *entire* services list of the base.
    pub services: Option<Vec<ServiceConfig>>,
}

/// The configuration to run with, and an optional startup message for the
/// events panel (test mode warning, etc.).
#[derive(Debug)]
pub struct LoadResult {
    pub config: Config,
    pub banner: Option<String>,
}

/// What was found where the test overlay file would be.
#[derive(Debug)]
pub enum OverlayFile {
    /// No overlay file exists.
    Absent,
    /// The file exists but could not be read; the reason is given.
    Unreadable(String),
    /// The file was read but does not parse; the parser's message is given.
    Malformed(String),
    /// The file was read and parsed.
    Parsed(PartialConfig),
}

/// The abstract value of a service entry.
pub struct ServiceConfigView {
    pub name: Seq<char>,
    pub url: Seq<char>,
    pub method: CheckMethod,
    pub restart_command: Seq<char>,
    pub recovery_delay: u64,
}

impl View for ServiceConfig {
    type V = ServiceConfigView;

    open spec fn view(&self) -> ServiceConfigView {
        ServiceConfigView {
            name: self.name@,
            url: self.url@,
            method: self.method,
            restart_command: self.restart_command@,
            recovery_delay: self.recovery_delay,
        }
    }
}

/// The abstract value of a configuration.
pub struct ConfigView {
    pub interval_secs: u64,
    pub discord_webhook_url: Option<Seq<char>>,
    pub services: Seq<ServiceConfigView>,
}

/// The view of an optional string.
pub open spec fn opt_string_view(s: Option<String>) -> Option<Seq<char>> {
    match s {
        Some(t) => Some(t@),
        None => None,
    }
}

impl View for Config {
    type V = ConfigView;

    open spec fn view(&self) -> ConfigView {
        ConfigView {
            interval_secs: self.interval_secs,
            discord_webhook_url: opt_string_view(self.discord_webhook_url),
            services: self.services@.map_values(|s: ServiceConfig| s@),
        }
    }
}

/// Merges an overlay into a base configuration: each field the overlay sets
/// wins; each field it leaves out keeps the base value.
pub fn merge_overlay(base: Config, partial: PartialConfig) -> (c: Config)
    ensures
        c.interval_secs == (match partial.interval_secs {
            Some(i) => i,
            None => base.interval_secs,
        }),
        c.discord_webhook_url == (match partial.discord_webhook_url {
            Some(u) => Some(u),
            None => base.discord_webhook_url,
        }),
        c.services == (match partial.services {
            Some(s) => s,
            None => base.services,
        }),
{
    Config {
        interval_secs: match partial.interval_secs {
            Some(i) => i,
            None => base.interval_secs,
        },
        discord_webhook_url: match partial.discord_webhook_url {
            Some(u) => Some(u),
            None => base.discord_webhook_url,
        },
        services: match partial.services {
            Some(s) => s,
            None => base.services,
        },
    }
}

/// The banner for an overlay file that exists but cannot be read.
pub open spec fn unreadable_banner(reason: Seq<char>) -> Seq<char> {
    "⚠ testconfig.toml found but unreadable ("@ + reason + ") — using config.toml"@
}

/// The banner for an overlay file that does not parse.
pub open spec fn malformed_banner(reason: Seq<char>) -> Seq<char> {
    "⚠ testconfig.toml parse error: "@ + reason + " — falling back to config.toml"@
}

/// The banner for an overlay that is in force.
pub open spec fn test_mode_banner(services: nat, interval: nat) -> Seq<char> {
    "⚠ TEST MODE — testconfig.toml active ("@ + decimal(services) + " services, poll every "@
        + decimal(interval) + "s)"@
}

/// Decides the configuration to run with from the base configuration and
/// what was found of the test overlay. Problems with the overlay never fail:
/// they fall back to the base and say so in the banner.
pub fn resolve_overlay(base: Config, overlay: OverlayFile) -> (r: LoadResult)
    ensures
        match overlay {
            OverlayFile::Absent => r.config == base && r.banner is None,
            OverlayFile::Unreadable(e) => r.config == base && r.banner is Some
                && r.banner->0@ == unreadable_banner(e@),
            OverlayFile::Malformed(e) => r.config == base && r.banner is Some
                && r.banner->0@ == malformed_banner(e@),
            OverlayFile::Parsed(p) => {
                &&& r.config.interval_secs == (match p.interval_secs {
                    Some(i) => i,
                    None => base.interval_secs,
                })
                &&& r.config.discord_webhook_url == (match p.discord_webhook_url {
                    Some(u) => Some(u),
                    None => base.discord_webhook_url,
                })
                &&& r.config.services == (match p.services {
                    Some(s) => s,
                    None => base.services,
                })
                &&& r.banner is Some
                &&& r.banner->0@ == test_mode_banner(
                    r.config.services@.len(),
                    r.config.interval_secs as nat,
                )
            },
        },
{
    match overlay {
        OverlayFile::Absent => LoadResult { config: base, banner: None },
        OverlayFile::Unreadable(e) => {
            let mut b = String::new();
            push_str(&mut b, "⚠ testconfig.toml found but unreadable (");
            push_str(&mut b, e.as_str());
            push_str(&mut b, ") — using config.toml");
            LoadResult { config: base, banner: Some(b) }
        },
        OverlayFile::Malformed(e) => {
            let mut b = String::new();
            push_str(&mut b, "⚠ testconfig.toml parse error: ");
            push_str(&mut b, e.as_str());
            push_str(&mut b, " — falling back to config.toml");
            LoadResult { config: base, banner: Some(b) }
        },
        OverlayFile::Parsed(p) => {
            let merged = merge_overlay(base, p);
            let count = merged.services.len();
            let mut b = String::new();
            push_str(&mut b, "⚠ TEST MODE — testconfig.toml active (");
            push_decimal(&mut b, count as u64);
            push_str(&mut b, " services, poll every ");
            push_decimal(&mut b, merged.interval_secs);
            push_str(&mut b, "s)");
            LoadResult { config: merged, banner: Some(b) }
        },
    }
}


/// The banners: an unreadable overlay and a malformed one each name the
/// reason and say the base configuration is used; an overlay in force says
/// test mode is on, with the number of services and the poll interval.
pub proof fn law_overlay_banners(reason: Seq<char>, services: nat, interval: nat)
    ensures
        unreadable_banner(reason) == "⚠ testconfig.toml found but unreadable ("@ + reason
            + ") — using config.toml"@,
        malformed_banner(reason) == "⚠ testconfig.toml parse error: "@ + reason
            + " — falling back to config.toml"@,
        test_mode_banner(services, interval) == "⚠ TEST MODE — testconfig.toml active ("@
            + decimal(services) + " services, poll every "@ + decimal(interval) + "s)"@,
{
}

} // verus!
