use gatekeeper_rs::config::{CheckMethod, Config, ServiceConfig};
use gatekeeper_rs::config_wizard::{
    delay_with_digit, edit_form_titles, parse_systemctl_output, scanner_title, service_label,
    too_small_message, ConfigWizard, GlobalField, KeyCode, KeyEvent, KeyModifiers, ScanOutcome,
    ScanResult, Screen, ServiceField, Tone, WizardRequest, WizardStatus,
};

fn key(c: char) -> KeyEvent {
    KeyEvent::new(KeyCode::Char(c), KeyModifiers::empty())
}

fn enter() -> KeyEvent {
    KeyEvent::new(KeyCode::Enter, KeyModifiers::empty())
}

fn code(c: KeyCode) -> KeyEvent {
    KeyEvent::new(c, KeyModifiers::empty())
}

// ── Wizard input validation ─────────────────────────────────────────────────

#[test]
fn interval_rejects_zero() {
    let mut w = ConfigWizard::new();
    w.interval = "0".into();
    w.validate_interval();
    assert!(w.errors.contains_key("interval"));
}

#[test]
fn interval_rejects_non_numeric() {
    let mut w = ConfigWizard::new();
    w.interval = "abc".into();
    w.validate_interval();
    assert!(w.errors.contains_key("interval"));
}

#[test]
fn interval_rejects_empty() {
    let mut w = ConfigWizard::new();
    w.interval.clear();
    w.validate_interval();
    assert!(w.errors.contains_key("interval"));
}

#[test]
fn interval_accepts_positive() {
    let mut w = ConfigWizard::new();
    w.interval = "30".into();
    w.validate_interval();
    assert!(!w.errors.contains_key("interval"));
}

#[test]
fn interval_keystroke_filters_letters() {
    // In GlobalSettings/Interval, only digits should append to the buffer.
    let mut w = ConfigWizard::new();
    w.screen = Screen::GlobalSettings;
    w.global_focus = GlobalField::Interval;
    w.interval.clear();
    w.handle_input(key('a'));
    assert_eq!(w.interval, "");
    w.handle_input(key('5'));
    assert_eq!(w.interval, "5");
    w.handle_input(key('q'));
    assert_eq!(w.interval, "5");
}

#[test]
fn empty_service_fields_flagged() {
    let mut w = ConfigWizard::new();
    // default ServiceForm has all empty strings
    w.validate_service(0);
    assert!(w.errors.contains_key("svc_0_name"));
    assert!(w.errors.contains_key("svc_0_url"));
    assert!(w.errors.contains_key("svc_0_cmd"));
}

#[test]
fn filled_service_passes_validation() {
    let mut w = ConfigWizard::new();
    w.services[0].name = "nginx".into();
    w.services[0].url = "http://localhost".into();
    w.services[0].restart_command = "echo ok".into();
    w.validate_service(0);
    assert!(!w.errors.contains_key("svc_0_name"));
    assert!(!w.errors.contains_key("svc_0_url"));
    assert!(!w.errors.contains_key("svc_0_cmd"));
}

// ── Menu navigation ─────────────────────────────────────────────────────────

#[test]
fn add_service_menu_creates_new_form() {
    let mut w = ConfigWizard::new();
    let before = w.services.len();
    w.menu_index = 2; // "Add New Service"
    w.handle_input(enter());
    assert_eq!(w.services.len(), before + 1);
    assert!(matches!(w.screen, Screen::ServiceEdit(_)));
}

#[test]
fn delete_keeps_at_least_one_service() {
    let mut w = ConfigWizard::new();
    w.screen = Screen::ServiceList;
    // Default has 1 service. D should refuse and emit an Error status.
    w.handle_input(key('d'));
    assert_eq!(w.services.len(), 1);
    assert!(matches!(w.status, Some(WizardStatus::Error(_))));
}

// ── Scanner ─────────────────────────────────────────────────────────────────

#[test]
fn parse_systemctl_extracts_name_and_description() {
    let stdout = "\
UNIT                    LOAD   ACTIVE SUB     DESCRIPTION
nginx.service           loaded active running A high performance web server
redis.service           loaded active running Advanced key-value store
3 loaded units listed.";
    let out = parse_systemctl_output(stdout);
    assert_eq!(out.len(), 2);
    assert_eq!(out[0].name, "nginx.service");
    assert!(out[0].description.contains("high performance"));
    assert_eq!(out[1].name, "redis.service");
}

#[test]
fn parse_systemctl_skips_header_and_footer() {
    // Header rows lack ".service" + "loaded" → should be filtered.
    let stdout = "\
UNIT  LOAD  ACTIVE  SUB  DESCRIPTION
0 loaded units listed.";
    assert_eq!(parse_systemctl_output(stdout).len(), 0);
}

#[test]
fn scanner_shows_friendly_error_when_systemctl_missing() {
    // systemctl cannot be started: a friendly status, not a crash.
    let mut w = ConfigWizard::new();
    let req = w.handle_input(key('s'));
    assert!(matches!(req, WizardRequest::Scan));
    w.finish_scan(ScanOutcome::NotAvailable);
    match &w.status {
        Some(WizardStatus::Error(msg)) => {
            assert!(msg.contains("Linux") || msg.contains("Systemd"), "unexpected error: {msg}");
        }
        other => panic!("expected Error status, got {other:?}"),
    }
    // Must also NOT switch into the Scanner screen
    assert!(!matches!(w.screen, Screen::Scanner));
}

// ── More behaviour of the wizard ────────────────────────────────────────────

#[test]
fn description_joins_remaining_columns_with_single_spaces() {
    let out = parse_systemctl_output("ssh.service loaded active running OpenBSD   Secure\tShell server\r\n");
    assert_eq!(out.len(), 1);
    assert_eq!(out[0].name, "ssh.service");
    assert_eq!(out[0].description, "OpenBSD Secure Shell server");
}

#[test]
fn rows_of_units_not_loaded_or_not_services_are_skipped() {
    let out = parse_systemctl_output(
        "a.socket loaded active running x\nb.service not-found inactive dead y\nc.service loaded active\n",
    );
    assert!(out.is_empty());
}

#[test]
fn scan_then_pick_prefills_a_new_service() {
    let mut w = ConfigWizard::new();
    w.screen = Screen::ServiceList;
    let req = w.handle_input(key('S'));
    assert!(matches!(req, WizardRequest::Scan));
    assert_eq!(w.scanner_return, Screen::ServiceList);
    w.finish_scan(ScanOutcome::Listed(
        "nginx.service loaded active running Web server\n".to_string(),
    ));
    assert_eq!(w.screen, Screen::Scanner);
    w.handle_input(enter());
    assert_eq!(w.services.len(), 2);
    assert_eq!(w.services[1].name, "nginx");
    assert_eq!(w.services[1].restart_command, "sudo systemctl restart nginx.service");
    assert_eq!(w.services[1].url, "");
    assert_eq!(w.services[1].method, CheckMethod::Http);
    assert_eq!(w.screen, Screen::ServiceEdit(1));
    assert_eq!(w.edit_focus, ServiceField::Url);
    match &w.status {
        Some(WizardStatus::Info(m)) => assert_eq!(m, "Imported 'nginx' — fill in URL/Address."),
        other => panic!("expected Info status, got {other:?}"),
    }
}

#[test]
fn esc_from_scanner_returns_to_where_scan_started() {
    let mut w = ConfigWizard::new();
    w.screen = Screen::ServiceList;
    w.handle_input(key('s'));
    w.finish_scan(ScanOutcome::Listed("x.service loaded active running X\n".to_string()));
    assert_eq!(w.screen, Screen::Scanner);
    w.handle_input(code(KeyCode::Esc));
    assert_eq!(w.screen, Screen::ServiceList);
}

#[test]
fn failing_systemctl_reports_its_stderr() {
    let mut w = ConfigWizard::new();
    w.handle_input(key('s'));
    w.finish_scan(ScanOutcome::Failed("  Failed to connect to bus\n".to_string()));
    match &w.status {
        Some(WizardStatus::Error(m)) => assert_eq!(m, "systemctl failed: Failed to connect to bus"),
        other => panic!("expected Error status, got {other:?}"),
    }
    let mut w = ConfigWizard::new();
    w.finish_scan(ScanOutcome::Failed("   ".to_string()));
    match &w.status {
        Some(WizardStatus::Error(m)) => assert_eq!(m, "Scanner only available on Linux/Systemd."),
        other => panic!("expected Error status, got {other:?}"),
    }
}

#[test]
fn empty_listing_stays_put_with_info() {
    let mut w = ConfigWizard::new();
    w.handle_input(key('s'));
    w.finish_scan(ScanOutcome::Listed("0 loaded units listed.\n".to_string()));
    assert_eq!(w.screen, Screen::MainMenu);
    match &w.status {
        Some(WizardStatus::Info(m)) => assert_eq!(m, "No running .service units discovered."),
        other => panic!("expected Info status, got {other:?}"),
    }
}

#[test]
fn save_with_missing_fields_counts_them() {
    let mut w = ConfigWizard::new();
    w.interval = "0".into();
    w.menu_index = 3;
    let req = w.handle_input(enter());
    assert!(matches!(req, WizardRequest::Nothing));
    match &w.status {
        Some(WizardStatus::Error(m)) => {
            assert_eq!(m, "4 field(s) need attention — check each sub-screen")
        }
        other => panic!("expected Error status, got {other:?}"),
    }
    assert_eq!(w.field_error("interval"), Some("Must be a positive integer (e.g. 30)"));
    assert_eq!(w.field_error("svc_0_url"), Some("Required"));
    assert_eq!(w.field_error("discord_webhook"), None);
    assert!(w.has_errors());
}

#[test]
fn save_of_complete_wizard_requests_trimmed_config() {
    let mut w = ConfigWizard::new();
    w.discord_webhook = "  https://discord.example/hook ".into();
    w.interval = " 15 ".into();
    w.services[0].name = " api ".into();
    w.services[0].url = "127.0.0.1:8080".into();
    w.services[0].method = CheckMethod::Tcp;
    w.services[0].restart_command = "systemctl restart api ".into();
    w.menu_index = 3;
    let req = w.handle_input(key(' '));
    let cfg = match req {
        WizardRequest::Save(c) => c,
        other => panic!("expected Save, got {other:?}"),
    };
    assert_eq!(cfg.interval_secs, 15);
    assert_eq!(cfg.discord_webhook_url.as_deref(), Some("https://discord.example/hook"));
    assert_eq!(cfg.services.len(), 1);
    assert_eq!(cfg.services[0].name, "api");
    assert_eq!(cfg.services[0].restart_command, "systemctl restart api");
    assert_eq!(cfg.services[0].method, CheckMethod::Tcp);
    assert!(!w.is_saved());
    w.finish_save(Ok(()));
    assert!(w.is_saved());
    assert!(w.should_quit);
}

#[test]
fn failed_write_is_reported() {
    let mut w = ConfigWizard::new();
    w.finish_save(Err("permission denied".to_string()));
    assert!(!w.is_saved());
    match &w.status {
        Some(WizardStatus::Error(m)) => assert_eq!(m, "Write failed: permission denied"),
        other => panic!("expected Error status, got {other:?}"),
    }
}

#[test]
fn to_config_rejects_unparsable_interval_but_keeps_zero() {
    let mut w = ConfigWizard::new();
    w.interval = "x1".into();
    assert!(w.to_config().is_err());
    w.interval = "0".into();
    assert_eq!(w.to_config().unwrap().interval_secs, 0);
    w.interval = "+7".into();
    assert_eq!(w.to_config().unwrap().interval_secs, 7);
    w.interval = "18446744073709551616".into();
    assert!(w.to_config().is_err());
    w.interval = String::new();
    w.discord_webhook = "   ".into();
    assert!(w.to_config().is_err());
}

#[test]
fn load_from_file_prefills_and_converts_back() {
    let cfg = Config {
        interval_secs: 45,
        discord_webhook_url: None,
        services: vec![ServiceConfig {
            name: "redis".into(),
            url: "127.0.0.1:6379".into(),
            method: CheckMethod::Tcp,
            restart_command: "sudo systemctl restart redis.service".into(),
            recovery_delay: 60,
        }],
    };
    let w = ConfigWizard::load_from_file(Some(cfg));
    assert_eq!(w.interval, "45");
    assert_eq!(w.discord_webhook, "");
    assert_eq!(w.services.len(), 1);
    assert_eq!(w.services[0].name, "redis");
    assert_eq!(w.services[0].recovery_delay, 60);
    let back = w.to_config().unwrap();
    assert_eq!(back.interval_secs, 45);
    assert_eq!(back.discord_webhook_url, None);
    assert_eq!(back.services[0].recovery_delay, 60);
    assert_eq!(back.services[0].url, "127.0.0.1:6379");
}

#[test]
fn load_from_unreadable_file_starts_fresh() {
    let w = ConfigWizard::load_from_file(None);
    assert_eq!(w.interval, "30");
    assert_eq!(w.services.len(), 1);
    assert_eq!(w.screen, Screen::MainMenu);
}

#[test]
fn service_edit_typing_toggling_and_confirming() {
    let mut w = ConfigWizard::new();
    w.menu_index = 2;
    w.handle_input(enter());
    assert_eq!(w.screen, Screen::ServiceEdit(1));
    for c in "web".chars() {
        w.handle_input(key(c));
    }
    w.handle_input(code(KeyCode::Backspace));
    assert_eq!(w.services[1].name, "we");
    w.handle_input(code(KeyCode::Tab));
    for c in "http://h".chars() {
        w.handle_input(key(c));
    }
    w.handle_input(code(KeyCode::Down));
    assert_eq!(w.edit_focus, ServiceField::Method);
    w.handle_input(key(' '));
    assert_eq!(w.services[1].method, CheckMethod::Tcp);
    w.handle_input(code(KeyCode::Right));
    assert_eq!(w.services[1].method, CheckMethod::Http);
    w.handle_input(enter());
    assert_eq!(w.edit_focus, ServiceField::RestartCommand);
    // Enter moves on to the recovery delay; confirming there with an empty
    // restart command keeps the form open.
    w.handle_input(enter());
    assert_eq!(w.edit_focus, ServiceField::RecoveryDelay);
    w.handle_input(enter());
    assert_eq!(w.screen, Screen::ServiceEdit(1));
    assert!(w.errors.contains_key("svc_1_cmd"));
    w.handle_input(code(KeyCode::Up));
    assert_eq!(w.edit_focus, ServiceField::RestartCommand);
    for c in "true x".chars() {
        w.handle_input(key(c));
    }
    w.handle_input(code(KeyCode::Tab));
    w.handle_input(enter());
    assert_eq!(w.screen, Screen::ServiceList);
    assert!(!w.errors.contains_key("svc_1_cmd"));
    assert_eq!(w.services[1].restart_command, "true x");
    w.handle_input(KeyEvent::new(KeyCode::Tab, KeyModifiers::shift()));
}

#[test]
fn esc_from_service_edit_drops_its_errors_only() {
    let mut w = ConfigWizard::new();
    w.interval = "0".into();
    w.validate();
    assert!(w.errors.contains_key("svc_0_name"));
    w.screen = Screen::ServiceEdit(0);
    w.handle_input(code(KeyCode::Esc));
    assert_eq!(w.screen, Screen::ServiceList);
    assert!(!w.errors.contains_key("svc_0_name"));
    assert!(!w.errors.contains_key("svc_0_url"));
    assert!(w.errors.contains_key("interval"));
}

#[test]
fn delete_removes_selected_and_clamps_cursor() {
    let mut w = ConfigWizard::new();
    w.services[0].name = "a".into();
    w.menu_index = 2;
    w.handle_input(enter());
    w.handle_input(key('b'));
    w.handle_input(code(KeyCode::Esc));
    assert_eq!(w.screen, Screen::ServiceList);
    assert_eq!(w.list_index, 1);
    w.handle_input(key('D'));
    assert_eq!(w.services.len(), 1);
    assert_eq!(w.services[0].name, "a");
    assert_eq!(w.list_index, 0);
    match &w.status {
        Some(WizardStatus::Info(m)) => assert_eq!(m, "Service deleted."),
        other => panic!("expected Info status, got {other:?}"),
    }
    // The next key dismisses the info message.
    w.handle_input(code(KeyCode::Up));
    assert!(w.status.is_none());
}

#[test]
fn main_menu_navigation_and_quit() {
    let mut w = ConfigWizard::new();
    w.handle_input(code(KeyCode::Up));
    assert_eq!(w.menu_index, 0);
    for _ in 0..5 {
        w.handle_input(key('j'));
    }
    assert_eq!(w.menu_index, 3);
    w.handle_input(key('k'));
    assert_eq!(w.menu_index, 2);
    w.menu_index = 0;
    w.handle_input(enter());
    assert_eq!(w.screen, Screen::GlobalSettings);
    assert_eq!(w.global_focus, GlobalField::DiscordWebhook);
    for c in "hq".chars() {
        w.handle_input(key(c));
    }
    assert_eq!(w.discord_webhook, "hq");
    w.handle_input(enter());
    assert_eq!(w.global_focus, GlobalField::Interval);
    w.handle_input(enter());
    assert_eq!(w.screen, Screen::MainMenu);
    w.handle_input(key('q'));
    assert!(w.should_quit);
}

#[test]
fn status_line_reflects_state() {
    let mut w = ConfigWizard::new();
    let l = w.status_line();
    assert_eq!(l.icon, "·");
    assert_eq!(l.tone, Tone::Muted);
    w.interval = "0".into();
    w.validate_interval();
    let l = w.status_line();
    assert_eq!(l.icon, "!");
    assert_eq!(l.tone, Tone::Notice);
    w.finish_save(Ok(()));
    let l = w.status_line();
    assert_eq!(l.text, " Configuration saved to config.toml");
    assert_eq!(l.tone, Tone::Success);
}

#[test]
fn toggle_method_twice_is_identity() {
    let mut w = ConfigWizard::new();
    let before = w.services[0].method;
    w.services[0].toggle_method();
    assert_ne!(w.services[0].method, before);
    w.services[0].toggle_method();
    assert_eq!(w.services[0].method, before);
}

#[test]
fn recovery_delay_field_takes_digits() {
    let mut w = ConfigWizard::new();
    w.menu_index = 2;
    w.handle_input(enter());
    assert_eq!(w.services[1].recovery_delay, 30);
    for _ in 0..4 {
        w.handle_input(code(KeyCode::Down));
    }
    assert_eq!(w.edit_focus, ServiceField::RecoveryDelay);
    w.handle_input(code(KeyCode::Backspace));
    assert_eq!(w.services[1].recovery_delay, 3);
    w.handle_input(key('x'));
    assert_eq!(w.services[1].recovery_delay, 3);
    w.handle_input(key('5'));
    assert_eq!(w.services[1].recovery_delay, 35);
    w.handle_input(code(KeyCode::Backspace));
    w.handle_input(code(KeyCode::Backspace));
    assert_eq!(w.services[1].recovery_delay, 0);
    w.handle_input(key('9'));
    assert_eq!(w.services[1].recovery_delay, 9);
    assert_eq!(w.services[1].name, "");
    w.handle_input(code(KeyCode::Down));
    assert_eq!(w.edit_focus, ServiceField::RecoveryDelay);
}

#[test]
fn recovery_delay_digit_never_overflows() {
    assert_eq!(delay_with_digit(12, '7'), 127);
    assert_eq!(delay_with_digit(12, 'a'), 12);
    assert_eq!(delay_with_digit(u64::MAX / 10, '5'), u64::MAX / 10 * 10 + 5);
    assert_eq!(delay_with_digit(u64::MAX / 10, '6'), u64::MAX / 10);
    assert_eq!(delay_with_digit(u64::MAX, '0'), u64::MAX);
}

#[test]
fn edited_recovery_delay_is_saved() {
    let mut w = ConfigWizard::new();
    w.services[0].name = "web".into();
    w.services[0].url = "http://x".into();
    w.services[0].restart_command = "true".into();
    w.screen = Screen::ServiceEdit(0);
    w.edit_focus = ServiceField::RecoveryDelay;
    w.handle_input(code(KeyCode::Backspace));
    w.handle_input(code(KeyCode::Backspace));
    w.handle_input(key('4'));
    w.handle_input(key('5'));
    w.handle_input(enter());
    assert_eq!(w.screen, Screen::ServiceList);
    let cfg = w.to_config().unwrap();
    assert_eq!(cfg.services[0].recovery_delay, 45);
}

#[test]
fn screen_texts() {
    assert_eq!(service_label(0, "nginx"), "  #1 — nginx");
    assert_eq!(service_label(2, "  "), "  #3 — (unnamed)");
    assert_eq!(scanner_title(3), " Discovered Services (3)  Enter=pick ");
    assert_eq!(
        too_small_message(10, 20),
        " Terminal too small (10 rows). Please resize to at least 20 rows."
    );
    let (h, n) = edit_form_titles(1);
    assert_eq!(h, "Edit Service #2");
    assert_eq!(n, "Name  (svc #2)");
    let r = ScanResult { name: "nginx.service".into(), description: "web server".into() };
    let (a, b) = r.item_texts();
    assert_eq!(a, format!("  {:<32}", "nginx.service"));
    assert_eq!(b, "  — web server");
    let long = ScanResult { name: "x".repeat(40), description: String::new() };
    assert_eq!(long.item_texts().0, format!("  {}", "x".repeat(40)));
}

#[test]
fn service_field_errors_by_field() {
    let mut w = ConfigWizard::new();
    w.validate();
    assert_eq!(w.service_field_error(0, ServiceField::Name), Some("Required"));
    assert_eq!(w.service_field_error(0, ServiceField::RestartCommand), Some("Required"));
    assert_eq!(w.service_field_error(0, ServiceField::Method), None);
    assert_eq!(w.service_field_error(0, ServiceField::RecoveryDelay), None);
    assert_eq!(w.service_field_error(1, ServiceField::Name), None);
}

#[test]
fn esc_on_edit_form_clears_its_errors_only() {
    let mut w = ConfigWizard::new();
    w.menu_index = 2;
    w.handle_input(enter());
    w.validate();
    assert!(w.errors.contains_key("svc_0_name"));
    assert!(w.errors.contains_key("svc_1_name"));
    w.handle_input(code(KeyCode::Esc));
    assert_eq!(w.screen, Screen::ServiceList);
    assert!(w.errors.contains_key("svc_0_name"));
    assert!(!w.errors.contains_key("svc_1_name"));
    assert!(!w.errors.contains_key("svc_1_cmd"));
}

#[test]
fn backspace_undoes_typed_character() {
    let mut w = ConfigWizard::new();
    w.screen = Screen::ServiceEdit(0);
    w.services[0].name = "api".into();
    w.handle_input(key('z'));
    assert_eq!(w.services[0].name, "apiz");
    w.handle_input(code(KeyCode::Backspace));
    assert_eq!(w.services[0].name, "api");
}

#[test]
fn transient_message_cleared_on_next_key() {
    let mut w = ConfigWizard::new();
    w.screen = Screen::GlobalSettings;
    w.status = Some(WizardStatus::Info("hello".into()));
    w.handle_input(code(KeyCode::Down));
    assert!(w.status.is_none());
    w.status = Some(WizardStatus::Saved);
    w.handle_input(code(KeyCode::Down));
    assert!(matches!(w.status, Some(WizardStatus::Saved)));
}

#[test]
fn menu_cursor_stays_within_menu() {
    let mut w = ConfigWizard::new();
    for _ in 0..10 {
        w.handle_input(code(KeyCode::Down));
    }
    assert_eq!(w.menu_index, 3);
    for _ in 0..10 {
        w.handle_input(key('k'));
    }
    assert_eq!(w.menu_index, 0);
}
