use gatekeeper_rs::config_wizard::KeyCode;
use gatekeeper_rs::tui::{
    dashboard_action, format_uptime, latency_label, status_label, seconds_left, AppState,
    DashboardAction, HealthStatus, LATENCY_HISTORY, MAX_LOGS,
};

fn names(list: &[&str]) -> Vec<String> {
    list.iter().map(|n| n.to_string()).collect()
}

#[test]
fn new_dashboard_has_unknown_rows() {
    let app = AppState::new(&names(&["auth", "vpn"]), true);
    assert_eq!(app.services.len(), 2);
    assert_eq!(app.services[1].name, "vpn");
    assert_eq!(app.services[0].status, HealthStatus::Unknown);
    assert_eq!(app.services[0].last_checked, "–");
    assert!(app.dry_run);
    assert!(!app.maintenance_mode);
}

#[test]
fn reload_keeps_history_and_follows_new_order() {
    let mut app = AppState::new(&names(&["a", "b", "c"]), false);
    app.update_service("b", true, Some(7), "10:00:00".into());
    app.reload_services(&names(&["c", "d", "b"]));
    let order: Vec<&str> = app.services.iter().map(|r| r.name.as_str()).collect();
    assert_eq!(order, vec!["c", "d", "b"]);
    assert_eq!(app.services[2].status, HealthStatus::Up);
    assert_eq!(app.services[2].latency_history.iter().copied().collect::<Vec<_>>(), vec![7]);
    assert_eq!(app.services[1].status, HealthStatus::Unknown);
}

#[test]
fn latency_history_is_a_ring_of_twenty() {
    let mut app = AppState::new(&names(&["svc"]), false);
    for i in 0..25u64 {
        app.update_service("svc", true, Some(i), "t".into());
    }
    app.update_service("svc", false, None, "t2".into());
    let row = &app.services[0];
    assert_eq!(row.latency_history.len(), LATENCY_HISTORY);
    assert_eq!(row.latency_history.front(), Some(&5));
    assert_eq!(row.latency_history.back(), Some(&24));
    assert_eq!(row.status, HealthStatus::Down);
    assert_eq!(row.latency_ms, None);
    assert_eq!(row.last_checked, "t2");
    // An unknown name changes nothing.
    app.update_service("other", true, Some(1), "t3".into());
    assert_eq!(app.services[0].last_checked, "t2");
}

#[test]
fn event_log_keeps_the_latest_two_hundred() {
    let mut app = AppState::new(&names(&[]), false);
    for i in 0..205 {
        app.push_log("12:00:00", &format!("event {i}"));
    }
    assert_eq!(app.logs.len(), MAX_LOGS);
    assert_eq!(app.logs.front().map(|s| s.as_str()), Some(" 12:00:00 │ event 5"));
    assert_eq!(app.logs.back().map(|s| s.as_str()), Some(" 12:00:00 │ event 204"));
}

#[test]
fn up_count_counts_up_rows() {
    let mut app = AppState::new(&names(&["a", "b", "c"]), false);
    app.update_service("a", true, Some(1), "t".into());
    app.update_service("b", false, None, "t".into());
    assert_eq!(app.up_count(), 1);
}

#[test]
fn uptime_is_zero_padded() {
    assert_eq!(format_uptime(3661), "01:01:01");
    assert_eq!(format_uptime(0), "00:00:00");
    assert_eq!(format_uptime(360000), "100:00:00");
}

#[test]
fn table_cells() {
    assert_eq!(status_label(HealthStatus::Up), "● UP   ");
    assert_eq!(status_label(HealthStatus::Unknown), "○ ??   ");
    assert_eq!(latency_label(HealthStatus::Up, Some(12), None, None), " 12ms");
    assert_eq!(latency_label(HealthStatus::Up, None, None, None), "  –");
    assert_eq!(latency_label(HealthStatus::Down, None, Some(28), Some(3)), " heal 28s");
    assert_eq!(latency_label(HealthStatus::Down, None, None, Some(12)), " next 12s");
    assert_eq!(latency_label(HealthStatus::Down, None, None, None), " checking");
    assert_eq!(seconds_left(Some(5000), 1000), Some(4));
    assert_eq!(seconds_left(Some(5001), 1000), Some(5));
    assert_eq!(seconds_left(Some(1000), 1000), None);
    assert_eq!(seconds_left(None, 1000), None);
}

#[test]
fn dashboard_keys() {
    assert_eq!(dashboard_action(KeyCode::Char('q'), false), DashboardAction::Quit);
    assert_eq!(dashboard_action(KeyCode::Char('Q'), false), DashboardAction::Quit);
    assert_eq!(dashboard_action(KeyCode::Char('c'), true), DashboardAction::Quit);
    assert_eq!(dashboard_action(KeyCode::Char('c'), false), DashboardAction::Nothing);
    assert_eq!(dashboard_action(KeyCode::Char('M'), false), DashboardAction::ToggleMaintenance);
    assert_eq!(dashboard_action(KeyCode::Char('m'), true), DashboardAction::ToggleMaintenance);
    assert_eq!(dashboard_action(KeyCode::Char('r'), false), DashboardAction::Reload);
    assert_eq!(dashboard_action(KeyCode::Enter, false), DashboardAction::Nothing);
}

#[test]
fn maintenance_switch_is_logged() {
    let mut app = AppState::new(&names(&["auth"]), false);
    app.set_maintenance(true, "10:00:00");
    assert!(app.maintenance_mode);
    assert_eq!(
        app.logs.back().unwrap(),
        " 10:00:00 │ 🔧 MAINTENANCE MODE: ON — alerts + auto-heal suppressed"
    );
    app.set_maintenance(false, "10:05:00");
    assert!(!app.maintenance_mode);
    assert_eq!(
        app.logs.back().unwrap(),
        " 10:05:00 │ ✓ MAINTENANCE MODE: OFF — normal monitoring resumed"
    );
    assert_eq!(app.logs.len(), 2);
}

#[test]
fn heal_countdown_cancelled_by_recovery_and_reload() {
    let mut app = AppState::new(&names(&["auth", "vpn"]), false);
    app.update_service("auth", false, None, "10:00:00".into());
    app.schedule_heal("auth", 30_000);
    assert_eq!(app.services[0].heal_due_ms, Some(30_000));
    assert_eq!(app.services[1].heal_due_ms, None);
    assert_eq!(seconds_left(app.services[0].heal_due_ms, 2_500), Some(28));
    // A further failed check keeps the countdown; a healthy one cancels it.
    app.update_service("auth", false, None, "10:00:05".into());
    assert_eq!(app.services[0].heal_due_ms, Some(30_000));
    app.update_service("auth", true, Some(8), "10:00:10".into());
    assert_eq!(app.services[0].heal_due_ms, None);
    // A countdown goes with its row when the service is no longer listed.
    app.schedule_heal("vpn", 40_000);
    app.reload_services(&names(&["auth", "db"]));
    assert_eq!(app.services.len(), 2);
    assert!(app.services.iter().all(|r| r.heal_due_ms.is_none()));
    app.schedule_heal("nope", 1);
    assert!(app.services.iter().all(|r| r.heal_due_ms.is_none()));
}

#[test]
fn next_poll_is_recorded() {
    let mut app = AppState::new(&names(&["auth"]), false);
    assert_eq!(app.next_poll_ms, None);
    app.set_next_poll(60_000);
    assert_eq!(app.next_poll_ms, Some(60_000));
    assert_eq!(seconds_left(app.next_poll_ms, 48_000), Some(12));
}

#[test]
fn reload_gives_fresh_rows_to_new_services() {
    let mut app = AppState::new(&names(&["auth"]), false);
    app.update_service("auth", true, Some(5), "10:00:00".into());
    app.reload_services(&names(&["db", "auth"]));
    assert_eq!(app.services[0].name, "db");
    assert_eq!(app.services[0].status, HealthStatus::Unknown);
    assert_eq!(app.services[0].latency_ms, None);
    assert!(app.services[0].latency_history.is_empty());
    assert_eq!(app.services[1].status, HealthStatus::Up);
    assert_eq!(app.services[1].latency_history.len(), 1);
}

#[test]
fn check_of_unknown_service_changes_nothing() {
    let mut app = AppState::new(&names(&["auth"]), false);
    app.set_next_poll(5_000);
    app.update_service("ghost", false, Some(3), "10:00:00".into());
    assert_eq!(app.next_poll_ms, Some(5_000));
    assert_eq!(app.services.len(), 1);
    assert_eq!(app.services[0].status, HealthStatus::Unknown);
    assert!(app.logs.is_empty());
    app.push_log("10:00:01", "x");
    app.set_maintenance(true, "10:00:02");
    app.reload_services(&names(&["auth", "db"]));
    assert_eq!(app.next_poll_ms, Some(5_000));
}
