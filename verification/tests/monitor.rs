use gatekeeper_rs::checker::CheckResult;
use gatekeeper_rs::config::{CheckMethod, ServiceConfig};
use gatekeeper_rs::monitor::{
    maintenance_notice, observe, offline_alert, plan_check, Mode, ServiceState, StateTable, Step,
};

fn nginx() -> ServiceConfig {
    ServiceConfig {
        name: "nginx".into(),
        url: "http://localhost/health".into(),
        method: CheckMethod::Http,
        restart_command: "sudo systemctl restart nginx.service".into(),
        recovery_delay: 15,
    }
}

fn normal() -> Mode {
    Mode { maintenance: false, dry_run: false, alerts: true }
}

fn heals(steps: &[Step]) -> usize {
    steps.iter().filter(|s| matches!(s, Step::Heal { .. })).count()
}

fn alerts(steps: &[Step]) -> usize {
    steps.iter().filter(|s| matches!(s, Step::Alert { .. })).count()
}

#[test]
fn going_down_logs_alerts_and_schedules_restart() {
    let steps = plan_check(&nginx(), Some(ServiceState::Up), CheckResult::unreachable(), normal());
    assert_eq!(steps.len(), 3);
    match &steps[0] {
        Step::Log(l) => assert_eq!(l, "nginx → DOWN  heal: sudo systemctl restart nginx.service"),
        other => panic!("unexpected {other:?}"),
    }
    match &steps[1] {
        Step::Alert { message, confirmation } => {
            assert_eq!(
                message,
                ":red_circle: **nginx** is DOWN. Auto-heal triggered. (`sudo systemctl restart nginx.service`)"
            );
            assert_eq!(confirmation, "Discord notified: nginx DOWN");
        }
        other => panic!("unexpected {other:?}"),
    }
    match &steps[2] {
        Step::Heal { command, delay_secs } => {
            assert_eq!(command, "sudo systemctl restart nginx.service");
            assert_eq!(*delay_secs, 15);
        }
        other => panic!("unexpected {other:?}"),
    }
}

#[test]
fn staying_down_does_not_restart_again() {
    let steps = plan_check(&nginx(), Some(ServiceState::Down), CheckResult::unreachable(), normal());
    assert!(steps.is_empty());
}

#[test]
fn one_restart_per_outage_over_a_run_of_polls() {
    let mut table = StateTable::new();
    let svc = nginx();
    let mut total = 0;
    for healthy in [true, false, false, false, true, false, false] {
        let result = if healthy {
            CheckResult::from_http_response(200, 12)
        } else {
            CheckResult::unreachable()
        };
        let prev = observe(&mut table, &svc.name, healthy);
        total += heals(&plan_check(&svc, prev, result, normal()));
    }
    // Two outages, one restart each.
    assert_eq!(total, 2);
}

#[test]
fn maintenance_suppresses_alert_and_restart() {
    let mode = Mode { maintenance: true, dry_run: false, alerts: true };
    let steps = plan_check(&nginx(), Some(ServiceState::Up), CheckResult::unreachable(), mode);
    assert_eq!(heals(&steps), 0);
    assert_eq!(alerts(&steps), 0);
    match &steps[1] {
        Step::Log(l) => assert_eq!(l, "[MAINT] suppressed alert + heal for nginx"),
        other => panic!("unexpected {other:?}"),
    }
    let up = plan_check(&nginx(), Some(ServiceState::Down), CheckResult::from_http_response(204, 8), mode);
    assert_eq!(alerts(&up), 0);
    match &up[1] {
        Step::Log(l) => assert_eq!(l, "[MAINT] suppressed RECOVERED alert for nginx"),
        other => panic!("unexpected {other:?}"),
    }
}

#[test]
fn dry_run_alerts_but_never_restarts() {
    let mode = Mode { maintenance: false, dry_run: true, alerts: true };
    let steps = plan_check(&nginx(), None, CheckResult::unreachable(), mode);
    assert_eq!(heals(&steps), 0);
    assert_eq!(alerts(&steps), 1);
    match steps.last() {
        Some(Step::Log(l)) => {
            assert_eq!(l, "[DRY-RUN] Would have executed: sudo systemctl restart nginx.service")
        }
        other => panic!("unexpected {other:?}"),
    }
}

#[test]
fn recovery_and_initial_up_lines() {
    let steps = plan_check(&nginx(), Some(ServiceState::Down), CheckResult::from_http_response(200, 42), normal());
    match &steps[0] {
        Step::Log(l) => assert_eq!(l, "nginx → RECOVERED (42ms)"),
        other => panic!("unexpected {other:?}"),
    }
    match &steps[1] {
        Step::Alert { message, confirmation } => {
            assert_eq!(message, ":green_circle: **nginx** has RECOVERED.");
            assert_eq!(confirmation, "Discord notified: nginx RECOVERED");
        }
        other => panic!("unexpected {other:?}"),
    }
    let first = plan_check(&nginx(), None, CheckResult::from_tcp_connect(3), normal());
    assert_eq!(first.len(), 1);
    match &first[0] {
        Step::Log(l) => assert_eq!(l, "nginx → UP (initial) (3ms)"),
        other => panic!("unexpected {other:?}"),
    }
}

#[test]
fn without_webhook_no_alert_is_planned() {
    let mode = Mode { maintenance: false, dry_run: false, alerts: false };
    let steps = plan_check(&nginx(), Some(ServiceState::Up), CheckResult::unreachable(), mode);
    assert_eq!(alerts(&steps), 0);
    assert_eq!(heals(&steps), 1);
}

#[test]
fn non_2xx_is_unhealthy() {
    assert!(CheckResult::from_http_response(299, 1).healthy);
    assert!(!CheckResult::from_http_response(401, 1).healthy);
    assert!(!CheckResult::from_http_response(199, 1).healthy);
    let steps = plan_check(&nginx(), Some(ServiceState::Up), CheckResult::from_http_response(503, 9), normal());
    assert_eq!(heals(&steps), 1);
}

#[test]
fn observe_reports_previous_state_and_reload_forgets_removed() {
    let mut table = StateTable::new();
    let a = String::from("a");
    let b = String::from("b");
    assert_eq!(observe(&mut table, &a, true), None);
    assert_eq!(observe(&mut table, &a, false), Some(ServiceState::Up));
    assert_eq!(observe(&mut table, &b, true), None);
    assert_eq!(table.len(), 2);
    table.retain_listed(&vec![b.clone()]);
    assert_eq!(table.len(), 1);
    assert!(!table.contains_key("a"));
    assert_eq!(observe(&mut table, &b, true), Some(ServiceState::Up));
}

#[test]
fn fixed_messages() {
    assert_eq!(
        offline_alert(),
        ":skull: **Gatekeeper-RS** is going **OFFLINE**. Services are no longer monitored."
    );
    assert_eq!(maintenance_notice(true), "🔧 MAINTENANCE MODE: ON — alerts + auto-heal suppressed");
    assert_eq!(maintenance_notice(false), "✓ MAINTENANCE MODE: OFF — normal monitoring resumed");
}
