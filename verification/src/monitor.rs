//! The decisions of one health check: whether the service changed state,
//! what the events panel says, whether an alert goes out, and whether the
//! service is restarted. The restart fires only when a service goes down,
//! never on every poll; maintenance mode silences alerts and restarts;
//! dry-run mode alerts but never restarts.

use vstd::prelude::*;
use crate::checker::CheckResult;
use crate::config::ServiceConfig;
use crate::text::{decimal, push_decimal, push_str};
use crate::text_map::TextMap;

verus! {

/// The last known state of a service.
#[derive(Debug, Clone, Copy, PartialEq, Eq, Structural)]
pub enum ServiceState {
    Up,
    Down,
}

impl View for ServiceState {
    type V = ServiceState;

    open spec fn view(&self) -> ServiceState {
        *self
    }
}

/// The state a probe result stands for.
pub open spec fn state_of(healthy: bool) -> ServiceState {
    if healthy {
        ServiceState::Up
    } else {
        ServiceState::Down
    }
}

/// One thing to do after a check, in order.
#[derive(Debug)]
pub enum Step {
    /// Add a line to the events panel.
    Log(String),
    /// Send `message` to the alert webhook; when it was delivered, add
    /// `confirmation` to the events panel.
    Alert { message: String, confirmation: String },
    /// Wait `delay_secs` seconds, then run `command` as a restart command.
    Heal { command: String, delay_secs: u64 },
}

/// The abstract value of a step.
pub enum StepView {
    Log(Seq<char>),
    Alert { message: Seq<char>, confirmation: Seq<char> },
    Heal { command: Seq<char>, delay_secs: u64 },
}

impl View for Step {
    type V = StepView;

    open spec fn view(&self) -> StepView {
        match self {
            Step::Log(s) => StepView::Log(s@),
            Step::Alert { message, confirmation } => StepView::Alert {
                message: message@,
                confirmation: confirmation@,
            },
            Step::Heal { command, delay_secs } => StepView::Heal {
                command: command@,
                delay_secs: *delay_secs,
            },
        }
    }
}

/// The views of a sequence of steps.
pub open spec fn steps_view(s: Seq<Step>) -> Seq<StepView> {
    s.map_values(|x: Step| x@)
}

/// How the monitor runs: `maintenance` suppresses alerts and restarts,
/// `dry_run` suppresses restarts only; `alerts` says whether a webhook is
/// configured.
#[derive(Debug, Clone, Copy)]
pub struct Mode {
    pub maintenance: bool,
    pub dry_run: bool,
    pub alerts: bool,
}

/// `" (<ms>ms)"` for a known latency, else nothing.
pub open spec fn latency_suffix(latency_ms: Option<u64>) -> Seq<char> {
    match latency_ms {
        Some(ms) => " ("@ + decimal(ms as nat) + "ms)"@,
        None => seq![],
    }
}

pub open spec fn down_line(name: Seq<char>, command: Seq<char>) -> Seq<char> {
    name + " → DOWN  heal: "@ + command
}

pub open spec fn maintenance_down_line(name: Seq<char>) -> Seq<char> {
    "[MAINT] suppressed alert + heal for "@ + name
}

pub open spec fn down_alert(name: Seq<char>, command: Seq<char>) -> Seq<char> {
    ":red_circle: **"@ + name + "** is DOWN. Auto-heal triggered. (`"@ + command + "`)"@
}

pub open spec fn down_confirmation(name: Seq<char>) -> Seq<char> {
    "Discord notified: "@ + name + " DOWN"@
}

pub open spec fn dry_run_line(command: Seq<char>) -> Seq<char> {
    "[DRY-RUN] Would have executed: "@ + command
}

pub open spec fn recovered_line(name: Seq<char>, latency_ms: Option<u64>) -> Seq<char> {
    name + " → RECOVERED"@ + latency_suffix(latency_ms)
}

pub open spec fn maintenance_up_line(name: Seq<char>) -> Seq<char> {
    "[MAINT] suppressed RECOVERED alert for "@ + name
}

pub open spec fn up_alert(name: Seq<char>) -> Seq<char> {
    ":green_circle: **"@ + name + "** has RECOVERED."@
}

pub open spec fn up_confirmation(name: Seq<char>) -> Seq<char> {
    "Discord notified: "@ + name + " RECOVERED"@
}

pub open spec fn initial_up_line(name: Seq<char>, latency_ms: Option<u64>) -> Seq<char> {
    name + " → UP (initial)"@ + latency_suffix(latency_ms)
}

/// The steps after a check of service `svc`, whose last known state was
/// `prev`, found `result`.
pub open spec fn check_steps(
    svc: crate::config::ServiceConfigView,
    prev: Option<ServiceState>,
    result: CheckResult,
    mode: Mode,
) -> Seq<StepView> {
    let name = svc.name;
    let cmd = svc.restart_command;
    if prev == Some(state_of(result.healthy)) {
        seq![]
    } else if !result.healthy {
        seq![StepView::Log(down_line(name, cmd))] + if mode.maintenance {
            seq![StepView::Log(maintenance_down_line(name))]
        } else {
            (if mode.alerts {
                seq![
                    StepView::Alert {
                        message: down_alert(name, cmd),
                        confirmation: down_confirmation(name),
                    },
                ]
            } else {
                seq![]
            }) + (if mode.dry_run {
                seq![StepView::Log(dry_run_line(cmd))]
            } else {
                seq![StepView::Heal { command: cmd, delay_secs: svc.recovery_delay }]
            })
        }
    } else if prev is Some {
        seq![StepView::Log(recovered_line(name, result.latency_ms))] + if mode.maintenance {
            seq![StepView::Log(maintenance_up_line(name))]
        } else if mode.alerts {
            seq![
                StepView::Alert { message: up_alert(name), confirmation: up_confirmation(name) },
            ]
        } else {
            seq![]
        }
    } else {
        seq![StepView::Log(initial_up_line(name, result.latency_ms))]
    }
}

fn push_latency_suffix(s: &mut String, latency_ms: Option<u64>)
    ensures
        final(s)@ == old(s)@ + latency_suffix(latency_ms),
{
    match latency_ms {
        Some(ms) => {
            push_str(s, " (");
            push_decimal(s, ms);
            push_str(s, "ms)");
        },
        None => {
            assert(old(s)@ + latency_suffix(latency_ms) =~= old(s)@);
        },
    }
}

fn text2(a: &str, b: &str) -> (s: String)
    ensures
        s@ == a@ + b@,
{
    let mut s = String::new();
    push_str(&mut s, a);
    push_str(&mut s, b);
    s
}

fn text3(a: &str, b: &str, c: &str) -> (s: String)
    ensures
        s@ == a@ + b@ + c@,
{
    let mut s = text2(a, b);
    push_str(&mut s, c);
    s
}

/// Decides what follows one check of `svc`: `prev` is its last known state,
/// `result` the probe's verdict.
pub fn plan_check(svc: &ServiceConfig, prev: Option<ServiceState>, result: CheckResult, mode: Mode) -> (steps: Vec<Step>)
    ensures
        steps_view(steps@) == check_steps(svc@, prev, result, mode),
{
    let name = svc.name.as_str();
    let cmd = svc.restart_command.as_str();
    let now = if result.healthy {
        ServiceState::Up
    } else {
        ServiceState::Down
    };
    let mut steps: Vec<Step> = Vec::new();
    if prev == Some(now) {
        assert(steps_view(steps@) =~= seq![]);
        return steps;
    }
    let ghost nv = svc@.name;
    let ghost cv = svc@.restart_command;
    if !result.healthy {
        steps.push(Step::Log(text3(name, " → DOWN  heal: ", cmd)));
        if mode.maintenance {
            steps.push(Step::Log(text2("[MAINT] suppressed alert + heal for ", name)));
        } else {
            if mode.alerts {
                let mut message = text3(":red_circle: **", name, "** is DOWN. Auto-heal triggered. (`");
                push_str(&mut message, cmd);
                push_str(&mut message, "`)");
                let confirmation = text3("Discord notified: ", name, " DOWN");
                steps.push(Step::Alert { message, confirmation });
            }
            if mode.dry_run {
                steps.push(Step::Log(text2("[DRY-RUN] Would have executed: ", cmd)));
            } else {
                steps.push(Step::Heal { command: svc.restart_command.clone(), delay_secs: svc.recovery_delay });
            }
        }
    } else if prev.is_some() {
        let mut line = text2(name, " → RECOVERED");
        push_latency_suffix(&mut line, result.latency_ms);
        steps.push(Step::Log(line));
        if mode.maintenance {
            steps.push(Step::Log(text2("[MAINT] suppressed RECOVERED alert for ", name)));
        } else if mode.alerts {
            let message = text3(":green_circle: **", name, "** has RECOVERED.");
            let confirmation = text3("Discord notified: ", name, " RECOVERED");
            steps.push(Step::Alert { message, confirmation });
        }
    } else {
        let mut line = text2(name, " → UP (initial)");
        push_latency_suffix(&mut line, result.latency_ms);
        steps.push(Step::Log(line));
    }
    assert(steps_view(steps@) =~= check_steps(svc@, prev, result, mode));
    steps
}

/// Whether the steps plan a restart.
pub open spec fn has_heal(steps: Seq<StepView>) -> bool {
    exists|i: int| 0 <= i < steps.len() && #[trigger] steps[i] is Heal
}

/// Whether the steps send an alert.
pub open spec fn has_alert(steps: Seq<StepView>) -> bool {
    exists|i: int| 0 <= i < steps.len() && #[trigger] steps[i] is Alert
}

proof fn lemma_check_steps_shape(
    svc: crate::config::ServiceConfigView,
    prev: Option<ServiceState>,
    result: CheckResult,
    mode: Mode,
)
    ensures
        has_heal(check_steps(svc, prev, result, mode)) == (!result.healthy && prev != Some(
            ServiceState::Down,
        ) && !mode.maintenance && !mode.dry_run),
        has_alert(check_steps(svc, prev, result, mode)) == (prev != Some(state_of(result.healthy))
            && mode.alerts && !mode.maintenance && (!result.healthy || prev is Some)),
        forall|i: int|
            0 <= i < check_steps(svc, prev, result, mode).len() && (#[trigger] check_steps(
                svc,
                prev,
                result,
                mode,
            )[i]) is Heal ==> check_steps(svc, prev, result, mode)[i] == (StepView::Heal {
                command: svc.restart_command,
                delay_secs: svc.recovery_delay,
            }),
{
    let s = check_steps(svc, prev, result, mode);
    let name = svc.name;
    let cmd = svc.restart_command;
    let heal = StepView::Heal { command: cmd, delay_secs: svc.recovery_delay };
    let alert_down = StepView::Alert {
        message: down_alert(name, cmd),
        confirmation: down_confirmation(name),
    };
    let alert_up = StepView::Alert { message: up_alert(name), confirmation: up_confirmation(name) };
    if prev == Some(state_of(result.healthy)) {
        assert(s.len() == 0);
    } else if !result.healthy {
        let first = StepView::Log(down_line(name, cmd));
        if mode.maintenance {
            assert(s =~= seq![first, StepView::Log(maintenance_down_line(name))]);
        } else if mode.alerts && mode.dry_run {
            assert(s =~= seq![first, alert_down, StepView::Log(dry_run_line(cmd))]);
            assert(s[1] is Alert);
        } else if mode.alerts {
            assert(s =~= seq![first, alert_down, heal]);
            assert(s[1] is Alert);
            assert(s[2] is Heal);
        } else if mode.dry_run {
            assert(s =~= seq![first, StepView::Log(dry_run_line(cmd))]);
        } else {
            assert(s =~= seq![first, heal]);
            assert(s[1] is Heal);
        }
    } else if prev is Some {
        let first = StepView::Log(recovered_line(name, result.latency_ms));
        if mode.maintenance {
            assert(s =~= seq![first, StepView::Log(maintenance_up_line(name))]);
        } else if mode.alerts {
            assert(s =~= seq![first, alert_up]);
            assert(s[1] is Alert);
        } else {
            assert(s =~= seq![first]);
        }
    } else {
        assert(s =~= seq![StepView::Log(initial_up_line(name, result.latency_ms))]);
    }
}

/// A restart is planned exactly when a check finds the service down while it
/// was not already known to be down, outside maintenance and dry-run; it runs
/// the service's restart command after the service's recovery delay.
pub proof fn law_restart_exactly_when_going_down(
    svc: crate::config::ServiceConfigView,
    prev: Option<ServiceState>,
    result: CheckResult,
    mode: Mode,
)
    ensures
        has_heal(check_steps(svc, prev, result, mode)) == (!result.healthy && prev != Some(
            ServiceState::Down,
        ) && !mode.maintenance && !mode.dry_run),
        forall|i: int|
            0 <= i < check_steps(svc, prev, result, mode).len() && (#[trigger] check_steps(
                svc,
                prev,
                result,
                mode,
            )[i]) is Heal ==> check_steps(svc, prev, result, mode)[i] == (StepView::Heal {
                command: svc.restart_command,
                delay_secs: svc.recovery_delay,
            }),
{
    lemma_check_steps_shape(svc, prev, result, mode);
}

/// An alert goes out exactly on a change of state (a service going down, or
/// coming back after a known state), when a webhook is configured and
/// maintenance is off.
pub proof fn law_alert_exactly_on_change(
    svc: crate::config::ServiceConfigView,
    prev: Option<ServiceState>,
    result: CheckResult,
    mode: Mode,
)
    ensures
        has_alert(check_steps(svc, prev, result, mode)) == (prev != Some(state_of(result.healthy))
            && mode.alerts && !mode.maintenance && (!result.healthy || prev is Some)),
{
    lemma_check_steps_shape(svc, prev, result, mode);
}

/// Maintenance mode keeps observing but neither alerts nor restarts.
pub proof fn law_maintenance_is_silent(
    svc: crate::config::ServiceConfigView,
    prev: Option<ServiceState>,
    result: CheckResult,
    mode: Mode,
)
    requires
        mode.maintenance,
    ensures
        !has_heal(check_steps(svc, prev, result, mode)),
        !has_alert(check_steps(svc, prev, result, mode)),
{
    lemma_check_steps_shape(svc, prev, result, mode);
}

/// Dry-run mode never restarts.
pub proof fn law_dry_run_never_restarts(
    svc: crate::config::ServiceConfigView,
    prev: Option<ServiceState>,
    result: CheckResult,
    mode: Mode,
)
    requires
        mode.dry_run,
    ensures
        !has_heal(check_steps(svc, prev, result, mode)),
{
    lemma_check_steps_shape(svc, prev, result, mode);
}

/// A check that finds the state already known does nothing at all.
pub proof fn law_no_change_no_steps(
    svc: crate::config::ServiceConfigView,
    state: ServiceState,
    result: CheckResult,
    mode: Mode,
)
    requires
        state == state_of(result.healthy),
    ensures
        check_steps(svc, Some(state), result, mode) == Seq::<StepView>::empty(),
{
    assert(check_steps(svc, Some(state), result, mode) =~= Seq::<StepView>::empty());
}

/// The number of restarts planned over a run of checks, each starting from
/// the state the one before it recorded.
pub open spec fn restarts_in_run(
    svc: crate::config::ServiceConfigView,
    prev: Option<ServiceState>,
    results: Seq<CheckResult>,
    mode: Mode,
) -> nat
    decreases results.len(),
{
    if results.len() == 0 {
        0
    } else {
        (if has_heal(check_steps(svc, prev, results[0], mode)) {
            1nat
        } else {
            0nat
        }) + restarts_in_run(svc, Some(state_of(results[0].healthy)), results.drop_first(), mode)
    }
}

/// However long a service stays down, it is restarted at most once for that
/// outage, and not at all when it was already known to be down.
pub proof fn law_one_restart_per_outage(
    svc: crate::config::ServiceConfigView,
    prev: Option<ServiceState>,
    results: Seq<CheckResult>,
    mode: Mode,
)
    requires
        forall|i: int| 0 <= i < results.len() ==> !(#[trigger] results[i]).healthy,
    ensures
        restarts_in_run(svc, prev, results, mode) <= 1,
        prev == Some(ServiceState::Down) ==> restarts_in_run(svc, prev, results, mode) == 0,
    decreases results.len(),
{
    if results.len() > 0 {
        lemma_check_steps_shape(svc, prev, results[0], mode);
        assert(!results[0].healthy);
        let rest = results.drop_first();
        assert forall|i: int| 0 <= i < rest.len() implies !(#[trigger] rest[i]).healthy by {
            assert(rest[i] == results[i + 1]);
        }
        law_one_restart_per_outage(svc, Some(ServiceState::Down), rest, mode);
    }
}

/// The last known state of each service, by name.
pub type StateTable = TextMap<ServiceState>;

/// Records what a check of service `name` found and returns the state known
/// before it. The table changes only when the state changed.
pub fn observe(table: &mut StateTable, name: &String, healthy: bool) -> (prev: Option<ServiceState>)
    requires
        old(table).wf(),
    ensures
        final(table).wf(),
        prev == (if old(table)@.contains_key(name@) {
            Some(old(table)@[name@])
        } else {
            None
        }),
        final(table)@ == old(table)@.insert(name@, state_of(healthy)),
{
    let now = if healthy {
        ServiceState::Up
    } else {
        ServiceState::Down
    };
    let prev = match table.get(name.as_str()) {
        Some(s) => Some(*s),
        None => None,
    };
    if prev != Some(now) {
        table.insert(name.clone(), now);
    } else {
        assert(old(table)@.insert(name@, now) =~= old(table)@);
    }
    prev
}

/// The events-panel line when maintenance mode is switched on or off.
pub open spec fn maintenance_line(on: bool) -> Seq<char> {
    if on {
        "🔧 MAINTENANCE MODE: ON — alerts + auto-heal suppressed"@
    } else {
        "✓ MAINTENANCE MODE: OFF — normal monitoring resumed"@
    }
}

/// The events-panel line when maintenance mode is switched on or off.
pub fn maintenance_notice(on: bool) -> (s: String)
    ensures
        s@ == maintenance_line(on),
{
    let mut s = String::new();
    if on {
        push_str(&mut s, "🔧 MAINTENANCE MODE: ON — alerts + auto-heal suppressed");
    } else {
        push_str(&mut s, "✓ MAINTENANCE MODE: OFF — normal monitoring resumed");
    }
    s
}

/// The alert sent when monitoring stops.
pub fn offline_alert() -> (s: String)
    ensures
        s@ == ":skull: **Gatekeeper-RS** is going **OFFLINE**. Services are no longer monitored."@,
{
    let mut s = String::new();
    push_str(&mut s, ":skull: **Gatekeeper-RS** is going **OFFLINE**. Services are no longer monitored.");
    s
}


/// A healthy probe means up, an unhealthy one down.
pub proof fn law_state_of_probe()
    ensures
        state_of(true) == ServiceState::Up,
        state_of(false) == ServiceState::Down,
{
}

/// What the steps of a check say. A service going down is logged as
/// `<name> → DOWN  heal: <command>`; outside maintenance, with a webhook,
/// the alert reads `:red_circle: **<name>** is DOWN. Auto-heal triggered.
/// (`<command>`)` and its delivery is logged as `Discord notified: <name>
/// DOWN`. A service coming back is logged as `<name> → RECOVERED`, with
/// ` (<ms>ms)` when the latency is known, and alerted as `:green_circle:
/// **<name>** has RECOVERED.`; a first check that finds it up is logged as
/// `<name> → UP (initial)`.
pub proof fn law_check_texts(
    svc: crate::config::ServiceConfigView,
    prev: Option<ServiceState>,
    result: CheckResult,
    mode: Mode,
)
    ensures
        ({
            let steps = check_steps(svc, prev, result, mode);
            let name = svc.name;
            let cmd = svc.restart_command;
            let lat = match result.latency_ms {
                Some(ms) => " ("@ + decimal(ms as nat) + "ms)"@,
                None => Seq::<char>::empty(),
            };
            &&& (!result.healthy && prev != Some(ServiceState::Down)) ==> steps[0] == StepView::Log(
                name + " → DOWN  heal: "@ + cmd,
            )
            &&& (!result.healthy && prev != Some(ServiceState::Down) && !mode.maintenance
                && mode.alerts) ==> steps[1] == (StepView::Alert {
                message: ":red_circle: **"@ + name + "** is DOWN. Auto-heal triggered. (`"@ + cmd
                    + "`)"@,
                confirmation: "Discord notified: "@ + name + " DOWN"@,
            })
            &&& (!result.healthy && prev != Some(ServiceState::Down) && mode.maintenance)
                ==> steps[1] == StepView::Log("[MAINT] suppressed alert + heal for "@ + name)
            &&& (!result.healthy && prev != Some(ServiceState::Down) && !mode.maintenance
                && mode.dry_run) ==> steps.last() == StepView::Log(
                "[DRY-RUN] Would have executed: "@ + cmd,
            )
            &&& (result.healthy && prev == Some(ServiceState::Down)) ==> steps[0] == StepView::Log(
                name + " → RECOVERED"@ + lat,
            )
            &&& (result.healthy && prev == Some(ServiceState::Down) && !mode.maintenance
                && mode.alerts) ==> steps[1] == (StepView::Alert {
                message: ":green_circle: **"@ + name + "** has RECOVERED."@,
                confirmation: "Discord notified: "@ + name + " RECOVERED"@,
            })
            &&& (result.healthy && prev is None) ==> steps == seq![
                StepView::Log(name + " → UP (initial)"@ + lat),
            ]
        }),
{
}

} // verus!
