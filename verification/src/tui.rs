//! The monitor dashboard's data model: one row per service with its status,
//! latency and a rolling latency history, and a bounded events log. The
//! drawing itself is done by the terminal front end from this model.

use vstd::prelude::*;
use std::collections::VecDeque;
use crate::config_wizard::KeyCode;
use crate::monitor::{maintenance_line, maintenance_notice};
use crate::text::{chars_eq, chars_of, decimal, push_decimal, push_str};

verus! {

/// The most events the log keeps.
pub const MAX_LOGS: usize = 200;

/// The most latency samples a row keeps (the sparkline's width).
pub const LATENCY_HISTORY: usize = 20;

/// The status shown for a service.
#[derive(Debug, Clone, Copy, PartialEq, Eq, Structural)]
pub enum HealthStatus {
    Unknown,
    Up,
    Down,
}

/// One row of the services table.
#[derive(Debug, Clone)]
pub struct ServiceRow {
    pub name: String,
    pub status: HealthStatus,
    pub latency_ms: Option<u64>,
    /// Rolling window of the last LATENCY_HISTORY response-time samples (ms).
    pub latency_history: VecDeque<u64>,
    pub last_checked: String,
    /// When the pending restart of a service that went down runs, in
    /// milliseconds on the dashboard's clock.
    pub heal_due_ms: Option<u64>,
}

/// The abstract value of a row.
pub struct RowView {
    pub name: Seq<char>,
    pub status: HealthStatus,
    pub latency_ms: Option<u64>,
    pub history: Seq<u64>,
    pub last_checked: Seq<char>,
    pub heal_due: Option<u64>,
}

impl View for ServiceRow {
    type V = RowView;

    open spec fn view(&self) -> RowView {
        RowView {
            name: self.name@,
            status: self.status,
            latency_ms: self.latency_ms,
            history: self.latency_history@,
            last_checked: self.last_checked@,
            heal_due: self.heal_due_ms,
        }
    }
}

/// The views of a sequence of rows.
pub open spec fn rows_view(v: Seq<ServiceRow>) -> Seq<RowView> {
    v.map_values(|r: ServiceRow| r@)
}

/// The views of a sequence of strings.
pub open spec fn names_view(v: Seq<String>) -> Seq<Seq<char>> {
    v.map_values(|s: String| s@)
}

/// What the "last check" cell shows before any check.
pub open spec fn never_checked() -> Seq<char> {
    "–"@
}

/// The row of a service not yet checked.
pub open spec fn fresh_row(name: Seq<char>) -> RowView {
    RowView {
        name: name,
        status: HealthStatus::Unknown,
        latency_ms: None,
        history: seq![],
        last_checked: never_checked(),
        heal_due: None,
    }
}

/// The dashboard state.
pub struct AppState {
    pub services: Vec<ServiceRow>,
    pub logs: VecDeque<String>,
    pub dry_run: bool,
    /// When true, monitoring continues but heals and alerts are suppressed.
    pub maintenance_mode: bool,
    /// When the next poll cycle starts, in milliseconds on the dashboard's
    /// clock.
    pub next_poll_ms: Option<u64>,
}

fn fresh(name: &String) -> (r: ServiceRow)
    ensures
        r@ == fresh_row(name@),
{
    let mut last_checked = String::new();
    push_str(&mut last_checked, "–");
    ServiceRow {
        name: name.clone(),
        status: HealthStatus::Unknown,
        latency_ms: None,
        latency_history: VecDeque::new(),
        last_checked,
        heal_due_ms: None,
    }
}

// ── Reloading the list of services ─────────────────────────────────────────

/// Whether position `k` holds the last occurrence of its name.
pub open spec fn is_last(names: Seq<Seq<char>>, k: int) -> bool {
    forall|j: int| k < j < names.len() ==> names[j] != names[k]
}

/// The rows named `name`, in order.
pub open spec fn named(rows: Seq<RowView>, name: Seq<char>) -> Seq<RowView>
    decreases rows.len(),
{
    if rows.len() == 0 {
        seq![]
    } else {
        named(rows.drop_last(), name) + if rows.last().name == name {
            seq![rows.last()]
        } else {
            seq![]
        }
    }
}

/// Whether the row of `name` has been moved by the time names `0 .. k` are
/// placed: some earlier position is the last occurrence of that name.
pub open spec fn placed(names: Seq<Seq<char>>, k: int, name: Seq<char>) -> bool {
    exists|j: int| 0 <= j < k && is_last(names, j) && names[j] == name
}

/// The view of an optional row.
pub open spec fn slot_view(o: Option<ServiceRow>) -> Option<RowView> {
    match o {
        Some(r) => Some(r@),
        None => None,
    }
}

/// The rows that stand for `names[k]` after a reload: the rows it had
/// (history kept), or a fresh one; nothing at a name's earlier occurrences.
pub open spec fn group(rows: Seq<RowView>, names: Seq<Seq<char>>, k: int) -> Seq<RowView> {
    if is_last(names, k) {
        let old = named(rows, names[k]);
        if old.len() > 0 {
            old
        } else {
            seq![fresh_row(names[k])]
        }
    } else {
        seq![]
    }
}

/// The rows after a reload, for the first `k` names.
pub open spec fn reloaded_upto(rows: Seq<RowView>, names: Seq<Seq<char>>, k: nat) -> Seq<RowView>
    decreases k,
{
    if k == 0 {
        seq![]
    } else {
        reloaded_upto(rows, names, (k - 1) as nat) + group(rows, names, k - 1)
    }
}

/// The rows after a reload to `names`: rows of services no longer listed
/// are dropped, services newly listed get a fresh row, and the rows follow
/// the order of `names`.
pub open spec fn reloaded(rows: Seq<RowView>, names: Seq<Seq<char>>) -> Seq<RowView> {
    reloaded_upto(rows, names, names.len())
}

// ── Updating a row ──────────────────────────────────────────────────────────

/// The latency history after a sample: the oldest dropped when full.
pub open spec fn with_sample(history: Seq<u64>, latency_ms: Option<u64>) -> Seq<u64> {
    match latency_ms {
        Some(ms) => (if history.len() >= LATENCY_HISTORY {
            history.drop_first()
        } else {
            history
        }).push(ms),
        None => history,
    }
}

/// A row after a check found `healthy` with `latency_ms` at `checked_at`.
pub open spec fn checked_row(
    r: RowView,
    healthy: bool,
    latency_ms: Option<u64>,
    checked_at: Seq<char>,
) -> RowView {
    RowView {
        status: if healthy {
            HealthStatus::Up
        } else {
            HealthStatus::Down
        },
        latency_ms: latency_ms,
        history: with_sample(r.history, latency_ms),
        last_checked: checked_at,
        heal_due: if healthy {
            None
        } else {
            r.heal_due
        },
        ..r
    }
}

/// The position of the first row named `name`.
pub open spec fn first_named(rows: Seq<RowView>, name: Seq<char>) -> int {
    choose|i: int|
        0 <= i < rows.len() && rows[i].name == name && forall|j: int|
            0 <= j < i ==> rows[j].name != name
}

/// The rows after a check of `name`: the first row of that name is updated;
/// a name with no row changes nothing.
pub open spec fn rows_after_check(
    rows: Seq<RowView>,
    name: Seq<char>,
    healthy: bool,
    latency_ms: Option<u64>,
    checked_at: Seq<char>,
) -> Seq<RowView> {
    if exists|i: int| 0 <= i < rows.len() && rows[i].name == name {
        let i = first_named(rows, name);
        rows.update(i, checked_row(rows[i], healthy, latency_ms, checked_at))
    } else {
        rows
    }
}

/// The rows after a restart of `name` was scheduled for `due`: the first
/// row of that name counts down to it; a name with no row changes nothing.
pub open spec fn rows_with_heal(rows: Seq<RowView>, name: Seq<char>, due: u64) -> Seq<RowView> {
    if exists|i: int| 0 <= i < rows.len() && rows[i].name == name {
        let i = first_named(rows, name);
        rows.update(i, RowView { heal_due: Some(due), ..rows[i] })
    } else {
        rows
    }
}

/// The whole seconds from `now` to `due` (both in milliseconds), rounded up
/// so a countdown never shows 0 s while time is left; none when nothing is
/// due or the moment has passed.
pub open spec fn countdown(due: Option<u64>, now: u64) -> Option<u64> {
    match due {
        Some(d) => if d > now {
            Some(((d - now - 1) / 1000 + 1) as u64)
        } else {
            None
        },
        None => None,
    }
}

/// The number of rows whose service is up.
pub open spec fn count_up(rows: Seq<RowView>) -> nat
    decreases rows.len(),
{
    if rows.len() == 0 {
        0
    } else {
        count_up(rows.drop_last()) + if rows.last().status == HealthStatus::Up {
            1nat
        } else {
            0nat
        }
    }
}

proof fn lemma_count_up_le(rows: Seq<RowView>)
    ensures
        count_up(rows) <= rows.len(),
    decreases rows.len(),
{
    if rows.len() > 0 {
        lemma_count_up_le(rows.drop_last());
    }
}

/// An events log line: ` <time> │ <message>`.
pub open spec fn log_line(time: Seq<char>, msg: Seq<char>) -> Seq<char> {
    " "@ + time + " │ "@ + msg
}

/// The log after an event: the oldest dropped when full.
pub open spec fn with_log(logs: Seq<Seq<char>>, line: Seq<char>) -> Seq<Seq<char>> {
    (if logs.len() >= MAX_LOGS {
        logs.drop_first()
    } else {
        logs
    }).push(line)
}

impl AppState {
    /// The rows, by their views.
    pub open spec fn rows(&self) -> Seq<RowView> {
        rows_view(self.services@)
    }

    /// The log lines, by their views.
    pub open spec fn log_lines(&self) -> Seq<Seq<char>> {
        self.logs@.map_values(|s: String| s@)
    }

    /// A dashboard for the services `names`, none checked yet.
    pub fn new(names: &Vec<String>, dry_run: bool) -> (s: AppState)
        ensures
            s.rows() == names_view(names@).map_values(|n: Seq<char>| fresh_row(n)),
            s.log_lines() == Seq::<Seq<char>>::empty(),
            s.dry_run == dry_run,
            !s.maintenance_mode,
            s.next_poll_ms is None,
    {
        let mut services: Vec<ServiceRow> = Vec::new();
        let mut i: usize = 0;
        while i < names.len()
            invariant
                i <= names@.len(),
                rows_view(services@) == names_view(names@).take(i as int).map_values(
                    |n: Seq<char>| fresh_row(n),
                ),
            decreases names@.len() - i,
        {
            let r = fresh(&names[i]);
            let ghost before = services@;
            services.push(r);
            assert(rows_view(services@) =~= rows_view(before).push(r@));
            assert(names_view(names@).take(i + 1) =~= names_view(names@).take(i as int).push(
                names@[i as int]@,
            ));
            i = i + 1;
        }
        assert(names_view(names@).take(names@.len() as int) =~= names_view(names@));
        let s = AppState {
            services,
            logs: VecDeque::new(),
            dry_run,
            maintenance_mode: false,
            next_poll_ms: None,
        };
        assert(s.log_lines() =~= Seq::<Seq<char>>::empty());
        s
    }

    /// Records a check of service `name`: its status, latency and check
    /// time, and (for a probe that got an answer) a latency sample.
    pub fn update_service(&mut self, name: &str, healthy: bool, latency_ms: Option<u64>, checked_at: String)
        ensures
            final(self).rows() == rows_after_check(
                old(self).rows(),
                name@,
                healthy,
                latency_ms,
                checked_at@,
            ),
            final(self).log_lines() == old(self).log_lines(),
            final(self).dry_run == old(self).dry_run,
            final(self).maintenance_mode == old(self).maintenance_mode,
            final(self).next_poll_ms == old(self).next_poll_ms,
    {
        let target = chars_of(name);
        let mut i: usize = 0;
        while i < self.services.len()
            invariant
                i <= self.services@.len(),
                self.services@ == old(self).services@,
                self.logs@ == old(self).logs@,
                self.dry_run == old(self).dry_run,
                self.maintenance_mode == old(self).maintenance_mode,
                self.next_poll_ms == old(self).next_poll_ms,
                target@ == name@,
                forall|j: int| 0 <= j < i ==> self.rows()[j].name != name@,
            decreases self.services@.len() - i,
        {
            let rn = chars_of(self.services[i].name.as_str());
            if chars_eq(rn.as_slice(), target.as_slice()) {
                self.check_row(i, name, healthy, latency_ms, checked_at);
                return;
            }
            i = i + 1;
        }
        assert(self.rows() == old(self).rows());
        assert(forall|j: int| 0 <= j < old(self).rows().len() ==> old(self).rows()[j].name != name@);
    }

    fn check_row(&mut self, i: usize, name: &str, healthy: bool, latency_ms: Option<u64>, checked_at: String)
        requires
            i < old(self).services@.len(),
            old(self).rows()[i as int].name == name@,
            forall|j: int| 0 <= j < i ==> old(self).rows()[j].name != name@,
        ensures
            final(self).rows() == rows_after_check(
                old(self).rows(),
                name@,
                healthy,
                latency_ms,
                checked_at@,
            ),
            final(self).logs@ == old(self).logs@,
            final(self).dry_run == old(self).dry_run,
            final(self).maintenance_mode == old(self).maintenance_mode,
            final(self).next_poll_ms == old(self).next_poll_ms,
    {
        let ghost rows0 = self.rows();
        assert(first_named(rows0, name@) == i) by {
            assert(0 <= i < rows0.len() && rows0[i as int].name == name@ && forall|j: int|
                0 <= j < i ==> rows0[j].name != name@);
            let k = first_named(rows0, name@);
            if k < i {
            } else if k > i {
                assert(rows0[i as int].name == name@);
            }
        }
        let ghost r0 = rows0[i as int];
        let mut row = fresh(&String::new());
        self.services.set_and_swap(i, &mut row);
        assert(row@ == r0);
        row.status = if healthy {
            HealthStatus::Up
        } else {
            HealthStatus::Down
        };
        row.latency_ms = latency_ms;
        row.last_checked = checked_at;
        if healthy {
            row.heal_due_ms = None;
        }
        match latency_ms {
            Some(ms) => {
                if row.latency_history.len() >= LATENCY_HISTORY {
                    let _ = row.latency_history.pop_front();
                }
                row.latency_history.push_back(ms);
            },
            None => {},
        }
        assert(row@ == checked_row(r0, healthy, latency_ms, checked_at@));
        let ghost newr = row@;
        let ghost mid = self.services@;
        self.services.set_and_swap(i, &mut row);
        proof {
            assert(self.rows() =~= rows0.update(i as int, newr));
        }
    }

    /// Adds an event to the log, stamped with `time`.
    pub fn push_log(&mut self, time: &str, msg: &str)
        ensures
            final(self).log_lines() == with_log(old(self).log_lines(), log_line(time@, msg@)),
            final(self).rows() == old(self).rows(),
            final(self).dry_run == old(self).dry_run,
            final(self).maintenance_mode == old(self).maintenance_mode,
            final(self).next_poll_ms == old(self).next_poll_ms,
    {
        if self.logs.len() >= MAX_LOGS {
            let _ = self.logs.pop_front();
        }
        let mut line = String::new();
        push_str(&mut line, " ");
        push_str(&mut line, time);
        push_str(&mut line, " │ ");
        push_str(&mut line, msg);
        let ghost before = self.logs@;
        self.logs.push_back(line);
        proof {
            assert(self.log_lines() =~= before.map_values(|s: String| s@).push(line@));
            assert(self.log_lines() =~= with_log(old(self).log_lines(), log_line(time@, msg@)));
        }
    }

    /// Schedules the restart of service `name` for `due_ms`; its row counts
    /// down to it until a check finds the service healthy.
    pub fn schedule_heal(&mut self, name: &str, due_ms: u64)
        ensures
            final(self).rows() == rows_with_heal(old(self).rows(), name@, due_ms),
            final(self).log_lines() == old(self).log_lines(),
            final(self).dry_run == old(self).dry_run,
            final(self).maintenance_mode == old(self).maintenance_mode,
            final(self).next_poll_ms == old(self).next_poll_ms,
    {
        let target = chars_of(name);
        let mut i: usize = 0;
        while i < self.services.len()
            invariant
                i <= self.services@.len(),
                self.services@ == old(self).services@,
                self.logs@ == old(self).logs@,
                self.dry_run == old(self).dry_run,
                self.maintenance_mode == old(self).maintenance_mode,
                self.next_poll_ms == old(self).next_poll_ms,
                target@ == name@,
                forall|j: int| 0 <= j < i ==> self.rows()[j].name != name@,
            decreases self.services@.len() - i,
        {
            let rn = chars_of(self.services[i].name.as_str());
            if chars_eq(rn.as_slice(), target.as_slice()) {
                self.mark_heal(i, name, due_ms);
                return;
            }
            i = i + 1;
        }
        assert(self.rows() == old(self).rows());
        assert(forall|j: int| 0 <= j < old(self).rows().len() ==> old(self).rows()[j].name != name@);
    }

    fn mark_heal(&mut self, i: usize, name: &str, due_ms: u64)
        requires
            i < old(self).services@.len(),
            old(self).rows()[i as int].name == name@,
            forall|j: int| 0 <= j < i ==> old(self).rows()[j].name != name@,
        ensures
            final(self).rows() == rows_with_heal(old(self).rows(), name@, due_ms),
            final(self).logs@ == old(self).logs@,
            final(self).dry_run == old(self).dry_run,
            final(self).maintenance_mode == old(self).maintenance_mode,
            final(self).next_poll_ms == old(self).next_poll_ms,
    {
        let ghost rows0 = self.rows();
        assert(first_named(rows0, name@) == i) by {
            assert(0 <= i < rows0.len() && rows0[i as int].name == name@ && forall|j: int|
                0 <= j < i ==> rows0[j].name != name@);
            let k = first_named(rows0, name@);
            if k < i {
            } else if k > i {
                assert(rows0[i as int].name == name@);
            }
        }
        let ghost r0 = rows0[i as int];
        let mut row = fresh(&String::new());
        self.services.set_and_swap(i, &mut row);
        assert(row@ == r0);
        row.heal_due_ms = Some(due_ms);
        let ghost newr = row@;
        self.services.set_and_swap(i, &mut row);
        proof {
            assert(self.rows() =~= rows0.update(i as int, newr));
        }
    }

    /// Records when the next poll cycle starts.
    pub fn set_next_poll(&mut self, at_ms: u64)
        ensures
            final(self).next_poll_ms == Some(at_ms),
            final(self).rows() == old(self).rows(),
            final(self).log_lines() == old(self).log_lines(),
            final(self).dry_run == old(self).dry_run,
            final(self).maintenance_mode == old(self).maintenance_mode,
    {
        self.next_poll_ms = Some(at_ms);
    }

    /// Switches maintenance mode on or off and says so in the log.
    pub fn set_maintenance(&mut self, on: bool, time: &str)
        ensures
            final(self).maintenance_mode == on,
            final(self).log_lines() == with_log(
                old(self).log_lines(),
                log_line(time@, maintenance_line(on)),
            ),
            final(self).rows() == old(self).rows(),
            final(self).dry_run == old(self).dry_run,
            final(self).next_poll_ms == old(self).next_poll_ms,
    {
        self.maintenance_mode = on;
        let msg = maintenance_notice(on);
        self.push_log(time, msg.as_str());
    }

    /// Follows a new list of services: rows of services no longer listed are
    /// dropped (with any restart countdown), services newly listed get a
    /// fresh row, the rows of services that remain keep their status,
    /// history and countdown, and the rows follow the order of the new list.
    pub fn reload_services(&mut self, new_names: &Vec<String>)
        ensures
            final(self).rows() == reloaded(old(self).rows(), names_view(new_names@)),
            final(self).logs@ == old(self).logs@,
            final(self).dry_run == old(self).dry_run,
            final(self).maintenance_mode == old(self).maintenance_mode,
            final(self).next_poll_ms == old(self).next_poll_ms,
    {
        let ghost names = names_view(new_names@);
        let mut src: Vec<ServiceRow> = Vec::new();
        std::mem::swap(&mut src, &mut self.services);
        let ghost orig = rows_view(src@);
        assert(orig == old(self).rows());
        let mut slots: Vec<Option<ServiceRow>> = Vec::new();
        let total = src.len();
        while src.len() > 0
            invariant
                slots@.len() + src@.len() == total,
                total == orig.len(),
                forall|i: int| 0 <= i < slots@.len() ==> slot_view(#[trigger] slots@[i]) == Some(orig[i]),
                forall|i: int| 0 <= i < src@.len() ==> #[trigger] src@[i]@ == orig[i + slots@.len()],
            decreases src@.len(),
        {
            let r = src.remove(0);
            slots.push(Some(r));
        }
        let mut out: Vec<ServiceRow> = Vec::new();
        let n = new_names.len();
        let mut k: usize = 0;
        while k < n
            invariant
                n == new_names@.len(),
                names == names_view(new_names@),
                k <= n,
                slots@.len() == orig.len(),
                forall|i: int|
                    0 <= i < slots@.len() ==> slot_view(#[trigger] slots@[i]) == if placed(
                        names,
                        k as int,
                        orig[i].name,
                    ) {
                        None
                    } else {
                        Some(orig[i])
                    },
                rows_view(out@) == reloaded_upto(orig, names, k as nat),
            decreases n - k,
        {
            let nk = chars_of(new_names[k].as_str());
            assert(nk@ == names[k as int]);
            let mut last = true;
            let mut j: usize = k + 1;
            while j < n
                invariant
                    n == new_names@.len(),
                    names == names_view(new_names@),
                    k < j <= n,
                    nk@ == names[k as int],
                    last == forall|q: int| k < q < j ==> names[q] != names[k as int],
                decreases n - j,
            {
                let nj = chars_of(new_names[j].as_str());
                assert(nj@ == names[j as int]);
                if chars_eq(nj.as_slice(), nk.as_slice()) {
                    last = false;
                }
                j = j + 1;
            }
            assert(last == is_last(names, k as int));
            let ghost before_out = rows_view(out@);
            if last {
                let ghost nm = names[k as int];
                assert(!placed(names, k as int, nm)) by {
                    if placed(names, k as int, nm) {
                        let q = choose|q: int| 0 <= q < k && is_last(names, q) && names[q] == nm;
                        assert(names[k as int] == names[q]);
                    }
                }
                let mut gathered: Vec<ServiceRow> = Vec::new();
                let mut i: usize = 0;
                while i < slots.len()
                    invariant
                        names == names_view(new_names@),
                        k < n,
                        is_last(names, k as int),
                        nm == names[k as int],
                        nk@ == nm,
                        !placed(names, k as int, nm),
                        i <= slots@.len(),
                        slots@.len() == orig.len(),
                        rows_view(gathered@) == named(orig.take(i as int), nm),
                        forall|p: int|
                            0 <= p < slots@.len() ==> slot_view(#[trigger] slots@[p]) == if placed(
                                names,
                                k as int,
                                orig[p].name,
                            ) || (p < i && orig[p].name == nm) {
                                None
                            } else {
                                Some(orig[p])
                            },
                    decreases slots@.len() - i,
                {
                    let ghost before_g = rows_view(gathered@);
                    let take_it = match &slots[i] {
                        Some(r) => {
                            let rn = chars_of(r.name.as_str());
                            chars_eq(rn.as_slice(), nk.as_slice())
                        },
                        None => false,
                    };
                    assert(orig.take(i + 1).drop_last() =~= orig.take(i as int));
                    assert(orig.take(i + 1).last() == orig[i as int]);
                    if take_it {
                        let mut tmp: Option<ServiceRow> = None;
                        slots.set_and_swap(i, &mut tmp);
                        match tmp {
                            Some(r) => {
                                gathered.push(r);
                            },
                            None => {},
                        }
                        assert(rows_view(gathered@) =~= before_g + seq![orig[i as int]]);
                    } else {
                        assert(rows_view(gathered@) =~= before_g + seq![]);
                    }
                    i = i + 1;
                }
                assert(orig.take(orig.len() as int) =~= orig);
                if gathered.len() == 0 {
                    out.push(fresh(&new_names[k]));
                    assert(rows_view(out@) =~= before_out + seq![fresh_row(nm)]);
                } else {
                    let ghost g = rows_view(gathered@);
                    out.append(&mut gathered);
                    assert(rows_view(out@) =~= before_out + g);
                }
                assert forall|p: int| 0 <= p < slots@.len() implies (placed(names, k + 1, orig[p].name)
                    <==> (placed(names, k as int, orig[p].name) || orig[p].name == nm)) by {
                    if orig[p].name == nm {
                        assert(is_last(names, k as int) && names[k as int] == nm);
                    }
                    if placed(names, k + 1, orig[p].name) && !placed(names, k as int, orig[p].name) {
                        let q = choose|q: int| 0 <= q < k + 1 && is_last(names, q) && names[q] == orig[p].name;
                        assert(q == k);
                    }
                }
            } else {
                assert(rows_view(out@) =~= before_out + seq![]);
                assert forall|p: int| 0 <= p < slots@.len() implies (placed(names, k + 1, orig[p].name)
                    <==> placed(names, k as int, orig[p].name)) by {
                    if placed(names, k + 1, orig[p].name) && !placed(names, k as int, orig[p].name) {
                        let q = choose|q: int| 0 <= q < k + 1 && is_last(names, q) && names[q] == orig[p].name;
                        assert(q == k);
                    }
                }
            }
            k = k + 1;
        }
        self.services = out;
    }

    /// The number of services up.
    pub fn up_count(&self) -> (n: usize)
        ensures
            n == count_up(self.rows()),
    {
        let mut n: usize = 0;
        let mut i: usize = 0;
        while i < self.services.len()
            invariant
                i <= self.services@.len(),
                n == count_up(self.rows().take(i as int)),
                n <= i,
            decreases self.services@.len() - i,
        {
            proof {
                assert(self.rows().take(i + 1).drop_last() =~= self.rows().take(i as int));
                lemma_count_up_le(self.rows().take(i as int));
            }
            if self.services[i].status == HealthStatus::Up {
                n = n + 1;
            }
            i = i + 1;
        }
        assert(self.rows().take(self.services@.len() as int) =~= self.rows());
        n
    }
}

/// The names of rows.
pub open spec fn row_names(rows: Seq<RowView>) -> Seq<Seq<char>> {
    rows.map_values(|r: RowView| r.name)
}

proof fn lemma_named_distinct(rows: Seq<RowView>, nm: Seq<char>)
    requires
        row_names(rows).no_duplicates(),
    ensures
        (exists|i: int| 0 <= i < rows.len() && rows[i].name == nm) ==> named(rows, nm).len() == 1
            && forall|i: int| 0 <= i < rows.len() && rows[i].name == nm ==> named(rows, nm)[0] == rows[i],
        !(exists|i: int| 0 <= i < rows.len() && rows[i].name == nm) ==> named(rows, nm).len() == 0,
    decreases rows.len(),
{
    if rows.len() > 0 {
        let front = rows.drop_last();
        assert(row_names(front) =~= row_names(rows).drop_last());
        assert forall|a: int, b: int| 0 <= a < row_names(front).len() && 0 <= b < row_names(front).len() && a != b
            implies row_names(front)[a] != row_names(front)[b] by {
            assert(row_names(front)[a] == row_names(rows)[a]);
            assert(row_names(front)[b] == row_names(rows)[b]);
        }
        lemma_named_distinct(front, nm);
        let l = rows.len() - 1;
        if rows.last().name == nm {
            assert forall|i: int| 0 <= i < front.len() implies front[i].name != nm by {
                assert(row_names(rows)[i] == rows[i].name);
                assert(row_names(rows)[l] == rows[l].name);
            }
            assert forall|i: int| 0 <= i < rows.len() && rows[i].name == nm implies i == l by {
                if i != l {
                    assert(front[i] == rows[i]);
                }
            }
        } else {
            if exists|i: int| 0 <= i < rows.len() && rows[i].name == nm {
                let i = choose|i: int| 0 <= i < rows.len() && rows[i].name == nm;
                assert(i < l);
                assert(front[i] == rows[i]);
            }
            assert forall|i: int| 0 <= i < front.len() && front[i].name == nm implies rows[i].name == nm by {
                assert(front[i] == rows[i]);
            }
        }
    }
}

/// When the new list names each service once and the rows did too, the
/// rows after a reload are exactly one per listed service, in the listed
/// order, a service that was already shown keeps its row (status, latency,
/// history, restart countdown) unchanged, and a newly listed service gets a
/// fresh row. Since every row is then named in the list, the rows (and the
/// restart countdowns) of services no longer listed are gone.
pub proof fn law_reload_follows_list(rows: Seq<RowView>, names: Seq<Seq<char>>)
    requires
        names.no_duplicates(),
        row_names(rows).no_duplicates(),
    ensures
        reloaded(rows, names).len() == names.len(),
        forall|k: int| 0 <= k < names.len() ==> #[trigger] reloaded(rows, names)[k].name == names[k],
        forall|k: int, i: int|
            0 <= k < names.len() && 0 <= i < rows.len() && rows[i].name == names[k]
                ==> #[trigger] reloaded(rows, names)[k] == #[trigger] rows[i],
        forall|k: int|
            0 <= k < names.len() && (forall|i: int| 0 <= i < rows.len() ==> rows[i].name != names[k])
                ==> #[trigger] reloaded(rows, names)[k] == fresh_row(names[k]),
{
    lemma_reload_upto(rows, names, names.len());
}

proof fn lemma_reload_upto(rows: Seq<RowView>, names: Seq<Seq<char>>, k: nat)
    requires
        names.no_duplicates(),
        row_names(rows).no_duplicates(),
        k <= names.len(),
    ensures
        reloaded_upto(rows, names, k).len() == k,
        forall|q: int| 0 <= q < k ==> #[trigger] reloaded_upto(rows, names, k)[q].name == names[q],
        forall|q: int, i: int|
            0 <= q < k && 0 <= i < rows.len() && rows[i].name == names[q]
                ==> #[trigger] reloaded_upto(rows, names, k)[q] == #[trigger] rows[i],
        forall|q: int|
            0 <= q < k && (forall|i: int| 0 <= i < rows.len() ==> rows[i].name != names[q])
                ==> #[trigger] reloaded_upto(rows, names, k)[q] == fresh_row(names[q]),
    decreases k,
{
    if k > 0 {
        let j = (k - 1) as int;
        lemma_reload_upto(rows, names, (k - 1) as nat);
        lemma_named_distinct(rows, names[j]);
        assert(is_last(names, j));
        let prev = reloaded_upto(rows, names, (k - 1) as nat);
        let g = group(rows, names, j);
        assert(reloaded_upto(rows, names, k) == prev + g);
        if exists|i: int| 0 <= i < rows.len() && rows[i].name == names[j] {
            let i = choose|i: int| 0 <= i < rows.len() && rows[i].name == names[j];
            assert(g[0] == rows[i]);
        }
    }
}

// ── Table cells and header texts ───────────────────────────────────────────

/// `n` in at least two digits, zero-padded.
pub open spec fn pad2(n: nat) -> Seq<char> {
    if n < 10 {
        seq!['0'] + decimal(n)
    } else {
        decimal(n)
    }
}

/// A duration of `secs` seconds as `HH:MM:SS` (hours may take more digits).
pub open spec fn uptime_text(secs: nat) -> Seq<char> {
    pad2(secs / 3600) + seq![':'] + pad2((secs % 3600) / 60) + seq![':'] + pad2(secs % 60)
}

fn push_pad2(s: &mut String, n: u64)
    ensures
        final(s)@ == old(s)@ + pad2(n as nat),
{
    if n < 10 {
        crate::text::push_char(s, '0');
    }
    push_decimal(s, n);
}

/// The uptime shown in the header.
pub fn format_uptime(secs: u64) -> (s: String)
    ensures
        s@ == uptime_text(secs as nat),
{
    let mut s = String::new();
    push_pad2(&mut s, secs / 3600);
    crate::text::push_char(&mut s, ':');
    push_pad2(&mut s, (secs % 3600) / 60);
    crate::text::push_char(&mut s, ':');
    push_pad2(&mut s, secs % 60);
    s
}

/// The whole seconds from `now_ms` to `due_ms`, rounded up; none when
/// nothing is due or the moment has passed.
pub fn seconds_left(due_ms: Option<u64>, now_ms: u64) -> (r: Option<u64>)
    ensures
        r == countdown(due_ms, now_ms),
{
    match due_ms {
        Some(d) => if d > now_ms {
            Some((d - now_ms - 1) / 1000 + 1)
        } else {
            None
        },
        None => None,
    }
}

/// The status cell of a row.
pub open spec fn status_cell(status: HealthStatus) -> Seq<char> {
    match status {
        HealthStatus::Up => "● UP   "@,
        HealthStatus::Down => "● DOWN "@,
        HealthStatus::Unknown => "○ ??   "@,
    }
}

/// The status cell of a row.
pub fn status_label(status: HealthStatus) -> (s: &'static str)
    ensures
        s@ == status_cell(status),
{
    match status {
        HealthStatus::Up => "● UP   ",
        HealthStatus::Down => "● DOWN ",
        HealthStatus::Unknown => "○ ??   ",
    }
}

/// The latency cell of a row. For a service that is down it counts down
/// instead: to the pending restart (`heal_in`), else to the next poll
/// (`next_poll_in`), else says a poll is running.
pub open spec fn latency_cell(
    status: HealthStatus,
    latency_ms: Option<u64>,
    heal_in: Option<u64>,
    next_poll_in: Option<u64>,
) -> Seq<char> {
    match status {
        HealthStatus::Up => match latency_ms {
            Some(ms) => " "@ + decimal(ms as nat) + "ms"@,
            None => "  –"@,
        },
        HealthStatus::Down => match heal_in {
            Some(s) => " heal "@ + decimal(s as nat) + "s"@,
            None => match next_poll_in {
                Some(s) => " next "@ + decimal(s as nat) + "s"@,
                None => " checking"@,
            },
        },
        HealthStatus::Unknown => "  –"@,
    }
}

/// The latency cell of a row.
pub fn latency_label(
    status: HealthStatus,
    latency_ms: Option<u64>,
    heal_in: Option<u64>,
    next_poll_in: Option<u64>,
) -> (s: String)
    ensures
        s@ == latency_cell(status, latency_ms, heal_in, next_poll_in),
{
    let mut s = String::new();
    match status {
        HealthStatus::Up => match latency_ms {
            Some(ms) => {
                push_str(&mut s, " ");
                push_decimal(&mut s, ms);
                push_str(&mut s, "ms");
            },
            None => push_str(&mut s, "  –"),
        },
        HealthStatus::Down => match heal_in {
            Some(secs) => {
                push_str(&mut s, " heal ");
                push_decimal(&mut s, secs);
                push_str(&mut s, "s");
            },
            None => match next_poll_in {
                Some(secs) => {
                    push_str(&mut s, " next ");
                    push_decimal(&mut s, secs);
                    push_str(&mut s, "s");
                },
                None => push_str(&mut s, " checking"),
            },
        },
        HealthStatus::Unknown => push_str(&mut s, "  –"),
    }
    s
}

/// What a key pressed on the dashboard asks for.
#[derive(Debug, Clone, Copy, PartialEq, Eq, Structural)]
pub enum DashboardAction {
    /// Stop monitoring (`q`, `Q`, Ctrl+C).
    Quit,
    /// Switch maintenance mode (`m`, `M`).
    ToggleMaintenance,
    /// Read the configuration again (`r`, `R`).
    Reload,
    /// Any other key.
    Nothing,
}

/// The action of a key on the dashboard; `ctrl` says whether Control was
/// held.
pub open spec fn action_of(code: KeyCode, ctrl: bool) -> DashboardAction {
    match code {
        KeyCode::Char(c) => if c == 'q' || c == 'Q' || (c == 'c' && ctrl) {
            DashboardAction::Quit
        } else if c == 'm' || c == 'M' {
            DashboardAction::ToggleMaintenance
        } else if c == 'r' || c == 'R' {
            DashboardAction::Reload
        } else {
            DashboardAction::Nothing
        },
        _ => DashboardAction::Nothing,
    }
}

/// The action of a key on the dashboard.
pub fn dashboard_action(code: KeyCode, ctrl: bool) -> (a: DashboardAction)
    ensures
        a == action_of(code, ctrl),
{
    match code {
        KeyCode::Char(c) => if c == 'q' || c == 'Q' || (c == 'c' && ctrl) {
            DashboardAction::Quit
        } else if c == 'm' || c == 'M' {
            DashboardAction::ToggleMaintenance
        } else if c == 'r' || c == 'R' {
            DashboardAction::Reload
        } else {
            DashboardAction::Nothing
        },
        _ => DashboardAction::Nothing,
    }
}

/// The history after a sample never holds more than `LATENCY_HISTORY`
/// samples when it did not before.
pub proof fn law_history_bounded(history: Seq<u64>, latency_ms: Option<u64>)
    requires
        history.len() <= LATENCY_HISTORY,
    ensures
        with_sample(history, latency_ms).len() <= LATENCY_HISTORY,
{
}

/// The log never holds more than `MAX_LOGS` lines when it did not before.
pub proof fn law_log_bounded(logs: Seq<Seq<char>>, line: Seq<char>)
    requires
        logs.len() <= MAX_LOGS,
    ensures
        with_log(logs, line).len() <= MAX_LOGS,
        with_log(logs, line).last() == line,
{
}


/// A check of `name` changes only the first row of that name, and nothing
/// when no row has it: the row takes the status found, the latency, the
/// check time and (for an answered probe) a latency sample, the oldest
/// dropped at `LATENCY_HISTORY`; a healthy check cancels a pending restart
/// countdown. No history grows past `LATENCY_HISTORY`.
pub proof fn law_check_updates_first_row(
    rows: Seq<RowView>,
    name: Seq<char>,
    healthy: bool,
    latency_ms: Option<u64>,
    checked_at: Seq<char>,
)
    requires
        forall|i: int| 0 <= i < rows.len() ==> #[trigger] rows[i].history.len() <= LATENCY_HISTORY,
    ensures
        rows_after_check(rows, name, healthy, latency_ms, checked_at).len() == rows.len(),
        (forall|i: int| 0 <= i < rows.len() ==> rows[i].name != name) ==> rows_after_check(
            rows,
            name,
            healthy,
            latency_ms,
            checked_at,
        ) == rows,
        (exists|i: int| 0 <= i < rows.len() && rows[i].name == name) ==> ({
            let r = rows_after_check(rows, name, healthy, latency_ms, checked_at);
            let i = first_named(rows, name);
            &&& 0 <= i < rows.len()
            &&& rows[i].name == name
            &&& forall|j: int| 0 <= j < i ==> rows[j].name != name
            &&& r[i].name == name
            &&& r[i].status == (if healthy {
                HealthStatus::Up
            } else {
                HealthStatus::Down
            })
            &&& r[i].latency_ms == latency_ms
            &&& r[i].history == with_sample(rows[i].history, latency_ms)
            &&& r[i].last_checked == checked_at
            &&& r[i].heal_due == (if healthy {
                None
            } else {
                rows[i].heal_due
            })
            &&& forall|j: int| 0 <= j < rows.len() && j != i ==> r[j] == rows[j]
        }),
        forall|i: int|
            0 <= i < rows.len() ==> #[trigger] rows_after_check(
                rows,
                name,
                healthy,
                latency_ms,
                checked_at,
            )[i].history.len() <= LATENCY_HISTORY,
{
    if exists|i: int| 0 <= i < rows.len() && rows[i].name == name {
        let k = first_named(rows, name);
        lemma_first_named(rows, name);
        let r = rows_after_check(rows, name, healthy, latency_ms, checked_at);
        assert(r == rows.update(k, checked_row(rows[k], healthy, latency_ms, checked_at)));
        law_history_bounded(rows[k].history, latency_ms);
        assert forall|i: int| 0 <= i < rows.len() implies #[trigger] r[i].history.len()
            <= LATENCY_HISTORY by {
            if i != k {
                assert(r[i] == rows[i]);
            }
        }
    }
}

/// The first row of a name that some row has is well defined.
proof fn lemma_first_named(rows: Seq<RowView>, name: Seq<char>)
    requires
        exists|i: int| 0 <= i < rows.len() && rows[i].name == name,
    ensures
        0 <= first_named(rows, name) < rows.len(),
        rows[first_named(rows, name)].name == name,
        forall|j: int| 0 <= j < first_named(rows, name) ==> rows[j].name != name,
{
    let i = choose|i: int| 0 <= i < rows.len() && rows[i].name == name;
    lemma_first_from(rows, name, i);
}

proof fn lemma_first_from(rows: Seq<RowView>, name: Seq<char>, i: int)
    requires
        0 <= i < rows.len(),
        rows[i].name == name,
    ensures
        exists|k: int|
            0 <= k < rows.len() && rows[k].name == name && forall|j: int|
                0 <= j < k ==> rows[j].name != name,
    decreases i,
{
    if exists|j: int| 0 <= j < i && rows[j].name == name {
        let j = choose|j: int| 0 <= j < i && rows[j].name == name;
        lemma_first_from(rows, name, j);
    } else {
        assert(forall|j: int| 0 <= j < i ==> rows[j].name != name);
    }
}


/// The keys of the dashboard: `q` and `Q` quit with or without Control, as
/// does Ctrl+C; `m` and `M` switch maintenance mode and `r` and `R` reload
/// the configuration, with or without Control; a plain `c`, any other
/// letter named here in another case, and every key that is not a
/// character do nothing.
pub proof fn law_dashboard_keys(c: char, ctrl: bool, other: KeyCode)
    ensures
        (c == 'q' || c == 'Q') ==> action_of(KeyCode::Char(c), ctrl) == DashboardAction::Quit,
        action_of(KeyCode::Char('c'), true) == DashboardAction::Quit,
        action_of(KeyCode::Char('c'), false) == DashboardAction::Nothing,
        (c == 'm' || c == 'M') ==> action_of(KeyCode::Char(c), ctrl)
            == DashboardAction::ToggleMaintenance,
        (c == 'r' || c == 'R') ==> action_of(KeyCode::Char(c), ctrl) == DashboardAction::Reload,
        (c != 'q' && c != 'Q' && c != 'c' && c != 'm' && c != 'M' && c != 'r' && c != 'R')
            ==> action_of(KeyCode::Char(c), ctrl) == DashboardAction::Nothing,
        !(other is Char) ==> action_of(other, ctrl) == DashboardAction::Nothing,
{
}

/// The status cells: a service up shows "● UP   ", a service down
/// "● DOWN ", one not yet checked "○ ??   ", and no two statuses look
/// alike.
pub proof fn law_status_cells(a: HealthStatus, b: HealthStatus)
    ensures
        status_cell(HealthStatus::Up) == "● UP   "@,
        status_cell(HealthStatus::Down) == "● DOWN "@,
        status_cell(HealthStatus::Unknown) == "○ ??   "@,
        a != b ==> status_cell(a) != status_cell(b),
{
    reveal_strlit("● UP   ");
    reveal_strlit("● DOWN ");
    reveal_strlit("○ ??   ");
    assert(status_cell(HealthStatus::Up)[2] == 'U');
    assert(status_cell(HealthStatus::Down)[2] == 'D');
    assert(status_cell(HealthStatus::Unknown)[0] == '○');
    assert(status_cell(HealthStatus::Up)[0] == '●');
    assert(status_cell(HealthStatus::Down)[0] == '●');
}

/// A latency sample is appended at the end of the history; when the history
/// already held `LATENCY_HISTORY` samples its oldest (first) one goes; a
/// probe without an answer adds no sample.
pub proof fn law_sample_appended(history: Seq<u64>, ms: u64)
    ensures
        with_sample(history, None) == history,
        with_sample(history, Some(ms)).last() == ms,
        history.len() < LATENCY_HISTORY ==> with_sample(history, Some(ms)).len() == history.len() + 1
            && forall|i: int| 0 <= i < history.len() ==> #[trigger] with_sample(history, Some(ms))[i]
                == history[i],
        history.len() >= LATENCY_HISTORY ==> with_sample(history, Some(ms)).len() == history.len()
            && forall|i: int| 0 <= i < history.len() - 1 ==> #[trigger] with_sample(history, Some(ms))[i]
                == history[i + 1],
{
}


/// The latency cell: a service up shows its latency in milliseconds (or a
/// dash when the probe got no answer); a service down shows the pending
/// restart countdown, else the countdown to the next poll, else that a poll
/// is running; a service not yet checked shows a dash.
pub proof fn law_latency_cells(ms: u64, l: Option<u64>, h: Option<u64>, p: Option<u64>, s: u64)
    ensures
        latency_cell(HealthStatus::Up, Some(ms), h, p) == " "@ + decimal(ms as nat) + "ms"@,
        latency_cell(HealthStatus::Up, None, h, p) == "  –"@,
        latency_cell(HealthStatus::Down, l, Some(s), p) == " heal "@ + decimal(s as nat) + "s"@,
        latency_cell(HealthStatus::Down, l, None, Some(s)) == " next "@ + decimal(s as nat) + "s"@,
        latency_cell(HealthStatus::Down, l, None, None) == " checking"@,
        latency_cell(HealthStatus::Unknown, l, h, p) == "  –"@,
{
}

/// A countdown shows the whole seconds left rounded up: `k` seconds mean
/// more than `k - 1` and at most `k` seconds are left, so it never shows 0
/// while time is left; nothing shows once the moment has come.
pub proof fn law_countdown_rounds_up(due: u64, now: u64)
    ensures
        due <= now ==> countdown(Some(due), now) is None,
        countdown(None, now) is None,
        due > now ==> ({
            let k = countdown(Some(due), now)->0;
            &&& countdown(Some(due), now) is Some
            &&& k >= 1
            &&& (k - 1) * 1000 < due - now
            &&& due - now <= k * 1000
        }),
{
    if due > now {
        let x = (due - now - 1) as int;
        let k = x / 1000 + 1;
        assert((k - 1) * 1000 <= x && x < k * 1000) by (nonlinear_arith)
            requires
                x >= 0,
                k == x / 1000 + 1,
        ;
    }
}

/// An event is added at the end of the log as ` <time> │ <message>`; when
/// the log already held `MAX_LOGS` lines its oldest (first) one goes.
pub proof fn law_log_appended(logs: Seq<Seq<char>>, time: Seq<char>, msg: Seq<char>)
    ensures
        log_line(time, msg) == " "@ + time + " │ "@ + msg,
        with_log(logs, log_line(time, msg)).last() == log_line(time, msg),
        logs.len() < MAX_LOGS ==> with_log(logs, log_line(time, msg)).len() == logs.len() + 1
            && forall|i: int| 0 <= i < logs.len() ==> #[trigger] with_log(logs, log_line(time, msg))[i]
                == logs[i],
        logs.len() >= MAX_LOGS ==> with_log(logs, log_line(time, msg)).len() == logs.len()
            && forall|i: int| 0 <= i < logs.len() - 1 ==> #[trigger] with_log(logs, log_line(time, msg))[i]
                == logs[i + 1],
{
}

} // verus!
