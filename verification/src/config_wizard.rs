//! The setup wizard: a menu-driven state machine over the configuration
//! being edited. Each key press moves it from one state to the next; the
//! outside work it needs (listing the local services, writing the file) is
//! handed back to the caller as a request, whose outcome comes back in.
//!
//! Screen flow:
//!
//!   MainMenu ──► GlobalSettings  (Edit Global Settings)
//!            ──► ServiceList     (Manage Services)
//!                  └──► ServiceEdit(i)  (Enter / edit a specific service)
//!            ──► ServiceEdit(new)       (Add New Service → jumps straight to edit)
//!            ──► save + quit            (Save & Exit)

use vstd::prelude::*;
use crate::config::{CheckMethod, Config, ConfigView, ServiceConfig, ServiceConfigView, DEFAULT_RECOVERY_DELAY};
use crate::text_map::TextMap;
use crate::text::{
    chars_end_with, chars_eq, chars_of, char_vecs_view, decimal, ends_with, is_blank,
    digit_value, is_digit, is_digit_char, join, join_with_space, line_pieces, parse_u64, parse_u64_chars,
    pop_char, push_char, push_decimal, push_str, split_pieces, split_words, starts_with,
    string_of, trim, trim_chars, words,
};

verus! {

// ── Keys ────────────────────────────────────────────────────────────────────

/// A key of the keyboard, as the wizard tells them apart.
#[derive(Debug, Clone, Copy, PartialEq, Eq, Structural)]
pub enum KeyCode {
    Char(char),
    Enter,
    Esc,
    Tab,
    BackTab,
    Backspace,
    Up,
    Down,
    Left,
    Right,
    /// Any other key; the wizard ignores it.
    Other,
}

/// The modifier keys held with a key; the wizard only reads Shift.
#[derive(Debug, Clone, Copy, PartialEq, Eq, Structural)]
pub struct KeyModifiers {
    pub shift: bool,
}

impl KeyModifiers {
    /// No modifier held.
    pub fn empty() -> (m: KeyModifiers)
        ensures
            !m.shift,
    {
        KeyModifiers { shift: false }
    }

    /// Shift held.
    pub fn shift() -> (m: KeyModifiers)
        ensures
            m.shift,
    {
        KeyModifiers { shift: true }
    }
}

/// One key press.
#[derive(Debug, Clone, Copy, PartialEq, Eq, Structural)]
pub struct KeyEvent {
    pub code: KeyCode,
    pub modifiers: KeyModifiers,
}

impl KeyEvent {
    /// A key press of `code` with `modifiers`.
    pub fn new(code: KeyCode, modifiers: KeyModifiers) -> (k: KeyEvent)
        ensures
            k.code == code,
            k.modifiers == modifiers,
    {
        KeyEvent { code, modifiers }
    }
}

// ── Service form ────────────────────────────────────────────────────────────

/// The editable fields of one service.
#[derive(Debug, Clone)]
pub struct ServiceForm {
    pub name: String,
    pub url: String,
    pub method: CheckMethod,
    pub restart_command: String,
    /// Carried through from the loaded configuration; not edited here.
    pub recovery_delay: u64,
}

/// The abstract value of a service form.
pub struct ServiceFormView {
    pub name: Seq<char>,
    pub url: Seq<char>,
    pub method: CheckMethod,
    pub restart_command: Seq<char>,
    pub recovery_delay: u64,
}

impl View for ServiceForm {
    type V = ServiceFormView;

    open spec fn view(&self) -> ServiceFormView {
        ServiceFormView {
            name: self.name@,
            url: self.url@,
            method: self.method,
            restart_command: self.restart_command@,
            recovery_delay: self.recovery_delay,
        }
    }
}

/// The form a new service starts from: every text empty, HTTP probing.
pub open spec fn default_form() -> ServiceFormView {
    ServiceFormView {
        name: seq![],
        url: seq![],
        method: CheckMethod::Http,
        restart_command: seq![],
        recovery_delay: DEFAULT_RECOVERY_DELAY,
    }
}

impl Default for ServiceForm {
    fn default() -> (f: ServiceForm)
        ensures
            f@ == default_form(),
    {
        ServiceForm {
            name: String::new(),
            url: String::new(),
            method: CheckMethod::Http,
            restart_command: String::new(),
            recovery_delay: DEFAULT_RECOVERY_DELAY,
        }
    }
}

/// The other probing method.
pub open spec fn toggled(m: CheckMethod) -> CheckMethod {
    match m {
        CheckMethod::Http => CheckMethod::Tcp,
        CheckMethod::Tcp => CheckMethod::Http,
    }
}

impl ServiceForm {
    /// Switches between HTTP and TCP probing.
    pub fn toggle_method(&mut self)
        ensures
            final(self)@ == (ServiceFormView { method: toggled(old(self).method), ..old(self)@ }),
    {
        self.method = match self.method {
            CheckMethod::Http => CheckMethod::Tcp,
            CheckMethod::Tcp => CheckMethod::Http,
        };
    }
}

/// Toggling the method twice gives back the form.
pub proof fn law_toggle_twice(m: CheckMethod)
    ensures
        toggled(toggled(m)) == m,
{
}

// ── Service discovery ───────────────────────────────────────────────────────

/// A running systemd service found on this machine.
#[derive(Debug, Clone)]
pub struct ScanResult {
    /// Full systemd unit name including ".service" suffix, e.g. "nginx.service".
    pub name: String,
    pub description: String,
}

impl View for ScanResult {
    type V = (Seq<char>, Seq<char>);

    open spec fn view(&self) -> (Seq<char>, Seq<char>) {
        (self.name@, self.description@)
    }
}

/// The views of a sequence of scan results.
pub open spec fn scan_results_view(v: Seq<ScanResult>) -> Seq<(Seq<char>, Seq<char>)> {
    v.map_values(|r: ScanResult| r@)
}

/// The unit-name suffix of a service.
pub open spec fn service_suffix() -> Seq<char> {
    seq!['.', 's', 'e', 'r', 'v', 'i', 'c', 'e']
}

/// The load state of a unit that systemd has loaded.
pub open spec fn loaded_word() -> Seq<char> {
    seq!['l', 'o', 'a', 'd', 'e', 'd']
}

/// The service a row of `systemctl list-units --plain` names, given the
/// row's words (`UNIT LOAD ACTIVE SUB DESCRIPTION...`): rows of fewer than
/// five words, of a unit that is not a service, or of a unit not loaded are
/// header or footer noise.
pub open spec fn scan_row(parts: Seq<Seq<char>>) -> Option<(Seq<char>, Seq<char>)> {
    if parts.len() >= 5 && ends_with(parts[0], service_suffix()) && parts[1] == loaded_word() {
        Some((parts[0], join(parts.skip(4), seq![' '])))
    } else {
        None
    }
}

/// The services named by the rows of `lines`, in order.
pub open spec fn scan_rows(lines: Seq<Seq<char>>) -> Seq<(Seq<char>, Seq<char>)>
    decreases lines.len(),
{
    if lines.len() == 0 {
        seq![]
    } else {
        scan_rows(lines.drop_last()) + match scan_row(words(lines.last())) {
            Some(r) => seq![r],
            None => seq![],
        }
    }
}

/// The services that an output of `systemctl list-units` lists.
pub open spec fn listed_services(stdout: Seq<char>) -> Seq<(Seq<char>, Seq<char>)> {
    scan_rows(line_pieces(stdout))
}

/// Reads the services out of the output of
/// `systemctl list-units --type=service --state=running --no-pager --plain`.
pub fn parse_systemctl_output(stdout: &str) -> (r: Vec<ScanResult>)
    ensures
        scan_results_view(r@) == listed_services(stdout@),
{
    let cs = chars_of(stdout);
    let lines = split_pieces(cs.as_slice());
    let suffix: Vec<char> = vec!['.', 's', 'e', 'r', 'v', 'i', 'c', 'e'];
    let loaded: Vec<char> = vec!['l', 'o', 'a', 'd', 'e', 'd'];
    assert(suffix@ == service_suffix());
    assert(loaded@ == loaded_word());
    let ghost lv = char_vecs_view(lines@);
    let mut out: Vec<ScanResult> = Vec::new();
    let mut i: usize = 0;
    while i < lines.len()
        invariant
            i <= lines@.len(),
            lv == char_vecs_view(lines@),
            lv == line_pieces(cs@),
            suffix@ == service_suffix(),
            loaded@ == loaded_word(),
            scan_results_view(out@) == scan_rows(lv.take(i as int)),
        decreases lines@.len() - i,
    {
        let parts = split_words(lines[i].as_slice());
        let ghost pv = char_vecs_view(parts@);
        assert(lv.take(i + 1).drop_last() =~= lv.take(i as int));
        assert(lv.take(i + 1).last() == lines@[i as int]@);
        let ghost before = out@;
        if parts.len() >= 5 && chars_end_with(parts[0].as_slice(), suffix.as_slice())
            && chars_eq(parts[1].as_slice(), loaded.as_slice()) {
            let name = string_of(parts[0].as_slice());
            let description = join_with_space(&parts, 4);
            assert(pv[0] == parts@[0]@);
            assert(pv[1] == parts@[1]@);
            out.push(ScanResult { name, description });
            assert(scan_results_view(out@) =~= scan_results_view(before).push(out@.last()@));
            assert(scan_results_view(out@) =~= scan_rows(lv.take(i + 1)));
        } else {
            proof {
                if pv.len() >= 5 {
                    assert(pv[0] == parts@[0]@);
                    assert(pv[1] == parts@[1]@);
                }
            }
            assert(scan_results_view(out@) =~= scan_rows(lv.take(i + 1)));
        }
        i = i + 1;
    }
    assert(lv.take(lines@.len() as int) =~= lv);
    out
}

/// Every service read from the scanner's output is named by a unit name
/// ending in ".service".
pub proof fn law_scanned_names_are_services(stdout: Seq<char>, i: int)
    requires
        0 <= i < listed_services(stdout).len(),
    ensures
        ends_with(listed_services(stdout)[i].0, service_suffix()),
{
    lemma_scan_rows_are_services(line_pieces(stdout), i);
}

proof fn lemma_scan_rows_are_services(lines: Seq<Seq<char>>, i: int)
    requires
        0 <= i < scan_rows(lines).len(),
    ensures
        ends_with(scan_rows(lines)[i].0, service_suffix()),
    decreases lines.len(),
{
    if lines.len() > 0 {
        let front = scan_rows(lines.drop_last());
        if i < front.len() {
            lemma_scan_rows_are_services(lines.drop_last(), i);
        }
    }
}

// ── Screens, focus, status ─────────────────────────────────────────────────

/// The screen the wizard shows.
#[derive(Debug, Clone, Copy, PartialEq, Eq, Structural)]
pub enum Screen {
    MainMenu,
    GlobalSettings,
    ServiceList,
    ServiceEdit(usize),
    Scanner,
}

/// The focused field of the global settings screen.
#[derive(Debug, Clone, Copy, PartialEq, Eq, Structural)]
pub enum GlobalField {
    DiscordWebhook,
    Interval,
}

/// The focused field of the service edit screen.
#[derive(Debug, Clone, Copy, PartialEq, Eq, Structural)]
pub enum ServiceField {
    Name,
    Url,
    Method,
    RestartCommand,
    RecoveryDelay,
}

/// The message shown in the status strip.
#[derive(Debug, Clone)]
pub enum WizardStatus {
    Saved,
    Info(String),
    Error(String),
}

/// The abstract value of a status.
pub enum StatusView {
    Saved,
    Info(Seq<char>),
    Error(Seq<char>),
}

impl View for WizardStatus {
    type V = StatusView;

    open spec fn view(&self) -> StatusView {
        match self {
            WizardStatus::Saved => StatusView::Saved,
            WizardStatus::Info(s) => StatusView::Info(s@),
            WizardStatus::Error(s) => StatusView::Error(s@),
        }
    }
}

/// The view of an optional status.
pub open spec fn opt_status_view(s: Option<WizardStatus>) -> Option<StatusView> {
    match s {
        Some(t) => Some(t@),
        None => None,
    }
}

/// Main menu item labels (index is the canonical ID).
pub const MENU_LEN: usize = 4;

/// The label of main menu item `i`.
pub open spec fn menu_label(i: int) -> Seq<char> {
    if i == 0 {
        "Edit Global Settings"@
    } else if i == 1 {
        "Manage Services"@
    } else if i == 2 {
        "Add New Service"@
    } else {
        "Save & Exit"@
    }
}

/// The label of main menu item `i`.
pub fn menu_item(i: usize) -> (label: &'static str)
    requires
        i < MENU_LEN,
    ensures
        label@ == menu_label(i as int),
{
    if i == 0 {
        "Edit Global Settings"
    } else if i == 1 {
        "Manage Services"
    } else if i == 2 {
        "Add New Service"
    } else {
        "Save & Exit"
    }
}

/// What the caller has to do for the wizard after a key press.
#[derive(Debug)]
pub enum WizardRequest {
    /// Nothing.
    Nothing,
    /// List the running services (`systemctl list-units --type=service
    /// --state=running --no-pager --plain`) and hand the outcome to
    /// `finish_scan`.
    Scan,
    /// Write this configuration to `config.toml` and hand the outcome to
    /// `finish_save`.
    Save(Config),
}

/// The abstract value of a request.
pub enum RequestView {
    Nothing,
    Scan,
    Save(ConfigView),
}

impl View for WizardRequest {
    type V = RequestView;

    open spec fn view(&self) -> RequestView {
        match self {
            WizardRequest::Nothing => RequestView::Nothing,
            WizardRequest::Scan => RequestView::Scan,
            WizardRequest::Save(c) => RequestView::Save(c@),
        }
    }
}

/// What listing the local services gave.
#[derive(Debug)]
pub enum ScanOutcome {
    /// `systemctl` could not be started (not Linux, or no systemd).
    NotAvailable,
    /// `systemctl` ran and failed; its standard error is given.
    Failed(String),
    /// `systemctl` ran and succeeded; its standard output is given.
    Listed(String),
}

/// Why the wizard's contents are not a configuration.
#[derive(Debug, Clone, Copy, PartialEq, Eq, Structural)]
pub enum ConfigError {
    /// The interval is not a whole number of seconds.
    InvalidInterval,
}

/// The field errors, keyed by field ("interval", "svc_<i>_name", ...).
pub type FieldErrors = TextMap<String>;

/// The setup wizard.
pub struct ConfigWizard {
    pub discord_webhook: String,
    pub interval: String,
    pub services: Vec<ServiceForm>,
    pub screen: Screen,
    /// 0 .. MENU_LEN - 1
    pub menu_index: usize,
    /// cursor in ServiceList
    pub list_index: usize,
    /// active field in GlobalSettings
    pub global_focus: GlobalField,
    /// active field in ServiceEdit
    pub edit_focus: ServiceField,
    pub scan_results: Vec<ScanResult>,
    pub scan_index: usize,
    /// Where to return on Esc from the Scanner screen.
    pub scanner_return: Screen,
    pub errors: FieldErrors,
    pub status: Option<WizardStatus>,
    pub should_quit: bool,
}

/// The abstract value of the wizard.
#[verifier::ext_equal]
pub struct WizardView {
    pub discord_webhook: Seq<char>,
    pub interval: Seq<char>,
    pub services: Seq<ServiceFormView>,
    pub screen: Screen,
    pub menu_index: usize,
    pub list_index: usize,
    pub global_focus: GlobalField,
    pub edit_focus: ServiceField,
    pub scan_results: Seq<(Seq<char>, Seq<char>)>,
    pub scan_index: usize,
    pub scanner_return: Screen,
    pub errors: Map<Seq<char>, Seq<char>>,
    pub status: Option<StatusView>,
    pub should_quit: bool,
}

/// The list cursor points at a service whenever there are several.
pub open spec fn cursor_ok(v: WizardView) -> bool {
    v.services.len() <= 1 || v.list_index < v.services.len()
}

/// The views of a sequence of service forms.
pub open spec fn forms_view(v: Seq<ServiceForm>) -> Seq<ServiceFormView> {
    v.map_values(|f: ServiceForm| f@)
}

impl View for ConfigWizard {
    type V = WizardView;

    open spec fn view(&self) -> WizardView {
        WizardView {
            discord_webhook: self.discord_webhook@,
            interval: self.interval@,
            services: forms_view(self.services@),
            screen: self.screen,
            menu_index: self.menu_index,
            list_index: self.list_index,
            global_focus: self.global_focus,
            edit_focus: self.edit_focus,
            scan_results: scan_results_view(self.scan_results@),
            scan_index: self.scan_index,
            scanner_return: self.scanner_return,
            errors: self.errors@,
            status: opt_status_view(self.status),
            should_quit: self.should_quit,
        }
    }
}

// ── Messages and keys of the error map ─────────────────────────────────────

pub open spec fn interval_key() -> Seq<char> {
    "interval"@
}

pub open spec fn name_field() -> Seq<char> {
    "name"@
}

pub open spec fn url_field() -> Seq<char> {
    "url"@
}

pub open spec fn cmd_field() -> Seq<char> {
    "cmd"@
}

/// The prefix of the error keys of service `idx`: `svc_<idx>_`.
pub open spec fn svc_prefix(idx: nat) -> Seq<char> {
    "svc_"@ + decimal(idx) + "_"@
}

/// The error key of `field` of service `idx`: `svc_<idx>_<field>`.
pub open spec fn svc_key(idx: nat, field: Seq<char>) -> Seq<char> {
    svc_prefix(idx) + field
}

pub open spec fn required_msg() -> Seq<char> {
    "Required"@
}

pub open spec fn interval_msg() -> Seq<char> {
    "Must be a positive integer (e.g. 30)"@
}

pub open spec fn deleted_msg() -> Seq<char> {
    "Service deleted."@
}

pub open spec fn last_service_msg() -> Seq<char> {
    "Cannot delete the last service."@
}

pub open spec fn scanner_unavailable_msg() -> Seq<char> {
    "Scanner only available on Linux/Systemd."@
}

pub open spec fn systemctl_failed_msg(stderr: Seq<char>) -> Seq<char> {
    "systemctl failed: "@ + stderr
}

pub open spec fn no_units_msg() -> Seq<char> {
    "No running .service units discovered."@
}

pub open spec fn imported_msg(name: Seq<char>) -> Seq<char> {
    "Imported '"@ + name + "' — fill in URL/Address."@
}

pub open spec fn attention_msg(n: nat) -> Seq<char> {
    decimal(n) + " field(s) need attention — check each sub-screen"@
}

pub open spec fn write_failed_msg(reason: Seq<char>) -> Seq<char> {
    "Write failed: "@ + reason
}

pub open spec fn invalid_interval_reason() -> Seq<char> {
    "interval must be a positive integer"@
}

// ── The transition function ─────────────────────────────────────────────────

/// `n - 1`, or 0 when `n` is 0.
pub open spec fn dec_sat(n: usize) -> usize {
    if n > 0 {
        (n - 1) as usize
    } else {
        0
    }
}

/// The next field of the service edit form (the last stays put: Enter
/// leaves from there).
pub open spec fn next_field(f: ServiceField) -> ServiceField {
    match f {
        ServiceField::Name => ServiceField::Url,
        ServiceField::Url => ServiceField::Method,
        ServiceField::Method => ServiceField::RestartCommand,
        ServiceField::RestartCommand => ServiceField::RecoveryDelay,
        ServiceField::RecoveryDelay => ServiceField::RecoveryDelay,
    }
}

/// The previous field of the service edit form (the first stays put).
pub open spec fn prev_field(f: ServiceField) -> ServiceField {
    match f {
        ServiceField::Name => ServiceField::Name,
        ServiceField::Url => ServiceField::Name,
        ServiceField::Method => ServiceField::Url,
        ServiceField::RestartCommand => ServiceField::Method,
        ServiceField::RecoveryDelay => ServiceField::RestartCommand,
    }
}

/// Whether an interval text is a positive whole number of seconds.
pub open spec fn interval_ok(interval: Seq<char>) -> bool {
    match parse_u64(trim(interval)) {
        Some(n) => n > 0,
        None => false,
    }
}

/// Whether a text is empty once trimmed.
pub open spec fn blank(s: Seq<char>) -> bool {
    trim(s).len() == 0
}

/// The error map with `key` flagged (`bad`) or cleared.
pub open spec fn flag(
    errors: Map<Seq<char>, Seq<char>>,
    key: Seq<char>,
    bad: bool,
    msg: Seq<char>,
) -> Map<Seq<char>, Seq<char>> {
    if bad {
        errors.insert(key, msg)
    } else {
        errors.remove(key)
    }
}

/// The wizard after checking the interval.
pub open spec fn interval_checked(v: WizardView) -> WizardView {
    WizardView {
        errors: flag(v.errors, interval_key(), !interval_ok(v.interval), interval_msg()),
        ..v
    }
}

/// The wizard after checking the required fields of service `idx`.
pub open spec fn service_checked(v: WizardView, idx: nat) -> WizardView {
    if idx >= v.services.len() {
        v
    } else {
        let f = v.services[idx as int];
        let e1 = flag(v.errors, svc_key(idx, name_field()), blank(f.name), required_msg());
        let e2 = flag(e1, svc_key(idx, url_field()), blank(f.url), required_msg());
        let e3 = flag(e2, svc_key(idx, cmd_field()), blank(f.restart_command), required_msg());
        WizardView { errors: e3, ..v }
    }
}

/// The wizard after checking the services `0 .. k`, in order.
pub open spec fn services_checked(v: WizardView, k: nat) -> WizardView
    decreases k,
{
    if k == 0 {
        v
    } else {
        service_checked(services_checked(v, (k - 1) as nat), (k - 1) as nat)
    }
}

/// The wizard after a full validation: errors cleared, then the interval and
/// every service checked.
pub open spec fn validated(v: WizardView) -> WizardView {
    services_checked(
        interval_checked(WizardView { errors: Map::empty(), ..v }),
        v.services.len(),
    )
}

/// The entry a form is written as: texts trimmed.
pub open spec fn form_config(f: ServiceFormView) -> ServiceConfigView {
    ServiceConfigView {
        name: trim(f.name),
        url: trim(f.url),
        method: f.method,
        restart_command: trim(f.restart_command),
        recovery_delay: f.recovery_delay,
    }
}

/// The configuration the wizard's contents stand for, if its interval is a
/// whole number.
pub open spec fn wizard_config(v: WizardView) -> Option<ConfigView> {
    match parse_u64(trim(v.interval)) {
        None => None,
        Some(n) => Some(
            ConfigView {
                interval_secs: n,
                discord_webhook_url: if blank(v.discord_webhook) {
                    None
                } else {
                    Some(trim(v.discord_webhook))
                },
                services: v.services.map_values(|f: ServiceFormView| form_config(f)),
            },
        ),
    }
}

/// Save & Exit: validate; when a field needs attention, say how many; else
/// ask for the configuration to be written.
pub open spec fn save_step(v: WizardView) -> (WizardView, RequestView) {
    let w = validated(v);
    if w.errors.len() > 0 {
        (
            WizardView { status: Some(StatusView::Error(attention_msg(w.errors.len()))), ..w },
            RequestView::Nothing,
        )
    } else {
        match wizard_config(w) {
            Some(c) => (w, RequestView::Save(c)),
            None => (
                WizardView {
                    status: Some(StatusView::Error(write_failed_msg(invalid_interval_reason()))),
                    ..w
                },
                RequestView::Nothing,
            ),
        }
    }
}

/// Starting a scan: remember where to come back to, forget earlier results,
/// and ask for the services to be listed.
pub open spec fn scan_step(v: WizardView) -> (WizardView, RequestView) {
    (
        WizardView { scanner_return: v.screen, scan_results: seq![], scan_index: 0, ..v },
        RequestView::Scan,
    )
}

/// No change, no request.
pub open spec fn stay(v: WizardView) -> (WizardView, RequestView) {
    (v, RequestView::Nothing)
}

pub open spec fn main_menu_step(v: WizardView, key: KeyEvent) -> (WizardView, RequestView) {
    let code = key.code;
    if code == KeyCode::Up || code == KeyCode::Char('k') {
        stay(WizardView { menu_index: dec_sat(v.menu_index), ..v })
    } else if code == KeyCode::Down || code == KeyCode::Char('j') {
        stay(
            WizardView {
                menu_index: if v.menu_index < MENU_LEN - 1 {
                    (v.menu_index + 1) as usize
                } else {
                    v.menu_index
                },
                ..v
            },
        )
    } else if code == KeyCode::Enter || code == KeyCode::Char(' ') {
        if v.menu_index == 0 {
            stay(
                WizardView {
                    global_focus: GlobalField::DiscordWebhook,
                    screen: Screen::GlobalSettings,
                    ..v
                },
            )
        } else if v.menu_index == 1 {
            let last = if v.services.len() > 0 {
                (v.services.len() - 1) as usize
            } else {
                0usize
            };
            stay(
                WizardView {
                    list_index: if v.list_index < last {
                        v.list_index
                    } else {
                        last
                    },
                    screen: Screen::ServiceList,
                    ..v
                },
            )
        } else if v.menu_index == 2 {
            let new_idx = v.services.len() as usize;
            stay(
                WizardView {
                    services: v.services.push(default_form()),
                    list_index: new_idx,
                    edit_focus: ServiceField::Name,
                    screen: Screen::ServiceEdit(new_idx),
                    ..v
                },
            )
        } else if v.menu_index == 3 {
            save_step(v)
        } else {
            stay(v)
        }
    } else if code == KeyCode::Char('s') || code == KeyCode::Char('S') {
        scan_step(v)
    } else if code == KeyCode::Esc || code == KeyCode::Char('q') || code == KeyCode::Char('Q') {
        stay(WizardView { should_quit: true, ..v })
    } else {
        stay(v)
    }
}

pub open spec fn global_settings_step(v: WizardView, key: KeyEvent) -> WizardView {
    let code = key.code;
    if code == KeyCode::Esc {
        WizardView { screen: Screen::MainMenu, ..interval_checked(v) }
    } else if code == KeyCode::Tab {
        WizardView {
            global_focus: if key.modifiers.shift {
                GlobalField::DiscordWebhook
            } else {
                GlobalField::Interval
            },
            ..v
        }
    } else if code == KeyCode::BackTab || code == KeyCode::Up {
        WizardView { global_focus: GlobalField::DiscordWebhook, ..v }
    } else if code == KeyCode::Down {
        WizardView { global_focus: GlobalField::Interval, ..v }
    } else if code == KeyCode::Enter {
        if v.global_focus == GlobalField::DiscordWebhook {
            WizardView { global_focus: GlobalField::Interval, ..v }
        } else {
            WizardView { screen: Screen::MainMenu, ..interval_checked(v) }
        }
    } else if code == KeyCode::Backspace {
        if v.global_focus == GlobalField::DiscordWebhook {
            WizardView {
                discord_webhook: if v.discord_webhook.len() > 0 {
                    v.discord_webhook.drop_last()
                } else {
                    v.discord_webhook
                },
                ..v
            }
        } else {
            WizardView {
                interval: if v.interval.len() > 0 {
                    v.interval.drop_last()
                } else {
                    v.interval
                },
                ..v
            }
        }
    } else if code is Char {
        let c = code->Char_0;
        if v.global_focus == GlobalField::DiscordWebhook {
            WizardView { discord_webhook: v.discord_webhook.push(c), ..v }
        } else if is_digit(c) {
            WizardView { interval: v.interval.push(c), ..v }
        } else {
            v
        }
    } else {
        v
    }
}

pub open spec fn service_list_step(v: WizardView, key: KeyEvent) -> (WizardView, RequestView) {
    let code = key.code;
    let n = v.services.len();
    if code == KeyCode::Esc {
        stay(WizardView { screen: Screen::MainMenu, ..v })
    } else if code == KeyCode::Up || code == KeyCode::Char('k') {
        stay(WizardView { list_index: dec_sat(v.list_index), ..v })
    } else if code == KeyCode::Down || code == KeyCode::Char('j') {
        stay(
            WizardView {
                list_index: if n > 0 && v.list_index < n - 1 {
                    (v.list_index + 1) as usize
                } else {
                    v.list_index
                },
                ..v
            },
        )
    } else if code == KeyCode::Enter {
        if n > 0 {
            stay(
                WizardView {
                    edit_focus: ServiceField::Name,
                    screen: Screen::ServiceEdit(v.list_index),
                    ..v
                },
            )
        } else {
            stay(v)
        }
    } else if code == KeyCode::Char('d') || code == KeyCode::Char('D') {
        if n > 1 {
            let services = v.services.remove(v.list_index as int);
            stay(
                WizardView {
                    services: services,
                    list_index: if v.list_index >= services.len() {
                        (services.len() - 1) as usize
                    } else {
                        v.list_index
                    },
                    status: Some(StatusView::Info(deleted_msg())),
                    ..v
                },
            )
        } else {
            stay(WizardView { status: Some(StatusView::Error(last_service_msg())), ..v })
        }
    } else if code == KeyCode::Char('s') || code == KeyCode::Char('S') {
        scan_step(v)
    } else {
        stay(v)
    }
}

/// A recovery delay with digit `c` typed after it; any other character,
/// or a digit that would take it past `u64::MAX`, leaves it as it is.
pub open spec fn delay_typed(d: u64, c: char) -> u64 {
    if is_digit(c) && d * 10 + digit_value(c) <= u64::MAX {
        (d * 10 + digit_value(c)) as u64
    } else {
        d
    }
}

/// The form with `c` typed into the focused field.
pub open spec fn typed(f: ServiceFormView, focus: ServiceField, c: char) -> ServiceFormView {
    match focus {
        ServiceField::RecoveryDelay => ServiceFormView {
            recovery_delay: delay_typed(f.recovery_delay, c),
            ..f
        },
        ServiceField::Name => ServiceFormView { name: f.name.push(c), ..f },
        ServiceField::Url => ServiceFormView { url: f.url.push(c), ..f },
        ServiceField::RestartCommand => ServiceFormView {
            restart_command: f.restart_command.push(c),
            ..f
        },
        ServiceField::Method => f,
    }
}

/// `s` without its last character, if it has one.
pub open spec fn backspaced(s: Seq<char>) -> Seq<char> {
    if s.len() > 0 {
        s.drop_last()
    } else {
        s
    }
}

/// The form with the last character (or digit) of the focused field erased.
pub open spec fn erased(f: ServiceFormView, focus: ServiceField) -> ServiceFormView {
    match focus {
        ServiceField::RecoveryDelay => ServiceFormView {
            recovery_delay: f.recovery_delay / 10,
            ..f
        },
        ServiceField::Name => ServiceFormView { name: backspaced(f.name), ..f },
        ServiceField::Url => ServiceFormView { url: backspaced(f.url), ..f },
        ServiceField::RestartCommand => ServiceFormView {
            restart_command: backspaced(f.restart_command),
            ..f
        },
        ServiceField::Method => f,
    }
}

/// The wizard with form `idx` (if there is one) replaced by `g(form)`.
pub open spec fn with_form(v: WizardView, idx: usize, g: spec_fn(ServiceFormView) -> ServiceFormView) -> WizardView {
    if idx < v.services.len() {
        WizardView { services: v.services.update(idx as int, g(v.services[idx as int])), ..v }
    } else {
        v
    }
}

pub open spec fn service_edit_step(v: WizardView, key: KeyEvent, idx: usize) -> WizardView {
    let code = key.code;
    if code == KeyCode::Esc {
        WizardView {
            errors: v.errors.restrict(
                Set::new(|k: Seq<char>| !starts_with(k, svc_prefix(idx as nat))),
            ),
            screen: Screen::ServiceList,
            ..v
        }
    } else if code == KeyCode::Tab {
        WizardView {
            edit_focus: if key.modifiers.shift {
                prev_field(v.edit_focus)
            } else {
                next_field(v.edit_focus)
            },
            ..v
        }
    } else if code == KeyCode::BackTab || code == KeyCode::Up {
        WizardView { edit_focus: prev_field(v.edit_focus), ..v }
    } else if code == KeyCode::Down {
        WizardView { edit_focus: next_field(v.edit_focus), ..v }
    } else if code == KeyCode::Enter {
        if v.edit_focus == ServiceField::RecoveryDelay {
            let w = service_checked(v, idx as nat);
            if exists|k: Seq<char>| w.errors.contains_key(k) && starts_with(k, svc_prefix(idx as nat)) {
                w
            } else {
                WizardView { screen: Screen::ServiceList, ..w }
            }
        } else {
            WizardView { edit_focus: next_field(v.edit_focus), ..v }
        }
    } else if code == KeyCode::Left || code == KeyCode::Right {
        if v.edit_focus == ServiceField::Method {
            with_form(v, idx, |f: ServiceFormView| ServiceFormView { method: toggled(f.method), ..f })
        } else {
            v
        }
    } else if code == KeyCode::Char(' ') {
        if v.edit_focus == ServiceField::Method {
            with_form(v, idx, |f: ServiceFormView| ServiceFormView { method: toggled(f.method), ..f })
        } else {
            with_form(v, idx, |f: ServiceFormView| typed(f, v.edit_focus, ' '))
        }
    } else if code == KeyCode::Backspace {
        with_form(v, idx, |f: ServiceFormView| erased(f, v.edit_focus))
    } else if code is Char {
        with_form(v, idx, |f: ServiceFormView| typed(f, v.edit_focus, code->Char_0))
    } else {
        v
    }
}

/// A unit name without its ".service" suffix.
pub open spec fn display_name(unit: Seq<char>) -> Seq<char> {
    if ends_with(unit, service_suffix()) {
        unit.subrange(0, unit.len() - service_suffix().len())
    } else {
        unit
    }
}

/// The restart command of a discovered unit.
pub open spec fn restart_command_for(unit: Seq<char>) -> Seq<char> {
    "sudo systemctl restart "@ + unit
}

/// Picking the highlighted scan result: a new service is appended, pre-filled
/// from it, and opened with the URL focused.
pub open spec fn pick_step(v: WizardView) -> WizardView {
    if v.scan_index < v.scan_results.len() {
        let unit = v.scan_results[v.scan_index as int].0;
        let name = display_name(unit);
        let form = ServiceFormView {
            name: name,
            url: seq![],
            method: CheckMethod::Http,
            restart_command: restart_command_for(unit),
            recovery_delay: DEFAULT_RECOVERY_DELAY,
        };
        let new_idx = v.services.len() as usize;
        WizardView {
            services: v.services.push(form),
            list_index: new_idx,
            edit_focus: ServiceField::Url,
            screen: Screen::ServiceEdit(new_idx),
            status: Some(StatusView::Info(imported_msg(name))),
            ..v
        }
    } else {
        v
    }
}

pub open spec fn scanner_step(v: WizardView, key: KeyEvent) -> WizardView {
    let code = key.code;
    let n = v.scan_results.len();
    if code == KeyCode::Esc || code == KeyCode::Char('q') || code == KeyCode::Char('Q') {
        WizardView { screen: v.scanner_return, ..v }
    } else if code == KeyCode::Up || code == KeyCode::Char('k') {
        WizardView { scan_index: dec_sat(v.scan_index), ..v }
    } else if code == KeyCode::Down || code == KeyCode::Char('j') {
        WizardView {
            scan_index: if n > 0 && v.scan_index < n - 1 {
                (v.scan_index + 1) as usize
            } else {
                v.scan_index
            },
            ..v
        }
    } else if code == KeyCode::Enter {
        pick_step(v)
    } else {
        v
    }
}

/// The wizard with a transient (info or error) status dismissed.
pub open spec fn dismissed(v: WizardView) -> WizardView {
    match v.status {
        Some(StatusView::Info(_)) => WizardView { status: None, ..v },
        Some(StatusView::Error(_)) => WizardView { status: None, ..v },
        _ => v,
    }
}

/// What a key press does: any transient status is dismissed, then the key
/// is handled by the screen shown.
pub open spec fn key_step(v: WizardView, key: KeyEvent) -> (WizardView, RequestView) {
    let d = dismissed(v);
    match d.screen {
        Screen::MainMenu => main_menu_step(d, key),
        Screen::GlobalSettings => stay(global_settings_step(d, key)),
        Screen::ServiceList => service_list_step(d, key),
        Screen::ServiceEdit(idx) => stay(service_edit_step(d, key, idx)),
        Screen::Scanner => stay(scanner_step(d, key)),
    }
}

/// Where a scan leads, from what listing the services gave.
pub open spec fn scan_finished(v: WizardView, outcome: ScanOutcome) -> WizardView {
    match outcome {
        ScanOutcome::NotAvailable => WizardView {
            status: Some(StatusView::Error(scanner_unavailable_msg())),
            ..v
        },
        ScanOutcome::Failed(stderr) => WizardView {
            status: Some(
                StatusView::Error(
                    if blank(stderr@) {
                        scanner_unavailable_msg()
                    } else {
                        systemctl_failed_msg(trim(stderr@))
                    },
                ),
            ),
            ..v
        },
        ScanOutcome::Listed(stdout) => {
            let found = listed_services(stdout@);
            if found.len() == 0 {
                WizardView {
                    scan_results: found,
                    status: Some(StatusView::Info(no_units_msg())),
                    ..v
                }
            } else {
                WizardView { scan_results: found, screen: Screen::Scanner, ..v }
            }
        },
    }
}

/// Where a save leads, from what writing the file gave.
pub open spec fn save_finished(v: WizardView, written: Result<(), Seq<char>>) -> WizardView {
    match written {
        Ok(_) => WizardView { status: Some(StatusView::Saved), should_quit: true, ..v },
        Err(e) => WizardView { status: Some(StatusView::Error(write_failed_msg(e))), ..v },
    }
}

// ── Constructors ────────────────────────────────────────────────────────────

/// The wizard as it starts: one empty service, a 30 s interval, the main
/// menu shown.
pub open spec fn initial_view() -> WizardView {
    WizardView {
        discord_webhook: seq![],
        interval: seq!['3', '0'],
        services: seq![default_form()],
        screen: Screen::MainMenu,
        menu_index: 0,
        list_index: 0,
        global_focus: GlobalField::DiscordWebhook,
        edit_focus: ServiceField::Name,
        scan_results: seq![],
        scan_index: 0,
        scanner_return: Screen::MainMenu,
        errors: Map::empty(),
        status: None,
        should_quit: false,
    }
}

/// The form that edits a configured service.
pub open spec fn form_of(s: ServiceConfigView) -> ServiceFormView {
    ServiceFormView {
        name: s.name,
        url: s.url,
        method: s.method,
        restart_command: s.restart_command,
        recovery_delay: s.recovery_delay,
    }
}

/// The wizard pre-populated from a loaded configuration (or as it starts,
/// when none could be loaded).
pub open spec fn loaded_view(loaded: Option<ConfigView>) -> WizardView {
    match loaded {
        None => initial_view(),
        Some(c) => WizardView {
            interval: decimal(c.interval_secs as nat),
            discord_webhook: match c.discord_webhook_url {
                Some(u) => u,
                None => seq![],
            },
            services: if c.services.len() > 0 {
                c.services.map_values(|s: ServiceConfigView| form_of(s))
            } else {
                initial_view().services
            },
            ..initial_view()
        },
    }
}

/// The view of an optional configuration.
pub open spec fn opt_config_view(c: Option<Config>) -> Option<ConfigView> {
    match c {
        Some(x) => Some(x@),
        None => None,
    }
}

/// The view of the outcome of writing a file.
pub open spec fn written_view(r: Result<(), String>) -> Result<(), Seq<char>> {
    match r {
        Ok(_) => Ok(()),
        Err(e) => Err(e@),
    }
}

fn text_of(a: &str) -> (s: String)
    ensures
        s@ == a@,
{
    let mut s = String::new();
    push_str(&mut s, a);
    s
}

fn svc_key_string(idx: usize, field: &str) -> (s: String)
    ensures
        s@ == svc_key(idx as nat, field@),
{
    let mut s = text_of("svc_");
    push_decimal(&mut s, idx as u64);
    push_str(&mut s, "_");
    push_str(&mut s, field);
    s
}

fn svc_prefix_chars(idx: usize) -> (v: Vec<char>)
    ensures
        v@ == svc_prefix(idx as nat),
{
    let mut s = text_of("svc_");
    push_decimal(&mut s, idx as u64);
    push_str(&mut s, "_");
    chars_of(s.as_str())
}

/// Flags (`bad`) or clears `key` in the error map.
fn set_flag(errors: &mut FieldErrors, key: String, bad: bool, msg: &str)
    requires
        old(errors).wf(),
    ensures
        final(errors).wf(),
        final(errors)@ == flag(old(errors)@, key@, bad, msg@),
{
    if bad {
        errors.insert(key, text_of(msg));
    } else {
        errors.remove(key.as_str());
    }
}

impl ConfigWizard {
    /// The wizard's internal invariant: the error map is well formed, and
    /// the list cursor points at a service whenever there are several.
    pub open spec fn wf(&self) -> bool {
        &&& self.errors.wf()
        &&& cursor_ok(self@)
    }

    /// A fresh wizard.
    pub fn new() -> (w: ConfigWizard)
        ensures
            w.wf(),
            w@ == initial_view(),
    {
        let mut services: Vec<ServiceForm> = Vec::new();
        services.push(ServiceForm::default());
        let w = ConfigWizard {
            discord_webhook: String::new(),
            interval: decimal_text(30),
            services,
            screen: Screen::MainMenu,
            menu_index: 0,
            list_index: 0,
            global_focus: GlobalField::DiscordWebhook,
            edit_focus: ServiceField::Name,
            scan_results: Vec::new(),
            scan_index: 0,
            scanner_return: Screen::MainMenu,
            errors: TextMap::new(),
            status: None,
            should_quit: false,
        };
        proof {
            reveal_with_fuel(decimal, 2);
            assert(forms_view(w.services@) =~= seq![default_form()]);
            assert(scan_results_view(w.scan_results@) =~= seq![]);
            assert(w@.interval =~= seq!['3', '0']);
        }
        w
    }

    /// Pre-populates the wizard from the configuration read from a file, for
    /// editing in place; `None` when the file could not be read or parsed.
    pub fn load_from_file(loaded: Option<Config>) -> (w: ConfigWizard)
        ensures
            w.wf(),
            w@ == loaded_view(opt_config_view(loaded)),
    {
        let mut w = ConfigWizard::new();
        match loaded {
            None => {},
            Some(cfg) => {
                w.interval = decimal_text(cfg.interval_secs);
                w.discord_webhook = match cfg.discord_webhook_url {
                    Some(u) => u,
                    None => String::new(),
                };
                if cfg.services.len() > 0 {
                    let mut forms: Vec<ServiceForm> = Vec::new();
                    let mut i: usize = 0;
                    while i < cfg.services.len()
                        invariant
                            i <= cfg.services@.len(),
                            forms_view(forms@) == cfg@.services.take(i as int).map_values(
                                |s: ServiceConfigView| form_of(s),
                            ),
                        decreases cfg.services@.len() - i,
                    {
                        let s = &cfg.services[i];
                        let f = ServiceForm {
                            name: s.name.clone(),
                            url: s.url.clone(),
                            method: s.method,
                            restart_command: s.restart_command.clone(),
                            recovery_delay: s.recovery_delay,
                        };
                        let ghost before = forms@;
                        forms.push(f);
                        assert(forms_view(forms@) =~= forms_view(before).push(f@));
                        assert(cfg@.services.take(i + 1) =~= cfg@.services.take(i as int).push(
                            cfg@.services[i as int],
                        ));
                        assert(cfg@.services[i as int] == cfg.services@[i as int]@);
                        assert(cfg@.services.take(i + 1).map_values(
                            |s: ServiceConfigView| form_of(s),
                        ) =~= cfg@.services.take(i as int).map_values(
                            |s: ServiceConfigView| form_of(s),
                        ).push(form_of(cfg@.services[i as int])));
                        i = i + 1;
                    }
                    assert(cfg@.services.take(cfg.services@.len() as int) =~= cfg@.services);
                    w.services = forms;
                    w.list_index = 0;
                }
            },
        }
        proof {
            assert(w@ =~= loaded_view(opt_config_view(loaded)));
        }
        w
    }

    /// The message for a field, if it needs attention.
    pub fn field_error(&self, key: &str) -> (r: Option<&str>)
        requires
            self.errors.wf(),
        ensures
            match r {
                Some(m) => self@.errors.contains_key(key@) && m@ == self@.errors[key@],
                None => !self@.errors.contains_key(key@),
            },
    {
        match self.errors.get(key) {
            Some(m) => Some(m.as_str()),
            None => None,
        }
    }

    /// Whether some field needs attention.
    pub fn has_errors(&self) -> (b: bool)
        requires
            self.errors.wf(),
        ensures
            b == (self@.errors.len() > 0),
    {
        !self.errors.is_empty()
    }

    /// Whether the configuration was saved.
    pub fn is_saved(&self) -> (b: bool)
        ensures
            b == (self@.status matches Some(StatusView::Saved)),
    {
        match self.status {
            Some(WizardStatus::Saved) => true,
            _ => false,
        }
    }

    // ── Validation ──────────────────────────────────────────────────────────

    /// Checks the interval: it must be a positive whole number of seconds.
    pub fn validate_interval(&mut self)
        requires
            old(self).errors.wf(),
        ensures
            final(self).errors.wf(),
            old(self).wf() ==> final(self).wf(),
            final(self)@ == interval_checked(old(self)@),
    {
        let t = trim_chars(chars_of(self.interval.as_str()).as_slice());
        let ok = match parse_u64_chars(t.as_slice()) {
            Some(n) => n > 0,
            None => false,
        };
        set_flag(&mut self.errors, text_of("interval"), !ok, "Must be a positive integer (e.g. 30)");
        proof {
            assert(self@ =~= interval_checked(old(self)@));
        }
    }

    /// Checks that service `idx` (if there is one) has a name, an address
    /// and a restart command.
    pub fn validate_service(&mut self, idx: usize)
        requires
            old(self).errors.wf(),
        ensures
            final(self).errors.wf(),
            old(self).wf() ==> final(self).wf(),
            final(self)@ == service_checked(old(self)@, idx as nat),
    {
        if idx >= self.services.len() {
            return;
        }
        let name_blank = is_blank(self.services[idx].name.as_str());
        let url_blank = is_blank(self.services[idx].url.as_str());
        let cmd_blank = is_blank(self.services[idx].restart_command.as_str());
        set_flag(&mut self.errors, svc_key_string(idx, "name"), name_blank, "Required");
        set_flag(&mut self.errors, svc_key_string(idx, "url"), url_blank, "Required");
        set_flag(&mut self.errors, svc_key_string(idx, "cmd"), cmd_blank, "Required");
        proof {
            assert(self@ =~= service_checked(old(self)@, idx as nat));
        }
    }

    /// Checks every field afresh; true when none needs attention.
    pub fn validate(&mut self) -> (ok: bool)
        requires
            old(self).errors.wf(),
        ensures
            final(self).errors.wf(),
            old(self).wf() ==> final(self).wf(),
            final(self)@ == validated(old(self)@),
            ok == (final(self)@.errors.len() == 0),
    {
        self.errors.clear();
        self.validate_interval();
        let ghost start = self@;
        assert(start =~= interval_checked(WizardView { errors: Map::empty(), ..old(self)@ }));
        let n = self.services.len();
        let mut i: usize = 0;
        while i < n
            invariant
                self.errors.wf(),
                self@.list_index == old(self)@.list_index,
                i <= n,
                n == self.services@.len(),
                start.services == old(self)@.services,
                self@ == services_checked(start, i as nat),
                self@.services == start.services,
            decreases n - i,
        {
            self.validate_service(i);
            i = i + 1;
        }
        self.errors.is_empty()
    }

    /// The configuration the wizard's contents stand for: texts trimmed, an
    /// empty webhook left out.
    pub fn to_config(&self) -> (r: Result<Config, ConfigError>)
        ensures
            match r {
                Ok(c) => wizard_config(self@) == Some(c@),
                Err(e) => e == ConfigError::InvalidInterval && wizard_config(self@) is None,
            },
    {
        let t = trim_chars(chars_of(self.interval.as_str()).as_slice());
        let interval_secs = match parse_u64_chars(t.as_slice()) {
            Some(n) => n,
            None => {
                return Err(ConfigError::InvalidInterval);
            },
        };
        let hook = trim_chars(chars_of(self.discord_webhook.as_str()).as_slice());
        let discord_webhook_url = if hook.len() == 0 {
            None
        } else {
            Some(string_of(hook.as_slice()))
        };
        let mut services: Vec<ServiceConfig> = Vec::new();
        let mut i: usize = 0;
        while i < self.services.len()
            invariant
                i <= self.services@.len(),
                services@.map_values(|s: ServiceConfig| s@) == self@.services.take(
                    i as int,
                ).map_values(|f: ServiceFormView| form_config(f)),
            decreases self.services@.len() - i,
        {
            let f = &self.services[i];
            let name = string_of(trim_chars(chars_of(f.name.as_str()).as_slice()).as_slice());
            let url = string_of(trim_chars(chars_of(f.url.as_str()).as_slice()).as_slice());
            let restart_command = string_of(
                trim_chars(chars_of(f.restart_command.as_str()).as_slice()).as_slice(),
            );
            let sc = ServiceConfig {
                name,
                url,
                method: f.method,
                restart_command,
                recovery_delay: f.recovery_delay,
            };
            let ghost before = services@;
            services.push(sc);
            assert(self@.services[i as int] == self.services@[i as int]@);
            assert(services@.map_values(|s: ServiceConfig| s@) =~= before.map_values(
                |s: ServiceConfig| s@,
            ).push(sc@));
            assert(self@.services.take(i + 1).map_values(|f: ServiceFormView| form_config(f))
                =~= self@.services.take(i as int).map_values(
                |f: ServiceFormView| form_config(f),
            ).push(form_config(self@.services[i as int])));
            i = i + 1;
        }
        assert(self@.services.take(self.services@.len() as int) =~= self@.services);
        let c = Config { interval_secs, discord_webhook_url, services };
        assert(c@ =~= wizard_config(self@).unwrap());
        Ok(c)
    }
}

impl ConfigWizard {
    // ── Requests and their outcomes ─────────────────────────────────────────

    fn begin_scan(&mut self) -> (r: WizardRequest)
        requires
            old(self).wf(),
        ensures
            final(self).wf(),
            final(self)@ == scan_step(old(self)@).0,
            r@ == scan_step(old(self)@).1,
    {
        self.scanner_return = self.screen;
        self.scan_results.clear();
        self.scan_index = 0;
        proof {
            assert(self@ =~= scan_step(old(self)@).0);
        }
        WizardRequest::Scan
    }

    fn save_action(&mut self) -> (r: WizardRequest)
        requires
            old(self).wf(),
        ensures
            final(self).wf(),
            final(self)@ == save_step(old(self)@).0,
            r@ == save_step(old(self)@).1,
    {
        if !self.validate() {
            let n = self.errors.len();
            let mut m = decimal_text(n as u64);
            push_str(&mut m, " field(s) need attention — check each sub-screen");
            self.status = Some(WizardStatus::Error(m));
            proof {
                assert(self@ =~= save_step(old(self)@).0);
            }
            return WizardRequest::Nothing;
        }
        match self.to_config() {
            Ok(c) => WizardRequest::Save(c),
            Err(_) => {
                let mut m = text_of("Write failed: ");
                push_str(&mut m, "interval must be a positive integer");
                self.status = Some(WizardStatus::Error(m));
                proof {
                    assert(self@ =~= save_step(old(self)@).0);
                }
                WizardRequest::Nothing
            },
        }
    }

    /// Takes in what listing the local services gave: on success the
    /// Scanner screen opens with the services found; otherwise a message
    /// says why not.
    pub fn finish_scan(&mut self, outcome: ScanOutcome)
        requires
            old(self).errors.wf(),
        ensures
            final(self).errors.wf(),
            old(self).wf() ==> final(self).wf(),
            final(self)@ == scan_finished(old(self)@, outcome),
    {
        match outcome {
            ScanOutcome::NotAvailable => {
                self.status = Some(
                    WizardStatus::Error(text_of("Scanner only available on Linux/Systemd.")),
                );
            },
            ScanOutcome::Failed(stderr) => {
                let t = trim_chars(chars_of(stderr.as_str()).as_slice());
                let msg = if t.len() == 0 {
                    text_of("Scanner only available on Linux/Systemd.")
                } else {
                    let mut m = text_of("systemctl failed: ");
                    crate::text::push_chars(&mut m, t.as_slice());
                    m
                };
                self.status = Some(WizardStatus::Error(msg));
            },
            ScanOutcome::Listed(stdout) => {
                self.scan_results = parse_systemctl_output(stdout.as_str());
                if self.scan_results.len() == 0 {
                    self.status = Some(
                        WizardStatus::Info(text_of("No running .service units discovered.")),
                    );
                } else {
                    self.screen = Screen::Scanner;
                }
            },
        }
        proof {
            assert(self@ =~= scan_finished(old(self)@, outcome));
        }
    }

    /// Takes in what writing the configuration gave: on success the wizard
    /// is saved and quits; otherwise the reason is shown.
    pub fn finish_save(&mut self, written: Result<(), String>)
        requires
            old(self).errors.wf(),
        ensures
            final(self).errors.wf(),
            old(self).wf() ==> final(self).wf(),
            final(self)@ == save_finished(old(self)@, written_view(written)),
    {
        match written {
            Ok(()) => {
                self.status = Some(WizardStatus::Saved);
                self.should_quit = true;
            },
            Err(e) => {
                let mut m = text_of("Write failed: ");
                push_str(&mut m, e.as_str());
                self.status = Some(WizardStatus::Error(m));
            },
        }
        proof {
            assert(self@ =~= save_finished(old(self)@, written_view(written)));
        }
    }

    // ── Screen: Main Menu ───────────────────────────────────────────────────

    fn on_main_menu(&mut self, key: KeyEvent) -> (r: WizardRequest)
        requires
            old(self).wf(),
        ensures
            final(self).wf(),
            final(self)@ == main_menu_step(old(self)@, key).0,
            r@ == main_menu_step(old(self)@, key).1,
    {
        match key.code {
            KeyCode::Up | KeyCode::Char('k') => {
                if self.menu_index > 0 {
                    self.menu_index = self.menu_index - 1;
                }
            },
            KeyCode::Down | KeyCode::Char('j') => {
                if self.menu_index < MENU_LEN - 1 {
                    self.menu_index = self.menu_index + 1;
                }
            },
            KeyCode::Enter | KeyCode::Char(' ') => {
                if self.menu_index == 0 {
                    self.global_focus = GlobalField::DiscordWebhook;
                    self.screen = Screen::GlobalSettings;
                } else if self.menu_index == 1 {
                    let last = if self.services.len() > 0 {
                        self.services.len() - 1
                    } else {
                        0
                    };
                    if self.list_index > last {
                        self.list_index = last;
                    }
                    self.screen = Screen::ServiceList;
                } else if self.menu_index == 2 {
                    let ghost before = self.services@;
                    let f = ServiceForm::default();
                    self.services.push(f);
                    assert(forms_view(self.services@) =~= forms_view(before).push(default_form()));
                    let new_idx = self.services.len() - 1;
                    self.list_index = new_idx;
                    self.edit_focus = ServiceField::Name;
                    self.screen = Screen::ServiceEdit(new_idx);
                } else if self.menu_index == 3 {
                    return self.save_action();
                }
            },
            KeyCode::Char('s') | KeyCode::Char('S') => {
                return self.begin_scan();
            },
            KeyCode::Esc | KeyCode::Char('q') | KeyCode::Char('Q') => {
                self.should_quit = true;
            },
            _ => {},
        }
        proof {
            assert(self@ =~= main_menu_step(old(self)@, key).0);
        }
        WizardRequest::Nothing
    }

    // ── Screen: Global Settings ─────────────────────────────────────────────

    fn on_global_settings(&mut self, key: KeyEvent)
        requires
            old(self).wf(),
        ensures
            final(self).wf(),
            final(self)@ == global_settings_step(old(self)@, key),
    {
        match key.code {
            KeyCode::Esc => {
                self.validate_interval();
                self.screen = Screen::MainMenu;
            },
            KeyCode::Tab => {
                if key.modifiers.shift {
                    self.global_focus = GlobalField::DiscordWebhook;
                } else {
                    self.global_focus = GlobalField::Interval;
                }
            },
            KeyCode::BackTab | KeyCode::Up => {
                self.global_focus = GlobalField::DiscordWebhook;
            },
            KeyCode::Down => {
                self.global_focus = GlobalField::Interval;
            },
            KeyCode::Enter => match self.global_focus {
                GlobalField::DiscordWebhook => {
                    self.global_focus = GlobalField::Interval;
                },
                GlobalField::Interval => {
                    self.validate_interval();
                    self.screen = Screen::MainMenu;
                },
            },
            KeyCode::Backspace => match self.global_focus {
                GlobalField::DiscordWebhook => {
                    let _ = pop_char(&mut self.discord_webhook);
                },
                GlobalField::Interval => {
                    let _ = pop_char(&mut self.interval);
                },
            },
            KeyCode::Char(c) => match self.global_focus {
                GlobalField::DiscordWebhook => {
                    push_char(&mut self.discord_webhook, c);
                },
                GlobalField::Interval => {
                    if is_digit_char(c) {
                        push_char(&mut self.interval, c);
                    }
                },
            },
            _ => {},
        }
        proof {
            assert(self@ =~= global_settings_step(old(self)@, key));
        }
    }

    // ── Screen: Service List ────────────────────────────────────────────────

    fn on_service_list(&mut self, key: KeyEvent) -> (r: WizardRequest)
        requires
            old(self).wf(),
        ensures
            final(self).wf(),
            final(self)@ == service_list_step(old(self)@, key).0,
            r@ == service_list_step(old(self)@, key).1,
    {
        let n = self.services.len();
        match key.code {
            KeyCode::Esc => {
                self.screen = Screen::MainMenu;
            },
            KeyCode::Up | KeyCode::Char('k') => {
                if self.list_index > 0 {
                    self.list_index = self.list_index - 1;
                }
            },
            KeyCode::Down | KeyCode::Char('j') => {
                if n > 0 && self.list_index < n - 1 {
                    self.list_index = self.list_index + 1;
                }
            },
            KeyCode::Enter => {
                if n > 0 {
                    self.edit_focus = ServiceField::Name;
                    self.screen = Screen::ServiceEdit(self.list_index);
                }
            },
            KeyCode::Char('d') | KeyCode::Char('D') => {
                if n > 1 {
                    let ghost before = self.services@;
                    let _ = self.services.remove(self.list_index);
                    assert(forms_view(self.services@) =~= forms_view(before).remove(
                        old(self).list_index as int,
                    ));
                    if self.list_index >= self.services.len() {
                        self.list_index = self.services.len() - 1;
                    }
                    self.status = Some(WizardStatus::Info(text_of("Service deleted.")));
                } else {
                    self.status = Some(
                        WizardStatus::Error(text_of("Cannot delete the last service.")),
                    );
                }
            },
            KeyCode::Char('s') | KeyCode::Char('S') => {
                return self.begin_scan();
            },
            _ => {},
        }
        proof {
            assert(self@ =~= service_list_step(old(self)@, key).0);
        }
        WizardRequest::Nothing
    }

    // ── Screen: Service Edit ────────────────────────────────────────────────

    /// Exchanges form `idx` with `f`.
    fn swap_form(&mut self, idx: usize, f: &mut ServiceForm)
        requires
            old(self).wf(),
            idx < old(self).services@.len(),
        ensures
            final(self).wf(),
            final(self)@ == (WizardView {
                services: old(self)@.services.update(idx as int, old(f)@),
                ..old(self)@
            }),
            final(f)@ == old(self)@.services[idx as int],
            final(self).services@.len() == old(self).services@.len(),
    {
        let ghost before = self.services@;
        self.services.set_and_swap(idx, f);
        assert(forms_view(self.services@) =~= forms_view(before).update(idx as int, old(f)@));
        proof {
            assert(self@ =~= (WizardView {
                services: old(self)@.services.update(idx as int, old(f)@),
                ..old(self)@
            }));
        }
    }

    fn toggle_form_method(&mut self, idx: usize)
        requires
            old(self).wf(),
        ensures
            final(self).wf(),
            final(self)@ == with_form(
                old(self)@,
                idx,
                |f: ServiceFormView| ServiceFormView { method: toggled(f.method), ..f },
            ),
    {
        if idx < self.services.len() {
            let mut f = ServiceForm::default();
            self.swap_form(idx, &mut f);
            f.toggle_method();
            self.swap_form(idx, &mut f);
            proof {
                assert(self@ =~= with_form(
                    old(self)@,
                    idx,
                    |f: ServiceFormView| ServiceFormView { method: toggled(f.method), ..f },
                ));
            }
        }
    }

    fn push_svc_char(&mut self, idx: usize, c: char)
        requires
            old(self).wf(),
        ensures
            final(self).wf(),
            final(self)@ == with_form(
                old(self)@,
                idx,
                |f: ServiceFormView| typed(f, old(self)@.edit_focus, c),
            ),
    {
        if idx < self.services.len() {
            let mut f = ServiceForm::default();
            self.swap_form(idx, &mut f);
            match self.edit_focus {
                ServiceField::Name => push_char(&mut f.name, c),
                ServiceField::Url => push_char(&mut f.url, c),
                ServiceField::RestartCommand => push_char(&mut f.restart_command, c),
                ServiceField::RecoveryDelay => {
                    f.recovery_delay = delay_with_digit(f.recovery_delay, c);
                },
                ServiceField::Method => {},
            }
            self.swap_form(idx, &mut f);
            proof {
                assert(self@ =~= with_form(
                    old(self)@,
                    idx,
                    |f: ServiceFormView| typed(f, old(self)@.edit_focus, c),
                ));
            }
        }
    }

    fn pop_svc_char(&mut self, idx: usize)
        requires
            old(self).wf(),
        ensures
            final(self).wf(),
            final(self)@ == with_form(
                old(self)@,
                idx,
                |f: ServiceFormView| erased(f, old(self)@.edit_focus),
            ),
    {
        if idx < self.services.len() {
            let mut f = ServiceForm::default();
            self.swap_form(idx, &mut f);
            match self.edit_focus {
                ServiceField::Name => {
                    let _ = pop_char(&mut f.name);
                },
                ServiceField::Url => {
                    let _ = pop_char(&mut f.url);
                },
                ServiceField::RestartCommand => {
                    let _ = pop_char(&mut f.restart_command);
                },
                ServiceField::RecoveryDelay => {
                    f.recovery_delay = f.recovery_delay / 10;
                },
                ServiceField::Method => {},
            }
            self.swap_form(idx, &mut f);
            proof {
                assert(self@ =~= with_form(
                    old(self)@,
                    idx,
                    |f: ServiceFormView| erased(f, old(self)@.edit_focus),
                ));
            }
        }
    }

    fn on_service_edit(&mut self, key: KeyEvent, idx: usize)
        requires
            old(self).wf(),
        ensures
            final(self).wf(),
            final(self)@ == service_edit_step(old(self)@, key, idx),
    {
        match key.code {
            KeyCode::Esc => {
                let p = svc_prefix_chars(idx);
                self.errors.remove_keys_starting_with(p.as_slice());
                self.screen = Screen::ServiceList;
                proof {
                    assert(Set::new(|k: Seq<char>| !starts_with(k, p@)) =~= Set::new(
                        |k: Seq<char>| !starts_with(k, svc_prefix(idx as nat)),
                    ));
                }
            },
            KeyCode::Tab => {
                if key.modifiers.shift {
                    self.edit_focus = prev_svc_field(self.edit_focus);
                } else {
                    self.edit_focus = next_svc_field(self.edit_focus);
                }
            },
            KeyCode::BackTab | KeyCode::Up => {
                self.edit_focus = prev_svc_field(self.edit_focus);
            },
            KeyCode::Down => {
                self.edit_focus = next_svc_field(self.edit_focus);
            },
            KeyCode::Enter => match self.edit_focus {
                ServiceField::RecoveryDelay => {
                    self.validate_service(idx);
                    let p = svc_prefix_chars(idx);
                    if !self.errors.any_key_starts_with(p.as_slice()) {
                        self.screen = Screen::ServiceList;
                    }
                },
                _ => {
                    self.edit_focus = next_svc_field(self.edit_focus);
                },
            },
            KeyCode::Left | KeyCode::Right => {
                if self.edit_focus == ServiceField::Method {
                    self.toggle_form_method(idx);
                }
            },
            KeyCode::Char(' ') => {
                if self.edit_focus == ServiceField::Method {
                    self.toggle_form_method(idx);
                } else {
                    self.push_svc_char(idx, ' ');
                }
            },
            KeyCode::Backspace => self.pop_svc_char(idx),
            KeyCode::Char(c) => self.push_svc_char(idx, c),
            _ => {},
        }
        proof {
            assert(self@ =~= service_edit_step(old(self)@, key, idx));
        }
    }

    // ── Screen: Scanner ─────────────────────────────────────────────────────

    fn on_scanner(&mut self, key: KeyEvent)
        requires
            old(self).wf(),
        ensures
            final(self).wf(),
            final(self)@ == scanner_step(old(self)@, key),
    {
        let n = self.scan_results.len();
        match key.code {
            KeyCode::Esc | KeyCode::Char('q') | KeyCode::Char('Q') => {
                self.screen = self.scanner_return;
            },
            KeyCode::Up | KeyCode::Char('k') => {
                if self.scan_index > 0 {
                    self.scan_index = self.scan_index - 1;
                }
            },
            KeyCode::Down | KeyCode::Char('j') => {
                if n > 0 && self.scan_index < n - 1 {
                    self.scan_index = self.scan_index + 1;
                }
            },
            KeyCode::Enter => self.pick_scanned_service(),
            _ => {},
        }
        proof {
            assert(self@ =~= scanner_step(old(self)@, key));
        }
    }

    /// Appends a new service pre-filled from the highlighted scan result and
    /// jumps straight into its edit form (URL focused: the only field the
    /// scanner can't infer).
    fn pick_scanned_service(&mut self)
        requires
            old(self).wf(),
        ensures
            final(self).wf(),
            final(self)@ == pick_step(old(self)@),
    {
        if self.scan_index >= self.scan_results.len() {
            return;
        }
        let unit = chars_of(self.scan_results[self.scan_index].name.as_str());
        assert(unit@ == old(self)@.scan_results[old(self).scan_index as int].0);
        let suffix: Vec<char> = vec!['.', 's', 'e', 'r', 'v', 'i', 'c', 'e'];
        let mut shown = unit.clone();
        assert(shown@ == unit@);
        if chars_end_with(unit.as_slice(), suffix.as_slice()) {
            shown.truncate(unit.len() - suffix.len());
        }
        assert(shown@ =~= display_name(unit@));
        let name = string_of(shown.as_slice());
        let mut cmd = text_of("sudo systemctl restart ");
        crate::text::push_chars(&mut cmd, unit.as_slice());
        let mut info = text_of("Imported '");
        crate::text::push_chars(&mut info, shown.as_slice());
        push_str(&mut info, "' — fill in URL/Address.");
        let form = ServiceForm {
            name,
            url: String::new(),
            method: CheckMethod::Http,
            restart_command: cmd,
            recovery_delay: DEFAULT_RECOVERY_DELAY,
        };
        let ghost before = self.services@;
        self.services.push(form);
        assert(forms_view(self.services@) =~= forms_view(before).push(form@));
        let new_idx = self.services.len() - 1;
        self.list_index = new_idx;
        self.edit_focus = ServiceField::Url;
        self.screen = Screen::ServiceEdit(new_idx);
        self.status = Some(WizardStatus::Info(info));
        proof {
            assert(self@ =~= pick_step(old(self)@));
        }
    }

    // ── Keyboard dispatcher ─────────────────────────────────────────────────

    /// Routes a key press to the screen shown, after dismissing a transient
    /// info or error message; returns what the caller has to do next.
    pub fn handle_input(&mut self, key: KeyEvent) -> (r: WizardRequest)
        requires
            old(self).wf(),
        ensures
            final(self).wf(),
            final(self)@ == key_step(old(self)@, key).0,
            r@ == key_step(old(self)@, key).1,
    {
        match self.status {
            Some(WizardStatus::Error(_)) | Some(WizardStatus::Info(_)) => {
                self.status = None;
            },
            _ => {},
        }
        assert(self@ =~= dismissed(old(self)@));
        match self.screen {
            Screen::MainMenu => self.on_main_menu(key),
            Screen::GlobalSettings => {
                self.on_global_settings(key);
                WizardRequest::Nothing
            },
            Screen::ServiceList => self.on_service_list(key),
            Screen::ServiceEdit(idx) => {
                self.on_service_edit(key, idx);
                WizardRequest::Nothing
            },
            Screen::Scanner => {
                self.on_scanner(key);
                WizardRequest::Nothing
            },
        }
    }
}

// ── Focus-order helpers ─────────────────────────────────────────────────────

/// The next field of the service edit form.
pub fn next_svc_field(f: ServiceField) -> (g: ServiceField)
    ensures
        g == next_field(f),
{
    match f {
        ServiceField::Name => ServiceField::Url,
        ServiceField::Url => ServiceField::Method,
        ServiceField::Method => ServiceField::RestartCommand,
        ServiceField::RestartCommand => ServiceField::RecoveryDelay,
        ServiceField::RecoveryDelay => ServiceField::RecoveryDelay,
    }
}

/// The previous field of the service edit form.
pub fn prev_svc_field(f: ServiceField) -> (g: ServiceField)
    ensures
        g == prev_field(f),
{
    match f {
        ServiceField::Name => ServiceField::Name,
        ServiceField::Url => ServiceField::Name,
        ServiceField::Method => ServiceField::Url,
        ServiceField::RestartCommand => ServiceField::Method,
        ServiceField::RecoveryDelay => ServiceField::RestartCommand,
    }
}

/// A recovery delay with digit `c` typed after it.
pub fn delay_with_digit(d: u64, c: char) -> (r: u64)
    ensures
        r == delay_typed(d, c),
{
    if !('0' <= c && c <= '9') {
        return d;
    }
    let v: u64 = (c as u32 - '0' as u32) as u64;
    match d.checked_mul(10) {
        Some(x) => match x.checked_add(v) {
            Some(y) => y,
            None => d,
        },
        None => {
            assert(d * 10 + digit_value(c) > u64::MAX);
            d
        },
    }
}

/// How the status strip is coloured.
#[derive(Debug, Clone, Copy, PartialEq, Eq, Structural)]
pub enum Tone {
    /// Green: the configuration was saved.
    Success,
    /// Red: something failed.
    Failure,
    /// Yellow: information, or fields that need attention.
    Notice,
    /// Dark gray: the standing hint.
    Muted,
}

/// What the status strip shows: an icon, a message and a tone.
#[derive(Debug)]
pub struct StatusLine {
    pub icon: String,
    pub text: String,
    pub tone: Tone,
}

/// The status strip of a wizard.
pub open spec fn status_line_of(v: WizardView) -> (Seq<char>, Seq<char>, Tone) {
    match v.status {
        Some(StatusView::Saved) => ("✓"@, " Configuration saved to config.toml"@, Tone::Success),
        Some(StatusView::Error(e)) => ("✗"@, " "@ + e, Tone::Failure),
        Some(StatusView::Info(i)) => ("·"@, " "@ + i, Tone::Notice),
        None => if v.errors.len() > 0 {
            ("!"@, " Some fields need attention (highlighted in red)"@, Tone::Notice)
        } else {
            ("·"@, " Fill all required fields, then choose Save & Exit"@, Tone::Muted)
        },
    }
}

impl ConfigWizard {
    /// The status strip: the current message, or a hint.
    pub fn status_line(&self) -> (l: StatusLine)
        requires
            self.wf(),
        ensures
            (l.icon@, l.text@, l.tone) == status_line_of(self@),
    {
        match &self.status {
            Some(WizardStatus::Saved) => StatusLine {
                icon: text_of("✓"),
                text: text_of(" Configuration saved to config.toml"),
                tone: Tone::Success,
            },
            Some(WizardStatus::Error(e)) => {
                let mut t = text_of(" ");
                push_str(&mut t, e.as_str());
                StatusLine { icon: text_of("✗"), text: t, tone: Tone::Failure }
            },
            Some(WizardStatus::Info(i)) => {
                let mut t = text_of(" ");
                push_str(&mut t, i.as_str());
                StatusLine { icon: text_of("·"), text: t, tone: Tone::Notice }
            },
            None => if self.has_errors() {
                StatusLine {
                    icon: text_of("!"),
                    text: text_of(" Some fields need attention (highlighted in red)"),
                    tone: Tone::Notice,
                }
            } else {
                StatusLine {
                    icon: text_of("·"),
                    text: text_of(" Fill all required fields, then choose Save & Exit"),
                    tone: Tone::Muted,
                }
            },
        }
    }
}

/// The decimal rendering of `n` as a string.
fn decimal_text(n: u64) -> (s: String)
    ensures
        s@ == decimal(n as nat),
{
    crate::text::decimal_string(n)
}


// ── Texts of the wizard's screens ──────────────────────────────────────────

/// The error key of a text field of service `idx`; the method and the
/// recovery delay are never flagged.
pub open spec fn field_key(idx: nat, field: ServiceField) -> Option<Seq<char>> {
    match field {
        ServiceField::Name => Some(svc_key(idx, name_field())),
        ServiceField::Url => Some(svc_key(idx, url_field())),
        ServiceField::RestartCommand => Some(svc_key(idx, cmd_field())),
        _ => None,
    }
}

impl ConfigWizard {
    /// The message for a field of service `idx`, if it needs attention.
    pub fn service_field_error(&self, idx: usize, field: ServiceField) -> (r: Option<&str>)
        requires
            self.errors.wf(),
        ensures
            match field_key(idx as nat, field) {
                Some(k) => match r {
                    Some(m) => self@.errors.contains_key(k) && m@ == self@.errors[k],
                    None => !self@.errors.contains_key(k),
                },
                None => r is None,
            },
    {
        let key = match field {
            ServiceField::Name => svc_key_string(idx, "name"),
            ServiceField::Url => svc_key_string(idx, "url"),
            ServiceField::RestartCommand => svc_key_string(idx, "cmd"),
            _ => {
                return None;
            },
        };
        match self.errors.get(key.as_str()) {
            Some(m) => Some(m.as_str()),
            None => None,
        }
    }
}

/// The label of service `idx` on the service list.
pub open spec fn service_list_label(idx: nat, name: Seq<char>) -> Seq<char> {
    "  #"@ + decimal(idx + 1) + " — "@ + if blank(name) {
        "(unnamed)"@
    } else {
        name
    }
}

/// The label of service `idx` on the service list.
pub fn service_label(idx: usize, name: &str) -> (s: String)
    requires
        idx < u64::MAX,
    ensures
        s@ == service_list_label(idx as nat, name@),
{
    let mut s = text_of("  #");
    push_decimal(&mut s, idx as u64 + 1);
    push_str(&mut s, " — ");
    if is_blank(name) {
        push_str(&mut s, "(unnamed)");
    } else {
        push_str(&mut s, name);
    }
    s
}

/// `s` padded with spaces to `width` characters.
pub open spec fn padded(s: Seq<char>, width: nat) -> Seq<char> {
    if s.len() < width {
        s + Seq::new((width - s.len()) as nat, |i: int| ' ')
    } else {
        s
    }
}

/// The two texts of a scan result on the Scanner: the unit name, padded to
/// 32 characters, and the description.
pub open spec fn scan_item(r: (Seq<char>, Seq<char>)) -> (Seq<char>, Seq<char>) {
    ("  "@ + padded(r.0, 32), "  — "@ + r.1)
}

impl ScanResult {
    /// The two texts of this result on the Scanner.
    pub fn item_texts(&self) -> (t: (String, String))
        ensures
            (t.0@, t.1@) == scan_item(self@),
    {
        let mut a = text_of("  ");
        push_str(&mut a, self.name.as_str());
        let n = chars_of(self.name.as_str()).len();
        let mut k: usize = n;
        while k < 32
            invariant
                n == self@.0.len(),
                n <= k <= 32 || (n > 32 && k == n),
                a@ == "  "@ + self@.0 + Seq::new((k - n) as nat, |i: int| ' '),
            decreases 32 - k,
        {
            push_char(&mut a, ' ');
            k = k + 1;
            assert(a@ =~= "  "@ + self@.0 + Seq::new((k - n) as nat, |i: int| ' '));
        }
        assert(a@ =~= "  "@ + padded(self@.0, 32));
        let mut b = text_of("  — ");
        push_str(&mut b, self.description.as_str());
        (a, b)
    }
}

/// The title of the Scanner's list.
pub open spec fn scanner_title_text(n: nat) -> Seq<char> {
    " Discovered Services ("@ + decimal(n) + ")  Enter=pick "@
}

/// The title of the Scanner's list of `n` results.
pub fn scanner_title(n: usize) -> (s: String)
    ensures
        s@ == scanner_title_text(n as nat),
{
    let mut s = text_of(" Discovered Services (");
    push_decimal(&mut s, n as u64);
    push_str(&mut s, ")  Enter=pick ");
    s
}

/// The message shown when the terminal is too short for a screen.
pub open spec fn too_small_text(current: nat, needed: nat) -> Seq<char> {
    " Terminal too small ("@ + decimal(current) + " rows). Please resize to at least "@ + decimal(
        needed,
    ) + " rows."@
}

/// The message shown when the terminal has `current` rows and the screen
/// needs `needed`.
pub fn too_small_message(current: u16, needed: u16) -> (s: String)
    ensures
        s@ == too_small_text(current as nat, needed as nat),
{
    let mut s = text_of(" Terminal too small (");
    push_decimal(&mut s, current as u64);
    push_str(&mut s, " rows). Please resize to at least ");
    push_decimal(&mut s, needed as u64);
    push_str(&mut s, " rows.");
    s
}


/// The header of the edit form of service `idx`, and the title of its name
/// field.
pub open spec fn edit_titles(idx: nat) -> (Seq<char>, Seq<char>) {
    ("Edit Service #"@ + decimal(idx + 1), "Name  (svc #"@ + decimal(idx + 1) + ")"@)
}

/// The header of the edit form of service `idx`, and the title of its name
/// field.
pub fn edit_form_titles(idx: usize) -> (t: (String, String))
    requires
        idx < u64::MAX,
    ensures
        (t.0@, t.1@) == edit_titles(idx as nat),
{
    let mut a = text_of("Edit Service #");
    push_decimal(&mut a, idx as u64 + 1);
    let mut b = text_of("Name  (svc #");
    push_decimal(&mut b, idx as u64 + 1);
    push_str(&mut b, ")");
    (a, b)
}

} // verus!
