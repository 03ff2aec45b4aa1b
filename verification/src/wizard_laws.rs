//! Properties of the setup wizard that span its operations.

use vstd::prelude::*;
use crate::config_wizard::{
    blank, cmd_field, interval_key, interval_ok, name_field, save_step, svc_key, url_field,
    validated, wizard_config, WizardView, services_checked, service_checked, interval_checked,
    key_step, dismissed, scan_finished, save_finished, loaded_view, form_config, form_of,
    next_field, prev_field, ScanOutcome, Screen, KeyCode, KeyEvent, ServiceField, listed_services,
    scanner_step, scan_step, service_list_step, main_menu_step, global_settings_step,
    service_edit_step, with_form, pick_step, svc_prefix, toggled, typed, erased, delay_typed,
    dec_sat, cursor_ok, StatusView, MENU_LEN, GlobalField, default_form, menu_label,
    ServiceFormView, status_line_of, Tone,
};
use crate::config::{CheckMethod, DEFAULT_RECOVERY_DELAY};
use crate::text::starts_with;
use crate::config::ConfigView;
use crate::text::{
    all_digits, decimal, digit_value, digits_value, is_digit, is_space, lemma_decimal_digits, lemma_parse_decimal,
    lemma_trim_unchanged, parse_u64, trim,
};

verus! {

/// The names of the checked fields of a service.
pub open spec fn is_field(f: Seq<char>) -> bool {
    f == name_field() || f == url_field() || f == cmd_field()
}

proof fn lemma_field_heads(f: Seq<char>)
    requires
        is_field(f),
    ensures
        f.len() > 0,
        !is_digit(f[0]),
{
    reveal_strlit("name");
    reveal_strlit("url");
    reveal_strlit("cmd");
}

/// Distinct (service, field) pairs have distinct error keys, and none of
/// them is the interval's key.
pub proof fn lemma_svc_key_injective(i: nat, f: Seq<char>, j: nat, g: Seq<char>)
    requires
        is_field(f),
        is_field(g),
        svc_key(i, f) == svc_key(j, g),
    ensures
        i == j,
        f == g,
{
    reveal_strlit("svc_");
    reveal_strlit("_");
    lemma_field_heads(f);
    lemma_field_heads(g);
    lemma_decimal_digits(i);
    lemma_decimal_digits(j);
    let d1 = decimal(i);
    let d2 = decimal(j);
    let s = svc_key(i, f);
    let t = svc_key(j, g);
    assert(s =~= "svc_"@ + d1 + "_"@ + f);
    assert(t =~= "svc_"@ + d2 + "_"@ + g);
    if d1.len() < d2.len() {
        let p = 4 + d1.len() as int;
        assert(s[p] == '_');
        assert(t[p] == d2[d1.len() as int]);
        assert(is_digit(d2[d1.len() as int]));
    } else if d2.len() < d1.len() {
        let p = 4 + d2.len() as int;
        assert(t[p] == '_');
        assert(s[p] == d1[d2.len() as int]);
        assert(is_digit(d1[d2.len() as int]));
    }
    assert(d1 =~= s.subrange(4, 4 + d1.len() as int));
    assert(d2 =~= t.subrange(4, 4 + d2.len() as int));
    assert(f =~= s.subrange(5 + d1.len() as int, s.len() as int));
    assert(g =~= t.subrange(5 + d2.len() as int, t.len() as int));
}

/// The interval's key is no service's key.
pub proof fn lemma_interval_key_distinct(i: nat, f: Seq<char>)
    ensures
        svc_key(i, f) != interval_key(),
{
    reveal_strlit("svc_");
    reveal_strlit("interval");
    assert(svc_key(i, f)[0] == 's');
}

/// Whether `key` is the key of a blank required field of one of the first
/// `k` services of `v`.
pub open spec fn flagged_svc(v: WizardView, k: nat, key: Seq<char>) -> bool {
    exists|i: int|
        0 <= i < k && #[trigger] v.services[i] == v.services[i] && ((key == svc_key(
            i as nat,
            name_field(),
        ) && blank(v.services[i].name)) || (key == svc_key(i as nat, url_field()) && blank(
            v.services[i].url,
        )) || (key == svc_key(i as nat, cmd_field()) && blank(v.services[i].restart_command)))
}

proof fn lemma_services_checked(b: WizardView, k: nat)
    requires
        k <= b.services.len(),
        b.errors.dom().finite(),
        forall|key: Seq<char>| b.errors.contains_key(key) ==> key == interval_key(),
    ensures
        services_checked(b, k).services == b.services,
        services_checked(b, k).interval == b.interval,
        services_checked(b, k).errors.dom().finite(),
        forall|key: Seq<char>| #[trigger]
            services_checked(b, k).errors.contains_key(key) <==> (b.errors.contains_key(key)
                || flagged_svc(b, k, key)),
    decreases k,
{
    if k > 0 {
        let j = (k - 1) as nat;
        lemma_services_checked(b, j);
        let w = services_checked(b, j);
        let f = b.services[j as int];
        let kn = svc_key(j, name_field());
        let ku = svc_key(j, url_field());
        let kc = svc_key(j, cmd_field());
        reveal_strlit("name");
        reveal_strlit("url");
        reveal_strlit("cmd");
        assert(name_field() != url_field());
        assert(name_field() != cmd_field());
        assert(url_field()[0] != cmd_field()[0]);
        assert(url_field() != cmd_field());
        if kn == ku {
            lemma_svc_key_injective(j, name_field(), j, url_field());
        }
        if kn == kc {
            lemma_svc_key_injective(j, name_field(), j, cmd_field());
        }
        if ku == kc {
            lemma_svc_key_injective(j, url_field(), j, cmd_field());
        }
        // The keys of service j are not yet flagged.
        assert forall|fld: Seq<char>| is_field(fld) implies !w.errors.contains_key(
            svc_key(j, fld),
        ) by {
            lemma_interval_key_distinct(j, fld);
            if flagged_svc(b, j, svc_key(j, fld)) {
                let i = choose|i: int|
                    0 <= i < j && #[trigger] b.services[i] == b.services[i] && ((svc_key(j, fld)
                        == svc_key(i as nat, name_field()) && blank(b.services[i].name)) || (
                    svc_key(j, fld) == svc_key(i as nat, url_field()) && blank(b.services[i].url))
                        || (svc_key(j, fld) == svc_key(i as nat, cmd_field()) && blank(
                        b.services[i].restart_command,
                    )));
                if svc_key(j, fld) == svc_key(i as nat, name_field()) {
                    lemma_svc_key_injective(j, fld, i as nat, name_field());
                } else if svc_key(j, fld) == svc_key(i as nat, url_field()) {
                    lemma_svc_key_injective(j, fld, i as nat, url_field());
                } else {
                    lemma_svc_key_injective(j, fld, i as nat, cmd_field());
                }
            }
        }
        let r = services_checked(b, k);
        assert(r == service_checked(w, j));
        assert forall|key: Seq<char>| #[trigger]
            r.errors.contains_key(key) <==> (b.errors.contains_key(key) || flagged_svc(b, k, key)) by {
            if flagged_svc(b, k, key) && !flagged_svc(b, j, key) {
                let i = choose|i: int|
                    0 <= i < k && #[trigger] b.services[i] == b.services[i] && ((key == svc_key(
                        i as nat,
                        name_field(),
                    ) && blank(b.services[i].name)) || (key == svc_key(i as nat, url_field())
                        && blank(b.services[i].url)) || (key == svc_key(i as nat, cmd_field())
                        && blank(b.services[i].restart_command)));
                if i < j {
                    assert(flagged_svc(b, j, key));
                }
                assert(i == j);
            }
            if key == kn || key == ku || key == kc {
                if key == kn && blank(f.name) {
                    assert(b.services[j as int] == b.services[j as int]);
                }
                if key == ku && blank(f.url) {
                    assert(b.services[j as int] == b.services[j as int]);
                }
                if key == kc && blank(f.restart_command) {
                    assert(b.services[j as int] == b.services[j as int]);
                }
                if flagged_svc(b, k, key) {
                    let i = choose|i: int|
                        0 <= i < k && #[trigger] b.services[i] == b.services[i] && ((key
                            == svc_key(i as nat, name_field()) && blank(b.services[i].name)) || (
                        key == svc_key(i as nat, url_field()) && blank(b.services[i].url)) || (key
                            == svc_key(i as nat, cmd_field()) && blank(
                            b.services[i].restart_command,
                        )));
                    let fld = if key == kn {
                        name_field()
                    } else if key == ku {
                        url_field()
                    } else {
                        cmd_field()
                    };
                    if key == svc_key(i as nat, name_field()) {
                        lemma_svc_key_injective(j, fld, i as nat, name_field());
                    } else if key == svc_key(i as nat, url_field()) {
                        lemma_svc_key_injective(j, fld, i as nat, url_field());
                    } else {
                        lemma_svc_key_injective(j, fld, i as nat, cmd_field());
                    }
                }
                lemma_interval_key_distinct(j, name_field());
                lemma_interval_key_distinct(j, url_field());
                lemma_interval_key_distinct(j, cmd_field());
            } else {
                if flagged_svc(b, j, key) {
                    let i = choose|i: int|
                        0 <= i < j && #[trigger] b.services[i] == b.services[i] && ((key
                            == svc_key(i as nat, name_field()) && blank(b.services[i].name)) || (
                        key == svc_key(i as nat, url_field()) && blank(b.services[i].url)) || (key
                            == svc_key(i as nat, cmd_field()) && blank(
                            b.services[i].restart_command,
                        )));
                    assert(b.services[i] == b.services[i]);
                }
            }
        }
    }
}

/// Validation passes (no field needs attention) exactly when the interval is
/// a positive whole number and every service has a name, an address and a
/// restart command.
pub proof fn law_validation_passes_iff_complete(v: WizardView)
    ensures
        (validated(v).errors.len() == 0) == (interval_ok(v.interval) && forall|i: int|
            0 <= i < v.services.len() ==> {
                let f = #[trigger] v.services[i];
                !blank(f.name) && !blank(f.url) && !blank(f.restart_command)
            }),
        validated(v).interval == v.interval,
        validated(v).services == v.services,
{
    let b = interval_checked(WizardView { errors: Map::empty(), ..v });
    assert(b.errors.dom().finite());
    lemma_services_checked(b, v.services.len());
    let r = validated(v);
    let complete = interval_ok(v.interval) && forall|i: int|
        0 <= i < v.services.len() ==> {
            let f = #[trigger] v.services[i];
            !blank(f.name) && !blank(f.url) && !blank(f.restart_command)
        };
    if complete {
        assert forall|key: Seq<char>| !r.errors.contains_key(key) by {
            if flagged_svc(b, v.services.len(), key) {
                let i = choose|i: int|
                    0 <= i < v.services.len() && #[trigger] b.services[i] == b.services[i] && ((key
                        == svc_key(i as nat, name_field()) && blank(b.services[i].name)) || (key
                        == svc_key(i as nat, url_field()) && blank(b.services[i].url)) || (key
                        == svc_key(i as nat, cmd_field()) && blank(
                        b.services[i].restart_command,
                    )));
                assert(v.services[i] == b.services[i]);
            }
        }
        assert(r.errors.dom() =~= Set::empty());
    } else {
        if r.errors.len() == 0 {
            r.errors.dom().lemma_len0_is_empty();
            if !interval_ok(v.interval) {
                assert(b.errors.contains_key(interval_key()));
                assert(r.errors.dom().contains(interval_key()));
            } else {
                let i = choose|i: int|
                    0 <= i < v.services.len() && !({
                        let f = #[trigger] v.services[i];
                        !blank(f.name) && !blank(f.url) && !blank(f.restart_command)
                    });
                let f = v.services[i];
                let key = if blank(f.name) {
                    svc_key(i as nat, name_field())
                } else if blank(f.url) {
                    svc_key(i as nat, url_field())
                } else {
                    svc_key(i as nat, cmd_field())
                };
                assert(b.services[i] == b.services[i]);
                assert(flagged_svc(b, v.services.len(), key));
                assert(r.errors.dom().contains(key));
            }
        }
    }
}

/// A wizard that passed validation always converts to a configuration, so
/// Save & Exit asks for the file to be written.
pub proof fn law_validated_wizard_converts(v: WizardView)
    requires
        validated(v).errors.len() == 0,
    ensures
        wizard_config(validated(v)) is Some,
        save_step(v).1 is Save,
{
    law_validation_passes_iff_complete(v);
}

/// Moving to the next field and back returns to the field one started
/// from (the last field has no next one), and conversely.
pub proof fn law_field_order(f: ServiceField)
    ensures
        f != ServiceField::RecoveryDelay ==> prev_field(next_field(f)) == f,
        f != ServiceField::Name ==> next_field(prev_field(f)) == f,
{
}

/// No key press leaves the wizard without a service: deleting is refused
/// when a single service is left.
pub proof fn law_never_without_service(v: WizardView, key: KeyEvent)
    requires
        v.services.len() >= 1,
        crate::config_wizard::cursor_ok(v),
    ensures
        key_step(v, key).0.services.len() >= 1,
{
    let d = dismissed(v);
    assert(d.services == v.services);
    match d.screen {
        Screen::MainMenu => {
            law_validation_passes_iff_complete(d);
            assert(save_step(d).0.services == d.services);
            assert(scan_step(d).0.services == d.services);
        },
        Screen::ServiceEdit(idx) => {
            if key.code == KeyCode::Enter && d.edit_focus == ServiceField::RecoveryDelay {
                assert(service_checked(d, idx as nat).services == d.services);
            }
        },
        Screen::ServiceList => {
            if (key.code == KeyCode::Char('d') || key.code == KeyCode::Char('D'))
                && d.services.len() > 1 {
                assert(d.services.remove(d.list_index as int).len() == d.services.len() - 1);
            }
        },
        _ => {},
    }
}

/// The interval field takes only digits: if it held only digits before a
/// key press, it does after it.
pub proof fn law_interval_stays_numeric(v: WizardView, key: KeyEvent)
    requires
        all_digits(v.interval),
    ensures
        all_digits(key_step(v, key).0.interval),
{
    let d = dismissed(v);
    let w = key_step(v, key).0;
    match d.screen {
        Screen::MainMenu => {
            if d.menu_index == 3 && (key.code == KeyCode::Enter || key.code == KeyCode::Char(' ')) {
                law_validation_passes_iff_complete(d);
            }
        },
        Screen::GlobalSettings => {
            if w.interval != d.interval {
                assert forall|i: int| 0 <= i < w.interval.len() implies is_digit(
                    #[trigger] w.interval[i],
                ) by {
                    if i < d.interval.len() {
                        assert(w.interval[i] == d.interval[i]);
                    }
                }
            }
        },
        Screen::ServiceEdit(idx) => {
            if key.code == KeyCode::Enter && d.edit_focus == ServiceField::RecoveryDelay {
                assert(service_checked(d, idx as nat).interval == d.interval);
            }
        },
        _ => {},
    }
}

/// When a scan started from a screen finds services, leaving the Scanner
/// with Esc goes back to that screen.
pub proof fn law_scanner_returns_to_origin(v: WizardView, stdout: String, esc: KeyEvent)
    requires
        v.screen == Screen::MainMenu || v.screen == Screen::ServiceList,
        listed_services(stdout@).len() > 0,
        esc.code == KeyCode::Esc,
    ensures
        ({
            let s = KeyEvent { code: KeyCode::Char('s'), modifiers: esc.modifiers };
            let w1 = key_step(v, s).0;
            let w2 = scan_finished(w1, ScanOutcome::Listed(stdout));
            &&& key_step(v, s).1 is Scan
            &&& w2.screen == Screen::Scanner
            &&& key_step(w2, esc).0.screen == v.screen
        }),
{
}

/// Loading a configuration into the wizard and converting it back keeps its
/// interval, and the method and recovery delay of every service; names,
/// addresses and restart commands come back trimmed.
pub proof fn law_load_then_convert(c: ConfigView)
    ensures
        wizard_config(loaded_view(Some(c))) is Some,
        wizard_config(loaded_view(Some(c)))->0.interval_secs == c.interval_secs,
        c.services.len() > 0 ==> wizard_config(loaded_view(Some(c)))->0.services
            == c.services.map_values(|s: crate::config::ServiceConfigView| form_config(form_of(s))),
{
    let n = c.interval_secs;
    let d = decimal(n as nat);
    lemma_decimal_digits(n as nat);
    assert(!is_space(d[0]));
    assert(!is_space(d.last())) by {
        assert(is_digit(d[d.len() - 1]));
    }
    lemma_trim_unchanged(d);
    lemma_parse_decimal(n);
    let v = loaded_view(Some(c));
    assert(v.interval == d);
    if c.services.len() > 0 {
        assert(wizard_config(v)->0.services =~= c.services.map_values(
            |s: crate::config::ServiceConfigView| form_config(form_of(s)),
        ));
    }
}


proof fn lemma_services_checked_fields(b: WizardView, k: nat)
    ensures
        services_checked(b, k) == (WizardView { errors: services_checked(b, k).errors, ..b }),
    decreases k,
{
    if k > 0 {
        lemma_services_checked_fields(b, (k - 1) as nat);
    }
}

/// Validation changes nothing but the error map.
proof fn lemma_validated_fields(v: WizardView)
    ensures
        validated(v) == (WizardView { errors: validated(v).errors, ..v }),
{
    lemma_services_checked_fields(
        interval_checked(WizardView { errors: Map::empty(), ..v }),
        v.services.len(),
    );
}

/// Validation leaves exactly these fields flagged: the interval when it is
/// not a positive whole number, and each blank name, address or restart
/// command of a service, under that service's key; nothing else of the
/// wizard changes.
pub proof fn law_validate_keys(v: WizardView)
    ensures
        forall|key: Seq<char>| #[trigger]
            validated(v).errors.contains_key(key) <==> ((key == interval_key() && !interval_ok(
                v.interval,
            )) || flagged_svc(v, v.services.len(), key)),
        validated(v) == (WizardView { errors: validated(v).errors, ..v }),
{
    let b = interval_checked(WizardView { errors: Map::empty(), ..v });
    assert(b.errors.dom().finite());
    lemma_services_checked(b, v.services.len());
    lemma_validated_fields(v);
    assert forall|key: Seq<char>| flagged_svc(b, v.services.len(), key) == flagged_svc(
        v,
        v.services.len(),
        key,
    ) by {
        assert(b.services == v.services);
    }
}

/// Esc on a service's edit form goes back to the list, keeps every service,
/// and clears exactly that service's flagged fields, keeping the other
/// messages as they were.
pub proof fn law_edit_esc_clears_form_errors(v: WizardView, key: KeyEvent, idx: usize)
    requires
        v.screen == Screen::ServiceEdit(idx),
        key.code == KeyCode::Esc,
    ensures
        ({
            let w = key_step(v, key).0;
            &&& w.screen == Screen::ServiceList
            &&& w.services == v.services
            &&& forall|k: Seq<char>| #[trigger]
                w.errors.contains_key(k) <==> (v.errors.contains_key(k) && !starts_with(
                    k,
                    svc_prefix(idx as nat),
                ))
            &&& forall|k: Seq<char>| #[trigger]
                w.errors.contains_key(k) ==> w.errors[k] == v.errors[k]
        }),
{
}

/// On the Method field of an edit form, Left, Right and Space switch the
/// form's method and nothing else; two such keys in a row give every
/// service back as it was.
pub proof fn law_method_toggles_back(v: WizardView, k1: KeyEvent, k2: KeyEvent, idx: usize)
    requires
        v.screen == Screen::ServiceEdit(idx),
        idx < v.services.len(),
        v.edit_focus == ServiceField::Method,
        k1.code == KeyCode::Left || k1.code == KeyCode::Right || k1.code == KeyCode::Char(' '),
        k2.code == KeyCode::Left || k2.code == KeyCode::Right || k2.code == KeyCode::Char(' '),
    ensures
        ({
            let w1 = key_step(v, k1).0;
            let f = v.services[idx as int];
            &&& w1.services == v.services.update(
                idx as int,
                crate::config_wizard::ServiceFormView { method: toggled(f.method), ..f },
            )
            &&& w1.screen == v.screen
            &&& w1.edit_focus == ServiceField::Method
            &&& key_step(w1, k2).0.services == v.services
        }),
{
    let f = v.services[idx as int];
    let w1 = key_step(v, k1).0;
    assert(w1.services == v.services.update(
        idx as int,
        crate::config_wizard::ServiceFormView { method: toggled(f.method), ..f },
    ));
    let w2 = key_step(w1, k2).0;
    crate::config_wizard::law_toggle_twice(f.method);
    assert(w2.services =~= v.services);
}

/// On the service list the cursor stays on a service and at least one
/// service remains; Enter opens the service under the cursor with its name
/// field focused.
pub proof fn law_list_cursor_in_range(v: WizardView, key: KeyEvent)
    requires
        v.screen == Screen::ServiceList,
        v.services.len() >= 1,
        v.list_index < v.services.len(),
    ensures
        ({
            let w = key_step(v, key).0;
            &&& w.services.len() >= 1
            &&& w.screen == Screen::ServiceList ==> w.list_index < w.services.len()
            &&& key.code == KeyCode::Enter ==> w.screen == Screen::ServiceEdit(v.list_index)
                && w.edit_focus == ServiceField::Name
        }),
{
}

/// On the main menu the cursor stays on one of its items: Up moves it one
/// item up (not past the first), Down one item down (not past the last),
/// and neither changes anything else.
pub proof fn law_menu_cursor_in_menu(v: WizardView, key: KeyEvent)
    requires
        v.screen == Screen::MainMenu,
        v.menu_index < MENU_LEN,
    ensures
        ({
            let w = key_step(v, key).0;
            &&& w.menu_index < MENU_LEN
            &&& (key.code == KeyCode::Up || key.code == KeyCode::Char('k')) ==> w == (WizardView {
                menu_index: dec_sat(v.menu_index),
                ..dismissed(v)
            })
            &&& (key.code == KeyCode::Down || key.code == KeyCode::Char('j')) ==> w
                == (WizardView {
                menu_index: if v.menu_index < MENU_LEN - 1 {
                    (v.menu_index + 1) as usize
                } else {
                    v.menu_index
                },
                ..dismissed(v)
            })
        }),
{
    lemma_validated_fields(dismissed(v));
}

/// Typing on the interval field appends the character when it is a digit
/// and ignores it otherwise; the webhook and the screen stay as they were.
pub proof fn law_interval_typing(v: WizardView, key: KeyEvent, c: char)
    requires
        v.screen == Screen::GlobalSettings,
        v.global_focus == GlobalField::Interval,
        key.code == KeyCode::Char(c),
    ensures
        ({
            let w = key_step(v, key).0;
            &&& w.interval == if '0' <= c && c <= '9' {
                v.interval.push(c)
            } else {
                v.interval
            }
            &&& w.discord_webhook == v.discord_webhook
            &&& w.screen == Screen::GlobalSettings
            &&& w.services == v.services
        }),
{
}

/// On an edit form, a backspace undoes a character just typed into a text
/// field, or a digit just appended to the recovery delay.
pub proof fn law_backspace_undoes_typing(v: WizardView, k1: KeyEvent, c: char, k2: KeyEvent, idx: usize)
    requires
        v.screen == Screen::ServiceEdit(idx),
        k1.code == KeyCode::Char(c),
        k2.code == KeyCode::Backspace,
        v.edit_focus == ServiceField::Name || v.edit_focus == ServiceField::Url
            || v.edit_focus == ServiceField::RestartCommand || (v.edit_focus
            == ServiceField::RecoveryDelay && idx < v.services.len() && delay_typed(
            v.services[idx as int].recovery_delay,
            c,
        ) != v.services[idx as int].recovery_delay),
    ensures
        key_step(key_step(v, k1).0, k2).0.services == v.services,
{
    let w1 = key_step(v, k1).0;
    let w2 = key_step(w1, k2).0;
    if idx < v.services.len() {
        let f = v.services[idx as int];
        assert(w1.services == v.services.update(idx as int, typed(f, v.edit_focus, c)));
        assert(w2.services == w1.services.update(
            idx as int,
            erased(typed(f, v.edit_focus, c), v.edit_focus),
        ));
        if v.edit_focus == ServiceField::RecoveryDelay {
            let d = f.recovery_delay;
            assert(delay_typed(d, c) == d * 10 + digit_value(c));
            assert(digit_value(c) < 10);
            assert((d * 10 + digit_value(c)) / 10 == d) by (nonlinear_arith)
                requires
                    digit_value(c) < 10,
            ;
        } else {
            assert(f.name.push(c).drop_last() =~= f.name);
            assert(f.url.push(c).drop_last() =~= f.url);
            assert(f.restart_command.push(c).drop_last() =~= f.restart_command);
        }
        assert(erased(typed(f, v.edit_focus, c), v.edit_focus) == f);
        assert(w2.services =~= v.services);
    }
}

/// On the Scanner the cursor stays on a result (or at 0 when there is
/// none); Esc, q and Q go back to where the scan started; Enter picks the
/// highlighted result.
pub proof fn law_scanner_cursor(v: WizardView, key: KeyEvent)
    requires
        v.screen == Screen::Scanner,
        v.scan_results.len() == 0 ==> v.scan_index == 0,
        v.scan_results.len() > 0 ==> v.scan_index < v.scan_results.len(),
    ensures
        ({
            let w = key_step(v, key).0;
            &&& (key.code == KeyCode::Esc || key.code == KeyCode::Char('q') || key.code
                == KeyCode::Char('Q')) ==> w.screen == v.scanner_return
            &&& (key.code == KeyCode::Up || key.code == KeyCode::Char('k') || key.code
                == KeyCode::Down || key.code == KeyCode::Char('j')) ==> {
                &&& w.screen == Screen::Scanner
                &&& w.services == v.services
                &&& w.scan_results.len() == 0 ==> w.scan_index == 0
                &&& w.scan_results.len() > 0 ==> w.scan_index < w.scan_results.len()
            }
            &&& key.code == KeyCode::Enter ==> w == pick_step(dismissed(v))
        }),
{
}

/// On the settings and edit screens a key press clears a transient (info or
/// error) message and keeps the saved mark.
pub proof fn law_transient_status_dismissed(v: WizardView, key: KeyEvent)
    requires
        v.screen == Screen::GlobalSettings || v.screen is ServiceEdit,
    ensures
        (v.status matches Some(StatusView::Info(_)) || v.status matches Some(StatusView::Error(_)))
            ==> key_step(v, key).0.status is None,
        v.status matches Some(StatusView::Saved) ==> key_step(v, key).0.status == v.status,
        v.status is None ==> key_step(v, key).0.status is None,
{
    match v.screen {
        Screen::ServiceEdit(idx) => {
            let d = dismissed(v);
            assert(service_checked(d, idx as nat).status == d.status);
        },
        _ => {},
    }
}


/// Converting a wizard whose texts are already trimmed and whose interval is
/// a number in decimal, and loading the configuration back into a wizard,
/// gives back its interval, webhook and services.
pub proof fn law_convert_then_load(v: WizardView, n: u64)
    requires
        v.services.len() >= 1,
        v.interval == decimal(n as nat),
        trim(v.discord_webhook) == v.discord_webhook,
        forall|i: int|
            0 <= i < v.services.len() ==> {
                let f = #[trigger] v.services[i];
                &&& trim(f.name) == f.name
                &&& trim(f.url) == f.url
                &&& trim(f.restart_command) == f.restart_command
            },
    ensures
        wizard_config(v) is Some,
        loaded_view(wizard_config(v)).interval == v.interval,
        loaded_view(wizard_config(v)).discord_webhook == v.discord_webhook,
        loaded_view(wizard_config(v)).services == v.services,
{
    let d = decimal(n as nat);
    lemma_decimal_digits(n as nat);
    assert(!is_space(d[0]));
    assert(!is_space(d.last())) by {
        assert(is_digit(d[d.len() - 1]));
    }
    lemma_trim_unchanged(d);
    lemma_parse_decimal(n);
    let c = wizard_config(v)->0;
    assert(c.interval_secs == n);
    let w = loaded_view(wizard_config(v));
    assert(w.services =~= v.services) by {
        assert forall|i: int| 0 <= i < v.services.len() implies w.services[i] == v.services[i] by {
            let f = v.services[i];
            assert(c.services[i] == form_config(f));
        }
    }
    if trim(v.discord_webhook).len() == 0 {
        assert(v.discord_webhook =~= seq![]);
    }
}


/// On the service list with more than one service, `d` or `D` deletes the
/// service under the cursor: the services before it keep their places, the
/// ones after it move up by one, and the cursor stays on a service.
pub proof fn law_delete_removes_service_under_cursor(v: WizardView, key: KeyEvent)
    requires
        v.screen == Screen::ServiceList,
        v.services.len() > 1,
        v.list_index < v.services.len(),
        key.code == KeyCode::Char('d') || key.code == KeyCode::Char('D'),
    ensures
        ({
            let w = key_step(v, key).0;
            &&& w.services.len() == v.services.len() - 1
            &&& forall|i: int| 0 <= i < v.list_index ==> #[trigger] w.services[i] == v.services[i]
            &&& forall|i: int|
                v.list_index <= i < w.services.len() ==> #[trigger] w.services[i] == v.services[i + 1]
            &&& w.list_index < w.services.len()
            &&& w.screen == Screen::ServiceList
        }),
{
}

/// With a single service, `d` or `D` deletes nothing and says why.
pub proof fn law_delete_keeps_last_service(v: WizardView, key: KeyEvent)
    requires
        v.screen == Screen::ServiceList,
        v.services.len() <= 1,
        key.code == KeyCode::Char('d') || key.code == KeyCode::Char('D'),
    ensures
        key_step(v, key).0.services == v.services,
        key_step(v, key).0.status is Some,
{
}

/// On the Scanner, Down and `j` move the cursor one result down unless it is
/// on the last one; Up and `k` move it one result up unless it is on the
/// first; neither changes the screen, the results or the services. (Any
/// list a program holds is shorter than `usize::MAX`.)
pub proof fn law_scanner_moves(v: WizardView, key: KeyEvent)
    requires
        v.screen == Screen::Scanner,
        v.scan_results.len() <= usize::MAX,
    ensures
        ({
            let w = key_step(v, key).0;
            let n = v.scan_results.len();
            &&& (key.code == KeyCode::Down || key.code == KeyCode::Char('j')) ==> {
                &&& w.scan_index == if v.scan_index + 1 < n {
                    v.scan_index + 1
                } else {
                    v.scan_index as int
                }
                &&& w.screen == Screen::Scanner
                &&& w.scan_results == v.scan_results
                &&& w.services == v.services
            }
            &&& (key.code == KeyCode::Up || key.code == KeyCode::Char('k')) ==> {
                &&& w.scan_index == if v.scan_index > 0 {
                    v.scan_index - 1
                } else {
                    0
                }
                &&& w.screen == Screen::Scanner
                &&& w.scan_results == v.scan_results
                &&& w.services == v.services
            }
        }),
{
}

/// On the service list, Down and `j` move the cursor one service down unless
/// it is on the last one; Up and `k` move it one service up unless it is on
/// the first; neither changes the screen or the services. (Any list a
/// program holds is shorter than `usize::MAX`.)
pub proof fn law_list_moves(v: WizardView, key: KeyEvent)
    requires
        v.screen == Screen::ServiceList,
        v.services.len() <= usize::MAX,
    ensures
        ({
            let w = key_step(v, key).0;
            let n = v.services.len();
            &&& (key.code == KeyCode::Down || key.code == KeyCode::Char('j')) ==> {
                &&& w.list_index == if v.list_index + 1 < n {
                    v.list_index + 1
                } else {
                    v.list_index as int
                }
                &&& w.screen == Screen::ServiceList
                &&& w.services == v.services
            }
            &&& (key.code == KeyCode::Up || key.code == KeyCode::Char('k')) ==> {
                &&& w.list_index == if v.list_index > 0 {
                    v.list_index - 1
                } else {
                    0
                }
                &&& w.screen == Screen::ServiceList
                &&& w.services == v.services
            }
        }),
{
}

/// On the main menu, Down and `j` move the cursor one item down unless it is
/// on the last of the four items; Up and `k` move it one item up unless it is
/// on the first; neither changes the screen or the services.
pub proof fn law_menu_moves(v: WizardView, key: KeyEvent)
    requires
        v.screen == Screen::MainMenu,
    ensures
        ({
            let w = key_step(v, key).0;
            &&& (key.code == KeyCode::Down || key.code == KeyCode::Char('j')) ==> {
                &&& w.menu_index == if v.menu_index + 1 < 4 {
                    v.menu_index + 1
                } else {
                    v.menu_index as int
                }
                &&& w.screen == Screen::MainMenu
                &&& w.services == v.services
            }
            &&& (key.code == KeyCode::Up || key.code == KeyCode::Char('k')) ==> {
                &&& w.menu_index == if v.menu_index > 0 {
                    v.menu_index - 1
                } else {
                    0
                }
                &&& w.screen == Screen::MainMenu
                &&& w.services == v.services
            }
        }),
{
}


/// The main menu's items, in order, and what Enter (or Space) on each does:
/// the first opens the global settings with the webhook focused, the second
/// the service list, the third a new blank service (Name focused, recovery
/// delay 30 s) appended after the others, the fourth saves. Esc, `q` and `Q`
/// quit.
pub proof fn law_menu_items(v: WizardView, key: KeyEvent)
    requires
        v.screen == Screen::MainMenu,
    ensures
        menu_label(0) == "Edit Global Settings"@,
        menu_label(1) == "Manage Services"@,
        menu_label(2) == "Add New Service"@,
        menu_label(3) == "Save & Exit"@,
        ({
            let (w, r) = key_step(v, key);
            &&& (key.code == KeyCode::Enter || key.code == KeyCode::Char(' ')) ==> {
                &&& v.menu_index == 0 ==> w.screen == Screen::GlobalSettings && w.global_focus
                    == GlobalField::DiscordWebhook && w.services == v.services
                &&& v.menu_index == 1 ==> w.screen == Screen::ServiceList && w.services
                    == v.services
                &&& v.menu_index == 2 ==> {
                    &&& w.services.len() == v.services.len() + 1
                    &&& forall|i: int| 0 <= i < v.services.len() ==> #[trigger] w.services[i]
                        == v.services[i]
                    &&& w.services.last() == ServiceFormView {
                        name: seq![],
                        url: seq![],
                        method: CheckMethod::Http,
                        restart_command: seq![],
                        recovery_delay: 30,
                    }
                    &&& w.screen == Screen::ServiceEdit(v.services.len() as usize)
                    &&& w.edit_focus == ServiceField::Name
                }
                &&& v.menu_index == 3 ==> (w, r) == save_step(dismissed(v))
            }
            &&& (key.code == KeyCode::Esc || key.code == KeyCode::Char('q') || key.code
                == KeyCode::Char('Q')) ==> w.should_quit && w.services == v.services
        }),
{
}

/// The method switches between HTTP and TCP: each is the other's toggle.
pub proof fn law_method_values()
    ensures
        toggled(CheckMethod::Http) == CheckMethod::Tcp,
        toggled(CheckMethod::Tcp) == CheckMethod::Http,
{
}

/// The fields of the edit form, in order: Name, URL, Method, Restart
/// Command, Recovery Delay. Moving on stops at the last, moving back stops
/// at the first.
pub proof fn law_field_sequence()
    ensures
        next_field(ServiceField::Name) == ServiceField::Url,
        next_field(ServiceField::Url) == ServiceField::Method,
        next_field(ServiceField::Method) == ServiceField::RestartCommand,
        next_field(ServiceField::RestartCommand) == ServiceField::RecoveryDelay,
        next_field(ServiceField::RecoveryDelay) == ServiceField::RecoveryDelay,
        prev_field(ServiceField::Name) == ServiceField::Name,
        prev_field(ServiceField::Url) == ServiceField::Name,
        prev_field(ServiceField::Method) == ServiceField::Url,
        prev_field(ServiceField::RestartCommand) == ServiceField::Method,
        prev_field(ServiceField::RecoveryDelay) == ServiceField::RestartCommand,
{
}

/// Typing a digit after a recovery delay of `d` seconds makes it ten times
/// `d` plus that digit, as long as that fits in a `u64`; a character that is
/// not a digit changes nothing; erasing drops the last digit.
pub proof fn law_delay_typing(d: u64, c: char)
    ensures
        ('0' <= c && c <= '9' && d * 10 + (c as u32 - '0' as u32) <= u64::MAX) ==> delay_typed(d, c)
            == d * 10 + (c as u32 - '0' as u32),
        !('0' <= c && c <= '9') ==> delay_typed(d, c) == d,
        ({
            let f = ServiceFormView {
                name: seq![],
                url: seq![],
                method: CheckMethod::Http,
                restart_command: seq![],
                recovery_delay: d,
            };
            erased(f, ServiceField::RecoveryDelay).recovery_delay == d / 10
        }),
{
}

/// The interval is accepted exactly when, once trimmed, it is a whole number
/// of seconds above zero; a service field needs attention exactly when it
/// holds nothing but whitespace.
pub proof fn law_interval_rule(s: Seq<char>)
    ensures
        interval_ok(s) <==> (parse_u64(trim(s)) is Some && parse_u64(trim(s))->0 > 0),
        blank(s) <==> trim(s).len() == 0,
{
}

/// Picking a discovered unit adds a service named after the unit without its
/// ".service" suffix, restarted with `sudo systemctl restart <unit>`, probed
/// over HTTP at an address still to fill in (focused), with the default
/// recovery delay.
pub proof fn law_pick_prefills(v: WizardView)
    requires
        v.scan_index < v.scan_results.len(),
    ensures
        ({
            let w = pick_step(v);
            let unit = v.scan_results[v.scan_index as int].0;
            let f = w.services.last();
            &&& w.services.len() == v.services.len() + 1
            &&& forall|i: int| 0 <= i < v.services.len() ==> #[trigger] w.services[i] == v.services[i]
            &&& crate::text::ends_with(unit, ".service"@) ==> f.name + ".service"@ == unit
            &&& f.restart_command == "sudo systemctl restart "@ + unit
            &&& f.url == Seq::<char>::empty()
            &&& f.method == CheckMethod::Http
            &&& f.recovery_delay == DEFAULT_RECOVERY_DELAY
            &&& w.screen == Screen::ServiceEdit(v.services.len() as usize)
            &&& w.edit_focus == ServiceField::Url
        }),
{
    let unit = v.scan_results[v.scan_index as int].0;
    let w = pick_step(v);
    if crate::text::ends_with(unit, ".service"@) {
        reveal_strlit(".service");
        assert(crate::config_wizard::service_suffix() == ".service"@);
        let name = crate::config_wizard::display_name(unit);
        assert(name + ".service"@ =~= unit);
    }
}


/// The status strip: a save shows a green check, an error a red cross with
/// its message, information a yellow dot with its message; with no message
/// it warns in yellow while fields need attention and otherwise shows the
/// muted hint.
pub proof fn law_status_strip(v: WizardView, m: Seq<char>)
    ensures
        v.status == Some(StatusView::Saved) ==> status_line_of(v) == (
            "✓"@,
            " Configuration saved to config.toml"@,
            Tone::Success,
        ),
        v.status == Some(StatusView::Error(m)) ==> status_line_of(v) == ("✗"@, " "@ + m, Tone::Failure),
        v.status == Some(StatusView::Info(m)) ==> status_line_of(v) == ("·"@, " "@ + m, Tone::Notice),
        (v.status is None && v.errors.len() > 0) ==> status_line_of(v).2 == Tone::Notice,
        (v.status is None && v.errors.len() == 0) ==> status_line_of(v).2 == Tone::Muted,
{
}

} // verus!
