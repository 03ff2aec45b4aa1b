use gatekeeper_rs::cli::parse_args;
use gatekeeper_rs::healer::{plan_restart, HealError};
use gatekeeper_rs::log_appender::{dated_file_name, needs_new_file};
use gatekeeper_rs::text::{
    chars_of, decimal_string, is_blank, parse_u64_chars, split_words, trim_chars,
};
use gatekeeper_rs::text_map::TextMap;

fn s(v: &[char]) -> String {
    v.iter().collect()
}

#[test]
fn trim_and_blank_follow_unicode_whitespace() {
    let t = trim_chars(&chars_of("\u{3000} a b\t\n"));
    assert_eq!(s(&t), "a b");
    assert!(is_blank(" \t\u{a0}\n"));
    assert!(!is_blank(" x "));
    assert!(is_blank(""));
}

#[test]
fn parse_matches_std() {
    for input in ["0", "30", "+7", "", "+", "-1", "12a", " 1", "18446744073709551615", "18446744073709551616", "007"] {
        let expected = input.parse::<u64>().ok();
        assert_eq!(parse_u64_chars(&chars_of(input)), expected, "input {input:?}");
    }
}

#[test]
fn decimal_matches_to_string() {
    for n in [0u64, 9, 10, 99, 100, 12345, u64::MAX] {
        assert_eq!(decimal_string(n), n.to_string());
    }
}

#[test]
fn words_match_split_whitespace() {
    let input = "  sudo  systemctl\trestart \u{2003}nginx.service \n";
    let words: Vec<String> = split_words(&chars_of(input)).iter().map(|w| s(w)).collect();
    let expected: Vec<String> = input.split_whitespace().map(String::from).collect();
    assert_eq!(words, expected);
}

#[test]
fn restart_command_split_without_shell() {
    let p = plan_restart("sudo systemctl restart nginx; rm -rf /").unwrap();
    assert_eq!(p.program, "sudo");
    assert_eq!(p.args, vec!["systemctl", "restart", "nginx;", "rm", "-rf", "/"]);
    assert_eq!(plan_restart("  \t ").unwrap_err(), HealError::EmptyCommand);
    let single = plan_restart("true").unwrap();
    assert_eq!(single.program, "true");
    assert!(single.args.is_empty());
}

#[test]
fn command_line_options() {
    let args: Vec<String> = ["gatekeeper-rs", "--dry-run", "staging.toml", "other.toml"]
        .iter().map(|a| a.to_string()).collect();
    let o = parse_args(&args);
    assert!(o.dry_run);
    assert!(!o.wizard);
    assert!(!o.help);
    assert_eq!(o.config_path, "staging.toml");
    let args: Vec<String> = ["gatekeeper-rs", "--config", "-h"].iter().map(|a| a.to_string()).collect();
    let o = parse_args(&args);
    assert!(o.wizard);
    assert!(o.help);
    assert_eq!(o.config_path, "config.toml");
}

#[test]
fn daily_log_file_names() {
    assert_eq!(dated_file_name("gatekeeper", "2026-04-29", "log"), "gatekeeper.2026-04-29.log");
    assert!(needs_new_file(None, "2026-04-29"));
    assert!(needs_new_file(Some("2026-04-28"), "2026-04-29"));
    assert!(!needs_new_file(Some("2026-04-29"), "2026-04-29"));
}

#[test]
fn text_map_insert_replace_remove() {
    let mut m: TextMap<String> = TextMap::new();
    m.insert("svc_0_name".into(), "Required".into());
    m.insert("svc_0_name".into(), "Other".into());
    m.insert("interval".into(), "x".into());
    assert_eq!(m.len(), 2);
    assert_eq!(m.get("svc_0_name").map(|v| v.as_str()), Some("Other"));
    assert!(m.any_key_starts_with(&chars_of("svc_0_")));
    m.remove_keys_starting_with(&chars_of("svc_0_"));
    assert_eq!(m.len(), 1);
    assert!(m.contains_key("interval"));
    m.remove("interval");
    assert!(m.is_empty());
}
