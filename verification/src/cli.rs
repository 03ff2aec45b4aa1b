//! The command line: `gatekeeper-rs [--config] [--dry-run] [--help] [CONFIG_FILE]`.

use vstd::prelude::*;
use crate::text::{chars_eq, chars_of, push_str, starts_with};

verus! {

/// What the command line asks for.
#[derive(Debug)]
pub struct CliOptions {
    /// `--dry-run`: monitor without executing restart commands.
    pub dry_run: bool,
    /// `--config`: open the setup wizard.
    pub wizard: bool,
    /// `--help` or `-h`: print the usage.
    pub help: bool,
    /// The first argument after the program name that is not an option, or
    /// `config.toml`.
    pub config_path: String,
}

/// Whether some argument (the program name included) is `flag`.
pub open spec fn has_arg(args: Seq<Seq<char>>, flag: Seq<char>) -> bool {
    exists|i: int| 0 <= i < args.len() && args[i] == flag
}

/// The configuration path: the first argument after the program name that
/// does not start with `-`, else `config.toml`.
pub open spec fn config_path_of(args: Seq<Seq<char>>) -> Seq<char> {
    if exists|i: int| 1 <= i < args.len() && !starts_with(args[i], seq!['-']) {
        let i = choose|i: int|
            1 <= i < args.len() && !starts_with(args[i], seq!['-']) && forall|j: int|
                1 <= j < i ==> starts_with(args[j], seq!['-']);
        args[i]
    } else {
        "config.toml"@
    }
}

/// The views of a sequence of strings.
pub open spec fn args_view(v: Seq<String>) -> Seq<Seq<char>> {
    v.map_values(|s: String| s@)
}

fn any_arg(args: &Vec<String>, flag: &str) -> (b: bool)
    ensures
        b == has_arg(args_view(args@), flag@),
{
    let f = chars_of(flag);
    let mut i: usize = 0;
    while i < args.len()
        invariant
            i <= args@.len(),
            f@ == flag@,
            forall|j: int| 0 <= j < i ==> args_view(args@)[j] != flag@,
        decreases args@.len() - i,
    {
        let a = chars_of(args[i].as_str());
        if chars_eq(a.as_slice(), f.as_slice()) {
            assert(args_view(args@)[i as int] == flag@);
            return true;
        }
        i = i + 1;
    }
    false
}

/// Reads the command line (`args[0]` is the program name).
pub fn parse_args(args: &Vec<String>) -> (o: CliOptions)
    ensures
        o.dry_run == has_arg(args_view(args@), "--dry-run"@),
        o.wizard == has_arg(args_view(args@), "--config"@),
        o.help == (has_arg(args_view(args@), "--help"@) || has_arg(args_view(args@), "-h"@)),
        o.config_path@ == config_path_of(args_view(args@)),
{
    let dry_run = any_arg(args, "--dry-run");
    let wizard = any_arg(args, "--config");
    let help = any_arg(args, "--help") || any_arg(args, "-h");
    let ghost av = args_view(args@);
    let mut i: usize = 1;
    while i < args.len()
        invariant
            1 <= i,
            i <= args@.len() || args@.len() == 0,
            av == args_view(args@),
            dry_run == has_arg(args_view(args@), "--dry-run"@),
            wizard == has_arg(args_view(args@), "--config"@),
            help == (has_arg(args_view(args@), "--help"@) || has_arg(args_view(args@), "-h"@)),
            forall|j: int| 1 <= j < i && j < args@.len() ==> starts_with(av[j], seq!['-']),
        decreases args@.len() - i,
    {
        let a = chars_of(args[i].as_str());
        let first_is_dash = a.len() > 0 && a[0] == '-';
        assert(a@ == av[i as int]);
        assert(first_is_dash == starts_with(av[i as int], seq!['-'])) by {
            if a@.len() > 0 {
                let sub = av[i as int].subrange(0, 1);
                assert(sub =~= seq![a@[0]]);
                if a@[0] == '-' {
                    assert(sub =~= seq!['-']);
                } else {
                    assert(sub[0] != seq!['-'][0]);
                }
            }
        }
        if !first_is_dash {
            let ghost k = choose|k: int|
                1 <= k < av.len() && !starts_with(av[k], seq!['-']) && forall|j: int|
                    1 <= j < k ==> starts_with(av[j], seq!['-']);
            assert(k == i) by {
                assert(1 <= i < av.len() && !starts_with(av[i as int], seq!['-']) && forall|j: int|
                    1 <= j < i ==> starts_with(av[j], seq!['-']));
                if k < i {
                } else if k > i {
                }
            }
            return CliOptions { dry_run, wizard, help, config_path: args[i].clone() };
        }
        i = i + 1;
    }
    let mut config_path = String::new();
    push_str(&mut config_path, "config.toml");
    CliOptions { dry_run, wizard, help, config_path }
}

} // verus!
