//! How a restart command is run: split on whitespace into a program and its
//! arguments, never handed to a shell, so the configuration cannot inject
//! shell syntax.

use vstd::prelude::*;
use crate::text::{chars_of, char_vecs_view, split_words, string_of, words};

verus! {

/// The program to spawn and its arguments.
#[derive(Debug)]
pub struct RestartPlan {
    pub program: String,
    pub args: Vec<String>,
}

/// Why a restart command cannot be run.
#[derive(Debug, Clone, Copy, PartialEq, Eq, Structural)]
pub enum HealError {
    /// The command holds no word: "restart_command in config is empty".
    EmptyCommand,
}

/// The views of a sequence of strings.
pub open spec fn strings_view(v: Seq<String>) -> Seq<Seq<char>> {
    v.map_values(|s: String| s@)
}

/// Splits a restart command into the program (its first word) and the
/// arguments (the remaining words).
pub fn plan_restart(restart_command: &str) -> (r: Result<RestartPlan, HealError>)
    ensures
        match r {
            Ok(p) => {
                &&& words(restart_command@).len() > 0
                &&& p.program@ == words(restart_command@)[0]
                &&& strings_view(p.args@) == words(restart_command@).skip(1)
            },
            Err(e) => e == HealError::EmptyCommand && words(restart_command@).len() == 0,
        },
{
    let cs = chars_of(restart_command);
    let ws = split_words(cs.as_slice());
    if ws.len() == 0 {
        return Err(HealError::EmptyCommand);
    }
    let program = string_of(ws[0].as_slice());
    let mut args: Vec<String> = Vec::new();
    let mut i: usize = 1;
    while i < ws.len()
        invariant
            1 <= i <= ws@.len(),
            char_vecs_view(ws@) == words(cs@),
            strings_view(args@) == char_vecs_view(ws@).subrange(1, i as int),
        decreases ws@.len() - i,
    {
        let a = string_of(ws[i].as_slice());
        assert(a@ == char_vecs_view(ws@)[i as int]);
        let ghost before = args@;
        args.push(a);
        assert(args@ == before.push(a));
        assert(strings_view(before.push(a)) =~= strings_view(before).push(a@));
        assert(char_vecs_view(ws@).subrange(1, i + 1) =~= char_vecs_view(ws@).subrange(
            1,
            i as int,
        ).push(char_vecs_view(ws@)[i as int]));
        i = i + 1;
    }
    assert(char_vecs_view(ws@).subrange(1, ws@.len() as int) =~= words(cs@).skip(1));
    Ok(RestartPlan { program, args })
}

} // verus!
