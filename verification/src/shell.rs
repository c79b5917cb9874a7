//! Shell commands: the `>`/`!` query forms, the terminal wrapper and the
//! systemd scope wrapper of launched argument vectors.
use vstd::prelude::*;

use crate::error::DomainError;
use crate::text::{chars_vec, concat, owned, slice_vec, spec_trim, string_of, string_views, trim};

verus! {

/// Runs commands for the providers (the spawning itself is the caller's).
#[derive(Debug, Clone, Copy)]
pub struct TokioShellExecutor;

impl TokioShellExecutor {
    pub fn new() -> (r: TokioShellExecutor) {
        TokioShellExecutor
    }
}

/// An empty argument vector cannot be run.
pub fn check_command(command: &[String]) -> (r: Result<(), DomainError>)
    ensures
        r is Ok <==> command@.len() > 0,
        r is Err ==> r->Err_0 is InvalidQuery && r->Err_0->InvalidQuery_0@ == "empty command"@,
{
    if command.len() == 0 {
        Err(DomainError::InvalidQuery(owned("empty command")))
    } else {
        Ok(())
    }
}

fn push_all(out: &mut Vec<String>, items: &[String])
    ensures
        string_views(final(out)@) == string_views(old(out)@) + string_views(items@),
{
    let ghost start = string_views(out@);
    let mut i: usize = 0;
    while i < items.len()
        invariant
            i <= items@.len(),
            string_views(out@) =~= start + string_views(items@).take(i as int),
        decreases items@.len() - i,
    {
        let ghost prev = string_views(out@);
        out.push(items[i].clone());
        assert(string_views(out@) =~= prev.push(items@[i as int]@));
        assert(string_views(items@).take(i + 1) =~= string_views(items@).take(i as int).push(
            items@[i as int]@,
        ));
        i += 1;
    }
    assert(string_views(items@).take(i as int) =~= string_views(items@));
}

pub open spec fn spec_scope_prefix() -> Seq<Seq<char>> {
    seq!["systemd-run"@, "--user"@, "--scope"@, "--quiet"@, "--collect"@, "--"@]
}

/// A launch argument vector inside a transient systemd user scope, or
/// unchanged when scopes are not used.
pub fn scope_wrapped_argv(command: &[String], use_scope: bool) -> (r: Vec<String>)
    ensures
        string_views(r@) == if use_scope {
            spec_scope_prefix() + string_views(command@)
        } else {
            string_views(command@)
        },
{
    let mut argv: Vec<String> = Vec::new();
    if use_scope {
        argv.push(owned("systemd-run"));
        argv.push(owned("--user"));
        argv.push(owned("--scope"));
        argv.push(owned("--quiet"));
        argv.push(owned("--collect"));
        argv.push(owned("--"));
        assert(string_views(argv@) =~= spec_scope_prefix());
    } else {
        assert(string_views(argv@) =~= Seq::<Seq<char>>::empty());
    }
    push_all(&mut argv, command);
    argv
}

/// `[program, "-e", command...]`, the program being the given terminal when
/// it is set and non-empty, else `xterm`.
pub fn terminal_command(terminal_program: Option<&str>, shell_command: &[String]) -> (r: Vec<String>)
    ensures
        string_views(r@) == seq![
            match terminal_program {
                Some(p) => if p@.len() > 0 {
                    p@
                } else {
                    "xterm"@
                },
                None => "xterm"@,
            },
            "-e"@,
        ] + string_views(shell_command@),
{
    let program = match terminal_program {
        Some(p) => if !p.is_empty() {
            p
        } else {
            "xterm"
        },
        None => "xterm",
    };
    let mut argv: Vec<String> = Vec::new();
    argv.push(owned(program));
    argv.push(owned("-e"));
    assert(string_views(argv@) =~= seq![program@, "-e"@]);
    push_all(&mut argv, shell_command);
    argv
}

/// A shell query: `!` (run in a terminal) or `>` (run detached) followed by
/// a command, trimmed; `None` for other text or an empty command.
pub open spec fn spec_shell_query(text: Seq<char>) -> Option<(Seq<char>, bool)> {
    if text.len() > 0 && (text[0] == '!' || text[0] == '>') {
        let command = spec_trim(text.skip(1));
        if command.len() == 0 {
            None
        } else {
            Some((command, text[0] == '!'))
        }
    } else {
        None
    }
}

pub fn shell_query(text: &str) -> (r: Option<(String, bool)>)
    ensures
        match spec_shell_query(text@) {
            Some((c, t)) => r matches Some(x) && x.0@ == c && x.1 == t,
            None => r is None,
        },
{
    let v = chars_vec(text);
    if v.len() == 0 || (v[0] != '!' && v[0] != '>') {
        return None;
    }
    let rest = slice_vec(&v, 1, v.len());
    assert(rest@ =~= v@.skip(1));
    let command = trim(&rest);
    if command.len() == 0 {
        None
    } else {
        Some((string_of(&command), v[0] == '!'))
    }
}

/// The action of a shell query runs `sh -c <command>`.
pub fn shell_argv(command: &str) -> (r: Vec<String>)
    ensures
        string_views(r@) == seq!["sh"@, "-c"@, command@],
{
    let mut v: Vec<String> = Vec::new();
    v.push(owned("sh"));
    v.push(owned("-c"));
    v.push(owned(command));
    assert(string_views(v@) =~= seq!["sh"@, "-c"@, command@]);
    v
}

/// The title of a shell query's match: `Run: <command>`.
pub fn shell_title(command: &str) -> (r: String)
    ensures
        r@ == "Run: "@ + command@,
{
    concat("Run: ", command)
}

} // verus!
