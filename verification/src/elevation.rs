//! Privilege elevation: whether it is needed, how to relaunch with
//! `pkexec` (Linux) or the `runas` verb (Windows), and what came of it.
//! Asking for the privileges the process holds, reading the environment
//! and launching are the caller's.

use vstd::prelude::*;

use crate::models::{concat_str, owned};
use crate::text::{decimal, decimal_string, join, join_strings};

verus! {

/// What elevation asks of the caller.
#[derive(Debug, PartialEq, Eq, Structural, Clone, Copy)]
pub enum Elevation {
    /// Already elevated: carry on in this process.
    NotNeeded,
    /// Relaunch elevated, then let this process end.
    Relaunch,
}

/// Check if the process needs elevation: only where it does not hold
/// elevated privileges.
pub fn elevate_if_needed(_want_gui: bool, elevated: bool) -> (e: Elevation)
    ensures
        e == (if elevated {
            Elevation::NotNeeded
        } else {
            Elevation::Relaunch
        }),
{
    if elevated {
        Elevation::NotNeeded
    } else {
        Elevation::Relaunch
    }
}

/// The environment variables that a graphical session needs, handed on to
/// the elevated process.
pub open spec fn session_keys() -> Seq<Seq<char>> {
    seq!["DISPLAY"@, "XAUTHORITY"@, "WAYLAND_DISPLAY"@, "XDG_RUNTIME_DIR"@]
}

/// The names of the session variables, in the order they are handed on.
pub fn session_env_keys() -> (keys: Vec<String>)
    ensures
        keys.deep_view() == session_keys(),
{
    let mut keys: Vec<String> = Vec::new();
    keys.push(owned("DISPLAY"));
    keys.push(owned("XAUTHORITY"));
    keys.push(owned("WAYLAND_DISPLAY"));
    keys.push(owned("XDG_RUNTIME_DIR"));
    assert(keys.deep_view() =~= session_keys());
    keys
}

/// `KEY=VALUE` for each variable that has a value, in order.
pub open spec fn env_assignments(env: Seq<(Seq<char>, Option<Seq<char>>)>) -> Seq<Seq<char>>
    decreases env.len(),
{
    if env.len() == 0 {
        seq![]
    } else {
        let r = env_assignments(env.drop_last());
        match env.last().1 {
            Some(v) => r.push(env.last().0 + "="@ + v),
            None => r,
        }
    }
}

/// The arguments for `pkexec`: `env`, the session assignments, then the
/// program and its own arguments.
pub open spec fn pkexec_args(
    env: Seq<(Seq<char>, Option<Seq<char>>)>,
    exe: Seq<char>,
    args: Seq<Seq<char>>,
) -> Seq<Seq<char>> {
    seq!["env"@] + env_assignments(env) + seq![exe] + args
}

/// The arguments to relaunch a program with `args` through `pkexec`,
/// handing on the session variables in `env` that have a value: the part
/// before the program's path and the part after it. The path goes between
/// them as it is (it need not be text).
pub fn pkexec_arguments(env: &Vec<(String, Option<String>)>, args: &Vec<String>) -> (r: (Vec<String>, Vec<String>))
    ensures
        r.0.deep_view() == seq!["env"@] + env_assignments(env.deep_view()),
        r.1.deep_view() == args.deep_view(),
        forall|exe: Seq<char>|
            #[trigger] pkexec_args(env.deep_view(), exe, args.deep_view()) == r.0.deep_view() + seq![exe]
                + r.1.deep_view(),
{
    let mut r: Vec<String> = Vec::new();
    r.push(owned("env"));
    let ghost e = env.deep_view();
    let mut i: usize = 0;
    while i < env.len()
        invariant
            i <= env.len(),
            e == env.deep_view(),
            r.deep_view() =~= seq!["env"@] + env_assignments(e.take(i as int)),
        decreases env.len() - i,
    {
        let ghost before = r.deep_view();
        assert(e.take(i + 1).drop_last() =~= e.take(i as int));
        assert(e.take(i + 1).last() == e[i as int]);
        assert(e[i as int] == (env[i as int].0@, env[i as int].1.deep_view()));
        match &env[i].1 {
            Some(v) => {
                let mut a = env[i].0.clone();
                a.append("=");
                a.append(v.as_str());
                r.push(a);
                assert(r.deep_view() =~= before.push(e[i as int].0 + "="@ + e[i as int].1->0));
            },
            None => {},
        }
        i = i + 1;
    }
    assert(e.take(env.len() as int) =~= e);
    let mut rest: Vec<String> = Vec::new();
    let mut j: usize = 0;
    while j < args.len()
        invariant
            j <= args.len(),
            rest.deep_view() =~= args.deep_view().take(j as int),
        decreases args.len() - j,
    {
        let ghost before = rest.deep_view();
        rest.push(args[j].clone());
        assert(rest.deep_view() =~= before.push(args[j as int]@));
        assert(args.deep_view()[j as int] == args[j as int]@);
        assert(args.deep_view().take(j + 1) =~= args.deep_view().take(j as int).push(args[j as int]@));
        j = j + 1;
    }
    assert(args.deep_view().take(args.len() as int) =~= args.deep_view());
    (r, rest)
}

/// What the Linux relaunch came to: launched where `pkexec` was found and
/// started, else the advice to use sudo.
pub fn linux_elevation_outcome(launched: bool) -> (r: Result<bool, String>)
    ensures
        match r {
            Ok(b) => launched && b,
            Err(m) => !launched && m@ == "Root privileges required. Please run with sudo"@,
        },
{
    if launched {
        Ok(true)
    } else {
        Err(owned("Root privileges required. Please run with sudo"))
    }
}

/// The parameters handed to the elevated Windows process: the arguments
/// joined by single spaces.
pub fn windows_parameters(args: &Vec<String>) -> (p: String)
    ensures
        p@ == join(args.deep_view(), " "@),
{
    join_strings(args, " ")
}

/// What `ShellExecuteW` returning `code` means: above 32 the elevated
/// process was launched; else an error naming the code.
pub fn windows_elevation_outcome(code: usize) -> (r: Result<bool, String>)
    ensures
        match r {
            Ok(b) => code > 32 && b,
            Err(m) => code <= 32 && m@ == "Failed to elevate: error code "@ + decimal(code as nat),
        },
{
    if code > 32 {
        Ok(true)
    } else {
        let n = decimal_string(code);
        Err(concat_str("Failed to elevate: error code ", n.as_str()))
    }
}

} // verus!
