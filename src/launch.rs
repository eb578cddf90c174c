//! How a resolved command is started: a directory change replaces the process
//! with a login shell in the new directory; anything else runs in an
//! interactive child shell whose exit status is passed on.
use vstd::prelude::*;
use vstd::string::StrSliceExecFns;
use crate::text::{trim_of, trimmed};

verus! {

/// How to start a command.
#[derive(Debug, PartialEq, Eq)]
pub enum Launch {
    /// Change to `dir`, then replace the process with a login shell.
    ChangeDir { dir: String },
    /// Run `command` with `<shell> -i -c` and wait for it.
    Spawn { command: String },
}

/// The prefix that marks a directory change: `cd ` with one space.
pub open spec fn cd_prefix() -> Seq<char> {
    seq!['c', 'd', ' ']
}

/// What follows the `cd ` prefix of a trimmed command, if it has that prefix.
pub open spec fn cd_rest_of(t: Seq<char>) -> Option<Seq<char>> {
    if t.len() >= 3 && t.subrange(0, 3) == cd_prefix() {
        Some(t.subrange(3, t.len() as int))
    } else {
        None
    }
}

/// The directory that a command changes to, if it is a directory change:
/// the trimmed command starts with `cd ` and the rest, trimmed, is not empty.
pub open spec fn cd_target(command: Seq<char>) -> Option<Seq<char>> {
    match cd_rest_of(trim_of(command)) {
        Some(rest) => if trim_of(rest).len() > 0 {
            Some(trim_of(rest))
        } else {
            None
        },
        None => None,
    }
}

/// The part of a trimmed command after a leading `cd `, if it starts so.
pub fn cd_rest(t: &str) -> (r: Option<&str>)
    ensures
        match cd_rest_of(t@) {
            Some(rest) => r matches Some(x) && x@ == rest,
            None => r is None,
        },
{
    let n = t.unicode_len();
    if n >= 3 && t.get_char(0) == 'c' && t.get_char(1) == 'd' && t.get_char(2) == ' ' {
        assert(t@.subrange(0, 3) =~= cd_prefix());
        Some(t.substring_char(3, n))
    } else {
        assert(!(t@.len() >= 3 && t@.subrange(0, 3) == cd_prefix())) by {
            if t@.len() >= 3 && t@.subrange(0, 3) == cd_prefix() {
                assert(t@[0] == t@.subrange(0, 3)[0]);
                assert(t@[1] == t@.subrange(0, 3)[1]);
                assert(t@[2] == t@.subrange(0, 3)[2]);
            }
        }
        None
    }
}

/// Builds the launch for `command` from the trimmed argument of its `cd`
/// prefix: a directory change where there is a non-empty one, else the
/// command runs as given, untrimmed.
pub fn launch_from(command: &str, dir: Option<&str>) -> (r: Launch)
    ensures
        match dir {
            Some(d) => if d@.len() > 0 {
                r matches Launch::ChangeDir { dir: x } && x@ == d@
            } else {
                r matches Launch::Spawn { command: c } && c@ == command@
            },
            None => r matches Launch::Spawn { command: c } && c@ == command@,
        },
{
    match dir {
        Some(d) => {
            if d.unicode_len() > 0 {
                return Launch::ChangeDir { dir: d.to_owned() };
            }
        },
        None => {},
    }
    Launch::Spawn { command: command.to_owned() }
}

/// Decides how to start `command`. A command that is not a directory change,
/// a bare `cd` among them, runs as given, untrimmed.
pub fn plan_launch(command: &str) -> (r: Launch)
    ensures
        match cd_target(command@) {
            Some(dir) => r matches Launch::ChangeDir { dir: d } && d@ == dir,
            None => r matches Launch::Spawn { command: c } && c@ == command@,
        },
{
    match cd_rest(trimmed(command)) {
        Some(rest) => launch_from(command, Some(trimmed(rest))),
        None => launch_from(command, None),
    }
}

/// The shell used where none is configured.
pub open spec fn default_shell() -> Seq<char> {
    seq!['/', 'b', 'i', 'n', '/', 's', 'h']
}

/// The user's shell, or `/bin/sh` where none is configured.
pub fn shell_or_default(shell: Option<String>) -> (r: String)
    ensures
        r@ == (match shell {
            Some(s) => s@,
            None => default_shell(),
        }),
{
    match shell {
        Some(s) => s,
        None => {
            proof {
                reveal_strlit("/bin/sh");
            }
            assert("/bin/sh"@ =~= default_shell());
            "/bin/sh".to_owned()
        },
    }
}

/// The exit status to pass on from a child shell: its own code, or 1 where
/// it has none (it was ended by a signal).
pub fn exit_code(code: Option<i32>) -> (r: i32)
    ensures
        r == (match code {
            Some(c) => c,
            None => 1,
        }),
{
    match code {
        Some(c) => c,
        None => 1,
    }
}

} // verus!
