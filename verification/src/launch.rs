//! Command-line flags given at start.

use crate::text;
use crate::text::{chars_of, is, strs};
use vstd::prelude::*;

verus! {

/// `args` holds the argument `flag`.
pub open spec fn has_arg(args: Seq<Seq<char>>, flag: Seq<char>) -> bool {
    exists|i: int| 0 <= i < args.len() && args[i] == flag
}

fn any_arg(args: &Vec<String>, flag: &str) -> (res: bool)
    ensures
        res == has_arg(strs(args@), flag@),
{
    let mut i: usize = 0;
    while i < args.len()
        invariant
            i <= args.len(),
            forall|j: int| 0 <= j < i ==> strs(args@)[j] != flag@,
        decreases args.len() - i,
    {
        let a = chars_of(args[i].as_str());
        if is(&a, flag) {
            assert(strs(args@)[i as int] == flag@);
            return true;
        }
        i += 1;
    }
    false
}

/// Started by the scheduled task (autostart with elevated rights, no UAC).
pub fn from_autostart(args: &Vec<String>) -> (res: bool)
    ensures
        res == has_arg(strs(args@), "--from-autostart"@),
{
    any_arg(args, "--from-autostart")
}

/// Started minimized.
pub fn minimized(args: &Vec<String>) -> (res: bool)
    ensures
        res == has_arg(strs(args@), "--minimized"@),
{
    any_arg(args, "--minimized")
}

/// An autostart session: the scheduler passes `--from-autostart` and/or
/// `--minimized`.
pub fn autostart_session(args: &Vec<String>) -> (res: bool)
    ensures
        res == (has_arg(strs(args@), "--from-autostart"@) || has_arg(strs(args@), "--minimized"@)),
{
    from_autostart(args) || minimized(args)
}

} // verus!
