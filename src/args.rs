use vstd::prelude::*;

verus! {

#[derive(Clone, Copy, PartialEq, Eq, Structural, Debug)]
pub enum LogLevel {
    Default,
    Verbose,
}

/// Command-line options.
#[derive(Clone, Copy, PartialEq, Eq, Structural, Debug)]
pub struct Args {
    /// Wait for a key before the program exits.
    pub wait_to_exit: bool,
    pub log_level: LogLevel,
    pub continue_on_error: bool,
}

/// Whether some argument equals `flag`.
pub open spec fn has_flag(args: Seq<String>, flag: Seq<char>) -> bool {
    exists|i: int| 0 <= i < args.len() && args[i]@ == flag
}

fn find_flag(args: &Vec<String>, flag: &str) -> (r: bool)
    ensures
        r == has_flag(args@, flag@),
{
    let wanted = String::from_str(flag);
    let mut i: usize = 0;
    while i < args.len()
        invariant
            i <= args@.len(),
            wanted@ == flag@,
            forall|k: int| 0 <= k < i ==> args@[k]@ != flag@,
        decreases args@.len() - i,
    {
        if args[i] == wanted {
            return true;
        }
        i = i + 1;
    }
    false
}

/// The options named by `args`: `--wait-to-exit`, `--verbose` and
/// `--continue-on-error`; any other argument is ignored.
pub fn check_arguments(args: &Vec<String>) -> (r: Args)
    ensures
        r.wait_to_exit == has_flag(args@, "--wait-to-exit"@),
        r.log_level == (if has_flag(args@, "--verbose"@) { LogLevel::Verbose } else { LogLevel::Default }),
        r.continue_on_error == has_flag(args@, "--continue-on-error"@),
{
    let verbose = find_flag(args, "--verbose");
    Args {
        wait_to_exit: find_flag(args, "--wait-to-exit"),
        log_level: if verbose { LogLevel::Verbose } else { LogLevel::Default },
        continue_on_error: find_flag(args, "--continue-on-error"),
    }
}

} // verus!
