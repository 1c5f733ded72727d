//! The headless command line: `-c <command>` and `-p <profile>`, with the
//! `PYAPPIFY_COMMAND` and `PYAPPIFY_PROFILE_NAME` variables as fallbacks.

use vstd::prelude::*;
use crate::text::texts;
use crate::version::opt_text;

verus! {

/// Whether `-c` stands among the arguments after the program name.
pub open spec fn has_c_flag(args: Seq<Seq<char>>) -> bool {
    exists|i: int| 1 <= i < args.len() && args[i] == "-c"@
}

/// The launcher runs headless when `-c` is given or the command variable is set.
pub fn has_cli_command(args: &Vec<String>, command_var_set: bool) -> (r: bool)
    ensures
        r == (has_c_flag(texts(args@)) || command_var_set),
{
    let ghost a = texts(args@);
    let mut i: usize = 1;
    while i < args.len()
        invariant
            a == texts(args@),
            1 <= i,
            i <= args@.len() || args@.len() == 0,
            forall|j: int| 1 <= j < i && j < a.len() ==> a[j] != "-c"@,
        decreases args@.len() - i,
    {
        if crate::text::same_text(args[i].as_str(), "-c") {
            assert(a[i as int] == args@[i as int]@);
            return true;
        }
        assert(a[i as int] == args@[i as int]@);
        i = i + 1;
    }
    command_var_set
}

/// The `-c` and `-p` values, scanning from `i`: a flag takes the next
/// argument (none at the end); later flags replace earlier ones.
pub open spec fn scan_args(
    args: Seq<Seq<char>>,
    i: int,
    command: Option<Seq<char>>,
    profile: Option<Seq<char>>,
) -> (Option<Seq<char>>, Option<Seq<char>>)
    decreases args.len() + 2 - i,
{
    if i < 1 || i >= args.len() {
        (command, profile)
    } else if args[i] == "-c"@ {
        scan_args(args, i + 2, if i + 1 < args.len() { Some(args[i + 1]) } else { None }, profile)
    } else if args[i] == "-p"@ {
        scan_args(args, i + 2, command, if i + 1 < args.len() { Some(args[i + 1]) } else { None })
    } else {
        scan_args(args, i + 1, command, profile)
    }
}

/// A headless request: the command and the profile it names.
pub struct CliRequest {
    pub command: Option<String>,
    pub profile_name: Option<String>,
}

/// The request on the command line, each part falling back to its variable.
pub fn handle_command_line(args: &Vec<String>, command_var: Option<String>, profile_var: Option<String>) -> (r: CliRequest)
    ensures
        ({
            let s = scan_args(texts(args@), 1, None, None);
            &&& opt_text(r.command) == if s.0 is Some { s.0 } else { opt_text(command_var) }
            &&& opt_text(r.profile_name) == if s.1 is Some { s.1 } else { opt_text(profile_var) }
        }),
{
    let ghost a = texts(args@);
    let mut command: Option<String> = None;
    let mut profile: Option<String> = None;
    let mut i: usize = 1;
    while i < args.len()
        invariant
            a == texts(args@),
            a.len() == args@.len(),
            i >= 1,
            scan_args(a, i as int, opt_text(command), opt_text(profile)) == scan_args(a, 1, None, None),
        decreases args@.len() - i,
    {
        assert(a[i as int] == args@[i as int]@);
        if crate::text::same_text(args[i].as_str(), "-c") {
            command = if i + 1 < args.len() {
                assert(a[i + 1] == args@[i + 1]@);
                Some(args[i + 1].clone())
            } else {
                None
            };
            let ghost j = i + 2;
            i = if args.len() - i <= 2 {
                args.len()
            } else {
                i + 2
            };
            assert(scan_args(a, j, opt_text(command), opt_text(profile)) == scan_args(a, i as int, opt_text(command), opt_text(profile)));
        } else if crate::text::same_text(args[i].as_str(), "-p") {
            profile = if i + 1 < args.len() {
                assert(a[i + 1] == args@[i + 1]@);
                Some(args[i + 1].clone())
            } else {
                None
            };
            let ghost j = i + 2;
            i = if args.len() - i <= 2 {
                args.len()
            } else {
                i + 2
            };
            assert(scan_args(a, j, opt_text(command), opt_text(profile)) == scan_args(a, i as int, opt_text(command), opt_text(profile)));
        } else {
            i = i + 1;
        }
    }
    let command = match command {
        Some(c) => Some(c),
        None => command_var,
    };
    let profile_name = match profile {
        Some(p) => Some(p),
        None => profile_var,
    };
    CliRequest { command, profile_name }
}

/// The profile a headless `setup` runs with, where the request is one.
pub fn setup_request(req: &CliRequest) -> (r: Option<String>)
    ensures
        match r {
            Some(p) => opt_text(req.command) == Some("setup"@) && opt_text(req.profile_name) == Some(p@),
            None => !(opt_text(req.command) == Some("setup"@) && req.profile_name is Some),
        },
{
    match (&req.command, &req.profile_name) {
        (Some(c), Some(p)) => {
            if crate::text::same_text(c.as_str(), "setup") {
                Some(p.clone())
            } else {
                None
            }
        },
        _ => None,
    }
}

} // verus!
