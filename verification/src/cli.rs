use vstd::prelude::*;

use crate::ffi::{UNITY_DLP_OK, UNITY_DLP_OK_DEGRADED};

verus! {

broadcast use vstd::string::group_string_axioms;

/// What the command-line tool was asked to do.
pub enum CliCommand {
    /// Print the library version (also the default).
    Version,
    /// Extract metadata for this URL.
    Extract(String),
    /// `extract` without a URL.
    MissingUrl,
    /// Any other command.
    Unknown(String),
}

/// Read the command from the full argument list (program name first).
pub fn parse_command(args: &Vec<String>) -> (r: CliCommand)
    ensures
        args@.len() <= 1 ==> r is Version,
        args@.len() > 1 && args@[1]@ == "version"@ ==> r is Version,
        args@.len() > 2 && args@[1]@ == "extract"@ ==> (r matches CliCommand::Extract(u) && u@
            == args@[2]@),
        args@.len() == 2 && args@[1]@ == "extract"@ ==> r is MissingUrl,
        args@.len() > 1 && args@[1]@ != "version"@ && args@[1]@ != "extract"@ ==> (r matches CliCommand::Unknown(
            c,
        ) && c@ == args@[1]@),
{
    if args.len() <= 1 {
        return CliCommand::Version;
    }
    proof {
        reveal_strlit("version");
        reveal_strlit("extract");
        assert("version"@[0] != "extract"@[0]);
    }
    let version = "version".to_owned();
    let extract = "extract".to_owned();
    if args[1] == version {
        CliCommand::Version
    } else if args[1] == extract {
        if args.len() > 2 {
            CliCommand::Extract(args[2].clone())
        } else {
            CliCommand::MissingUrl
        }
    } else {
        CliCommand::Unknown(args[1].clone())
    }
}

/// Whether init left the library usable, cleanly or degraded.
pub fn init_succeeded(rc: i32) -> (r: bool)
    ensures
        r == (rc == UNITY_DLP_OK || rc == UNITY_DLP_OK_DEGRADED),
{
    rc == UNITY_DLP_OK || rc == UNITY_DLP_OK_DEGRADED
}

/// The buffer size for the retry after a too-small buffer: the required
/// length, or double the current size if that is larger.
pub fn grown_capacity(needed: i32, current: usize) -> (r: usize)
    requires
        needed >= 0,
        current <= usize::MAX / 2,
    ensures
        r == (if needed as int > current * 2 {
            needed as int
        } else {
            current * 2
        }),
        r >= needed,
{
    let doubled = current * 2;
    if needed as usize > doubled {
        needed as usize
    } else {
        doubled
    }
}

} // verus!
