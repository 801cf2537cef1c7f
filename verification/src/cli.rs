//! The command line of the program and what it starts.

use vstd::prelude::*;

use crate::dispatch::{is_command_token, spec_is_command_token};
use crate::text::{chars_eq_str, strings_view, to_chars};

verus! {

/// The parsed command line: `bucketctl [-c <PATH>] [PROFILE]` or
/// `bucketctl [-c <PATH>] <COMMAND> ...`.
#[derive(Debug, Clone)]
pub struct Cli {
    /// `-c`, `--config`: the config file to use.
    pub config: Option<String>,
    /// `-v`, `--version`.
    pub version: bool,
    /// `-h`, `--help`.
    pub help: bool,
    /// Everything after the options.
    pub args: Vec<String>,
}

/// What the program does with its command line.
#[derive(Debug, Clone, Copy, PartialEq, Eq, Structural)]
pub enum Startup {
    /// Print the help.
    Help,
    /// Print the version.
    Version,
    /// Write a starter config file (`init`), overwriting with `--force`.
    Init { force: bool },
    /// No arguments: offer the profiles and open the shell on the one chosen.
    ChooseProfile,
    /// Run one command, with the default profile attached where there is one.
    RunCommand,
    /// A lone profile name: open the shell on that profile.
    OpenProfile,
    /// Anything else is refused: commands come first.
    Reject,
}

/// What the program does with its command line: `init` writes a config
/// file, no arguments offer the profiles, a command runs, and a lone
/// profile name opens the shell on it.
pub open spec fn spec_startup(help: bool, version: bool, args: Seq<Seq<char>>) -> Startup {
    if help {
        Startup::Help
    } else if version {
        Startup::Version
    } else if args.len() > 0 && args[0] == "init"@ {
        Startup::Init { force: args.contains("--force"@) }
    } else if args.len() == 0 {
        Startup::ChooseProfile
    } else if spec_is_command_token(args[0]) {
        Startup::RunCommand
    } else if args.len() == 1 {
        Startup::OpenProfile
    } else {
        Startup::Reject
    }
}

/// What the program does with its command line.
pub fn startup_action(cli: &Cli) -> (r: Startup)
    ensures
        r == spec_startup(cli.help, cli.version, strings_view(cli.args@)),
{
    if cli.help {
        return Startup::Help;
    }
    if cli.version {
        return Startup::Version;
    }
    let ghost args = strings_view(cli.args@);
    if cli.args.len() > 0 && chars_eq_str(&to_chars(cli.args[0].as_str()), "init") {
        let mut force = false;
        let mut i: usize = 0;
        while i < cli.args.len()
            invariant
                i <= cli.args@.len(),
                args == strings_view(cli.args@),
                force == args.take(i as int).contains("--force"@),
            decreases cli.args@.len() - i,
        {
            let hit = chars_eq_str(&to_chars(cli.args[i].as_str()), "--force");
            proof {
                let t = args.take(i as int);
                let u = args.take(i + 1);
                assert(u =~= t.push(args[i as int]));
                if hit {
                    assert(u[i as int] == "--force"@);
                }
                if u.contains("--force"@) && !t.contains("--force"@) {
                    let k = choose|k: int| 0 <= k < u.len() && u[k] == "--force"@;
                    if k < i {
                        assert(t[k] == "--force"@);
                    }
                }
                if t.contains("--force"@) {
                    let k = choose|k: int| 0 <= k < t.len() && t[k] == "--force"@;
                    assert(u[k] == "--force"@);
                }
            }
            force = force || hit;
            i = i + 1;
        }
        proof {
            assert(args.take(args.len() as int) =~= args);
        }
        return Startup::Init { force };
    }
    if cli.args.len() == 0 {
        return Startup::ChooseProfile;
    }
    if is_command_token(cli.args[0].as_str()) {
        Startup::RunCommand
    } else if cli.args.len() == 1 {
        Startup::OpenProfile
    } else {
        Startup::Reject
    }
}

} // verus!
