//! The commands of the shell and their models.

use vstd::prelude::*;

verus! {

/// A parsed shell command.
#[derive(Debug, Clone, PartialEq, Eq)]
pub enum Command {
    Help,
    Exit,
    Pwd,
    Ls { target: Option<RemoteSpec> },
    Cd { target: String },
    Mkdir { target: RemoteSpec },
    Put { local: String, remote: Option<RemoteSpec>, recursive: bool },
    Get { remote: RemoteSpec, local: Option<String>, recursive: bool },
    Rm { remote: RemoteSpec, recursive: bool, yes: bool },
    Shell { command: String },
}

/// A remote location named on the command line.
#[derive(Debug, Clone, PartialEq, Eq)]
pub enum RemoteSpec {
    /// A path in the current bucket.
    Path(String),
    /// A path in the bucket of a named profile (`<profile>:/path`).
    ProfilePath { profile: String, path: String },
    /// Noninteractive `ls <name>` when the token has no `:`; resolved when the command runs.
    BareLsTarget(String),
}

/// Whether a command comes from the interactive shell or the command line.
#[derive(Debug, Clone, Copy, PartialEq, Eq, Structural)]
pub enum ExecMode {
    Interactive,
    NonInteractive,
}

/// What the shell does after a command.
#[derive(Debug, Clone, Copy, PartialEq, Eq, Structural)]
pub enum ExecOutcome {
    Continue,
    ExitRepl,
    ExitCode(i32),
}

/// The model of [`RemoteSpec`].
pub ghost enum RemoteSpecModel {
    Path(Seq<char>),
    ProfilePath { profile: Seq<char>, path: Seq<char> },
    BareLsTarget(Seq<char>),
}

/// The model of [`Command`].
#[allow(inconsistent_fields)]
pub ghost enum CommandModel {
    Help,
    Exit,
    Pwd,
    Ls { target: Option<RemoteSpecModel> },
    Cd { target: Seq<char> },
    Mkdir { target: RemoteSpecModel },
    Put { local: Seq<char>, remote: Option<RemoteSpecModel>, recursive: bool },
    Get { remote: RemoteSpecModel, local: Option<Seq<char>>, recursive: bool },
    Rm { remote: RemoteSpecModel, recursive: bool, yes: bool },
    Shell { command: Seq<char> },
}

impl View for RemoteSpec {
    type V = RemoteSpecModel;

    open spec fn view(&self) -> RemoteSpecModel {
        match self {
            RemoteSpec::Path(p) => RemoteSpecModel::Path(p@),
            RemoteSpec::ProfilePath { profile, path } => RemoteSpecModel::ProfilePath {
                profile: profile@,
                path: path@,
            },
            RemoteSpec::BareLsTarget(t) => RemoteSpecModel::BareLsTarget(t@),
        }
    }
}

/// The model of an optional remote target.
pub open spec fn opt_spec_view(s: Option<RemoteSpec>) -> Option<RemoteSpecModel> {
    match s {
        Some(s) => Some(s@),
        None => None,
    }
}

/// The model of an optional string.
pub open spec fn opt_str_view(s: Option<String>) -> Option<Seq<char>> {
    match s {
        Some(s) => Some(s@),
        None => None,
    }
}

impl View for Command {
    type V = CommandModel;

    open spec fn view(&self) -> CommandModel {
        match self {
            Command::Help => CommandModel::Help,
            Command::Exit => CommandModel::Exit,
            Command::Pwd => CommandModel::Pwd,
            Command::Ls { target } => CommandModel::Ls { target: opt_spec_view(*target) },
            Command::Cd { target } => CommandModel::Cd { target: target@ },
            Command::Mkdir { target } => CommandModel::Mkdir { target: target@ },
            Command::Put { local, remote, recursive } => CommandModel::Put {
                local: local@,
                remote: opt_spec_view(*remote),
                recursive: *recursive,
            },
            Command::Get { remote, local, recursive } => CommandModel::Get {
                remote: remote@,
                local: opt_str_view(*local),
                recursive: *recursive,
            },
            Command::Rm { remote, recursive, yes } => CommandModel::Rm {
                remote: remote@,
                recursive: *recursive,
                yes: *yes,
            },
            Command::Shell { command } => CommandModel::Shell { command: command@ },
        }
    }
}

} // verus!
