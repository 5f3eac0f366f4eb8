//! The shell commands run on the docker host for a project, and how their
//! failures become project errors.

use vstd::prelude::*;
use crate::container::{container_ids, container_ids_of};

verus! {

/// The compose invocation used when a project names none of its own.
pub open spec fn default_command() -> Seq<char> {
    "docker compose"@
}

/// The compose invocation for a project: its own where it has one.
pub open spec fn compose_command_text(custom: Option<Seq<char>>) -> Seq<char> {
    match custom {
        Some(c) => c,
        None => default_command(),
    }
}

/// The compose invocation for a project with the optional `custom` one.
pub fn compose_command(custom: &Option<String>) -> (c: String)
    ensures
        c@ == compose_command_text(
            match custom {
                Some(s) => Some(s@),
                None => None,
            },
        ),
{
    proof {
        reveal_strlit("docker compose");
    }
    match custom {
        Some(s) => s.clone(),
        None => "docker compose".to_owned(),
    }
}

/// `command` followed by `suffix`.
fn with_suffix(command: &str, suffix: &str) -> (c: String)
    ensures
        c@ == command@ + suffix@,
{
    let mut c = command.to_owned();
    c.append(suffix);
    c
}

/// The command that brings the project up in the background.
pub fn up_command(command: &str) -> (c: String)
    ensures
        c@ == command@ + " up -d"@,
{
    with_suffix(command, " up -d")
}

/// The command that stops and removes the project's containers.
pub fn down_command(command: &str) -> (c: String)
    ensures
        c@ == command@ + " down"@,
{
    with_suffix(command, " down")
}

/// The command that lists the ids of the project's containers.
pub fn ps_command(command: &str) -> (c: String)
    ensures
        c@ == command@ + " ps -q"@,
{
    with_suffix(command, " ps -q")
}

/// The text of the command run on the host: `command`, run in the
/// project's directory `dir` under `projects_dir`.
pub open spec fn remote_command_text(projects_dir: Seq<char>, dir: Seq<char>, command: Seq<char>) -> Seq<char> {
    "cd "@ + projects_dir + "/"@ + dir + " && "@ + command
}

/// The command line sent over the ssh channel.
pub fn remote_command(projects_dir: &str, dir: &str, command: &str) -> (c: String)
    ensures
        c@ == remote_command_text(projects_dir@, dir@, command@),
{
    let mut c = "cd ".to_owned();
    c.append(projects_dir);
    c.append("/");
    c.append(dir);
    c.append(" && ");
    c.append(command);
    c
}

/// Why running a command on the host failed.
#[derive(Debug, Clone, Copy, PartialEq, Eq, Structural)]
pub enum ExecError {
    /// No channel could be opened on the ssh session.
    ChannelOpen,
    /// The command could not be started.
    Exec,
    /// The command's output could not be read as text.
    ReadOutput,
}

impl ExecError {
    pub open spec fn message_text(&self) -> Seq<char> {
        match self {
            ExecError::ChannelOpen => "Could not open session channel"@,
            ExecError::Exec => "Could not execute command"@,
            ExecError::ReadOutput => "could not read command output to string"@,
        }
    }

    /// The message that the failure is reported with.
    pub fn message(&self) -> (m: &'static str)
        ensures
            m@ == self.message_text(),
    {
        match self {
            ExecError::ChannelOpen => "Could not open session channel",
            ExecError::Exec => "Could not execute command",
            ExecError::ReadOutput => "could not read command output to string",
        }
    }
}

/// Why an operation on a compose project failed; each carries the
/// underlying message.
#[derive(Debug, Clone)]
pub enum ProjectError {
    StartError(String),
    StopError(String),
    ListError(String),
    InspectError(String),
}

impl ProjectError {
    pub open spec fn message_text(&self) -> Seq<char> {
        match self {
            ProjectError::StartError(s) => "Could not start compose project: "@ + s@,
            ProjectError::StopError(s) => "Could not stop compose project: "@ + s@,
            ProjectError::ListError(s) => "Could not list project containers: "@ + s@,
            ProjectError::InspectError(s) => "Could not inspect container: "@ + s@,
        }
    }

    /// The message that the error is reported with.
    pub fn message(&self) -> (m: String)
        ensures
            m@ == self.message_text(),
    {
        match self {
            ProjectError::StartError(s) => with_suffix("Could not start compose project: ", s.as_str()),
            ProjectError::StopError(s) => with_suffix("Could not stop compose project: ", s.as_str()),
            ProjectError::ListError(s) => with_suffix("Could not list project containers: ", s.as_str()),
            ProjectError::InspectError(s) => with_suffix("Could not inspect container: ", s.as_str()),
        }
    }
}

/// What follows a successful attempt to bring a project up.
#[derive(Debug, Clone, Copy, PartialEq, Eq, Structural)]
pub enum StartOutcome {
    /// The up command ran.
    Started,
    /// The ssh session could not open a channel: it is to be replaced, and
    /// the attempt counts as done.
    Reconnect,
}

/// The result of bringing a project up, given what running the up command gave.
pub fn start_outcome(r: &Result<String, ExecError>) -> (o: Result<StartOutcome, ProjectError>)
    ensures
        match r {
            Ok(_) => o == Ok::<StartOutcome, ProjectError>(StartOutcome::Started),
            Err(ExecError::ChannelOpen) => o == Ok::<StartOutcome, ProjectError>(StartOutcome::Reconnect),
            Err(e) => o matches Err(ProjectError::StartError(m)) && m@ == e.message_text(),
        },
{
    match r {
        Ok(_) => Ok(StartOutcome::Started),
        Err(ExecError::ChannelOpen) => Ok(StartOutcome::Reconnect),
        Err(e) => Err(ProjectError::StartError(e.message().to_owned())),
    }
}

/// The result of stopping a project, given what running the down command gave.
pub fn stop_outcome(r: &Result<String, ExecError>) -> (o: Result<(), ProjectError>)
    ensures
        match r {
            Ok(_) => o is Ok,
            Err(e) => o matches Err(ProjectError::StopError(m)) && m@ == e.message_text(),
        },
{
    match r {
        Ok(_) => Ok(()),
        Err(e) => Err(ProjectError::StopError(e.message().to_owned())),
    }
}

/// The ids of a project's containers, given what running the ps command gave.
pub fn list_outcome(r: &Result<String, ExecError>) -> (o: Result<Vec<String>, ProjectError>)
    ensures
        match r {
            Ok(out) => o matches Ok(ids) && ids@.map_values(|x: String| x@) == container_ids_of(out@),
            Err(e) => o matches Err(ProjectError::ListError(m)) && m@ == e.message_text(),
        },
{
    match r {
        Ok(out) => Ok(container_ids(out.as_str())),
        Err(e) => Err(ProjectError::ListError(e.message().to_owned())),
    }
}

} // verus!
