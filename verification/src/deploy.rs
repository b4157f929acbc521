//! Decisions of deploying the firmware to the Raspberry Pi from the control
//! panel: whether a target is known, whether a local build is copied first,
//! and what each command's outcome means for the deployment.
use vstd::prelude::*;
use vstd::string::StrSliceExecFns;

verus! {

/// How a deployment begins.
#[derive(Clone, Copy, Debug, PartialEq, Eq, Structural)]
pub enum DeployStart {
    /// The user or the host of the Pi is missing: nothing is run.
    MissingTarget,
    /// A local build exists: copy it (scp), then launch it (ssh).
    CopyFirst,
    /// No local build: launch the binary already on the Pi (ssh).
    UseDeployed,
}

/// How a remote command ended.
#[derive(Clone, Copy, Debug, PartialEq, Eq, Structural)]
pub enum CommandOutcome {
    /// It ran and exited successfully.
    Succeeded,
    /// It ran and failed (its error output is reported).
    Failed,
    /// It could not be started at all.
    Unavailable,
}

/// Final state of a deployment that ran at least one command.
#[derive(Clone, Copy, Debug, PartialEq, Eq, Structural)]
pub enum DeployReport {
    CopyFailed,
    CopyUnavailable,
    Launched,
    LaunchFailed,
    LaunchUnavailable,
}

/// How a deployment toward `user@host` begins.
pub open spec fn deploy_start_spec(user: Seq<char>, host: Seq<char>, binary_present: bool) -> DeployStart {
    if user.len() == 0 || host.len() == 0 {
        DeployStart::MissingTarget
    } else if binary_present {
        DeployStart::CopyFirst
    } else {
        DeployStart::UseDeployed
    }
}

/// Decides how a deployment toward `user@host` begins, given whether a local
/// build of the firmware exists.
pub fn deploy_start(user: &str, host: &str, binary_present: bool) -> (start: DeployStart)
    ensures
        start == deploy_start_spec(user@, host@, binary_present),
{
    if user.unicode_len() == 0 || host.unicode_len() == 0 {
        DeployStart::MissingTarget
    } else if binary_present {
        DeployStart::CopyFirst
    } else {
        DeployStart::UseDeployed
    }
}

/// After the copy: `None` goes on to the launch, `Some` ends the deployment.
pub fn after_copy(outcome: CommandOutcome) -> (report: Option<DeployReport>)
    ensures
        report == match outcome {
            CommandOutcome::Succeeded => None,
            CommandOutcome::Failed => Some(DeployReport::CopyFailed),
            CommandOutcome::Unavailable => Some(DeployReport::CopyUnavailable),
        },
{
    match outcome {
        CommandOutcome::Succeeded => None,
        CommandOutcome::Failed => Some(DeployReport::CopyFailed),
        CommandOutcome::Unavailable => Some(DeployReport::CopyUnavailable),
    }
}

/// After the launch: the deployment ends with its outcome.
pub fn after_launch(outcome: CommandOutcome) -> (report: DeployReport)
    ensures
        report == match outcome {
            CommandOutcome::Succeeded => DeployReport::Launched,
            CommandOutcome::Failed => DeployReport::LaunchFailed,
            CommandOutcome::Unavailable => DeployReport::LaunchUnavailable,
        },
{
    match outcome {
        CommandOutcome::Succeeded => DeployReport::Launched,
        CommandOutcome::Failed => DeployReport::LaunchFailed,
        CommandOutcome::Unavailable => DeployReport::LaunchUnavailable,
    }
}

} // verus!
