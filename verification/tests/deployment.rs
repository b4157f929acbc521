use ferrum::deploy::{after_copy, after_launch, deploy_start, CommandOutcome, DeployReport, DeployStart};

#[test]
fn deployment_needs_user_and_host() {
    assert_eq!(deploy_start("", "pi.local", true), DeployStart::MissingTarget);
    assert_eq!(deploy_start("pi", "", false), DeployStart::MissingTarget);
    assert_eq!(deploy_start("", "", true), DeployStart::MissingTarget);
}

#[test]
fn a_local_build_is_copied_first() {
    assert_eq!(deploy_start("pi", "pi.local", true), DeployStart::CopyFirst);
    assert_eq!(deploy_start("pi", "pi.local", false), DeployStart::UseDeployed);
}

#[test]
fn a_failed_copy_ends_the_deployment() {
    assert_eq!(after_copy(CommandOutcome::Succeeded), None);
    assert_eq!(after_copy(CommandOutcome::Failed), Some(DeployReport::CopyFailed));
    assert_eq!(after_copy(CommandOutcome::Unavailable), Some(DeployReport::CopyUnavailable));
}

#[test]
fn the_launch_outcome_is_reported() {
    assert_eq!(after_launch(CommandOutcome::Succeeded), DeployReport::Launched);
    assert_eq!(after_launch(CommandOutcome::Failed), DeployReport::LaunchFailed);
    assert_eq!(after_launch(CommandOutcome::Unavailable), DeployReport::LaunchUnavailable);
}
