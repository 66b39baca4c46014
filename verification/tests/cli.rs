//! The command line.

use saola_session::cli::exit_status;
use saola_session::cli::Cli;
use saola_session::cli::StopCause;

#[test]
fn no_args_means_run() {
    assert_eq!(Cli::parse(std::iter::empty()), Cli::Run);
}

#[test]
fn version_flag_is_recognized() {
    assert_eq!(
        Cli::parse(std::iter::once("--version".to_string())),
        Cli::Version
    );
    assert_eq!(Cli::parse(std::iter::once("-V".to_string())), Cli::Version);
}

#[test]
fn check_config_flag_is_recognized() {
    assert_eq!(
        Cli::parse(std::iter::once("--check-config".to_string())),
        Cli::CheckConfig
    );
}

#[test]
fn unknown_flag_is_reported_not_silently_run() {
    assert_eq!(
        Cli::parse(std::iter::once("--bogus".to_string())),
        Cli::Unrecognized("--bogus".to_string())
    );
}

#[test]
fn only_the_first_argument_counts() {
    let args = vec!["--check-config".to_string(), "--bogus".to_string()];
    assert_eq!(Cli::parse(args.into_iter()), Cli::CheckConfig);
    assert_eq!(
        Cli::from_first(Some("--Version".to_string())),
        Cli::Unrecognized("--Version".to_string())
    );
}

#[test]
fn the_daemon_logs_more_than_the_other_commands() {
    assert_eq!(Cli::Run.default_log_level(), "info");
    assert_eq!(Cli::CheckConfig.default_log_level(), "warn");
}

#[test]
fn only_a_requested_stop_is_a_success() {
    assert_eq!(exit_status(StopCause::Signalled), 0);
    assert_eq!(exit_status(StopCause::SignalsUnavailable), 1);
    assert_eq!(exit_status(StopCause::TaskEnded), 1);
    assert_eq!(exit_status(StopCause::NotStarted), 1);
}
