//! The command line, and how the daemon ends.

use vstd::prelude::*;
use vstd::std_specs::iter::IteratorSpec;

verus! {

/// What the command line asks for.
#[derive(Debug, PartialEq, Eq)]
pub enum Cli {
    /// To run the daemon.
    Run,
    /// To say which version this is.
    Version,
    /// To say what the configuration comes to.
    CheckConfig,
    /// Something that is not known.
    Unrecognized(String),
}

/// What the first argument asks for; `None` where there is none.
pub open spec fn asked_for(first: Option<String>) -> Cli {
    match first {
        None => Cli::Run,
        Some(arg) => if arg@ == "--version"@ || arg@ == "-V"@ {
            Cli::Version
        } else if arg@ == "--check-config"@ {
            Cli::CheckConfig
        } else {
            Cli::Unrecognized(arg)
        },
    }
}

impl Cli {
    /// What the arguments, without the program's name, ask for. Only the first
    /// one counts.
    pub fn parse<I: Iterator<Item = String>>(mut args: I) -> (r: Cli)
        ensures
            args.obeys_prophetic_iter_laws() ==> r == asked_for(
                if args.remaining().len() > 0 {
                    Some(args.remaining()[0])
                } else {
                    None
                },
            ),
    {
        Cli::from_first(args.next())
    }

    /// What the first argument asks for.
    pub fn from_first(first: Option<String>) -> (r: Cli)
        ensures
            r == asked_for(first),
    {
        match first {
            None => Cli::Run,
            Some(arg) => {
                if arg == "--version".to_owned() || arg == "-V".to_owned() {
                    Cli::Version
                } else if arg == "--check-config".to_owned() {
                    Cli::CheckConfig
                } else {
                    Cli::Unrecognized(arg)
                }
            },
        }
    }

    /// How much is logged unless the environment says otherwise.
    pub fn default_log_level(&self) -> (r: &'static str)
        ensures
            r@ == if *self is Run {
                "info"@
            } else {
                "warn"@
            },
    {
        match self {
            Cli::Run => "info",
            _ => "warn",
        }
    }
}

/// Why the daemon stops.
#[derive(Debug, Clone, Copy, PartialEq, Eq, Structural)]
pub enum StopCause {
    /// It was asked to.
    Signalled,
    /// It could not make itself heed such a request.
    SignalsUnavailable,
    /// One of its tasks ended, and it must not go on without it.
    TaskEnded,
    /// It could not even begin.
    NotStarted,
}

/// The exit status with which the daemon stops. Whatever it was not asked for is
/// a failure, so that it is started anew.
pub fn exit_status(cause: StopCause) -> (r: u8)
    ensures
        r == if cause == StopCause::Signalled {
            0u8
        } else {
            1u8
        },
{
    match cause {
        StopCause::Signalled => 0,
        _ => 1,
    }
}

/// What is asked for is told by the first argument, which has to be just one of
/// the known ones; any other is handed back as it is.
pub proof fn law_arguments_are_taken_as_they_are(arg: String)
    ensures
        asked_for(None) is Run,
        !(asked_for(Some(arg)) is Run),
        asked_for(Some(arg)) is Version <==> arg@ == "--version"@ || arg@ == "-V"@,
        asked_for(Some(arg)) is CheckConfig <==> arg@ == "--check-config"@,
        asked_for(Some(arg)) matches Cli::Unrecognized(other) ==> other == arg,
{
    reveal_strlit("--version");
    reveal_strlit("-V");
    reveal_strlit("--check-config");
    assert("--version"@.len() != "--check-config"@.len());
    assert("-V"@.len() != "--check-config"@.len());
}

} // verus!
