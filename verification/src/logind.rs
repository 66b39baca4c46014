//! What the daemon makes of logind's answers.

use crate::duration::Duration;
use vstd::prelude::*;

verus! {

/// A request to logind that failed.
#[derive(Debug)]
pub struct LogindError {
    message: String,
}

impl View for LogindError {
    type V = Seq<char>;

    closed spec fn view(&self) -> Seq<char> {
        self.message@
    }
}

impl LogindError {
    pub fn new(message: &str) -> (r: LogindError)
        ensures
            r@ == message@,
    {
        LogindError { message: message.to_owned() }
    }

    /// What went wrong, in words.
    pub fn message(&self) -> (r: &str)
        ensures
            r@ == self@,
    {
        self.message.as_str()
    }
}

/// How long a lock is waited for, in milliseconds, where logind's own limit
/// leaves room for it or is not known.
pub const DEFAULT_CONFIRMATION_DEADLINE_MS: u64 = 4_000;

/// How long a lock is waited for: four fifths of the time `inhibit_delay_max`
/// that logind grants, so that the inhibitor is let go of before logind gives
/// up on it, and never more than the default.
pub open spec fn deadline_under(inhibit_delay_max: Option<Duration>) -> Duration {
    let most = Duration::from_millis(DEFAULT_CONFIRMATION_DEADLINE_MS);
    match inhibit_delay_max {
        None => most,
        Some(max) => if max.nanos * 4 / 5 <= most.nanos {
            Duration { nanos: (max.nanos * 4 / 5) as u128 }
        } else {
            most
        },
    }
}

/// How long a lock is waited for, where logind grants `inhibit_delay_max`, or
/// will not say.
pub fn confirmation_deadline(inhibit_delay_max: Option<Duration>) -> (r: Duration)
    ensures
        r == deadline_under(inhibit_delay_max),
{
    let most = Duration::from_millis(DEFAULT_CONFIRMATION_DEADLINE_MS);
    match inhibit_delay_max {
        None => most,
        Some(max) => match max.nanos.checked_mul(4) {
            None => most,
            Some(budget) => {
                if budget / 5 <= most.nanos {
                    Duration { nanos: budget / 5 }
                } else {
                    most
                }
            },
        },
    }
}

/// Where logind will not say what it grants, a lock is waited for four seconds;
/// and where it says, four fifths of that, to the nanosecond and rounded down, or
/// four seconds where that is more.
pub proof fn law_deadline_is_four_fifths_or_four_seconds(max: Duration)
    ensures
        deadline_under(None).nanos == 4_000_000_000,
        max.nanos >= 5_000_000_000 ==> deadline_under(Some(max)).nanos == 4_000_000_000,
        max.nanos < 5_000_000_000 ==> 5 * deadline_under(Some(max)).nanos <= 4 * max.nanos < 5 * (
        deadline_under(Some(max)).nanos + 1),
{
}

/// A longer grant never makes for a shorter wait.
pub proof fn law_deadline_grows_with_the_cap(max: Duration, more: Duration)
    requires
        max.nanos <= more.nanos,
    ensures
        deadline_under(Some(max)).nanos <= deadline_under(Some(more)).nanos,
{
}

/// The wait for a lock is at most the default, and takes at most four fifths of
/// what logind grants; a fifth is left to let the suspend go on in time.
pub proof fn law_deadline_stays_under_the_cap(max: Duration)
    ensures
        deadline_under(Some(max)).nanos <= 4_000_000_000,
        deadline_under(Some(max)).nanos * 5 <= max.nanos * 4,
        max.nanos > 0 ==> deadline_under(Some(max)).nanos < max.nanos,
{
}

/// A way to find the session that the daemon belongs to.
#[derive(Debug)]
pub enum SessionQuery {
    /// By the id of a session.
    ById(String),
    /// By the id of the daemon's own process.
    ByPid,
    /// As the graphical session of the daemon's user.
    UserDisplay,
}

/// How the search for the session goes on.
#[derive(Debug)]
pub enum SessionSearch {
    /// This is its object path.
    Found(String),
    /// It has to be looked for in this way.
    Ask(SessionQuery),
    /// It cannot be found.
    Failed(LogindError),
}

impl SessionQuery {
    /// Where to begin, where the environment gives `xdg_session_id` as the id of
    /// the session. An empty id is none.
    pub fn first(xdg_session_id: Option<String>) -> (r: SessionQuery)
        ensures
            match xdg_session_id {
                Some(id) => if id@.len() > 0 {
                    r == SessionQuery::ById(id)
                } else {
                    r is ByPid
                },
                None => r is ByPid,
            },
    {
        match xdg_session_id {
            Some(id) => {
                if id.as_str().is_empty() {
                    SessionQuery::ByPid
                } else {
                    SessionQuery::ById(id)
                }
            },
            None => SessionQuery::ByPid,
        }
    }

    /// How the search goes on after `answer`. The graphical session is the last
    /// resort, and `/` is logind's way to say that there is none.
    pub fn answered(&self, answer: Result<String, LogindError>) -> (r: SessionSearch)
        ensures
            match (*self, answer) {
                (SessionQuery::UserDisplay, Ok(path)) => if path@ == "/"@ {
                    r matches SessionSearch::Failed(err) && err@
                        == "the logind user has no display session (is this a graphical login?)"@
                } else {
                    r == SessionSearch::Found(path)
                },
                (_, Ok(path)) => r == SessionSearch::Found(path),
                (SessionQuery::ById(_), Err(_)) => r == SessionSearch::Ask(SessionQuery::ByPid),
                (SessionQuery::ByPid, Err(_)) => r == SessionSearch::Ask(SessionQuery::UserDisplay),
                (SessionQuery::UserDisplay, Err(err)) => r == SessionSearch::Failed(err),
            },
    {
        match self {
            SessionQuery::ById(_) => match answer {
                Ok(path) => SessionSearch::Found(path),
                Err(_) => SessionSearch::Ask(SessionQuery::ByPid),
            },
            SessionQuery::ByPid => match answer {
                Ok(path) => SessionSearch::Found(path),
                Err(_) => SessionSearch::Ask(SessionQuery::UserDisplay),
            },
            SessionQuery::UserDisplay => match answer {
                Ok(path) => {
                    if path == "/".to_owned() {
                        SessionSearch::Failed(
                            LogindError::new(
                                "the logind user has no display session (is this a graphical login?)",
                            ),
                        )
                    } else {
                        SessionSearch::Found(path)
                    }
                },
                Err(err) => SessionSearch::Failed(err),
            },
        }
    }
}

} // verus!
