//! Starting the screen locker, at most once per lock.
//!
//! Everything that wants the session locked goes through one
//! [`SessionLocker`]. It says whether a locker has to be started, from what
//! logind reports of the session and from when a locker was last started; the
//! caller reads the report, starts the process, and tells it what came of that.

use crate::duration::Duration;
use crate::logind::LogindError;
use crate::text::split_words;
use crate::text::texts;
use crate::text::words;
use vstd::prelude::*;

verus! {

/// How long after a start, in milliseconds, logind may still report a session
/// as unlocked because the locker has not got that far yet. No second locker is
/// started in that time.
pub const LOCK_SETTLE_GRACE_MS: u64 = 4_000;

/// Why the locker could not be started.
#[derive(Debug)]
pub struct SpawnError {
    message: String,
}

impl View for SpawnError {
    type V = Seq<char>;

    closed spec fn view(&self) -> Seq<char> {
        self.message@
    }
}

impl SpawnError {
    pub fn new(message: &str) -> (r: SpawnError)
        ensures
            r@ == message@,
    {
        SpawnError { message: message.to_owned() }
    }

    /// What went wrong, in words.
    pub fn message(&self) -> (r: &str)
        ensures
            r@ == self@,
    {
        self.message.as_str()
    }
}

/// What asks for the session to be locked.
#[derive(Debug, Clone, Copy, PartialEq, Eq, Structural)]
pub enum LockTrigger {
    /// The system is about to sleep.
    BeforeSleep,
    /// logind asked for it (`loginctl lock-session`).
    LogindLockSignal,
    /// The session has been idle for the configured time.
    IdleTimeout,
}

impl LockTrigger {
    /// The trigger's name in log lines.
    pub fn as_str(&self) -> (r: &'static str)
        ensures
            r@ == match *self {
                LockTrigger::BeforeSleep => "before-sleep"@,
                LockTrigger::LogindLockSignal => "logind Lock signal"@,
                LockTrigger::IdleTimeout => "idle timeout"@,
            },
    {
        match self {
            LockTrigger::BeforeSleep => "before-sleep",
            LockTrigger::LogindLockSignal => "logind Lock signal",
            LockTrigger::IdleTimeout => "idle timeout",
        }
    }
}

/// What came of a request to lock the session.
#[derive(Debug, Clone, Copy, PartialEq, Eq, Structural)]
pub enum LockAttempt {
    /// It was locked already.
    AlreadyLocked,
    /// A locker was started a moment ago, and may not have shown up in logind's
    /// report yet.
    SpawnPending,
    /// The locker was started.
    Spawned,
    /// The locker could not be started.
    SpawnFailed,
}

/// How a request to lock the session goes on.
#[derive(Debug, Clone, Copy, PartialEq, Eq, Structural)]
pub enum LockStep {
    /// There is nothing left to do.
    Finished(LockAttempt),
    /// The locker has to be started, and the outcome passed to
    /// [`SessionLocker::spawn_finished`].
    Spawn,
}

/// The one place that decides whether a locker is started.
#[derive(Debug)]
pub struct SessionLocker {
    last_spawn: Option<Duration>,
}

/// When the locker was last started, by the caller's clock.
impl View for SessionLocker {
    type V = Option<Duration>;

    closed spec fn view(&self) -> Option<Duration> {
        self.last_spawn
    }
}

/// Whether a locker started at `last_spawn` may still be getting ready at `now`.
pub open spec fn settling(last_spawn: Option<Duration>, now: Duration) -> bool {
    match last_spawn {
        Some(at) => now.saturating_sub(at).nanos < Duration::from_millis(
            LOCK_SETTLE_GRACE_MS,
        ).nanos,
        None => false,
    }
}

/// Whether logind reports the session as locked. A report that cannot be read
/// is no such report.
pub open spec fn reads_locked(hint: Result<bool, LogindError>) -> bool {
    match hint {
        Ok(locked) => locked,
        Err(_) => false,
    }
}

/// What a request to lock comes to where the session is `locked` or not.
pub open spec fn lock_step(locked: bool, last_spawn: Option<Duration>, now: Duration) -> LockStep {
    if locked {
        LockStep::Finished(LockAttempt::AlreadyLocked)
    } else if settling(last_spawn, now) {
        LockStep::Finished(LockAttempt::SpawnPending)
    } else {
        LockStep::Spawn
    }
}

impl SessionLocker {
    /// A locker service that has not started a locker yet.
    pub fn new() -> (r: SessionLocker)
        ensures
            r@ is None,
    {
        SessionLocker { last_spawn: None }
    }

    /// Whether a locker has to be started at `now`, where logind's report of
    /// the session is `hint`.
    ///
    /// An unreadable report counts as "not locked": a locker too many is better
    /// than an open session.
    pub fn lock_if_needed(&self, hint: &Result<bool, LogindError>, now: Duration) -> (r: LockStep)
        ensures
            r == lock_step(reads_locked(*hint), self@, now),
    {
        let locked = match hint {
            Ok(locked) => *locked,
            Err(_) => false,
        };
        if locked {
            return LockStep::Finished(LockAttempt::AlreadyLocked);
        }
        if let Some(spawned_at) = self.last_spawn {
            let elapsed = now.saturating_sub(spawned_at);
            if elapsed.nanos < Duration::from_millis(LOCK_SETTLE_GRACE_MS).nanos {
                return LockStep::Finished(LockAttempt::SpawnPending);
            }
        }
        LockStep::Spawn
    }

    /// Takes note of an attempt to start the locker that ended at `now`. Only
    /// one that worked starts a new settling time.
    pub fn spawn_finished(&mut self, result: &Result<(), SpawnError>, now: Duration) -> (r:
        LockAttempt)
        ensures
            r == if result is Ok {
                LockAttempt::Spawned
            } else {
                LockAttempt::SpawnFailed
            },
            final(self)@ == if result is Ok {
                Some(now)
            } else {
                old(self)@
            },
    {
        match result {
            Ok(_) => {
                self.last_spawn = Some(now);
                LockAttempt::Spawned
            },
            Err(_) => LockAttempt::SpawnFailed,
        }
    }
}

/// Splits a command line at white space into the program and its arguments.
/// There is no quoting and no expansion. A command line without a word names no
/// program.
pub fn split_command(command: &str) -> (r: Option<(String, Vec<String>)>)
    ensures
        match r {
            Some((program, args)) => {
                &&& words(command@).len() > 0
                &&& program@ == words(command@)[0]
                &&& texts(args@) == words(command@).skip(1)
            },
            None => words(command@).len() == 0,
        },
{
    let mut parts = split_words(command);
    assert(parts@.len() == texts(parts@).len());
    if parts.len() == 0 {
        return None;
    }
    let ghost all = parts@;
    let program = parts.remove(0);
    assert(texts(parts@) =~= texts(all).skip(1));
    Some((program, parts))
}

/// The configured locker command.
pub struct CommandLocker {
    command: String,
}

impl View for CommandLocker {
    type V = Seq<char>;

    closed spec fn view(&self) -> Seq<char> {
        self.command@
    }
}

impl CommandLocker {
    pub fn new(command: String) -> (r: CommandLocker)
        ensures
            r@ == command@,
    {
        CommandLocker { command }
    }

    /// The program to start, and its arguments.
    pub fn spawn_command(&self) -> (r: Result<(String, Vec<String>), SpawnError>)
        ensures
            match r {
                Ok((program, args)) => {
                    &&& words(self@).len() > 0
                    &&& program@ == words(self@)[0]
                    &&& texts(args@) == words(self@).skip(1)
                },
                Err(err) => {
                    &&& words(self@).len() == 0
                    &&& err@ == "the configured locker command is empty"@
                },
            },
    {
        match split_command(self.command.as_str()) {
            Some(parts) => Ok(parts),
            None => Err(SpawnError::new("the configured locker command is empty")),
        }
    }

    /// What an attempt to start `program` comes to, where `started` is the
    /// system's answer to it.
    pub fn spawn_result(program: &str, started: Result<(), String>) -> (r: Result<(), SpawnError>)
        ensures
            match (started, r) {
                (Ok(_), Ok(_)) => true,
                (Err(reason), Err(err)) => err@ == "could not start locker '"@ + program@ + "': "@
                    + reason@,
                _ => false,
            },
    {
        match started {
            Ok(()) => Ok(()),
            Err(reason) => {
                let message = "could not start locker '".to_owned().concat(program).concat(
                    "': ",
                ).concat(reason.as_str());
                Err(SpawnError { message })
            },
        }
    }
}

/// One request to lock the session, as it went from beginning to end.
pub ghost struct LockCall {
    /// logind reported the session as locked.
    pub locked: bool,
    /// When it was decided whether to start a locker.
    pub asked: Duration,
    /// Whether starting the locker works, if it comes to that.
    pub starts: bool,
    /// When an attempt to start the locker, if it comes to that, is over.
    pub done: Duration,
}

/// Whether `call` starts a locker where the last start was at `last_spawn`.
pub open spec fn call_spawns(last_spawn: Option<Duration>, call: LockCall) -> bool {
    lock_step(call.locked, last_spawn, call.asked) is Spawn && call.starts
}

/// What comes of `call` where the last start was at `last_spawn`.
pub open spec fn call_attempt(last_spawn: Option<Duration>, call: LockCall) -> LockAttempt {
    match lock_step(call.locked, last_spawn, call.asked) {
        LockStep::Finished(attempt) => attempt,
        LockStep::Spawn => if call.starts {
            LockAttempt::Spawned
        } else {
            LockAttempt::SpawnFailed
        },
    }
}

/// When the locker was last started, once `call` is over.
pub open spec fn last_spawn_after(last_spawn: Option<Duration>, call: LockCall) -> Option<Duration> {
    if call_spawns(last_spawn, call) {
        Some(call.done)
    } else {
        last_spawn
    }
}

/// When `calls`, one after the other, start a locker.
pub open spec fn spawn_times(last_spawn: Option<Duration>, calls: Seq<LockCall>) -> Seq<Duration>
    decreases calls.len(),
{
    if calls.len() == 0 {
        Seq::empty()
    } else {
        let rest = spawn_times(last_spawn_after(last_spawn, calls[0]), calls.skip(1));
        if call_spawns(last_spawn, calls[0]) {
            seq![calls[0].done] + rest
        } else {
            rest
        }
    }
}

/// However often the session is asked to be locked, and by whatever trigger,
/// two lockers are never started less than four seconds apart.
pub proof fn law_lockers_are_not_stacked(last_spawn: Option<Duration>, calls: Seq<LockCall>)
    requires
        forall|i: int| 0 <= i < calls.len() ==> (#[trigger] calls[i]).asked.nanos
            <= calls[i].done.nanos,
    ensures
        ({
            let times = spawn_times(last_spawn, calls);
            &&& forall|i: int|
                0 <= i < times.len() - 1 ==> #[trigger] times[i].nanos + 4_000_000_000
                    <= times[i + 1].nanos
            &&& last_spawn is Some && times.len() > 0 ==> last_spawn->0.nanos + 4_000_000_000
                <= times[0].nanos
        }),
    decreases calls.len(),
{
    if calls.len() > 0 {
        let after = last_spawn_after(last_spawn, calls[0]);
        let rest = spawn_times(after, calls.skip(1));
        assert forall|i: int| 0 <= i < calls.skip(1).len() implies (#[trigger] calls.skip(
            1,
        )[i]).asked.nanos <= calls.skip(1)[i].done.nanos by {
            assert(calls.skip(1)[i] == calls[i + 1]);
        }
        law_lockers_are_not_stacked(after, calls.skip(1));
        let times = spawn_times(last_spawn, calls);
        if call_spawns(last_spawn, calls[0]) {
            assert(times =~= seq![calls[0].done] + rest);
            assert forall|i: int| 0 <= i < times.len() - 1 implies #[trigger] times[i].nanos
                + 4_000_000_000 <= times[i + 1].nanos by {
                if i > 0 {
                    assert(times[i] == rest[i - 1]);
                    assert(times[i + 1] == rest[i]);
                }
            }
        }
    }
}

/// A session that is not known to be locked always has a locker started, unless
/// one was started less than four seconds ago.
pub proof fn law_an_open_session_gets_a_locker(
    hint: Result<bool, LogindError>,
    last_spawn: Option<Duration>,
    now: Duration,
)
    ensures
        lock_step(reads_locked(hint), last_spawn, now) is Spawn <==> hint != Ok::<
            bool,
            LogindError,
        >(true) && (last_spawn matches Some(at) ==> at.nanos + 4_000_000_000 <= now.nanos),
{
}

/// No locker is started for one of two reasons, and the answer says which: the
/// session is reported as locked, or it is not and a locker was started less than
/// four seconds ago.
pub proof fn law_a_locker_is_withheld_for_a_reason(
    hint: Result<bool, LogindError>,
    last_spawn: Option<Duration>,
    now: Duration,
)
    ensures
        lock_step(reads_locked(hint), last_spawn, now) == LockStep::Finished(
            LockAttempt::AlreadyLocked,
        ) <==> hint == Ok::<bool, LogindError>(true),
        lock_step(reads_locked(hint), last_spawn, now) == LockStep::Finished(
            LockAttempt::SpawnPending,
        ) <==> hint != Ok::<bool, LogindError>(true) && last_spawn is Some && now.nanos
            < last_spawn->0.nanos + 4_000_000_000,
        lock_step(reads_locked(hint), last_spawn, now) != LockStep::Finished(LockAttempt::Spawned),
        lock_step(reads_locked(hint), last_spawn, now) != LockStep::Finished(
            LockAttempt::SpawnFailed,
        ),
{
}

/// However many requests there were before, one that comes four seconds or more
/// after the last of them was over, and finds the session not locked, has a locker
/// started if that can be done.
pub proof fn law_a_later_request_starts_a_locker_again(
    last_spawn: Option<Duration>,
    calls: Seq<LockCall>,
    call: LockCall,
)
    requires
        last_spawn matches Some(at) ==> at.nanos + 4_000_000_000 <= call.asked.nanos,
        forall|i: int|
            0 <= i < calls.len() ==> (#[trigger] calls[i]).done.nanos + 4_000_000_000
                <= call.asked.nanos,
        !call.locked,
        call.starts,
    ensures
        spawn_times(last_spawn, calls.push(call)) == spawn_times(last_spawn, calls).push(call.done),
    decreases calls.len(),
{
    let all = calls.push(call);
    if calls.len() == 0 {
        assert(all.skip(1) =~= Seq::empty());
        assert(spawn_times(Some(call.done), all.skip(1)) =~= Seq::empty());
        assert(spawn_times(last_spawn, all) =~= seq![call.done]);
        assert(spawn_times(last_spawn, calls).push(call.done) =~= seq![call.done]);
    } else {
        let rest = calls.skip(1);
        assert(all[0] == calls[0]);
        assert(all.skip(1) =~= rest.push(call));
        let after = last_spawn_after(last_spawn, calls[0]);
        assert forall|i: int| 0 <= i < rest.len() implies (#[trigger] rest[i]).done.nanos
            + 4_000_000_000 <= call.asked.nanos by {
            assert(rest[i] == calls[i + 1]);
        }
        law_a_later_request_starts_a_locker_again(after, rest, call);
        assert(spawn_times(last_spawn, all) =~= spawn_times(last_spawn, calls).push(call.done));
    }
}

/// Two requests, whatever they find and whoever makes them: the second one starts
/// a locker exactly where the session is not reported as locked and, if the first
/// one started one, four seconds have passed since.
pub proof fn law_two_requests(first: LockCall, second: LockCall)
    requires
        !first.locked,
    ensures
        call_spawns(None, first) == first.starts,
        call_spawns(last_spawn_after(None, first), second) == (second.starts && !second.locked && (
        first.starts ==> first.done.nanos + 4_000_000_000 <= second.asked.nanos)),
        call_attempt(None, first) == if first.starts {
            LockAttempt::Spawned
        } else {
            LockAttempt::SpawnFailed
        },
{
}

} // verus!
