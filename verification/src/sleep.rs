//! Locking the session before the system sleeps.
//!
//! logind lets a process hold a *delay inhibitor*: while one is held, a suspend
//! waits, up to a limit that logind sets. [`SleepMachine`] keeps such an
//! inhibitor while the system is awake. When a suspend is announced it has the
//! session locked, waits until logind reports it as locked, and lets go of the
//! inhibitor; the wait has a deadline, so that a locker that never comes up
//! cannot hold up the suspend. After the resume it takes the inhibitor again.
//!
//! The machine does no I/O. A method returns a [`SleepStep`]: either the
//! handling of an event is over, or it names the one thing to do next and the
//! method that takes the outcome of it.

use crate::duration::Duration;
use crate::locker::reads_locked;
use crate::locker::LockAttempt;
use crate::locker::LockTrigger;
use crate::logind::confirmation_deadline;
use crate::logind::deadline_under;
use crate::logind::LogindError;
use vstd::prelude::*;

verus! {

/// What the inhibitor delays, in logind's terms.
pub const INHIBIT_WHAT: &'static str = "sleep";

/// The name under which the inhibitor is listed.
pub const INHIBIT_WHO: &'static str = "saola-session";

/// The reason that is listed with it.
pub const INHIBIT_WHY: &'static str = "Lock the session before sleep";

/// A `delay` inhibitor holds a suspend up; it cannot forbid it.
pub const INHIBIT_MODE: &'static str = "delay";

/// Milliseconds between two attempts to reach logind.
pub const RECONNECT_INTERVAL_MS: u64 = 30_000;

/// Milliseconds between two looks at whether the session is locked yet.
pub const CONFIRMATION_POLL_INTERVAL_MS: u64 = 50;

/// How often taking the inhibitor is tried before giving up for now.
pub const INHIBITOR_ACQUIRE_ATTEMPTS: u32 = 3;

/// Milliseconds between two such attempts.
pub const INHIBITOR_RETRY_BACKOFF_MS: u64 = 250;

/// A delay inhibitor that is held. Dropping it releases it, through whatever
/// dropping `T` does.
#[derive(Debug)]
pub struct Inhibitor<T> {
    release: T,
}

impl<T> View for Inhibitor<T> {
    type V = T;

    closed spec fn view(&self) -> T {
        self.release
    }
}

impl<T> Inhibitor<T> {
    pub fn new(release: T) -> (r: Inhibitor<T>)
        ensures
            r@ == release,
    {
        Inhibitor { release }
    }
}

/// Where the machine stands between two suspends.
#[derive(Debug, Clone, Copy, PartialEq, Eq, Structural)]
pub enum SleepState {
    /// No suspend is under way.
    Awake,
    /// A suspend was announced, and the session is being locked.
    LockPending,
    /// The session was seen to, and the suspend may go on.
    ReadyToSleep,
}

/// How the session was seen to before a suspend.
#[derive(Debug, Clone, Copy, PartialEq, Eq, Structural)]
pub enum SleepReadiness {
    /// It was locked already.
    AlreadyLocked,
    /// It was reported as locked before the deadline.
    Confirmed,
    /// A locker was started, but the deadline passed first.
    Unconfirmed,
    /// The locker could not be started.
    SpawnFailed,
}

/// What logind announces.
#[derive(Debug, Clone, Copy, PartialEq, Eq, Structural)]
pub enum SleepEvent {
    /// The system is about to sleep (`true`) or has resumed (`false`).
    PrepareForSleep(bool),
    /// The session is asked to lock.
    Lock,
    /// The session is asked to unlock.
    Unlock,
    /// logind was restarted, and knows nothing of inhibitors taken before.
    LogindRestarted,
}

/// What came of an event.
#[derive(Debug, Clone, Copy, PartialEq, Eq, Structural)]
pub enum EventOutcome {
    NoAction,
    PreparedForSleep(SleepReadiness),
    Locked(LockAttempt),
    Resumed { inhibitor_held: bool },
    LogindRestarted { inhibitor_held: bool },
}

/// What the inhibitor is being taken for.
#[derive(Debug, Clone, Copy, PartialEq, Eq, Structural)]
pub enum Purpose {
    /// The machine should have one and has none.
    Upkeep,
    /// The system has resumed.
    Resume,
    /// logind was restarted.
    LogindRestart,
}

/// One attempt at taking the inhibitor; the first is attempt 1.
#[derive(Debug, Clone, Copy, PartialEq, Eq, Structural)]
pub struct Acquisition {
    pub attempt: u32,
    pub purpose: Purpose,
}

/// What a pause is followed by.
#[derive(Debug, Clone, Copy, PartialEq, Eq, Structural)]
pub enum AfterWait {
    /// Another look at whether the session is locked.
    ReadLockedHint { ends_at: Duration },
    /// Nothing: the deadline has passed.
    GiveUp,
    /// Another attempt at taking the inhibitor.
    AcquireInhibitor(Acquisition),
}

/// How the handling of an event goes on.
#[derive(Debug, Clone, Copy, PartialEq, Eq, Structural)]
pub enum SleepStep {
    /// It is over.
    Done(EventOutcome),
    /// The inhibitor was looked after, with no event behind it.
    Ensured { inhibitor_held: bool },
    /// Have the session locked; then [`SleepMachine::lock_finished`].
    LockSession(LockTrigger),
    /// Ask logind whether the session is locked, waiting no longer than
    /// `within` for the answer; then [`SleepMachine::hint_read`].
    ReadLockedHint { within: Duration, ends_at: Duration },
    /// Let this much time pass; then [`SleepMachine::waited`].
    Wait(Duration, AfterWait),
    /// Take the inhibitor; then [`SleepMachine::acquired`].
    AcquireInhibitor(Acquisition),
}

/// What wakes the task that runs a machine. Where several things are there at
/// once, the one that stands first here comes first.
#[derive(Debug, Clone, Copy, PartialEq, Eq, Structural)]
pub enum Wakeup {
    /// The daemon is to stop.
    Shutdown,
    /// logind's announcement of a suspend or of a resume; `None` where it could
    /// not be decoded.
    PrepareForSleep(Option<bool>),
    /// logind's request to lock.
    Lock,
    /// logind's request to unlock.
    Unlock,
    /// The owner of logind's bus name changed.
    LogindOwnerChanged,
    /// One of the streams of signals ended: the connection is gone.
    StreamEnded,
    /// It is time to look after the inhibitor.
    RetryTick,
}

/// What the task does.
#[derive(Debug, Clone, Copy, PartialEq, Eq, Structural)]
pub enum TaskAction {
    /// End. Where nobody asked for it the daemon ends too, to be started anew:
    /// one that hears of no suspend any more must not look alive.
    Stop,
    Ignore,
    Handle(SleepEvent),
    EnsureInhibitor,
}

/// How the task goes on after an attempt to reach logind.
#[derive(Debug, Clone, Copy, PartialEq, Eq, Structural)]
pub enum Reconnect {
    Start,
    RetryAfter(Duration),
}

/// What to do about a wakeup, where the inhibitor is wanted or not.
pub open spec fn wakeup_action(wants_inhibitor: bool, wakeup: Wakeup) -> TaskAction {
    match wakeup {
        Wakeup::Shutdown | Wakeup::StreamEnded => TaskAction::Stop,
        Wakeup::PrepareForSleep(Some(start)) => TaskAction::Handle(
            SleepEvent::PrepareForSleep(start),
        ),
        Wakeup::PrepareForSleep(None) => TaskAction::Ignore,
        Wakeup::Lock => TaskAction::Handle(SleepEvent::Lock),
        Wakeup::Unlock => TaskAction::Handle(SleepEvent::Unlock),
        Wakeup::LogindOwnerChanged => TaskAction::Handle(SleepEvent::LogindRestarted),
        Wakeup::RetryTick => if wants_inhibitor {
            TaskAction::EnsureInhibitor
        } else {
            TaskAction::Ignore
        },
    }
}

/// How long a lock is waited for from the start, where `connection` is what came
/// of reaching logind: the delay that it grants, if it says.
pub fn startup_deadline(connection: &Result<Option<Duration>, LogindError>) -> (r: Duration)
    ensures
        r == match *connection {
            Ok(inhibit_delay_max) => deadline_under(inhibit_delay_max),
            Err(_) => deadline_under(None),
        },
{
    match connection {
        Ok(inhibit_delay_max) => confirmation_deadline(*inhibit_delay_max),
        Err(_) => confirmation_deadline(None),
    }
}

/// Keeps the inhibitor, and sees to the session before a suspend.
pub struct SleepMachine<T> {
    lock_before_sleep: bool,
    deadline: Duration,
    state: SleepState,
    inhibitor: Option<Inhibitor<T>>,
}

/// What a [`SleepMachine`] is made of.
pub ghost struct SleepModel<T> {
    pub lock_before_sleep: bool,
    pub deadline: Duration,
    pub state: SleepState,
    pub inhibitor: Option<Inhibitor<T>>,
}

impl<T> View for SleepMachine<T> {
    type V = SleepModel<T>;

    closed spec fn view(&self) -> SleepModel<T> {
        SleepModel {
            lock_before_sleep: self.lock_before_sleep,
            deadline: self.deadline,
            state: self.state,
            inhibitor: self.inhibitor,
        }
    }
}

/// The state and the step in which looking after the inhibitor ends.
pub open spec fn ensured<T>(m: SleepModel<T>, purpose: Purpose) -> (SleepModel<T>, SleepStep) {
    let inhibitor_held = m.inhibitor is Some;
    match purpose {
        Purpose::Upkeep => (m, SleepStep::Ensured { inhibitor_held }),
        Purpose::Resume => (
            SleepModel { state: SleepState::Awake, ..m },
            SleepStep::Done(EventOutcome::Resumed { inhibitor_held }),
        ),
        Purpose::LogindRestart => (
            m,
            SleepStep::Done(EventOutcome::LogindRestarted { inhibitor_held }),
        ),
    }
}

/// Looking after the inhibitor: there is nothing to do where one is held.
pub open spec fn ensure<T>(m: SleepModel<T>, purpose: Purpose) -> (SleepModel<T>, SleepStep) {
    if m.inhibitor is Some {
        ensured(m, purpose)
    } else {
        (m, SleepStep::AcquireInhibitor(Acquisition { attempt: 1, purpose }))
    }
}

/// The state and the step in which the preparation for a suspend ends, however
/// it went.
pub open spec fn prepared<T>(m: SleepModel<T>, readiness: SleepReadiness) -> (
    SleepModel<T>,
    SleepStep,
) {
    (
        SleepModel { state: SleepState::ReadyToSleep, inhibitor: None, ..m },
        SleepStep::Done(EventOutcome::PreparedForSleep(readiness)),
    )
}

/// What an event does.
pub open spec fn on_event<T>(m: SleepModel<T>, event: SleepEvent) -> (SleepModel<T>, SleepStep) {
    let nothing = SleepStep::Done(EventOutcome::NoAction);
    match event {
        SleepEvent::PrepareForSleep(true) => if !m.lock_before_sleep || m.state
            == SleepState::ReadyToSleep {
            (m, nothing)
        } else {
            (
                SleepModel { state: SleepState::LockPending, ..m },
                SleepStep::LockSession(LockTrigger::BeforeSleep),
            )
        },
        SleepEvent::PrepareForSleep(false) => if !m.lock_before_sleep {
            (SleepModel { state: SleepState::Awake, ..m }, nothing)
        } else {
            ensure(m, Purpose::Resume)
        },
        SleepEvent::Lock => (m, SleepStep::LockSession(LockTrigger::LogindLockSignal)),
        SleepEvent::Unlock => (m, nothing),
        SleepEvent::LogindRestarted => if !m.lock_before_sleep {
            (m, nothing)
        } else {
            ensure(SleepModel { inhibitor: None, ..m }, Purpose::LogindRestart)
        },
    }
}

/// What the outcome of locking the session does. Before a suspend, a locker that
/// has just been started is waited for.
pub open spec fn on_lock_finished<T>(
    m: SleepModel<T>,
    trigger: LockTrigger,
    attempt: LockAttempt,
    now: Duration,
) -> (SleepModel<T>, SleepStep) {
    if trigger != LockTrigger::BeforeSleep {
        (m, SleepStep::Done(EventOutcome::Locked(attempt)))
    } else {
        match attempt {
            LockAttempt::AlreadyLocked => prepared(m, SleepReadiness::AlreadyLocked),
            LockAttempt::SpawnFailed => prepared(m, SleepReadiness::SpawnFailed),
            LockAttempt::Spawned | LockAttempt::SpawnPending => {
                let ends_at = now.saturating_add(m.deadline);
                (m, SleepStep::ReadLockedHint { within: ends_at.saturating_sub(now), ends_at })
            },
        }
    }
}

/// What a look at whether the session is locked does. `hint` is `None` where
/// there was no answer in time.
pub open spec fn on_hint_read<T>(
    m: SleepModel<T>,
    ends_at: Duration,
    hint: Option<Result<bool, LogindError>>,
    now: Duration,
) -> (SleepModel<T>, SleepStep) {
    let poll = Duration::from_millis(CONFIRMATION_POLL_INTERVAL_MS);
    match hint {
        None => prepared(m, SleepReadiness::Unconfirmed),
        Some(hint) => if reads_locked(hint) {
            prepared(m, SleepReadiness::Confirmed)
        } else if now.nanos >= ends_at.nanos {
            prepared(m, SleepReadiness::Unconfirmed)
        } else if now.nanos + poll.nanos <= ends_at.nanos {
            (m, SleepStep::Wait(poll, AfterWait::ReadLockedHint { ends_at }))
        } else {
            (m, SleepStep::Wait(ends_at.saturating_sub(now), AfterWait::GiveUp))
        },
    }
}

/// How long a lock that is waited for until `ends_at` has been waited for at
/// `now`.
pub open spec fn waited_for<T>(m: SleepModel<T>, ends_at: Duration, now: Duration) -> Duration {
    now.saturating_sub(ends_at.saturating_sub(m.deadline))
}

/// What the end of a pause does.
pub open spec fn on_waited<T>(m: SleepModel<T>, then: AfterWait, now: Duration) -> (
    SleepModel<T>,
    SleepStep,
) {
    match then {
        AfterWait::ReadLockedHint { ends_at } => (
            m,
            SleepStep::ReadLockedHint { within: ends_at.saturating_sub(now), ends_at },
        ),
        AfterWait::GiveUp => prepared(m, SleepReadiness::Unconfirmed),
        AfterWait::AcquireInhibitor(acquisition) => (m, SleepStep::AcquireInhibitor(acquisition)),
    }
}

/// What the outcome of an attempt at taking the inhibitor does.
pub open spec fn on_acquired<T>(
    m: SleepModel<T>,
    acquisition: Acquisition,
    result: Result<Inhibitor<T>, LogindError>,
) -> (SleepModel<T>, SleepStep) {
    match result {
        Ok(inhibitor) => ensured(
            SleepModel { inhibitor: Some(inhibitor), ..m },
            acquisition.purpose,
        ),
        Err(_) => if acquisition.attempt < INHIBITOR_ACQUIRE_ATTEMPTS {
            let next = Acquisition { attempt: (acquisition.attempt + 1) as u32, ..acquisition };
            (
                m,
                SleepStep::Wait(
                    Duration::from_millis(INHIBITOR_RETRY_BACKOFF_MS),
                    AfterWait::AcquireInhibitor(next),
                ),
            )
        } else {
            ensured(m, acquisition.purpose)
        },
    }
}

impl<T> SleepMachine<T> {
    /// A machine that is awake and holds no inhibitor. With `lock_before_sleep`
    /// off it never takes one, and lets a suspend pass.
    pub fn new(lock_before_sleep: bool, deadline: Duration) -> (r: SleepMachine<T>)
        ensures
            r@ == (SleepModel {
                lock_before_sleep,
                deadline,
                state: SleepState::Awake,
                inhibitor: None::<Inhibitor<T>>,
            }),
    {
        SleepMachine { lock_before_sleep, deadline, state: SleepState::Awake, inhibitor: None }
    }

    pub fn state(&self) -> (r: SleepState)
        ensures
            r == self@.state,
    {
        self.state
    }

    pub fn holds_inhibitor(&self) -> (r: bool)
        ensures
            r == (self@.inhibitor is Some),
    {
        self.inhibitor.is_some()
    }

    /// Sets how long a lock is waited for from now on.
    pub fn set_deadline(&mut self, deadline: Duration)
        ensures
            final(self)@ == (SleepModel { deadline, ..old(self)@ }),
    {
        self.deadline = deadline;
    }

    /// Begins: takes the inhibitor, unless locking before sleep is off.
    pub fn start(&mut self) -> (r: SleepStep)
        ensures
            (final(self)@, r) == if old(self)@.lock_before_sleep {
                ensure(old(self)@, Purpose::Upkeep)
            } else {
                ensured(old(self)@, Purpose::Upkeep)
            },
    {
        if !self.lock_before_sleep {
            return self.ensured(Purpose::Upkeep);
        }
        self.ensure_inhibitor(Purpose::Upkeep)
    }

    /// Lets go of the inhibitor because the daemon stops.
    pub fn release_for_shutdown(&mut self)
        ensures
            final(self)@ == (SleepModel { inhibitor: None, ..old(self)@ }),
    {
        self.release_inhibitor();
    }

    /// Takes up an event.
    pub fn handle_event(&mut self, event: SleepEvent) -> (r: SleepStep)
        ensures
            (final(self)@, r) == on_event(old(self)@, event),
    {
        match event {
            SleepEvent::PrepareForSleep(true) => self.on_going_to_sleep(),
            SleepEvent::PrepareForSleep(false) => self.on_resume(),
            SleepEvent::Lock => SleepStep::LockSession(LockTrigger::LogindLockSignal),
            SleepEvent::Unlock => SleepStep::Done(EventOutcome::NoAction),
            SleepEvent::LogindRestarted => {
                if !self.lock_before_sleep {
                    return SleepStep::Done(EventOutcome::NoAction);
                }
                self.release_inhibitor();
                self.ensure_inhibitor(Purpose::LogindRestart)
            },
        }
    }

    /// Goes on once the session has been asked to lock for `trigger`.
    pub fn lock_finished(&mut self, trigger: LockTrigger, attempt: LockAttempt, now: Duration) -> (r:
        SleepStep)
        ensures
            (final(self)@, r) == on_lock_finished(old(self)@, trigger, attempt, now),
    {
        match trigger {
            LockTrigger::BeforeSleep => match attempt {
                LockAttempt::AlreadyLocked => self.prepared(SleepReadiness::AlreadyLocked),
                LockAttempt::SpawnFailed => self.prepared(SleepReadiness::SpawnFailed),
                LockAttempt::Spawned | LockAttempt::SpawnPending => {
                    let ends_at = now.saturating_add(self.deadline);
                    SleepStep::ReadLockedHint { within: ends_at.saturating_sub(now), ends_at }
                },
            },
            _ => SleepStep::Done(EventOutcome::Locked(attempt)),
        }
    }

    /// Goes on once logind has said whether the session is locked, or has not
    /// answered in time (`None`).
    pub fn hint_read(
        &mut self,
        ends_at: Duration,
        hint: &Option<Result<bool, LogindError>>,
        now: Duration,
    ) -> (r: SleepStep)
        ensures
            (final(self)@, r) == on_hint_read(old(self)@, ends_at, *hint, now),
    {
        match hint {
            None => return self.prepared(SleepReadiness::Unconfirmed),
            Some(Ok(true)) => return self.prepared(SleepReadiness::Confirmed),
            Some(_) => {},
        }
        if now.nanos >= ends_at.nanos {
            return self.prepared(SleepReadiness::Unconfirmed);
        }
        let left = ends_at.saturating_sub(now);
        let poll = Duration::from_millis(CONFIRMATION_POLL_INTERVAL_MS);
        if poll.nanos <= left.nanos {
            SleepStep::Wait(poll, AfterWait::ReadLockedHint { ends_at })
        } else {
            SleepStep::Wait(left, AfterWait::GiveUp)
        }
    }

    /// How long a lock that is waited for until `ends_at` has been waited for at
    /// `now`. At the look that finds the session locked, this is how long the
    /// lock took.
    pub fn confirmation_time(&self, ends_at: Duration, now: Duration) -> (r: Duration)
        ensures
            r == waited_for(self@, ends_at, now),
    {
        now.saturating_sub(ends_at.saturating_sub(self.deadline))
    }

    /// Goes on once a pause is over.
    pub fn waited(&mut self, then: AfterWait, now: Duration) -> (r: SleepStep)
        ensures
            (final(self)@, r) == on_waited(old(self)@, then, now),
    {
        match then {
            AfterWait::ReadLockedHint { ends_at } => SleepStep::ReadLockedHint {
                within: ends_at.saturating_sub(now),
                ends_at,
            },
            AfterWait::GiveUp => self.prepared(SleepReadiness::Unconfirmed),
            AfterWait::AcquireInhibitor(acquisition) => SleepStep::AcquireInhibitor(acquisition),
        }
    }

    /// Goes on once taking the inhibitor has worked or failed.
    pub fn acquired(&mut self, acquisition: Acquisition, result: Result<Inhibitor<T>, LogindError>) -> (r:
        SleepStep)
        ensures
            (final(self)@, r) == on_acquired(old(self)@, acquisition, result),
    {
        match result {
            Ok(inhibitor) => {
                self.inhibitor = Some(inhibitor);
                self.ensured(acquisition.purpose)
            },
            Err(_) => {
                if acquisition.attempt < INHIBITOR_ACQUIRE_ATTEMPTS {
                    SleepStep::Wait(
                        Duration::from_millis(INHIBITOR_RETRY_BACKOFF_MS),
                        AfterWait::AcquireInhibitor(
                            Acquisition {
                                attempt: acquisition.attempt + 1,
                                purpose: acquisition.purpose,
                            },
                        ),
                    )
                } else {
                    self.ensured(acquisition.purpose)
                }
            },
        }
    }

    /// Whether the inhibitor should be held and is not, so that taking it is
    /// worth another try from time to time.
    pub fn wants_inhibitor(&self) -> (r: bool)
        ensures
            r == (self@.lock_before_sleep && self@.inhibitor is None),
    {
        self.lock_before_sleep && self.inhibitor.is_none()
    }

    /// What to do about `wakeup`.
    pub fn on_wakeup(&self, wakeup: Wakeup) -> (r: TaskAction)
        ensures
            r == wakeup_action(self@.lock_before_sleep && self@.inhibitor is None, wakeup),
    {
        match wakeup {
            Wakeup::Shutdown => TaskAction::Stop,
            Wakeup::PrepareForSleep(Some(start)) => TaskAction::Handle(
                SleepEvent::PrepareForSleep(start),
            ),
            Wakeup::PrepareForSleep(None) => TaskAction::Ignore,
            Wakeup::Lock => TaskAction::Handle(SleepEvent::Lock),
            Wakeup::Unlock => TaskAction::Handle(SleepEvent::Unlock),
            Wakeup::LogindOwnerChanged => TaskAction::Handle(SleepEvent::LogindRestarted),
            Wakeup::StreamEnded => TaskAction::Stop,
            Wakeup::RetryTick => if self.wants_inhibitor() {
                TaskAction::EnsureInhibitor
            } else {
                TaskAction::Ignore
            },
        }
    }

    /// Has another try at taking the inhibitor.
    pub fn retry(&mut self) -> (r: SleepStep)
        ensures
            (final(self)@, r) == ensure(old(self)@, Purpose::Upkeep),
    {
        self.ensure_inhibitor(Purpose::Upkeep)
    }

    /// Takes note of an attempt to reach logind after it was out of reach. Where
    /// it worked, `connection` holds the delay that logind grants, if it says.
    pub fn reconnected(&mut self, connection: &Result<Option<Duration>, LogindError>) -> (r:
        Reconnect)
        ensures
            match *connection {
                Ok(inhibit_delay_max) => {
                    &&& r == Reconnect::Start
                    &&& final(self)@ == (SleepModel {
                        deadline: deadline_under(inhibit_delay_max),
                        ..old(self)@
                    })
                },
                Err(_) => {
                    &&& r == Reconnect::RetryAfter(Duration::from_millis(RECONNECT_INTERVAL_MS))
                    &&& final(self)@ == old(self)@
                },
            },
    {
        match connection {
            Ok(inhibit_delay_max) => {
                self.set_deadline(confirmation_deadline(*inhibit_delay_max));
                Reconnect::Start
            },
            Err(_) => Reconnect::RetryAfter(Duration::from_millis(RECONNECT_INTERVAL_MS)),
        }
    }

    fn on_going_to_sleep(&mut self) -> (r: SleepStep)
        ensures
            (final(self)@, r) == on_event(old(self)@, SleepEvent::PrepareForSleep(true)),
    {
        if !self.lock_before_sleep {
            return SleepStep::Done(EventOutcome::NoAction);
        }
        if self.state == SleepState::ReadyToSleep {
            return SleepStep::Done(EventOutcome::NoAction);
        }
        self.state = SleepState::LockPending;
        SleepStep::LockSession(LockTrigger::BeforeSleep)
    }

    fn on_resume(&mut self) -> (r: SleepStep)
        ensures
            (final(self)@, r) == on_event(old(self)@, SleepEvent::PrepareForSleep(false)),
    {
        if !self.lock_before_sleep {
            self.state = SleepState::Awake;
            return SleepStep::Done(EventOutcome::NoAction);
        }
        self.ensure_inhibitor(Purpose::Resume)
    }

    /// Takes the inhibitor, unless it is held.
    fn ensure_inhibitor(&mut self, purpose: Purpose) -> (r: SleepStep)
        ensures
            (final(self)@, r) == ensure(old(self)@, purpose),
    {
        if self.inhibitor.is_some() {
            return self.ensured(purpose);
        }
        SleepStep::AcquireInhibitor(Acquisition { attempt: 1, purpose })
    }

    fn ensured(&mut self, purpose: Purpose) -> (r: SleepStep)
        ensures
            (final(self)@, r) == ensured(old(self)@, purpose),
    {
        let inhibitor_held = self.inhibitor.is_some();
        match purpose {
            Purpose::Upkeep => SleepStep::Ensured { inhibitor_held },
            Purpose::Resume => {
                self.state = SleepState::Awake;
                SleepStep::Done(EventOutcome::Resumed { inhibitor_held })
            },
            Purpose::LogindRestart => SleepStep::Done(
                EventOutcome::LogindRestarted { inhibitor_held },
            ),
        }
    }

    /// Lets the suspend go on, whatever came of the lock.
    fn prepared(&mut self, readiness: SleepReadiness) -> (r: SleepStep)
        ensures
            (final(self)@, r) == prepared(old(self)@, readiness),
    {
        self.release_inhibitor();
        self.state = SleepState::ReadyToSleep;
        SleepStep::Done(EventOutcome::PreparedForSleep(readiness))
    }

    fn release_inhibitor(&mut self)
        ensures
            final(self)@ == (SleepModel { inhibitor: None, ..old(self)@ }),
    {
        self.inhibitor = None;
    }
}

} // verus!
