//! What holds of the handling of an event from beginning to end, whatever logind
//! and the locker do.

use crate::duration::Duration;
use crate::locker::call_attempt;
use crate::locker::call_spawns;
use crate::locker::settling;
use crate::locker::LockAttempt;
use crate::locker::LockCall;
use crate::locker::LockTrigger;
use crate::logind::LogindError;
use crate::sleep::ensure;
use crate::sleep::ensured;
use crate::sleep::on_acquired;
use crate::sleep::on_event;
use crate::sleep::on_hint_read;
use crate::sleep::on_lock_finished;
use crate::sleep::on_waited;
use crate::sleep::waited_for;
use crate::sleep::wakeup_action;
use crate::sleep::Acquisition;
use crate::sleep::AfterWait;
use crate::sleep::EventOutcome;
use crate::sleep::Inhibitor;
use crate::sleep::Purpose;
use crate::sleep::SleepEvent;
use crate::sleep::SleepModel;
use crate::sleep::SleepReadiness;
use crate::sleep::SleepState;
use crate::sleep::SleepStep;
use crate::sleep::TaskAction;
use crate::sleep::Wakeup;
use crate::sleep::CONFIRMATION_POLL_INTERVAL_MS;
use crate::sleep::INHIBITOR_ACQUIRE_ATTEMPTS;
use vstd::arithmetic::div_mod::lemma_div_is_ordered;
use vstd::arithmetic::div_mod::lemma_div_minus_one;
use vstd::prelude::*;

verus! {

/// The outcome of a step, and when it was there.
pub ghost struct Answer<T> {
    pub reply: Reply<T>,
    pub at: Duration,
}

pub ghost enum Reply<T> {
    LockAttempt(LockAttempt),
    LockedHint(Option<Result<bool, LogindError>>),
    Waited,
    Acquired(Result<Inhibitor<T>, LogindError>),
}

/// Whether `reply` is an outcome of `step`.
pub open spec fn answers<T>(step: SleepStep, reply: Reply<T>) -> bool {
    match step {
        SleepStep::LockSession(_) => reply is LockAttempt,
        SleepStep::ReadLockedHint { .. } => reply is LockedHint,
        SleepStep::Wait(_, _) => reply is Waited,
        SleepStep::AcquireInhibitor(_) => reply is Acquired,
        SleepStep::Done(_) | SleepStep::Ensured { .. } => false,
    }
}

/// What `answer` does to a machine that is at `at`.
pub open spec fn advance<T>(at: (SleepModel<T>, SleepStep), answer: Answer<T>) -> (
    SleepModel<T>,
    SleepStep,
) {
    match (at.1, answer.reply) {
        (SleepStep::LockSession(trigger), Reply::LockAttempt(attempt)) => on_lock_finished(
            at.0,
            trigger,
            attempt,
            answer.at,
        ),
        (SleepStep::ReadLockedHint { within, ends_at }, Reply::LockedHint(hint)) => on_hint_read(
            at.0,
            ends_at,
            hint,
            answer.at,
        ),
        (SleepStep::Wait(_, then), Reply::Waited) => on_waited(at.0, then, answer.at),
        (SleepStep::AcquireInhibitor(acquisition), Reply::Acquired(result)) => on_acquired(
            at.0,
            acquisition,
            result,
        ),
        _ => at,
    }
}

/// Where a machine that is at `at` is after all of `answers_given`.
pub open spec fn run<T>(at: (SleepModel<T>, SleepStep), answers_given: Seq<Answer<T>>) -> (
    SleepModel<T>,
    SleepStep,
)
    decreases answers_given.len(),
{
    if answers_given.len() == 0 {
        at
    } else {
        run(advance(at, answers_given[0]), answers_given.skip(1))
    }
}

/// Whether each of `answers_given` is an outcome of the step that it meets.
pub open spec fn fits<T>(at: (SleepModel<T>, SleepStep), answers_given: Seq<Answer<T>>) -> bool
    decreases answers_given.len(),
{
    answers_given.len() > 0 ==> {
        &&& answers(at.1, answers_given[0].reply)
        &&& fits(advance(at, answers_given[0]), answers_given.skip(1))
    }
}

/// A step on the way from the start of a locker to the suspend.
pub open spec fn confirming(step: SleepStep) -> bool {
    match step {
        SleepStep::ReadLockedHint { .. } => true,
        SleepStep::Wait(_, then) => !(then is AcquireInhibitor),
        _ => false,
    }
}

/// The inhibitor is kept, and the session being locked, until the preparation
/// for a suspend is over; and then the inhibitor has been let go of.
pub open spec fn suspend_goes_on<T>(
    m: SleepModel<T>,
    at: (SleepModel<T>, SleepStep),
) -> bool {
    match at.1 {
        SleepStep::Done(outcome) => {
            &&& outcome is PreparedForSleep
            &&& at.0 == SleepModel { state: SleepState::ReadyToSleep, inhibitor: None, ..m }
        },
        _ => {
            &&& confirming(at.1)
            &&& at.0 == SleepModel { state: SleepState::LockPending, ..m }
        },
    }
}

proof fn lemma_confirming_run<T>(
    m: SleepModel<T>,
    at: (SleepModel<T>, SleepStep),
    answers_given: Seq<Answer<T>>,
)
    requires
        suspend_goes_on(m, at),
        fits(at, answers_given),
    ensures
        suspend_goes_on(m, run(at, answers_given)),
    decreases answers_given.len(),
{
    if answers_given.len() > 0 {
        lemma_confirming_run(m, advance(at, answers_given[0]), answers_given.skip(1));
    }
}

/// A suspend that is announced while none is under way has the session locked,
/// once. From then on, whatever the locker and logind answer, nothing else is
/// asked for than whether the session is locked; and however that ends, the
/// inhibitor is let go of at the end, and not before.
pub proof fn law_every_suspend_is_let_go<T>(m: SleepModel<T>, answers_given: Seq<Answer<T>>)
    requires
        m.lock_before_sleep,
        m.state != SleepState::ReadyToSleep,
        answers_given.len() > 0,
        fits(on_event(m, SleepEvent::PrepareForSleep(true)), answers_given),
    ensures
        on_event(m, SleepEvent::PrepareForSleep(true)) == (
            SleepModel { state: SleepState::LockPending, ..m },
            SleepStep::LockSession(LockTrigger::BeforeSleep),
        ),
        suspend_goes_on(
            m,
            run(on_event(m, SleepEvent::PrepareForSleep(true)), answers_given),
        ),
{
    let at = on_event(m, SleepEvent::PrepareForSleep(true));
    lemma_confirming_run(m, advance(at, answers_given[0]), answers_given.skip(1));
}

/// Whether `reply` is logind's report that the session is locked.
pub open spec fn says_locked<T>(reply: Reply<T>) -> bool {
    reply matches Reply::LockedHint(Some(Ok(locked))) && locked
}

proof fn lemma_confirmed_run<T>(at: (SleepModel<T>, SleepStep), answers_given: Seq<Answer<T>>)
    requires
        confirming(at.1),
        answers_given.len() > 0,
        fits(at, answers_given),
    ensures
        run(at, answers_given).1 == SleepStep::Done(
            EventOutcome::PreparedForSleep(SleepReadiness::Confirmed),
        ) <==> says_locked(answers_given.last().reply),
        run(at, answers_given).1 is Done && !says_locked(answers_given.last().reply) ==> run(
            at,
            answers_given,
        ).1 == SleepStep::Done(EventOutcome::PreparedForSleep(SleepReadiness::Unconfirmed)),
    decreases answers_given.len(),
{
    let next = advance(at, answers_given[0]);
    let rest = answers_given.skip(1);
    assert(fits(next, rest));
    if rest.len() > 0 {
        lemma_confirmed_run(next, rest);
        assert(rest.last() == answers_given.last());
    } else {
        assert(run(next, rest) == next);
    }
}

/// How the session counts as seen to before a suspend is exactly what happened:
/// locked before, or no locker could be started, where the lock attempt said so;
/// else confirmed where the last thing heard was that the session is locked,
/// and unconfirmed where it was anything else.
pub proof fn law_readiness_is_what_happened<T>(m: SleepModel<T>, answers_given: Seq<Answer<T>>)
    requires
        m.lock_before_sleep,
        m.state != SleepState::ReadyToSleep,
        answers_given.len() > 0,
        fits(on_event(m, SleepEvent::PrepareForSleep(true)), answers_given),
    ensures
        run(on_event(m, SleepEvent::PrepareForSleep(true)), answers_given).1 matches SleepStep::Done(
            outcome,
        ) ==> outcome == EventOutcome::PreparedForSleep(
            if answers_given[0].reply == Reply::<T>::LockAttempt(LockAttempt::AlreadyLocked) {
                SleepReadiness::AlreadyLocked
            } else if answers_given[0].reply == Reply::<T>::LockAttempt(LockAttempt::SpawnFailed) {
                SleepReadiness::SpawnFailed
            } else if says_locked(answers_given.last().reply) {
                SleepReadiness::Confirmed
            } else {
                SleepReadiness::Unconfirmed
            },
        ),
{
    let at = on_event(m, SleepEvent::PrepareForSleep(true));
    let next = advance(at, answers_given[0]);
    let rest = answers_given.skip(1);
    assert(fits(next, rest));
    if confirming(next.1) && rest.len() > 0 {
        lemma_confirmed_run(next, rest);
        assert(rest.last() == answers_given.last());
    } else if rest.len() == 0 {
        assert(run(next, rest) == next);
    }
}

/// No suspend passes by a session that is open without a locker for it: when the
/// preparation is over, the session was reported as locked, or a locker has been
/// started for it, just now or no longer ago than the settling time, or starting
/// one was tried and failed.
pub proof fn law_no_suspend_passes_by_an_open_session<T>(
    m: SleepModel<T>,
    last_spawn: Option<Duration>,
    call: LockCall,
    answers_given: Seq<Answer<T>>,
)
    requires
        m.lock_before_sleep,
        m.state != SleepState::ReadyToSleep,
        answers_given.len() > 0,
        answers_given[0].reply == Reply::<T>::LockAttempt(call_attempt(last_spawn, call)),
        fits(on_event(m, SleepEvent::PrepareForSleep(true)), answers_given),
    ensures
        run(on_event(m, SleepEvent::PrepareForSleep(true)), answers_given).1 matches SleepStep::Done(
            outcome,
        ) ==> match outcome {
            EventOutcome::PreparedForSleep(SleepReadiness::AlreadyLocked) => call.locked,
            EventOutcome::PreparedForSleep(SleepReadiness::SpawnFailed) => !call.locked
                && !call.starts,
            EventOutcome::PreparedForSleep(_) => !call.locked && (call_spawns(last_spawn, call)
                || settling(last_spawn, call.asked)),
            _ => false,
        },
{
    law_readiness_is_what_happened(m, answers_given);
}

/// How long a step may take.
pub open spec fn allowed(step: SleepStep) -> nat {
    match step {
        SleepStep::ReadLockedHint { within, .. } => within.nanos as nat,
        SleepStep::Wait(length, _) => length.nanos as nat,
        _ => 0,
    }
}

/// Whether each of `answers_given` is there within the time that its step
/// allows, counted from the answer before; the first is counted from `since`.
pub open spec fn prompt<T>(
    at: (SleepModel<T>, SleepStep),
    since: Duration,
    answers_given: Seq<Answer<T>>,
) -> bool
    decreases answers_given.len(),
{
    answers_given.len() > 0 ==> {
        &&& answers_given[0].at.nanos <= since.nanos + allowed(at.1)
        &&& prompt(advance(at, answers_given[0]), answers_given[0].at, answers_given.skip(1))
    }
}

/// Nothing that is asked for at `now` may take longer than until `ends_at`.
pub open spec fn due_by(step: SleepStep, now: Duration, ends_at: Duration) -> bool {
    &&& now.nanos + allowed(step) <= ends_at.nanos
    &&& step matches SleepStep::ReadLockedHint { ends_at: e, .. } ==> e == ends_at
    &&& step matches SleepStep::Wait(_, AfterWait::ReadLockedHint { ends_at: e }) ==> e == ends_at
}

proof fn lemma_prompt_run<T>(
    at: (SleepModel<T>, SleepStep),
    since: Duration,
    ends_at: Duration,
    answers_given: Seq<Answer<T>>,
)
    requires
        confirming(at.1),
        due_by(at.1, since, ends_at),
        answers_given.len() > 0,
        fits(at, answers_given),
        prompt(at, since, answers_given),
    ensures
        answers_given.last().at.nanos <= ends_at.nanos,
    decreases answers_given.len(),
{
    let next = advance(at, answers_given[0]);
    let rest = answers_given.skip(1);
    assert(fits(next, rest));
    if rest.len() > 0 {
        assert(answers(next.1, rest[0].reply));
        lemma_prompt_run(next, answers_given[0].at, ends_at, rest);
        assert(rest.last() == answers_given.last());
    }
}

/// Waiting for a lock never holds up a suspend beyond the deadline: where no
/// step takes longer than it allows, everything is over no later than the
/// deadline after the locker was started.
pub proof fn law_the_deadline_is_kept<T>(m: SleepModel<T>, answers_given: Seq<Answer<T>>)
    requires
        m.lock_before_sleep,
        m.state != SleepState::ReadyToSleep,
        answers_given.len() > 1,
        fits(on_event(m, SleepEvent::PrepareForSleep(true)), answers_given),
        prompt(
            advance(on_event(m, SleepEvent::PrepareForSleep(true)), answers_given[0]),
            answers_given[0].at,
            answers_given.skip(1),
        ),
    ensures
        answers_given.last().at.nanos <= answers_given[0].at.nanos + m.deadline.nanos,
{
    let at = on_event(m, SleepEvent::PrepareForSleep(true));
    let next = advance(at, answers_given[0]);
    let since = answers_given[0].at;
    let rest = answers_given.skip(1);
    assert(fits(next, rest));
    lemma_prompt_run(next, since, since.saturating_add(m.deadline), rest);
    assert(rest.last() == answers_given.last());
}

/// Whether the wait that `step` belongs to lasts until `ends_at`.
pub open spec fn waits_until(step: SleepStep, ends_at: Duration) -> bool {
    match step {
        SleepStep::ReadLockedHint { ends_at: e, .. } => e == ends_at,
        SleepStep::Wait(_, AfterWait::ReadLockedHint { ends_at: e }) => e == ends_at,
        _ => true,
    }
}

proof fn lemma_wait_run<T>(
    at: (SleepModel<T>, SleepStep),
    ends_at: Duration,
    answers_given: Seq<Answer<T>>,
)
    requires
        confirming(at.1) || at.1 is Done,
        waits_until(at.1, ends_at),
        fits(at, answers_given),
    ensures
        waits_until(run(at, answers_given).1, ends_at),
    decreases answers_given.len(),
{
    if answers_given.len() > 0 {
        lemma_wait_run(advance(at, answers_given[0]), ends_at, answers_given.skip(1));
    }
}

/// The time that a lock took, as given at any look at the session while it is
/// waited for, is the time since the lock attempt was over: with the look that
/// confirms it, the time until the lock was confirmed. The end of the wait has to
/// be within what the clock can show.
pub proof fn law_the_time_of_a_lock_counts_from_its_start<T>(
    m: SleepModel<T>,
    answers_given: Seq<Answer<T>>,
    now: Duration,
)
    requires
        m.lock_before_sleep,
        m.state != SleepState::ReadyToSleep,
        answers_given.len() > 0,
        fits(on_event(m, SleepEvent::PrepareForSleep(true)), answers_given),
        answers_given[0].at.nanos + m.deadline.nanos <= u128::MAX,
    ensures
        ({
            let end = run(on_event(m, SleepEvent::PrepareForSleep(true)), answers_given);
            end.1 matches SleepStep::ReadLockedHint { ends_at, .. } ==> waited_for(
                end.0,
                ends_at,
                now,
            ) == now.saturating_sub(answers_given[0].at)
        }),
{
    let at = on_event(m, SleepEvent::PrepareForSleep(true));
    let ends_at = answers_given[0].at.saturating_add(m.deadline);
    law_every_suspend_is_let_go(m, answers_given);
    lemma_wait_run(advance(at, answers_given[0]), ends_at, answers_given.skip(1));
}

/// Whether time does not run backwards over `answers_given`, and each pause
/// among them takes as long as was asked for.
pub open spec fn unhurried<T>(
    at: (SleepModel<T>, SleepStep),
    since: Duration,
    answers_given: Seq<Answer<T>>,
) -> bool
    decreases answers_given.len(),
{
    answers_given.len() > 0 ==> {
        &&& since.nanos <= answers_given[0].at.nanos
        &&& at.1 matches SleepStep::Wait(length, _) ==> since.nanos + length.nanos
            <= answers_given[0].at.nanos
        &&& unhurried(advance(at, answers_given[0]), answers_given[0].at, answers_given.skip(1))
    }
}

/// How many answers can still be asked for at `since` while a lock is waited
/// for.
pub open spec fn answers_left(step: SleepStep, since: Duration) -> nat {
    let poll = Duration::from_millis(CONFIRMATION_POLL_INTERVAL_MS).nanos as int;
    match step {
        SleepStep::ReadLockedHint { ends_at, .. } => (2 * (ends_at.saturating_sub(since).nanos
            as int / poll) + 2) as nat,
        SleepStep::Wait(_, AfterWait::ReadLockedHint { ends_at }) => (2 * (ends_at.saturating_sub(
            since,
        ).nanos as int / poll) + 1) as nat,
        SleepStep::Wait(_, AfterWait::GiveUp) => 1,
        _ => 0,
    }
}

proof fn lemma_unhurried_run<T>(
    at: (SleepModel<T>, SleepStep),
    since: Duration,
    answers_given: Seq<Answer<T>>,
)
    requires
        confirming(at.1) || at.1 is Done,
        at.1 matches SleepStep::Wait(length, AfterWait::ReadLockedHint { ends_at }) ==> {
            &&& length == Duration::from_millis(CONFIRMATION_POLL_INTERVAL_MS)
            &&& since.nanos + length.nanos <= ends_at.nanos
        },
        fits(at, answers_given),
        unhurried(at, since, answers_given),
    ensures
        answers_given.len() <= answers_left(at.1, since),
    decreases answers_given.len(),
{
    if answers_given.len() > 0 {
        let next = advance(at, answers_given[0]);
        let now = answers_given[0].at;
        lemma_unhurried_run(next, now, answers_given.skip(1));
        let poll = Duration::from_millis(CONFIRMATION_POLL_INTERVAL_MS).nanos as int;
        match at.1 {
            SleepStep::ReadLockedHint { ends_at, .. } => {
                let before = ends_at.saturating_sub(since).nanos as int;
                let after = ends_at.saturating_sub(now).nanos as int;
                lemma_div_is_ordered(after, before, poll);
            },
            SleepStep::Wait(_, AfterWait::ReadLockedHint { ends_at }) => {
                let before = ends_at.saturating_sub(since).nanos as int;
                let after = ends_at.saturating_sub(now).nanos as int;
                lemma_div_is_ordered(after, before - poll, poll);
                lemma_div_minus_one(before, poll);
            },
            _ => {},
        }
    }
}

/// The preparation for a suspend comes to an end: the lock attempt and the looks
/// at whether it worked, with the pauses between them, are at most so many.
pub proof fn law_every_suspend_is_let_go_after_finitely_many_steps<T>(
    m: SleepModel<T>,
    answers_given: Seq<Answer<T>>,
)
    requires
        m.lock_before_sleep,
        m.state != SleepState::ReadyToSleep,
        answers_given.len() > 0,
        fits(on_event(m, SleepEvent::PrepareForSleep(true)), answers_given),
        unhurried(
            advance(on_event(m, SleepEvent::PrepareForSleep(true)), answers_given[0]),
            answers_given[0].at,
            answers_given.skip(1),
        ),
    ensures
        answers_given.len() <= 2 * (m.deadline.nanos as int / Duration::from_millis(
            CONFIRMATION_POLL_INTERVAL_MS,
        ).nanos as int) + 3,
{
    let at = on_event(m, SleepEvent::PrepareForSleep(true));
    let since = answers_given[0].at;
    lemma_unhurried_run(advance(at, answers_given[0]), since, answers_given.skip(1));
    let poll = Duration::from_millis(CONFIRMATION_POLL_INTERVAL_MS).nanos as int;
    let left = since.saturating_add(m.deadline).saturating_sub(since).nanos as int;
    lemma_div_is_ordered(left, m.deadline.nanos as int, poll);
    lemma_div_is_ordered(0, left, poll);
}

/// A step on the way to the inhibitor, for `purpose`.
pub open spec fn acquiring(step: SleepStep, purpose: Purpose) -> bool {
    match step {
        SleepStep::AcquireInhibitor(a) | SleepStep::Wait(_, AfterWait::AcquireInhibitor(a)) => {
            &&& a.purpose == purpose
            &&& 1 <= a.attempt <= INHIBITOR_ACQUIRE_ATTEMPTS
        },
        _ => false,
    }
}

/// The machine stays as it is while it tries to take the inhibitor; at the end
/// it holds one or not, which is what it reports, and after a resume it is awake
/// again.
pub open spec fn upkeep_goes_on<T>(
    m: SleepModel<T>,
    purpose: Purpose,
    at: (SleepModel<T>, SleepStep),
) -> bool {
    if acquiring(at.1, purpose) {
        at.0 == m
    } else {
        let inhibitor_held = at.0.inhibitor is Some;
        match purpose {
            Purpose::Upkeep => {
                &&& at.0 == SleepModel { inhibitor: at.0.inhibitor, ..m }
                &&& at.1 == SleepStep::Ensured { inhibitor_held }
            },
            Purpose::Resume => {
                &&& at.0 == SleepModel {
                    inhibitor: at.0.inhibitor,
                    state: SleepState::Awake,
                    ..m
                }
                &&& at.1 == SleepStep::Done(EventOutcome::Resumed { inhibitor_held })
            },
            Purpose::LogindRestart => {
                &&& at.0 == SleepModel { inhibitor: at.0.inhibitor, ..m }
                &&& at.1 == SleepStep::Done(EventOutcome::LogindRestarted { inhibitor_held })
            },
        }
    }
}

/// How many answers can still be asked for on the way to the inhibitor.
pub open spec fn attempts_left(step: SleepStep) -> int {
    match step {
        SleepStep::AcquireInhibitor(a) => 2 * (INHIBITOR_ACQUIRE_ATTEMPTS - a.attempt) + 1,
        SleepStep::Wait(_, AfterWait::AcquireInhibitor(a)) => 2 * (INHIBITOR_ACQUIRE_ATTEMPTS
            - a.attempt) + 2,
        _ => 0,
    }
}

proof fn lemma_acquiring_run<T>(
    m: SleepModel<T>,
    purpose: Purpose,
    at: (SleepModel<T>, SleepStep),
    answers_given: Seq<Answer<T>>,
)
    requires
        m.inhibitor is None,
        upkeep_goes_on(m, purpose, at),
        fits(at, answers_given),
    ensures
        upkeep_goes_on(m, purpose, run(at, answers_given)),
        answers_given.len() <= attempts_left(at.1),
        acquiring(at.1, purpose) && !acquiring(run(at, answers_given).1, purpose) && run(
            at,
            answers_given,
        ).0.inhibitor is None ==> answers_given.len() == attempts_left(at.1),
    decreases answers_given.len(),
{
    if answers_given.len() > 0 {
        assert(acquiring(at.1, purpose));
        lemma_acquiring_run(m, purpose, advance(at, answers_given[0]), answers_given.skip(1));
    }
}

/// Taking the inhibitor is tried a bounded number of times, with nothing in
/// between but pauses, and is given up only after the last of them. Until then
/// the machine stays as it is.
pub proof fn law_taking_the_inhibitor_is_tried_three_times<T>(
    m: SleepModel<T>,
    purpose: Purpose,
    answers_given: Seq<Answer<T>>,
)
    requires
        m.inhibitor is None,
        fits(ensure(m, purpose), answers_given),
    ensures
        ensure(m, purpose).1 is AcquireInhibitor,
        upkeep_goes_on(m, purpose, run(ensure(m, purpose), answers_given)),
        answers_given.len() <= 2 * INHIBITOR_ACQUIRE_ATTEMPTS - 1,
        ({
            let end = run(ensure(m, purpose), answers_given);
            !acquiring(end.1, purpose) && end.0.inhibitor is None ==> answers_given.len() == 2
                * INHIBITOR_ACQUIRE_ATTEMPTS - 1
        }),
{
    lemma_acquiring_run(m, purpose, ensure(m, purpose), answers_given);
}

/// After a resume the first thing asked for is the inhibitor, where it is not
/// held; and when the handling of the resume is over the machine is awake, so
/// that the next suspend is taken up again.
pub proof fn law_a_resume_takes_the_inhibitor_first<T>(
    m: SleepModel<T>,
    answers_given: Seq<Answer<T>>,
)
    requires
        m.lock_before_sleep,
        m.inhibitor is None,
        fits(on_event(m, SleepEvent::PrepareForSleep(false)), answers_given),
    ensures
        on_event(m, SleepEvent::PrepareForSleep(false)) == (
            m,
            SleepStep::AcquireInhibitor(Acquisition { attempt: 1, purpose: Purpose::Resume }),
        ),
        ({
            let end = run(on_event(m, SleepEvent::PrepareForSleep(false)), answers_given);
            !acquiring(end.1, Purpose::Resume) ==> {
                &&& end.1 == SleepStep::Done(
                    EventOutcome::Resumed { inhibitor_held: end.0.inhibitor is Some },
                )
                &&& on_event(end.0, SleepEvent::PrepareForSleep(true)).1 == SleepStep::LockSession(
                    LockTrigger::BeforeSleep,
                )
            }
        }),
{
    lemma_acquiring_run(
        m,
        Purpose::Resume,
        on_event(m, SleepEvent::PrepareForSleep(false)),
        answers_given,
    );
}

/// After a restart of logind the inhibitor taken before is let go of first, and
/// only then another one is asked for.
pub proof fn law_a_logind_restart_replaces_the_inhibitor<T>(
    m: SleepModel<T>,
    answers_given: Seq<Answer<T>>,
)
    requires
        m.lock_before_sleep,
        fits(on_event(m, SleepEvent::LogindRestarted), answers_given),
    ensures
        on_event(m, SleepEvent::LogindRestarted) == (
            SleepModel { inhibitor: None, ..m },
            SleepStep::AcquireInhibitor(
                Acquisition { attempt: 1, purpose: Purpose::LogindRestart },
            ),
        ),
        upkeep_goes_on(
            SleepModel { inhibitor: None, ..m },
            Purpose::LogindRestart,
            run(on_event(m, SleepEvent::LogindRestarted), answers_given),
        ),
{
    lemma_acquiring_run(
        SleepModel { inhibitor: None, ..m },
        Purpose::LogindRestart,
        on_event(m, SleepEvent::LogindRestarted),
        answers_given,
    );
}

/// A second announcement of the same suspend changes nothing and asks for
/// nothing.
pub proof fn law_a_second_announcement_changes_nothing<T>(
    m: SleepModel<T>,
    answers_given: Seq<Answer<T>>,
)
    requires
        m.lock_before_sleep,
        m.state != SleepState::ReadyToSleep,
        answers_given.len() > 0,
        fits(on_event(m, SleepEvent::PrepareForSleep(true)), answers_given),
        run(on_event(m, SleepEvent::PrepareForSleep(true)), answers_given).1 is Done,
    ensures
        ({
            let end = run(on_event(m, SleepEvent::PrepareForSleep(true)), answers_given).0;
            on_event(end, SleepEvent::PrepareForSleep(true)) == (
                end,
                SleepStep::Done(EventOutcome::NoAction),
            )
        }),
{
    law_every_suspend_is_let_go(m, answers_given);
}

/// A request to lock is carried out whether or not locking before sleep is on,
/// reports what came of it, and touches neither the inhibitor nor the state.
pub proof fn law_a_lock_request_touches_nothing_else<T>(m: SleepModel<T>, answer: Answer<T>)
    requires
        answers(on_event(m, SleepEvent::Lock).1, answer.reply),
    ensures
        on_event(m, SleepEvent::Lock) == (
            m,
            SleepStep::LockSession(LockTrigger::LogindLockSignal),
        ),
        advance(on_event(m, SleepEvent::Lock), answer) == (
            m,
            SleepStep::Done(EventOutcome::Locked(answer.reply->LockAttempt_0)),
        ),
{
}

/// A request to unlock does nothing: unlocking is up to the locker.
pub proof fn law_an_unlock_request_does_nothing<T>(m: SleepModel<T>)
    ensures
        on_event(m, SleepEvent::Unlock) == (m, SleepStep::Done(EventOutcome::NoAction)),
{
}

/// With locking before sleep off, no event takes the inhibitor or lets go of
/// it, and only a request to lock asks for anything at all.
pub proof fn law_switched_off_means_off<T>(m: SleepModel<T>, event: SleepEvent)
    requires
        !m.lock_before_sleep,
    ensures
        on_event(m, event).0.inhibitor == m.inhibitor,
        event == SleepEvent::Lock || on_event(m, event).1 == SleepStep::Done(
            EventOutcome::NoAction,
        ),
{
}

/// Between two events the machine is awake or ready to sleep, never in the middle
/// of something; its settings stay as they are; and with locking before sleep off
/// it holds no inhibitor.
pub open spec fn settled<T>(m: SleepModel<T>) -> bool {
    &&& m.state != SleepState::LockPending
    &&& !m.lock_before_sleep ==> m.inhibitor is None
}

/// Whatever is answered, once the handling of an event is over the machine is
/// settled again, with the settings that it had.
pub proof fn law_events_leave_the_machine_settled<T>(
    m: SleepModel<T>,
    event: SleepEvent,
    answers_given: Seq<Answer<T>>,
)
    requires
        settled(m),
        fits(on_event(m, event), answers_given),
        run(on_event(m, event), answers_given).1 is Done,
    ensures
        ({
            let end = run(on_event(m, event), answers_given).0;
            &&& settled(end)
            &&& end.lock_before_sleep == m.lock_before_sleep
            &&& end.deadline == m.deadline
        }),
{
    let at = on_event(m, event);
    if answers_given.len() > 0 {
        match event {
            SleepEvent::PrepareForSleep(true) => {
                law_every_suspend_is_let_go(m, answers_given);
            },
            SleepEvent::PrepareForSleep(false) => {
                lemma_acquiring_run(m, Purpose::Resume, at, answers_given);
            },
            SleepEvent::Lock => {
                let next = advance(at, answers_given[0]);
                assert(fits(next, answers_given.skip(1)));
                assert(run(next, answers_given.skip(1)) == next);
            },
            SleepEvent::Unlock => {},
            SleepEvent::LogindRestarted => {
                lemma_acquiring_run(
                    SleepModel { inhibitor: None, ..m },
                    Purpose::LogindRestart,
                    at,
                    answers_given,
                );
            },
        }
    }
}

/// A look that finds the session not locked, or whose answer cannot be read,
/// before the deadline never ends the preparation for a suspend: the machine stays
/// as it is, inhibitor and all, pauses until the next look, and pauses neither
/// longer than fifty milliseconds nor beyond the deadline.
pub proof fn law_an_early_look_without_a_lock_waits_on<T>(
    m: SleepModel<T>,
    ends_at: Duration,
    hint: Result<bool, LogindError>,
    now: Duration,
)
    requires
        hint != Ok::<bool, LogindError>(true),
        now.nanos < ends_at.nanos,
    ensures
        ({
            let (n, step) = on_hint_read(m, ends_at, Some(hint), now);
            &&& n == m
            &&& step matches SleepStep::Wait(length, then) && {
                &&& now.nanos + 50_000_000 <= ends_at.nanos ==> length.nanos == 50_000_000 && then
                    == AfterWait::ReadLockedHint { ends_at }
                &&& now.nanos + 50_000_000 > ends_at.nanos ==> now.nanos + length.nanos
                    == ends_at.nanos && then == AfterWait::GiveUp
            }
        }),
{
}

/// A look ends the preparation for a suspend exactly where it finds the session
/// locked, where no answer came in time, or where the deadline has passed; and
/// only the first of these counts as confirmed.
pub proof fn law_a_look_ends_the_wait_for_a_reason<T>(
    m: SleepModel<T>,
    ends_at: Duration,
    hint: Option<Result<bool, LogindError>>,
    now: Duration,
)
    ensures
        ({
            let (n, step) = on_hint_read(m, ends_at, hint, now);
            let locked = hint == Some(Ok::<bool, LogindError>(true));
            &&& step is Done <==> locked || hint is None || ends_at.nanos <= now.nanos
            &&& step is Done ==> step == SleepStep::Done(
                EventOutcome::PreparedForSleep(
                    if locked {
                        SleepReadiness::Confirmed
                    } else {
                        SleepReadiness::Unconfirmed
                    },
                ),
            ) && n.inhibitor is None && n.state == SleepState::ReadyToSleep && n.lock_before_sleep
                == m.lock_before_sleep && n.deadline == m.deadline
        }),
{
}

/// A pause between two looks is followed by the next look, which may take all the
/// time that is left; the pause before the deadline by the end of the preparation;
/// and a pause between two attempts at taking the inhibitor by the next attempt.
pub proof fn law_a_pause_leads_on<T>(
    m: SleepModel<T>,
    ends_at: Duration,
    acquisition: Acquisition,
    now: Duration,
)
    ensures
        ({
            let (n, step) = on_waited(m, AfterWait::ReadLockedHint { ends_at }, now);
            &&& n == m
            &&& step matches SleepStep::ReadLockedHint { within, ends_at: e } && e == ends_at && (
            now.nanos <= ends_at.nanos ==> now.nanos + within.nanos == ends_at.nanos) && (
            ends_at.nanos <= now.nanos ==> within.nanos == 0)
        }),
        ({
            let (n, step) = on_waited(m, AfterWait::GiveUp, now);
            &&& step == SleepStep::Done(
                EventOutcome::PreparedForSleep(SleepReadiness::Unconfirmed),
            )
            &&& n.inhibitor is None
            &&& n.state == SleepState::ReadyToSleep
            &&& n.lock_before_sleep == m.lock_before_sleep
            &&& n.deadline == m.deadline
        }),
        on_waited(m, AfterWait::AcquireInhibitor(acquisition), now) == (
            m,
            SleepStep::AcquireInhibitor(acquisition),
        ),
{
}

/// Before a suspend, a locker that is coming up is always waited for: the session
/// is looked at at once, the machine stays as it is, and the wait has the whole
/// deadline, as far as the clock can show it. Where there is nothing to wait for,
/// there is no wait.
pub proof fn law_a_started_locker_is_waited_for<T>(
    m: SleepModel<T>,
    attempt: LockAttempt,
    now: Duration,
)
    ensures
        ({
            let (n, step) = on_lock_finished(m, LockTrigger::BeforeSleep, attempt, now);
            if attempt == LockAttempt::Spawned || attempt == LockAttempt::SpawnPending {
                &&& n == m
                &&& step matches SleepStep::ReadLockedHint { within, ends_at } && {
                    &&& now.nanos + within.nanos == ends_at.nanos
                    &&& within == m.deadline || within.nanos < m.deadline.nanos && ends_at.nanos
                        == u128::MAX
                }
            } else {
                &&& n.inhibitor is None
                &&& n.state == SleepState::ReadyToSleep
                &&& n.lock_before_sleep == m.lock_before_sleep
                &&& n.deadline == m.deadline
                &&& step == SleepStep::Done(
                    EventOutcome::PreparedForSleep(
                        if attempt == LockAttempt::AlreadyLocked {
                            SleepReadiness::AlreadyLocked
                        } else {
                            SleepReadiness::SpawnFailed
                        },
                    ),
                )
            }
        }),
{
}

/// A lock that was not asked for because of a suspend has no bearing on one: the
/// machine stays as it is, and what came of the lock is reported.
pub proof fn law_other_locks_are_only_reported<T>(
    m: SleepModel<T>,
    trigger: LockTrigger,
    attempt: LockAttempt,
    now: Duration,
)
    requires
        trigger != LockTrigger::BeforeSleep,
    ensures
        on_lock_finished(m, trigger, attempt, now) == (
            m,
            SleepStep::Done(EventOutcome::Locked(attempt)),
        ),
{
}

/// An inhibitor that logind grants is held from then on, and it is that one. One
/// that it refuses changes nothing: the next attempt follows after a quarter of a
/// second, up to the third, after which the daemon goes on without.
pub proof fn law_an_inhibitor_granted_is_held<T>(
    m: SleepModel<T>,
    acquisition: Acquisition,
    result: Result<Inhibitor<T>, LogindError>,
)
    ensures
        ({
            let (n, step) = on_acquired(m, acquisition, result);
            match result {
                Ok(inhibitor) => {
                    &&& n.inhibitor == Some(inhibitor)
                    &&& upkeep_goes_on(m, acquisition.purpose, (n, step))
                    &&& step is Done || step is Ensured
                },
                Err(_) => if acquisition.attempt < 3 {
                    &&& n == m
                    &&& step matches SleepStep::Wait(length, AfterWait::AcquireInhibitor(next))
                        && length.nanos == 250_000_000 && next.attempt == acquisition.attempt + 1
                        && next.purpose == acquisition.purpose
                } else {
                    &&& n.inhibitor == m.inhibitor
                    &&& upkeep_goes_on(m, acquisition.purpose, (n, step))
                    &&& step is Done || step is Ensured
                },
            }
        }),
{
}

/// An inhibitor that is held is never taken again, and nothing is asked for on its
/// account; one that is not held is always asked for.
pub proof fn law_an_inhibitor_held_is_not_taken_again<T>(m: SleepModel<T>, purpose: Purpose)
    ensures
        m.inhibitor is Some ==> ensure(m, purpose).0.inhibitor == m.inhibitor && upkeep_goes_on(
            m,
            purpose,
            ensure(m, purpose),
        ) && (ensure(m, purpose).1 is Done || ensure(m, purpose).1 is Ensured),
        m.inhibitor is None ==> ensure(m, purpose) == (
            m,
            SleepStep::AcquireInhibitor(Acquisition { attempt: 1, purpose }),
        ),
{
}

/// With locking before sleep on, a suspend is taken up exactly where it is not
/// known to have been taken up already; a second announcement changes nothing.
pub proof fn law_a_suspend_is_taken_up_once<T>(m: SleepModel<T>)
    requires
        m.lock_before_sleep,
    ensures
        on_event(m, SleepEvent::PrepareForSleep(true)).1 == SleepStep::LockSession(
            LockTrigger::BeforeSleep,
        ) <==> m.state != SleepState::ReadyToSleep,
        m.state == SleepState::ReadyToSleep ==> on_event(m, SleepEvent::PrepareForSleep(true)) == (
            m,
            SleepStep::Done(EventOutcome::NoAction),
        ),
{
}

/// A resume that finds the inhibitor held leaves it alone, is over at once, and
/// leaves the machine awake.
pub proof fn law_a_resume_with_an_inhibitor_is_over_at_once<T>(m: SleepModel<T>)
    requires
        m.lock_before_sleep,
        m.inhibitor is Some,
    ensures
        on_event(m, SleepEvent::PrepareForSleep(false)) == (
            SleepModel { state: SleepState::Awake, ..m },
            SleepStep::Done(EventOutcome::Resumed { inhibitor_held: true }),
        ),
{
}

/// With locking before sleep off, a resume leaves the machine awake, and no other
/// event changes it at all.
pub proof fn law_switched_off_nothing_changes<T>(m: SleepModel<T>, event: SleepEvent)
    requires
        !m.lock_before_sleep,
    ensures
        event == SleepEvent::PrepareForSleep(false) ==> on_event(m, event).0 == (SleepModel {
            state: SleepState::Awake,
            ..m
        }),
        event != SleepEvent::PrepareForSleep(false) ==> on_event(m, event).0 == m,
        event == SleepEvent::Lock ==> on_event(m, event).1 == SleepStep::LockSession(
            LockTrigger::LogindLockSignal,
        ),
{
}

/// Whether every look that got no answer was given all the time that it may take.
pub open spec fn patient<T>(
    at: (SleepModel<T>, SleepStep),
    since: Duration,
    answers_given: Seq<Answer<T>>,
) -> bool
    decreases answers_given.len(),
{
    answers_given.len() > 0 ==> {
        &&& at.1 is ReadLockedHint && answers_given[0].reply == Reply::<T>::LockedHint(None)
            ==> since.nanos + allowed(at.1) <= answers_given[0].at.nanos
        &&& patient(advance(at, answers_given[0]), answers_given[0].at, answers_given.skip(1))
    }
}

/// Whether what `step` asks for at `since`, if it comes to nothing, takes until
/// `ends_at`.
spec fn lasts_until(step: SleepStep, since: Duration, ends_at: Duration) -> bool {
    match step {
        SleepStep::ReadLockedHint { within, ends_at: e } => e == ends_at && since.nanos
            + within.nanos >= ends_at.nanos,
        SleepStep::Wait(_, AfterWait::ReadLockedHint { ends_at: e }) => e == ends_at,
        SleepStep::Wait(length, AfterWait::GiveUp) => since.nanos + length.nanos >= ends_at.nanos,
        _ => false,
    }
}

proof fn lemma_no_early_end<T>(
    at: (SleepModel<T>, SleepStep),
    since: Duration,
    ends_at: Duration,
    answers_given: Seq<Answer<T>>,
)
    requires
        lasts_until(at.1, since, ends_at),
        answers_given.len() > 0,
        fits(at, answers_given),
        unhurried(at, since, answers_given),
        run(at, answers_given).1 is Done,
    ensures
        says_locked(answers_given.last().reply) || answers_given.last().reply == Reply::<
            T,
        >::LockedHint(None) || answers_given.last().at.nanos >= ends_at.nanos,
        patient(at, since, answers_given) ==> says_locked(answers_given.last().reply)
            || answers_given.last().at.nanos >= ends_at.nanos,
    decreases answers_given.len(),
{
    let next = advance(at, answers_given[0]);
    let rest = answers_given.skip(1);
    assert(fits(next, rest));
    assert(unhurried(next, answers_given[0].at, rest));
    if rest.len() > 0 {
        assert(rest.last() == answers_given.last());
        lemma_no_early_end(next, answers_given[0].at, ends_at, rest);
    } else {
        assert(run(next, rest) == next);
    }
}

/// No suspend is let go of early: where a locker is coming up, the preparation
/// ends with the report that the session is locked, or no earlier than the deadline
/// after the locker was started. (Pauses take as long as asked for, and a look
/// counts as unanswered only after all the time that it may take; without the
/// latter, an unanswered look is the one other way to end.)
pub proof fn law_no_suspend_is_let_go_early<T>(m: SleepModel<T>, answers_given: Seq<Answer<T>>)
    requires
        m.lock_before_sleep,
        m.state != SleepState::ReadyToSleep,
        answers_given.len() > 0,
        answers_given[0].at.nanos + m.deadline.nanos <= u128::MAX,
        answers_given[0].reply == Reply::<T>::LockAttempt(LockAttempt::Spawned)
            || answers_given[0].reply == Reply::<T>::LockAttempt(LockAttempt::SpawnPending),
        fits(on_event(m, SleepEvent::PrepareForSleep(true)), answers_given),
        unhurried(
            advance(on_event(m, SleepEvent::PrepareForSleep(true)), answers_given[0]),
            answers_given[0].at,
            answers_given.skip(1),
        ),
        run(on_event(m, SleepEvent::PrepareForSleep(true)), answers_given).1 is Done,
    ensures
        says_locked(answers_given.last().reply) || answers_given.last().reply == Reply::<
            T,
        >::LockedHint(None) || answers_given.last().at.nanos >= answers_given[0].at.nanos
            + m.deadline.nanos,
        patient(
            advance(on_event(m, SleepEvent::PrepareForSleep(true)), answers_given[0]),
            answers_given[0].at,
            answers_given.skip(1),
        ) ==> says_locked(answers_given.last().reply) || answers_given.last().at.nanos
            >= answers_given[0].at.nanos + m.deadline.nanos,
        run(on_event(m, SleepEvent::PrepareForSleep(true)), answers_given).1 == SleepStep::Done(
            EventOutcome::PreparedForSleep(SleepReadiness::Confirmed),
        ) <==> says_locked(answers_given.last().reply),
{
    let at = on_event(m, SleepEvent::PrepareForSleep(true));
    let next = advance(at, answers_given[0]);
    let since = answers_given[0].at;
    let rest = answers_given.skip(1);
    assert(fits(next, rest));
    law_readiness_is_what_happened(m, answers_given);
    if rest.len() == 0 {
        assert(run(next, rest) == next);
    } else {
        assert(rest.last() == answers_given.last());
        lemma_no_early_end(next, since, since.saturating_add(m.deadline), rest);
        lemma_confirmed_run(next, rest);
    }
}

/// The task ends where it is asked to, and where logind's signals are gone, and
/// for no other reason. Every announcement of logind that can be read reaches the
/// machine as what it is.
pub proof fn law_wakeups_reach_the_machine(wants_inhibitor: bool, wakeup: Wakeup, start: bool)
    ensures
        wakeup_action(wants_inhibitor, wakeup) == TaskAction::Stop <==> wakeup == Wakeup::Shutdown
            || wakeup == Wakeup::StreamEnded,
        wakeup_action(wants_inhibitor, wakeup) == TaskAction::Handle(
            SleepEvent::PrepareForSleep(start),
        ) <==> wakeup == Wakeup::PrepareForSleep(Some(start)),
        wakeup_action(wants_inhibitor, wakeup) == TaskAction::Handle(SleepEvent::Lock) <==> wakeup
            == Wakeup::Lock,
        wakeup_action(wants_inhibitor, wakeup) == TaskAction::Handle(SleepEvent::Unlock)
            <==> wakeup == Wakeup::Unlock,
        wakeup_action(wants_inhibitor, wakeup) == TaskAction::Handle(SleepEvent::LogindRestarted)
            <==> wakeup == Wakeup::LogindOwnerChanged,
        wakeup_action(wants_inhibitor, wakeup) == TaskAction::EnsureInhibitor <==> wakeup
            == Wakeup::RetryTick && wants_inhibitor,
{
}

/// Looking after the inhibitor ends with a report of whether it is held. It leaves
/// the machine as it is, but that a resume leaves it awake.
pub proof fn law_upkeep_ends_with_a_report<T>(m: SleepModel<T>)
    ensures
        ensured(m, Purpose::Upkeep) == (
            m,
            SleepStep::Ensured { inhibitor_held: m.inhibitor is Some },
        ),
        ensured(m, Purpose::Resume).1 == SleepStep::Done(
            EventOutcome::Resumed { inhibitor_held: m.inhibitor is Some },
        ),
        ensured(m, Purpose::Resume).0.state == SleepState::Awake,
        ensured(m, Purpose::Resume).0.inhibitor == m.inhibitor,
        ensured(m, Purpose::LogindRestart) == (
            m,
            SleepStep::Done(EventOutcome::LogindRestarted { inhibitor_held: m.inhibitor is Some }),
        ),
{
}

/// How long a lock has been waited for grows with the clock, and is nothing at the
/// start of the wait and the whole deadline at its end.
pub proof fn law_the_time_waited_follows_the_clock<T>(
    m: SleepModel<T>,
    ends_at: Duration,
    now: Duration,
)
    requires
        m.deadline.nanos <= ends_at.nanos,
    ensures
        ends_at.nanos <= now.nanos + m.deadline.nanos ==> waited_for(m, ends_at, now).nanos
            + ends_at.nanos == now.nanos + m.deadline.nanos,
        now.nanos + m.deadline.nanos <= ends_at.nanos ==> waited_for(m, ends_at, now).nanos == 0,
{
}

} // verus!
