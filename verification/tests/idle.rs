//! The idle policy.

use saola_session::config::IdleConfig;
use saola_session::duration::Duration;
use saola_session::idle::connect_failed;
use saola_session::idle::policy_disabled;
use saola_session::idle::registrations;
use saola_session::idle::timeout_millis;
use saola_session::idle::CommandEnd;
use saola_session::idle::ConnectStep;
use saola_session::idle::IdleAction;
use saola_session::idle::IdleConnectError;
use saola_session::idle::IdleEvent;
use saola_session::idle::IdleExecutor;
use saola_session::idle::IdleOutcome;
use saola_session::idle::IdlePolicy;
use saola_session::idle::IdleTarget;
use saola_session::idle::IdleTask;
use saola_session::idle::IdleTaskStep;
use saola_session::idle::IdleWakeup;
use saola_session::idle::NiriPowerOff;
use saola_session::idle::PowerOffError;
use saola_session::idle::STARTUP_CONNECT_ATTEMPTS;
use saola_session::locker::LockAttempt;
use saola_session::locker::LockStep;
use saola_session::locker::LockTrigger;
use saola_session::locker::SessionLocker;

fn policy(lock_seconds: Option<u64>, power_off_seconds: Option<u64>) -> IdlePolicy {
    IdlePolicy::new(&IdleConfig {
        lock_after: lock_seconds.map(Duration::from_secs),
        power_off_after: power_off_seconds.map(Duration::from_secs),
    })
}

#[test]
fn each_timeout_fires_its_action_once() {
    let mut p = policy(Some(5), Some(10));

    assert_eq!(
        p.handle(IdleEvent::Idled(IdleTarget::Lock)),
        IdleOutcome::Fired(IdleTarget::Lock)
    );
    assert_eq!(
        p.handle(IdleEvent::Idled(IdleTarget::Lock)),
        IdleOutcome::NoAction
    );

    assert_eq!(
        p.handle(IdleEvent::Idled(IdleTarget::PowerOff)),
        IdleOutcome::Fired(IdleTarget::PowerOff)
    );
}

#[test]
fn resume_rearms_and_the_next_idle_fires_again() {
    let mut p = policy(Some(5), None);

    assert_eq!(
        p.handle(IdleEvent::Idled(IdleTarget::Lock)),
        IdleOutcome::Fired(IdleTarget::Lock)
    );
    assert_eq!(
        p.handle(IdleEvent::Resumed(IdleTarget::Lock)),
        IdleOutcome::Rearmed(IdleTarget::Lock)
    );
    assert_eq!(
        p.handle(IdleEvent::Idled(IdleTarget::Lock)),
        IdleOutcome::Fired(IdleTarget::Lock)
    );
}

#[test]
fn disabled_actions_never_fire() {
    let mut p = policy(Some(5), None);

    assert_eq!(
        p.handle(IdleEvent::Idled(IdleTarget::PowerOff)),
        IdleOutcome::NoAction
    );
    assert_eq!(
        p.handle(IdleEvent::Resumed(IdleTarget::PowerOff)),
        IdleOutcome::NoAction
    );

    assert_eq!(
        p.handle(IdleEvent::Idled(IdleTarget::Lock)),
        IdleOutcome::Fired(IdleTarget::Lock)
    );
}

#[test]
fn inhibit_suppresses_a_fresh_idle_period_but_not_an_already_fired_one() {
    let mut p = policy(Some(5), None);

    assert_eq!(
        p.handle(IdleEvent::Idled(IdleTarget::Lock)),
        IdleOutcome::Fired(IdleTarget::Lock)
    );
    assert_eq!(
        p.handle(IdleEvent::InhibitChanged(true)),
        IdleOutcome::InhibitChanged(true)
    );

    p.handle(IdleEvent::Resumed(IdleTarget::Lock));

    assert_eq!(
        p.handle(IdleEvent::Idled(IdleTarget::Lock)),
        IdleOutcome::Suppressed(IdleTarget::Lock)
    );
}

#[test]
fn a_suppressed_target_fires_when_the_inhibit_clears_with_no_resumed() {
    let mut p = policy(Some(5), None);
    p.handle(IdleEvent::InhibitChanged(true));
    assert_eq!(
        p.handle(IdleEvent::Idled(IdleTarget::Lock)),
        IdleOutcome::Suppressed(IdleTarget::Lock)
    );

    assert_eq!(
        p.handle(IdleEvent::InhibitChanged(false)),
        IdleOutcome::Multiple(vec![
            IdleOutcome::InhibitChanged(false),
            IdleOutcome::Fired(IdleTarget::Lock),
        ])
    );

    assert_eq!(
        p.handle(IdleEvent::Idled(IdleTarget::Lock)),
        IdleOutcome::NoAction
    );
}

#[test]
fn both_suppressed_targets_fire_independently_when_the_inhibit_clears() {
    let mut p = policy(Some(5), Some(10));
    p.handle(IdleEvent::InhibitChanged(true));
    assert_eq!(
        p.handle(IdleEvent::Idled(IdleTarget::Lock)),
        IdleOutcome::Suppressed(IdleTarget::Lock)
    );
    assert_eq!(
        p.handle(IdleEvent::Idled(IdleTarget::PowerOff)),
        IdleOutcome::Suppressed(IdleTarget::PowerOff)
    );

    assert_eq!(
        p.handle(IdleEvent::InhibitChanged(false)),
        IdleOutcome::Multiple(vec![
            IdleOutcome::InhibitChanged(false),
            IdleOutcome::Fired(IdleTarget::Lock),
            IdleOutcome::Fired(IdleTarget::PowerOff),
        ])
    );
}

#[test]
fn inhibit_clearing_with_nothing_suppressed_is_an_ordinary_flag_flip() {
    let mut p = policy(Some(5), None);
    p.handle(IdleEvent::InhibitChanged(true));
    assert_eq!(
        p.handle(IdleEvent::InhibitChanged(false)),
        IdleOutcome::InhibitChanged(false)
    );
}

#[test]
fn a_resumed_before_the_inhibit_clears_prevents_a_double_fire() {
    let mut p = policy(Some(5), None);
    p.handle(IdleEvent::InhibitChanged(true));
    p.handle(IdleEvent::Idled(IdleTarget::Lock));

    assert_eq!(
        p.handle(IdleEvent::Resumed(IdleTarget::Lock)),
        IdleOutcome::Rearmed(IdleTarget::Lock)
    );

    assert_eq!(
        p.handle(IdleEvent::InhibitChanged(false)),
        IdleOutcome::InhibitChanged(false)
    );
}

#[test]
fn inhibit_is_independent_per_target() {
    let mut p = policy(Some(5), Some(10));
    p.handle(IdleEvent::InhibitChanged(true));

    assert_eq!(
        p.handle(IdleEvent::Idled(IdleTarget::Lock)),
        IdleOutcome::Suppressed(IdleTarget::Lock)
    );
    assert_eq!(
        p.handle(IdleEvent::Idled(IdleTarget::PowerOff)),
        IdleOutcome::Suppressed(IdleTarget::PowerOff)
    );
}

#[test]
fn both_disabled_means_every_event_is_a_no_op() {
    let mut p = policy(None, None);

    assert_eq!(
        p.handle(IdleEvent::Idled(IdleTarget::Lock)),
        IdleOutcome::NoAction
    );
    assert_eq!(
        p.handle(IdleEvent::Idled(IdleTarget::PowerOff)),
        IdleOutcome::NoAction
    );
}

#[derive(Debug, Clone, PartialEq, Eq)]
enum Step {
    LockedHintRead,
    LockerSpawned,
    PowerOffRan,
    PowerOffFailed,
}

/// Carries out what an executor asks for, in a session that is never locked, and
/// keeps a journal of it.
struct Rig {
    locker: SessionLocker,
    power_off_fails: bool,
    journal: Vec<Step>,
}

impl Rig {
    fn new(power_off_fails: bool) -> Rig {
        Rig {
            locker: SessionLocker::new(),
            power_off_fails,
            journal: Vec::new(),
        }
    }

    fn execute(&mut self, outcome: IdleOutcome) {
        let now = Duration::from_secs(0);
        for action in IdleExecutor::new().execute(&outcome) {
            match action {
                IdleAction::LockSession(trigger) => {
                    assert_eq!(trigger, LockTrigger::IdleTimeout);
                    self.journal.push(Step::LockedHintRead);
                    if self.locker.lock_if_needed(&Ok(false), now) == LockStep::Spawn {
                        self.journal.push(Step::LockerSpawned);
                        let attempt = self.locker.spawn_finished(&Ok(()), now);
                        assert_eq!(attempt, LockAttempt::Spawned);
                    }
                }
                IdleAction::PowerOffMonitors(within) => {
                    assert_eq!(within, Duration::from_secs(5));
                    let end = if self.power_off_fails {
                        CommandEnd::Failure("exit status: 1".to_string())
                    } else {
                        CommandEnd::Success
                    };
                    match NiriPowerOff::power_off_result(end) {
                        Ok(()) => self.journal.push(Step::PowerOffRan),
                        Err(_) => self.journal.push(Step::PowerOffFailed),
                    }
                }
            }
        }
    }
}

#[test]
fn fired_lock_spawns_the_locker() {
    let mut rig = Rig::new(false);
    rig.execute(IdleOutcome::Fired(IdleTarget::Lock));
    assert_eq!(rig.journal, vec![Step::LockedHintRead, Step::LockerSpawned]);
}

#[test]
fn fired_power_off_runs_the_command() {
    let mut rig = Rig::new(false);
    rig.execute(IdleOutcome::Fired(IdleTarget::PowerOff));
    assert_eq!(rig.journal, vec![Step::PowerOffRan]);
}

#[test]
fn failed_power_off_is_logged_and_otherwise_ignored() {
    let mut rig = Rig::new(true);
    rig.execute(IdleOutcome::Fired(IdleTarget::PowerOff));
    assert_eq!(rig.journal, vec![Step::PowerOffFailed]);
}

#[test]
fn multiple_outcome_executes_every_sub_outcome_in_order() {
    let mut rig = Rig::new(false);
    rig.execute(IdleOutcome::Multiple(vec![
        IdleOutcome::InhibitChanged(false),
        IdleOutcome::Fired(IdleTarget::Lock),
    ]));
    assert_eq!(rig.journal, vec![Step::LockedHintRead, Step::LockerSpawned]);
}

#[test]
fn no_action_and_suppressed_and_rearmed_and_inhibit_changed_do_nothing_observable() {
    let mut rig = Rig::new(false);
    rig.execute(IdleOutcome::NoAction);
    rig.execute(IdleOutcome::Suppressed(IdleTarget::Lock));
    rig.execute(IdleOutcome::Rearmed(IdleTarget::PowerOff));
    rig.execute(IdleOutcome::InhibitChanged(true));
    assert_eq!(rig.journal, Vec::new());
}

#[test]
fn nested_outcomes_are_executed_in_order() {
    let mut rig = Rig::new(false);
    rig.execute(IdleOutcome::Multiple(vec![
        IdleOutcome::Multiple(vec![IdleOutcome::Fired(IdleTarget::PowerOff)]),
        IdleOutcome::Multiple(vec![]),
        IdleOutcome::Fired(IdleTarget::Lock),
    ]));
    assert_eq!(
        rig.journal,
        vec![Step::PowerOffRan, Step::LockedHintRead, Step::LockerSpawned]
    );
}

#[test]
fn a_target_fires_once_however_often_it_is_put_off() {
    let mut p = policy(Some(5), None);
    let mut fired: usize = 0;
    for event in [
        IdleEvent::InhibitChanged(true),
        IdleEvent::Idled(IdleTarget::Lock),
        IdleEvent::Idled(IdleTarget::Lock),
        IdleEvent::InhibitChanged(false),
        IdleEvent::InhibitChanged(true),
        IdleEvent::Idled(IdleTarget::Lock),
        IdleEvent::InhibitChanged(false),
    ] {
        fired += IdleExecutor::new().execute(&p.handle(event)).len();
    }
    assert_eq!(fired, 1);
}

#[test]
fn an_inhibit_does_not_undo_what_has_happened() {
    let mut p = policy(Some(5), None);
    p.handle(IdleEvent::Idled(IdleTarget::Lock));
    p.handle(IdleEvent::InhibitChanged(true));
    assert_eq!(
        p.handle(IdleEvent::InhibitChanged(false)),
        IdleOutcome::InhibitChanged(false)
    );
}

#[test]
fn timeouts_are_handed_over_in_milliseconds() {
    assert_eq!(timeout_millis(Duration::from_secs(300)), 300_000);
    assert_eq!(timeout_millis(Duration { nanos: 1_999_999 }), 1);
    assert_eq!(timeout_millis(Duration::from_millis(4_294_967_295)), u32::MAX);
    assert_eq!(timeout_millis(Duration::from_millis(4_294_967_296)), u32::MAX);
    assert_eq!(timeout_millis(Duration::from_secs(u64::MAX)), u32::MAX);
}

#[test]
fn only_configured_targets_are_registered() {
    let mut idle = IdleConfig {
        lock_after: Some(Duration::from_secs(5)),
        power_off_after: Some(Duration::from_secs(10)),
    };
    assert_eq!(
        registrations(&idle),
        vec![(IdleTarget::Lock, 5_000), (IdleTarget::PowerOff, 10_000)]
    );
    idle.lock_after = None;
    assert_eq!(registrations(&idle), vec![(IdleTarget::PowerOff, 10_000)]);
    assert!(!policy_disabled(&idle));
    idle.power_off_after = None;
    assert_eq!(registrations(&idle), vec![]);
    assert!(policy_disabled(&idle));
}

#[test]
fn the_compositor_is_tried_ten_times() {
    let mut attempt: u32 = 1;
    let mut waited_millis: u128 = 0;
    let last = loop {
        let err = IdleConnectError::new(&format!("attempt {attempt}"));
        match connect_failed(attempt, err) {
            ConnectStep::Retry(next, after) => {
                assert_eq!(next, attempt + 1);
                waited_millis += after.as_millis();
                attempt = next;
            }
            ConnectStep::GiveUp(err) => break err,
        }
    };
    assert_eq!(attempt, STARTUP_CONNECT_ATTEMPTS);
    assert_eq!(waited_millis, 18_000);
    assert_eq!(last.message(), "attempt 10");
}

#[test]
fn the_task_runs_the_policy_until_it_is_to_stop() {
    let mut task = IdleTask::new(&IdleConfig {
        lock_after: Some(Duration::from_secs(5)),
        power_off_after: None,
    });
    assert!(task.listens_for_inhibits());
    assert_eq!(
        task.wake(IdleWakeup::InhibitChanged(true)),
        IdleTaskStep::Execute(IdleOutcome::InhibitChanged(true))
    );
    assert_eq!(
        task.wake(IdleWakeup::InhibitSenderGone),
        IdleTaskStep::Execute(IdleOutcome::NoAction)
    );
    assert!(!task.listens_for_inhibits());
    assert_eq!(
        task.wake(IdleWakeup::Event(IdleEvent::Idled(IdleTarget::Lock))),
        IdleTaskStep::Execute(IdleOutcome::Suppressed(IdleTarget::Lock))
    );
    assert_eq!(task.wake(IdleWakeup::EventsEnded), IdleTaskStep::Stop);
    assert_eq!(task.wake(IdleWakeup::Shutdown), IdleTaskStep::Stop);
}

#[test]
fn the_command_for_the_monitors_and_its_failures_are_spelled_out() {
    let (program, args) = NiriPowerOff::command();
    assert_eq!(program, "niri");
    assert_eq!(args, vec!["msg", "action", "power-off-monitors"]);

    let failed = NiriPowerOff::power_off_result(CommandEnd::Failure("exit status: 1".to_string()));
    assert_eq!(
        failed.expect_err("a failure").message(),
        "niri msg action power-off-monitors exited with exit status: 1"
    );
    let missing = NiriPowerOff::power_off_result(CommandEnd::NotStarted("not found".to_string()));
    assert_eq!(
        missing.expect_err("a failure").message(),
        "could not start 'niri msg action power-off-monitors': not found"
    );
    assert_eq!(PowerOffError::new("x").message(), "x");
}

#[test]
fn targets_have_names() {
    assert_eq!(IdleTarget::Lock.as_str(), "lock");
    assert_eq!(IdleTarget::PowerOff.as_str(), "power-off");
}

#[test]
fn a_copy_of_an_outcome_is_the_same() {
    let outcome = IdleOutcome::Multiple(vec![
        IdleOutcome::InhibitChanged(false),
        IdleOutcome::Multiple(vec![IdleOutcome::Fired(IdleTarget::Lock)]),
        IdleOutcome::NoAction,
        IdleOutcome::Rearmed(IdleTarget::PowerOff),
        IdleOutcome::Suppressed(IdleTarget::Lock),
    ]);
    assert_eq!(outcome.clone(), outcome);
    assert_eq!(
        IdleExecutor::new().execute(&outcome.clone()),
        IdleExecutor::new().execute(&outcome)
    );
}
