//! What happens when nobody uses the session.
//!
//! The compositor reports that the session has been idle for a configured time,
//! and that it is in use again. [`IdlePolicy`] turns these reports into things to
//! do: each of them once per idle period, and none while an application asks for
//! the session to be kept awake.

use crate::config::IdleConfig;
use crate::duration::Duration;
use crate::duration::NANOS_PER_MILLI;
use crate::locker::LockTrigger;
use vstd::prelude::*;

verus! {

/// How long switching the monitors off may take, in milliseconds.
pub const POWER_OFF_TIMEOUT_MS: u64 = 5_000;

/// How often reaching the compositor is tried at startup.
pub const STARTUP_CONNECT_ATTEMPTS: u32 = 10;

/// Milliseconds between two such attempts.
pub const STARTUP_CONNECT_BACKOFF_MS: u64 = 2_000;

/// `timeout` in the milliseconds that the compositor takes, the most it takes
/// where that is out of range.
pub fn timeout_millis(timeout: Duration) -> (r: u32)
    ensures
        r == capped_millis(timeout),
{
    let millis: u128 = timeout.as_millis();
    if millis <= u32::MAX as u128 {
        millis as u32
    } else {
        u32::MAX
    }
}

/// What can happen when the session is idle.
#[derive(Debug, Clone, Copy, PartialEq, Eq, Structural, Hash)]
pub enum IdleTarget {
    /// The session is locked.
    Lock,
    /// The monitors are switched off.
    PowerOff,
}

impl IdleTarget {
    /// The target's name in log lines.
    pub fn as_str(&self) -> (r: &'static str)
        ensures
            r@ == match *self {
                IdleTarget::Lock => "lock"@,
                IdleTarget::PowerOff => "power-off"@,
            },
    {
        match self {
            IdleTarget::Lock => "lock",
            IdleTarget::PowerOff => "power-off",
        }
    }
}

/// What the policy hears of.
#[derive(Debug, Clone, Copy, PartialEq, Eq, Structural)]
pub enum IdleEvent {
    /// The session has been idle for the target's time.
    Idled(IdleTarget),
    /// The session is in use again.
    Resumed(IdleTarget),
    /// Some application asks for the session to be kept awake (`true`), or none
    /// does any more (`false`).
    InhibitChanged(bool),
}

/// What comes of an event.
#[derive(Debug, PartialEq, Eq)]
pub enum IdleOutcome {
    NoAction,
    /// The target is due, and put off until nothing keeps the session awake.
    Suppressed(IdleTarget),
    /// The target is due now.
    Fired(IdleTarget),
    /// The target will be due again after the next idle period.
    Rearmed(IdleTarget),
    InhibitChanged(bool),
    /// All of these, in this order.
    Multiple(Vec<IdleOutcome>),
}

/// Whether two outcomes are the same: the same one, or as many of them, the same
/// one by one.
pub open spec fn same_outcome(a: IdleOutcome, b: IdleOutcome) -> bool
    decreases a,
{
    match (a, b) {
        (IdleOutcome::Multiple(xs), IdleOutcome::Multiple(ys)) => {
            &&& xs.len() == ys.len()
            &&& forall|i: int| 0 <= i < xs.len() ==> same_outcome(#[trigger] xs[i], ys[i])
        },
        (IdleOutcome::Multiple(_), _) | (_, IdleOutcome::Multiple(_)) => false,
        _ => a == b,
    }
}

impl IdleOutcome {
    fn duplicate(&self) -> (r: IdleOutcome)
        ensures
            same_outcome(*self, r),
        decreases self,
    {
        match self {
            IdleOutcome::NoAction => IdleOutcome::NoAction,
            IdleOutcome::Suppressed(target) => IdleOutcome::Suppressed(*target),
            IdleOutcome::Fired(target) => IdleOutcome::Fired(*target),
            IdleOutcome::Rearmed(target) => IdleOutcome::Rearmed(*target),
            IdleOutcome::InhibitChanged(active) => IdleOutcome::InhibitChanged(*active),
            IdleOutcome::Multiple(outcomes) => {
                let mut copies: Vec<IdleOutcome> = Vec::new();
                let mut i: usize = 0;
                while i < outcomes.len()
                    invariant
                        *self == IdleOutcome::Multiple(*outcomes),
                        i <= outcomes.len(),
                        copies.len() == i,
                        forall|j: int|
                            0 <= j < i ==> same_outcome(#[trigger] outcomes[j], copies[j]),
                    decreases outcomes.len() - i,
                {
                    assert(decreases_to!(self->Multiple_0 => outcomes[i as int]));
                    copies.push(outcomes[i].duplicate());
                    i = i + 1;
                }
                IdleOutcome::Multiple(copies)
            },
        }
    }
}

impl Clone for IdleOutcome {
    fn clone(&self) -> (r: IdleOutcome)
        ensures
            same_outcome(*self, r),
    {
        self.duplicate()
    }
}

/// Where a target stands in the current idle period.
#[derive(Debug, Clone, Copy, PartialEq, Eq, Structural)]
pub enum Arm {
    /// It is not due yet.
    Armed,
    /// It was due and has happened.
    Fired,
    /// It was due and was put off.
    Suppressed,
}

/// Decides what happens when the session is idle.
pub struct IdlePolicy {
    lock: Option<Arm>,
    power_off: Option<Arm>,
    inhibit_active: bool,
}

/// What an [`IdlePolicy`] is made of. A target that is not configured has no
/// place in the idle period.
pub ghost struct IdleModel {
    pub lock: Option<Arm>,
    pub power_off: Option<Arm>,
    pub inhibit_active: bool,
}

impl View for IdlePolicy {
    type V = IdleModel;

    closed spec fn view(&self) -> IdleModel {
        IdleModel {
            lock: self.lock,
            power_off: self.power_off,
            inhibit_active: self.inhibit_active,
        }
    }
}

impl IdleModel {
    /// Where `target` stands.
    pub open spec fn arm(self, target: IdleTarget) -> Option<Arm> {
        match target {
            IdleTarget::Lock => self.lock,
            IdleTarget::PowerOff => self.power_off,
        }
    }

    /// The same, but for where `target` stands.
    pub open spec fn with_arm(self, target: IdleTarget, arm: Option<Arm>) -> IdleModel {
        match target {
            IdleTarget::Lock => IdleModel { lock: arm, ..self },
            IdleTarget::PowerOff => IdleModel { power_off: arm, ..self },
        }
    }

    /// Whether `target` was put off.
    pub open spec fn owes(self, target: IdleTarget) -> bool {
        self.arm(target) == Some(Arm::Suppressed)
    }

    /// The targets that were put off, in the order in which they come.
    pub open spec fn owed(self) -> Seq<IdleTarget> {
        let lock = if self.owes(IdleTarget::Lock) {
            seq![IdleTarget::Lock]
        } else {
            seq![]
        };
        if self.owes(IdleTarget::PowerOff) {
            lock.push(IdleTarget::PowerOff)
        } else {
            lock
        }
    }

    /// Where everything stands once the targets that were put off have happened.
    pub open spec fn settled(self) -> IdleModel {
        IdleModel {
            lock: if self.owes(IdleTarget::Lock) {
                Some(Arm::Fired)
            } else {
                self.lock
            },
            power_off: if self.owes(IdleTarget::PowerOff) {
                Some(Arm::Fired)
            } else {
                self.power_off
            },
            inhibit_active: self.inhibit_active,
        }
    }
}

/// The outcomes of having `targets` happen.
pub open spec fn fired(targets: Seq<IdleTarget>) -> Seq<IdleOutcome> {
    targets.map_values(|t: IdleTarget| IdleOutcome::Fired(t))
}

/// The state that an event leads to.
pub open spec fn idle_next(m: IdleModel, event: IdleEvent) -> IdleModel {
    match event {
        IdleEvent::InhibitChanged(true) => IdleModel { inhibit_active: true, ..m },
        IdleEvent::InhibitChanged(false) => IdleModel { inhibit_active: false, ..m.settled() },
        IdleEvent::Resumed(target) => if m.arm(target) is Some {
            m.with_arm(target, Some(Arm::Armed))
        } else {
            m
        },
        IdleEvent::Idled(target) => if m.arm(target) != Some(Arm::Armed) {
            m
        } else if m.inhibit_active {
            m.with_arm(target, Some(Arm::Suppressed))
        } else {
            m.with_arm(target, Some(Arm::Fired))
        },
    }
}

/// Whether `outcome` is what an event comes to.
pub open spec fn is_outcome(m: IdleModel, event: IdleEvent, outcome: IdleOutcome) -> bool {
    match event {
        IdleEvent::InhibitChanged(active) => if active || m.owed().len() == 0 {
            outcome == IdleOutcome::InhibitChanged(active)
        } else {
            outcome matches IdleOutcome::Multiple(outcomes) && outcomes@ == seq![
                IdleOutcome::InhibitChanged(false),
            ] + fired(m.owed())
        },
        IdleEvent::Resumed(target) => outcome == if m.arm(target) is Some {
            IdleOutcome::Rearmed(target)
        } else {
            IdleOutcome::NoAction
        },
        IdleEvent::Idled(target) => outcome == if m.arm(target) != Some(Arm::Armed) {
            IdleOutcome::NoAction
        } else if m.inhibit_active {
            IdleOutcome::Suppressed(target)
        } else {
            IdleOutcome::Fired(target)
        },
    }
}

/// The state before the first event.
pub open spec fn idle_start(idle: IdleConfig) -> IdleModel {
    IdleModel {
        lock: if idle.lock_after is Some {
            Some(Arm::Armed)
        } else {
            None
        },
        power_off: if idle.power_off_after is Some {
            Some(Arm::Armed)
        } else {
            None
        },
        inhibit_active: false,
    }
}

impl IdlePolicy {
    /// A policy for the targets that have a time in `idle`.
    pub fn new(idle: &IdleConfig) -> (r: IdlePolicy)
        ensures
            r@ == idle_start(*idle),
    {
        IdlePolicy {
            lock: if idle.lock_after.is_some() {
                Some(Arm::Armed)
            } else {
                None
            },
            power_off: if idle.power_off_after.is_some() {
                Some(Arm::Armed)
            } else {
                None
            },
            inhibit_active: false,
        }
    }

    /// Where `target` stands, to be changed; `None` where it is not configured.
    fn slot(&mut self, target: IdleTarget) -> (r: Option<&mut Arm>)
        ensures
            match (old(self)@.arm(target), r) {
                (None, None) => final(self)@ == old(self)@,
                (Some(arm), Some(slot)) => {
                    &&& *slot == arm
                    &&& final(self)@ == old(self)@.with_arm(target, Some(*final(slot)))
                },
                _ => false,
            },
    {
        match target {
            IdleTarget::Lock => self.lock.as_mut(),
            IdleTarget::PowerOff => self.power_off.as_mut(),
        }
    }

    /// Takes an event, and says what comes of it.
    pub fn handle(&mut self, event: IdleEvent) -> (r: IdleOutcome)
        ensures
            final(self)@ == idle_next(old(self)@, event),
            is_outcome(old(self)@, event, r),
    {
        match event {
            IdleEvent::InhibitChanged(active) => {
                self.inhibit_active = active;
                if active {
                    return IdleOutcome::InhibitChanged(true);
                }
                let mut outcomes = vec![IdleOutcome::InhibitChanged(false)];
                self.settle(IdleTarget::Lock, &mut outcomes);
                self.settle(IdleTarget::PowerOff, &mut outcomes);
                assert(outcomes@ =~= seq![IdleOutcome::InhibitChanged(false)] + fired(
                    old(self)@.owed(),
                ));
                if outcomes.len() == 1 {
                    IdleOutcome::InhibitChanged(false)
                } else {
                    IdleOutcome::Multiple(outcomes)
                }
            },
            IdleEvent::Resumed(target) => match self.slot(target) {
                Some(arm) => {
                    *arm = Arm::Armed;
                    IdleOutcome::Rearmed(target)
                },
                None => IdleOutcome::NoAction,
            },
            IdleEvent::Idled(target) => {
                let inhibited = self.inhibit_active;
                match self.slot(target) {
                    None => IdleOutcome::NoAction,
                    Some(arm) => {
                        if *arm != Arm::Armed {
                            IdleOutcome::NoAction
                        } else if inhibited {
                            *arm = Arm::Suppressed;
                            IdleOutcome::Suppressed(target)
                        } else {
                            *arm = Arm::Fired;
                            IdleOutcome::Fired(target)
                        }
                    },
                }
            },
        }
    }

    /// Has `target` happen if it was put off.
    fn settle(&mut self, target: IdleTarget, outcomes: &mut Vec<IdleOutcome>)
        ensures
            final(self)@ == if old(self)@.owes(target) {
                old(self)@.with_arm(target, Some(Arm::Fired))
            } else {
                old(self)@
            },
            final(outcomes)@ == if old(self)@.owes(target) {
                old(outcomes)@.push(IdleOutcome::Fired(target))
            } else {
                old(outcomes)@
            },
    {
        if let Some(arm) = self.slot(target) {
            if *arm == Arm::Suppressed {
                *arm = Arm::Fired;
                outcomes.push(IdleOutcome::Fired(target));
            }
        }
    }
}

/// Why the monitors could not be switched off.
#[derive(Debug)]
pub struct PowerOffError {
    message: String,
}

impl View for PowerOffError {
    type V = Seq<char>;

    closed spec fn view(&self) -> Seq<char> {
        self.message@
    }
}

impl PowerOffError {
    pub fn new(message: &str) -> (r: PowerOffError)
        ensures
            r@ == message@,
    {
        PowerOffError { message: message.to_owned() }
    }

    /// What went wrong, in words.
    pub fn message(&self) -> (r: &str)
        ensures
            r@ == self@,
    {
        self.message.as_str()
    }
}

/// How a command ended.
#[derive(Debug)]
pub enum CommandEnd {
    /// It ran and reported success.
    Success,
    /// It ran and reported this status.
    Failure(String),
    /// It could not be started, for this reason.
    NotStarted(String),
}

/// Switches the monitors off through the compositor's own command.
pub struct NiriPowerOff {}

impl NiriPowerOff {
    /// The program to run, and its arguments.
    pub fn command() -> (r: (&'static str, Vec<&'static str>))
        ensures
            r.0@ == "niri"@,
            r.1@.map_values(|a: &'static str| a@) == seq![
                "msg"@,
                "action"@,
                "power-off-monitors"@,
            ],
    {
        let args = vec!["msg", "action", "power-off-monitors"];
        assert(args@.map_values(|a: &'static str| a@) =~= seq![
            "msg"@,
            "action"@,
            "power-off-monitors"@,
        ]);
        ("niri", args)
    }

    /// What running it comes to.
    pub fn power_off_result(end: CommandEnd) -> (r: Result<(), PowerOffError>)
        ensures
            match (end, r) {
                (CommandEnd::Success, Ok(_)) => true,
                (CommandEnd::Failure(status), Err(err)) => err@
                    == "niri msg action power-off-monitors exited with "@ + status@,
                (CommandEnd::NotStarted(reason), Err(err)) => err@
                    == "could not start 'niri msg action power-off-monitors': "@ + reason@,
                _ => false,
            },
    {
        match end {
            CommandEnd::Success => Ok(()),
            CommandEnd::Failure(status) => {
                let message =
                    "niri msg action power-off-monitors exited with ".to_owned().concat(
                    status.as_str(),
                );
                Err(PowerOffError { message })
            },
            CommandEnd::NotStarted(reason) => {
                let message =
                    "could not start 'niri msg action power-off-monitors': ".to_owned().concat(
                    reason.as_str(),
                );
                Err(PowerOffError { message })
            },
        }
    }
}

/// Something to do because the session is idle.
#[derive(Debug, Clone, Copy, PartialEq, Eq, Structural)]
pub enum IdleAction {
    /// Have the session locked.
    LockSession(LockTrigger),
    /// Switch the monitors off, waiting no longer than this for it.
    PowerOffMonitors(Duration),
}

/// What has to be done for a target that is due.
pub open spec fn target_action(target: IdleTarget) -> IdleAction {
    match target {
        IdleTarget::Lock => IdleAction::LockSession(LockTrigger::IdleTimeout),
        IdleTarget::PowerOff => IdleAction::PowerOffMonitors(
            Duration::from_millis(POWER_OFF_TIMEOUT_MS),
        ),
    }
}

/// What has to be done for an outcome, in this order.
pub open spec fn outcome_actions(outcome: IdleOutcome) -> Seq<IdleAction>
    decreases outcome, 0nat,
{
    match outcome {
        IdleOutcome::Multiple(outcomes) => first_actions(outcomes, outcomes.len() as nat),
        IdleOutcome::Fired(target) => seq![target_action(target)],
        _ => seq![],
    }
}

/// What has to be done for the first `n` of `outcomes`, in this order.
pub open spec fn first_actions(outcomes: Vec<IdleOutcome>, n: nat) -> Seq<IdleAction>
    decreases outcomes, n,
{
    if n == 0 || n > outcomes.len() {
        seq![]
    } else {
        first_actions(outcomes, (n - 1) as nat) + outcome_actions(outcomes[n - 1])
    }
}

/// Turns outcomes into things to do.
pub struct IdleExecutor {}

impl IdleExecutor {
    pub fn new() -> (r: IdleExecutor) {
        IdleExecutor {  }
    }

    /// What has to be done for `outcome`, in this order.
    pub fn execute(&self, outcome: &IdleOutcome) -> (r: Vec<IdleAction>)
        ensures
            r@ == outcome_actions(*outcome),
        decreases outcome,
    {
        match outcome {
            IdleOutcome::Multiple(outcomes) => {
                let mut actions: Vec<IdleAction> = Vec::new();
                let mut i: usize = 0;
                while i < outcomes.len()
                    invariant
                        *outcome == IdleOutcome::Multiple(*outcomes),
                        i <= outcomes.len(),
                        actions@ == first_actions(*outcomes, i as nat),
                    decreases outcomes.len() - i,
                {
                    assert(decreases_to!(outcome->Multiple_0 => outcomes[i as int]));
                    let mut more = self.execute(&outcomes[i]);
                    actions.append(&mut more);
                    i = i + 1;
                }
                actions
            },
            IdleOutcome::Fired(IdleTarget::Lock) => vec![
                IdleAction::LockSession(LockTrigger::IdleTimeout),
            ],
            IdleOutcome::Fired(IdleTarget::PowerOff) => vec![
                IdleAction::PowerOffMonitors(Duration::from_millis(POWER_OFF_TIMEOUT_MS)),
            ],
            _ => Vec::new(),
        }
    }
}

/// Whether nothing is configured to happen when the session is idle, so that
/// the compositor need not even be asked.
pub fn policy_disabled(idle: &IdleConfig) -> (r: bool)
    ensures
        r == (idle.lock_after is None && idle.power_off_after is None),
{
    idle.lock_after.is_none() && idle.power_off_after.is_none()
}

/// The reports to ask the compositor for: one for each target that has a time,
/// with that time in milliseconds.
pub fn registrations(idle: &IdleConfig) -> (r: Vec<(IdleTarget, u32)>)
    ensures
        r@ == wanted_reports(*idle),
{
    let mut wanted: Vec<(IdleTarget, u32)> = Vec::new();
    if let Some(timeout) = idle.lock_after {
        wanted.push((IdleTarget::Lock, timeout_millis(timeout)));
    }
    if let Some(timeout) = idle.power_off_after {
        wanted.push((IdleTarget::PowerOff, timeout_millis(timeout)));
    }
    assert(wanted@ =~= wanted_reports(*idle));
    wanted
}

/// `timeout` in whole milliseconds, cut off at what the compositor takes.
pub open spec fn capped_millis(timeout: Duration) -> u32 {
    if timeout.nanos as int / NANOS_PER_MILLI as int <= u32::MAX {
        (timeout.nanos as int / NANOS_PER_MILLI as int) as u32
    } else {
        u32::MAX
    }
}

/// The reports that `idle` calls for, in the order of the targets.
pub open spec fn wanted_reports(idle: IdleConfig) -> Seq<(IdleTarget, u32)> {
    let lock = match idle.lock_after {
        Some(timeout) => seq![(IdleTarget::Lock, capped_millis(timeout))],
        None => seq![],
    };
    match idle.power_off_after {
        Some(timeout) => lock.push((IdleTarget::PowerOff, capped_millis(timeout))),
        None => lock,
    }
}

/// Why the compositor could not be reached.
#[derive(Debug)]
pub struct IdleConnectError {
    message: String,
}

impl View for IdleConnectError {
    type V = Seq<char>;

    closed spec fn view(&self) -> Seq<char> {
        self.message@
    }
}

impl IdleConnectError {
    pub fn new(message: &str) -> (r: IdleConnectError)
        ensures
            r@ == message@,
    {
        IdleConnectError { message: message.to_owned() }
    }

    /// What went wrong, in words.
    pub fn message(&self) -> (r: &str)
        ensures
            r@ == self@,
    {
        self.message.as_str()
    }
}

/// What follows a failed attempt to reach the compositor.
#[derive(Debug)]
pub enum ConnectStep {
    /// Another attempt, of this number, after this time.
    Retry(u32, Duration),
    /// Nothing; this is why.
    GiveUp(IdleConnectError),
}

/// What follows where attempt `attempt` to reach the compositor failed with
/// `err`; the first is attempt 1. The compositor may just not be up yet, so it
/// is tried a few times, and the last error is the one that counts.
pub fn connect_failed(attempt: u32, err: IdleConnectError) -> (r: ConnectStep)
    ensures
        r == if attempt < STARTUP_CONNECT_ATTEMPTS {
            ConnectStep::Retry(
                (attempt + 1) as u32,
                Duration::from_millis(STARTUP_CONNECT_BACKOFF_MS),
            )
        } else {
            ConnectStep::GiveUp(err)
        },
{
    if attempt < STARTUP_CONNECT_ATTEMPTS {
        ConnectStep::Retry(attempt + 1, Duration::from_millis(STARTUP_CONNECT_BACKOFF_MS))
    } else {
        ConnectStep::GiveUp(err)
    }
}

/// What wakes the task that runs a policy. Where several things are there at
/// once, the one that stands first here comes first.
#[derive(Debug, Clone, Copy, PartialEq, Eq, Structural)]
pub enum IdleWakeup {
    /// The daemon is to stop.
    Shutdown,
    /// Applications have begun or ceased to keep the session awake.
    InhibitChanged(bool),
    /// Nobody will say any more whether they do.
    InhibitSenderGone,
    /// A report of the compositor.
    Event(IdleEvent),
    /// The compositor is gone.
    EventsEnded,
}

/// What the task does.
#[derive(Debug, PartialEq, Eq)]
pub enum IdleTaskStep {
    /// End. Where nobody asked for it the daemon ends too, to be started anew.
    Stop,
    /// Carry this out, and wait for the next wakeup.
    Execute(IdleOutcome),
}

/// Runs a policy.
pub struct IdleTask {
    policy: IdlePolicy,
    inhibit_closed: bool,
}

/// The policy, and whether it will hear no more of applications that keep the
/// session awake.
impl View for IdleTask {
    type V = (IdleModel, bool);

    closed spec fn view(&self) -> (IdleModel, bool) {
        (self.policy@, self.inhibit_closed)
    }
}

/// The event that a wakeup brings to the policy, if it brings one.
pub open spec fn wakeup_event(wakeup: IdleWakeup) -> Option<IdleEvent> {
    match wakeup {
        IdleWakeup::InhibitChanged(active) => Some(IdleEvent::InhibitChanged(active)),
        IdleWakeup::Event(event) => Some(event),
        _ => None,
    }
}

impl IdleTask {
    pub fn new(idle: &IdleConfig) -> (r: IdleTask)
        ensures
            r@ == (idle_start(*idle), false),
    {
        IdleTask { policy: IdlePolicy::new(idle), inhibit_closed: false }
    }

    /// Whether it is still worth waiting for [`IdleWakeup::InhibitChanged`].
    pub fn listens_for_inhibits(&self) -> (r: bool)
        ensures
            r == !self@.1,
    {
        !self.inhibit_closed
    }

    /// Takes a wakeup. When nobody says any more whether applications keep the
    /// session awake, what was said last stands.
    pub fn wake(&mut self, wakeup: IdleWakeup) -> (r: IdleTaskStep)
        ensures
            r is Stop <==> wakeup is Shutdown || wakeup is EventsEnded,
            match wakeup_event(wakeup) {
                Some(event) => {
                    &&& final(self)@ == (idle_next(old(self)@.0, event), old(self)@.1)
                    &&& r matches IdleTaskStep::Execute(outcome) && is_outcome(
                        old(self)@.0,
                        event,
                        outcome,
                    )
                },
                None => {
                    &&& final(self)@ == (old(self)@.0, old(self)@.1 || wakeup is InhibitSenderGone)
                    &&& wakeup is InhibitSenderGone ==> r == IdleTaskStep::Execute(
                        IdleOutcome::NoAction,
                    )
                },
            },
    {
        match wakeup {
            IdleWakeup::Shutdown => IdleTaskStep::Stop,
            IdleWakeup::InhibitChanged(active) => IdleTaskStep::Execute(
                self.policy.handle(IdleEvent::InhibitChanged(active)),
            ),
            IdleWakeup::InhibitSenderGone => {
                self.inhibit_closed = true;
                IdleTaskStep::Execute(IdleOutcome::NoAction)
            },
            IdleWakeup::Event(event) => IdleTaskStep::Execute(self.policy.handle(event)),
            IdleWakeup::EventsEnded => IdleTaskStep::Stop,
        }
    }
}

} // verus!
