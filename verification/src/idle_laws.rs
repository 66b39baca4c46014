//! What holds of the idle policy over any course of events.

use crate::config::IdleConfig;
use crate::duration::Duration;
use crate::idle::capped_millis;
use crate::idle::first_actions;
use crate::idle::fired;
use crate::idle::idle_next;
use crate::idle::idle_start;
use crate::idle::is_outcome;
use crate::idle::outcome_actions;
use crate::idle::same_outcome;
use crate::idle::target_action;
use crate::idle::wakeup_event;
use crate::idle::wanted_reports;
use crate::idle::Arm;
use crate::idle::IdleAction;
use crate::idle::IdleEvent;
use crate::idle::IdleModel;
use crate::idle::IdleOutcome;
use crate::idle::IdleTarget;
use crate::idle::IdleWakeup;
use crate::locker::LockTrigger;
use vstd::prelude::*;

verus! {

/// The targets that an event makes happen, in this order.
pub open spec fn due(m: IdleModel, event: IdleEvent) -> Seq<IdleTarget> {
    match event {
        IdleEvent::Idled(target) => if m.arm(target) == Some(Arm::Armed) && !m.inhibit_active {
            seq![target]
        } else {
            seq![]
        },
        IdleEvent::InhibitChanged(false) => m.owed(),
        _ => seq![],
    }
}

/// Whether an event makes `target` happen.
pub open spec fn fires(m: IdleModel, event: IdleEvent, target: IdleTarget) -> bool {
    due(m, event).contains(target)
}

/// The state after all of `events`.
pub open spec fn idle_run(m: IdleModel, events: Seq<IdleEvent>) -> IdleModel
    decreases events.len(),
{
    if events.len() == 0 {
        m
    } else {
        idle_run(idle_next(m, events[0]), events.skip(1))
    }
}

/// How often `events` make `target` happen.
pub open spec fn fire_count(m: IdleModel, events: Seq<IdleEvent>, target: IdleTarget) -> nat
    decreases events.len(),
{
    if events.len() == 0 {
        0
    } else {
        let rest = fire_count(idle_next(m, events[0]), events.skip(1), target);
        if fires(m, events[0], target) {
            rest + 1
        } else {
            rest
        }
    }
}

/// Whether a target is put off only while something keeps the session awake.
pub open spec fn consistent(m: IdleModel) -> bool {
    !m.inhibit_active ==> !m.owes(IdleTarget::Lock) && !m.owes(IdleTarget::PowerOff)
}

/// What is done for an outcome is exactly what is due, each target once and in
/// order.
pub proof fn law_what_is_due_is_done(m: IdleModel, event: IdleEvent, outcome: IdleOutcome)
    requires
        is_outcome(m, event, outcome),
    ensures
        outcome_actions(outcome) == due(m, event).map_values(
            |target: IdleTarget| target_action(target),
        ),
{
    let by_target = |target: IdleTarget| target_action(target);
    let actions = due(m, event).map_values(by_target);
    if let IdleOutcome::Multiple(outcomes) = outcome {
        reveal_with_fuel(outcome_actions, 5);
        reveal_with_fuel(first_actions, 5);
        assert(outcomes@ =~= seq![IdleOutcome::InhibitChanged(false)] + fired(m.owed()));
        assert(outcomes[0] == IdleOutcome::InhibitChanged(false));
        assert(outcomes.len() == 1 + m.owed().len());
        assert(outcomes[1] == IdleOutcome::Fired(m.owed()[0]));
        assert(first_actions(outcomes, 1) =~= seq![]);
        assert(first_actions(outcomes, 2) =~= seq![target_action(m.owed()[0])]);
        if m.owed().len() == 2 {
            assert(outcomes[2] == IdleOutcome::Fired(m.owed()[1]));
            assert(first_actions(outcomes, 3) =~= actions);
        }
    }
    assert(outcome_actions(outcome) =~= actions);
}

/// For outcomes that are the same, as a copy and what it was made from are, the
/// same things are done.
pub proof fn law_the_same_outcome_does_the_same(a: IdleOutcome, b: IdleOutcome)
    requires
        same_outcome(a, b),
    ensures
        outcome_actions(a) == outcome_actions(b),
    decreases a, 0nat,
{
    if let (IdleOutcome::Multiple(xs), IdleOutcome::Multiple(ys)) = (a, b) {
        lemma_same_first_actions(xs, ys, xs.len() as nat);
    }
}

proof fn lemma_same_first_actions(xs: Vec<IdleOutcome>, ys: Vec<IdleOutcome>, n: nat)
    requires
        n <= xs.len(),
        xs.len() == ys.len(),
        forall|i: int| 0 <= i < xs.len() ==> same_outcome(#[trigger] xs[i], ys[i]),
    ensures
        first_actions(xs, n) == first_actions(ys, n),
    decreases xs, n,
{
    if n > 0 {
        lemma_same_first_actions(xs, ys, (n - 1) as nat);
        assert(decreases_to!(xs => xs[n - 1]));
        law_the_same_outcome_does_the_same(xs[n - 1], ys[n - 1]);
    }
}

/// An outcome that holds several others is flat: it begins with the news that
/// nothing keeps the session awake any more, and the others are targets that
/// happen.
pub proof fn law_several_outcomes_are_flat(m: IdleModel, event: IdleEvent, outcome: IdleOutcome)
    requires
        is_outcome(m, event, outcome),
        outcome is Multiple,
    ensures
        event == IdleEvent::InhibitChanged(false),
        outcome->Multiple_0@.len() > 1,
        outcome->Multiple_0@[0] == IdleOutcome::InhibitChanged(false),
        forall|i: int|
            1 <= i < outcome->Multiple_0@.len() ==> (#[trigger] outcome->Multiple_0@[i]) is Fired,
{
}

/// Nothing is put off while nothing keeps the session awake: not at the start,
/// and not after any event.
pub proof fn law_nothing_is_put_off_without_reason(idle: IdleConfig, events: Seq<IdleEvent>)
    ensures
        consistent(idle_run(idle_start(idle), events)),
{
    lemma_consistent_run(idle_start(idle), events);
}

proof fn lemma_consistent_run(m: IdleModel, events: Seq<IdleEvent>)
    requires
        consistent(m),
    ensures
        consistent(idle_run(m, events)),
    decreases events.len(),
{
    if events.len() > 0 {
        lemma_consistent_run(idle_next(m, events[0]), events.skip(1));
    }
}

proof fn lemma_fires(m: IdleModel, event: IdleEvent, target: IdleTarget)
    ensures
        fires(m, event, target) <==> match event {
            IdleEvent::Idled(t) => t == target && m.arm(t) == Some(Arm::Armed) && !m.inhibit_active,
            IdleEvent::InhibitChanged(false) => m.owes(target),
            _ => false,
        },
{
    match event {
        IdleEvent::Idled(t) => {
            if m.arm(t) == Some(Arm::Armed) && !m.inhibit_active {
                assert(due(m, event)[0] == t);
            }
        },
        IdleEvent::InhibitChanged(false) => {
            if m.owes(IdleTarget::Lock) {
                assert(m.owed()[0] == IdleTarget::Lock);
            }
            if m.owes(IdleTarget::PowerOff) {
                assert(m.owed().last() == IdleTarget::PowerOff);
            }
        },
        _ => {},
    }
}

/// Within one idle period, which lasts until the session is in use again, a
/// target happens at most once; and not again where it has happened.
pub proof fn law_once_per_idle_period(m: IdleModel, events: Seq<IdleEvent>, target: IdleTarget)
    requires
        !events.contains(IdleEvent::Resumed(target)),
    ensures
        fire_count(m, events, target) <= 1,
        m.arm(target) == Some(Arm::Fired) ==> fire_count(m, events, target) == 0,
    decreases events.len(),
{
    if events.len() > 0 {
        let rest = events.skip(1);
        assert(events.contains(events[0]));
        assert forall|i: int| 0 <= i < rest.len() implies #[trigger] rest[i] != IdleEvent::Resumed(
            target,
        ) by {
            assert(rest[i] == events[i + 1]);
            assert(events.contains(events[i + 1]));
        }
        lemma_fires(m, events[0], target);
        law_once_per_idle_period(idle_next(m, events[0]), rest, target);
    }
}

/// A target without a time never happens, whatever comes.
pub proof fn law_without_a_time_nothing_happens(
    m: IdleModel,
    events: Seq<IdleEvent>,
    target: IdleTarget,
)
    requires
        m.arm(target) is None,
    ensures
        fire_count(m, events, target) == 0,
    decreases events.len(),
{
    if events.len() > 0 {
        lemma_fires(m, events[0], target);
        law_without_a_time_nothing_happens(idle_next(m, events[0]), events.skip(1), target);
    }
}

/// A session that goes idle is seen to: once the target's time has passed, and
/// as long as the session is not in use again, the target has happened, exactly
/// once, as soon as nothing keeps the session awake; no matter what else comes
/// in between.
pub proof fn law_an_idle_session_is_seen_to(
    m: IdleModel,
    events: Seq<IdleEvent>,
    target: IdleTarget,
)
    requires
        consistent(m),
        m.arm(target) == Some(Arm::Armed),
        !events.contains(IdleEvent::Resumed(target)),
        !idle_run(m, seq![IdleEvent::Idled(target)] + events).inhibit_active,
    ensures
        fire_count(m, seq![IdleEvent::Idled(target)] + events, target) == 1,
        idle_run(m, seq![IdleEvent::Idled(target)] + events).arm(target) == Some(Arm::Fired),
{
    let all = seq![IdleEvent::Idled(target)] + events;
    assert(all[0] == IdleEvent::Idled(target));
    assert(all.skip(1) =~= events);
    lemma_fires(m, all[0], target);
    lemma_idle_session(idle_next(m, all[0]), events, target);
}

proof fn lemma_idle_session(m: IdleModel, events: Seq<IdleEvent>, target: IdleTarget)
    requires
        consistent(m),
        m.arm(target) == Some(Arm::Fired) || m.owes(target),
        !events.contains(IdleEvent::Resumed(target)),
        !idle_run(m, events).inhibit_active,
    ensures
        fire_count(m, events, target) == if m.owes(target) {
            1nat
        } else {
            0
        },
        idle_run(m, events).arm(target) == Some(Arm::Fired),
    decreases events.len(),
{
    if events.len() > 0 {
        let rest = events.skip(1);
        assert(events.contains(events[0]));
        assert forall|i: int| 0 <= i < rest.len() implies #[trigger] rest[i] != IdleEvent::Resumed(
            target,
        ) by {
            assert(rest[i] == events[i + 1]);
            assert(events.contains(events[i + 1]));
        }
        lemma_fires(m, events[0], target);
        lemma_idle_session(idle_next(m, events[0]), rest, target);
    }
}

/// While something keeps the session awake, nothing new happens.
pub proof fn law_inhibits_hold_back(m: IdleModel, events: Seq<IdleEvent>, target: IdleTarget)
    requires
        m.inhibit_active,
        !events.contains(IdleEvent::InhibitChanged(false)),
    ensures
        fire_count(m, events, target) == 0,
        idle_run(m, events).inhibit_active,
    decreases events.len(),
{
    if events.len() > 0 {
        let rest = events.skip(1);
        assert(events.contains(events[0]));
        assert forall|i: int| 0 <= i < rest.len() implies #[trigger] rest[i]
            != IdleEvent::InhibitChanged(false) by {
            assert(rest[i] == events[i + 1]);
            assert(events.contains(events[i + 1]));
        }
        lemma_fires(m, events[0], target);
        law_inhibits_hold_back(idle_next(m, events[0]), rest, target);
    }
}

/// That an application begins to keep the session awake undoes nothing that has
/// happened, and puts nothing off by itself.
pub proof fn law_an_inhibit_undoes_nothing(m: IdleModel, target: IdleTarget)
    ensures
        idle_next(m, IdleEvent::InhibitChanged(true)).arm(target) == m.arm(target),
        !fires(m, IdleEvent::InhibitChanged(true), target),
{
    lemma_fires(m, IdleEvent::InhibitChanged(true), target);
}

/// Once the session is in use again, a target with a time happens again after
/// the next idle period; and what was put off before is not made up for.
pub proof fn law_use_begins_a_new_period(m: IdleModel, target: IdleTarget)
    requires
        m.arm(target) is Some,
    ensures
        ({
            let resumed = idle_next(m, IdleEvent::Resumed(target));
            &&& resumed.arm(target) == Some(Arm::Armed)
            &&& !fires(resumed, IdleEvent::InhibitChanged(false), target)
            &&& fires(resumed, IdleEvent::Idled(target), target) <==> !m.inhibit_active
        }),
{
    let resumed = idle_next(m, IdleEvent::Resumed(target));
    lemma_fires(resumed, IdleEvent::InhibitChanged(false), target);
    lemma_fires(resumed, IdleEvent::Idled(target), target);
}

/// What is reported of one target neither changes where the other one stands
/// nor makes it happen.
pub proof fn law_targets_are_independent(m: IdleModel, target: IdleTarget, other: IdleTarget)
    requires
        target != other,
    ensures
        idle_next(m, IdleEvent::Idled(target)).arm(other) == m.arm(other),
        idle_next(m, IdleEvent::Resumed(target)).arm(other) == m.arm(other),
        !fires(m, IdleEvent::Idled(target), other),
        !fires(m, IdleEvent::Resumed(target), other),
{
    lemma_fires(m, IdleEvent::Idled(target), other);
    lemma_fires(m, IdleEvent::Resumed(target), other);
}

/// Whether something keeps the session awake after `events`, by the last that was
/// said of it.
pub open spec fn kept_awake(events: Seq<IdleEvent>) -> bool
    decreases events.len(),
{
    events.len() > 0 && match events.last() {
        IdleEvent::InhibitChanged(active) => active,
        _ => kept_awake(events.drop_last()),
    }
}

/// Whether the session is idle for the target's time after `events`, by the last
/// that was said of it.
pub open spec fn is_idle(events: Seq<IdleEvent>, target: IdleTarget) -> bool
    decreases events.len(),
{
    events.len() > 0 && (events.last() == IdleEvent::Idled(target) || events.last()
        != IdleEvent::Resumed(target) && is_idle(events.drop_last(), target))
}

/// Whether the session was, at some point since it was last in use, idle for the
/// target's time with nothing to keep it awake.
pub open spec fn is_served(events: Seq<IdleEvent>, target: IdleTarget) -> bool
    decreases events.len(),
{
    events.len() > 0 && events.last() != IdleEvent::Resumed(target) && (is_served(
        events.drop_last(),
        target,
    ) || is_idle(events, target) && !kept_awake(events))
}

/// The time that is configured for `target`.
pub open spec fn configured(idle: IdleConfig, target: IdleTarget) -> Option<Duration> {
    match target {
        IdleTarget::Lock => idle.lock_after,
        IdleTarget::PowerOff => idle.power_off_after,
    }
}

proof fn lemma_run_of_push(m: IdleModel, events: Seq<IdleEvent>, event: IdleEvent)
    ensures
        idle_run(m, events.push(event)) == idle_next(idle_run(m, events), event),
    decreases events.len(),
{
    let all = events.push(event);
    if events.len() == 0 {
        assert(all.skip(1) =~= Seq::empty());
        assert(idle_run(idle_next(m, event), all.skip(1)) == idle_next(m, event));
    } else {
        assert(all.skip(1) =~= events.skip(1).push(event));
        lemma_run_of_push(idle_next(m, events[0]), events.skip(1), event);
    }
}

/// Where a target stands is told by the reports alone. It has a place in the idle
/// period exactly where a time, any time, is configured for it. It is not due
/// while the session is not idle; it has happened once the session was idle with
/// nothing to keep it awake; and else it is put off.
pub proof fn law_where_a_target_stands(
    idle: IdleConfig,
    events: Seq<IdleEvent>,
    target: IdleTarget,
)
    ensures
        ({
            let m = idle_run(idle_start(idle), events);
            let arm = match target {
                IdleTarget::Lock => m.lock,
                IdleTarget::PowerOff => m.power_off,
            };
            &&& m.inhibit_active == kept_awake(events)
            &&& arm is Some <==> configured(idle, target) is Some
            &&& arm is Some ==> {
                &&& arm == Some(Arm::Armed) <==> !is_idle(events, target)
                &&& arm == Some(Arm::Fired) <==> is_idle(events, target) && is_served(
                    events,
                    target,
                )
                &&& arm == Some(Arm::Suppressed) <==> is_idle(events, target) && !is_served(
                    events,
                    target,
                )
            }
        }),
        is_served(events, target) ==> is_idle(events, target),
        is_idle(events, target) && !kept_awake(events) ==> is_served(events, target),
    decreases events.len(),
{
    if events.len() > 0 {
        let before = events.drop_last();
        assert(events =~= before.push(events.last()));
        lemma_run_of_push(idle_start(idle), before, events.last());
        law_where_a_target_stands(idle, before, target);
    }
}

/// What happens is told by the reports alone: a target happens with an event
/// exactly where a time, any time, is configured for it, and with that event the
/// session is, for the first time since it was last in use, idle with nothing to
/// keep it awake.
pub proof fn law_what_happens_goes_by_the_reports(
    idle: IdleConfig,
    events: Seq<IdleEvent>,
    event: IdleEvent,
    target: IdleTarget,
)
    ensures
        fires(idle_run(idle_start(idle), events), event, target) <==> configured(idle, target)
            is Some && is_served(events.push(event), target) && !is_served(events, target),
{
    let m = idle_run(idle_start(idle), events);
    let all = events.push(event);
    assert(all.drop_last() =~= events);
    law_where_a_target_stands(idle, events, target);
    lemma_fires(m, event, target);
    assert(m.arm(target) == match target {
        IdleTarget::Lock => m.lock,
        IdleTarget::PowerOff => m.power_off,
    });
    lemma_nothing_owed_while_served(idle, events, target);
}

proof fn lemma_nothing_owed_while_served(
    idle: IdleConfig,
    events: Seq<IdleEvent>,
    target: IdleTarget,
)
    ensures
        idle_run(idle_start(idle), events).owes(target) ==> kept_awake(events),
{
    law_where_a_target_stands(idle, events, target);
}

/// From the start, the first report that the session is idle makes a target happen
/// exactly where a time, any time, is configured for it.
pub proof fn law_a_configured_target_happens(idle: IdleConfig, target: IdleTarget)
    ensures
        fire_count(idle_start(idle), seq![IdleEvent::Idled(target)], target) == if configured(
            idle,
            target,
        ) is Some {
            1nat
        } else {
            0
        },
{
    let events = seq![IdleEvent::Idled(target)];
    assert(events.skip(1) =~= Seq::empty());
    let none = Seq::<IdleEvent>::empty();
    assert(none.push(events[0]) =~= events);
    assert(events.drop_last() =~= none);
    law_what_happens_goes_by_the_reports(idle, none, events[0], target);
    assert(!is_served(none, target) && !kept_awake(none));
    assert(is_idle(events, target) && !kept_awake(events));
    assert(is_served(events, target));
    assert(idle_run(idle_start(idle), none) == idle_start(idle));
    assert(fire_count(idle_next(idle_start(idle), events[0]), events.skip(1), target) == 0);
}

/// A target that happens for being idle is done as what it is: the session is
/// locked, or the monitors are switched off, with five seconds for it.
pub proof fn law_targets_have_their_actions(target: IdleTarget)
    ensures
        target == IdleTarget::Lock <==> target_action(target) == IdleAction::LockSession(
            LockTrigger::IdleTimeout,
        ),
        target == IdleTarget::PowerOff <==> target_action(target) == IdleAction::PowerOffMonitors(
            Duration { nanos: 5_000_000_000 },
        ),
{
}

/// What is done for any outcome: nothing but for a target that happens, that
/// target's one action; and for several outcomes what is done for each of them,
/// one after the other.
pub proof fn law_an_outcome_does_what_its_parts_do(outcome: IdleOutcome)
    ensures
        outcome matches IdleOutcome::Fired(target) ==> outcome_actions(outcome) == seq![
            target_action(target),
        ],
        !(outcome is Fired) && !(outcome is Multiple) ==> outcome_actions(outcome) == Seq::<
            IdleAction,
        >::empty(),
        outcome matches IdleOutcome::Multiple(outcomes) ==> outcome_actions(outcome)
            == outcomes@.map_values(|o: IdleOutcome| outcome_actions(o)).flatten(),
{
    if let IdleOutcome::Multiple(outcomes) = outcome {
        let parts = outcomes@.map_values(|o: IdleOutcome| outcome_actions(o));
        lemma_first_actions_flatten(outcomes, outcomes.len() as nat);
        assert(parts.take(outcomes.len() as int) =~= parts);
    }
}

proof fn lemma_first_actions_flatten(outcomes: Vec<IdleOutcome>, n: nat)
    requires
        n <= outcomes.len(),
    ensures
        first_actions(outcomes, n) == outcomes@.map_values(
            |o: IdleOutcome| outcome_actions(o),
        ).take(n as int).flatten(),
    decreases n,
{
    let parts = outcomes@.map_values(|o: IdleOutcome| outcome_actions(o));
    if n > 0 {
        lemma_first_actions_flatten(outcomes, (n - 1) as nat);
        assert(parts.take(n as int) =~= parts.take(n - 1).push(parts[n - 1]));
        parts.take(n - 1).lemma_flatten_push(parts[n - 1]);
    } else {
        assert(parts.take(0) =~= Seq::empty());
        assert(first_actions(outcomes, 0) =~= parts.take(0).flatten());
    }
}

/// The session is locked for being idle, and the monitors are switched off, exactly
/// where the reports and the configuration call for it; where both come at once,
/// the lock comes first.
pub proof fn law_what_is_done_goes_by_the_reports(
    idle: IdleConfig,
    events: Seq<IdleEvent>,
    event: IdleEvent,
    outcome: IdleOutcome,
)
    requires
        is_outcome(idle_run(idle_start(idle), events), event, outcome),
    ensures
        ({
            let actions = outcome_actions(outcome);
            let all = events.push(event);
            let lock = IdleAction::LockSession(LockTrigger::IdleTimeout);
            let power_off = IdleAction::PowerOffMonitors(Duration { nanos: 5_000_000_000 });
            let lock_due = idle.lock_after is Some && is_served(all, IdleTarget::Lock)
                && !is_served(events, IdleTarget::Lock);
            let power_off_due = idle.power_off_after is Some && is_served(all, IdleTarget::PowerOff)
                && !is_served(events, IdleTarget::PowerOff);
            actions == if lock_due && power_off_due {
                seq![lock, power_off]
            } else if lock_due {
                seq![lock]
            } else if power_off_due {
                seq![power_off]
            } else {
                seq![]
            }
        }),
{
    let m = idle_run(idle_start(idle), events);
    law_what_is_due_is_done(m, event, outcome);
    law_what_happens_goes_by_the_reports(idle, events, event, IdleTarget::Lock);
    law_what_happens_goes_by_the_reports(idle, events, event, IdleTarget::PowerOff);
    lemma_fires(m, event, IdleTarget::Lock);
    lemma_fires(m, event, IdleTarget::PowerOff);
    let due = due(m, event);
    let lock_fires = fires(m, event, IdleTarget::Lock);
    let power_off_fires = fires(m, event, IdleTarget::PowerOff);
    assert(due =~= if lock_fires && power_off_fires {
        seq![IdleTarget::Lock, IdleTarget::PowerOff]
    } else if lock_fires {
        seq![IdleTarget::Lock]
    } else if power_off_fires {
        seq![IdleTarget::PowerOff]
    } else {
        seq![]
    });
    assert(outcome_actions(outcome) =~= due.map_values(|t: IdleTarget| target_action(t)));
}

/// An outcome reports what has become of the target that an event is about:
/// nothing where it has no time or its place does not change, and else its new
/// place. News of what keeps the session awake are always reported, alone or first.
pub proof fn law_an_outcome_reports_what_has_changed(
    idle: IdleConfig,
    events: Seq<IdleEvent>,
    event: IdleEvent,
    outcome: IdleOutcome,
)
    requires
        is_outcome(idle_run(idle_start(idle), events), event, outcome),
    ensures
        match event {
            IdleEvent::Resumed(target) => outcome == if configured(idle, target) is Some {
                IdleOutcome::Rearmed(target)
            } else {
                IdleOutcome::NoAction
            },
            IdleEvent::Idled(target) => outcome == if configured(idle, target) is None || is_idle(
                events,
                target,
            ) {
                IdleOutcome::NoAction
            } else if kept_awake(events) {
                IdleOutcome::Suppressed(target)
            } else {
                IdleOutcome::Fired(target)
            },
            IdleEvent::InhibitChanged(active) => outcome == IdleOutcome::InhibitChanged(active) || (
            !active && outcome is Multiple),
        },
{
    law_where_a_target_stands(idle, events, IdleTarget::Lock);
    law_where_a_target_stands(idle, events, IdleTarget::PowerOff);
}

/// The compositor is asked for a report on a target exactly where a time is
/// configured for it, once, and with that time in milliseconds, rounded down, as
/// far as the compositor's 32 bits go.
pub proof fn law_reports_are_asked_for_with_their_times(
    idle: IdleConfig,
    target: IdleTarget,
    millis: u32,
)
    ensures
        wanted_reports(idle).contains((target, millis)) <==> (configured(idle, target) matches Some(
            time,
        ) && (millis * 1_000_000 <= time.nanos && (time.nanos < (millis + 1) * 1_000_000 || millis
            == 4_294_967_295))),
        wanted_reports(idle).len() == if idle.lock_after is Some {
            1int
        } else {
            0
        } + if idle.power_off_after is Some {
            1int
        } else {
            0
        },
        wanted_reports(idle).len() == 2 ==> wanted_reports(idle)[0].0 == IdleTarget::Lock,
{
    let wanted = wanted_reports(idle);
    if let Some(time) = idle.lock_after {
        assert(wanted[0] == (IdleTarget::Lock, capped_millis(time)));
    }
    if let Some(time) = idle.power_off_after {
        assert(wanted.last() == (IdleTarget::PowerOff, capped_millis(time)));
    }
}

/// Every report and all news reach the policy as what they are, and nothing else
/// does.
pub proof fn law_wakeups_reach_the_policy(wakeup: IdleWakeup, event: IdleEvent, active: bool)
    ensures
        wakeup_event(IdleWakeup::Event(event)) == Some(event),
        wakeup_event(IdleWakeup::InhibitChanged(active)) == Some(IdleEvent::InhibitChanged(active)),
        wakeup_event(wakeup) is Some <==> wakeup is Event || wakeup is InhibitChanged,
{
}

/// A time handed to the compositor is the milliseconds that have fully passed in
/// it, and the most that 32 bits hold where there are more.
pub proof fn law_times_are_handed_over_in_milliseconds(time: Duration)
    ensures
        capped_millis(time) * 1_000_000 <= time.nanos,
        time.nanos < (capped_millis(time) + 1) * 1_000_000 || capped_millis(time) == 4_294_967_295,
{
}

/// Outcomes that are the same are equal, but for those that hold several: these
/// hold as many, the same one by one.
pub proof fn law_the_same_outcome_is_equal(a: IdleOutcome, b: IdleOutcome, i: int)
    requires
        same_outcome(a, b),
    ensures
        a is Multiple <==> b is Multiple,
        !(a is Multiple) ==> a == b,
        a is Multiple ==> a->Multiple_0@.len() == b->Multiple_0@.len(),
        a is Multiple && 0 <= i < a->Multiple_0@.len() ==> same_outcome(
            a->Multiple_0@[i],
            b->Multiple_0@[i],
        ),
{
    if a is Multiple && 0 <= i < a->Multiple_0@.len() {
        assert(same_outcome(a->Multiple_0[i], b->Multiple_0[i]));
    }
}

} // verus!
