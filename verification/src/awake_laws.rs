//! What holds of the idle policy together with the requests to keep the session
//! awake, where the policy is told what there is to be told.

use crate::idle::idle_next;
use crate::idle::Arm;
use crate::idle::IdleEvent;
use crate::idle::IdleModel;
use crate::idle::IdleTarget;
use crate::idle_laws::due;
use crate::idle_laws::fires;
use crate::inhibit::news;
use crate::inhibit::transition;
use crate::inhibit::StoreModel;
use crate::inhibit_laws::store_next;
use crate::inhibit_laws::StoreOp;
use vstd::prelude::*;

verus! {

/// The idle policy and the requests.
pub ghost struct AwakeModel {
    pub idle: IdleModel,
    pub store: StoreModel,
}

/// What can happen to the two.
pub ghost enum AwakeOp {
    /// A report of the compositor on this target: idle (`true`) or in use again
    /// (`false`).
    Report(IdleTarget, bool),
    /// Something about the requests.
    Store(StoreOp),
}

/// The news of what happens to the requests.
pub open spec fn store_news(m: StoreModel, op: StoreOp) -> Option<bool> {
    news(transition(m.active(), store_next(m, op).active()))
}

/// The event that `op` brings to the policy, if it brings one.
pub open spec fn policy_event(m: AwakeModel, op: AwakeOp) -> Option<IdleEvent> {
    match op {
        AwakeOp::Report(target, true) => Some(IdleEvent::Idled(target)),
        AwakeOp::Report(target, false) => Some(IdleEvent::Resumed(target)),
        AwakeOp::Store(op) => match store_news(m.store, op) {
            Some(active) => Some(IdleEvent::InhibitChanged(active)),
            None => None,
        },
    }
}

/// The two after `op`.
pub open spec fn awake_next(m: AwakeModel, op: AwakeOp) -> AwakeModel {
    AwakeModel {
        idle: match policy_event(m, op) {
            Some(event) => idle_next(m.idle, event),
            None => m.idle,
        },
        store: match op {
            AwakeOp::Store(op) => store_next(m.store, op),
            _ => m.store,
        },
    }
}

/// The two after all of `ops`.
pub open spec fn awake_run(m: AwakeModel, ops: Seq<AwakeOp>) -> AwakeModel
    decreases ops.len(),
{
    if ops.len() == 0 {
        m
    } else {
        awake_run(awake_next(m, ops[0]), ops.skip(1))
    }
}

/// Whether `op` makes `target` happen.
pub open spec fn makes_happen(m: AwakeModel, op: AwakeOp, target: IdleTarget) -> bool {
    policy_event(m, op) matches Some(event) && fires(m.idle, event, target)
}

/// Whether the policy holds targets back exactly while a request is in force.
pub open spec fn in_step(m: AwakeModel) -> bool {
    m.idle.inhibit_active == m.store.active()
}

/// The policy stays in step with the requests, whatever happens.
pub proof fn law_the_policy_stays_in_step(m: AwakeModel, ops: Seq<AwakeOp>)
    requires
        in_step(m),
    ensures
        in_step(awake_run(m, ops)),
    decreases ops.len(),
{
    if ops.len() > 0 {
        law_the_policy_stays_in_step(awake_next(m, ops[0]), ops.skip(1));
    }
}

/// A target that is due happens at once exactly where no request is in force;
/// else it is put off.
pub proof fn law_requests_put_off_what_is_due(m: AwakeModel, target: IdleTarget)
    requires
        in_step(m),
        m.idle.arm(target) == Some(Arm::Armed),
    ensures
        makes_happen(m, AwakeOp::Report(target, true), target) <==> !m.store.active(),
        awake_next(m, AwakeOp::Report(target, true)).idle.owes(target) <==> m.store.active(),
{
    let event = IdleEvent::Idled(target);
    if !m.store.active() {
        assert(due(m.idle, event)[0] == target);
    }
}

/// A target that was put off happens with the very step that ends the last
/// request, and with no other before it.
pub proof fn law_what_was_put_off_happens_with_the_last_request(
    m: AwakeModel,
    op: StoreOp,
    target: IdleTarget,
)
    requires
        m.store.active(),
        m.idle.owes(target),
    ensures
        makes_happen(m, AwakeOp::Store(op), target) <==> !store_next(m.store, op).active(),
{
    let event = IdleEvent::InhibitChanged(false);
    if target == IdleTarget::Lock {
        assert(due(m.idle, event)[0] == target);
    } else {
        assert(due(m.idle, event).last() == target);
    }
    assert(!fires(m.idle, IdleEvent::InhibitChanged(true), target));
}

/// An application that goes away without a word does not keep the session open:
/// where all requests are its own, what was put off happens when it goes.
pub proof fn law_a_vanished_application_does_not_keep_the_session_open(
    m: AwakeModel,
    peer: Seq<char>,
    target: IdleTarget,
)
    requires
        m.store.active(),
        m.idle.owes(target),
        forall|cookie: u32| #[trigger]
            m.store.grants.contains_key(cookie) ==> m.store.grants[cookie].peer == peer,
    ensures
        makes_happen(m, AwakeOp::Store(StoreOp::PeerVanished(peer)), target),
{
    assert(m.store.without_peer(peer).grants =~= Map::empty());
    law_what_was_put_off_happens_with_the_last_request(m, StoreOp::PeerVanished(peer), target);
}

} // verus!
