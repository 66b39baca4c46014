//! The idle policy together with the requests to keep the session awake.

use saola_session::config::IdleConfig;
use saola_session::duration::Duration;
use saola_session::idle::IdleEvent;
use saola_session::idle::IdleOutcome;
use saola_session::idle::IdlePolicy;
use saola_session::idle::IdleTarget;
use saola_session::inhibit::PeerStep;
use saola_session::inhibit::PeerWakeup;
use saola_session::inhibit::ScreenSaverInterface;

fn lock_only() -> IdlePolicy {
    IdlePolicy::new(&IdleConfig {
        lock_after: Some(Duration::from_secs(5)),
        power_off_after: None,
    })
}

fn tell(policy: &mut IdlePolicy, news: Option<bool>) -> Option<IdleOutcome> {
    news.map(|active| policy.handle(IdleEvent::InhibitChanged(active)))
}

fn lock_fires_late() -> Option<IdleOutcome> {
    Some(IdleOutcome::Multiple(vec![
        IdleOutcome::InhibitChanged(false),
        IdleOutcome::Fired(IdleTarget::Lock),
    ]))
}

#[test]
fn the_lock_waits_for_the_last_request() {
    let mut policy = lock_only();
    let mut service = ScreenSaverInterface::new();
    let first = service.inhibit(Some(":1.1"), "player", "film");
    tell(&mut policy, first.news);
    let second = service.inhibit(Some(":1.2"), "browser", "call");
    assert_eq!(tell(&mut policy, second.news), None);
    assert_eq!(
        policy.handle(IdleEvent::Idled(IdleTarget::Lock)),
        IdleOutcome::Suppressed(IdleTarget::Lock)
    );
    let (_, news) = service.un_inhibit(first.cookie);
    assert_eq!(tell(&mut policy, news), None);
    let (_, news) = service.un_inhibit(second.cookie);
    assert_eq!(tell(&mut policy, news), lock_fires_late());
}

#[test]
fn an_application_that_crashes_does_not_keep_the_session_open() {
    let mut policy = lock_only();
    let mut service = ScreenSaverInterface::new();
    for _ in 0..3 {
        let reply = service.inhibit(Some(":1.1"), "player", "film");
        tell(&mut policy, reply.news);
    }
    policy.handle(IdleEvent::Idled(IdleTarget::Lock));
    match service.on_peer_wakeup(PeerWakeup::Vanished(Some(":1.1".to_string()))) {
        PeerStep::Dropped(dropped, news) => {
            assert_eq!(dropped.len(), 3);
            assert_eq!(tell(&mut policy, news), lock_fires_late());
        }
        PeerStep::Stop => panic!("the service goes on"),
    }
}

#[test]
fn a_request_without_effect_does_not_put_the_lock_off() {
    let mut policy = lock_only();
    let mut service = ScreenSaverInterface::new();
    let reply = service.inhibit(None, "player", "film");
    assert_eq!(tell(&mut policy, reply.news), None);
    assert_eq!(
        policy.handle(IdleEvent::Idled(IdleTarget::Lock)),
        IdleOutcome::Fired(IdleTarget::Lock)
    );
}
