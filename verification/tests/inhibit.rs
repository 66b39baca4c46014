//! Requests to keep the session awake.

use saola_session::inhibit::claim_outcome;
use saola_session::inhibit::decide_service_mode;
use saola_session::inhibit::next_stage;
use saola_session::inhibit::transition_for;
use saola_session::inhibit::truncated;
use saola_session::inhibit::ActiveTransition;
use saola_session::inhibit::Admission;
use saola_session::inhibit::ClaimError;
use saola_session::inhibit::ClaimOutcome;
use saola_session::inhibit::InhibitReply;
use saola_session::inhibit::InhibitStore;
use saola_session::inhibit::NameReply;
use saola_session::inhibit::PeerStep;
use saola_session::inhibit::PeerWakeup;
use saola_session::inhibit::ScreenSaverInterface;
use saola_session::inhibit::ServiceMode;
use saola_session::inhibit::ServiceStage;
use saola_session::inhibit::ServiceStep;
use saola_session::inhibit::MAX_FIELD_LEN;
use saola_session::inhibit::MAX_GRANTS_PER_PEER;
use saola_session::inhibit::MAX_GRANTS_TOTAL;

#[test]
fn first_inhibit_becomes_active_and_grants_cookie_zero() {
    let mut store = InhibitStore::new();
    let (cookie, transition, _admission) = store.inhibit("peer.1", "firefox", "video playback");
    assert_eq!(cookie, 0);
    assert_eq!(transition, ActiveTransition::BecameActive);
    assert!(store.is_active());
    assert_eq!(store.active_count(), 1);
}

#[test]
fn cookies_are_distinct_and_increasing() {
    let mut store = InhibitStore::new();
    let (first, _, _) = store.inhibit("peer.1", "app-a", "reason-a");
    let (second, transition, _admission) = store.inhibit("peer.2", "app-b", "reason-b");
    assert_ne!(first, second);
    assert_eq!(second, first + 1);
    assert_eq!(transition, ActiveTransition::Unchanged);
    assert_eq!(store.active_count(), 2);
}

#[test]
fn releasing_the_last_cookie_becomes_inactive() {
    let mut store = InhibitStore::new();
    let (cookie, _, _) = store.inhibit("peer.1", "firefox", "video playback");

    let (found, transition) = store.uninhibit(cookie);
    assert!(found);
    assert_eq!(transition, ActiveTransition::BecameInactive);
    assert!(!store.is_active());
}

#[test]
fn releasing_one_of_several_stays_active() {
    let mut store = InhibitStore::new();
    let (first, _, _) = store.inhibit("peer.1", "app-a", "reason-a");
    let (_second, _, _) = store.inhibit("peer.2", "app-b", "reason-b");

    let (found, transition) = store.uninhibit(first);
    assert!(found);
    assert_eq!(transition, ActiveTransition::Unchanged);
    assert!(store.is_active());
    assert_eq!(store.active_count(), 1);
}

#[test]
fn double_uninhibit_is_not_an_error_and_does_nothing() {
    let mut store = InhibitStore::new();
    let (cookie, _, _) = store.inhibit("peer.1", "firefox", "video playback");

    let (found_first, transition_first) = store.uninhibit(cookie);
    assert!(found_first);
    assert_eq!(transition_first, ActiveTransition::BecameInactive);

    let (found_second, transition_second) = store.uninhibit(cookie);
    assert!(!found_second);
    assert_eq!(transition_second, ActiveTransition::Unchanged);
}

#[test]
fn uninhibit_of_a_cookie_that_never_existed_is_not_an_error() {
    let mut store = InhibitStore::new();
    let (found, transition) = store.uninhibit(999);
    assert!(!found);
    assert_eq!(transition, ActiveTransition::Unchanged);
}

#[test]
fn peer_vanished_drops_only_that_peers_cookies() {
    let mut store = InhibitStore::new();
    let (crashed_cookie, _, _) = store.inhibit(":1.50", "crashed-app", "reason");
    let (survivor_cookie, _, _) = store.inhibit(":1.51", "still-running-app", "reason");

    let (dropped, transition) = store.peer_vanished(":1.50");
    assert_eq!(dropped.len(), 1);
    assert_eq!(dropped[0].app, "crashed-app");
    assert_eq!(transition, ActiveTransition::Unchanged);
    assert!(store.is_active());

    let (found, _) = store.uninhibit(crashed_cookie);
    assert!(!found);

    let (found, transition) = store.uninhibit(survivor_cookie);
    assert!(found);
    assert_eq!(transition, ActiveTransition::BecameInactive);
}

#[test]
fn last_peer_vanishing_becomes_inactive() {
    let mut store = InhibitStore::new();
    store.inhibit(":1.50", "crashed-app", "reason");

    let (dropped, transition) = store.peer_vanished(":1.50");
    assert_eq!(dropped.len(), 1);
    assert_eq!(transition, ActiveTransition::BecameInactive);
    assert!(!store.is_active());
}

#[test]
fn vanishing_of_an_unrelated_peer_does_nothing() {
    let mut store = InhibitStore::new();
    store.inhibit(":1.50", "app", "reason");

    let (dropped, transition) = store.peer_vanished(":1.999");
    assert!(dropped.is_empty());
    assert_eq!(transition, ActiveTransition::Unchanged);
    assert!(store.is_active());
}

#[test]
fn truncated_leaves_a_short_string_untouched() {
    assert_eq!(truncated("firefox"), "firefox");
}

#[test]
fn truncated_cuts_a_long_ascii_string_to_the_field_limit() {
    let long = "a".repeat(MAX_FIELD_LEN + 100);
    let cut = truncated(&long);
    assert_eq!(cut.chars().count(), MAX_FIELD_LEN);
}

#[test]
fn truncated_is_char_boundary_safe_on_multi_byte_input() {
    let long = "🔒".repeat(MAX_FIELD_LEN + 10);
    let cut = truncated(&long);
    assert_eq!(cut.chars().count(), MAX_FIELD_LEN);
    assert!(cut.chars().all(|c| c == '🔒'));
}

#[test]
fn a_stored_grant_is_truncated_to_the_field_limit() {
    let mut store = InhibitStore::new();
    let long_app = "x".repeat(MAX_FIELD_LEN + 50);
    let (cookie, _, admission) = store.inhibit("peer.1", &long_app, "reason");
    assert_eq!(admission, Admission::Granted);

    let (dropped, _) = store.peer_vanished("peer.1");
    assert_eq!(dropped.len(), 1);
    assert_eq!(dropped[0].app.chars().count(), MAX_FIELD_LEN);
    let _ = cookie;
}

#[test]
fn a_peer_past_the_per_peer_cap_is_refused_but_still_gets_a_cookie() {
    let mut store = InhibitStore::new();
    for _ in 0..MAX_GRANTS_PER_PEER {
        let (_, _, admission) = store.inhibit("peer.1", "app", "reason");
        assert_eq!(admission, Admission::Granted);
    }
    assert_eq!(store.active_count(), MAX_GRANTS_PER_PEER);

    let (cookie, transition, admission) = store.inhibit("peer.1", "app", "reason");
    assert_eq!(admission, Admission::RefusedPerPeerCap);
    assert_eq!(transition, ActiveTransition::Unchanged);
    let _ = cookie;
    assert_eq!(store.active_count(), MAX_GRANTS_PER_PEER);

    let (_, _, admission) = store.inhibit("peer.2", "app", "reason");
    assert_eq!(admission, Admission::Granted);
}

#[test]
fn the_total_cap_is_refused_even_across_many_distinct_peers() {
    let mut store = InhibitStore::new();
    for i in 0..MAX_GRANTS_TOTAL {
        let peer = format!("peer.{i}");
        let (_, _, admission) = store.inhibit(&peer, "app", "reason");
        assert_eq!(admission, Admission::Granted);
    }
    assert_eq!(store.active_count(), MAX_GRANTS_TOTAL);

    let (_, _, admission) = store.inhibit("one.peer.too.many", "app", "reason");
    assert_eq!(admission, Admission::RefusedTotalCap);
    assert_eq!(store.active_count(), MAX_GRANTS_TOTAL);
}

#[test]
fn a_capped_peer_cannot_suppress_idle() {
    let mut store = InhibitStore::new();
    for _ in 0..MAX_GRANTS_PER_PEER {
        store.inhibit("peer.1", "app", "reason");
    }
    let was_active = store.is_active();
    let (_, transition, admission) = store.inhibit("peer.1", "app", "reason");
    assert_eq!(admission, Admission::RefusedPerPeerCap);
    assert_eq!(transition, ActiveTransition::Unchanged);
    assert_eq!(store.is_active(), was_active);
}

#[test]
fn active_transitions_are_visible_on_the_watch_channel() {
    let mut service = ScreenSaverInterface::new();
    let mut told = vec![false];

    let reply = service.inhibit(Some("peer.1"), "firefox", "video playback");
    told.extend(reply.news);
    assert_eq!(told, vec![false, true]);

    let (found, news) = service.un_inhibit(reply.cookie);
    assert!(found);
    told.extend(news);
    assert_eq!(told, vec![false, true, false]);
}

#[test]
fn a_second_concurrent_inhibit_does_not_resend() {
    let mut service = ScreenSaverInterface::new();
    assert_eq!(
        service.inhibit(Some("peer.1"), "app-a", "reason-a").news,
        Some(true)
    );
    assert_eq!(
        service.inhibit(Some("peer.2"), "app-b", "reason-b").news,
        None
    );
}

#[test]
fn unowned_name_is_claimed_and_serves() {
    assert_eq!(
        decide_service_mode(&Ok(ClaimOutcome::Claimed)),
        ServiceMode::Active
    );
}

#[test]
fn already_owned_name_stays_inert() {
    assert_eq!(
        decide_service_mode(&Ok(ClaimOutcome::AlreadyOwned)),
        ServiceMode::Inert
    );
}

#[test]
fn claim_error_stays_inert() {
    assert_eq!(
        decide_service_mode(&Err(ClaimError::new("fake: bus hiccup"))),
        ServiceMode::Inert
    );
}

#[test]
fn a_request_without_a_sender_is_not_taken() {
    let mut service = ScreenSaverInterface::new();
    assert_eq!(
        service.inhibit(None, "app", "reason"),
        InhibitReply {
            cookie: 0,
            admission: None,
            news: None,
        }
    );
    assert_eq!(service.active_count(), 0);
    let reply = service.inhibit(Some(":1.7"), "app", "reason");
    assert_eq!(reply.cookie, 0);
    assert_eq!(reply.admission, Some(Admission::Granted));
}

#[test]
fn a_vanished_peer_is_reported_with_what_it_left_behind() {
    let mut service = ScreenSaverInterface::new();
    service.inhibit(Some(":1.7"), "one", "reason one");
    service.inhibit(Some(":1.7"), "two", "reason two");
    service.inhibit(Some(":1.8"), "three", "reason three");
    match service.on_peer_wakeup(PeerWakeup::Vanished(Some(":1.7".to_string()))) {
        PeerStep::Dropped(dropped, news) => {
            let mut left: Vec<(String, String)> =
                dropped.into_iter().map(|g| (g.app, g.reason)).collect();
            left.sort();
            assert_eq!(
                left,
                vec![
                    ("one".to_string(), "reason one".to_string()),
                    ("two".to_string(), "reason two".to_string()),
                ]
            );
            assert_eq!(news, None);
        }
        PeerStep::Stop => panic!("the service goes on"),
    }
    match service.on_peer_wakeup(PeerWakeup::Vanished(Some(":1.8".to_string()))) {
        PeerStep::Dropped(dropped, news) => {
            assert_eq!(dropped.len(), 1);
            assert_eq!(news, Some(false));
        }
        PeerStep::Stop => panic!("the service goes on"),
    }
    assert_eq!(service.active_count(), 0);
}

#[test]
fn the_watch_for_peers_ends_with_the_connection() {
    let mut service = ScreenSaverInterface::new();
    service.inhibit(Some(":1.7"), "one", "reason");
    assert!(matches!(
        service.on_peer_wakeup(PeerWakeup::StreamEnded),
        PeerStep::Stop
    ));
    assert!(matches!(
        service.on_peer_wakeup(PeerWakeup::Shutdown),
        PeerStep::Stop
    ));
    match service.on_peer_wakeup(PeerWakeup::Vanished(None)) {
        PeerStep::Dropped(dropped, news) => {
            assert!(dropped.is_empty());
            assert_eq!(news, None);
        }
        PeerStep::Stop => panic!("a signal that cannot be decoded is passed over"),
    }
    assert_eq!(service.active_count(), 1);
}

#[test]
fn the_answers_of_the_bus_say_who_has_the_name() {
    assert_eq!(
        claim_outcome(NameReply::PrimaryOwner).expect("no error"),
        ClaimOutcome::Claimed
    );
    assert_eq!(
        claim_outcome(NameReply::AlreadyOwner).expect("no error"),
        ClaimOutcome::Claimed
    );
    assert_eq!(
        claim_outcome(NameReply::NameTaken).expect("no error"),
        ClaimOutcome::AlreadyOwned
    );
    assert_eq!(
        claim_outcome(NameReply::Unexpected("InQueue".to_string()))
            .expect_err("an error")
            .message(),
        "unexpected RequestName reply with DoNotQueue-only flags: InQueue"
    );
    assert_eq!(
        claim_outcome(NameReply::Failed("no bus".to_string()))
            .expect_err("an error")
            .message(),
        "RequestName failed: no bus"
    );
}

#[test]
fn the_service_comes_up_stage_by_stage() {
    let mut stage = ServiceStage::Connect;
    let mut seen = vec![stage];
    while stage != ServiceStage::Watch {
        match next_stage(stage, true) {
            ServiceStep::Go(next) => stage = next,
            ServiceStep::WaitForShutdown => panic!("every stage worked"),
        }
        seen.push(stage);
    }
    assert_eq!(
        seen,
        vec![
            ServiceStage::Connect,
            ServiceStage::Register,
            ServiceStage::RegisterLegacy,
            ServiceStage::Claim,
            ServiceStage::Proxy,
            ServiceStage::Subscribe,
            ServiceStage::Watch,
        ]
    );
    for stage in seen {
        let expected = if stage == ServiceStage::RegisterLegacy {
            ServiceStep::Go(ServiceStage::Claim)
        } else {
            ServiceStep::WaitForShutdown
        };
        assert_eq!(next_stage(stage, false), expected);
    }
}

#[test]
fn transitions_are_between_none_and_some() {
    assert_eq!(transition_for(false, false), ActiveTransition::Unchanged);
    assert_eq!(transition_for(true, true), ActiveTransition::Unchanged);
    assert_eq!(transition_for(false, true), ActiveTransition::BecameActive);
    assert_eq!(transition_for(true, false), ActiveTransition::BecameInactive);
    assert_eq!(ActiveTransition::Unchanged.news(), None);
}

#[test]
fn a_cookie_handed_in_makes_room_again() {
    let mut store = InhibitStore::new();
    let (first, _, _) = store.inhibit("peer.1", "app", "reason");
    for _ in 1..MAX_GRANTS_PER_PEER {
        store.inhibit("peer.1", "app", "reason");
    }
    let (refused, _, admission) = store.inhibit("peer.1", "app", "reason");
    assert_eq!(admission, Admission::RefusedPerPeerCap);
    assert_eq!(store.uninhibit(refused), (false, ActiveTransition::Unchanged));
    assert_eq!(store.uninhibit(first), (true, ActiveTransition::Unchanged));
    let (again, _, admission) = store.inhibit("peer.1", "app", "reason");
    assert_eq!(admission, Admission::Granted);
    assert_eq!(again, refused + 1);
}

#[test]
fn a_text_of_just_the_limit_is_kept() {
    let just = "é".repeat(MAX_FIELD_LEN);
    assert_eq!(truncated(&just), just);
    let more = just.clone() + "x";
    assert_eq!(truncated(&more), just);
}

#[test]
fn a_dropped_request_can_be_read() {
    let mut store = InhibitStore::new();
    store.inhibit(":1.7", "player", "film");
    let (dropped, _) = store.peer_vanished(":1.7");
    assert_eq!(dropped[0].app(), "player");
    assert_eq!(dropped[0].reason(), "film");
}

#[test]
fn the_count_is_of_requests_that_were_admitted_and_not_ended() {
    let mut store = InhibitStore::new();
    for _ in 0..MAX_GRANTS_PER_PEER + 5 {
        store.inhibit(":1.1", "app", "reason");
    }
    let (second, _, _) = store.inhibit(":1.2", "app", "reason");
    store.inhibit(":1.3", "app", "reason");
    assert_eq!(store.active_count(), MAX_GRANTS_PER_PEER + 2);
    store.uninhibit(second);
    store.uninhibit(second);
    assert_eq!(store.active_count(), MAX_GRANTS_PER_PEER + 1);
    store.peer_vanished(":1.1");
    assert_eq!(store.active_count(), 1);
    assert!(store.is_active());
    store.peer_vanished(":1.3");
    assert_eq!(store.active_count(), 0);
    assert!(!store.is_active());
}
