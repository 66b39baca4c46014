//! The configuration file.

use saola_session::config::read_bool;
use saola_session::config::read_locker;
use saola_session::config::read_secs;
use saola_session::config::BadKnob;
use saola_session::config::FileProblem;
use saola_session::config::IdleConfig;
use saola_session::config::Knobs;
use saola_session::config::SessionConfig;
use saola_session::config::DEFAULT_LOCKER;
use saola_session::document::DocValue;
use saola_session::duration::Duration;
use saola_session::locker::split_command;

#[test]
fn default_config_parses() {
    let config = SessionConfig::parse("").expect("an empty document is valid TOML");
    assert_eq!(config, SessionConfig::default());
}

#[test]
fn full_config_parses() {
    let toml = r#"
            locker = "swaylock"
            lock-before-sleep = false

            [idle]
            lock-after-secs = 300
            power-off-after-secs = 600
        "#;
    let config = SessionConfig::parse(toml).expect("well-formed TOML");

    assert_eq!(
        config,
        SessionConfig {
            idle: IdleConfig {
                lock_after: Some(Duration::from_secs(300)),
                power_off_after: Some(Duration::from_secs(600)),
            },
            locker: "swaylock".to_string(),
            lock_before_sleep: false,
        }
    );
}

#[test]
fn sub_minute_timeouts_are_taken_literally() {
    let config = SessionConfig::parse("[idle]\nlock-after-secs = 20").expect("well-formed TOML");
    assert_eq!(config.idle.lock_after, Some(Duration::from_secs(20)));
}

#[test]
fn partial_config_parses() {
    let toml = r#"
            [idle]
            lock-after-secs = 900
        "#;
    let config = SessionConfig::parse(toml).expect("well-formed TOML");

    assert_eq!(config.idle.lock_after, Some(Duration::from_secs(900)));
    assert_eq!(config.idle.power_off_after, None);
    assert_eq!(config.locker, DEFAULT_LOCKER);
    assert!(config.lock_before_sleep);
}

#[test]
fn idle_actions_are_independent() {
    let only_power_off = SessionConfig::parse("[idle]\npower-off-after-secs = 1200")
        .expect("well-formed TOML")
        .idle;
    assert_eq!(only_power_off.lock_after, None);
    assert_eq!(
        only_power_off.power_off_after,
        Some(Duration::from_secs(1200))
    );

    let neither = SessionConfig::parse("[idle]")
        .expect("well-formed TOML")
        .idle;
    assert_eq!(neither, IdleConfig::default());
}

#[test]
fn non_integer_lock_after_is_ignored() {
    let toml = r#"
            [idle]
            lock-after-secs = "soon"
            power-off-after-secs = 600
        "#;
    let config = SessionConfig::parse(toml).expect("well-formed TOML");

    assert_eq!(config.idle.lock_after, None);
    assert_eq!(config.idle.power_off_after, Some(Duration::from_secs(600)));
}

#[test]
fn float_lock_after_is_ignored() {
    let config = SessionConfig::parse("[idle]\nlock-after-secs = 5.5").expect("well-formed TOML");
    assert_eq!(config.idle.lock_after, None);
}

#[test]
fn non_positive_secs_are_ignored() {
    let zero = SessionConfig::parse("[idle]\nlock-after-secs = 0").expect("well-formed TOML");
    assert_eq!(zero.idle.lock_after, None);

    let negative =
        SessionConfig::parse("[idle]\npower-off-after-secs = -5").expect("well-formed TOML");
    assert_eq!(negative.idle.power_off_after, None);
}

#[test]
fn idle_that_is_not_a_table_is_ignored() {
    let toml = r#"
            idle = 5
            locker = "swaylock"
        "#;
    let config = SessionConfig::parse(toml).expect("well-formed TOML");

    assert_eq!(config.idle, IdleConfig::default());
    assert_eq!(config.locker, "swaylock");
}

#[test]
fn non_bool_lock_before_sleep_defaults_true() {
    for bad in [r#"lock-before-sleep = "yes""#, "lock-before-sleep = 0"] {
        let config = SessionConfig::parse(bad).expect("well-formed TOML");
        assert!(
            config.lock_before_sleep,
            "{bad} must not disable before-sleep locking"
        );
    }
}

#[test]
fn explicit_false_lock_before_sleep_is_honored() {
    let config = SessionConfig::parse("lock-before-sleep = false").expect("well-formed TOML");
    assert!(!config.lock_before_sleep);
}

#[test]
fn empty_locker_falls_back_to_default() {
    for empty in [r#"locker = """#, r#"locker = "   ""#] {
        let config = SessionConfig::parse(empty).expect("well-formed TOML");
        assert_eq!(config.locker, DEFAULT_LOCKER);
    }
}

#[test]
fn non_string_locker_falls_back_to_default() {
    let config = SessionConfig::parse("locker = 42").expect("well-formed TOML");
    assert_eq!(config.locker, DEFAULT_LOCKER);
}

#[test]
fn unknown_keys_are_ignored() {
    let toml = r#"
            locker = "swaylock"
            enable-teleportation = true

            [idle]
            lock-after-secs = 300
            dim-after-secs = 120
        "#;
    let config = SessionConfig::parse(toml).expect("well-formed TOML");

    assert_eq!(
        config,
        SessionConfig {
            idle: IdleConfig {
                lock_after: Some(Duration::from_secs(300)),
                power_off_after: None,
            },
            locker: "swaylock".to_string(),
            lock_before_sleep: true,
        }
    );
}

#[test]
fn garbage_is_rejected_by_parse() {
    let result = SessionConfig::parse("this is not = valid [[[ toml");
    assert!(result.is_err());
}

#[test]
fn garbage_file_falls_back_to_defaults() {
    let loaded = SessionConfig::load(Some("this is not = valid [[[ toml"), false);
    assert_eq!(loaded.config, SessionConfig::default());
    assert!(
        loaded.config.lock_before_sleep,
        "a garbage file must not disable before-sleep locking"
    );
    assert!(matches!(loaded.problem, Some(FileProblem::NotToml(_))));
}

#[test]
fn missing_file_falls_back_to_defaults() {
    let loaded = SessionConfig::load(None, false);
    assert_eq!(loaded.config, SessionConfig::default());
    assert!(loaded.problem.is_none());
    assert!(loaded.bad_knobs.is_empty());
}

#[test]
fn a_stale_kdl_sibling_is_reported() {
    let loaded = SessionConfig::load(None, true);
    assert!(matches!(loaded.problem, Some(FileProblem::StaleKdl)));
    assert_eq!(loaded.config, SessionConfig::default());
}

#[test]
fn no_stale_kdl_sibling_is_not_reported() {
    assert!(SessionConfig::load(None, false).problem.is_none());
}

#[test]
fn a_stale_file_beside_a_real_one_is_not_reported() {
    let loaded = SessionConfig::load(Some("locker = \"swaylock\""), true);
    assert!(loaded.problem.is_none());
    assert_eq!(loaded.config.locker, "swaylock");
}

#[test]
fn what_is_wrong_with_garbage_is_said_where_it_is() {
    let err = SessionConfig::parse("locker =\n").expect_err("no value");
    assert!(err.message().contains("TOML parse error at line 1"));

    let loaded = SessionConfig::load(Some("locker =\n"), false);
    match loaded.problem {
        Some(FileProblem::NotToml(problem)) => assert_eq!(problem.message(), err.message()),
        other => panic!("not the expected problem: {other:?}"),
    }
}

#[test]
fn a_key_that_is_there_twice_is_garbage() {
    assert!(SessionConfig::parse("locker = \"a\"\nlocker = \"b\"").is_err());
}

#[test]
fn a_top_level_key_under_the_idle_header_is_not_seen() {
    let config =
        SessionConfig::parse("[idle]\nlock-before-sleep = false").expect("well-formed TOML");
    assert!(config.lock_before_sleep);
}

#[test]
fn the_locker_is_trimmed() {
    let config =
        SessionConfig::parse("locker = \"\\t swaylock -f\\u3000 \"").expect("well-formed TOML");
    assert_eq!(config.locker, "swaylock -f");
}

#[test]
fn every_bad_setting_is_reported_in_order() {
    let text = "locker = 1\nlock-before-sleep = \"no\"\n\
                [idle]\nlock-after-secs = 1.0\npower-off-after-secs = 1979-05-27\n";
    let loaded = SessionConfig::load(Some(text), false);
    assert_eq!(
        loaded.bad_knobs,
        vec![
            BadKnob::LockAfterSecs,
            BadKnob::PowerOffAfterSecs,
            BadKnob::Locker,
            BadKnob::LockBeforeSleep,
        ]
    );
    assert_eq!(loaded.config, SessionConfig::default());
    assert!(loaded.problem.is_none());
}

#[test]
fn an_idle_key_that_is_no_table_is_reported_once() {
    let loaded = SessionConfig::load(Some("idle = [1, 2]"), false);
    assert_eq!(loaded.bad_knobs, vec![BadKnob::Idle]);
    assert_eq!(loaded.config, SessionConfig::default());
}

#[test]
fn good_settings_and_unknown_keys_are_not_reported() {
    let loaded = SessionConfig::load(
        Some("x = 1\nlocker = \"l\"\n[idle]\ny = 2\nlock-after-secs = 9223372036854775807"),
        false,
    );
    assert!(loaded.bad_knobs.is_empty());
    assert_eq!(
        loaded.config.idle.lock_after,
        Some(Duration::from_secs(9223372036854775807))
    );
}

#[test]
fn one_bad_setting_leaves_the_others_alone() {
    let config = SessionConfig::parse(
        "locker = \"\"\nlock-before-sleep = false\n[idle]\npower-off-after-secs = 7",
    )
    .expect("well-formed TOML");
    assert_eq!(config.locker, DEFAULT_LOCKER);
    assert!(!config.lock_before_sleep);
    assert_eq!(config.idle.power_off_after, Some(Duration::from_secs(7)));
    assert_eq!(config.idle.lock_after, None);
}

#[test]
fn the_locker_of_any_configuration_can_be_started() {
    for text in [
        "",
        "not toml at all",
        "locker = \" \"",
        "locker = \" swaylock -f \"",
    ] {
        let config = SessionConfig::load(Some(text), false).config;
        assert!(split_command(&config.locker).is_some());
    }
}

#[test]
fn single_settings_are_read_by_their_kind() {
    assert_eq!(read_secs(&None), None);
    assert_eq!(read_secs(&Some(DocValue::Integer(-1))), None);
    assert_eq!(read_secs(&Some(DocValue::Integer(0))), None);
    assert_eq!(
        read_secs(&Some(DocValue::Integer(1))),
        Some(Duration {
            nanos: 1_000_000_000
        })
    );
    assert_eq!(read_secs(&Some(DocValue::Float)), None);
    assert_eq!(
        read_locker(&Some(DocValue::Text(" a b ".to_string()))),
        Some("a b".to_string())
    );
    assert_eq!(read_locker(&Some(DocValue::Text("\n".to_string()))), None);
    assert_eq!(read_locker(&Some(DocValue::Boolean(true))), None);
    assert_eq!(read_bool(&Some(DocValue::Boolean(false))), Some(false));
    assert_eq!(read_bool(&Some(DocValue::Text("false".to_string()))), None);
    assert_eq!(read_bool(&Some(DocValue::Datetime)), None);
}

#[test]
fn settings_are_found_in_a_table() {
    let mut idle = toml::Table::new();
    idle.insert("lock-after-secs".to_string(), toml::Value::Integer(30));
    let mut body = toml::Table::new();
    body.insert("idle".to_string(), toml::Value::Table(idle));
    body.insert("lock-before-sleep".to_string(), toml::Value::Boolean(false));

    let knobs = Knobs::read(&body);
    assert!(matches!(knobs.idle, Some(DocValue::Table(_))));
    assert!(matches!(knobs.lock_after_secs, Some(DocValue::Integer(30))));
    assert!(knobs.power_off_after_secs.is_none());
    assert!(knobs.locker.is_none());
    assert!(matches!(
        knobs.lock_before_sleep,
        Some(DocValue::Boolean(false))
    ));
    assert!(knobs.bad().is_empty());

    let config = SessionConfig::resolve(&knobs);
    assert_eq!(config.idle.lock_after, Some(Duration::from_secs(30)));
    assert!(!config.lock_before_sleep);
}
