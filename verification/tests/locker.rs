//! The locker command and the search for the session.

use saola_session::locker::CommandLocker;
use saola_session::locker::LockTrigger;
use saola_session::logind::LogindError;
use saola_session::logind::SessionQuery;
use saola_session::logind::SessionSearch;

#[test]
fn a_command_is_split_into_program_and_arguments() {
    let locker = CommandLocker::new(" swaylock\t-f  --color 000000".to_string());
    let (program, args) = locker.spawn_command().expect("there is a program");
    assert_eq!(program, "swaylock");
    assert_eq!(args, vec!["-f", "--color", "000000"]);
}

#[test]
fn an_empty_command_cannot_be_started() {
    let err = CommandLocker::new(" ".to_string())
        .spawn_command()
        .expect_err("there is no program");
    assert_eq!(err.message(), "the configured locker command is empty");
}

#[test]
fn a_locker_that_does_not_start_is_named() {
    assert!(CommandLocker::spawn_result("swaylock", Ok(())).is_ok());
    let err = CommandLocker::spawn_result("swaylock", Err("not found".to_string()))
        .expect_err("it did not start");
    assert_eq!(err.message(), "could not start locker 'swaylock': not found");
}

#[test]
fn triggers_have_names() {
    assert_eq!(LockTrigger::BeforeSleep.as_str(), "before-sleep");
    assert_eq!(LockTrigger::LogindLockSignal.as_str(), "logind Lock signal");
    assert_eq!(LockTrigger::IdleTimeout.as_str(), "idle timeout");
}

/// Looks for the session where the ways to find it answer as given.
fn search(
    id: Option<&str>,
    by_id: Result<&str, &str>,
    by_pid: Result<&str, &str>,
    display: Result<&str, &str>,
) -> (Vec<String>, Result<String, String>) {
    let mut asked: Vec<String> = Vec::new();
    let mut query = SessionQuery::first(id.map(str::to_string));
    loop {
        let (name, answer) = match &query {
            SessionQuery::ById(id) => (format!("id {id}"), by_id),
            SessionQuery::ByPid => ("pid".to_string(), by_pid),
            SessionQuery::UserDisplay => ("display".to_string(), display),
        };
        asked.push(name);
        let answer = match answer {
            Ok(path) => Ok(path.to_string()),
            Err(message) => Err(LogindError::new(message)),
        };
        match query.answered(answer) {
            SessionSearch::Found(path) => return (asked, Ok(path)),
            SessionSearch::Ask(next) => query = next,
            SessionSearch::Failed(err) => return (asked, Err(err.message().to_string())),
        }
    }
}

#[test]
fn the_session_is_first_looked_for_by_its_id() {
    assert_eq!(
        search(Some("c1"), Ok("/s/c1"), Ok("/s/pid"), Ok("/s/display")),
        (vec!["id c1".to_string()], Ok("/s/c1".to_string()))
    );
    assert_eq!(
        search(Some(""), Ok("/s/c1"), Ok("/s/pid"), Ok("/s/display")),
        (vec!["pid".to_string()], Ok("/s/pid".to_string()))
    );
}

#[test]
fn the_display_session_is_the_last_resort() {
    assert_eq!(
        search(Some("c1"), Err("no"), Err("no"), Ok("/s/display")),
        (
            vec![
                "id c1".to_string(),
                "pid".to_string(),
                "display".to_string()
            ],
            Ok("/s/display".to_string())
        )
    );
}

#[test]
fn a_user_without_a_display_session_has_none() {
    let (asked, found) = search(None, Ok("/s/c1"), Err("no"), Ok("/"));
    assert_eq!(asked, vec!["pid", "display"]);
    assert_eq!(
        found,
        Err("the logind user has no display session (is this a graphical login?)".to_string())
    );
    let (_, found) = search(None, Ok("/s/c1"), Err("no"), Err("GetUserByPID failed: x"));
    assert_eq!(found, Err("GetUserByPID failed: x".to_string()));
}
