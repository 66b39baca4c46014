//! Where the configuration file is.

use saola_session::paths::config_dir_from;
use saola_session::paths::resolve_path;
use std::path::Path;

#[test]
fn saola_env_wins_over_xdg_and_home() {
    let dir = config_dir_from(
        Some("/saola".into()),
        Some("/xdg".into()),
        Some("/home/jordan".into()),
    );
    assert_eq!(dir, Some("/saola".into()));
}

#[test]
fn xdg_wins_over_home() {
    let dir = config_dir_from(None, Some("/xdg".into()), Some("/home/jordan".into()));
    assert_eq!(dir, Some("/xdg/saola".into()));
}

#[test]
fn home_is_the_last_resort() {
    let dir = config_dir_from(None, None, Some("/home/jordan".into()));
    assert_eq!(dir, Some("/home/jordan/.config/saola".into()));
}

#[test]
fn empty_env_var_is_treated_as_unset() {
    let dir = config_dir_from(
        Some("".into()),
        Some("".into()),
        Some("/home/jordan".into()),
    );
    assert_eq!(dir, Some("/home/jordan/.config/saola".into()));
}

#[test]
fn nothing_set_resolves_to_none() {
    let dir = config_dir_from(None, None, None);
    assert_eq!(dir, None);
}

#[test]
fn an_empty_home_resolves_to_none() {
    assert_eq!(config_dir_from(None, None, Some("".into())), None);
    assert_eq!(resolve_path(None, None, Some("".into())), None);
}

#[test]
fn no_separator_is_doubled() {
    assert_eq!(
        config_dir_from(None, Some("/xdg/".into()), None),
        Some("/xdg/saola".into())
    );
    assert_eq!(
        config_dir_from(None, None, Some("/".into())),
        Some("/.config/saola".into())
    );
}

#[test]
fn the_file_and_its_old_form_are_side_by_side() {
    let paths = resolve_path(Some("/etc/saola".into()), None, None).expect("a directory is set");
    assert_eq!(paths.file, "/etc/saola/session.toml".as_bytes().to_vec());
    assert_eq!(paths.stale, "/etc/saola/session.kdl".as_bytes().to_vec());
}

#[test]
fn a_directory_need_not_be_text() {
    let dir = vec![0x2f, 0xff, 0xfe];
    let paths = resolve_path(Some(dir.clone()), None, None).expect("a directory is set");
    assert!(paths.file.starts_with(&dir));
    assert_eq!(paths.file[3..], *"/session.toml".as_bytes());
}

#[test]
fn the_old_form_is_where_the_standard_library_puts_it() {
    for dir in [
        "/etc/saola", "/etc/saola/", "/etc/saola//", "/etc/saola/.", "/etc/saola/./", "/etc/saola/.//./",
        "/", "//", "/.", "/./", "/..", "/a/..", ".", "./", "./.", ".//", "././/", "..", "../", "../.",
        "a", "a/", "a/.", ".a", ".a/.", "a.", "a./", "a/..", "a/.b", "a/b.", "a/...", "./a/.", "...",
    ] {
        let paths = resolve_path(Some(dir.into()), None, None).expect("a directory is set");
        let file = Path::new(dir).join("session.toml");
        let stale = file.with_file_name("session.kdl");
        assert_eq!(String::from_utf8(paths.file).as_deref(), Ok(file.to_str().unwrap()), "{dir}");
        assert_eq!(String::from_utf8(paths.stale).as_deref(), Ok(stale.to_str().unwrap()), "{dir}");
    }
}

#[test]
fn the_old_form_is_found_past_what_names_nothing() {
    let paths = resolve_path(Some("/etc/saola/.//".into()), None, None).expect("a directory is set");
    assert_eq!(paths.file, "/etc/saola/.//session.toml".as_bytes().to_vec());
    assert_eq!(paths.stale, "/etc/saola/session.kdl".as_bytes().to_vec());
}
