//! White space, words, and lengths of time.

use saola_session::duration::Duration;
use saola_session::text::is_white_space;
use saola_session::text::split_words;
use saola_session::text::trimmed;

#[test]
fn white_space_is_what_the_standard_library_takes_for_it() {
    for c in '\u{0}'..=char::MAX {
        assert_eq!(is_white_space(c), c.is_whitespace(), "{c:?}");
    }
}

#[test]
fn trimming_is_that_of_the_standard_library() {
    for s in ["", " ", " a", "a ", "\t a b\u{2003}\n", "\u{3000}日本\u{3000}", "x\u{200b}"] {
        assert_eq!(trimmed(s), s.trim());
    }
}

#[test]
fn words_are_those_of_the_standard_library() {
    for s in ["", "  ", "a", " a  bc\td ", "\u{2028}日本\u{3000}語", "a\u{200b}b c"] {
        let expected: Vec<String> = s.split_whitespace().map(str::to_owned).collect();
        assert_eq!(split_words(s), expected);
    }
}

#[test]
fn trimming_keeps_the_words() {
    let s = " \u{85} one two\u{a0}three ";
    assert_eq!(split_words(trimmed(s)), split_words(s));
    assert_eq!(split_words(s), vec!["one", "two", "three"]);
}

#[test]
fn lengths_of_time_have_their_units() {
    assert_eq!(
        Duration::from_secs(2),
        Duration {
            nanos: 2_000_000_000
        }
    );
    assert_eq!(Duration::from_millis(3), Duration { nanos: 3_000_000 });
    assert_eq!(Duration::from_micros(4), Duration { nanos: 4_000 });
    assert_eq!(Duration { nanos: 5_999_999 }.as_millis(), 5);
    assert_eq!(
        Duration::from_secs(u64::MAX).nanos,
        18_446_744_073_709_551_615_000_000_000
    );
}

#[test]
fn lengths_of_time_stay_in_range() {
    let one = Duration { nanos: 1 };
    let most = Duration { nanos: u128::MAX };
    assert_eq!(one.saturating_sub(most), Duration { nanos: 0 });
    assert_eq!(most.saturating_sub(one).nanos, u128::MAX - 1);
    assert_eq!(most.saturating_add(one), most);
    assert_eq!(one.saturating_add(one), Duration { nanos: 2 });
}
