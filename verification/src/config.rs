//! The daemon's configuration, `session.toml`.
//!
//! ```toml
//! locker = "saola-lockscreen"   # the command that locks the session
//! lock-before-sleep = true
//!
//! [idle]
//! lock-after-secs = 300         # whole seconds; without it the session is
//!                               # never locked for being idle
//! power-off-after-secs = 600    # the same for switching the monitors off
//! ```
//!
//! The file and everything in it can be left out. No mistake in it stops the
//! daemon: a file that cannot be read, or is not TOML, counts as none, a setting
//! that makes no sense counts as left out, and a key that is not known is passed
//! over. In particular no mistake turns locking before sleep off.

use crate::document::entry;
use crate::document::parse_document;
use crate::document::table_get;
use crate::document::toml_document;
use crate::document::DocModel;
use crate::document::DocValue;
use crate::duration::Duration;
use crate::text::law_trim_is_empty_without_words;
use crate::text::law_trim_keeps_words;
use crate::text::law_trim_leaves_no_outer_white_space;
use crate::text::law_trim_takes_off_the_ends;
use crate::text::law_words_keep_all_but_white_space;
use crate::text::trim;
use crate::text::trimmed;
use crate::text::white_space;
use crate::text::words;
use vstd::prelude::*;

verus! {

/// The name of the configuration file.
pub const FILE_NAME: &'static str = "session.toml";

/// The name that it had, with another format, in old versions.
pub const STALE_FILE_NAME: &'static str = "session.kdl";

/// The command that locks the session where none is configured.
pub const DEFAULT_LOCKER: &'static str = "saola-lockscreen";

/// How long the session has to be idle before something happens. Where a time
/// is missing, that thing never happens.
#[derive(Debug, Clone, Copy, PartialEq, Eq, Structural)]
pub struct IdleConfig {
    /// Until the session is locked.
    pub lock_after: Option<Duration>,
    /// Until the monitors are switched off.
    pub power_off_after: Option<Duration>,
}

impl Default for IdleConfig {
    /// Nothing happens, however long the session is idle.
    fn default() -> (r: IdleConfig)
        ensures
            r == (IdleConfig { lock_after: None, power_off_after: None }),
    {
        IdleConfig { lock_after: None, power_off_after: None }
    }
}

/// The daemon's configuration.
#[derive(Debug, Clone, PartialEq)]
pub struct SessionConfig {
    pub idle: IdleConfig,
    /// The command that locks the session.
    pub locker: String,
    /// Whether the session is locked before the system sleeps.
    pub lock_before_sleep: bool,
}

/// What a [`SessionConfig`] says.
pub ghost struct ConfigModel {
    pub idle: IdleConfig,
    pub locker: Seq<char>,
    pub lock_before_sleep: bool,
}

impl View for SessionConfig {
    type V = ConfigModel;

    open spec fn view(&self) -> ConfigModel {
        ConfigModel {
            idle: self.idle,
            locker: self.locker@,
            lock_before_sleep: self.lock_before_sleep,
        }
    }
}

/// What holds where nothing is configured.
pub open spec fn default_config() -> ConfigModel {
    ConfigModel {
        idle: IdleConfig { lock_after: None, power_off_after: None },
        locker: DEFAULT_LOCKER@,
        lock_before_sleep: true,
    }
}

impl Default for SessionConfig {
    fn default() -> (r: SessionConfig)
        ensures
            r@ == default_config(),
    {
        SessionConfig {
            idle: IdleConfig::default(),
            locker: DEFAULT_LOCKER.to_owned(),
            lock_before_sleep: true,
        }
    }
}

/// A text that is not TOML.
#[derive(Debug)]
pub struct ConfigError {
    message: String,
}

impl View for ConfigError {
    type V = Seq<char>;

    closed spec fn view(&self) -> Seq<char> {
        self.message@
    }
}

impl ConfigError {
    /// What is wrong with it, in words.
    pub fn message(&self) -> (r: &str)
        ensures
            r@ == self@,
    {
        self.message.as_str()
    }
}

/// A setting that makes no sense.
#[derive(Debug, Clone, Copy, PartialEq, Eq, Structural)]
pub enum BadKnob {
    /// `idle` is no table.
    Idle,
    /// `idle.lock-after-secs` is no positive whole number.
    LockAfterSecs,
    /// `idle.power-off-after-secs` is no positive whole number.
    PowerOffAfterSecs,
    /// `locker` is no text, or nothing but white space.
    Locker,
    /// `lock-before-sleep` is neither true nor false.
    LockBeforeSleep,
}

/// The settings as a document has them; `None` where it has none.
#[derive(Debug)]
pub struct Knobs {
    pub idle: Option<DocValue>,
    pub lock_after_secs: Option<DocValue>,
    pub power_off_after_secs: Option<DocValue>,
    pub locker: Option<DocValue>,
    pub lock_before_sleep: Option<DocValue>,
}

/// What a [`Knobs`] holds.
pub ghost struct KnobsModel {
    pub idle: Option<DocModel>,
    pub lock_after_secs: Option<DocModel>,
    pub power_off_after_secs: Option<DocModel>,
    pub locker: Option<DocModel>,
    pub lock_before_sleep: Option<DocModel>,
}

/// What `value` holds, if it is there.
pub open spec fn doc_model(value: Option<DocValue>) -> Option<DocModel> {
    match value {
        Some(value) => Some(value@),
        None => None,
    }
}

impl View for Knobs {
    type V = KnobsModel;

    open spec fn view(&self) -> KnobsModel {
        KnobsModel {
            idle: doc_model(self.idle),
            lock_after_secs: doc_model(self.lock_after_secs),
            power_off_after_secs: doc_model(self.power_off_after_secs),
            locker: doc_model(self.locker),
            lock_before_sleep: doc_model(self.lock_before_sleep),
        }
    }
}

/// The entries of the table `idle`; none where there is no such table.
pub open spec fn idle_entries(entries: Map<Seq<char>, DocModel>) -> Map<Seq<char>, DocModel> {
    match entry(entries, "idle"@) {
        Some(DocModel::Table(inner)) => inner,
        _ => Map::empty(),
    }
}

/// The settings in a document with these entries.
pub open spec fn knobs_of(entries: Map<Seq<char>, DocModel>) -> KnobsModel {
    KnobsModel {
        idle: entry(entries, "idle"@),
        lock_after_secs: entry(idle_entries(entries), "lock-after-secs"@),
        power_off_after_secs: entry(idle_entries(entries), "power-off-after-secs"@),
        locker: entry(entries, "locker"@),
        lock_before_sleep: entry(entries, "lock-before-sleep"@),
    }
}

/// The time that a setting gives: so many whole seconds, more than none.
pub open spec fn secs_of(value: Option<DocModel>) -> Option<Duration> {
    match value {
        Some(DocModel::Integer(n)) => if n > 0 {
            Some(Duration::from_secs(n as u64))
        } else {
            None
        },
        _ => None,
    }
}

/// The command that a setting gives: a text that is not just white space,
/// without the white space around it.
pub open spec fn command_of(value: Option<DocModel>) -> Option<Seq<char>> {
    match value {
        Some(DocModel::Text(text)) => if trim(text).len() > 0 {
            Some(trim(text))
        } else {
            None
        },
        _ => None,
    }
}

/// The truth value that a setting gives.
pub open spec fn bool_of(value: Option<DocModel>) -> Option<bool> {
    match value {
        Some(DocModel::Boolean(b)) => Some(b),
        _ => None,
    }
}

/// The configuration that settings come to.
pub open spec fn config_of(knobs: KnobsModel) -> ConfigModel {
    ConfigModel {
        idle: IdleConfig {
            lock_after: secs_of(knobs.lock_after_secs),
            power_off_after: secs_of(knobs.power_off_after_secs),
        },
        locker: match command_of(knobs.locker) {
            Some(command) => command,
            None => DEFAULT_LOCKER@,
        },
        lock_before_sleep: match bool_of(knobs.lock_before_sleep) {
            Some(b) => b,
            None => true,
        },
    }
}

/// `knob` alone where the setting is `bad`, and nothing where it is not.
pub open spec fn noted(bad: bool, knob: BadKnob) -> Seq<BadKnob> {
    if bad {
        seq![knob]
    } else {
        seq![]
    }
}

/// The settings that are there and make no sense.
pub open spec fn bad_knobs(knobs: KnobsModel) -> Seq<BadKnob> {
    noted(knobs.idle is Some && !(knobs.idle->0 is Table), BadKnob::Idle) + noted(
        knobs.lock_after_secs is Some && secs_of(knobs.lock_after_secs) is None,
        BadKnob::LockAfterSecs,
    ) + noted(
        knobs.power_off_after_secs is Some && secs_of(knobs.power_off_after_secs) is None,
        BadKnob::PowerOffAfterSecs,
    ) + noted(knobs.locker is Some && command_of(knobs.locker) is None, BadKnob::Locker) + noted(
        knobs.lock_before_sleep is Some && bool_of(knobs.lock_before_sleep) is None,
        BadKnob::LockBeforeSleep,
    )
}

/// The time that `value` gives.
pub fn read_secs(value: &Option<DocValue>) -> (r: Option<Duration>)
    ensures
        r == secs_of(doc_model(*value)),
{
    match value {
        Some(DocValue::Integer(n)) => {
            if *n > 0 {
                Some(Duration::from_secs(*n as u64))
            } else {
                None
            }
        },
        _ => None,
    }
}

/// The command that `value` gives.
pub fn read_locker(value: &Option<DocValue>) -> (r: Option<String>)
    ensures
        match r {
            Some(command) => command_of(doc_model(*value)) == Some(command@),
            None => command_of(doc_model(*value)) is None,
        },
{
    match value {
        Some(DocValue::Text(text)) => {
            let command = trimmed(text.as_str());
            if command.is_empty() {
                None
            } else {
                Some(command.to_owned())
            }
        },
        _ => None,
    }
}

/// The truth value that `value` gives.
pub fn read_bool(value: &Option<DocValue>) -> (r: Option<bool>)
    ensures
        r == bool_of(doc_model(*value)),
{
    match value {
        Some(DocValue::Boolean(b)) => Some(*b),
        _ => None,
    }
}

impl Knobs {
    /// The settings in a document whose top-level table is `body`.
    pub fn read(body: &toml::Table) -> (r: Knobs)
        ensures
            r@ == knobs_of(crate::document::table_entries(*body)),
    {
        let idle = table_get(body, "idle");
        let (lock_after_secs, power_off_after_secs) = match &idle {
            Some(DocValue::Table(inner)) => (
                table_get(inner, "lock-after-secs"),
                table_get(inner, "power-off-after-secs"),
            ),
            _ => (None, None),
        };
        Knobs {
            idle,
            lock_after_secs,
            power_off_after_secs,
            locker: table_get(body, "locker"),
            lock_before_sleep: table_get(body, "lock-before-sleep"),
        }
    }

    /// The settings that are there and make no sense.
    pub fn bad(&self) -> (r: Vec<BadKnob>)
        ensures
            r@ == bad_knobs(self@),
    {
        let mut bad: Vec<BadKnob> = Vec::new();
        match &self.idle {
            None | Some(DocValue::Table(_)) => {},
            Some(_) => bad.push(BadKnob::Idle),
        }
        if self.lock_after_secs.is_some() && read_secs(&self.lock_after_secs).is_none() {
            bad.push(BadKnob::LockAfterSecs);
        }
        if self.power_off_after_secs.is_some() && read_secs(&self.power_off_after_secs).is_none() {
            bad.push(BadKnob::PowerOffAfterSecs);
        }
        if self.locker.is_some() && read_locker(&self.locker).is_none() {
            bad.push(BadKnob::Locker);
        }
        if self.lock_before_sleep.is_some() && read_bool(&self.lock_before_sleep).is_none() {
            bad.push(BadKnob::LockBeforeSleep);
        }
        assert(bad@ =~= bad_knobs(self@));
        bad
    }
}

/// The configuration from a file with these contents; `None` where there is no
/// file that can be read.
pub open spec fn loaded_config(contents: Option<Seq<char>>) -> ConfigModel {
    match contents {
        Some(text) => match toml_document(text) {
            Ok(entries) => config_of(knobs_of(entries)),
            Err(_) => default_config(),
        },
        None => default_config(),
    }
}

/// What is wrong with the file as a whole.
#[derive(Debug)]
pub enum FileProblem {
    /// There is none, but there is one of an old version.
    StaleKdl,
    /// It is not TOML.
    NotToml(ConfigError),
}

/// A configuration, and what there is to complain about.
#[derive(Debug)]
pub struct Loaded {
    pub config: SessionConfig,
    pub problem: Option<FileProblem>,
    pub bad_knobs: Vec<BadKnob>,
}

impl SessionConfig {
    /// The configuration that `knobs` come to. A setting that makes no sense
    /// counts as left out.
    pub fn resolve(knobs: &Knobs) -> (r: SessionConfig)
        ensures
            r@ == config_of(knobs@),
    {
        let locker = match read_locker(&knobs.locker) {
            Some(command) => command,
            None => DEFAULT_LOCKER.to_owned(),
        };
        let lock_before_sleep = match read_bool(&knobs.lock_before_sleep) {
            Some(b) => b,
            None => true,
        };
        SessionConfig {
            idle: IdleConfig {
                lock_after: read_secs(&knobs.lock_after_secs),
                power_off_after: read_secs(&knobs.power_off_after_secs),
            },
            locker,
            lock_before_sleep,
        }
    }

    /// The settings in a document, if it is TOML.
    fn parse_knobs(contents: &str) -> (r: Result<Knobs, ConfigError>)
        ensures
            match toml_document(contents@) {
                Ok(entries) => r matches Ok(knobs) && knobs@ == knobs_of(entries),
                Err(message) => r matches Err(err) && err@ == message,
            },
    {
        match parse_document(contents) {
            Ok(body) => Ok(Knobs::read(&body)),
            Err(message) => Err(ConfigError { message }),
        }
    }

    /// The configuration in a document. The one error is that it is not TOML.
    pub fn parse(contents: &str) -> (r: Result<SessionConfig, ConfigError>)
        ensures
            match toml_document(contents@) {
                Ok(entries) => r matches Ok(config) && config@ == config_of(knobs_of(entries)),
                Err(message) => r matches Err(err) && err@ == message,
            },
    {
        match Self::parse_knobs(contents) {
            Ok(knobs) => Ok(Self::resolve(&knobs)),
            Err(err) => Err(err),
        }
    }

    /// The configuration from a file with these `contents`; `None` where there is
    /// no file that can be read. `stale_kdl` tells whether there is a file of an
    /// old version beside it.
    pub fn load(contents: Option<&str>, stale_kdl: bool) -> (r: Loaded)
        ensures
            r.config@ == match contents {
                Some(text) => loaded_config(Some(text@)),
                None => loaded_config(None),
            },
            r.bad_knobs@ == match contents {
                Some(text) => match toml_document(text@) {
                    Ok(entries) => bad_knobs(knobs_of(entries)),
                    Err(_) => seq![],
                },
                None => seq![],
            },
            match contents {
                Some(text) => match toml_document(text@) {
                    Ok(_) => r.problem is None,
                    Err(message) => r.problem matches Some(FileProblem::NotToml(err)) && err@
                        == message,
                },
                None => match r.problem {
                    Some(problem) => stale_kdl && problem is StaleKdl,
                    None => !stale_kdl,
                },
            },
    {
        let text = match contents {
            None => {
                let problem = if stale_kdl {
                    Some(FileProblem::StaleKdl)
                } else {
                    None
                };
                return Loaded {
                    config: SessionConfig::default(),
                    problem,
                    bad_knobs: Vec::new(),
                };
            },
            Some(text) => text,
        };
        match Self::parse_knobs(text) {
            Ok(knobs) => Loaded {
                config: Self::resolve(&knobs),
                problem: None,
                bad_knobs: knobs.bad(),
            },
            Err(err) => Loaded {
                config: SessionConfig::default(),
                problem: Some(FileProblem::NotToml(err)),
                bad_knobs: Vec::new(),
            },
        }
    }
}

/// Locking before sleep is off only where a file that is TOML says so in so many
/// words: no missing file, no mistake and no other value turns it off.
pub proof fn law_only_a_plain_false_turns_locking_off(contents: Option<Seq<char>>)
    ensures
        !loaded_config(contents).lock_before_sleep <==> (contents matches Some(text) && (
        toml_document(text) matches Ok(entries) && entry(entries, "lock-before-sleep"@) == Some(
            DocModel::Boolean(false),
        ))),
{
}

/// The locker always names a program to start.
pub proof fn law_the_locker_can_always_be_started(contents: Option<Seq<char>>)
    ensures
        words(loaded_config(contents).locker).len() > 0,
{
    reveal_strlit("saola-lockscreen");
    assert(words(DEFAULT_LOCKER@).len() > 0);
    if let Some(text) = contents {
        if let Ok(entries) = toml_document(text) {
            if let Some(DocModel::Text(locker)) = knobs_of(entries).locker {
                law_trim_is_empty_without_words(locker);
                law_trim_keeps_words(locker);
            }
        }
    }
}

/// A time that is configured is some whole seconds, as many as the file says,
/// and never none at all.
pub proof fn law_times_are_taken_literally(value: Option<DocModel>)
    ensures
        match secs_of(value) {
            Some(time) => value matches Some(DocModel::Integer(n)) && 0 < n && time.nanos == n
                * 1_000_000_000,
            None => !(value matches Some(DocModel::Integer(n)) && 0 < n),
        },
{
}

/// Only the known keys count: documents that agree on them come to the same
/// configuration and the same complaints, whatever else they hold.
pub proof fn law_unknown_keys_do_not_count(
    entries: Map<Seq<char>, DocModel>,
    others: Map<Seq<char>, DocModel>,
)
    requires
        entry(entries, "locker"@) == entry(others, "locker"@),
        entry(entries, "lock-before-sleep"@) == entry(others, "lock-before-sleep"@),
        entry(entries, "idle"@) is Some <==> entry(others, "idle"@) is Some,
        entry(entries, "idle"@) is Some ==> (entry(entries, "idle"@)->0 is Table <==> entry(
            others,
            "idle"@,
        )->0 is Table),
        entry(idle_entries(entries), "lock-after-secs"@) == entry(
            idle_entries(others),
            "lock-after-secs"@,
        ),
        entry(idle_entries(entries), "power-off-after-secs"@) == entry(
            idle_entries(others),
            "power-off-after-secs"@,
        ),
    ensures
        config_of(knobs_of(entries)) == config_of(knobs_of(others)),
        bad_knobs(knobs_of(entries)) == bad_knobs(knobs_of(others)),
{
}

/// `value` where it makes sense, and else nothing.
pub open spec fn if_good(value: Option<DocModel>, good: bool) -> Option<DocModel> {
    if good {
        value
    } else {
        None
    }
}

/// A setting that makes no sense counts as left out, and has no bearing on the
/// others.
pub proof fn law_a_bad_setting_counts_as_left_out(knobs: KnobsModel)
    ensures
        config_of(knobs) == config_of(
            KnobsModel {
                idle: if_good(knobs.idle, knobs.idle is Some && knobs.idle->0 is Table),
                lock_after_secs: if_good(
                    knobs.lock_after_secs,
                    secs_of(knobs.lock_after_secs) is Some,
                ),
                power_off_after_secs: if_good(
                    knobs.power_off_after_secs,
                    secs_of(knobs.power_off_after_secs) is Some,
                ),
                locker: if_good(knobs.locker, command_of(knobs.locker) is Some),
                lock_before_sleep: if_good(
                    knobs.lock_before_sleep,
                    bool_of(knobs.lock_before_sleep) is Some,
                ),
            },
        ),
{
}

/// Either idle time can be set without the other: what the one is set to does
/// not change the other.
pub proof fn law_idle_times_are_independent(
    knobs: KnobsModel,
    lock_after_secs: Option<DocModel>,
    power_off_after_secs: Option<DocModel>,
)
    ensures
        config_of(KnobsModel { lock_after_secs, ..knobs }).idle.power_off_after == config_of(
            knobs,
        ).idle.power_off_after,
        config_of(KnobsModel { power_off_after_secs, ..knobs }).idle.lock_after == config_of(
            knobs,
        ).idle.lock_after,
{
}

/// A document without any of the known keys comes to the same as no document,
/// with nothing to complain about.
pub proof fn law_a_document_without_settings_is_as_none(entries: Map<Seq<char>, DocModel>)
    requires
        !entries.contains_key("idle"@),
        !entries.contains_key("locker"@),
        !entries.contains_key("lock-before-sleep"@),
    ensures
        config_of(knobs_of(entries)) == default_config(),
        bad_knobs(knobs_of(entries)) == Seq::<BadKnob>::empty(),
{
    assert(bad_knobs(knobs_of(entries)) =~= Seq::<BadKnob>::empty());
}

/// Whether `text` has a character that is not white space.
pub open spec fn says_something(text: Seq<char>) -> bool {
    exists|k: int| 0 <= k < text.len() && !white_space(#[trigger] text[k])
}

proof fn lemma_says_something(text: Seq<char>)
    ensures
        says_something(text) <==> trim(text).len() > 0,
{
    if says_something(text) {
        let k = choose|k: int| 0 <= k < text.len() && !white_space(#[trigger] text[k]);
        law_words_keep_all_but_white_space(text);
        law_trim_is_empty_without_words(text);
        let keep = |c: char| !white_space(c);
        if words(text).len() == 0 {
            assert(words(text) =~= Seq::empty());
            assert(words(text).flatten() =~= Seq::empty());
            text.lemma_filter_contains(keep, k);
        }
    } else {
        law_trim_takes_off_the_ends(text, 0, 0);
    }
}

/// The locker is what the file says: a text with anything but white space in it is
/// taken, however long it is, word for word and without the white space around it,
/// and is not complained about.
pub proof fn law_the_locker_is_what_the_file_says(
    entries: Map<Seq<char>, DocModel>,
    text: Seq<char>,
)
    requires
        entries.contains_key("locker"@),
        entries["locker"@] == DocModel::Text(text),
        says_something(text),
    ensures
        ({
            let locker = config_of(knobs_of(entries)).locker;
            &&& words(locker) == words(text)
            &&& locker.len() > 0
            &&& !white_space(locker[0])
            &&& !white_space(locker.last())
            &&& !bad_knobs(knobs_of(entries)).contains(BadKnob::Locker)
            &&& forall|from: int, to: int|
                0 <= from < to <= text.len() && !white_space(text[from]) && !white_space(
                    text[to - 1],
                ) && (forall|k: int| 0 <= k < from ==> white_space(#[trigger] text[k])) && (forall|
                    k: int,
                |
                    to <= k < text.len() ==> white_space(#[trigger] text[k])) ==> locker
                    == #[trigger] text.subrange(from, to)
        }),
{
    let locker = config_of(knobs_of(entries)).locker;
    lemma_says_something(text);
    law_trim_keeps_words(text);
    law_trim_leaves_no_outer_white_space(text);
    assert forall|from: int, to: int|
        0 <= from < to <= text.len() && !white_space(text[from]) && !white_space(text[to - 1]) && (
        forall|k: int| 0 <= k < from ==> white_space(#[trigger] text[k])) && (forall|k: int|
            to <= k < text.len() ==> white_space(#[trigger] text[k])) implies locker
        == #[trigger] text.subrange(from, to) by {
        law_trim_takes_off_the_ends(text, from, to);
    }
    lemma_bad_knobs(knobs_of(entries));
}

/// The default locker is for all other files: where there is no such setting, and
/// where it is no text or says nothing. Only the latter is complained about.
pub proof fn law_the_default_locker_is_for_want_of_one(entries: Map<Seq<char>, DocModel>)
    requires
        !(entries.contains_key("locker"@) && (entries["locker"@] matches DocModel::Text(text)
            && says_something(text))),
    ensures
        config_of(knobs_of(entries)).locker == "saola-lockscreen"@,
        bad_knobs(knobs_of(entries)).contains(BadKnob::Locker) <==> entries.contains_key(
            "locker"@,
        ),
{
    if entries.contains_key("locker"@) {
        if let DocModel::Text(text) = entries["locker"@] {
            lemma_says_something(text);
        }
    }
    lemma_bad_knobs(knobs_of(entries));
}

/// Locking before sleep is what the file says where it says true or false, and on
/// where it does not; what is neither is complained about.
pub proof fn law_locking_before_sleep_is_what_the_file_says(entries: Map<Seq<char>, DocModel>)
    ensures
        ({
            let key = "lock-before-sleep"@;
            let config = config_of(knobs_of(entries));
            &&& entries.contains_key(key) ==> (entries[key] matches DocModel::Boolean(b)
                ==> config.lock_before_sleep == b)
            &&& !(entries.contains_key(key) && entries[key] is Boolean) ==> config.lock_before_sleep
            &&& bad_knobs(knobs_of(entries)).contains(BadKnob::LockBeforeSleep)
                <==> entries.contains_key(key) && !(entries[key] is Boolean)
        }),
{
    lemma_bad_knobs(knobs_of(entries));
}

/// The times are what the table `idle` says: any number of whole seconds above
/// none is taken, to the nanosecond. Everything else counts as no time, and is
/// complained about where it is there; so is an `idle` that is no table, and then
/// nothing in it.
pub proof fn law_the_times_are_what_the_file_says(
    entries: Map<Seq<char>, DocModel>,
    table: Map<Seq<char>, DocModel>,
)
    requires
        entries.contains_key("idle"@),
        entries["idle"@] == DocModel::Table(table),
    ensures
        ({
            let idle = config_of(knobs_of(entries)).idle;
            let bad = bad_knobs(knobs_of(entries));
            let lock = "lock-after-secs"@;
            let power_off = "power-off-after-secs"@;
            &&& idle.lock_after is Some <==> table.contains_key(lock) && (
            table[lock] matches DocModel::Integer(n) && n > 0)
            &&& idle.lock_after is Some ==> idle.lock_after->0.nanos == table[lock]->Integer_0
                * 1_000_000_000
            &&& bad.contains(BadKnob::LockAfterSecs) <==> table.contains_key(lock)
                && idle.lock_after is None
            &&& idle.power_off_after is Some <==> table.contains_key(power_off) && (
            table[power_off] matches DocModel::Integer(n) && n > 0)
            &&& idle.power_off_after is Some ==> idle.power_off_after->0.nanos
                == table[power_off]->Integer_0 * 1_000_000_000
            &&& bad.contains(BadKnob::PowerOffAfterSecs) <==> table.contains_key(power_off)
                && idle.power_off_after is None
            &&& !bad.contains(BadKnob::Idle)
        }),
{
    lemma_bad_knobs(knobs_of(entries));
}

/// Without a table `idle` there are no times, and the one thing to complain about is
/// an `idle` that is something else.
pub proof fn law_without_the_idle_table_there_are_no_times(entries: Map<Seq<char>, DocModel>)
    requires
        !(entries.contains_key("idle"@) && entries["idle"@] is Table),
    ensures
        ({
            let idle = config_of(knobs_of(entries)).idle;
            let bad = bad_knobs(knobs_of(entries));
            &&& idle.lock_after is None
            &&& idle.power_off_after is None
            &&& bad.contains(BadKnob::Idle) <==> entries.contains_key("idle"@)
            &&& !bad.contains(BadKnob::LockAfterSecs)
            &&& !bad.contains(BadKnob::PowerOffAfterSecs)
        }),
{
    lemma_bad_knobs(knobs_of(entries));
}

/// What there is to complain about comes once each, and in the order of the file's
/// description.
pub proof fn law_complaints_come_once_and_in_order(knobs: KnobsModel, i: int, j: int)
    requires
        0 <= i < j < bad_knobs(knobs).len(),
    ensures
        complaint_place(bad_knobs(knobs)[i]) < complaint_place(bad_knobs(knobs)[j]),
{
    lemma_bad_knobs(knobs);
}

/// The place of a complaint among all that there can be.
pub open spec fn complaint_place(knob: BadKnob) -> int {
    match knob {
        BadKnob::Idle => 0,
        BadKnob::LockAfterSecs => 1,
        BadKnob::PowerOffAfterSecs => 2,
        BadKnob::Locker => 3,
        BadKnob::LockBeforeSleep => 4,
    }
}

proof fn lemma_bad_knobs(knobs: KnobsModel)
    ensures
        bad_knobs(knobs).contains(BadKnob::Idle) <==> knobs.idle is Some && !(
        knobs.idle->0 is Table),
        bad_knobs(knobs).contains(BadKnob::LockAfterSecs) <==> knobs.lock_after_secs is Some
            && secs_of(knobs.lock_after_secs) is None,
        bad_knobs(knobs).contains(BadKnob::PowerOffAfterSecs) <==> knobs.power_off_after_secs
            is Some && secs_of(knobs.power_off_after_secs) is None,
        bad_knobs(knobs).contains(BadKnob::Locker) <==> knobs.locker is Some && command_of(
            knobs.locker,
        ) is None,
        bad_knobs(knobs).contains(BadKnob::LockBeforeSleep) <==> knobs.lock_before_sleep is Some
            && bool_of(knobs.lock_before_sleep) is None,
        forall|i: int, j: int|
            0 <= i < j < bad_knobs(knobs).len() ==> complaint_place(#[trigger] bad_knobs(knobs)[i])
                < complaint_place(#[trigger] bad_knobs(knobs)[j]),
{
    let idle = knobs.idle is Some && !(knobs.idle->0 is Table);
    let lock = knobs.lock_after_secs is Some && secs_of(knobs.lock_after_secs) is None;
    let power_off = knobs.power_off_after_secs is Some && secs_of(
        knobs.power_off_after_secs,
    ) is None;
    let locker = knobs.locker is Some && command_of(knobs.locker) is None;
    let sleep = knobs.lock_before_sleep is Some && bool_of(knobs.lock_before_sleep) is None;
    let s0 = Seq::<BadKnob>::empty();
    let s1 = noted(idle, BadKnob::Idle);
    let s2 = s1 + noted(lock, BadKnob::LockAfterSecs);
    let s3 = s2 + noted(power_off, BadKnob::PowerOffAfterSecs);
    let s4 = s3 + noted(locker, BadKnob::Locker);
    let s5 = s4 + noted(sleep, BadKnob::LockBeforeSleep);
    assert(bad_knobs(knobs) == s5);
    assert(s0 + s1 =~= s1);
    lemma_noted(s0, idle, BadKnob::Idle);
    lemma_noted(s1, lock, BadKnob::LockAfterSecs);
    lemma_noted(s2, power_off, BadKnob::PowerOffAfterSecs);
    lemma_noted(s3, locker, BadKnob::Locker);
    lemma_noted(s4, sleep, BadKnob::LockBeforeSleep);
}

/// Whether complaints come once each and in order.
spec fn in_order(bad: Seq<BadKnob>) -> bool {
    forall|i: int, j: int|
        0 <= i < j < bad.len() ==> complaint_place(#[trigger] bad[i]) < complaint_place(
            #[trigger] bad[j],
        )
}

/// Whether all complaints have a place before `place`.
spec fn all_before(bad: Seq<BadKnob>, place: int) -> bool {
    forall|i: int| 0 <= i < bad.len() ==> complaint_place(#[trigger] bad[i]) < place
}

proof fn lemma_noted(bad: Seq<BadKnob>, is_bad: bool, knob: BadKnob)
    requires
        in_order(bad),
        all_before(bad, complaint_place(knob)),
    ensures
        forall|k: BadKnob| #[trigger]
            (bad + noted(is_bad, knob)).contains(k) <==> bad.contains(k) || is_bad && k == knob,
        in_order(bad + noted(is_bad, knob)),
        all_before(bad + noted(is_bad, knob), complaint_place(knob) + 1),
{
    let more = bad + noted(is_bad, knob);
    assert forall|k: BadKnob| #[trigger] more.contains(k) <==> bad.contains(k) || is_bad && k
        == knob by {
        if bad.contains(k) {
            let i = choose|i: int| 0 <= i < bad.len() && bad[i] == k;
            assert(more[i] == k);
        }
        if is_bad && k == knob {
            assert(more[bad.len() as int] == k);
        }
    }
}

/// Without a file that can be read and is TOML: no idle times, the usual locker,
/// and locking before sleep on.
pub proof fn law_the_defaults(contents: Option<Seq<char>>)
    requires
        contents matches Some(text) ==> toml_document(text) is Err,
    ensures
        loaded_config(contents).idle.lock_after is None,
        loaded_config(contents).idle.power_off_after is None,
        loaded_config(contents).locker == "saola-lockscreen"@,
        loaded_config(contents).lock_before_sleep,
{
}

/// A file that is TOML is configured by its settings.
pub proof fn law_a_file_is_configured_by_its_settings(text: Seq<char>)
    requires
        toml_document(text) is Ok,
    ensures
        loaded_config(Some(text)) == config_of(knobs_of(toml_document(text)->Ok_0)),
{
}

/// Each setting is resolved by itself: what it comes to is told by its own value,
/// whatever the others are.
pub proof fn law_each_setting_is_resolved_by_itself(knobs: KnobsModel)
    ensures
        ({
            let config = config_of(knobs);
            let lock = knobs.lock_after_secs;
            let power_off = knobs.power_off_after_secs;
            &&& config.idle.lock_after is Some <==> (lock matches Some(DocModel::Integer(n)) && n > 0)
            &&& config.idle.lock_after is Some ==> config.idle.lock_after->0.nanos == (
            lock->0)->Integer_0 * 1_000_000_000
            &&& config.idle.power_off_after is Some <==> (power_off matches Some(
                DocModel::Integer(n),
            ) && n > 0)
            &&& config.idle.power_off_after is Some ==> config.idle.power_off_after->0.nanos == (
            power_off->0)->Integer_0 * 1_000_000_000
            &&& config.lock_before_sleep <==> knobs.lock_before_sleep != Some(
                DocModel::Boolean(false),
            )
            &&& knobs.locker matches Some(DocModel::Text(text)) ==> (if says_something(text) {
                config.locker == trim(text)
            } else {
                config.locker == "saola-lockscreen"@
            })
            &&& !(knobs.locker is Some && knobs.locker->0 is Text) ==> config.locker
                == "saola-lockscreen"@
        }),
{
    if let Some(DocModel::Text(text)) = knobs.locker {
        lemma_says_something(text);
    }
}

/// What a single value gives: a truth value, or a command, or nothing.
pub proof fn law_values_are_read_by_their_kind(value: DocModel, b: bool)
    ensures
        bool_of(Some(value)) == Some(b) <==> value == DocModel::Boolean(b),
        bool_of(None) is None,
        command_of(Some(value)) is Some <==> (value matches DocModel::Text(text) && says_something(
            text,
        )),
        command_of(Some(value)) is Some ==> command_of(Some(value))->0 == trim(value->Text_0),
        command_of(None) is None,
        secs_of(None) is None,
{
    if let DocModel::Text(text) = value {
        lemma_says_something(text);
    }
}

/// A setting is there in the model exactly where the document has it, and holds
/// what the document has.
pub proof fn law_settings_are_as_the_document_has_them(value: DocValue, n: i64, b: bool)
    ensures
        doc_model(None) is None,
        doc_model(Some(value)) == Some(value@),
        value@ == DocModel::Integer(n) <==> value == DocValue::Integer(n),
        value@ == DocModel::Boolean(b) <==> value == DocValue::Boolean(b),
        value@ is Table <==> value is Table,
        value matches DocValue::Text(text) ==> value@ == DocModel::Text(text@),
        value@ is Text <==> value is Text,
{
}

} // verus!
