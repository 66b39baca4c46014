//! Applications that ask for the session to be kept awake.
//!
//! An application gets a *cookie* for its request, and hands the cookie in when
//! the request is over. [`InhibitStore`] keeps the requests; one that an
//! application leaves behind when it goes away is dropped.

use std::collections::HashMap;
use vstd::prelude::*;

verus! {

broadcast use vstd::std_specs::hash::group_hash_axioms;

/// The bus name under which applications look for the service.
pub const SCREEN_SAVER_NAME: &'static str = "org.freedesktop.ScreenSaver";

/// The path at which the service is to be found.
pub const SCREEN_SAVER_PATH: &'static str = "/org/freedesktop/ScreenSaver";

/// The path at which some applications still look for it.
pub const SCREEN_SAVER_LEGACY_PATH: &'static str = "/ScreenSaver";

/// How many characters of an application's name, and of its reason, are kept.
pub const MAX_FIELD_LEN: usize = 256;

/// How many requests one peer on the bus can have at a time.
pub const MAX_GRANTS_PER_PEER: usize = 64;

/// How many requests there can be at a time.
pub const MAX_GRANTS_TOTAL: usize = 1024;

/// What is kept of a text.
pub open spec fn kept(s: Seq<char>) -> Seq<char> {
    if s.len() > MAX_FIELD_LEN {
        s.take(MAX_FIELD_LEN as int)
    } else {
        s
    }
}

/// What is kept of `s`: at most so many characters from its start.
pub fn truncated(s: &str) -> (r: &str)
    ensures
        r@ == kept(s@),
{
    if s.unicode_len() > MAX_FIELD_LEN {
        let cut = s.substring_char(0, MAX_FIELD_LEN);
        assert(cut@ =~= s@.take(MAX_FIELD_LEN as int));
        cut
    } else {
        s
    }
}

/// A request that is in force.
#[derive(Debug, Clone)]
pub struct Grant {
    peer: String,
    pub app: String,
    pub reason: String,
}

/// What a [`Grant`] is made of.
pub ghost struct GrantModel {
    /// Who made the request.
    pub peer: Seq<char>,
    pub app: Seq<char>,
    pub reason: Seq<char>,
}

impl View for Grant {
    type V = GrantModel;

    closed spec fn view(&self) -> GrantModel {
        GrantModel { peer: self.peer@, app: self.app@, reason: self.reason@ }
    }
}

impl Grant {
    /// The application's name, as far as it is kept.
    pub fn app(&self) -> (r: &str)
        ensures
            r@ == self@.app,
    {
        self.app.as_str()
    }

    /// The application's reason, as far as it is kept.
    pub fn reason(&self) -> (r: &str)
        ensures
            r@ == self@.reason,
    {
        self.reason.as_str()
    }
}

/// Whether the session has just begun, or ceased, to be kept awake.
#[derive(Debug, Clone, Copy, PartialEq, Eq, Structural)]
pub enum ActiveTransition {
    Unchanged,
    BecameActive,
    BecameInactive,
}

/// The step from being kept awake, or not, to being kept awake, or not.
pub open spec fn transition(was_active: bool, is_active: bool) -> ActiveTransition {
    if was_active == is_active {
        ActiveTransition::Unchanged
    } else if is_active {
        ActiveTransition::BecameActive
    } else {
        ActiveTransition::BecameInactive
    }
}

/// The step from `was_active` to `is_active`.
pub fn transition_for(was_active: bool, is_active: bool) -> (r: ActiveTransition)
    ensures
        r == transition(was_active, is_active),
{
    match (was_active, is_active) {
        (false, true) => ActiveTransition::BecameActive,
        (true, false) => ActiveTransition::BecameInactive,
        _ => ActiveTransition::Unchanged,
    }
}

/// Whether a request came into force.
#[derive(Debug, Clone, Copy, PartialEq, Eq, Structural)]
pub enum Admission {
    Granted,
    /// The peer has as many requests as it can have.
    RefusedPerPeerCap,
    /// There are as many requests as there can be.
    RefusedTotalCap,
}

/// The requests that are in force, by their cookies.
#[derive(Debug)]
pub struct InhibitStore {
    next_cookie: u32,
    grants: HashMap<u32, Grant>,
}

/// What an [`InhibitStore`] is made of.
pub ghost struct StoreModel {
    pub next_cookie: u32,
    pub grants: Map<u32, GrantModel>,
}

impl View for InhibitStore {
    type V = StoreModel;

    closed spec fn view(&self) -> StoreModel {
        StoreModel {
            next_cookie: self.next_cookie,
            grants: self.grants@.map_values(|g: Grant| g@),
        }
    }
}

impl StoreModel {
    /// Whether the session is kept awake.
    pub open spec fn active(self) -> bool {
        !self.grants.is_empty()
    }

    /// The cookies of `peer`.
    pub open spec fn cookies_of(self, peer: Seq<char>) -> Set<u32> {
        self.grants.dom().filter(|cookie: u32| self.grants[cookie].peer == peer)
    }

    /// Whether a request of `peer` would come into force.
    pub open spec fn admits(self, peer: Seq<char>) -> Admission {
        if self.grants.len() >= MAX_GRANTS_TOTAL {
            Admission::RefusedTotalCap
        } else if self.cookies_of(peer).len() >= MAX_GRANTS_PER_PEER {
            Admission::RefusedPerPeerCap
        } else {
            Admission::Granted
        }
    }

    /// After a request. A cookie is used up even by one that is refused.
    pub open spec fn inhibited(self, peer: Seq<char>, app: Seq<char>, reason: Seq<char>) -> StoreModel {
        StoreModel {
            next_cookie: if self.next_cookie < u32::MAX {
                (self.next_cookie + 1) as u32
            } else {
                0
            },
            grants: if self.admits(peer) is Granted {
                self.grants.insert(
                    self.next_cookie,
                    GrantModel { peer, app: kept(app), reason: kept(reason) },
                )
            } else {
                self.grants
            },
        }
    }

    /// After the end of the request with this cookie.
    pub open spec fn uninhibited(self, cookie: u32) -> StoreModel {
        StoreModel { grants: self.grants.remove(cookie), ..self }
    }

    /// After `peer` has gone away.
    pub open spec fn without_peer(self, peer: Seq<char>) -> StoreModel {
        StoreModel { grants: self.grants.remove_keys(self.cookies_of(peer)), ..self }
    }

    /// Whether `dropped` are the requests of `peer`, each of them once, in any
    /// order.
    pub open spec fn are_grants_of(self, peer: Seq<char>, dropped: Seq<GrantModel>) -> bool {
        exists|cookies: Seq<u32>|
            {
                &&& #[trigger] cookies.no_duplicates()
                &&& cookies.to_set() == self.cookies_of(peer)
                &&& dropped == cookies.map_values(|cookie: u32| self.grants[cookie])
            }
    }
}

/// What each of `grants` is made of.
pub open spec fn models(grants: Seq<Grant>) -> Seq<GrantModel> {
    grants.map_values(|g: Grant| g@)
}

impl Default for InhibitStore {
    /// A store without requests.
    fn default() -> (r: InhibitStore)
        ensures
            r@ == (StoreModel { next_cookie: 0, grants: Map::empty() }),
    {
        InhibitStore::new()
    }
}

impl InhibitStore {
    /// A store without requests. The first cookie is 0.
    pub fn new() -> (r: InhibitStore)
        ensures
            r@ == (StoreModel { next_cookie: 0, grants: Map::empty() }),
    {
        let r = InhibitStore { next_cookie: 0, grants: HashMap::new() };
        assert(r@.grants =~= Map::empty());
        r
    }

    /// How many requests are in force.
    pub fn active_count(&self) -> (r: usize)
        ensures
            r == self@.grants.len(),
            (r > 0) == self@.active(),
    {
        assert(self@.grants.dom() =~= self.grants@.dom());
        self.grants.len()
    }

    /// Whether the session is kept awake.
    pub fn is_active(&self) -> (r: bool)
        ensures
            r == self@.active(),
            r == (self@.grants.len() > 0),
    {
        assert(self@.grants.dom() =~= self.grants@.dom());
        !self.grants.is_empty()
    }

    /// The cookies of `peer`, in no particular order.
    fn cookies_of(&self, peer: &str) -> (r: Vec<u32>)
        ensures
            r@.no_duplicates(),
            r@.to_set() == self@.cookies_of(peer@),
    {
        let peer = peer.to_owned();
        let mut cookies: Vec<u32> = Vec::new();
        for entry in it: self.grants.iter()
            invariant
                it.seq().no_duplicates(),
                forall|i: int|
                    0 <= i < it.seq().len() ==> self.grants@.contains_key(
                        *(#[trigger] it.seq()[i]).0,
                    ) && self.grants@[*it.seq()[i].0] == *it.seq()[i].1,
                forall|c: u32| #[trigger]
                    self.grants@.contains_key(c) ==> it.seq().contains((&c, &self.grants@[c])),
                cookies@.no_duplicates(),
                forall|c: u32| #[trigger]
                    cookies@.contains(c) ==> self.grants@.contains_key(c)
                        && self.grants@[c].peer@ == peer@ && exists|i: int|
                        0 <= i < it.index() && *(#[trigger] it.seq()[i]).0 == c,
                forall|i: int|
                    0 <= i < it.index() && (#[trigger] it.seq()[i]).1.peer@ == peer@
                        ==> cookies@.contains(*it.seq()[i].0),
        {
            let ghost before = cookies@;
            let ghost at = it.index();
            assert(it.seq()[at as int] == entry);
            if entry.1.peer == peer {
                assert(!before.contains(*entry.0)) by {
                    if before.contains(*entry.0) {
                        let i = choose|i: int|
                            0 <= i < at && *(#[trigger] it.seq()[i]).0 == *entry.0;
                        assert(it.seq()[i] == it.seq()[at as int]);
                    }
                }
                cookies.push(*entry.0);
                assert(cookies@.last() == *entry.0);
                assert forall|c: u32| #[trigger] cookies@.contains(c) implies c == *entry.0
                    || before.contains(c) by {}
                assert forall|c: u32| before.contains(c) implies #[trigger] cookies@.contains(c) by {
                    let j = choose|j: int| 0 <= j < before.len() && before[j] == c;
                    assert(cookies@[j] == c);
                }
            }
        }
        assert(cookies@.to_set() =~= self@.cookies_of(peer@)) by {
            assert forall|c: u32| self@.cookies_of(peer@).contains(c) implies cookies@.contains(
                c,
            ) by {
                assert(self.grants@.contains_key(c));
            }
        }
        cookies
    }

    /// Takes the request of `peer` to keep the session awake. It gets a cookie
    /// in any case, but is in force only where it is admitted.
    pub fn inhibit(&mut self, peer: &str, app: &str, reason: &str) -> (r: (
        u32,
        ActiveTransition,
        Admission,
    ))
        ensures
            final(self)@ == old(self)@.inhibited(peer@, app@, reason@),
            r.0 == old(self)@.next_cookie,
            r.1 == transition(old(self)@.active(), final(self)@.active()),
            r.2 == old(self)@.admits(peer@),
    {
        let was_active = self.is_active();
        let cookie = self.next_cookie;
        self.next_cookie = self.next_cookie.wrapping_add(1);
        let peer_cookies = self.cookies_of(peer);
        proof {
            assert(self@.cookies_of(peer@) =~= old(self)@.cookies_of(peer@));
            peer_cookies@.unique_seq_to_set();
        }
        if self.active_count() >= MAX_GRANTS_TOTAL {
            return (cookie, ActiveTransition::Unchanged, Admission::RefusedTotalCap);
        }
        if peer_cookies.len() >= MAX_GRANTS_PER_PEER {
            return (cookie, ActiveTransition::Unchanged, Admission::RefusedPerPeerCap);
        }
        let grant = Grant {
            peer: peer.to_owned(),
            app: truncated(app).to_owned(),
            reason: truncated(reason).to_owned(),
        };
        let ghost model = grant@;
        self.grants.insert(cookie, grant);
        assert(self@.grants =~= old(self)@.grants.insert(cookie, model));
        (cookie, transition_for(was_active, self.is_active()), Admission::Granted)
    }

    /// Ends the request with this cookie, and says whether there was one. It is
    /// no error if there was none.
    pub fn uninhibit(&mut self, cookie: u32) -> (r: (bool, ActiveTransition))
        ensures
            final(self)@ == old(self)@.uninhibited(cookie),
            r.0 == old(self)@.grants.contains_key(cookie),
            r.1 == transition(old(self)@.active(), final(self)@.active()),
    {
        let was_active = self.is_active();
        let found = self.grants.remove(&cookie).is_some();
        assert(self@.grants =~= old(self)@.grants.remove(cookie));
        (found, transition_for(was_active, self.is_active()))
    }

    /// Ends every request of `peer`, which has gone away, and says which they
    /// were.
    pub fn peer_vanished(&mut self, peer: &str) -> (r: (Vec<Grant>, ActiveTransition))
        ensures
            final(self)@ == old(self)@.without_peer(peer@),
            old(self)@.are_grants_of(peer@, models(r.0@)),
            r.1 == transition(old(self)@.active(), final(self)@.active()),
    {
        let was_active = self.is_active();
        let cookies = self.cookies_of(peer);
        let mut dropped: Vec<Grant> = Vec::new();
        let mut i: usize = 0;
        assert(self@.grants =~= old(self)@.grants.remove_keys(cookies@.take(0).to_set()));
        while i < cookies.len()
            invariant
                i <= cookies.len(),
                cookies@.no_duplicates(),
                cookies@.to_set() == old(self)@.cookies_of(peer@),
                self@.next_cookie == old(self)@.next_cookie,
                self@.grants == old(self)@.grants.remove_keys(cookies@.take(i as int).to_set()),
                models(dropped@) == cookies@.take(i as int).map_values(
                    |cookie: u32| old(self)@.grants[cookie],
                ),
            decreases cookies.len() - i,
        {
            let cookie = cookies[i];
            let ghost before = self@.grants;
            let ghost done = models(dropped@);
            assert(cookies@.to_set().contains(cookie)) by {
                assert(cookies@[i as int] == cookie);
            }
            assert(!cookies@.take(i as int).to_set().contains(cookie));
            assert(self.grants@.contains_key(cookie)) by {
                assert(self@.grants.contains_key(cookie));
            }
            if let Some(grant) = self.grants.remove(&cookie) {
                assert(self@.grants =~= before.remove(cookie));
                assert(grant@ == before[cookie]);
                dropped.push(grant);
                assert(models(dropped@) =~= done.push(grant@));
            }
            assert(cookies@.take(i + 1) =~= cookies@.take(i as int).push(cookie));
            assert(cookies@.take(i + 1).to_set() =~= cookies@.take(i as int).to_set().insert(
                cookie,
            )) by {
                assert(cookies@.take(i + 1)[i as int] == cookie);
                assert forall|c: u32| cookies@.take(i as int).contains(c) implies cookies@.take(
                    i + 1,
                ).contains(c) by {
                    let j = choose|j: int| 0 <= j < i && cookies@.take(i as int)[j] == c;
                    assert(cookies@.take(i + 1)[j] == c);
                }
            }
            assert(self@.grants =~= old(self)@.grants.remove_keys(
                cookies@.take(i + 1).to_set(),
            ));
            assert(models(dropped@) =~= cookies@.take(i + 1).map_values(
                |cookie: u32| old(self)@.grants[cookie],
            ));
            i = i + 1;
        }
        assert(cookies@.take(i as int) =~= cookies@);
        (dropped, transition_for(was_active, self.is_active()))
    }
}

/// What is to be told to those who go by whether the session is kept awake.
pub open spec fn news(t: ActiveTransition) -> Option<bool> {
    match t {
        ActiveTransition::Unchanged => None,
        ActiveTransition::BecameActive => Some(true),
        ActiveTransition::BecameInactive => Some(false),
    }
}

impl ActiveTransition {
    /// What is to be told: whether the session is kept awake, where that has
    /// just changed.
    pub fn news(&self) -> (r: Option<bool>)
        ensures
            r == news(*self),
    {
        match self {
            ActiveTransition::Unchanged => None,
            ActiveTransition::BecameActive => Some(true),
            ActiveTransition::BecameInactive => Some(false),
        }
    }
}

/// The answer to a request.
#[derive(Debug, Clone, Copy, PartialEq, Eq, Structural)]
pub struct InhibitReply {
    /// What the application gets.
    pub cookie: u32,
    /// Whether the request came into force; `None` where it was not looked at.
    pub admission: Option<Admission>,
    /// What is to be told.
    pub news: Option<bool>,
}

/// What wakes the task that watches for peers that go away. Where several things
/// are there at once, the one that stands first here comes first.
#[derive(Debug)]
pub enum PeerWakeup {
    /// The daemon is to stop.
    Shutdown,
    /// This peer has gone away; `None` where the signal could not be decoded.
    Vanished(Option<String>),
    /// The stream of signals ended: the connection is gone.
    StreamEnded,
}

/// What that task does.
#[derive(Debug)]
pub enum PeerStep {
    /// End. Where nobody asked for it the daemon ends too, to be started anew.
    Stop,
    /// Report these requests, and what is to be told, and wait for the next
    /// wakeup.
    Dropped(Vec<Grant>, Option<bool>),
}

/// The service that applications talk to.
#[derive(Debug)]
pub struct ScreenSaverInterface {
    store: InhibitStore,
}

impl View for ScreenSaverInterface {
    type V = StoreModel;

    closed spec fn view(&self) -> StoreModel {
        self.store@
    }
}

impl ScreenSaverInterface {
    pub fn new() -> (r: ScreenSaverInterface)
        ensures
            r@ == (StoreModel { next_cookie: 0, grants: Map::empty() }),
    {
        ScreenSaverInterface { store: InhibitStore::new() }
    }

    /// How many requests are in force.
    pub fn active_count(&self) -> (r: usize)
        ensures
            r == self@.grants.len(),
            (r > 0) == self@.active(),
    {
        self.store.active_count()
    }

    /// Answers a request to keep the session awake. One whose `sender` is not
    /// known is not taken: it could never be dropped if the sender went away.
    pub fn inhibit(&mut self, sender: Option<&str>, app: &str, reason: &str) -> (r: InhibitReply)
        ensures
            match sender {
                Some(peer) => {
                    &&& final(self)@ == old(self)@.inhibited(peer@, app@, reason@)
                    &&& r == (InhibitReply {
                        cookie: old(self)@.next_cookie,
                        admission: Some(old(self)@.admits(peer@)),
                        news: news(transition(old(self)@.active(), final(self)@.active())),
                    })
                },
                None => {
                    &&& final(self)@ == old(self)@
                    &&& r == (InhibitReply { cookie: 0, admission: None, news: None })
                },
            },
    {
        match sender {
            None => InhibitReply { cookie: 0, admission: None, news: None },
            Some(peer) => {
                let (cookie, transition, admission) = self.store.inhibit(peer, app, reason);
                InhibitReply { cookie, admission: Some(admission), news: transition.news() }
            },
        }
    }

    /// Takes a cookie back. Says whether a request had it, and what is to be
    /// told.
    pub fn un_inhibit(&mut self, cookie: u32) -> (r: (bool, Option<bool>))
        ensures
            final(self)@ == old(self)@.uninhibited(cookie),
            r.0 == old(self)@.grants.contains_key(cookie),
            r.1 == news(transition(old(self)@.active(), final(self)@.active())),
    {
        let (found, transition) = self.store.uninhibit(cookie);
        (found, transition.news())
    }

    /// Takes a wakeup of the task that watches for peers that go away.
    pub fn on_peer_wakeup(&mut self, wakeup: PeerWakeup) -> (r: PeerStep)
        ensures
            match wakeup {
                PeerWakeup::Shutdown | PeerWakeup::StreamEnded => {
                    &&& r is Stop
                    &&& final(self)@ == old(self)@
                },
                PeerWakeup::Vanished(None) => {
                    &&& r matches PeerStep::Dropped(dropped, told) && dropped@.len() == 0
                        && told is None
                    &&& final(self)@ == old(self)@
                },
                PeerWakeup::Vanished(Some(peer)) => {
                    &&& final(self)@ == old(self)@.without_peer(peer@)
                    &&& r matches PeerStep::Dropped(dropped, told) && old(self)@.are_grants_of(
                        peer@,
                        models(dropped@),
                    ) && told == news(transition(old(self)@.active(), final(self)@.active()))
                },
            },
    {
        match wakeup {
            PeerWakeup::Shutdown => PeerStep::Stop,
            PeerWakeup::StreamEnded => PeerStep::Stop,
            PeerWakeup::Vanished(None) => PeerStep::Dropped(Vec::new(), None),
            PeerWakeup::Vanished(Some(peer)) => {
                let (dropped, transition) = self.store.peer_vanished(peer.as_str());
                PeerStep::Dropped(dropped, transition.news())
            },
        }
    }
}

/// Who has the bus name.
#[derive(Debug, Clone, Copy, PartialEq, Eq, Structural)]
pub enum ClaimOutcome {
    /// This daemon.
    Claimed,
    /// Somebody else.
    AlreadyOwned,
}

/// Why it is not known who has the bus name.
#[derive(Debug)]
pub struct ClaimError {
    message: String,
}

impl View for ClaimError {
    type V = Seq<char>;

    closed spec fn view(&self) -> Seq<char> {
        self.message@
    }
}

impl ClaimError {
    pub fn new(message: &str) -> (r: ClaimError)
        ensures
            r@ == message@,
    {
        ClaimError { message: message.to_owned() }
    }

    /// What went wrong, in words.
    pub fn message(&self) -> (r: &str)
        ensures
            r@ == self@,
    {
        self.message.as_str()
    }
}

/// The bus's answer to a request for the name that is not to be queued.
#[derive(Debug)]
pub enum NameReply {
    PrimaryOwner,
    AlreadyOwner,
    /// Somebody else has the name.
    NameTaken,
    /// An answer that such a request should not get.
    Unexpected(String),
    /// The request failed, for this reason.
    Failed(String),
}

/// What the bus's answer says of who has the name.
pub fn claim_outcome(reply: NameReply) -> (r: Result<ClaimOutcome, ClaimError>)
    ensures
        match (reply, r) {
            (NameReply::PrimaryOwner | NameReply::AlreadyOwner, Ok(outcome)) => outcome
                == ClaimOutcome::Claimed,
            (NameReply::NameTaken, Ok(outcome)) => outcome == ClaimOutcome::AlreadyOwned,
            (NameReply::Unexpected(other), Err(err)) => err@
                == "unexpected RequestName reply with DoNotQueue-only flags: "@ + other@,
            (NameReply::Failed(reason), Err(err)) => err@ == "RequestName failed: "@ + reason@,
            _ => false,
        },
{
    match reply {
        NameReply::PrimaryOwner => Ok(ClaimOutcome::Claimed),
        NameReply::AlreadyOwner => Ok(ClaimOutcome::Claimed),
        NameReply::NameTaken => Ok(ClaimOutcome::AlreadyOwned),
        NameReply::Unexpected(other) => {
            let message =
                "unexpected RequestName reply with DoNotQueue-only flags: ".to_owned().concat(
                other.as_str(),
            );
            Err(ClaimError { message })
        },
        NameReply::Failed(reason) => {
            let message = "RequestName failed: ".to_owned().concat(reason.as_str());
            Err(ClaimError { message })
        },
    }
}

/// Whether the daemon answers requests.
#[derive(Debug, Clone, Copy, PartialEq, Eq, Structural)]
pub enum ServiceMode {
    Active,
    Inert,
}

/// The daemon answers requests exactly where it has the name; it never fights
/// over it.
pub fn decide_service_mode(claim: &Result<ClaimOutcome, ClaimError>) -> (r: ServiceMode)
    ensures
        r == if *claim == Ok::<ClaimOutcome, ClaimError>(ClaimOutcome::Claimed) {
            ServiceMode::Active
        } else {
            ServiceMode::Inert
        },
{
    match claim {
        Ok(ClaimOutcome::Claimed) => ServiceMode::Active,
        Ok(ClaimOutcome::AlreadyOwned) => ServiceMode::Inert,
        Err(_) => ServiceMode::Inert,
    }
}

/// The stages in which the service comes up.
#[derive(Debug, Clone, Copy, PartialEq, Eq, Structural)]
pub enum ServiceStage {
    /// Reaching the bus.
    Connect,
    /// Offering the service at its path.
    Register,
    /// Offering it at the path where some still look for it.
    RegisterLegacy,
    /// Getting the name.
    Claim,
    /// Getting ready to watch for peers that go away.
    Proxy,
    /// Asking to be told of them.
    Subscribe,
    /// Watching for them.
    Watch,
}

/// What follows a stage.
#[derive(Debug, Clone, Copy, PartialEq, Eq, Structural)]
pub enum ServiceStep {
    Go(ServiceStage),
    /// Nothing: the task stays there until the daemon is to stop.
    WaitForShutdown,
}

/// What follows a stage that `worked` or not. Only the second path can be done
/// without.
pub fn next_stage(stage: ServiceStage, worked: bool) -> (r: ServiceStep)
    ensures
        r == match stage {
            ServiceStage::RegisterLegacy => ServiceStep::Go(ServiceStage::Claim),
            _ => if !worked {
                ServiceStep::WaitForShutdown
            } else {
                ServiceStep::Go(
                    match stage {
                        ServiceStage::Connect => ServiceStage::Register,
                        ServiceStage::Register => ServiceStage::RegisterLegacy,
                        ServiceStage::Claim => ServiceStage::Proxy,
                        ServiceStage::Proxy => ServiceStage::Subscribe,
                        _ => ServiceStage::Watch,
                    },
                )
            },
        },
{
    match stage {
        ServiceStage::RegisterLegacy => ServiceStep::Go(ServiceStage::Claim),
        _ => {
            if !worked {
                return ServiceStep::WaitForShutdown;
            }
            match stage {
                ServiceStage::Connect => ServiceStep::Go(ServiceStage::Register),
                ServiceStage::Register => ServiceStep::Go(ServiceStage::RegisterLegacy),
                ServiceStage::Claim => ServiceStep::Go(ServiceStage::Proxy),
                ServiceStage::Proxy => ServiceStep::Go(ServiceStage::Subscribe),
                _ => ServiceStep::Go(ServiceStage::Watch),
            }
        },
    }
}

} // verus!
