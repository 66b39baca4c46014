//! What holds of the requests to keep the session awake, over any course of
//! requests.

use crate::inhibit::kept;
use crate::inhibit::models;
use crate::inhibit::news;
use crate::inhibit::transition;
use crate::inhibit::ActiveTransition;
use crate::inhibit::Admission;
use crate::inhibit::Grant;
use crate::inhibit::GrantModel;
use crate::inhibit::StoreModel;
use crate::inhibit::MAX_FIELD_LEN;
use crate::inhibit::MAX_GRANTS_PER_PEER;
use crate::inhibit::MAX_GRANTS_TOTAL;
use vstd::prelude::*;

verus! {

/// Something that happens to a store.
pub ghost enum StoreOp {
    Inhibit { peer: Seq<char>, app: Seq<char>, reason: Seq<char> },
    UnInhibit(u32),
    PeerVanished(Seq<char>),
}

/// The store after `op`.
pub open spec fn store_next(m: StoreModel, op: StoreOp) -> StoreModel {
    match op {
        StoreOp::Inhibit { peer, app, reason } => m.inhibited(peer, app, reason),
        StoreOp::UnInhibit(cookie) => m.uninhibited(cookie),
        StoreOp::PeerVanished(peer) => m.without_peer(peer),
    }
}

/// The store after all of `ops`.
pub open spec fn store_run(m: StoreModel, ops: Seq<StoreOp>) -> StoreModel
    decreases ops.len(),
{
    if ops.len() == 0 {
        m
    } else {
        store_run(store_next(m, ops[0]), ops.skip(1))
    }
}

/// The store before anything has happened.
pub open spec fn store_start() -> StoreModel {
    StoreModel { next_cookie: 0, grants: Map::empty() }
}

/// Whether a store is within its limits: in all, for each peer, and in what it
/// keeps of each request.
pub open spec fn bounded(m: StoreModel) -> bool {
    &&& m.grants.dom().finite()
    &&& m.grants.len() <= MAX_GRANTS_TOTAL
    &&& forall|peer: Seq<char>| (#[trigger] m.cookies_of(peer)).len() <= MAX_GRANTS_PER_PEER
    &&& forall|cookie: u32| #[trigger]
        m.grants.contains_key(cookie) ==> m.grants[cookie].app.len() <= MAX_FIELD_LEN
            && m.grants[cookie].reason.len() <= MAX_FIELD_LEN
}

/// Whatever applications ask for, a store stays within its limits.
pub proof fn law_limits_are_kept(ops: Seq<StoreOp>)
    ensures
        bounded(store_run(store_start(), ops)),
{
    let m = store_start();
    assert forall|peer: Seq<char>| (#[trigger] m.cookies_of(peer)).len()
        <= MAX_GRANTS_PER_PEER by {
        assert(m.cookies_of(peer) =~= Set::empty());
    }
    lemma_bounded_run(m, ops);
}

proof fn lemma_bounded_run(m: StoreModel, ops: Seq<StoreOp>)
    requires
        bounded(m),
    ensures
        bounded(store_run(m, ops)),
    decreases ops.len(),
{
    if ops.len() > 0 {
        lemma_bounded_next(m, ops[0]);
        lemma_bounded_run(store_next(m, ops[0]), ops.skip(1));
    }
}

proof fn lemma_bounded_next(m: StoreModel, op: StoreOp)
    requires
        bounded(m),
    ensures
        bounded(store_next(m, op)),
{
    let n = store_next(m, op);
    match op {
        StoreOp::Inhibit { peer, app, reason } => {
            assert forall|p: Seq<char>| (#[trigger] n.cookies_of(p)).len()
                <= MAX_GRANTS_PER_PEER by {
                let before = m.cookies_of(p);
                if p == peer && m.admits(peer) is Granted {
                    let most = before.insert(m.next_cookie);
                    assert(n.cookies_of(p).subset_of(most));
                    vstd::set_lib::lemma_len_subset(n.cookies_of(p), most);
                } else {
                    assert(n.cookies_of(p).subset_of(before));
                    vstd::set_lib::lemma_len_subset(n.cookies_of(p), before);
                }
            }
        },
        StoreOp::UnInhibit(cookie) => {
            lemma_fewer_grants(m, n);
        },
        StoreOp::PeerVanished(peer) => {
            lemma_fewer_grants(m, n);
        },
    }
}

proof fn lemma_fewer_grants(m: StoreModel, n: StoreModel)
    requires
        bounded(m),
        n.grants.submap_of(m.grants),
    ensures
        bounded(n),
{
    assert(n.grants.dom().subset_of(m.grants.dom()));
    vstd::set_lib::lemma_len_subset(n.grants.dom(), m.grants.dom());
    assert forall|p: Seq<char>| (#[trigger] n.cookies_of(p)).len() <= MAX_GRANTS_PER_PEER by {
        assert(n.cookies_of(p).subset_of(m.cookies_of(p)));
        vstd::set_lib::lemma_len_subset(n.cookies_of(p), m.cookies_of(p));
    }
}

/// What was told last, where `told` was what was told before `ops`.
pub open spec fn last_told(m: StoreModel, told: bool, ops: Seq<StoreOp>) -> bool
    decreases ops.len(),
{
    if ops.len() == 0 {
        told
    } else {
        let n = store_next(m, ops[0]);
        last_told(
            n,
            match news(transition(m.active(), n.active())) {
                Some(active) => active,
                None => told,
            },
            ops.skip(1),
        )
    }
}

/// What was told last is always true: the session counts as kept awake exactly
/// while at least one request is in force.
pub proof fn law_what_is_told_is_true(m: StoreModel, ops: Seq<StoreOp>)
    ensures
        last_told(m, m.active(), ops) == store_run(m, ops).active(),
        store_run(m, ops).active() <==> exists|cookie: u32| #[trigger]
            store_run(m, ops).grants.contains_key(cookie),
    decreases ops.len(),
{
    let end = store_run(m, ops);
    if end.active() {
        assert(exists|cookie: u32| #[trigger] end.grants.contains_key(cookie)) by {
            if !(exists|cookie: u32| #[trigger] end.grants.contains_key(cookie)) {
                assert(end.grants =~= Map::empty());
            }
        }
    }
    if ops.len() > 0 {
        law_what_is_told_is_true(store_next(m, ops[0]), ops.skip(1));
    }
}

/// Something is told only where the session begins or ceases to be kept awake,
/// and then that it does.
pub proof fn law_only_changes_are_told(m: StoreModel, op: StoreOp)
    ensures
        ({
            let n = store_next(m, op);
            &&& news(transition(m.active(), n.active())) is Some <==> m.active() != n.active()
            &&& news(transition(m.active(), n.active())) is Some ==> news(
                transition(m.active(), n.active()),
            ) == Some(n.active())
        }),
{
}

/// Handing the cookie in ends exactly the request that it was given for.
pub proof fn law_a_cookie_ends_its_request(
    m: StoreModel,
    peer: Seq<char>,
    app: Seq<char>,
    reason: Seq<char>,
)
    requires
        !m.grants.contains_key(m.next_cookie),
    ensures
        m.inhibited(peer, app, reason).uninhibited(m.next_cookie).grants == m.grants,
{
    assert(m.inhibited(peer, app, reason).uninhibited(m.next_cookie).grants =~= m.grants);
}

/// A cookie that stands for no request, because it has been handed in or was
/// never given out, ends nothing.
pub proof fn law_an_unknown_cookie_does_nothing(m: StoreModel, cookie: u32)
    ensures
        !m.grants.contains_key(cookie) ==> m.uninhibited(cookie) == m,
        !m.uninhibited(cookie).grants.contains_key(cookie),
        m.uninhibited(cookie).uninhibited(cookie) == m.uninhibited(cookie),
{
    if !m.grants.contains_key(cookie) {
        assert(m.uninhibited(cookie).grants =~= m.grants);
    }
    assert(m.uninhibited(cookie).uninhibited(cookie).grants =~= m.uninhibited(cookie).grants);
}

/// When a peer goes away, all of its requests end, and none of anybody else's.
pub proof fn law_a_vanished_peer_leaves_nothing_behind(
    m: StoreModel,
    peer: Seq<char>,
    cookie: u32,
)
    ensures
        m.without_peer(peer).cookies_of(peer).is_empty(),
        m.without_peer(peer).grants.contains_key(cookie) <==> m.grants.contains_key(cookie)
            && m.grants[cookie].peer != peer,
        m.without_peer(peer).grants.contains_key(cookie) ==> m.without_peer(peer).grants[cookie]
            == m.grants[cookie],
{
    assert(m.without_peer(peer).cookies_of(peer) =~= Set::empty());
}

/// A request that is refused changes nothing but the next cookie: it neither
/// keeps the session awake nor ends another request.
pub proof fn law_a_refused_request_changes_nothing(
    m: StoreModel,
    peer: Seq<char>,
    app: Seq<char>,
    reason: Seq<char>,
)
    requires
        m.admits(peer) != Admission::Granted,
    ensures
        m.inhibited(peer, app, reason).grants == m.grants,
        m.inhibited(peer, app, reason).active() == m.active(),
{
}

/// A request that is admitted is in force under its cookie, as far as it is
/// kept, and keeps the session awake.
pub proof fn law_an_admitted_request_is_in_force(
    m: StoreModel,
    peer: Seq<char>,
    app: Seq<char>,
    reason: Seq<char>,
)
    requires
        m.admits(peer) == Admission::Granted,
    ensures
        m.inhibited(peer, app, reason).active(),
        m.inhibited(peer, app, reason).grants.contains_pair(
            m.next_cookie,
            GrantModel { peer, app: kept(app), reason: kept(reason) },
        ),
{
    let n = m.inhibited(peer, app, reason);
    assert(n.grants.contains_key(m.next_cookie));
    assert(n.active()) by {
        if n.grants.is_empty() {
            assert(n.grants =~= Map::empty());
        }
    }
}

/// One peer's requests do not count against another's limit.
pub proof fn law_each_peer_has_its_own_limit(
    m: StoreModel,
    peer: Seq<char>,
    other: Seq<char>,
    app: Seq<char>,
    reason: Seq<char>,
)
    requires
        peer != other,
        !m.grants.contains_key(m.next_cookie),
    ensures
        m.inhibited(peer, app, reason).cookies_of(other) == m.cookies_of(other),
{
    assert(m.inhibited(peer, app, reason).cookies_of(other) =~= m.cookies_of(other));
}

/// How many of `ops` are requests.
pub open spec fn requests(ops: Seq<StoreOp>) -> nat
    decreases ops.len(),
{
    if ops.len() == 0 {
        0
    } else if ops[0] is Inhibit {
        requests(ops.skip(1)) + 1
    } else {
        requests(ops.skip(1))
    }
}

/// Cookies are given out in turn, and come round after all of them have been
/// given out: two requests with fewer than 2^32 others between them have
/// different cookies.
pub proof fn law_cookies_come_in_turn(m: StoreModel, ops: Seq<StoreOp>)
    ensures
        store_run(m, ops).next_cookie == (m.next_cookie + requests(ops)) % 0x1_0000_0000,
    decreases ops.len(),
{
    if ops.len() > 0 {
        law_cookies_come_in_turn(store_next(m, ops[0]), ops.skip(1));
    }
}

/// The cookie that the request at `i` among `ops` gets.
pub open spec fn cookie_at(ops: Seq<StoreOp>, i: int) -> u32 {
    store_run(store_start(), ops.take(i)).next_cookie
}

/// Whether there is a request at `i` among `ops`, and it is admitted.
pub open spec fn granted_at(ops: Seq<StoreOp>, i: int) -> bool {
    &&& 0 <= i < ops.len()
    &&& ops[i] is Inhibit
    &&& store_run(store_start(), ops.take(i)).admits(ops[i]->peer) is Granted
}

/// Whether `op` ends a request of `peer` that has this cookie.
pub open spec fn releases(op: StoreOp, peer: Seq<char>, cookie: u32) -> bool {
    op == StoreOp::UnInhibit(cookie) || op == StoreOp::PeerVanished(peer)
}

/// Whether the request at `i` among `ops` was admitted, and nothing after it has
/// ended it.
pub open spec fn is_outstanding(ops: Seq<StoreOp>, i: int) -> bool {
    &&& granted_at(ops, i)
    &&& forall|j: int|
        i < j < ops.len() ==> !releases(#[trigger] ops[j], ops[i]->peer, cookie_at(ops, i))
}

/// The requests among `ops` that were admitted and have not been ended, by their
/// places.
pub open spec fn outstanding(ops: Seq<StoreOp>) -> Set<int> {
    Set::new(|i: int| is_outstanding(ops, i))
}

proof fn lemma_run_last(m: StoreModel, ops: Seq<StoreOp>)
    requires
        ops.len() > 0,
    ensures
        store_run(m, ops) == store_next(store_run(m, ops.drop_last()), ops.last()),
    decreases ops.len(),
{
    if ops.len() > 1 {
        let rest = ops.skip(1);
        lemma_run_last(store_next(m, ops[0]), rest);
        assert(rest.drop_last() =~= ops.drop_last().skip(1));
        assert(rest.last() == ops.last());
    } else {
        assert(ops.skip(1) =~= Seq::empty());
        assert(ops.drop_last() =~= Seq::empty());
        assert(store_run(store_next(m, ops[0]), ops.skip(1)) == store_next(m, ops[0]));
    }
}

proof fn lemma_requests_of_push(ops: Seq<StoreOp>, op: StoreOp)
    ensures
        requests(ops.push(op)) == requests(ops) + if op is Inhibit {
            1nat
        } else {
            0
        },
    decreases ops.len(),
{
    let all = ops.push(op);
    if ops.len() > 0 {
        assert(all.skip(1) =~= ops.skip(1).push(op));
        lemma_requests_of_push(ops.skip(1), op);
    } else {
        assert(all.skip(1) =~= Seq::empty());
        assert(requests(all.skip(1)) == 0);
    }
}

proof fn lemma_requests_before(ops: Seq<StoreOp>, i: int)
    requires
        0 <= i < ops.len(),
    ensures
        requests(ops.take(i)) + if ops[i] is Inhibit {
            1nat
        } else {
            0
        } <= requests(ops),
    decreases ops.len(),
{
    let before = ops.drop_last();
    assert(ops =~= before.push(ops.last()));
    lemma_requests_of_push(before, ops.last());
    if i < before.len() {
        assert(ops.take(i) =~= before.take(i));
        lemma_requests_before(before, i);
    } else {
        assert(ops.take(i) =~= before);
    }
}

/// Short of a full round of cookies, different requests have different cookies.
proof fn lemma_cookies_differ(ops: Seq<StoreOp>, i: int, j: int)
    requires
        requests(ops) <= 0x1_0000_0000,
        0 <= i < j < ops.len(),
        ops[i] is Inhibit,
        ops[j] is Inhibit,
    ensures
        cookie_at(ops, i) != cookie_at(ops, j),
{
    lemma_requests_before(ops, j);
    lemma_requests_before(ops.take(j), i);
    assert(ops.take(j).take(i) =~= ops.take(i));
    assert(ops.take(j)[i] == ops[i]);
    law_cookies_come_in_turn(store_start(), ops.take(i));
    law_cookies_come_in_turn(store_start(), ops.take(j));
}

/// Whether the request at `i` among `ops` is the one that is in force under this
/// cookie.
pub open spec fn stands_for(ops: Seq<StoreOp>, i: int, cookie: u32) -> bool {
    &&& is_outstanding(ops, i)
    &&& cookie_at(ops, i) == cookie
}

/// A request stays outstanding over another operation exactly where that does not
/// end it.
proof fn lemma_outstanding_before(ops: Seq<StoreOp>, i: int)
    requires
        0 <= i < ops.len() - 1,
    ensures
        cookie_at(ops, i) == cookie_at(ops.drop_last(), i),
        is_outstanding(ops, i) <==> is_outstanding(ops.drop_last(), i) && !releases(
            ops.last(),
            ops[i]->peer,
            cookie_at(ops, i),
        ),
{
    let before = ops.drop_last();
    assert(ops.take(i) =~= before.take(i));
    assert(before[i] == ops[i]);
    if is_outstanding(ops, i) {
        assert forall|j: int| i < j < before.len() implies !releases(
            #[trigger] before[j],
            before[i]->peer,
            cookie_at(before, i),
        ) by {
            assert(before[j] == ops[j]);
        }
        assert(!releases(ops[ops.len() - 1], ops[i]->peer, cookie_at(ops, i)));
    }
    if is_outstanding(before, i) && !releases(ops.last(), ops[i]->peer, cookie_at(ops, i)) {
        assert forall|j: int| i < j < ops.len() implies !releases(
            #[trigger] ops[j],
            ops[i]->peer,
            cookie_at(ops, i),
        ) by {
            if j < before.len() {
                assert(before[j] == ops[j]);
            }
        }
    }
}

/// What is in force is exactly what is outstanding, each request under the cookie
/// that it got, as long as the cookies have not come round.
pub proof fn law_what_is_outstanding_is_in_force(ops: Seq<StoreOp>)
    requires
        requests(ops) <= 0x1_0000_0000,
    ensures
        forall|i: int| #[trigger]
            is_outstanding(ops, i) ==> {
                let grants = store_run(store_start(), ops).grants;
                &&& grants.contains_key(cookie_at(ops, i))
                &&& grants[cookie_at(ops, i)].peer == ops[i]->peer
            },
        forall|cookie: u32| #[trigger]
            store_run(store_start(), ops).grants.contains_key(cookie) ==> exists|i: int| #[trigger]
                stands_for(ops, i, cookie),
    decreases ops.len(),
{
    if ops.len() > 0 {
        let before = ops.drop_last();
        let op = ops.last();
        let n = before.len() as int;
        let old_store = store_run(store_start(), before);
        let new_store = store_run(store_start(), ops);
        assert(ops =~= before.push(op));
        lemma_requests_of_push(before, op);
        law_what_is_outstanding_is_in_force(before);
        lemma_run_last(store_start(), ops);
        assert(ops.take(n) =~= before);
        assert forall|i: int| #[trigger] is_outstanding(ops, i) implies {
            &&& new_store.grants.contains_key(cookie_at(ops, i))
            &&& new_store.grants[cookie_at(ops, i)].peer == ops[i]->peer
        } by {
            if i < n {
                lemma_outstanding_before(ops, i);
                assert(before[i] == ops[i]);
                assert(is_outstanding(before, i));
                if op is Inhibit {
                    lemma_cookies_differ(ops, i, n);
                }
            }
        }
        assert forall|cookie: u32| #[trigger] new_store.grants.contains_key(cookie) implies exists|
            i: int,
        | #[trigger] stands_for(ops, i, cookie) by {
            if op is Inhibit && old_store.admits(op->peer) is Granted && cookie
                == old_store.next_cookie {
                assert(stands_for(ops, n, cookie));
            } else {
                assert(old_store.grants.contains_key(cookie));
                let i = choose|i: int| #[trigger] stands_for(before, i, cookie);
                lemma_outstanding_before(ops, i);
                assert(before[i] == ops[i]);
                assert(stands_for(ops, i, cookie));
            }
        }
    } else {
        assert(store_run(store_start(), ops) == store_start());
    }
}

/// The number of requests in force is the number of requests that were admitted
/// and have not been ended, as long as the cookies have not come round.
pub proof fn law_the_count_is_of_what_is_outstanding(ops: Seq<StoreOp>)
    requires
        requests(ops) <= 0x1_0000_0000,
    ensures
        outstanding(ops).finite(),
        store_run(store_start(), ops).grants.len() == outstanding(ops).len(),
{
    law_what_is_outstanding_is_in_force(ops);
    let out = outstanding(ops);
    let places = vstd::set_lib::set_int_range(0, ops.len() as int);
    vstd::set_lib::lemma_int_range(0, ops.len() as int);
    assert(out.subset_of(places));
    vstd::set_lib::lemma_len_subset(out, places);
    let cookie = |i: int| cookie_at(ops, i);
    let dom = store_run(store_start(), ops).grants.dom();
    assert forall|i: int, j: int| #![trigger cookie(i), cookie(j)]
        out.contains(i) && out.contains(j) && cookie(i) == cookie(j) implies i == j by {
        if i < j {
            lemma_cookies_differ(ops, i, j);
        } else if j < i {
            lemma_cookies_differ(ops, j, i);
        }
    }
    assert(out.map(cookie) =~= dom) by {
        assert forall|c: u32| dom.contains(c) implies out.map(cookie).contains(c) by {
            assert(store_run(store_start(), ops).grants.contains_key(c));
            let i = choose|i: int| #[trigger] stands_for(ops, i, c);
            assert(out.contains(i) && cookie(i) == c);
        }
        assert forall|c: u32| out.map(cookie).contains(c) implies dom.contains(c) by {
            let i = choose|i: int| out.contains(i) && cookie(i) == c;
            assert(is_outstanding(ops, i));
        }
    }
    vstd::set_lib::lemma_map_size(out, dom, cookie);
}

/// Whether a request is admitted is decided by two numbers and nothing else: how
/// many requests are in force, and how many of them are the peer's own. The limits
/// are 1024 in all and 64 for a peer.
pub proof fn law_the_two_limits_decide(m: StoreModel, peer: Seq<char>)
    ensures
        ({
            let in_all = m.grants.dom().len();
            let own = m.grants.dom().filter(|cookie: u32| m.grants[cookie].peer == peer).len();
            &&& m.admits(peer) == Admission::Granted <==> in_all < 1024 && own < 64
            &&& m.admits(peer) == Admission::RefusedTotalCap <==> in_all >= 1024
            &&& m.admits(peer) == Admission::RefusedPerPeerCap <==> in_all < 1024 && own >= 64
        }),
{
    assert(m.cookies_of(peer) =~= m.grants.dom().filter(
        |cookie: u32| m.grants[cookie].peer == peer,
    ));
}

/// Stores with the same requests of a peer treat the next one of it alike, as long
/// as neither is full: what others ask for does not count.
pub proof fn law_others_do_not_count_against_a_peer(
    m: StoreModel,
    n: StoreModel,
    peer: Seq<char>,
)
    requires
        m.grants.dom().len() < 1024,
        n.grants.dom().len() < 1024,
        forall|cookie: u32|
            (#[trigger] m.grants.contains_key(cookie) && m.grants[cookie].peer == peer) <==> (
            n.grants.contains_key(cookie) && n.grants[cookie].peer == peer),
    ensures
        m.admits(peer) == n.admits(peer),
{
    assert forall|cookie: u32| m.cookies_of(peer).contains(cookie) implies n.cookies_of(
        peer,
    ).contains(cookie) by {
        assert(m.grants.contains_key(cookie));
    }
    assert forall|cookie: u32| n.cookies_of(peer).contains(cookie) implies m.cookies_of(
        peer,
    ).contains(cookie) by {
        assert(m.grants.contains_key(cookie) <==> m.grants.dom().contains(cookie));
    }
    assert(m.cookies_of(peer) =~= n.cookies_of(peer));
}

/// The requests of `peer` among `ops` that were admitted and have not been ended,
/// by their places.
pub open spec fn outstanding_of(ops: Seq<StoreOp>, peer: Seq<char>) -> Set<int> {
    Set::new(|i: int| is_outstanding(ops, i) && ops[i]->peer == peer)
}

/// As long as the cookies have not come round, a request is admitted exactly where
/// fewer than 1024 requests are outstanding, and fewer than 64 of the peer's own.
pub proof fn law_a_request_is_admitted_within_the_limits(ops: Seq<StoreOp>, peer: Seq<char>)
    requires
        requests(ops) <= 0x1_0000_0000,
    ensures
        store_run(store_start(), ops).admits(peer) == Admission::Granted <==> outstanding(ops).len()
            < 1024 && outstanding_of(ops, peer).len() < 64,
        store_run(store_start(), ops).admits(peer) == Admission::RefusedTotalCap <==> outstanding(
            ops,
        ).len() >= 1024,
{
    let m = store_run(store_start(), ops);
    law_the_count_is_of_what_is_outstanding(ops);
    law_what_is_outstanding_is_in_force(ops);
    law_the_two_limits_decide(m, peer);
    let out = outstanding_of(ops, peer);
    assert(out.subset_of(outstanding(ops)));
    vstd::set_lib::lemma_len_subset(out, outstanding(ops));
    let cookie = |i: int| cookie_at(ops, i);
    let own = m.grants.dom().filter(|c: u32| m.grants[c].peer == peer);
    assert forall|i: int, j: int| #![trigger cookie(i), cookie(j)]
        out.contains(i) && out.contains(j) && cookie(i) == cookie(j) implies i == j by {
        if i < j {
            lemma_cookies_differ(ops, i, j);
        } else if j < i {
            lemma_cookies_differ(ops, j, i);
        }
    }
    assert(out.map(cookie) =~= own) by {
        assert forall|c: u32| own.contains(c) implies out.map(cookie).contains(c) by {
            assert(m.grants.contains_key(c));
            let i = choose|i: int| #[trigger] stands_for(ops, i, c);
            assert(is_outstanding(ops, i));
            assert(out.contains(i) && cookie(i) == c);
        }
        assert forall|c: u32| out.map(cookie).contains(c) implies own.contains(c) by {
            let i = choose|i: int| out.contains(i) && cookie(i) == c;
            assert(is_outstanding(ops, i));
        }
    }
    vstd::set_lib::lemma_map_size(out, own, cookie);
}

/// The k-th request, counted from none, gets the cookie k, as long as the cookies
/// have not come round.
pub proof fn law_a_request_gets_its_number(ops: Seq<StoreOp>)
    requires
        requests(ops) < 0x1_0000_0000,
    ensures
        store_run(store_start(), ops).next_cookie == requests(ops),
{
    law_cookies_come_in_turn(store_start(), ops);
}

/// A request touches no other: the ones under other cookies stay as they are,
/// whether or not it is admitted.
pub proof fn law_a_request_touches_no_other(
    m: StoreModel,
    peer: Seq<char>,
    app: Seq<char>,
    reason: Seq<char>,
    cookie: u32,
)
    requires
        cookie != m.next_cookie,
    ensures
        ({
            let n = m.inhibited(peer, app, reason);
            &&& n.grants.contains_key(cookie) <==> m.grants.contains_key(cookie)
            &&& m.grants.contains_key(cookie) ==> n.grants[cookie] == m.grants[cookie]
        }),
{
}

/// A request that is admitted is in force under its own cookie, in the name of the
/// peer that made it, with its texts cut to 256 characters; one that is not is not.
pub proof fn law_a_request_is_kept_as_it_was_made(
    m: StoreModel,
    peer: Seq<char>,
    app: Seq<char>,
    reason: Seq<char>,
)
    ensures
        ({
            let n = m.inhibited(peer, app, reason);
            let cookie = m.next_cookie;
            &&& m.admits(peer) == Admission::Granted ==> {
                &&& n.grants.contains_key(cookie)
                &&& n.grants[cookie].peer == peer
                &&& n.grants[cookie].app.is_prefix_of(app)
                &&& n.grants[cookie].app.len() == if app.len() < 256 {
                    app.len()
                } else {
                    256
                }
                &&& n.grants[cookie].reason.is_prefix_of(reason)
                &&& n.grants[cookie].reason.len() == if reason.len() < 256 {
                    reason.len()
                } else {
                    256
                }
            }
            &&& m.admits(peer) != Admission::Granted ==> n.grants == m.grants
            &&& n.next_cookie == (m.next_cookie + 1) % 0x1_0000_0000
        }),
{
}

/// Of a text, the first 256 characters are kept, and all of it where it has no
/// more.
pub proof fn law_texts_are_cut_at_their_end(s: Seq<char>)
    ensures
        kept(s).is_prefix_of(s),
        kept(s).len() == if s.len() < 256 {
            s.len()
        } else {
            256
        },
{
}

/// Handing a cookie in ends the request that has it, and touches no other and no
/// cookie to come.
pub proof fn law_a_cookie_ends_no_other_request(m: StoreModel, cookie: u32, other: u32)
    ensures
        !m.uninhibited(cookie).grants.contains_key(cookie),
        other != cookie ==> (m.uninhibited(cookie).grants.contains_key(other)
            <==> m.grants.contains_key(other)),
        other != cookie && m.grants.contains_key(other) ==> m.uninhibited(cookie).grants[other]
            == m.grants[other],
        m.uninhibited(cookie).next_cookie == m.next_cookie,
{
}

/// That a peer goes away has no bearing on the cookies to come.
pub proof fn law_a_vanished_peer_uses_up_no_cookie(m: StoreModel, peer: Seq<char>)
    ensures
        m.without_peer(peer).next_cookie == m.next_cookie,
{
}

/// What is reported of a peer that has gone away is what it left behind: as many
/// requests as it had in force, each of them once.
pub proof fn law_what_a_peer_left_behind_is_reported(
    m: StoreModel,
    peer: Seq<char>,
    dropped: Seq<GrantModel>,
    grant: GrantModel,
)
    requires
        m.are_grants_of(peer, dropped),
    ensures
        dropped.len() == m.grants.dom().filter(
            |cookie: u32| m.grants[cookie].peer == peer,
        ).len(),
        dropped.to_multiset().count(grant) == m.grants.dom().filter(
            |cookie: u32| m.grants[cookie].peer == peer && m.grants[cookie] == grant,
        ).len(),
{
    let cookies = choose|cookies: Seq<u32>|
        {
            &&& #[trigger] cookies.no_duplicates()
            &&& cookies.to_set() == m.cookies_of(peer)
            &&& dropped == cookies.map_values(|cookie: u32| m.grants[cookie])
        };
    cookies.unique_seq_to_set();
    assert(cookies.to_set() =~= m.grants.dom().filter(
        |cookie: u32| m.grants[cookie].peer == peer,
    ));
    lemma_count_of_mapped(m.grants, cookies, grant);
    assert(cookies.to_set().filter(|cookie: u32| m.grants[cookie] == grant)
        =~= m.grants.dom().filter(
        |cookie: u32| m.grants[cookie].peer == peer && m.grants[cookie] == grant,
    ));
}

proof fn lemma_count_of_mapped(grants: Map<u32, GrantModel>, cookies: Seq<u32>, grant: GrantModel)
    requires
        cookies.no_duplicates(),
    ensures
        cookies.map_values(|cookie: u32| grants[cookie]).to_multiset().count(grant)
            == cookies.to_set().filter(|cookie: u32| grants[cookie] == grant).len(),
        cookies.to_set().filter(|cookie: u32| grants[cookie] == grant).finite(),
    decreases cookies.len(),
{
    broadcast use vstd::seq_lib::group_to_multiset_ensures;

    let by_cookie = |cookie: u32| grants[cookie];
    let hit = |cookie: u32| grants[cookie] == grant;
    let mapped = cookies.map_values(by_cookie);
    if cookies.len() == 0 {
        assert(mapped =~= Seq::empty());
        assert(cookies.to_set().filter(hit) =~= Set::empty());
    } else {
        let rest = cookies.drop_last();
        let last = cookies.last();
        lemma_count_of_mapped(grants, rest, grant);
        assert(mapped =~= rest.map_values(by_cookie).push(grants[last]));
        assert(!rest.contains(last));
        assert forall|c: u32| cookies.contains(c) implies c == last || rest.contains(c) by {
            let k = choose|k: int| 0 <= k < cookies.len() && cookies[k] == c;
            if k < rest.len() {
                assert(rest[k] == c);
            }
        }
        assert forall|c: u32| rest.contains(c) implies cookies.contains(c) by {
            let k = choose|k: int| 0 <= k < rest.len() && rest[k] == c;
            assert(cookies[k] == c);
        }
        assert(cookies.contains(last));
        if grants[last] == grant {
            assert(cookies.to_set().filter(hit) =~= rest.to_set().filter(hit).insert(last));
        } else {
            assert(cookies.to_set().filter(hit) =~= rest.to_set().filter(hit));
        }
    }
}

/// A transition is what its name says.
pub proof fn law_transitions_are_what_they_say(was_active: bool, is_active: bool)
    ensures
        transition(was_active, is_active) == ActiveTransition::BecameActive <==> !was_active
            && is_active,
        transition(was_active, is_active) == ActiveTransition::BecameInactive <==> was_active
            && !is_active,
        news(ActiveTransition::BecameActive) == Some(true),
        news(ActiveTransition::BecameInactive) == Some(false),
        news(ActiveTransition::Unchanged) is None,
{
}

/// The session is kept awake exactly while the number of requests is not zero.
pub proof fn law_one_request_is_enough(m: StoreModel)
    requires
        m.grants.dom().finite(),
    ensures
        m.active() <==> m.grants.dom().len() > 0,
        m.active() <==> exists|cookie: u32| #[trigger] m.grants.contains_key(cookie),
{
    if m.grants.dom().len() == 0 {
        m.grants.dom().lemma_len0_is_empty();
        assert(m.grants =~= Map::empty());
    }
    if !(exists|cookie: u32| #[trigger] m.grants.contains_key(cookie)) {
        assert(m.grants =~= Map::empty());
    }
}

/// The models of requests are as many, and each is that of its request.
pub proof fn law_models_are_of_the_requests(grants: Seq<Grant>, i: int)
    ensures
        models(grants).len() == grants.len(),
        0 <= i < grants.len() ==> models(grants)[i] == grants[i]@,
{
}

} // verus!
