//! Properties of the library as a whole: what registration, disconnection,
//! query routing, expiry and broadcasting guarantee across calls.

use crate::config::{config_errors, ConfigView};
use crate::ids::ClientId;
use crate::messages::{
    message_source, query_ids_view, ClientMessage, ClientRegistrationErrorReason,
    QueryRequestMessage, QueryRequestedErrorReason, RegisterClientMessage,
    RegisterSourceEventMessage, ServerMessageView,
};
use crate::query_handlers::{
    add_handler, add_handlers, drop_client, expired_requests, find_request, forget_request,
    handlers_of, handlers_wf, has_query, has_request, live_requests, ongoing_from, ongoing_wf,
    query_index, record_request, request_index, same_request, without_client, HandlersView,
    OngoingSeq, OngoingView, lemma_drop_client_wf,
};
use crate::selection::{
    first_position, is_first_position, lemma_first_position_unique, round_robin_pick, sorted_texts,
};
use crate::source_events::{SourceEventView, UtcTimestamp};
use crate::state::{
    after_touch, client_index, client_info, clients_sorted, event_broadcast, insert_client,
    is_connected, is_insert_point, on_message, on_query_request_sent, on_query_response_sent,
    on_registration_sent, page_of_clients, remove_client, source_event_notices, touch_client,
    dropped_in_round, heartbeat_result, heartbeat_round, round_ids, seen_at, stale_clients,
    timeout_notices, ClientInfo, ClientsView, OutcomeView, StateView,
};
use crate::query_handlers::queries_of_client;
use crate::rest::{next_link, prev_link};
use crate::text::decimal;
use crate::session::{accepted_prefix, client_after_all, end_messages, session_client_after, session_run};
use crate::transform::{converted, ClientMessageError, ClientPayload};
use crate::text::{lemma_text_lt_strict_total, lemma_text_order_total, text_lt, text_order};
use crate::time::{elapsed_nanos, span_nanos, TimeSpan};
use vstd::prelude::*;

verus! {

proof fn lemma_client_index_unique(cs: ClientsView, id: Seq<char>, i: int)
    requires
        clients_sorted(cs),
        0 <= i < cs.len(),
        cs[i].0 == id,
    ensures
        is_connected(cs, id),
        client_index(cs, id) == i,
{
    let k = client_index(cs, id);
    assert(0 <= k < cs.len() && cs[k].0 == id);
    if k < i {
        assert(text_lt(cs[k].0, cs[i].0));
        lemma_text_lt_strict_total(id, id, id);
    } else if k > i {
        assert(text_lt(cs[i].0, cs[k].0));
        lemma_text_lt_strict_total(id, id, id);
    }
}

proof fn lemma_insert_point_exists(cs: ClientsView, id: Seq<char>)
    requires
        clients_sorted(cs),
        !is_connected(cs, id),
    ensures
        exists|p: int| is_insert_point(cs, id, p),
    decreases cs.len(),
{
    if cs.len() == 0 {
        assert(is_insert_point(cs, id, 0));
    } else {
        let rest = cs.drop_last();
        assert(clients_sorted(rest)) by {
            assert forall|i: int, j: int| 0 <= i < j < rest.len() implies text_lt(
                rest[i].0,
                rest[j].0,
            ) by {
                assert(rest[i] == cs[i] && rest[j] == cs[j]);
            }
        }
        assert(!is_connected(rest, id)) by {
            if is_connected(rest, id) {
                let j = choose|j: int| 0 <= j < rest.len() && rest[j].0 == id;
                assert(cs[j].0 == id);
            }
        }
        lemma_insert_point_exists(rest, id);
        let p = choose|p: int| is_insert_point(rest, id, p);
        let last = cs[cs.len() - 1].0;
        assert(last != id);
        lemma_text_lt_strict_total(last, id, last);
        if text_lt(last, id) {
            assert forall|j: int| 0 <= j < cs.len() implies text_lt(#[trigger] cs[j].0, id) by {
                if j < cs.len() - 1 {
                    assert(text_lt(cs[j].0, last));
                    lemma_text_lt_strict_total(cs[j].0, last, id);
                }
            }
            assert(is_insert_point(cs, id, cs.len() as int));
        } else {
            assert forall|j: int| 0 <= j < p implies text_lt(#[trigger] cs[j].0, id) by {
                assert(cs[j] == rest[j]);
            }
            assert forall|j: int| p <= j < cs.len() implies text_lt(id, #[trigger] cs[j].0) by {
                if j < cs.len() - 1 {
                    assert(cs[j] == rest[j]);
                }
            }
            assert(is_insert_point(cs, id, p));
        }
    }
}

/// Connecting a client keeps the clients in strict id order, describes it
/// by `info`, and leaves every other client as it was.
pub proof fn lemma_insert_client(cs: ClientsView, id: Seq<char>, info: ClientInfo)
    requires
        clients_sorted(cs),
    ensures
        clients_sorted(insert_client(cs, id, info)),
        client_info(insert_client(cs, id, info), id) == Some(info),
        forall|other: Seq<char>|
            other != id ==> client_info(insert_client(cs, id, info), other) == client_info(
                cs,
                other,
            ),
{
    let n = insert_client(cs, id, info);
    if is_connected(cs, id) {
        let i = client_index(cs, id);
        assert forall|a: int, b: int| 0 <= a < b < n.len() implies text_lt(n[a].0, n[b].0) by {
            assert(n[a].0 == cs[a].0 && n[b].0 == cs[b].0);
        }
        lemma_client_index_unique(n, id, i);
        assert forall|other: Seq<char>| other != id implies client_info(n, other) == client_info(
            cs,
            other,
        ) by {
            if is_connected(cs, other) {
                let j = client_index(cs, other);
                assert(n[j] == cs[j]);
                lemma_client_index_unique(n, other, j);
            } else if is_connected(n, other) {
                let j = choose|j: int| 0 <= j < n.len() && n[j].0 == other;
                assert(n[j] == cs[j]);
            }
        }
    } else {
        lemma_insert_point_exists(cs, id);
        let p = choose|p: int| is_insert_point(cs, id, p);
        assert(n == cs.insert(p, (id, info)));
        assert forall|a: int, b: int| 0 <= a < b < n.len() implies text_lt(n[a].0, n[b].0) by {
            if b < p {
                assert(n[a] == cs[a] && n[b] == cs[b]);
            } else if b == p {
                assert(n[a] == cs[a]);
            } else if a == p {
                assert(n[b] == cs[b - 1]);
            } else if a < p {
                assert(n[a] == cs[a] && n[b] == cs[b - 1]);
                lemma_text_lt_strict_total(cs[a].0, id, cs[b - 1].0);
            } else {
                assert(n[a] == cs[a - 1] && n[b] == cs[b - 1]);
            }
        }
        lemma_client_index_unique(n, id, p);
        assert forall|other: Seq<char>| other != id implies client_info(n, other) == client_info(
            cs,
            other,
        ) by {
            if is_connected(cs, other) {
                let j = client_index(cs, other);
                if j < p {
                    assert(n[j] == cs[j]);
                    lemma_client_index_unique(n, other, j);
                } else {
                    assert(n[j + 1] == cs[j]);
                    lemma_client_index_unique(n, other, j + 1);
                }
            } else if is_connected(n, other) {
                let j = choose|j: int| 0 <= j < n.len() && n[j].0 == other;
                if j < p {
                    assert(n[j] == cs[j]);
                } else if j > p {
                    assert(n[j] == cs[j - 1]);
                }
            }
        }
    }
}

/// Disconnecting a client keeps the clients in strict id order, forgets it,
/// and leaves every other client as it was.
pub proof fn lemma_remove_client(cs: ClientsView, id: Seq<char>)
    requires
        clients_sorted(cs),
    ensures
        clients_sorted(remove_client(cs, id)),
        !is_connected(remove_client(cs, id), id),
        forall|other: Seq<char>|
            other != id ==> client_info(remove_client(cs, id), other) == client_info(cs, other),
{
    let n = remove_client(cs, id);
    if is_connected(cs, id) {
        let i = client_index(cs, id);
        assert(n == cs.remove(i));
        assert forall|a: int, b: int| 0 <= a < b < n.len() implies text_lt(n[a].0, n[b].0) by {
            if b < i {
                assert(n[a] == cs[a] && n[b] == cs[b]);
            } else if a < i {
                assert(n[a] == cs[a] && n[b] == cs[b + 1]);
            } else {
                assert(n[a] == cs[a + 1] && n[b] == cs[b + 1]);
            }
        }
        assert(!is_connected(n, id)) by {
            if is_connected(n, id) {
                let j = choose|j: int| 0 <= j < n.len() && n[j].0 == id;
                if j < i {
                    assert(n[j] == cs[j]);
                    lemma_client_index_unique(cs, id, j);
                } else {
                    assert(n[j] == cs[j + 1]);
                    lemma_client_index_unique(cs, id, j + 1);
                }
            }
        }
        assert forall|other: Seq<char>| other != id implies client_info(n, other) == client_info(
            cs,
            other,
        ) by {
            if is_connected(cs, other) {
                let j = client_index(cs, other);
                if j < i {
                    assert(n[j] == cs[j]);
                    lemma_client_index_unique(n, other, j);
                } else {
                    assert(j != i);
                    assert(n[j - 1] == cs[j]);
                    lemma_client_index_unique(n, other, j - 1);
                }
            } else if is_connected(n, other) {
                let j = choose|j: int| 0 <= j < n.len() && n[j].0 == other;
                if j < i {
                    assert(n[j] == cs[j]);
                } else {
                    assert(n[j] == cs[j + 1]);
                }
            }
        }
    }
}

/// Marking a client as seen changes only its last-seen time.
pub proof fn lemma_touch_client(cs: ClientsView, id: Seq<char>, now: u128)
    requires
        clients_sorted(cs),
    ensures
        clients_sorted(touch_client(cs, id, now)),
        client_info(touch_client(cs, id, now), id) == match client_info(cs, id) {
            Some(info) => Some(ClientInfo { last_seen: now, ..info }),
            None => None,
        },
        forall|other: Seq<char>|
            other != id ==> client_info(touch_client(cs, id, now), other) == client_info(cs, other),
{
    let n = touch_client(cs, id, now);
    if is_connected(cs, id) {
        let i = client_index(cs, id);
        assert forall|a: int, b: int| 0 <= a < b < n.len() implies text_lt(n[a].0, n[b].0) by {
            assert(n[a].0 == cs[a].0 && n[b].0 == cs[b].0);
        }
        lemma_client_index_unique(n, id, i);
        assert forall|other: Seq<char>| other != id implies client_info(n, other) == client_info(
            cs,
            other,
        ) by {
            if is_connected(cs, other) {
                let j = client_index(cs, other);
                assert(n[j] == cs[j]);
                lemma_client_index_unique(n, other, j);
            } else if is_connected(n, other) {
                let j = choose|j: int| 0 <= j < n.len() && n[j].0 == other;
                assert(n[j] == cs[j]);
            }
        }
    }
}

proof fn lemma_query_index_unique(hs: HandlersView, q: Seq<char>, i: int)
    requires
        forall|a: int, b: int| 0 <= a < b < hs.len() ==> hs[a].0 != hs[b].0,
        0 <= i < hs.len(),
        hs[i].0 == q,
    ensures
        has_query(hs, q),
        query_index(hs, q) == i,
        handlers_of(hs, q) == hs[i].1,
{
    let k = query_index(hs, q);
    assert(0 <= k < hs.len() && hs[k].0 == q);
}

/// Adding client `c` to query `q` keeps the table consistent, appends `c`
/// to the clients of `q`, and leaves every other query as it was.
pub proof fn lemma_add_handler(hs: HandlersView, q: Seq<char>, c: Seq<char>, k: Seq<char>)
    requires
        handlers_wf(hs),
    ensures
        handlers_wf(add_handler(hs, q, c)),
        handlers_of(add_handler(hs, q, c), k) == if k == q {
            handlers_of(hs, q).push(c)
        } else {
            handlers_of(hs, k)
        },
{
    let n = add_handler(hs, q, c);
    if has_query(hs, q) {
        let i = query_index(hs, q);
        assert forall|a: int, b: int| 0 <= a < b < n.len() implies n[a].0 != n[b].0 by {
            assert(n[a].0 == hs[a].0 && n[b].0 == hs[b].0);
        }
        assert forall|a: int| 0 <= a < n.len() implies (#[trigger] n[a]).1.len() > 0 by {
            if a != i {
                assert(n[a] == hs[a]);
            }
        }
        if k == q {
            lemma_query_index_unique(n, q, i);
        } else if has_query(hs, k) {
            let j = query_index(hs, k);
            assert(n[j] == hs[j]);
            lemma_query_index_unique(n, k, j);
        } else if has_query(n, k) {
            let j = choose|j: int| 0 <= j < n.len() && n[j].0 == k;
            assert(n[j] == hs[j]);
        }
    } else {
        assert forall|a: int, b: int| 0 <= a < b < n.len() implies n[a].0 != n[b].0 by {
            if b == hs.len() {
                assert(n[a] == hs[a]);
            } else {
                assert(n[a] == hs[a] && n[b] == hs[b]);
            }
        }
        assert forall|a: int| 0 <= a < n.len() implies (#[trigger] n[a]).1.len() > 0 by {
            if a < hs.len() {
                assert(n[a] == hs[a]);
            }
        }
        if k == q {
            lemma_query_index_unique(n, q, hs.len() as int);
            assert(handlers_of(hs, q) =~= Seq::<Seq<char>>::empty());
            assert(seq![c] =~= Seq::<Seq<char>>::empty().push(c));
        } else if has_query(hs, k) {
            let j = query_index(hs, k);
            assert(n[j] == hs[j]);
            lemma_query_index_unique(n, k, j);
        } else if has_query(n, k) {
            let j = choose|j: int| 0 <= j < n.len() && n[j].0 == k;
            assert(n[j] == hs[j]);
        }
    }
}

/// Adding client `c` to the queries `qs` keeps the table consistent; `c`
/// then answers each query of `qs`, the clients that answered a query still
/// do, and a query outside `qs` keeps its clients.
pub proof fn lemma_add_handlers(hs: HandlersView, c: Seq<char>, qs: Seq<Seq<char>>, k: Seq<char>)
    requires
        handlers_wf(hs),
    ensures
        handlers_wf(add_handlers(hs, c, qs)),
        qs.contains(k) ==> handlers_of(add_handlers(hs, c, qs), k).contains(c),
        !qs.contains(k) ==> handlers_of(add_handlers(hs, c, qs), k) == handlers_of(hs, k),
        forall|x: Seq<char>|
            handlers_of(hs, k).contains(x) ==> handlers_of(add_handlers(hs, c, qs), k).contains(x),
    decreases qs.len(),
{
    if qs.len() > 0 {
        let prefix = qs.drop_last();
        lemma_add_handlers(hs, c, prefix, k);
        let mid = add_handlers(hs, c, prefix);
        lemma_add_handler(mid, qs.last(), c, k);
        if qs.contains(k) && !prefix.contains(k) {
            let i = choose|i: int| 0 <= i < qs.len() && qs[i] == k;
            if i < qs.len() - 1 {
                assert(prefix[i] == k);
            }
            assert(k == qs.last());
            assert(handlers_of(mid, k).push(c)[handlers_of(mid, k).len() as int] == c);
        }
        if prefix.contains(k) {
            let i = choose|i: int| 0 <= i < prefix.len() && prefix[i] == k;
            assert(qs[i] == k);
        }
        if k == qs.last() {
            let l = handlers_of(mid, k);
            assert forall|x: Seq<char>| l.contains(x) implies l.push(c).contains(x) by {
                let j = choose|j: int| 0 <= j < l.len() && l[j] == x;
                assert(l.push(c)[j] == x);
            }
            assert(l.push(c)[l.len() as int] == c);
            assert(qs[qs.len() - 1] == k);
        }
    }
}

proof fn lemma_without_client(l: Seq<Seq<char>>, c: Seq<char>, x: Seq<char>)
    ensures
        without_client(l, c).contains(x) <==> l.contains(x) && x != c,
    decreases l.len(),
{
    if l.len() > 0 {
        let rest = l.drop_last();
        lemma_without_client(rest, c, x);
        let r = without_client(rest, c);
        if l.contains(x) && x != c {
            let i = choose|i: int| 0 <= i < l.len() && l[i] == x;
            if i < l.len() - 1 {
                assert(rest[i] == x);
                if l.last() != c {
                    let j = choose|j: int| 0 <= j < r.len() && r[j] == x;
                    assert(r.push(l.last())[j] == x);
                }
            } else {
                assert(r.push(l.last())[r.len() as int] == x);
            }
        }
        if without_client(l, c).contains(x) {
            let w = without_client(l, c);
            let j = choose|j: int| 0 <= j < w.len() && w[j] == x;
            if l.last() != c && j == r.len() {
                assert(l[l.len() - 1] == x);
            } else {
                assert(r[j] == x);
                let m = choose|m: int| 0 <= m < rest.len() && rest[m] == x;
                assert(l[m] == x);
            }
        }
    }
}

/// Removing client `c` leaves each query with its clients other than `c`.
pub proof fn lemma_drop_client_handlers(hs: HandlersView, c: Seq<char>, k: Seq<char>)
    requires
        handlers_wf(hs),
    ensures
        handlers_of(drop_client(hs, c), k) == without_client(handlers_of(hs, k), c),
    decreases hs.len(),
{
    if hs.len() == 0 {
        assert(handlers_of(hs, k) =~= Seq::<Seq<char>>::empty());
    } else {
        let rest = hs.drop_last();
        assert(handlers_wf(rest)) by {
            assert forall|i: int| 0 <= i < rest.len() implies (#[trigger] rest[i]).1.len() > 0 by {
                assert(rest[i] == hs[i]);
            }
        }
        lemma_drop_client_handlers(rest, c, k);
        lemma_drop_client_wf(rest, c);
        lemma_drop_client_wf(hs, c);
        let r = drop_client(rest, c);
        let lk = hs.last().0;
        let l = without_client(hs.last().1, c);
        lemma_query_index_unique(hs, lk, hs.len() - 1);
        assert(!has_query(rest, lk)) by {
            if has_query(rest, lk) {
                let j = choose|j: int| 0 <= j < rest.len() && rest[j].0 == lk;
                assert(hs[j].0 == lk);
            }
        }
        assert(!has_query(r, lk));
        if k != lk {
            if has_query(rest, k) {
                let j = query_index(rest, k);
                assert(hs[j] == rest[j]);
                lemma_query_index_unique(hs, k, j);
            } else if has_query(hs, k) {
                let j = choose|j: int| 0 <= j < hs.len() && hs[j].0 == k;
                assert(rest[j] == hs[j]);
            }
            let n = drop_client(hs, c);
            if l.len() > 0 {
                assert(n == r.push((lk, l)));
                if has_query(r, k) {
                    let j = query_index(r, k);
                    assert(n[j] == r[j]);
                    lemma_query_index_unique(n, k, j);
                } else if has_query(n, k) {
                    let j = choose|j: int| 0 <= j < n.len() && n[j].0 == k;
                    assert(n[j] == r[j]);
                }
            }
        } else {
            let n = drop_client(hs, c);
            if l.len() > 0 {
                assert(n == r.push((lk, l)));
                lemma_query_index_unique(n, lk, r.len() as int);
            } else {
                assert(handlers_of(r, lk) =~= Seq::<Seq<char>>::empty());
                assert(l =~= Seq::<Seq<char>>::empty());
            }
        }
    }
}

/// Registration: a client whose confirmation reached its session is then
/// connected, since `since` and seen at `now`; it answers every query it
/// listed; every client that was connected keeps its description; every
/// query keeps the clients that answered it.
pub proof fn law_registration_connects(
    s: StateView,
    m: RegisterClientMessage,
    now: u128,
    since: UtcTimestamp,
)
    requires
        clients_sorted(s.clients),
        handlers_wf(s.handlers),
        !is_connected(s.clients, m.client_id@),
    ensures
        ({
            let a = on_registration_sent(s, m, true, now, since);
            &&& clients_sorted(a.clients)
            &&& handlers_wf(a.handlers)
            &&& client_info(a.clients, m.client_id@) == Some(
                ClientInfo { since: since, last_seen: now },
            )
            &&& forall|other: Seq<char>|
                other != m.client_id@ ==> client_info(a.clients, other) == client_info(
                    s.clients,
                    other,
                )
            &&& forall|q: Seq<char>|
                query_ids_view(m.query_handlers@).contains(q) ==> handlers_of(
                    a.handlers,
                    q,
                ).contains(m.client_id@)
            &&& forall|q: Seq<char>, x: Seq<char>|
                handlers_of(s.handlers, q).contains(x) ==> handlers_of(a.handlers, q).contains(x)
        }),
{
    let a = on_registration_sent(s, m, true, now, since);
    let qs = query_ids_view(m.query_handlers@);
    lemma_insert_client(s.clients, m.client_id@, ClientInfo { since: since, last_seen: now });
    lemma_add_handlers(s.handlers, m.client_id@, qs, Seq::empty());
    assert forall|q: Seq<char>| qs.contains(q) implies handlers_of(a.handlers, q).contains(
        m.client_id@,
    ) by {
        lemma_add_handlers(s.handlers, m.client_id@, qs, q);
    }
    assert forall|q: Seq<char>, x: Seq<char>| handlers_of(s.handlers, q).contains(x) implies handlers_of(
        a.handlers,
        q,
    ).contains(x) by {
        lemma_add_handlers(s.handlers, m.client_id@, qs, q);
    }
}

/// Registering an id that is already connected is answered with
/// `ClientIdDuplicated` on the registering session, and the state stays as
/// it was whether the answer arrives or not.
pub proof fn law_duplicate_registration_refused(
    s: StateView,
    m: RegisterClientMessage,
    now: u128,
    sent: bool,
    since: UtcTimestamp,
)
    requires
        is_connected(s.clients, m.client_id@),
    ensures
        on_message(s, ClientMessage::RegisterClient(m), now).0 == s,
        on_message(s, ClientMessage::RegisterClient(m), now).1 == OutcomeView::ReplyToSession(
            ServerMessageView::ClientRegistrationError {
                client_id: m.client_id@,
                reason: ClientRegistrationErrorReason::ClientIdDuplicated,
            },
        ),
        on_registration_sent(s, m, sent, now, since) == s,
{
}

/// Disconnection: the client is no longer connected and answers no query;
/// every other client keeps its description and the queries it answers;
/// the tables stay consistent.
pub proof fn law_disconnect_forgets_client(s: StateView, c: ClientId, now: u128)
    requires
        clients_sorted(s.clients),
        handlers_wf(s.handlers),
    ensures
        ({
            let a = on_message(s, ClientMessage::DisconnectClient { client_id: c }, now).0;
            &&& clients_sorted(a.clients)
            &&& handlers_wf(a.handlers)
            &&& !is_connected(a.clients, c@)
            &&& forall|other: Seq<char>|
                other != c@ ==> client_info(a.clients, other) == client_info(
                    touch_client(s.clients, c@, now),
                    other,
                )
            &&& forall|q: Seq<char>| !handlers_of(a.handlers, q).contains(c@)
            &&& forall|q: Seq<char>, x: Seq<char>|
                x != c@ ==> (handlers_of(a.handlers, q).contains(x) <==> handlers_of(
                    s.handlers,
                    q,
                ).contains(x))
        }),
{
    let t = touch_client(s.clients, c@, now);
    lemma_touch_client(s.clients, c@, now);
    lemma_remove_client(t, c@);
    lemma_drop_client_wf(s.handlers, c@);
    let a = on_message(s, ClientMessage::DisconnectClient { client_id: c }, now).0;
    assert forall|q: Seq<char>| !handlers_of(a.handlers, q).contains(c@) by {
        lemma_drop_client_handlers(s.handlers, c@, q);
        lemma_without_client(handlers_of(s.handlers, q), c@, c@);
    }
    assert forall|q: Seq<char>, x: Seq<char>| x != c@ implies (handlers_of(a.handlers, q).contains(
        x,
    ) <==> handlers_of(s.handlers, q).contains(x)) by {
        lemma_drop_client_handlers(s.handlers, c@, q);
        lemma_without_client(handlers_of(s.handlers, q), c@, x);
    }
}

/// Any message from a connected client marks it as seen at `now`, and no
/// other client's description changes on that account.
pub proof fn law_message_marks_sender_seen(s: StateView, msg: ClientMessage, now: u128)
    requires
        clients_sorted(s.clients),
        message_source(msg) matches Some(c) && is_connected(s.clients, c@),
    ensures
        ({
            let c = message_source(msg)->0;
            let t = after_touch(s, msg, now);
            &&& client_info(t.clients, c@) == Some(
                ClientInfo { last_seen: now, ..client_info(s.clients, c@)->0 },
            )
            &&& forall|other: Seq<char>|
                other != c@ ==> client_info(t.clients, other) == client_info(s.clients, other)
        }),
{
    let c = message_source(msg)->0;
    lemma_touch_client(s.clients, c@, now);
}

/// Query requests are idempotent: a request whose id is already waiting,
/// for the same query and requester, sends nothing and changes nothing but
/// the requester's last-seen time.
pub proof fn law_repeated_query_request_ignored(s: StateView, m: QueryRequestMessage, now: u128)
    requires
        find_request(s.ongoing, m.request_id) matches Some(o) && same_request(o, m),
    ensures
        on_message(s, ClientMessage::QueryRequest(m), now) == (
            after_touch(s, ClientMessage::QueryRequest(m), now),
            OutcomeView::Done,
        ),
{
}

/// A query that no client answers is refused: the requester, when
/// connected, gets `QueryHandlerNotFound` for its request and nothing else
/// happens.
pub proof fn law_unanswerable_query_refused(s: StateView, m: QueryRequestMessage, now: u128)
    requires
        find_request(s.ongoing, m.request_id) is None,
        handlers_of(s.handlers, m.query_id@).len() == 0,
        is_connected(after_touch(s, ClientMessage::QueryRequest(m), now).clients, m.requester@),
    ensures
        on_message(s, ClientMessage::QueryRequest(m), now) == (
            after_touch(s, ClientMessage::QueryRequest(m), now),
            OutcomeView::Send(
                seq![
                    (
                        m.requester@,
                        ServerMessageView::QueryRequestedError {
                            request_id: m.request_id,
                            query_id: m.query_id@,
                            reason: crate::messages::QueryRequestedErrorReason::QueryHandlerNotFound,
                        },
                    ),
                ],
            ),
        ),
{
}

/// A request handed to its answering client waits for the answer under its
/// id; an answer that was delivered ends the wait.
pub proof fn law_request_waits_until_answered(
    s: StateView,
    m: QueryRequestMessage,
    responder: Seq<char>,
    now: u128,
)
    requires
        ongoing_wf(s.ongoing),
    ensures
        ({
            let a = on_query_request_sent(s, m, responder, true, now).0;
            &&& ongoing_wf(a.ongoing)
            &&& find_request(a.ongoing, m.request_id) == Some(ongoing_from(responder, m, now))
            &&& find_request(on_query_response_sent(a, m.request_id, true).ongoing, m.request_id)
                is None
        }),
{
    let os = s.ongoing;
    let o = ongoing_from(responder, m, now);
    let n = record_request(os, o);
    if has_request(os, m.request_id) {
        let i = request_index(os, m.request_id);
        assert forall|a: int, b: int| 0 <= a < b < n.len() implies n[a].request_id
            != n[b].request_id by {
            if a != i && b != i {
                assert(n[a] == os[a] && n[b] == os[b]);
            } else if a == i {
                assert(n[b] == os[b]);
            } else {
                assert(n[a] == os[a]);
            }
        }
        lemma_request_index_unique(n, m.request_id, i);
    } else {
        assert forall|a: int, b: int| 0 <= a < b < n.len() implies n[a].request_id
            != n[b].request_id by {
            if b == os.len() {
                assert(n[a] == os[a]);
            } else {
                assert(n[a] == os[a] && n[b] == os[b]);
            }
        }
        lemma_request_index_unique(n, m.request_id, os.len() as int);
    }
    let i = request_index(n, m.request_id);
    let f = n.remove(i);
    assert(!has_request(f, m.request_id)) by {
        if has_request(f, m.request_id) {
            let j = choose|j: int| 0 <= j < f.len() && f[j].request_id == m.request_id;
            if j < i {
                assert(f[j] == n[j]);
            } else {
                assert(f[j] == n[j + 1]);
            }
        }
    }
}

proof fn lemma_request_index_unique(os: OngoingSeq, rid: crate::messages::RequestId, i: int)
    requires
        ongoing_wf(os),
        0 <= i < os.len(),
        os[i].request_id == rid,
    ensures
        has_request(os, rid),
        request_index(os, rid) == i,
{
    let k = request_index(os, rid);
    assert(0 <= k < os.len() && os[k].request_id == rid);
}

/// Expiry leaves no request that is older than the timeout, keeps every
/// request that is not, and hands back exactly the ones it ended.
pub proof fn law_expiry_ends_late_requests(os: OngoingSeq, now: u128, timeout: nat)
    ensures
        forall|i: int|
            0 <= i < live_requests(os, now, timeout).len() ==> elapsed_nanos(
                now,
                (#[trigger] live_requests(os, now, timeout)[i]).created_at,
            ) <= timeout,
        forall|i: int|
            0 <= i < expired_requests(os, now, timeout).len() ==> elapsed_nanos(
                now,
                (#[trigger] expired_requests(os, now, timeout)[i]).created_at,
            ) > timeout,
        live_requests(os, now, timeout).len() + expired_requests(os, now, timeout).len() == os.len(),
    decreases os.len(),
{
    if os.len() > 0 {
        law_expiry_ends_late_requests(os.drop_last(), now, timeout);
        let l = live_requests(os.drop_last(), now, timeout);
        let e = expired_requests(os.drop_last(), now, timeout);
        assert forall|i: int|
            0 <= i < live_requests(os, now, timeout).len() implies elapsed_nanos(
            now,
            (#[trigger] live_requests(os, now, timeout)[i]).created_at,
        ) <= timeout by {
            if i < l.len() {
                assert(live_requests(os, now, timeout)[i] == l[i]);
            }
        }
        assert forall|i: int|
            0 <= i < expired_requests(os, now, timeout).len() implies elapsed_nanos(
            now,
            (#[trigger] expired_requests(os, now, timeout)[i]).created_at,
        ) > timeout by {
            if i < e.len() {
                assert(expired_requests(os, now, timeout)[i] == e[i]);
            }
        }
    }
}

/// A saved event from a connected source reaches every connected client,
/// after the source learned the event's id and clock.
pub proof fn law_event_reaches_every_client(
    s: StateView,
    m: RegisterSourceEventMessage,
    e: SourceEventView,
)
    requires
        is_connected(s.clients, m.source@),
    ensures
        source_event_notices(s, m, e).len() == s.clients.len() + 1,
        source_event_notices(s, m, e)[0] == (
            m.source@,
            ServerMessageView::SourceEventRegistered {
                event_id: e.id,
                monotonic_clock: e.monotonic_clock,
            },
        ),
        forall|i: int|
            0 <= i < s.clients.len() ==> source_event_notices(s, m, e)[i + 1] == (
                #[trigger] s.clients[i].0,
                ServerMessageView::SourceEvent(e),
            ),
{
    let n = source_event_notices(s, m, e);
    assert forall|i: int| 0 <= i < s.clients.len() implies n[i + 1] == (
        #[trigger] s.clients[i].0,
        ServerMessageView::SourceEvent(e),
    ) by {
        assert(n[i + 1] == event_broadcast(s.clients, e)[i]);
    }
}

/// Every page of clients lists them in strict id order, as a run of
/// consecutive clients of the whole list.
pub proof fn law_pages_follow_id_order(cs: ClientsView, start: int, count: int)
    requires
        clients_sorted(cs),
        0 <= start,
        0 <= count,
    ensures
        clients_sorted(page_of_clients(cs, start, count)),
        page_of_clients(cs, start, count).len() <= count,
        forall|i: int|
            0 <= i < page_of_clients(cs, start, count).len() ==> #[trigger] page_of_clients(
                cs,
                start,
                count,
            )[i] == cs[start + i],
{
    let p = page_of_clients(cs, start, count);
    assert forall|a: int, b: int| 0 <= a < b < p.len() implies text_lt(p[a].0, p[b].0) by {
        assert(p[a] == cs[start + a] && p[b] == cs[start + b]);
    }
}

/// The settings that apply when none are given pass validation: heartbeats
/// every second, expiry after 2.8 s, queries time out after 3 s.
pub proof fn law_default_settings_are_valid(c: ConfigView)
    requires
        span_nanos(c.server_interval_heartbeat_message) == 1_000_000_000,
        span_nanos(c.server_expiration_client) == 2_800_000_000,
        span_nanos(c.server_query_response_timeout) == 3_000_000_000,
    ensures
        config_errors(c).len() == 0,
{
}

/// The client selected after `k` selections among unchanged `candidates`,
/// starting with nobody selected.
pub open spec fn round_robin_run(candidates: Seq<Seq<char>>, k: nat) -> Option<Seq<char>>
    decreases k,
{
    if k == 0 {
        None
    } else {
        round_robin_pick(round_robin_run(candidates, (k - 1) as nat), candidates)
    }
}

/// Round robin rotates through all candidates: among unchanged distinct
/// candidates, the selections go through them in client id order, the
/// first in that order first, and start over after the last.
pub proof fn law_round_robin_cycles(candidates: Seq<Seq<char>>, k: nat)
    requires
        candidates.no_duplicates(),
        candidates.len() > 0,
    ensures
        sorted_texts(candidates).len() == candidates.len(),
        round_robin_run(candidates, k + 1) == Some(
            sorted_texts(candidates)[(k as int) % (candidates.len() as int)],
        ),
    decreases k,
{
    broadcast use vstd::seq_lib::group_to_multiset_ensures;

    let sorted = sorted_texts(candidates);
    let n = candidates.len() as int;
    lemma_text_order_total();
    candidates.lemma_sort_by_ensures(text_order());
    assert(sorted.len() == sorted.to_multiset().len());
    assert(candidates.len() == candidates.to_multiset().len());
    candidates.lemma_multiset_has_no_duplicates();
    sorted.lemma_multiset_has_no_duplicates_conv();
    if k == 0 {
        assert(round_robin_run(candidates, 0) == None::<Seq<char>>);
        assert(0int % n == 0);
    } else {
        law_round_robin_cycles(candidates, (k - 1) as nat);
        let prev = ((k - 1) as int) % n;
        assert(0 <= prev < n);
        let x = sorted[prev];
        assert((((k - 1) as nat) + 1) as nat == k);
        assert(round_robin_run(candidates, k) == Some(x));
        assert(round_robin_run(candidates, k + 1) == round_robin_pick(Some(x), candidates));
        assert(is_first_position(sorted, x, prev));
        lemma_first_position_unique(sorted, x, prev);
        assert(sorted.contains(x));
        vstd::arithmetic::div_mod::lemma_add_mod_noop((k - 1) as int, 1, n);
        if n == 1 {
            assert((prev + 1) % n == 0) by (nonlinear_arith)
                requires
                    n == 1,
            ;
            assert((k as int) % n == 0) by (nonlinear_arith)
                requires
                    n == 1,
            ;
        } else {
            assert(1int % n == 1) by (nonlinear_arith)
                requires
                    n > 1,
            ;
            assert(((k - 1) as int) + 1 == k as int);
            assert((prev + 1) % n == (k as int) % n);
        }
        assert(first_position(sorted, x) == prev);
    }
}


proof fn lemma_client_info_drop_last(cs: ClientsView, x: Seq<char>)
    requires
        clients_sorted(cs),
        cs.len() > 0,
    ensures
        clients_sorted(cs.drop_last()),
        x == cs.last().0 ==> client_info(cs, x) == Some(cs.last().1) && !is_connected(
            cs.drop_last(),
            x,
        ),
        x != cs.last().0 ==> client_info(cs, x) == client_info(cs.drop_last(), x),
{
    let d = cs.drop_last();
    let n = cs.len() - 1;
    assert forall|a: int, b: int| 0 <= a < b < d.len() implies text_lt(d[a].0, d[b].0) by {
        assert(d[a] == cs[a] && d[b] == cs[b]);
    }
    if x == cs.last().0 {
        lemma_client_index_unique(cs, x, n);
        if is_connected(d, x) {
            let j = choose|j: int| 0 <= j < d.len() && d[j].0 == x;
            assert(d[j] == cs[j]);
            assert(text_lt(cs[j].0, cs[n].0));
            lemma_text_lt_strict_total(x, x, x);
        }
    } else {
        if is_connected(cs, x) {
            let k = client_index(cs, x);
            assert(k != n);
            assert(d[k] == cs[k]);
            lemma_client_index_unique(d, x, k);
        } else if is_connected(d, x) {
            let j = choose|j: int| 0 <= j < d.len() && d[j].0 == x;
            assert(cs[j] == d[j]);
        }
    }
}

/// The clients not seen within the expiration come in strict id order, and
/// they are exactly the connected clients last seen longer ago than it.
pub proof fn lemma_stale_clients(cs: ClientsView, now: u128, expiration: nat)
    requires
        clients_sorted(cs),
    ensures
        forall|i: int, j: int|
            0 <= i < j < stale_clients(cs, now, expiration).len() ==> text_lt(
                #[trigger] stale_clients(cs, now, expiration)[i],
                #[trigger] stale_clients(cs, now, expiration)[j],
            ),
        forall|x: Seq<char>|
            #[trigger] stale_clients(cs, now, expiration).contains(x) <==> (client_info(
                cs,
                x,
            ) matches Some(info) && elapsed_nanos(now, info.last_seen) > expiration),
    decreases cs.len(),
{
    let st = stale_clients(cs, now, expiration);
    if cs.len() == 0 {
        assert forall|x: Seq<char>| !(#[trigger] st.contains(x)) && !is_connected(cs, x) by {}
    } else {
        let d = cs.drop_last();
        let l = cs.last().0;
        let n = cs.len() - 1;
        lemma_client_info_drop_last(cs, l);
        lemma_stale_clients(d, now, expiration);
        let r = stale_clients(d, now, expiration);
        assert forall|x: Seq<char>| r.contains(x) implies text_lt(x, l) by {
            assert(is_connected(d, x));
            let k = client_index(d, x);
            assert(d[k] == cs[k]);
            assert(text_lt(cs[k].0, cs[n].0));
        }
        if elapsed_nanos(now, cs.last().1.last_seen) > expiration {
            assert(st == r.push(l));
            assert forall|i: int, j: int| 0 <= i < j < st.len() implies text_lt(
                #[trigger] st[i],
                #[trigger] st[j],
            ) by {
                if j < r.len() {
                    assert(st[i] == r[i] && st[j] == r[j]);
                } else {
                    assert(st[i] == r[i]);
                    assert(r.contains(r[i]));
                }
            }
            assert forall|x: Seq<char>| #[trigger] st.contains(x) <==> (client_info(
                cs,
                x,
            ) matches Some(info) && elapsed_nanos(now, info.last_seen) > expiration) by {
                lemma_client_info_drop_last(cs, x);
                if st.contains(x) {
                    let i = choose|i: int| 0 <= i < st.len() && st[i] == x;
                    if i < r.len() {
                        assert(r[i] == x);
                        assert(r.contains(x));
                    }
                }
                if x != l && r.contains(x) {
                    let i = choose|i: int| 0 <= i < r.len() && r[i] == x;
                    assert(st[i] == x);
                }
                if x == l {
                    assert(st[r.len() as int] == x);
                }
            }
        } else {
            assert(st == r);
            assert forall|x: Seq<char>| #[trigger] st.contains(x) <==> (client_info(
                cs,
                x,
            ) matches Some(info) && elapsed_nanos(now, info.last_seen) > expiration) by {
                lemma_client_info_drop_last(cs, x);
            }
        }
    }
}

proof fn lemma_heartbeat_round(s: StateView, results: Seq<(ClientId, bool)>, now: u128)
    requires
        clients_sorted(s.clients),
        handlers_wf(s.handlers),
        forall|i: int, j: int|
            0 <= i < j < results.len() ==> (#[trigger] results[i]).0@ != (#[trigger] results[j]).0@,
    ensures
        ({
            let a = heartbeat_round(s, results, now);
            &&& clients_sorted(a.clients)
            &&& handlers_wf(a.handlers)
            &&& a.ongoing == s.ongoing
            &&& a.last_selected == s.last_selected
            &&& forall|i: int|
                0 <= i < results.len() && (#[trigger] results[i]).1 ==> client_info(
                    a.clients,
                    results[i].0@,
                ) == seen_at(s.clients, results[i].0@, now)
            &&& forall|i: int|
                0 <= i < results.len() && !(#[trigger] results[i]).1 ==> !is_connected(
                    a.clients,
                    results[i].0@,
                )
            &&& forall|x: Seq<char>|
                !(#[trigger] round_ids(results).contains(x)) ==> client_info(a.clients, x)
                    == client_info(s.clients, x)
            &&& forall|x: Seq<char>, q: Seq<char>|
                dropped_in_round(results, x) ==> !(#[trigger] handlers_of(a.handlers, q).contains(x))
            &&& forall|x: Seq<char>, q: Seq<char>|
                !dropped_in_round(results, x) ==> ((#[trigger] handlers_of(a.handlers, q).contains(x)) <==> handlers_of(s.handlers, q).contains(x))
        }),
    decreases results.len(),
{
    if results.len() == 0 {
        assert forall|x: Seq<char>| !dropped_in_round(results, x) by {}
    } else {
        let p = results.drop_last();
        let n = results.len() - 1;
        let id = results.last().0;
        let sent = results.last().1;
        assert forall|i: int, j: int| 0 <= i < j < p.len() implies (#[trigger] p[i]).0@ != (
        #[trigger] p[j]).0@ by {
            assert(p[i] == results[i] && p[j] == results[j]);
        }
        lemma_heartbeat_round(s, p, now);
        let b = heartbeat_round(s, p, now);
        let a = heartbeat_round(s, results, now);
        assert(a == on_message(b, heartbeat_result(id, sent), now).0);
        assert(!round_ids(p).contains(id@)) by {
            if round_ids(p).contains(id@) {
                let i = choose|i: int| 0 <= i < round_ids(p).len() && round_ids(p)[i] == id@;
                assert(p[i] == results[i]);
                assert(results[i].0@ != results[n].0@);
            }
        }
        assert forall|x: Seq<char>| !round_ids(results).contains(x) implies !round_ids(p).contains(
            x,
        ) && x != id@ by {
            if round_ids(p).contains(x) {
                let i = choose|i: int| 0 <= i < round_ids(p).len() && round_ids(p)[i] == x;
                assert(p[i] == results[i]);
                assert(round_ids(results)[i] == x);
            }
            if x == id@ {
                assert(round_ids(results)[n] == x);
            }
        }
        assert forall|x: Seq<char>| dropped_in_round(p, x) implies dropped_in_round(results, x) by {
            let i = choose|i: int| 0 <= i < p.len() && p[i].0@ == x && !p[i].1;
            assert(p[i] == results[i]);
        }
        assert forall|x: Seq<char>|
            dropped_in_round(results, x) implies dropped_in_round(p, x) || (x == id@ && !sent) by {
            let i = choose|i: int| 0 <= i < results.len() && results[i].0@ == x && !results[i].1;
            if i < n {
                assert(p[i] == results[i]);
            }
        }
        lemma_touch_client(b.clients, id@, now);
        if sent {
            assert(a == StateView { clients: touch_client(b.clients, id@, now), ..b });
            assert forall|i: int| 0 <= i < results.len() && (#[trigger] results[i]).1 implies client_info(
                a.clients,
                results[i].0@,
            ) == seen_at(s.clients, results[i].0@, now) by {
                if i < n {
                    assert(p[i] == results[i]);
                    assert(results[i].0@ != results[n].0@);
                }
            }
            assert forall|i: int| 0 <= i < results.len() && !(#[trigger] results[i]).1 implies !is_connected(
                a.clients,
                results[i].0@,
            ) by {
                assert(i < n);
                assert(p[i] == results[i]);
                assert(results[i].0@ != results[n].0@);
                if is_connected(a.clients, results[i].0@) {
                    assert(client_info(a.clients, results[i].0@) is Some);
                }
            }
            assert forall|x: Seq<char>, q: Seq<char>|
                dropped_in_round(results, x) implies !(#[trigger] handlers_of(a.handlers, q).contains(x)) by {}
        } else {
            law_disconnect_forgets_client(b, id, now);
            assert forall|i: int| 0 <= i < results.len() && (#[trigger] results[i]).1 implies client_info(
                a.clients,
                results[i].0@,
            ) == seen_at(s.clients, results[i].0@, now) by {
                assert(i < n);
                assert(p[i] == results[i]);
                assert(results[i].0@ != results[n].0@);
            }
            assert forall|i: int| 0 <= i < results.len() && !(#[trigger] results[i]).1 implies !is_connected(
                a.clients,
                results[i].0@,
            ) by {
                if i < n {
                    assert(p[i] == results[i]);
                    assert(results[i].0@ != results[n].0@);
                    if is_connected(a.clients, results[i].0@) {
                        assert(client_info(a.clients, results[i].0@) is Some);
                    }
                }
            }
            assert forall|x: Seq<char>, q: Seq<char>|
                dropped_in_round(results, x) implies !(#[trigger] handlers_of(a.handlers, q).contains(x)) by {
                if x != id@ {
                    assert(dropped_in_round(p, x));
                    assert(!handlers_of(b.handlers, q).contains(x));
                }
            }
            assert forall|x: Seq<char>, q: Seq<char>|
                !dropped_in_round(results, x) implies ((#[trigger] handlers_of(a.handlers, q).contains(x)) <==> handlers_of(s.handlers, q).contains(x)) by {
                assert(x != id@) by {
                    if x == id@ {
                        assert(results[n].0@ == x && !results[n].1);
                    }
                }
                assert(!dropped_in_round(p, x));
                assert(handlers_of(b.handlers, q).contains(x) <==> handlers_of(s.handlers, q).contains(x));
            }
        }
    }
}

/// Heartbeat round: a check at `now` sends a heartbeat exactly to the
/// connected clients last seen longer than `expiration` ago. A client whose
/// heartbeat reached its session is then seen at `now`; one whose heartbeat
/// did not is disconnected and answers no query. Every other client keeps
/// its description, a client that stays connected keeps the queries it
/// answers, and the waiting requests do not change.
pub proof fn law_heartbeat_round(
    s: StateView,
    results: Seq<(ClientId, bool)>,
    now: u128,
    expiration: nat,
)
    requires
        clients_sorted(s.clients),
        handlers_wf(s.handlers),
        round_ids(results) == stale_clients(s.clients, now, expiration),
    ensures
        ({
            let a = heartbeat_round(s, results, now);
            &&& clients_sorted(a.clients)
            &&& handlers_wf(a.handlers)
            &&& a.ongoing == s.ongoing
            &&& forall|x: Seq<char>|
                #[trigger] round_ids(results).contains(x) <==> (client_info(s.clients, x) matches Some(
                    info,
                ) && elapsed_nanos(now, info.last_seen) > expiration)
            &&& forall|i: int|
                0 <= i < results.len() && (#[trigger] results[i]).1 ==> client_info(
                    a.clients,
                    results[i].0@,
                ) == Some(ClientInfo { last_seen: now, ..client_info(s.clients, results[i].0@)->0 })
            &&& forall|i: int|
                0 <= i < results.len() && !(#[trigger] results[i]).1 ==> !is_connected(
                    a.clients,
                    results[i].0@,
                )
            &&& forall|x: Seq<char>|
                !(#[trigger] round_ids(results).contains(x)) ==> client_info(a.clients, x)
                    == client_info(s.clients, x)
            &&& forall|x: Seq<char>, q: Seq<char>|
                dropped_in_round(results, x) ==> !(#[trigger] handlers_of(a.handlers, q).contains(x))
            &&& forall|x: Seq<char>, q: Seq<char>|
                !dropped_in_round(results, x) ==> ((#[trigger] handlers_of(a.handlers, q).contains(x)) <==> handlers_of(s.handlers, q).contains(x))
        }),
{
    lemma_stale_clients(s.clients, now, expiration);
    let st = stale_clients(s.clients, now, expiration);
    assert forall|i: int, j: int| 0 <= i < j < results.len() implies (#[trigger] results[i]).0@ != (
    #[trigger] results[j]).0@ by {
        assert(round_ids(results)[i] == st[i] && round_ids(results)[j] == st[j]);
        assert(text_lt(st[i], st[j]));
        lemma_text_lt_strict_total(st[i], st[i], st[i]);
    }
    lemma_heartbeat_round(s, results, now);
    assert forall|i: int| 0 <= i < results.len() implies is_connected(
        s.clients,
        (#[trigger] results[i]).0@,
    ) by {
        assert(round_ids(results)[i] == results[i].0@);
        assert(st.contains(results[i].0@));
    }
}


/// The message is a registration.
pub open spec fn is_registration(m: ClientMessage) -> bool {
    m is RegisterClient
}

/// The message is a disconnection.
pub open spec fn is_disconnection(m: ClientMessage) -> bool {
    m is DisconnectClient
}

/// Converting a request of a session never gives a disconnection: only the
/// end of a session does.
pub proof fn law_conversion_never_disconnects(
    payload: ClientPayload,
    client_id: Option<ClientId>,
    r: Result<ClientMessage, ClientMessageError>,
)
    requires
        converted(payload, client_id, r),
    ensures
        r matches Ok(m) ==> !is_disconnection(m),
{
}

proof fn lemma_session_run(client: Option<ClientId>, convs: Seq<Result<ClientMessage, ClientMessageError>>)
    ensures
        session_run(client, convs) == accepted_prefix(convs) + end_messages(
            client_after_all(client, accepted_prefix(convs)),
        ),
        forall|i: int|
            0 <= i < accepted_prefix(convs).len() ==> exists|k: int|
                0 <= k < convs.len() && #[trigger] convs[k] == Ok::<ClientMessage, ClientMessageError>(
                    #[trigger] accepted_prefix(convs)[i],
                ),
    decreases convs.len(),
{
    let h = accepted_prefix(convs);
    if convs.len() == 0 {
        assert(h + end_messages(client) =~= end_messages(client));
    } else {
        match convs[0] {
            Err(_) => {
                assert(h + end_messages(client) =~= end_messages(client));
            },
            Ok(m) => {
                let rest = convs.drop_first();
                let c2 = session_client_after(client, m);
                lemma_session_run(c2, rest);
                let h2 = accepted_prefix(rest);
                assert(h == seq![m] + h2);
                assert(h[0] == m);
                assert(h.drop_first() =~= h2);
                assert(client_after_all(client, h) == client_after_all(c2, h2));
                assert(seq![m] + (h2 + end_messages(client_after_all(c2, h2))) =~= (seq![m] + h2)
                    + end_messages(client_after_all(c2, h2)));
                assert forall|i: int| 0 <= i < h.len() implies exists|k: int|
                    0 <= k < convs.len() && #[trigger] convs[k] == Ok::<
                        ClientMessage,
                        ClientMessageError,
                    >(#[trigger] h[i]) by {
                    if i == 0 {
                        assert(convs[0] == Ok::<ClientMessage, ClientMessageError>(h[0]));
                    } else {
                        assert(h[i] == h2[i - 1]);
                        let k = choose|k: int|
                            0 <= k < rest.len() && #[trigger] rest[k] == Ok::<
                                ClientMessage,
                                ClientMessageError,
                            >(h2[i - 1]);
                        assert(convs[k + 1] == rest[k]);
                    }
                }
            },
        }
    }
}

proof fn lemma_client_after_all(client: Option<ClientId>, ms: Seq<ClientMessage>)
    ensures
        client_after_all(client, ms) is Some <==> (client is Some || exists|i: int|
            0 <= i < ms.len() && is_registration(#[trigger] ms[i])),
    decreases ms.len(),
{
    if ms.len() > 0 {
        let rest = ms.drop_first();
        lemma_client_after_all(session_client_after(client, ms[0]), rest);
        if exists|i: int| 0 <= i < rest.len() && is_registration(#[trigger] rest[i]) {
            let i = choose|i: int| 0 <= i < rest.len() && is_registration(#[trigger] rest[i]);
            assert(ms[i + 1] == rest[i]);
        }
        if exists|i: int| 0 <= i < ms.len() && is_registration(#[trigger] ms[i]) {
            let i = choose|i: int| 0 <= i < ms.len() && is_registration(#[trigger] ms[i]);
            if i > 0 {
                assert(rest[i - 1] == ms[i]);
            }
        }
    }
}

/// Session end: a session hands the state its converted requests in order
/// up to the first refusal, then the disconnection of the client it
/// registered last, once and as the last message; a session that never
/// registered hands on no disconnection. When no converted request is a
/// disconnection (as conversions guarantee), no other message handed on is
/// one.
pub proof fn law_session_disconnects_once(convs: Seq<Result<ClientMessage, ClientMessageError>>)
    requires
        forall|k: int|
            0 <= k < convs.len() ==> (#[trigger] convs[k] matches Ok(m) ==> !is_disconnection(m)),
    ensures
        ({
            let log = session_run(None, convs);
            let h = accepted_prefix(convs);
            &&& log == h + end_messages(client_after_all(None, h))
            &&& forall|i: int| 0 <= i < h.len() ==> !is_disconnection(#[trigger] log[i])
            &&& client_after_all(None, h) is Some <==> exists|i: int|
                0 <= i < h.len() && is_registration(#[trigger] h[i])
        }),
{
    lemma_session_run(None, convs);
    lemma_client_after_all(None, accepted_prefix(convs));
    let log = session_run(None, convs);
    let h = accepted_prefix(convs);
    assert forall|i: int| 0 <= i < h.len() implies !is_disconnection(#[trigger] log[i]) by {
        assert(log[i] == h[i]);
        let k = choose|k: int|
            0 <= k < convs.len() && #[trigger] convs[k] == Ok::<ClientMessage, ClientMessageError>(
                #[trigger] h[i],
            );
    }
}


proof fn lemma_round_robin_pick(last: Option<Seq<char>>, cands: Seq<Seq<char>>)
    requires
        cands.len() > 0,
    ensures
        round_robin_pick(last, cands) is Some,
        cands.contains(round_robin_pick(last, cands)->0),
        last is Some && cands.contains(last->0) && cands.no_duplicates() && cands.len() >= 2
            ==> round_robin_pick(last, cands) != last,
{
    broadcast use vstd::seq_lib::group_to_multiset_ensures;

    let sorted = sorted_texts(cands);
    let n = cands.len() as int;
    lemma_text_order_total();
    cands.lemma_sort_by_ensures(text_order());
    assert(sorted.len() == sorted.to_multiset().len());
    assert(cands.len() == cands.to_multiset().len());
    let pick = round_robin_pick(last, cands)->0;
    let k: int = match last {
        Some(l) => if sorted.contains(l) {
            (first_position(sorted, l) + 1) % n
        } else {
            0
        },
        None => 0,
    };
    if last is Some && sorted.contains(last->0) {
        let l = last->0;
        let i = choose|i: int| 0 <= i < sorted.len() && sorted[i] == l;
        let q = choose|q: int| 0 <= q <= i && sorted[q] == l && forall|j: int|
            0 <= j < q ==> sorted[j] != l;
        assert(exists|q: int| 0 <= q <= i && sorted[q] == l && forall|j: int|
            0 <= j < q ==> sorted[j] != l) by {
            lemma_first_occurrence(sorted, l, i);
        }
        assert(is_first_position(sorted, l, q));
        let p = first_position(sorted, l);
        assert(is_first_position(sorted, l, p));
        assert(0 <= (p + 1) % n < n) by (nonlinear_arith)
            requires
                n > 0,
        ;
    }
    assert(0 <= k < n);
    assert(pick == sorted[k]);
    assert(sorted.to_multiset().count(pick) > 0);
    assert(cands.contains(pick));
    if last is Some && cands.contains(last->0) && cands.no_duplicates() && cands.len() >= 2 {
        let l = last->0;
        cands.lemma_multiset_has_no_duplicates();
        sorted.lemma_multiset_has_no_duplicates_conv();
        assert(cands.to_multiset().count(l) > 0);
        assert(sorted.contains(l));
        let p = first_position(sorted, l);
        if p + 1 < n {
            assert((p + 1) % n == p + 1) by (nonlinear_arith)
                requires
                    0 <= p + 1 < n,
            ;
        } else {
            assert((p + 1) % n == 0) by (nonlinear_arith)
                requires
                    p + 1 == n,
                    n > 0,
            ;
        }
        assert(k != p);
        assert(sorted[k] != sorted[p]);
    }
}

proof fn lemma_first_occurrence(s: Seq<Seq<char>>, x: Seq<char>, i: int)
    requires
        0 <= i < s.len(),
        s[i] == x,
    ensures
        exists|q: int| 0 <= q <= i && s[q] == x && forall|j: int| 0 <= j < q ==> s[j] != x,
    decreases i,
{
    if exists|j: int| 0 <= j < i && s[j] == x {
        let j = choose|j: int| 0 <= j < i && s[j] == x;
        lemma_first_occurrence(s, x, j);
    } else {
        assert(forall|j: int| 0 <= j < i ==> s[j] != x);
    }
}

/// Query routing follows round robin: a request that is forwarded goes to a
/// client that answers its query, namely the one round robin picks after
/// the previous selection, and that client becomes the last selected. When
/// the query has several distinct answering clients and the previous
/// selection is one of them, the request goes to another one.
pub proof fn law_forwarded_query_follows_round_robin(s: StateView, m: QueryRequestMessage, now: u128)
    ensures
        ({
            let r = on_message(s, ClientMessage::QueryRequest(m), now);
            let hs = handlers_of(s.handlers, m.query_id@);
            r.1 matches OutcomeView::ForwardQuery { responder, .. } ==> {
                &&& Some(responder) == round_robin_pick(s.last_selected, hs)
                &&& hs.contains(responder)
                &&& r.0.last_selected == Some(responder)
                &&& (s.last_selected is Some && hs.contains(s.last_selected->0)
                    && hs.no_duplicates() && hs.len() >= 2 ==> responder != s.last_selected->0)
            }
        }),
        ({
            let r = on_message(s, ClientMessage::QueryRequest(m), now);
            let t = after_touch(s, ClientMessage::QueryRequest(m), now);
            let hs = handlers_of(s.handlers, m.query_id@);
            find_request(s.ongoing, m.request_id) is None && hs.len() > 0 && is_connected(
                t.clients,
                round_robin_pick(s.last_selected, hs)->0,
            ) ==> r.1 == OutcomeView::ForwardQuery {
                responder: round_robin_pick(s.last_selected, hs)->0,
                message: ServerMessageView::QueryRequested {
                    request_id: m.request_id,
                    query_id: m.query_id@,
                    parameters: m.parameters@,
                },
            }
        }),
{
    let hs = handlers_of(s.handlers, m.query_id@);
    if hs.len() > 0 {
        lemma_round_robin_pick(s.last_selected, hs);
    }
}

/// The notice that request `e` timed out, to its requester.
pub open spec fn timed_out_notice(e: OngoingView) -> (Seq<char>, ServerMessageView) {
    (
        e.requester,
        ServerMessageView::QueryRequestedError {
            request_id: e.request_id,
            query_id: e.query_id,
            reason: QueryRequestedErrorReason::QueryTimedOut,
        },
    )
}

/// Timeout notices go to requesters: of the requests that expired, each one
/// whose requester is connected has its `QueryTimedOut` notice sent to the
/// requester, whether or not its answering client is still connected; no
/// other notice is sent, and none to a requester that is gone.
pub proof fn law_timeout_notices_reach_requesters(cs: ClientsView, es: OngoingSeq)
    ensures
        forall|k: int|
            0 <= k < es.len() && is_connected(cs, (#[trigger] es[k]).requester)
                ==> timeout_notices(cs, es).contains(timed_out_notice(es[k])),
        forall|n: (Seq<char>, ServerMessageView)|
            #[trigger] timeout_notices(cs, es).contains(n) ==> exists|k: int|
                0 <= k < es.len() && is_connected(cs, (#[trigger] es[k]).requester) && n
                    == timed_out_notice(es[k]),
        timeout_notices(cs, es).len() <= es.len(),
    decreases es.len(),
{
    if es.len() > 0 {
        let d = es.drop_last();
        let l = es.len() - 1;
        law_timeout_notices_reach_requesters(cs, d);
        let r = timeout_notices(cs, d);
        let t = timeout_notices(cs, es);
        assert forall|k: int|
            0 <= k < es.len() && is_connected(cs, (#[trigger] es[k]).requester) implies t.contains(
            timed_out_notice(es[k]),
        ) by {
            if k < l {
                assert(d[k] == es[k]);
                let j = choose|j: int| 0 <= j < r.len() && r[j] == timed_out_notice(d[k]);
                if is_connected(cs, es[l].requester) {
                    assert(t == r.push(timed_out_notice(es[l])));
                    assert(t[j] == r[j]);
                } else {
                    assert(t == r);
                }
            } else {
                assert(t == r.push(timed_out_notice(es[l])));
                assert(t[r.len() as int] == timed_out_notice(es[k]));
            }
        }
        assert forall|n: (Seq<char>, ServerMessageView)| #[trigger] t.contains(n) implies exists|
            k: int,
        | 0 <= k < es.len() && is_connected(cs, (#[trigger] es[k]).requester) && n
            == timed_out_notice(es[k]) by {
            let j = choose|j: int| 0 <= j < t.len() && t[j] == n;
            if j < r.len() {
                if is_connected(cs, es[l].requester) {
                    assert(t == r.push(timed_out_notice(es[l])));
                }
                assert(t[j] == r[j]);
                assert(r.contains(n));
                let k = choose|k: int|
                    0 <= k < d.len() && is_connected(cs, (#[trigger] d[k]).requester) && n
                        == timed_out_notice(d[k]);
                assert(d[k] == es[k]);
            } else {
                assert(is_connected(cs, es[l].requester));
                assert(t == r.push(timed_out_notice(es[l])));
                assert(n == timed_out_notice(es[l]));
            }
        }
    }
}

/// A page from position `start` of `count` clients holds exactly
/// `min(count, total - start)` clients, those from `start` on in order;
/// none when `start` is past the end.
pub proof fn law_page_size(cs: ClientsView, start: int, count: int)
    requires
        0 <= start,
        0 <= count,
    ensures
        start < cs.len() ==> page_of_clients(cs, start, count).len() == (if count < cs.len()
            - start {
            count
        } else {
            cs.len() - start
        }),
        start >= cs.len() ==> page_of_clients(cs, start, count).len() == 0,
        forall|i: int|
            0 <= i < page_of_clients(cs, start, count).len() ==> #[trigger] page_of_clients(
                cs,
                start,
                count,
            )[i] == cs[start + i],
{
}

/// The queries listed for a client are exactly those it answers: query `q`
/// is listed for client `c` if and only if `c` is among the clients of `q`,
/// wherever `c` stands among them.
pub proof fn law_client_queries_are_its_handled_queries(hs: HandlersView, c: Seq<char>, q: Seq<char>)
    requires
        handlers_wf(hs),
    ensures
        queries_of_client(hs, c).contains(q) <==> handlers_of(hs, q).contains(c),
    decreases hs.len(),
{
    if hs.len() == 0 {
        assert(!has_query(hs, q));
    } else {
        let d = hs.drop_last();
        let l = hs.len() - 1;
        assert(handlers_wf(d)) by {
            assert forall|i: int| 0 <= i < d.len() implies (#[trigger] d[i]).1.len() > 0 by {
                assert(d[i] == hs[i]);
            }
        }
        law_client_queries_are_its_handled_queries(d, c, q);
        let r = queries_of_client(d, c);
        let t = queries_of_client(hs, c);
        if q == hs[l].0 {
            lemma_query_index_unique(hs, q, l);
            assert(!has_query(d, q)) by {
                if has_query(d, q) {
                    let j = choose|j: int| 0 <= j < d.len() && d[j].0 == q;
                    assert(hs[j].0 == q);
                }
            }
            if hs.last().1.contains(c) {
                assert(t == r.push(q));
                assert(t[r.len() as int] == q);
            } else {
                assert(t == r);
            }
        } else {
            if has_query(d, q) {
                let j = query_index(d, q);
                assert(hs[j] == d[j]);
                lemma_query_index_unique(hs, q, j);
            } else if has_query(hs, q) {
                let j = choose|j: int| 0 <= j < hs.len() && hs[j].0 == q;
                assert(j != l);
                assert(d[j] == hs[j]);
            }
            if hs.last().1.contains(c) {
                assert(t == r.push(hs[l].0));
                if t.contains(q) {
                    let j = choose|j: int| 0 <= j < t.len() && t[j] == q;
                    assert(j < r.len());
                    assert(r[j] == q);
                }
                if r.contains(q) {
                    let j = choose|j: int| 0 <= j < r.len() && r[j] == q;
                    assert(t[j] == q);
                }
            } else {
                assert(t == r);
            }
        }
    }
}

/// Page links: the link to the next page is present exactly when clients
/// remain after this page (`offset + limit < total`), and then asks for
/// the page that starts right after this one, with the same size; the link
/// to the previous page is present exactly when this page does not start
/// at the first client, and asks for the page `limit` earlier (from the
/// first client when fewer come before), with the same size.
pub proof fn law_page_links(base: Seq<char>, offset: usize, limit: usize, total: usize)
    ensures
        next_link(base, offset, limit, total) is Some <==> offset + limit < total,
        offset + limit < total ==> next_link(base, offset, limit, total) == Some(
            base + "?offset="@ + decimal((offset + limit) as nat) + "&limit="@ + decimal(
                limit as nat,
            ),
        ),
        prev_link(base, offset, limit) is Some <==> offset > 0,
        offset > 0 ==> prev_link(base, offset, limit) == Some(
            base + "?offset="@ + decimal(
                if offset >= limit {
                    (offset - limit) as nat
                } else {
                    0
                },
            ) + "&limit="@ + decimal(limit as nat),
        ),
{
}

} // verus!
