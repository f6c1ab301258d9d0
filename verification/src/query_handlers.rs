//! Which clients answer which queries, and the query requests waiting for
//! an answer.

use crate::ids::{ClientId, QueryId};
use crate::messages::{copy_parameters, query_ids_view, QueryParameter, QueryRequestMessage, RequestId};
use crate::selection::{ids_view, round_robin_pick, RoundRobinStrategy};
use crate::time::{elapsed, elapsed_nanos, span_nanos, TimeSpan};
use vstd::prelude::*;

verus! {

/// The queries and, for each, the clients that answer it, in the order they
/// were registered.
pub type HandlersView = Seq<(Seq<char>, Seq<Seq<char>>)>;

/// `hs` lists query `q`.
pub open spec fn has_query(hs: HandlersView, q: Seq<char>) -> bool {
    exists|i: int| 0 <= i < hs.len() && hs[i].0 == q
}

/// The position of query `q` in `hs`.
pub open spec fn query_index(hs: HandlersView, q: Seq<char>) -> int {
    choose|i: int| 0 <= i < hs.len() && hs[i].0 == q
}

/// The clients that answer query `q`; none when `q` is not listed.
pub open spec fn handlers_of(hs: HandlersView, q: Seq<char>) -> Seq<Seq<char>> {
    if has_query(hs, q) {
        hs[query_index(hs, q)].1
    } else {
        Seq::empty()
    }
}

/// No query is listed twice and every listed query has a client.
pub open spec fn handlers_wf(hs: HandlersView) -> bool {
    &&& forall|i: int, j: int| 0 <= i < j < hs.len() ==> hs[i].0 != hs[j].0
    &&& forall|i: int| 0 <= i < hs.len() ==> (#[trigger] hs[i]).1.len() > 0
}

/// `hs` after client `c` is added to the clients of query `q`.
pub open spec fn add_handler(hs: HandlersView, q: Seq<char>, c: Seq<char>) -> HandlersView {
    if has_query(hs, q) {
        hs.update(query_index(hs, q), (q, hs[query_index(hs, q)].1.push(c)))
    } else {
        hs.push((q, seq![c]))
    }
}

/// `hs` after client `c` is added to the clients of each query of `qs`, in
/// order (a query listed twice gets the client twice).
pub open spec fn add_handlers(hs: HandlersView, c: Seq<char>, qs: Seq<Seq<char>>) -> HandlersView
    decreases qs.len(),
{
    if qs.len() == 0 {
        hs
    } else {
        add_handler(add_handlers(hs, c, qs.drop_last()), qs.last(), c)
    }
}

/// The list `l` without client `c`.
pub open spec fn without_client(l: Seq<Seq<char>>, c: Seq<char>) -> Seq<Seq<char>>
    decreases l.len(),
{
    if l.len() == 0 {
        l
    } else {
        let r = without_client(l.drop_last(), c);
        if l.last() == c {
            r
        } else {
            r.push(l.last())
        }
    }
}

/// `hs` after client `c` is removed from every query; queries left with no
/// client are removed.
pub open spec fn drop_client(hs: HandlersView, c: Seq<char>) -> HandlersView
    decreases hs.len(),
{
    if hs.len() == 0 {
        hs
    } else {
        let r = drop_client(hs.drop_last(), c);
        let l = without_client(hs.last().1, c);
        if l.len() == 0 {
            r
        } else {
            r.push((hs.last().0, l))
        }
    }
}

/// The queries that client `c` answers, in the order of `hs`.
pub open spec fn queries_of_client(hs: HandlersView, c: Seq<char>) -> Seq<Seq<char>>
    decreases hs.len(),
{
    if hs.len() == 0 {
        Seq::empty()
    } else {
        let r = queries_of_client(hs.drop_last(), c);
        if hs.last().1.contains(c) {
            r.push(hs.last().0)
        } else {
            r
        }
    }
}

/// A query request that was handed to a client and waits for its answer.
#[derive(Debug)]
pub struct OngoingQueryRequest {
    /// Unique identifier of the request.
    pub request_id: RequestId,
    /// The query asked for.
    pub query_id: QueryId,
    /// Parameters of the query.
    pub parameters: Vec<QueryParameter>,
    /// The client that asked.
    pub requester: ClientId,
    /// The client that was asked to answer.
    pub responder: ClientId,
    /// When the request was handed over, on the monotonic clock in nanoseconds.
    pub created_at: u128,
}

/// What a waiting request holds, as plain values.
pub struct OngoingView {
    pub request_id: RequestId,
    pub query_id: Seq<char>,
    pub parameters: Seq<QueryParameter>,
    pub requester: Seq<char>,
    pub responder: Seq<char>,
    pub created_at: u128,
}

impl View for OngoingQueryRequest {
    type V = OngoingView;

    open spec fn view(&self) -> OngoingView {
        OngoingView {
            request_id: self.request_id,
            query_id: self.query_id@,
            parameters: self.parameters@,
            requester: self.requester@,
            responder: self.responder@,
            created_at: self.created_at,
        }
    }
}

impl Clone for OngoingQueryRequest {
    fn clone(&self) -> (r: Self)
        ensures
            r@ == self@,
    {
        OngoingQueryRequest {
            request_id: self.request_id,
            query_id: self.query_id.clone(),
            parameters: copy_parameters(&self.parameters),
            requester: self.requester.clone(),
            responder: self.responder.clone(),
            created_at: self.created_at,
        }
    }
}

/// The waiting request that handing `msg` to `responder` at `created_at`
/// creates.
pub open spec fn ongoing_from(responder: Seq<char>, msg: QueryRequestMessage, created_at: u128) -> OngoingView {
    OngoingView {
        request_id: msg.request_id,
        query_id: msg.query_id@,
        parameters: msg.parameters@,
        requester: msg.requester@,
        responder: responder,
        created_at: created_at,
    }
}

/// `msg` is the request `o` stands for: same request id, query and requester.
pub open spec fn same_request(o: OngoingView, msg: QueryRequestMessage) -> bool {
    &&& o.request_id == msg.request_id
    &&& o.query_id == msg.query_id@
    &&& o.requester == msg.requester@
}

impl OngoingQueryRequest {
    /// The waiting request created by handing `msg` to `responder`.
    pub fn from(responder: ClientId, msg: &QueryRequestMessage, created_at: u128) -> (r: Self)
        ensures
            r@ == ongoing_from(responder@, *msg, created_at),
    {
        OngoingQueryRequest {
            request_id: msg.request_id,
            query_id: msg.query_id.clone(),
            parameters: copy_parameters(&msg.parameters),
            requester: msg.requester.clone(),
            responder,
            created_at,
        }
    }

    /// Whether `msg` is the request this one stands for.
    pub fn is_same(&self, msg: &QueryRequestMessage) -> (r: bool)
        ensures
            r == same_request(self@, *msg),
    {
        self.request_id == msg.request_id && self.query_id.same_as(&msg.query_id)
            && self.requester.same_as(&msg.requester)
    }
}

/// The waiting requests, in the order they were handed over.
pub type OngoingSeq = Seq<OngoingView>;

/// Some waiting request has id `rid`.
pub open spec fn has_request(os: OngoingSeq, rid: RequestId) -> bool {
    exists|i: int| 0 <= i < os.len() && os[i].request_id == rid
}

/// The position of the waiting request with id `rid`.
pub open spec fn request_index(os: OngoingSeq, rid: RequestId) -> int {
    choose|i: int| 0 <= i < os.len() && os[i].request_id == rid
}

/// The waiting request with id `rid`, if any.
pub open spec fn find_request(os: OngoingSeq, rid: RequestId) -> Option<OngoingView> {
    if has_request(os, rid) {
        Some(os[request_index(os, rid)])
    } else {
        None
    }
}

/// No two waiting requests share an id.
pub open spec fn ongoing_wf(os: OngoingSeq) -> bool {
    forall|i: int, j: int| 0 <= i < j < os.len() ==> os[i].request_id != os[j].request_id
}

/// `os` after recording `o`: it takes the place of a request with the same
/// id, or comes last.
pub open spec fn record_request(os: OngoingSeq, o: OngoingView) -> OngoingSeq {
    if has_request(os, o.request_id) {
        os.update(request_index(os, o.request_id), o)
    } else {
        os.push(o)
    }
}

/// `os` without the request with id `rid`.
pub open spec fn forget_request(os: OngoingSeq, rid: RequestId) -> OngoingSeq {
    if has_request(os, rid) {
        os.remove(request_index(os, rid))
    } else {
        os
    }
}

/// The waiting requests older than `timeout` nanoseconds at `now`.
pub open spec fn expired_requests(os: OngoingSeq, now: u128, timeout: nat) -> OngoingSeq
    decreases os.len(),
{
    if os.len() == 0 {
        os
    } else {
        let r = expired_requests(os.drop_last(), now, timeout);
        if elapsed_nanos(now, os.last().created_at) > timeout {
            r.push(os.last())
        } else {
            r
        }
    }
}

/// The waiting requests not older than `timeout` nanoseconds at `now`.
pub open spec fn live_requests(os: OngoingSeq, now: u128, timeout: nat) -> OngoingSeq
    decreases os.len(),
{
    if os.len() == 0 {
        os
    } else {
        let r = live_requests(os.drop_last(), now, timeout);
        if elapsed_nanos(now, os.last().created_at) > timeout {
            r
        } else {
            r.push(os.last())
        }
    }
}

/// Keeping only the live requests keeps their ids distinct and keeps only
/// ids that were there.
pub proof fn lemma_live_requests_wf(os: OngoingSeq, now: u128, timeout: nat)
    requires
        ongoing_wf(os),
    ensures
        ongoing_wf(live_requests(os, now, timeout)),
        forall|rid: RequestId| has_request(live_requests(os, now, timeout), rid) ==> has_request(os, rid),
    decreases os.len(),
{
    if os.len() > 0 {
        let rest = os.drop_last();
        assert(ongoing_wf(rest)) by {
            assert forall|i: int, j: int| 0 <= i < j < rest.len() implies rest[i].request_id
                != rest[j].request_id by {
                assert(rest[i] == os[i] && rest[j] == os[j]);
            }
        }
        lemma_live_requests_wf(rest, now, timeout);
        let r = live_requests(rest, now, timeout);
        if elapsed_nanos(now, os.last().created_at) <= timeout {
            let n = r.push(os.last());
            assert(!has_request(r, os.last().request_id)) by {
                if has_request(r, os.last().request_id) {
                    assert(has_request(rest, os.last().request_id));
                    let j = choose|j: int| 0 <= j < rest.len() && rest[j].request_id == os.last().request_id;
                    assert(rest[j] == os[j]);
                }
            }
            assert forall|i: int, j: int| 0 <= i < j < n.len() implies n[i].request_id
                != n[j].request_id by {
                if j == r.len() {
                    assert(n[i] == r[i]);
                } else {
                    assert(n[i] == r[i] && n[j] == r[j]);
                }
            }
            assert forall|rid: RequestId| has_request(n, rid) implies has_request(os, rid) by {
                let j = choose|j: int| 0 <= j < n.len() && n[j].request_id == rid;
                if j == r.len() {
                    assert(os[os.len() - 1].request_id == rid);
                } else {
                    assert(n[j] == r[j]);
                    assert(has_request(r, rid));
                    assert(has_request(rest, rid));
                    let m = choose|m: int| 0 <= m < rest.len() && rest[m].request_id == rid;
                    assert(rest[m] == os[m]);
                }
            }
        } else {
            assert forall|rid: RequestId| has_request(r, rid) implies has_request(os, rid) by {
                assert(has_request(rest, rid));
                let m = choose|m: int| 0 <= m < rest.len() && rest[m].request_id == rid;
                assert(rest[m] == os[m]);
            }
        }
    }
}

/// The views of a sequence of waiting requests.
pub open spec fn ongoing_views(s: Seq<OngoingQueryRequest>) -> OngoingSeq {
    s.map_values(|o: OngoingQueryRequest| o@)
}

/// Why no client could be chosen for a query.
#[derive(Debug, Clone, Copy, PartialEq, Eq, Structural)]
pub enum QueryRequestHandlerError {
    /// No client answers the query.
    QueryHandlerNotFound,
    /// The selection chose nobody.
    ResponderNotFound,
}

/// The clients that answer each query, the requests waiting for an answer,
/// and the round robin that picks who answers next.
pub struct QueryHandler {
    query_handlers: Vec<(QueryId, Vec<ClientId>)>,
    ongoing_query_requests: Vec<OngoingQueryRequest>,
    client_selection_strategy: RoundRobinStrategy,
}

/// The view of one entry of the query table.
pub open spec fn entry_view(e: (QueryId, Vec<ClientId>)) -> (Seq<char>, Seq<Seq<char>>) {
    (e.0@, ids_view(e.1@))
}

impl QueryHandler {
    /// The queries and the clients that answer them.
    pub closed spec fn handlers(&self) -> HandlersView {
        self.query_handlers@.map_values(|e: (QueryId, Vec<ClientId>)| entry_view(e))
    }

    /// The requests waiting for an answer.
    pub closed spec fn ongoing(&self) -> OngoingSeq {
        ongoing_views(self.ongoing_query_requests@)
    }

    /// The client the round robin selected last.
    pub closed spec fn last_selected(&self) -> Option<Seq<char>> {
        self.client_selection_strategy.last_view()
    }

    /// The tables are consistent.
    pub open spec fn wf(&self) -> bool {
        handlers_wf(self.handlers()) && ongoing_wf(self.ongoing())
    }

    /// Empty tables and a fresh round robin.
    pub fn new() -> (r: Self)
        ensures
            r.wf(),
            r.handlers() == HandlersView::empty(),
            r.ongoing() == OngoingSeq::empty(),
            r.last_selected() == None::<Seq<char>>,
    {
        let r = QueryHandler {
            query_handlers: Vec::new(),
            ongoing_query_requests: Vec::new(),
            client_selection_strategy: RoundRobinStrategy::new(),
        };
        assert(r.handlers() =~= HandlersView::empty());
        assert(r.ongoing() =~= OngoingSeq::empty());
        r
    }

    /// The client the round robin selected last.
    pub fn last_selected_client(&self) -> (r: Option<ClientId>)
        ensures
            crate::selection::opt_id_view(r) == self.last_selected(),
    {
        self.client_selection_strategy.last_selected()
    }

    fn find_query(&self, q: &QueryId) -> (r: Option<usize>)
        requires
            handlers_wf(self.handlers()),
        ensures
            match r {
                Some(i) => has_query(self.handlers(), q@) && i == query_index(self.handlers(), q@)
                    && i < self.query_handlers@.len(),
                None => !has_query(self.handlers(), q@),
            },
    {
        let ghost hs = self.handlers();
        let mut i: usize = 0;
        while i < self.query_handlers.len()
            invariant
                hs == self.handlers(),
                handlers_wf(hs),
                hs.len() == self.query_handlers@.len(),
                i <= hs.len(),
                forall|j: int| 0 <= j < i ==> hs[j].0 != q@,
            decreases self.query_handlers@.len() - i,
        {
            if self.query_handlers[i].0.same_as(q) {
                proof {
                    assert(hs[i as int] == entry_view(self.query_handlers@[i as int]));
                    assert(hs[i as int].0 == q@);
                    let k = query_index(hs, q@);
                    assert(0 <= k < hs.len() && hs[k].0 == q@);
                    if k != i {
                        assert(k > i);
                    }
                }
                return Some(i);
            }
            i += 1;
        }
        None
    }
    fn add_one(&mut self, c: &ClientId, q: &QueryId)
        requires
            handlers_wf(old(self).handlers()),
        ensures
            final(self).handlers() == add_handler(old(self).handlers(), q@, c@),
            handlers_wf(final(self).handlers()),
            final(self).ongoing() == old(self).ongoing(),
            final(self).last_selected() == old(self).last_selected(),
    {
        let ghost hs = self.handlers();
        match self.find_query(q) {
            Some(i) => {
                let (k, mut list) = self.query_handlers.remove(i);
                list.push(c.clone());
                self.query_handlers.insert(i, (k, list));
                proof {
                    let e = entry_view(self.query_handlers@[i as int]);
                    assert(ids_view(list@) =~= hs[i as int].1.push(c@));
                    assert(self.handlers() =~= hs.update(i as int, (q@, hs[i as int].1.push(c@))));
                }
            },
            None => {
                let mut list: Vec<ClientId> = Vec::new();
                list.push(c.clone());
                self.query_handlers.push((q.clone(), list));
                proof {
                    assert(ids_view(list@) =~= seq![c@]);
                    assert(self.handlers() =~= hs.push((q@, seq![c@])));
                }
            },
        }
    }

    /// Adds `client_id` to the clients of each query of `queries`.
    pub fn add_client_query_handler(&mut self, client_id: &ClientId, queries: &[QueryId])
        requires
            handlers_wf(old(self).handlers()),
        ensures
            final(self).handlers() == add_handlers(
                old(self).handlers(),
                client_id@,
                query_ids_view(queries@),
            ),
            handlers_wf(final(self).handlers()),
            final(self).ongoing() == old(self).ongoing(),
            final(self).last_selected() == old(self).last_selected(),
    {
        let ghost hs0 = self.handlers();
        let ghost qv = query_ids_view(queries@);
        let mut i: usize = 0;
        assert(qv.take(0) =~= Seq::<Seq<char>>::empty());
        while i < queries.len()
            invariant
                i <= queries@.len(),
                qv == query_ids_view(queries@),
                self.handlers() == add_handlers(hs0, client_id@, qv.take(i as int)),
                handlers_wf(self.handlers()),
                self.ongoing() == old(self).ongoing(),
                self.last_selected() == old(self).last_selected(),
            decreases queries@.len() - i,
        {
            self.add_one(client_id, &queries[i]);
            proof {
                assert(qv.take(i + 1).drop_last() =~= qv.take(i as int));
                assert(qv.take(i + 1).last() == queries@[i as int]@);
            }
            i += 1;
        }
        assert(qv.take(i as int) =~= qv);
    }
    /// Removes `client_id` from the clients of every query, and the queries
    /// that are left with no client.
    pub fn disconnect_client(&mut self, client_id: &ClientId)
        requires
            handlers_wf(old(self).handlers()),
        ensures
            final(self).handlers() == drop_client(old(self).handlers(), client_id@),
            handlers_wf(final(self).handlers()),
            final(self).ongoing() == old(self).ongoing(),
            final(self).last_selected() == old(self).last_selected(),
    {
        let ghost hs = self.handlers();
        let mut out: Vec<(QueryId, Vec<ClientId>)> = Vec::new();
        let mut i: usize = 0;
        assert(hs.take(0) =~= HandlersView::empty());
        while i < self.query_handlers.len()
            invariant
                hs == self.handlers(),
                hs.len() == self.query_handlers@.len(),
                i <= hs.len(),
                out@.map_values(|e: (QueryId, Vec<ClientId>)| entry_view(e)) == drop_client(
                    hs.take(i as int),
                    client_id@,
                ),
            decreases hs.len() - i,
        {
            let list = without_client_exec(&self.query_handlers[i].1, client_id);
            let ghost before = out@.map_values(|e: (QueryId, Vec<ClientId>)| entry_view(e));
            proof {
                assert(hs[i as int] == entry_view(self.query_handlers@[i as int]));
                assert(hs.take(i + 1).drop_last() =~= hs.take(i as int));
                assert(hs.take(i + 1).last() == hs[i as int]);
            }
            if list.len() > 0 {
                let k = self.query_handlers[i].0.clone();
                out.push((k, list));
                proof {
                    assert(out@.map_values(|e: (QueryId, Vec<ClientId>)| entry_view(e)) =~= before.push(
                        (hs[i as int].0, without_client(hs[i as int].1, client_id@)),
                    ));
                }
            }
            i += 1;
        }
        proof {
            assert(hs.take(i as int) =~= hs);
            lemma_drop_client_wf(hs, client_id@);
        }
        self.query_handlers = out;
    }

    /// The queries that `client_id` answers, in table order.
    pub fn get_query_handlers_for_client_id(&self, client_id: &ClientId) -> (r: Vec<QueryId>)
        ensures
            query_ids_view(r@) == queries_of_client(self.handlers(), client_id@),
    {
        let ghost hs = self.handlers();
        let mut out: Vec<QueryId> = Vec::new();
        let mut i: usize = 0;
        assert(hs.take(0) =~= HandlersView::empty());
        while i < self.query_handlers.len()
            invariant
                hs == self.handlers(),
                hs.len() == self.query_handlers@.len(),
                i <= hs.len(),
                query_ids_view(out@) == queries_of_client(hs.take(i as int), client_id@),
            decreases hs.len() - i,
        {
            proof {
                assert(hs[i as int] == entry_view(self.query_handlers@[i as int]));
                assert(hs.take(i + 1).drop_last() =~= hs.take(i as int));
                assert(hs.take(i + 1).last() == hs[i as int]);
            }
            if list_contains(&self.query_handlers[i].1, client_id) {
                out.push(self.query_handlers[i].0.clone());
                assert(query_ids_view(out@) =~= queries_of_client(hs.take(i as int), client_id@).push(
                    hs[i as int].0,
                ));
            }
            i += 1;
        }
        assert(hs.take(i as int) =~= hs);
        out
    }

    /// Chooses the client that answers query `query_id`: round robin among
    /// its clients; an error when it has none.
    pub fn get_client_id_for_query_id(&mut self, query_id: &QueryId) -> (r: Result<
        ClientId,
        QueryRequestHandlerError,
    >)
        requires
            handlers_wf(old(self).handlers()),
        ensures
            final(self).handlers() == old(self).handlers(),
            final(self).ongoing() == old(self).ongoing(),
            handlers_of(old(self).handlers(), query_id@).len() == 0 ==> {
                &&& r == Err::<ClientId, QueryRequestHandlerError>(
                    QueryRequestHandlerError::QueryHandlerNotFound,
                )
                &&& final(self).last_selected() == old(self).last_selected()
            },
            handlers_of(old(self).handlers(), query_id@).len() > 0 ==> {
                let pick = round_robin_pick(
                    old(self).last_selected(),
                    handlers_of(old(self).handlers(), query_id@),
                );
                &&& final(self).last_selected() == pick
                &&& match r {
                    Ok(c) => pick == Some(c@),
                    Err(e) => pick is None && e == QueryRequestHandlerError::ResponderNotFound,
                }
            },
    {
        match self.find_query(query_id) {
            None => Err(QueryRequestHandlerError::QueryHandlerNotFound),
            Some(i) => {
                proof {
                    assert(self.handlers()[i as int] == entry_view(self.query_handlers@[i as int]));
                }
                if self.query_handlers[i].1.len() == 0 {
                    return Err(QueryRequestHandlerError::QueryHandlerNotFound);
                }
                let picked = self.client_selection_strategy.next(
                    self.query_handlers[i].1.as_slice(),
                );
                match picked {
                    Some(c) => Ok(c),
                    None => Err(QueryRequestHandlerError::ResponderNotFound),
                }
            },
        }
    }

    fn find_request(&self, request_id: RequestId) -> (r: Option<usize>)
        requires
            ongoing_wf(self.ongoing()),
        ensures
            match r {
                Some(i) => has_request(self.ongoing(), request_id) && i == request_index(
                    self.ongoing(),
                    request_id,
                ) && i < self.ongoing_query_requests@.len(),
                None => !has_request(self.ongoing(), request_id),
            },
    {
        let ghost os = self.ongoing();
        let mut i: usize = 0;
        while i < self.ongoing_query_requests.len()
            invariant
                os == self.ongoing(),
                ongoing_wf(os),
                os.len() == self.ongoing_query_requests@.len(),
                i <= os.len(),
                forall|j: int| 0 <= j < i ==> os[j].request_id != request_id,
            decreases os.len() - i,
        {
            if self.ongoing_query_requests[i].request_id == request_id {
                proof {
                    assert(os[i as int] == self.ongoing_query_requests@[i as int]@);
                    let k = request_index(os, request_id);
                    assert(0 <= k < os.len() && os[k].request_id == request_id);
                    if k != i {
                        assert(k > i);
                    }
                }
                return Some(i);
            }
            proof {
                assert(os[i as int] == self.ongoing_query_requests@[i as int]@);
            }
            i += 1;
        }
        None
    }

    /// The waiting request with id `request_id`, if any.
    pub fn get_ongoing_request(&self, request_id: RequestId) -> (r: Option<OngoingQueryRequest>)
        requires
            ongoing_wf(self.ongoing()),
        ensures
            match r {
                Some(o) => find_request(self.ongoing(), request_id) == Some(o@),
                None => find_request(self.ongoing(), request_id) is None,
            },
    {
        match self.find_request(request_id) {
            Some(i) => Some(self.ongoing_query_requests[i].clone()),
            None => None,
        }
    }

    /// Records a request that was handed to its answering client.
    pub fn handle_query_requested_event(&mut self, ongoing_query_request: OngoingQueryRequest)
        requires
            ongoing_wf(old(self).ongoing()),
        ensures
            final(self).ongoing() == record_request(old(self).ongoing(), ongoing_query_request@),
            ongoing_wf(final(self).ongoing()),
            final(self).handlers() == old(self).handlers(),
            final(self).last_selected() == old(self).last_selected(),
    {
        let ghost os = self.ongoing();
        let ghost o = ongoing_query_request@;
        match self.find_request(ongoing_query_request.request_id) {
            Some(i) => {
                self.ongoing_query_requests.set(i, ongoing_query_request);
                assert(self.ongoing() =~= os.update(i as int, o));
                proof {
                    assert forall|a: int, b: int|
                        0 <= a < b < self.ongoing().len() implies self.ongoing()[a].request_id
                        != self.ongoing()[b].request_id by {
                        if a != i && b != i {
                            assert(os[a] == self.ongoing()[a] && os[b] == self.ongoing()[b]);
                        } else if a == i {
                            assert(os[b] == self.ongoing()[b]);
                        } else {
                            assert(os[a] == self.ongoing()[a]);
                        }
                    }
                }
            },
            None => {
                self.ongoing_query_requests.push(ongoing_query_request);
                assert(self.ongoing() =~= os.push(o));
                proof {
                    assert forall|a: int, b: int|
                        0 <= a < b < self.ongoing().len() implies self.ongoing()[a].request_id
                        != self.ongoing()[b].request_id by {
                        if b == os.len() {
                            assert(self.ongoing()[a] == os[a]);
                        } else {
                            assert(os[a] == self.ongoing()[a] && os[b] == self.ongoing()[b]);
                        }
                    }
                }
            },
        }
    }

    /// Removes the waiting request with id `request_id` and returns it.
    pub fn remove_ongoing_request(&mut self, request_id: RequestId) -> (r: Option<
        OngoingQueryRequest,
    >)
        requires
            ongoing_wf(old(self).ongoing()),
        ensures
            final(self).ongoing() == forget_request(old(self).ongoing(), request_id),
            ongoing_wf(final(self).ongoing()),
            match r {
                Some(o) => find_request(old(self).ongoing(), request_id) == Some(o@),
                None => find_request(old(self).ongoing(), request_id) is None,
            },
            final(self).handlers() == old(self).handlers(),
            final(self).last_selected() == old(self).last_selected(),
    {
        let ghost os = self.ongoing();
        match self.find_request(request_id) {
            Some(i) => {
                let o = self.ongoing_query_requests.remove(i);
                proof {
                    assert(self.ongoing() =~= os.remove(i as int));
                    assert forall|a: int, b: int|
                        0 <= a < b < self.ongoing().len() implies self.ongoing()[a].request_id
                        != self.ongoing()[b].request_id by {
                        if a < i && b < i {
                            assert(os[a] == self.ongoing()[a] && os[b] == self.ongoing()[b]);
                        } else if a < i {
                            assert(os[a] == self.ongoing()[a] && os[b + 1] == self.ongoing()[b]);
                        } else {
                            assert(os[a + 1] == self.ongoing()[a] && os[b + 1] == self.ongoing()[b]);
                        }
                    }
                }
                Some(o)
            },
            None => None,
        }
    }

    /// The waiting requests that are older than `query_response_timeout` at
    /// `now`, in the order they were handed over.
    pub fn get_expired_requests(&self, now: u128, query_response_timeout: TimeSpan) -> (r: Vec<
        OngoingQueryRequest,
    >)
        ensures
            ongoing_views(r@) == expired_requests(
                self.ongoing(),
                now,
                span_nanos(query_response_timeout),
            ),
    {
        let ghost os = self.ongoing();
        let timeout = query_response_timeout.as_nanos();
        let mut out: Vec<OngoingQueryRequest> = Vec::new();
        let mut i: usize = 0;
        assert(os.take(0) =~= OngoingSeq::empty());
        while i < self.ongoing_query_requests.len()
            invariant
                os == self.ongoing(),
                os.len() == self.ongoing_query_requests@.len(),
                i <= os.len(),
                timeout == span_nanos(query_response_timeout),
                ongoing_views(out@) == expired_requests(
                    os.take(i as int),
                    now,
                    span_nanos(query_response_timeout),
                ),
            decreases os.len() - i,
        {
            proof {
                assert(os[i as int] == self.ongoing_query_requests@[i as int]@);
                assert(os.take(i + 1).drop_last() =~= os.take(i as int));
                assert(os.take(i + 1).last() == os[i as int]);
            }
            if elapsed(now, self.ongoing_query_requests[i].created_at) > timeout {
                let o = self.ongoing_query_requests[i].clone();
                let ghost before = ongoing_views(out@);
                out.push(o);
                assert(ongoing_views(out@) =~= before.push(os[i as int]));
            }
            i += 1;
        }
        assert(os.take(i as int) =~= os);
        out
    }
    /// Removes the requests older than `query_response_timeout` at `now` and
    /// returns them, in the order they were handed over.
    pub fn remove_expired_requests(&mut self, now: u128, query_response_timeout: TimeSpan) -> (r:
        Vec<OngoingQueryRequest>)
        requires
            ongoing_wf(old(self).ongoing()),
        ensures
            ongoing_views(r@) == expired_requests(
                old(self).ongoing(),
                now,
                span_nanos(query_response_timeout),
            ),
            final(self).ongoing() == live_requests(
                old(self).ongoing(),
                now,
                span_nanos(query_response_timeout),
            ),
            ongoing_wf(final(self).ongoing()),
            final(self).handlers() == old(self).handlers(),
            final(self).last_selected() == old(self).last_selected(),
    {
        let ghost os = self.ongoing();
        let ghost t = span_nanos(query_response_timeout);
        let timeout = query_response_timeout.as_nanos();
        let mut expired: Vec<OngoingQueryRequest> = Vec::new();
        let mut live: Vec<OngoingQueryRequest> = Vec::new();
        let mut i: usize = 0;
        assert(os.take(0) =~= OngoingSeq::empty());
        while i < self.ongoing_query_requests.len()
            invariant
                os == self.ongoing(),
                os.len() == self.ongoing_query_requests@.len(),
                i <= os.len(),
                timeout == t,
                ongoing_views(expired@) == expired_requests(os.take(i as int), now, t),
                ongoing_views(live@) == live_requests(os.take(i as int), now, t),
            decreases os.len() - i,
        {
            proof {
                assert(os[i as int] == self.ongoing_query_requests@[i as int]@);
                assert(os.take(i + 1).drop_last() =~= os.take(i as int));
                assert(os.take(i + 1).last() == os[i as int]);
            }
            let o = self.ongoing_query_requests[i].clone();
            if elapsed(now, o.created_at) > timeout {
                let ghost before = ongoing_views(expired@);
                expired.push(o);
                assert(ongoing_views(expired@) =~= before.push(os[i as int]));
            } else {
                let ghost before = ongoing_views(live@);
                live.push(o);
                assert(ongoing_views(live@) =~= before.push(os[i as int]));
            }
            i += 1;
        }
        assert(os.take(i as int) =~= os);
        proof {
            lemma_live_requests_wf(os, now, t);
        }
        self.ongoing_query_requests = live;
        expired
    }

    /// The clients that answer query `query_id`, in the order they registered.
    pub fn get_client_ids_for_query_id(&self, query_id: &QueryId) -> (r: Vec<ClientId>)
        requires
            handlers_wf(self.handlers()),
        ensures
            ids_view(r@) == handlers_of(self.handlers(), query_id@),
    {
        match self.find_query(query_id) {
            Some(i) => {
                proof {
                    assert(self.handlers()[i as int] == entry_view(self.query_handlers@[i as int]));
                }
                let l = self.query_handlers[i].1.clone();
                assert(l@ =~= self.query_handlers@[i as int].1@);
                l
            },
            None => {
                assert(ids_view(Seq::<ClientId>::empty()) =~= Seq::<Seq<char>>::empty());
                Vec::new()
            },
        }
    }
}

/// Whether `list` holds `c`.
fn list_contains(list: &Vec<ClientId>, c: &ClientId) -> (r: bool)
    ensures
        r == ids_view(list@).contains(c@),
{
    let mut i: usize = 0;
    while i < list.len()
        invariant
            i <= list@.len(),
            forall|j: int| 0 <= j < i ==> ids_view(list@)[j] != c@,
        decreases list@.len() - i,
    {
        if list[i].same_as(c) {
            assert(ids_view(list@)[i as int] == c@);
            return true;
        }
        i += 1;
    }
    false
}

/// `list` without `c`.
fn without_client_exec(list: &Vec<ClientId>, c: &ClientId) -> (r: Vec<ClientId>)
    ensures
        ids_view(r@) == without_client(ids_view(list@), c@),
{
    let ghost lv = ids_view(list@);
    let mut out: Vec<ClientId> = Vec::new();
    let mut i: usize = 0;
    assert(lv.take(0) =~= Seq::<Seq<char>>::empty());
    while i < list.len()
        invariant
            lv == ids_view(list@),
            i <= list@.len(),
            ids_view(out@) == without_client(lv.take(i as int), c@),
        decreases list@.len() - i,
    {
        proof {
            assert(lv.take(i + 1).drop_last() =~= lv.take(i as int));
            assert(lv.take(i + 1).last() == lv[i as int]);
        }
        if !list[i].same_as(c) {
            let ghost before = ids_view(out@);
            out.push(list[i].clone());
            assert(ids_view(out@) =~= before.push(lv[i as int]));
        }
        i += 1;
    }
    assert(lv.take(i as int) =~= lv);
    out
}

/// Removing a client keeps the table consistent and lists only queries that
/// were listed before.
pub proof fn lemma_drop_client_wf(hs: HandlersView, c: Seq<char>)
    requires
        handlers_wf(hs),
    ensures
        handlers_wf(drop_client(hs, c)),
        forall|k: Seq<char>| has_query(drop_client(hs, c), k) ==> has_query(hs, k),
    decreases hs.len(),
{
    if hs.len() > 0 {
        let rest = hs.drop_last();
        assert(handlers_wf(rest)) by {
            assert forall|i: int| 0 <= i < rest.len() implies (#[trigger] rest[i]).1.len() > 0 by {
                assert(rest[i] == hs[i]);
            }
        }
        lemma_drop_client_wf(rest, c);
        let r = drop_client(rest, c);
        let l = without_client(hs.last().1, c);
        if l.len() > 0 {
            let n = r.push((hs.last().0, l));
            assert(!has_query(r, hs.last().0)) by {
                if has_query(r, hs.last().0) {
                    assert(has_query(rest, hs.last().0));
                    let j = choose|j: int| 0 <= j < rest.len() && rest[j].0 == hs.last().0;
                    assert(rest[j] == hs[j]);
                    assert(hs[j].0 == hs[hs.len() - 1].0);
                }
            }
            assert forall|k: Seq<char>| has_query(n, k) implies has_query(hs, k) by {
                let j = choose|j: int| 0 <= j < n.len() && n[j].0 == k;
                if j == r.len() {
                    assert(hs[hs.len() - 1].0 == k);
                } else {
                    assert(n[j] == r[j]);
                    assert(r[j].0 == k);
                    assert(has_query(r, k));
                    assert(has_query(rest, k));
                    let m = choose|m: int| 0 <= m < rest.len() && rest[m].0 == k;
                    assert(rest[m] == hs[m]);
                    assert(hs[m].0 == k);
                }
            }
            assert forall|i: int, j: int| 0 <= i < j < n.len() implies n[i].0 != n[j].0 by {
                if j == r.len() {
                    assert(n[i] == r[i]);
                }
            }
            assert forall|i: int| 0 <= i < n.len() implies (#[trigger] n[i]).1.len() > 0 by {
                if i < r.len() {
                    assert(n[i] == r[i]);
                }
            }
        } else {
            assert forall|k: Seq<char>| has_query(r, k) implies has_query(hs, k) by {
                assert(has_query(rest, k));
                let m = choose|m: int| 0 <= m < rest.len() && rest[m].0 == k;
                assert(rest[m] == hs[m]);
            }
        }
    }
}

} // verus!
