//! The state of the server: the connected clients and the query tables, and
//! the decisions it takes on each message. Sending, saving and waiting are
//! left to the caller, which reports back what happened.

use crate::ids::{ClientId, QueryId};
use crate::messages::{
    RequestId,
    message_source, query_ids_view, ClientRegistrationErrorReason, QueryRequestMessage,
    QueryRequestedErrorReason, QueryRequestedMessage, QueryRespondedMessage,
    RegisterClientMessage, RegisterSourceEventMessage, ClientMessage, ServerMessage,
    ServerMessageView,
};
use crate::query_handlers::{
    QueryRequestHandlerError,
    add_handlers, drop_client, find_request, handlers_of, ongoing_from, queries_of_client,
    record_request, forget_request, same_request, expired_requests, live_requests, ongoing_views,
    OngoingQueryRequest, OngoingView, HandlersView, OngoingSeq, QueryHandler,
};
use crate::selection::{ids_view, opt_id_view, round_robin_pick};
use crate::source_events::{NewSourceEvent, NewSourceEventView, SourceEvent, SourceEventView, UtcTimestamp};
use crate::text::{lemma_text_lt_strict_total, text_lt};
use crate::time::{elapsed, elapsed_nanos, span_nanos, TimeSpan};
use vstd::prelude::*;

verus! {

/// What the server keeps about a connected client.
#[derive(Debug, Clone, Copy, PartialEq, Eq, Structural)]
pub struct ClientInfo {
    /// When the client registered, in UTC.
    pub since: UtcTimestamp,
    /// When the client last sent a message, on the monotonic clock in
    /// nanoseconds.
    pub last_seen: u128,
}

/// The connected clients, in client id order.
pub type ClientsView = Seq<(Seq<char>, ClientInfo)>;

/// Every client id comes strictly before the next one.
pub open spec fn clients_sorted(cs: ClientsView) -> bool {
    forall|i: int, j: int| 0 <= i < j < cs.len() ==> text_lt(cs[i].0, cs[j].0)
}

/// Client `id` is connected.
pub open spec fn is_connected(cs: ClientsView, id: Seq<char>) -> bool {
    exists|i: int| 0 <= i < cs.len() && cs[i].0 == id
}

/// The position of client `id`.
pub open spec fn client_index(cs: ClientsView, id: Seq<char>) -> int {
    choose|i: int| 0 <= i < cs.len() && cs[i].0 == id
}

/// What the server keeps about client `id`, if it is connected.
pub open spec fn client_info(cs: ClientsView, id: Seq<char>) -> Option<ClientInfo> {
    if is_connected(cs, id) {
        Some(cs[client_index(cs, id)].1)
    } else {
        None
    }
}

/// `cs` after client `id`, if connected, was seen at `now`.
pub open spec fn touch_client(cs: ClientsView, id: Seq<char>, now: u128) -> ClientsView {
    if is_connected(cs, id) {
        let i = client_index(cs, id);
        cs.update(i, (id, ClientInfo { last_seen: now, ..cs[i].1 }))
    } else {
        cs
    }
}

/// `p` is where client `id` belongs in `cs`.
pub open spec fn is_insert_point(cs: ClientsView, id: Seq<char>, p: int) -> bool {
    &&& 0 <= p <= cs.len()
    &&& forall|j: int| 0 <= j < p ==> text_lt(#[trigger] cs[j].0, id)
    &&& forall|j: int| p <= j < cs.len() ==> text_lt(id, #[trigger] cs[j].0)
}

/// `cs` with client `id` connected and described by `info`, in its place.
pub open spec fn insert_client(cs: ClientsView, id: Seq<char>, info: ClientInfo) -> ClientsView {
    if is_connected(cs, id) {
        cs.update(client_index(cs, id), (id, info))
    } else {
        cs.insert(choose|p: int| is_insert_point(cs, id, p), (id, info))
    }
}

/// `cs` without client `id`.
pub open spec fn remove_client(cs: ClientsView, id: Seq<char>) -> ClientsView {
    if is_connected(cs, id) {
        cs.remove(client_index(cs, id))
    } else {
        cs
    }
}

/// The clients on one page: `count` clients from position `start` of the
/// clients in id order; none when `count` is zero or `start` is past the end.
pub open spec fn page_of_clients(cs: ClientsView, start: int, count: int) -> ClientsView {
    if count == 0 || cs.len() == 0 || start >= cs.len() {
        ClientsView::empty()
    } else {
        cs.subrange(start, if start + count < cs.len() { start + count } else { cs.len() as int })
    }
}

/// A request for a page of clients: `page` is the position of the first
/// client and `offset` the number of clients.
#[derive(Debug, Clone, Copy, PartialEq, Eq, Structural)]
pub struct PageRequest {
    page: usize,
    offset: usize,
}

impl PageRequest {
    pub closed spec fn page_view(&self) -> usize {
        self.page
    }

    pub closed spec fn offset_view(&self) -> usize {
        self.offset
    }

    pub fn new(page: usize, offset: usize) -> (r: Self)
        ensures
            r.page_view() == page,
            r.offset_view() == offset,
    {
        PageRequest { page, offset }
    }

    pub fn page(&self) -> (r: usize)
        ensures
            r == self.page_view(),
    {
        self.page
    }

    pub fn offset(&self) -> (r: usize)
        ensures
            r == self.offset_view(),
    {
        self.offset
    }
}

/// A page of items and the number of items in all pages.
#[derive(Debug)]
pub struct PageResponse<T> {
    items: Vec<T>,
    total_count: usize,
}

impl<T> PageResponse<T> {
    pub closed spec fn items_view(&self) -> Seq<T> {
        self.items@
    }

    pub closed spec fn total_view(&self) -> usize {
        self.total_count
    }

    pub fn new(items: Vec<T>, total_count: usize) -> (r: Self)
        ensures
            r.items_view() == items@,
            r.total_view() == total_count,
    {
        PageResponse { items, total_count }
    }

    pub fn items(&self) -> (r: &[T])
        ensures
            r@ == self.items_view(),
    {
        self.items.as_slice()
    }

    pub fn total_count(&self) -> (r: usize)
        ensures
            r == self.total_view(),
    {
        self.total_count
    }
}

/// The view of a client entry.
pub open spec fn client_entry_view(e: (ClientId, ClientInfo)) -> (Seq<char>, ClientInfo) {
    (e.0@, e.1)
}

/// The views of client entries.
pub open spec fn client_entries_view(s: Seq<(ClientId, ClientInfo)>) -> ClientsView {
    s.map_values(|e: (ClientId, ClientInfo)| client_entry_view(e))
}


/// A message to send to a connected client.
#[derive(Debug)]
pub struct Outbound {
    pub to: ClientId,
    pub message: ServerMessage,
}

/// A message to send, as plain values: the recipient and the message.
pub type OutboundView = (Seq<char>, ServerMessageView);

impl View for Outbound {
    type V = OutboundView;

    open spec fn view(&self) -> OutboundView {
        (self.to@, self.message@)
    }
}

/// The views of messages to send.
pub open spec fn outbound_views(s: Seq<Outbound>) -> Seq<OutboundView> {
    s.map_values(|o: Outbound| o@)
}

/// What the caller does after the state handled a client message.
#[derive(Debug)]
pub enum MessageOutcome {
    /// Nothing.
    Done,
    /// Send these messages; whether they arrive changes nothing.
    Send(Vec<Outbound>),
    /// Answer the registration on the session it came from, then report
    /// with `registration_sent`.
    ReplyToSession(ServerMessage),
    /// Hand the query to `responder`, then report with `query_request_sent`.
    ForwardQuery { responder: ClientId, message: ServerMessage },
    /// Deliver the answer to `requester`, then report with
    /// `query_response_sent`.
    DeliverResponse { requester: ClientId, message: ServerMessage },
    /// Save the event, then on success take the messages of
    /// `source_event_saved`.
    SaveSourceEvent(NewSourceEvent),
}

/// What the caller does, as plain values.
pub enum OutcomeView {
    Done,
    Send(Seq<OutboundView>),
    ReplyToSession(ServerMessageView),
    ForwardQuery { responder: Seq<char>, message: ServerMessageView },
    DeliverResponse { requester: Seq<char>, message: ServerMessageView },
    SaveSourceEvent(NewSourceEventView),
}

impl View for MessageOutcome {
    type V = OutcomeView;

    open spec fn view(&self) -> OutcomeView {
        match self {
            MessageOutcome::Done => OutcomeView::Done,
            MessageOutcome::Send(v) => OutcomeView::Send(outbound_views(v@)),
            MessageOutcome::ReplyToSession(m) => OutcomeView::ReplyToSession(m@),
            MessageOutcome::ForwardQuery { responder, message } => OutcomeView::ForwardQuery {
                responder: responder@,
                message: message@,
            },
            MessageOutcome::DeliverResponse { requester, message } =>
                OutcomeView::DeliverResponse { requester: requester@, message: message@ },
            MessageOutcome::SaveSourceEvent(e) => OutcomeView::SaveSourceEvent(e@),
        }
    }
}

/// The state of the server as plain values.
pub struct StateView {
    pub clients: ClientsView,
    pub handlers: HandlersView,
    pub ongoing: OngoingSeq,
    pub last_selected: Option<Seq<char>>,
}

/// The state after the sender of `msg`, if connected, was seen at `now`.
pub open spec fn after_touch(s: StateView, msg: ClientMessage, now: u128) -> StateView {
    match message_source(msg) {
        Some(c) => StateView { clients: touch_client(s.clients, c@, now), ..s },
        None => s,
    }
}

/// The answer the requester of `m` gets when no client answers its query.
pub open spec fn handler_not_found_notice(m: QueryRequestMessage) -> OutboundView {
    (
        m.requester@,
        ServerMessageView::QueryRequestedError {
            request_id: m.request_id,
            query_id: m.query_id@,
            reason: QueryRequestedErrorReason::QueryHandlerNotFound,
        },
    )
}

/// What a query request does: a request id already waiting is ignored when
/// it is the same request and refused otherwise; a query nobody answers is
/// refused; else round robin picks the answering client, which gets the
/// query if it is connected. Refusals go to the requester if connected.
pub open spec fn on_query_request(t: StateView, m: QueryRequestMessage) -> (StateView, OutcomeView) {
    let requester_known = is_connected(t.clients, m.requester@);
    match find_request(t.ongoing, m.request_id) {
        Some(o) => if same_request(o, m) {
            (t, OutcomeView::Done)
        } else if requester_known {
            (
                t,
                OutcomeView::Send(
                    seq![
                        (
                            m.requester@,
                            ServerMessageView::QueryRequestedError {
                                request_id: m.request_id,
                                query_id: m.query_id@,
                                reason: QueryRequestedErrorReason::RequestIdDuplicated,
                            },
                        ),
                    ],
                ),
            )
        } else {
            (t, OutcomeView::Done)
        },
        None => {
            let candidates = handlers_of(t.handlers, m.query_id@);
            if candidates.len() == 0 {
                if requester_known {
                    (t, OutcomeView::Send(seq![handler_not_found_notice(m)]))
                } else {
                    (t, OutcomeView::Done)
                }
            } else {
                let pick = round_robin_pick(t.last_selected, candidates);
                let t2 = StateView { last_selected: pick, ..t };
                match pick {
                    Some(r) => if is_connected(t.clients, r) {
                        (
                            t2,
                            OutcomeView::ForwardQuery {
                                responder: r,
                                message: ServerMessageView::QueryRequested {
                                    request_id: m.request_id,
                                    query_id: m.query_id@,
                                    parameters: m.parameters@,
                                },
                            },
                        )
                    } else {
                        (t2, OutcomeView::Done)
                    },
                    None => (t2, OutcomeView::Done),
                }
            }
        },
    }
}

/// What a client message does to the state and asks of the caller. The
/// sender, if connected, is first marked as seen at `now`. A report that a
/// query could not be answered does nothing more: it neither ends the
/// waiting request nor reaches the requester, which learns of the failure
/// when the request times out.
pub open spec fn on_message(s: StateView, msg: ClientMessage, now: u128) -> (StateView, OutcomeView) {
    let t = after_touch(s, msg, now);
    match msg {
        ClientMessage::RegisterClient(m) => (
            t,
            OutcomeView::ReplyToSession(
                if is_connected(t.clients, m.client_id@) {
                    ServerMessageView::ClientRegistrationError {
                        client_id: m.client_id@,
                        reason: ClientRegistrationErrorReason::ClientIdDuplicated,
                    }
                } else {
                    ServerMessageView::ClientRegistered { client_id: m.client_id@ }
                },
            ),
        ),
        ClientMessage::QueryRequest(m) => on_query_request(t, m),
        ClientMessage::QueryResponse(m) => (
            t,
            match find_request(t.ongoing, m.request_id) {
                Some(o) => if is_connected(t.clients, o.requester) {
                    OutcomeView::DeliverResponse {
                        requester: o.requester,
                        message: ServerMessageView::QueryResponded {
                            request_id: m.request_id,
                            result: m.result@,
                        },
                    }
                } else {
                    OutcomeView::Done
                },
                None => OutcomeView::Done,
            },
        ),
        ClientMessage::QueryHandlingError(_) => (t, OutcomeView::Done),
        ClientMessage::RegisterSourceEvent(m) => (
            t,
            OutcomeView::SaveSourceEvent(
                NewSourceEventView {
                    event_id: m.event_id,
                    aggregate_id: m.aggregate_id@,
                    aggregate_type: m.aggregate_type@,
                    payload: m.payload@,
                },
            ),
        ),
        ClientMessage::Heartbeat { .. } => (t, OutcomeView::Done),
        ClientMessage::DisconnectClient { client_id } => (
            StateView {
                clients: remove_client(t.clients, client_id@),
                handlers: drop_client(t.handlers, client_id@),
                ..t
            },
            OutcomeView::Done,
        ),
    }
}


/// The state after the reply to registration `m` was sent or not: a client
/// whose reply arrived, and that is not connected yet, is connected since
/// `since` and seen at `now`, and answers the queries it listed.
pub open spec fn on_registration_sent(
    s: StateView,
    m: RegisterClientMessage,
    sent: bool,
    now: u128,
    since: UtcTimestamp,
) -> StateView {
    if sent && !is_connected(s.clients, m.client_id@) {
        StateView {
            clients: insert_client(
                s.clients,
                m.client_id@,
                ClientInfo { since: since, last_seen: now },
            ),
            handlers: add_handlers(s.handlers, m.client_id@, query_ids_view(m.query_handlers@)),
            ..s
        }
    } else {
        s
    }
}

/// After query request `m` was handed to `responder` or not: a request that
/// arrived waits for its answer from `now` on; one that did not is refused
/// to the requester, if connected.
pub open spec fn on_query_request_sent(
    s: StateView,
    m: QueryRequestMessage,
    responder: Seq<char>,
    sent: bool,
    now: u128,
) -> (StateView, Seq<OutboundView>) {
    if sent {
        (
            StateView { ongoing: record_request(s.ongoing, ongoing_from(responder, m, now)), ..s },
            Seq::empty(),
        )
    } else if is_connected(s.clients, m.requester@) {
        (s, seq![handler_not_found_notice(m)])
    } else {
        (s, Seq::empty())
    }
}

/// After the answer to request `request_id` was delivered or not: a
/// delivered answer ends the wait.
pub open spec fn on_query_response_sent(s: StateView, request_id: RequestId, sent: bool) -> StateView {
    if sent {
        StateView { ongoing: forget_request(s.ongoing, request_id), ..s }
    } else {
        s
    }
}

/// The event message to each connected client, in id order.
pub open spec fn event_broadcast(cs: ClientsView, e: SourceEventView) -> Seq<OutboundView> {
    cs.map_values(|c: (Seq<char>, ClientInfo)| (c.0, ServerMessageView::SourceEvent(e)))
}

/// The messages after event `m` was saved as `e`: when its source is
/// connected, the source learns the id and clock of the saved event, then
/// every connected client gets the event; otherwise nobody hears of it.
pub open spec fn source_event_notices(s: StateView, m: RegisterSourceEventMessage, e: SourceEventView) -> Seq<
    OutboundView,
> {
    if is_connected(s.clients, m.source@) {
        seq![
            (
                m.source@,
                ServerMessageView::SourceEventRegistered {
                    event_id: e.id,
                    monotonic_clock: e.monotonic_clock,
                },
            ),
        ] + event_broadcast(s.clients, e)
    } else {
        Seq::empty()
    }
}

/// The clients not seen for longer than `expiration` nanoseconds at `now`,
/// in id order.
pub open spec fn stale_clients(cs: ClientsView, now: u128, expiration: nat) -> Seq<Seq<char>>
    decreases cs.len(),
{
    if cs.len() == 0 {
        Seq::empty()
    } else {
        let r = stale_clients(cs.drop_last(), now, expiration);
        if elapsed_nanos(now, cs.last().1.last_seen) > expiration {
            r.push(cs.last().0)
        } else {
            r
        }
    }
}

/// The message that a heartbeat to client `client_id` leads to: the client
/// is alive when the heartbeat reached its session, else it went away.
pub open spec fn heartbeat_result(client_id: ClientId, sent: bool) -> ClientMessage {
    if sent {
        ClientMessage::Heartbeat { client_id }
    } else {
        ClientMessage::DisconnectClient { client_id }
    }
}

/// The state after a heartbeat round at `now`: `results` lists, in order,
/// each client that got a heartbeat and whether the heartbeat reached it.
pub open spec fn heartbeat_round(s: StateView, results: Seq<(ClientId, bool)>, now: u128) -> StateView
    decreases results.len(),
{
    if results.len() == 0 {
        s
    } else {
        on_message(
            heartbeat_round(s, results.drop_last(), now),
            heartbeat_result(results.last().0, results.last().1),
            now,
        ).0
    }
}

/// The ids of the clients in a heartbeat round, in order.
pub open spec fn round_ids(results: Seq<(ClientId, bool)>) -> Seq<Seq<char>> {
    results.map_values(|r: (ClientId, bool)| r.0@)
}

/// Client `x` got a heartbeat in the round that did not reach it.
pub open spec fn dropped_in_round(results: Seq<(ClientId, bool)>, x: Seq<char>) -> bool {
    exists|i: int| 0 <= i < results.len() && results[i].0@ == x && !results[i].1
}

/// What the server keeps about client `id` once it is marked as seen at
/// `now`.
pub open spec fn seen_at(cs: ClientsView, id: Seq<char>, now: u128) -> Option<ClientInfo> {
    match client_info(cs, id) {
        Some(info) => Some(ClientInfo { last_seen: now, ..info }),
        None => None,
    }
}

/// The message to handle after sending a heartbeat to client `client_id`
/// during a check: `Heartbeat` when the heartbeat reached the client's
/// session, `DisconnectClient` when it did not.
pub fn heartbeat_outcome(client_id: ClientId, sent: bool) -> (r: ClientMessage)
    ensures
        r == heartbeat_result(client_id, sent),
{
    if sent {
        ClientMessage::Heartbeat { client_id }
    } else {
        ClientMessage::DisconnectClient { client_id }
    }
}

/// The timeout notices for the expired requests `es`: one to each requester
/// that is connected, in the order of `es`.
pub open spec fn timeout_notices(cs: ClientsView, es: OngoingSeq) -> Seq<OutboundView>
    decreases es.len(),
{
    if es.len() == 0 {
        Seq::empty()
    } else {
        let r = timeout_notices(cs, es.drop_last());
        let e = es.last();
        if is_connected(cs, e.requester) {
            r.push(
                (
                    e.requester,
                    ServerMessageView::QueryRequestedError {
                        request_id: e.request_id,
                        query_id: e.query_id,
                        reason: QueryRequestedErrorReason::QueryTimedOut,
                    },
                ),
            )
        } else {
            r
        }
    }
}

/// The state of the server.
pub struct State {
    connected_clients: Vec<(ClientId, ClientInfo)>,
    query_handlers: QueryHandler,
}

impl View for State {
    type V = StateView;

    open spec fn view(&self) -> StateView {
        StateView {
            clients: self.clients(),
            handlers: self.handlers(),
            ongoing: self.ongoing(),
            last_selected: self.last_selected(),
        }
    }
}

impl State {
    /// The connected clients, in id order.
    pub closed spec fn clients(&self) -> ClientsView {
        client_entries_view(self.connected_clients@)
    }

    /// The query tables.
    pub closed spec fn handler(&self) -> QueryHandler {
        self.query_handlers
    }

    /// The queries and the clients that answer them.
    pub open spec fn handlers(&self) -> HandlersView {
        self.handler().handlers()
    }

    /// The requests waiting for an answer.
    pub open spec fn ongoing(&self) -> OngoingSeq {
        self.handler().ongoing()
    }

    /// The client the round robin selected last.
    pub open spec fn last_selected(&self) -> Option<Seq<char>> {
        self.handler().last_selected()
    }

    /// The state is consistent: clients in strict id order, consistent
    /// query tables.
    pub open spec fn wf(&self) -> bool {
        clients_sorted(self.clients()) && self.handler().wf()
    }

    /// No client connected, empty query tables.
    pub fn new() -> (r: Self)
        ensures
            r.wf(),
            r.clients() == ClientsView::empty(),
            r.handlers() == HandlersView::empty(),
            r.ongoing() == OngoingSeq::empty(),
            r.last_selected() == None::<Seq<char>>,
    {
        let r = State { connected_clients: Vec::new(), query_handlers: QueryHandler::new() };
        assert(r.clients() =~= ClientsView::empty());
        r
    }

    fn find_client(&self, id: &ClientId) -> (r: Option<usize>)
        requires
            clients_sorted(self.clients()),
        ensures
            match r {
                Some(i) => is_connected(self.clients(), id@) && i == client_index(self.clients(), id@)
                    && i < self.connected_clients@.len(),
                None => !is_connected(self.clients(), id@),
            },
    {
        let ghost cs = self.clients();
        let mut i: usize = 0;
        while i < self.connected_clients.len()
            invariant
                cs == self.clients(),
                clients_sorted(cs),
                cs.len() == self.connected_clients@.len(),
                i <= cs.len(),
                forall|j: int| 0 <= j < i ==> cs[j].0 != id@,
            decreases cs.len() - i,
        {
            proof {
                assert(cs[i as int] == client_entry_view(self.connected_clients@[i as int]));
            }
            if self.connected_clients[i].0.same_as(id) {
                proof {
                    let k = client_index(cs, id@);
                    assert(0 <= k < cs.len() && cs[k].0 == id@);
                    if k != i {
                        assert(k > i);
                        assert(text_lt(cs[i as int].0, cs[k].0));
                        lemma_text_lt_strict_total(cs[k].0, cs[k].0, cs[k].0);
                    }
                }
                return Some(i);
            }
            i += 1;
        }
        None
    }

    /// What the server keeps about client `client_id`, if it is connected.
    pub fn get_client_by_id(&self, client_id: &ClientId) -> (r: Option<ClientInfo>)
        requires
            self.wf(),
        ensures
            r == client_info(self.clients(), client_id@),
    {
        match self.find_client(client_id) {
            Some(i) => Some(self.connected_clients[i].1),
            None => None,
        }
    }

    /// Whether client `client_id` is connected.
    pub fn is_client_connected(&self, client_id: &ClientId) -> (r: bool)
        requires
            self.wf(),
        ensures
            r == is_connected(self.clients(), client_id@),
    {
        self.find_client(client_id).is_some()
    }

    /// The queries that client `client_id` answers.
    pub fn get_query_handlers_for_client_id(&self, client_id: &ClientId) -> (r: Vec<QueryId>)
        ensures
            query_ids_view(r@) == queries_of_client(self.handlers(), client_id@),
    {
        self.query_handlers.get_query_handlers_for_client_id(client_id)
    }

    /// One page of the connected clients in client id order, with the number
    /// of connected clients: `offset` clients from position `page`.
    pub fn get_connected_clients(&self, page_request: PageRequest) -> (r: PageResponse<
        (ClientId, ClientInfo),
    >)
        requires
            self.wf(),
            page_request.offset_view() != 0 && page_request.page_view() < self.clients().len()
                ==> page_request.page_view() + page_request.offset_view() <= usize::MAX,
        ensures
            r.total_view() == self.clients().len(),
            client_entries_view(r.items_view()) == page_of_clients(
                self.clients(),
                page_request.page_view() as int,
                page_request.offset_view() as int,
            ),
    {
        let ghost cs = self.clients();
        let total = self.connected_clients.len();
        if page_request.offset() == 0 || total == 0 {
            assert(client_entries_view(Seq::empty()) =~= ClientsView::empty());
            return PageResponse::new(Vec::new(), total);
        }
        let start = page_request.page();
        if start >= total {
            assert(client_entries_view(Seq::empty()) =~= ClientsView::empty());
            return PageResponse::new(Vec::new(), total);
        }
        let end = if start + page_request.offset() < total {
            start + page_request.offset()
        } else {
            total
        };
        let mut items: Vec<(ClientId, ClientInfo)> = Vec::new();
        let mut i = start;
        while i < end
            invariant
                cs == self.clients(),
                cs.len() == total,
                start <= i <= end <= total,
                client_entries_view(items@) == cs.subrange(start as int, i as int),
            decreases end - i,
        {
            let e = (self.connected_clients[i].0.clone(), self.connected_clients[i].1);
            let ghost before = client_entries_view(items@);
            items.push(e);
            proof {
                assert(cs[i as int] == client_entry_view(self.connected_clients@[i as int]));
                assert(client_entries_view(items@) =~= before.push(cs[i as int]));
                assert(cs.subrange(start as int, i + 1) =~= cs.subrange(start as int, i as int).push(
                    cs[i as int],
                ));
            }
            i += 1;
        }
        PageResponse::new(items, total)
    }
    fn touch(&mut self, id: &ClientId, now: u128)
        requires
            old(self).wf(),
        ensures
            final(self).wf(),
            final(self).clients() == touch_client(old(self).clients(), id@, now),
            final(self).handler() == old(self).handler(),
    {
        let ghost cs = self.clients();
        match self.find_client(id) {
            Some(i) => {
                let key = self.connected_clients[i].0.clone();
                let info = self.connected_clients[i].1;
                proof {
                    assert(cs[i as int] == client_entry_view(self.connected_clients@[i as int]));
                }
                self.connected_clients.set(i, (key, ClientInfo { last_seen: now, ..info }));
                proof {
                    assert(self.clients() =~= cs.update(
                        i as int,
                        (id@, ClientInfo { last_seen: now, ..cs[i as int].1 }),
                    ));
                    assert forall|a: int, b: int|
                        0 <= a < b < self.clients().len() implies text_lt(
                        self.clients()[a].0,
                        self.clients()[b].0,
                    ) by {
                        assert(self.clients()[a].0 == cs[a].0);
                        assert(self.clients()[b].0 == cs[b].0);
                    }
                }
            },
            None => {},
        }
    }

    fn insert(&mut self, id: ClientId, info: ClientInfo)
        requires
            old(self).wf(),
        ensures
            final(self).wf(),
            final(self).clients() == insert_client(old(self).clients(), id@, info),
            final(self).handler() == old(self).handler(),
    {
        let ghost cs = self.clients();
        let ghost idv = id@;
        match self.find_client(&id) {
            Some(i) => {
                self.connected_clients.set(i, (id, info));
                proof {
                    assert(self.clients() =~= cs.update(i as int, (idv, info)));
                    assert forall|a: int, b: int|
                        0 <= a < b < self.clients().len() implies text_lt(
                        self.clients()[a].0,
                        self.clients()[b].0,
                    ) by {
                        assert(self.clients()[a].0 == cs[a].0);
                        assert(self.clients()[b].0 == cs[b].0);
                    }
                }
            },
            None => {
                let mut j: usize = 0;
                while j < self.connected_clients.len() && self.connected_clients[j].0.precedes(&id)
                    invariant
                        cs == self.clients(),
                        cs.len() == self.connected_clients@.len(),
                        idv == id@,
                        j <= cs.len(),
                        forall|k: int| 0 <= k < j ==> text_lt(#[trigger] cs[k].0, idv),
                    decreases cs.len() - j,
                {
                    proof {
                        assert(cs[j as int] == client_entry_view(self.connected_clients@[j as int]));
                    }
                    j += 1;
                }
                proof {
                    if j < cs.len() {
                        assert(cs[j as int] == client_entry_view(self.connected_clients@[j as int]));
                        assert(cs[j as int].0 != idv);
                        lemma_text_lt_strict_total(idv, cs[j as int].0, idv);
                        assert(text_lt(idv, cs[j as int].0));
                    }
                    assert forall|k: int| j <= k < cs.len() implies text_lt(idv, #[trigger] cs[k].0) by {
                        if k > j {
                            lemma_text_lt_strict_total(idv, cs[j as int].0, cs[k].0);
                        }
                    }
                    assert(is_insert_point(cs, idv, j as int));
                    let p = choose|p: int| is_insert_point(cs, idv, p);
                    if p < j {
                        assert(text_lt(cs[p].0, idv));
                        assert(text_lt(idv, cs[p].0));
                        lemma_text_lt_strict_total(idv, cs[p].0, idv);
                    } else if p > j {
                        assert(text_lt(cs[j as int].0, idv));
                        lemma_text_lt_strict_total(idv, cs[j as int].0, idv);
                    }
                }
                self.connected_clients.insert(j, (id, info));
                proof {
                    let ncs = self.clients();
                    assert(ncs =~= cs.insert(j as int, (idv, info)));
                    assert forall|a: int, b: int| 0 <= a < b < ncs.len() implies text_lt(
                        ncs[a].0,
                        ncs[b].0,
                    ) by {
                        if b < j {
                            assert(ncs[a] == cs[a] && ncs[b] == cs[b]);
                        } else if b == j {
                            assert(ncs[a] == cs[a]);
                        } else if a == j {
                            assert(ncs[b] == cs[b - 1]);
                        } else if a < j {
                            assert(ncs[a] == cs[a] && ncs[b] == cs[b - 1]);
                            lemma_text_lt_strict_total(cs[a].0, idv, cs[b - 1].0);
                        } else {
                            assert(ncs[a] == cs[a - 1] && ncs[b] == cs[b - 1]);
                        }
                    }
                }
            },
        }
    }

    fn remove(&mut self, id: &ClientId)
        requires
            old(self).wf(),
        ensures
            final(self).wf(),
            final(self).clients() == remove_client(old(self).clients(), id@),
            final(self).handler() == old(self).handler(),
    {
        let ghost cs = self.clients();
        match self.find_client(id) {
            Some(i) => {
                self.connected_clients.remove(i);
                proof {
                    let ncs = self.clients();
                    assert(ncs =~= cs.remove(i as int));
                    assert forall|a: int, b: int| 0 <= a < b < ncs.len() implies text_lt(
                        ncs[a].0,
                        ncs[b].0,
                    ) by {
                        if b < i {
                            assert(ncs[a] == cs[a] && ncs[b] == cs[b]);
                        } else if a < i {
                            assert(ncs[a] == cs[a] && ncs[b] == cs[b + 1]);
                        } else {
                            assert(ncs[a] == cs[a + 1] && ncs[b] == cs[b + 1]);
                        }
                    }
                }
            },
            None => {},
        }
    }
    fn plan_query_request(&mut self, m: &QueryRequestMessage) -> (r: MessageOutcome)
        requires
            old(self).wf(),
        ensures
            final(self).wf(),
            final(self)@ == on_query_request(old(self)@, *m).0,
            r@ == on_query_request(old(self)@, *m).1,
    {
        let requester_known = self.is_client_connected(&m.requester);
        match self.query_handlers.get_ongoing_request(m.request_id) {
            Some(o) => {
                if o.is_same(m) {
                    MessageOutcome::Done
                } else if requester_known {
                    let mut v: Vec<Outbound> = Vec::new();
                    v.push(
                        Outbound {
                            to: m.requester.clone(),
                            message: ServerMessage::query_request_id_duplicated(m),
                        },
                    );
                    assert(outbound_views(v@) =~= on_query_request(self@, *m).1->Send_0);
                    MessageOutcome::Send(v)
                } else {
                    MessageOutcome::Done
                }
            },
            None => {
                let selected = self.query_handlers.get_client_id_for_query_id(&m.query_id);
                match selected {
                    Ok(responder) => {
                        if self.is_client_connected(&responder) {
                            MessageOutcome::ForwardQuery {
                                responder,
                                message: ServerMessage::QueryRequested(
                                    QueryRequestedMessage::from_request(m),
                                ),
                            }
                        } else {
                            MessageOutcome::Done
                        }
                    },
                    Err(QueryRequestHandlerError::QueryHandlerNotFound) => {
                        if requester_known {
                            let mut v: Vec<Outbound> = Vec::new();
                            v.push(
                                Outbound {
                                    to: m.requester.clone(),
                                    message: ServerMessage::query_handler_not_found(m),
                                },
                            );
                            assert(outbound_views(v@) =~= seq![handler_not_found_notice(*m)]);
                            MessageOutcome::Send(v)
                        } else {
                            MessageOutcome::Done
                        }
                    },
                    Err(QueryRequestHandlerError::ResponderNotFound) => MessageOutcome::Done,
                }
            },
        }
    }

    /// Handles a message from a client: marks its sender, if connected, as
    /// seen at `now`, takes the decision `on_message` describes, and tells
    /// the caller what to send or save.
    pub fn handle_message(&mut self, msg: &ClientMessage, now: u128) -> (r: MessageOutcome)
        requires
            old(self).wf(),
        ensures
            final(self).wf(),
            final(self)@ == on_message(old(self)@, *msg, now).0,
            r@ == on_message(old(self)@, *msg, now).1,
    {
        match msg.get_source() {
            Some(src) => self.touch(src, now),
            None => {},
        }
        assert(self@ == after_touch(old(self)@, *msg, now));
        match msg {
            ClientMessage::RegisterClient(m) => {
                if self.is_client_connected(&m.client_id) {
                    MessageOutcome::ReplyToSession(
                        ServerMessage::client_id_duplicated(m.client_id.clone()),
                    )
                } else {
                    MessageOutcome::ReplyToSession(
                        ServerMessage::ClientRegistered { client_id: m.client_id.clone() },
                    )
                }
            },
            ClientMessage::QueryRequest(m) => self.plan_query_request(m),
            ClientMessage::QueryResponse(m) => {
                match self.query_handlers.get_ongoing_request(m.request_id) {
                    Some(o) => {
                        if self.is_client_connected(&o.requester) {
                            MessageOutcome::DeliverResponse {
                                requester: o.requester.clone(),
                                message: ServerMessage::QueryResponded(
                                    QueryRespondedMessage::new(m.request_id, &m.result),
                                ),
                            }
                        } else {
                            MessageOutcome::Done
                        }
                    },
                    None => MessageOutcome::Done,
                }
            },
            ClientMessage::QueryHandlingError(_) => MessageOutcome::Done,
            ClientMessage::RegisterSourceEvent(m) => MessageOutcome::SaveSourceEvent(
                m.to_new_source_event(),
            ),
            ClientMessage::Heartbeat { .. } => MessageOutcome::Done,
            ClientMessage::DisconnectClient { client_id } => {
                self.remove(client_id);
                self.query_handlers.disconnect_client(client_id);
                MessageOutcome::Done
            },
        }
    }
    /// Reports whether the reply to registration `msg` reached its session:
    /// see `on_registration_sent`.
    pub fn registration_sent(
        &mut self,
        msg: &RegisterClientMessage,
        sent: bool,
        now: u128,
        since: UtcTimestamp,
    )
        requires
            old(self).wf(),
        ensures
            final(self).wf(),
            final(self)@ == on_registration_sent(old(self)@, *msg, sent, now, since),
    {
        if sent && !self.is_client_connected(&msg.client_id) {
            self.insert(msg.client_id.clone(), ClientInfo { since, last_seen: now });
            self.query_handlers.add_client_query_handler(&msg.client_id, msg.query_handlers.as_slice());
        }
    }

    /// Reports whether query request `msg` reached `responder`: see
    /// `on_query_request_sent`.
    pub fn query_request_sent(
        &mut self,
        msg: &QueryRequestMessage,
        responder: &ClientId,
        sent: bool,
        now: u128,
    ) -> (r: Vec<Outbound>)
        requires
            old(self).wf(),
        ensures
            final(self).wf(),
            final(self)@ == on_query_request_sent(old(self)@, *msg, responder@, sent, now).0,
            outbound_views(r@) == on_query_request_sent(old(self)@, *msg, responder@, sent, now).1,
    {
        let mut v: Vec<Outbound> = Vec::new();
        if sent {
            let o = OngoingQueryRequest::from(responder.clone(), msg, now);
            self.query_handlers.handle_query_requested_event(o);
        } else if self.is_client_connected(&msg.requester) {
            v.push(
                Outbound {
                    to: msg.requester.clone(),
                    message: ServerMessage::query_handler_not_found(msg),
                },
            );
            assert(outbound_views(v@) =~= seq![handler_not_found_notice(*msg)]);
        }
        assert(outbound_views(v@) =~= on_query_request_sent(old(self)@, *msg, responder@, sent, now).1);
        v
    }

    /// Reports whether the answer to request `request_id` was delivered: see
    /// `on_query_response_sent`.
    pub fn query_response_sent(&mut self, request_id: RequestId, sent: bool)
        requires
            old(self).wf(),
        ensures
            final(self).wf(),
            final(self)@ == on_query_response_sent(old(self)@, request_id, sent),
    {
        if sent {
            let _ = self.query_handlers.remove_ongoing_request(request_id);
        }
    }

    /// The messages to send after event `msg` was saved as `saved`: see
    /// `source_event_notices`.
    pub fn source_event_saved(&self, msg: &RegisterSourceEventMessage, saved: &SourceEvent) -> (r:
        Vec<Outbound>)
        requires
            self.wf(),
        ensures
            outbound_views(r@) == source_event_notices(self@, *msg, saved@),
    {
        let mut v: Vec<Outbound> = Vec::new();
        if !self.is_client_connected(&msg.source) {
            assert(outbound_views(v@) =~= Seq::<OutboundView>::empty());
            return v;
        }
        v.push(
            Outbound {
                to: msg.source.clone(),
                message: ServerMessage::SourceEventRegistered {
                    event_id: saved.id,
                    monotonic_clock: saved.monotonic_clock,
                },
            },
        );
        let ghost cs = self.clients();
        let ghost head = outbound_views(v@);
        let mut i: usize = 0;
        assert(cs.take(0).map_values(
            |c: (Seq<char>, ClientInfo)| (c.0, ServerMessageView::SourceEvent(saved@)),
        ) =~= Seq::<OutboundView>::empty());
        assert(outbound_views(v@) =~= head + Seq::<OutboundView>::empty());
        while i < self.connected_clients.len()
            invariant
                cs == self.clients(),
                cs.len() == self.connected_clients@.len(),
                i <= cs.len(),
                outbound_views(v@) == head + event_broadcast(cs.take(i as int), saved@),
            decreases cs.len() - i,
        {
            let ghost before = outbound_views(v@);
            v.push(
                Outbound {
                    to: self.connected_clients[i].0.clone(),
                    message: ServerMessage::SourceEvent(saved.clone()),
                },
            );
            proof {
                assert(cs[i as int] == client_entry_view(self.connected_clients@[i as int]));
                assert(event_broadcast(cs.take(i + 1), saved@) =~= event_broadcast(
                    cs.take(i as int),
                    saved@,
                ).push((cs[i as int].0, ServerMessageView::SourceEvent(saved@))));
                assert(outbound_views(v@) =~= before.push(
                    (cs[i as int].0, ServerMessageView::SourceEvent(saved@)),
                ));
            }
            i += 1;
        }
        assert(cs.take(i as int) =~= cs);
        v
    }

    /// The clients not seen for longer than `expiration` at `now`, which the
    /// caller checks with a heartbeat.
    pub fn clients_to_check(&self, now: u128, expiration: TimeSpan) -> (r: Vec<ClientId>)
        ensures
            ids_view(r@) == stale_clients(self.clients(), now, span_nanos(expiration)),
    {
        let ghost cs = self.clients();
        let limit = expiration.as_nanos();
        let mut out: Vec<ClientId> = Vec::new();
        let mut i: usize = 0;
        assert(ids_view(out@) =~= stale_clients(cs.take(0), now, span_nanos(expiration)));
        while i < self.connected_clients.len()
            invariant
                cs == self.clients(),
                cs.len() == self.connected_clients@.len(),
                i <= cs.len(),
                limit == span_nanos(expiration),
                ids_view(out@) == stale_clients(cs.take(i as int), now, span_nanos(expiration)),
            decreases cs.len() - i,
        {
            proof {
                assert(cs[i as int] == client_entry_view(self.connected_clients@[i as int]));
                assert(cs.take(i + 1).drop_last() =~= cs.take(i as int));
                assert(cs.take(i + 1).last() == cs[i as int]);
            }
            if elapsed(now, self.connected_clients[i].1.last_seen) > limit {
                let ghost before = ids_view(out@);
                out.push(self.connected_clients[i].0.clone());
                assert(ids_view(out@) =~= before.push(cs[i as int].0));
            }
            i += 1;
        }
        assert(cs.take(i as int) =~= cs);
        out
    }

    /// Ends the requests that got no answer within `query_response_timeout`
    /// at `now` and returns the notices for their requesters that are
    /// connected.
    pub fn expire_requests(&mut self, now: u128, query_response_timeout: TimeSpan) -> (r: Vec<
        Outbound,
    >)
        requires
            old(self).wf(),
        ensures
            final(self).wf(),
            final(self)@ == (StateView {
                ongoing: live_requests(old(self).ongoing(), now, span_nanos(query_response_timeout)),
                ..old(self)@
            }),
            outbound_views(r@) == timeout_notices(
                old(self).clients(),
                expired_requests(old(self).ongoing(), now, span_nanos(query_response_timeout)),
            ),
    {
        let expired = self.query_handlers.remove_expired_requests(now, query_response_timeout);
        let ghost es = ongoing_views(expired@);
        let ghost cs = self.clients();
        let mut v: Vec<Outbound> = Vec::new();
        let mut i: usize = 0;
        assert(es.take(0) =~= OngoingSeq::empty());
        while i < expired.len()
            invariant
                self.wf(),
                cs == self.clients(),
                es == ongoing_views(expired@),
                i <= expired@.len(),
                outbound_views(v@) == timeout_notices(cs, es.take(i as int)),
            decreases expired@.len() - i,
        {
            proof {
                assert(es.take(i + 1).drop_last() =~= es.take(i as int));
                assert(es.take(i + 1).last() == es[i as int]);
                assert(es[i as int] == expired@[i as int]@);
            }
            if self.is_client_connected(&expired[i].requester) {
                let ghost before = outbound_views(v@);
                v.push(
                    Outbound {
                        to: expired[i].requester.clone(),
                        message: ServerMessage::query_timed_out(
                            expired[i].request_id,
                            expired[i].query_id.clone(),
                        ),
                    },
                );
                assert(outbound_views(v@) =~= before.push(
                    (
                        es[i as int].requester,
                        ServerMessageView::QueryRequestedError {
                            request_id: es[i as int].request_id,
                            query_id: es[i as int].query_id,
                            reason: QueryRequestedErrorReason::QueryTimedOut,
                        },
                    ),
                ));
            }
            i += 1;
        }
        assert(es.take(i as int) =~= es);
        v
    }

    /// Chooses the client that answers query `query_id`, as the query tables
    /// do.
    pub fn get_client_id_for_query_id(&mut self, query_id: &QueryId) -> (r: Result<
        ClientId,
        QueryRequestHandlerError,
    >)
        requires
            old(self).wf(),
        ensures
            final(self).wf(),
            final(self).clients() == old(self).clients(),
            final(self).handlers() == old(self).handlers(),
            final(self).ongoing() == old(self).ongoing(),
            handlers_of(old(self).handlers(), query_id@).len() == 0 ==> {
                &&& r == Err::<ClientId, QueryRequestHandlerError>(
                    QueryRequestHandlerError::QueryHandlerNotFound,
                )
                &&& final(self).last_selected() == old(self).last_selected()
            },
            handlers_of(old(self).handlers(), query_id@).len() > 0 ==> {
                let pick = round_robin_pick(
                    old(self).last_selected(),
                    handlers_of(old(self).handlers(), query_id@),
                );
                &&& final(self).last_selected() == pick
                &&& match r {
                    Ok(c) => pick == Some(c@),
                    Err(e) => pick is None && e == QueryRequestHandlerError::ResponderNotFound,
                }
            },
    {
        self.query_handlers.get_client_id_for_query_id(query_id)
    }

    /// The clients that answer query `query_id`, in the order they registered.
    pub fn get_client_ids_for_query_id(&self, query_id: &QueryId) -> (r: Vec<ClientId>)
        requires
            self.wf(),
        ensures
            ids_view(r@) == handlers_of(self.handlers(), query_id@),
    {
        self.query_handlers.get_client_ids_for_query_id(query_id)
    }

    /// The client the round robin selected last.
    pub fn last_selected_client(&self) -> (r: Option<ClientId>)
        ensures
            opt_id_view(r) == self.last_selected(),
    {
        self.query_handlers.last_selected_client()
    }
}

} // verus!
