//! The documents of the REST interface: pages with their links, error
//! documents, and the answers to the client and event queries.

use crate::config::Config;
use crate::ids::{client_id_is_valid, client_id_rejection, ClientId};
use crate::messages::query_ids_view;
use crate::query_handlers::queries_of_client;
use crate::source_events::UtcTimestamp;
use crate::state::{
    client_entries_view, client_info, page_of_clients, ClientInfo, ClientsView, PageRequest,
    State,
};
use crate::text::{decimal, decimal_string};
use crate::time::{elapsed, elapsed_nanos};
use vstd::prelude::*;

verus! {

/// Where the REST server lists clients.
pub open spec fn clients_base_path() -> Seq<char> {
    "http://localhost:10001/api/clients"@
}

/// The link to a page: `base?offset=O&limit=L`.
pub open spec fn page_link(base: Seq<char>, offset: nat, limit: nat) -> Seq<char> {
    base + "?offset="@ + decimal(offset) + "&limit="@ + decimal(limit)
}

fn make_page_link(base: &str, offset: usize, limit: usize) -> (r: String)
    ensures
        r@ == page_link(base@, offset as nat, limit as nat),
{
    let mut s = base.to_owned();
    s.append("?offset=");
    s.append(decimal_string(offset).as_str());
    s.append("&limit=");
    s.append(decimal_string(limit).as_str());
    s
}

/// Paging parameters of a list request.
#[derive(Debug, Clone, Copy, PartialEq, Eq, Structural)]
pub struct Pagination {
    pub offset: usize,
    pub limit: usize,
}

/// The offset when the request gives none.
pub fn default_offset() -> (r: usize)
    ensures
        r == 0,
{
    0
}

/// The page size when the request gives none.
pub fn default_limit() -> (r: usize)
    ensures
        r == 20,
{
    20
}

/// A page of a list, with the links to the pages before and after it.
#[derive(Debug)]
pub struct Page<T: Clone> {
    pub content: Vec<T>,
    pub offset: usize,
    pub limit: usize,
    pub size: usize,
    pub total_elements: usize,
    pub total_pages: usize,
    pub next: Option<String>,
    pub prev: Option<String>,
}

/// The link to the page before: present when `offset` is past the start,
/// and it goes back `limit` items, not below the start.
pub open spec fn prev_link(base: Seq<char>, offset: usize, limit: usize) -> Option<Seq<char>> {
    if offset > 0 {
        Some(page_link(base, if offset >= limit { (offset - limit) as nat } else { 0 }, limit as nat))
    } else {
        None
    }
}

/// The link to the page after: present when items remain after this page.
pub open spec fn next_link(base: Seq<char>, offset: usize, limit: usize, total: usize) -> Option<
    Seq<char>,
> {
    if offset + limit < total {
        Some(page_link(base, (offset + limit) as nat, limit as nat))
    } else {
        None
    }
}

/// The text of an optional string.
pub open spec fn opt_text(o: Option<String>) -> Option<Seq<char>> {
    match o {
        Some(s) => Some(s@),
        None => None,
    }
}

impl<T: Clone> Page<T> {
    /// A page holding copies of `content`, without links.
    pub fn new(
        content: &[T],
        offset: usize,
        limit: usize,
        total_elements: usize,
        total_pages: usize,
    ) -> (r: Self)
        ensures
            r.content@.len() == content@.len(),
            forall|i: int| 0 <= i < content@.len() ==> cloned(content@[i], #[trigger] r.content@[i]),
            r.offset == offset,
            r.limit == limit,
            r.size == content@.len(),
            r.total_elements == total_elements,
            r.total_pages == total_pages,
            r.next is None,
            r.prev is None,
    {
        let mut v: Vec<T> = Vec::new();
        let mut i: usize = 0;
        while i < content.len()
            invariant
                i <= content@.len(),
                v@.len() == i,
                forall|j: int| 0 <= j < i ==> cloned(content@[j], #[trigger] v@[j]),
            decreases content@.len() - i,
        {
            v.push(content[i].clone());
            i += 1;
        }
        Page {
            content: v,
            offset,
            limit,
            size: content.len(),
            total_elements,
            total_pages,
            next: None,
            prev: None,
        }
    }

    /// The page with its links to the pages before and after, under
    /// `base_path`; a link that does not apply is left as it was.
    pub fn with_pagination_links(self, base_path: &str) -> (r: Self)
        requires
            self.offset + self.limit <= usize::MAX,
        ensures
            opt_text(r.prev) == (if self.offset > 0 {
                prev_link(base_path@, self.offset, self.limit)
            } else {
                opt_text(self.prev)
            }),
            opt_text(r.next) == (if self.offset + self.limit < self.total_elements {
                next_link(base_path@, self.offset, self.limit, self.total_elements)
            } else {
                opt_text(self.next)
            }),
            r.content == self.content,
            r.offset == self.offset,
            r.limit == self.limit,
            r.size == self.size,
            r.total_elements == self.total_elements,
            r.total_pages == self.total_pages,
    {
        let mut page = self;
        if page.offset > 0 {
            let prev_offset = if page.offset >= page.limit {
                page.offset - page.limit
            } else {
                0
            };
            page.prev = Some(make_page_link(base_path, prev_offset, page.limit));
        }
        let next_offset = page.offset + page.limit;
        if next_offset < page.total_elements {
            page.next = Some(make_page_link(base_path, next_offset, page.limit));
        }
        page
    }
}

/// One problem in a request.
#[derive(Debug, PartialEq, Eq)]
pub struct ErrorDetail {
    pub reason: String,
    pub message: String,
    pub location_type: String,
}

impl Clone for ErrorDetail {
    fn clone(&self) -> (r: Self)
        ensures
            r == *self,
    {
        ErrorDetail {
            reason: self.reason.clone(),
            message: self.message.clone(),
            location_type: self.location_type.clone(),
        }
    }
}

/// The texts of a problem: reason, message and where it is.
pub open spec fn detail_view(d: ErrorDetail) -> (Seq<char>, Seq<char>, Seq<char>) {
    (d.reason@, d.message@, d.location_type@)
}

impl ErrorDetail {
    pub fn new(reason: String, message: String, location_type: String) -> (r: Self)
        ensures
            r.reason == reason,
            r.message == message,
            r.location_type == location_type,
    {
        ErrorDetail { reason, message, location_type }
    }
}

/// The HTTP status of a refused request.
pub const BAD_REQUEST: u16 = 400;

/// The error document of the REST interface.
#[derive(Debug)]
pub struct ErrorResponse {
    /// The HTTP status code.
    pub code: u16,
    pub message: String,
    pub errors: Vec<ErrorDetail>,
}

fn copy_details(errors: &[ErrorDetail]) -> (r: Vec<ErrorDetail>)
    ensures
        r@ == errors@,
{
    let mut v: Vec<ErrorDetail> = Vec::new();
    let mut i: usize = 0;
    while i < errors.len()
        invariant
            i <= errors@.len(),
            v@ == errors@.take(i as int),
        decreases errors@.len() - i,
    {
        v.push(errors[i].clone());
        assert(errors@.take(i + 1) =~= errors@.take(i as int).push(errors@[i as int]));
        i += 1;
    }
    assert(errors@.take(i as int) =~= errors@);
    v
}

impl ErrorResponse {
    pub fn new(code: u16, message: String, errors: &[ErrorDetail]) -> (r: Self)
        ensures
            r.code == code,
            r.message == message,
            r.errors@ == errors@,
    {
        ErrorResponse { code, message, errors: copy_details(errors) }
    }

    /// An error document for an unknown item; like a validation error, it
    /// carries the status 400 Bad Request.
    pub fn not_found(message: String, errors: &[ErrorDetail]) -> (r: Self)
        ensures
            r.code == BAD_REQUEST,
            r.message == message,
            r.errors@ == errors@,
    {
        Self::new(BAD_REQUEST, message, errors)
    }

    /// An error document for a refused request.
    pub fn validation_error(message: String, errors: &[ErrorDetail]) -> (r: Self)
        ensures
            r.code == BAD_REQUEST,
            r.message == message,
            r.errors@ == errors@,
    {
        Self::new(BAD_REQUEST, message, errors)
    }
}

/// Largest offset of a page of clients.
pub const MAX_OFFSET: usize = 100_000;

/// Largest size of a page of clients.
pub const MAX_LIMIT: usize = 100;

/// A connected client in a page of clients.
#[derive(Debug, PartialEq, Eq)]
pub struct ClientInPageDto {
    pub id: String,
    /// When the client registered.
    pub since: UtcTimestamp,
    /// Where the client's details are.
    pub link: String,
}

impl Clone for ClientInPageDto {
    fn clone(&self) -> (r: Self)
        ensures
            r == *self,
    {
        ClientInPageDto { id: self.id.clone(), since: self.since, link: self.link.clone() }
    }
}

/// The texts of a client in a page: id, registration time and link.
pub type ClientInPageView = (Seq<char>, UtcTimestamp, Seq<char>);

/// The view of a client in a page.
pub open spec fn client_in_page_view(d: ClientInPageDto) -> ClientInPageView {
    (d.id@, d.since, d.link@)
}

/// Where the details of client `id` are.
pub open spec fn client_link(id: Seq<char>) -> Seq<char> {
    "http://localhost:10001/api/clients/"@ + id
}

/// How a connected client shows in a page.
pub open spec fn client_in_page(e: (Seq<char>, ClientInfo)) -> ClientInPageView {
    (e.0, e.1.since, client_link(e.0))
}

/// The problems of the paging parameters of a client list: the offset at
/// most 100000, the size from 1 to 100.
pub open spec fn pagination_problems(p: Pagination) -> Seq<(Seq<char>, Seq<char>, Seq<char>)> {
    let first: Seq<(Seq<char>, Seq<char>, Seq<char>)> = if p.offset > MAX_OFFSET {
        seq![
            (
                "invalidParameters"@,
                "Failed to deserialize query string: offset must be <= 100000"@,
                "query"@,
            ),
        ]
    } else {
        Seq::empty()
    };
    if p.limit == 0 || p.limit > MAX_LIMIT {
        first.push(
            (
                "invalidParameters"@,
                "Failed to deserialize query string: limit must be between 1 and 100"@,
                "query"@,
            ),
        )
    } else {
        first
    }
}

/// The views of a list of problems.
pub open spec fn details_view(s: Seq<ErrorDetail>) -> Seq<(Seq<char>, Seq<char>, Seq<char>)> {
    s.map_values(|d: ErrorDetail| detail_view(d))
}

/// The number of pages of `limit` items that hold `total` items.
pub open spec fn page_count(total: nat, limit: nat) -> nat {
    if total == 0 {
        0
    } else {
        ((total - 1) as nat / limit) + 1
    }
}

fn invalid_parameter(message: &str) -> (r: ErrorDetail)
    ensures
        detail_view(r) == ("invalidParameters"@, message@, "query"@),
{
    ErrorDetail::new("invalidParameters".to_owned(), message.to_owned(), "query".to_owned())
}

/// The answer to a request for a page of connected clients: the page, in
/// client id order with links to each client and to the pages before and
/// after, or the problems of the paging parameters.
pub fn clients_page_response(pagination: &Pagination, state: &State) -> (r: Result<
    Page<ClientInPageDto>,
    ErrorResponse,
>)
    requires
        state.wf(),
    ensures
        match r {
            Err(e) => {
                &&& pagination_problems(*pagination).len() > 0
                &&& e.code == BAD_REQUEST
                &&& e.message@ == "Invalid parameters"@
                &&& details_view(e.errors@) == pagination_problems(*pagination)
            },
            Ok(p) => {
                let clients = page_of_clients(
                    state.clients(),
                    pagination.offset as int,
                    pagination.limit as int,
                );
                &&& pagination_problems(*pagination).len() == 0
                &&& p.content@.map_values(|d: ClientInPageDto| client_in_page_view(d))
                    == clients.map_values(|e: (Seq<char>, ClientInfo)| client_in_page(e))
                &&& p.offset == pagination.offset
                &&& p.limit == pagination.limit
                &&& p.size == clients.len()
                &&& p.total_elements == state.clients().len()
                &&& p.total_pages == page_count(state.clients().len(), pagination.limit as nat)
                &&& opt_text(p.prev) == prev_link(
                    clients_base_path(),
                    pagination.offset,
                    pagination.limit,
                )
                &&& opt_text(p.next) == next_link(
                    clients_base_path(),
                    pagination.offset,
                    pagination.limit,
                    state.clients().len() as usize,
                )
            },
        },
{
    let mut errors: Vec<ErrorDetail> = Vec::new();
    if pagination.offset > MAX_OFFSET {
        errors.push(
            invalid_parameter("Failed to deserialize query string: offset must be <= 100000"),
        );
    }
    if pagination.limit == 0 || pagination.limit > MAX_LIMIT {
        errors.push(
            invalid_parameter(
                "Failed to deserialize query string: limit must be between 1 and 100",
            ),
        );
    }
    assert(details_view(errors@) =~= pagination_problems(*pagination));
    if errors.len() > 0 {
        return Err(ErrorResponse::validation_error("Invalid parameters".to_owned(), errors.as_slice()));
    }
    let clients_page = state.get_connected_clients(
        PageRequest::new(pagination.offset, pagination.limit),
    );
    let ghost clients = page_of_clients(
        state.clients(),
        pagination.offset as int,
        pagination.limit as int,
    );
    let items = clients_page.items();
    let mut dtos: Vec<ClientInPageDto> = Vec::new();
    let mut i: usize = 0;
    while i < items.len()
        invariant
            client_entries_view(items@) == clients,
            i <= items@.len(),
            dtos@.map_values(|d: ClientInPageDto| client_in_page_view(d)) == clients.take(
                i as int,
            ).map_values(|e: (Seq<char>, ClientInfo)| client_in_page(e)),
        decreases items@.len() - i,
    {
        let mut link = "http://localhost:10001/api/clients/".to_owned();
        link.append(items[i].0.as_str());
        let dto = ClientInPageDto { id: items[i].0.as_str().to_owned(), since: items[i].1.since, link };
        let ghost before = dtos@.map_values(|d: ClientInPageDto| client_in_page_view(d));
        dtos.push(dto);
        proof {
            assert(clients[i as int] == (items@[i as int].0@, items@[i as int].1));
            assert(clients.take(i + 1).map_values(|e: (Seq<char>, ClientInfo)| client_in_page(e))
                =~= clients.take(i as int).map_values(
                |e: (Seq<char>, ClientInfo)| client_in_page(e),
            ).push(client_in_page(clients[i as int])));
            assert(dtos@.map_values(|d: ClientInPageDto| client_in_page_view(d)) =~= before.push(
                client_in_page(clients[i as int]),
            ));
        }
        i += 1;
    }
    assert(clients.take(i as int) =~= clients);
    let total_elements = clients_page.total_count();
    let total_pages = if total_elements == 0 {
        0
    } else {
        (total_elements - 1) / pagination.limit + 1
    };
    let page = Page::new(
        dtos.as_slice(),
        pagination.offset,
        pagination.limit,
        total_elements,
        total_pages,
    );
    proof {
        assert forall|j: int| 0 <= j < dtos@.len() implies page.content@[j] == dtos@[j] by {
            assert(cloned(dtos@[j], page.content@[j]));
        }
        assert(page.content@ =~= dtos@);
    }
    let base = "http://localhost:10001/api/clients";
    proof {
        reveal_strlit("http://localhost:10001/api/clients");
    }
    Ok(page.with_pagination_links(base))
}

/// The details of a connected client.
#[derive(Debug)]
pub struct ClientDto {
    pub id: String,
    /// When the client registered.
    pub since: UtcTimestamp,
    /// Nanoseconds since the client was last seen.
    pub last_seen: u128,
    /// The queries the client answers.
    pub query_handlers: Vec<String>,
}

/// The texts of a list of strings.
pub open spec fn strings_view(s: Seq<String>) -> Seq<Seq<char>> {
    s.map_values(|x: String| x@)
}

/// The message of an unknown client.
pub open spec fn client_not_found_text(id: Seq<char>) -> Seq<char> {
    "Client with id "@ + id + " not found"@
}

/// The answer to a request for the details of client `client_id` at `now`:
/// refused when the id is not valid, not found when the client is not
/// connected, else its registration time, how long ago it was seen and the
/// queries it answers.
pub fn client_details_response(client_id: &str, state: &State, now: u128) -> (r: Result<
    ClientDto,
    ErrorResponse,
>)
    requires
        state.wf(),
    ensures
        !client_id_is_valid(client_id@) ==> match r {
            Err(e) => {
                &&& e.code == BAD_REQUEST
                &&& e.message@ == "Invalid client id"@
                &&& details_view(e.errors@) == seq![
                    ("invalid parameter"@, client_id_rejection(client_id@), "path"@),
                ]
            },
            Ok(_) => false,
        },
        client_id_is_valid(client_id@) ==> match client_info(state.clients(), client_id@) {
            None => match r {
                Err(e) => {
                    &&& e.code == BAD_REQUEST
                    &&& e.message@ == client_not_found_text(client_id@)
                    &&& details_view(e.errors@) == seq![
                        ("notFound"@, client_not_found_text(client_id@), "path"@),
                    ]
                },
                Ok(_) => false,
            },
            Some(info) => match r {
                Ok(d) => {
                    &&& d.id@ == client_id@
                    &&& d.since == info.since
                    &&& d.last_seen == elapsed_nanos(now, info.last_seen)
                    &&& strings_view(d.query_handlers@) == queries_of_client(
                        state.handlers(),
                        client_id@,
                    )
                },
                Err(_) => false,
            },
        },
{
    let id = match ClientId::new(client_id) {
        Err(err) => {
            let detail = ErrorDetail::new("invalid parameter".to_owned(), err.0, "path".to_owned());
            let mut errors: Vec<ErrorDetail> = Vec::new();
            errors.push(detail);
            assert(details_view(errors@) =~= seq![
                ("invalid parameter"@, client_id_rejection(client_id@), "path"@),
            ]);
            return Err(ErrorResponse::validation_error("Invalid client id".to_owned(), errors.as_slice()));
        },
        Ok(id) => id,
    };
    match state.get_client_by_id(&id) {
        None => {
            let mut message = "Client with id ".to_owned();
            message.append(id.as_str());
            message.append(" not found");
            let detail = ErrorDetail::new("notFound".to_owned(), message.clone(), "path".to_owned());
            let mut errors: Vec<ErrorDetail> = Vec::new();
            errors.push(detail);
            assert(details_view(errors@) =~= seq![
                ("notFound"@, client_not_found_text(client_id@), "path"@),
            ]);
            Err(ErrorResponse::not_found(message, errors.as_slice()))
        },
        Some(info) => {
            let queries = state.get_query_handlers_for_client_id(&id);
            let mut names: Vec<String> = Vec::new();
            let mut i: usize = 0;
            while i < queries.len()
                invariant
                    i <= queries@.len(),
                    strings_view(names@) == query_ids_view(queries@).take(i as int),
                decreases queries@.len() - i,
            {
                let ghost before = strings_view(names@);
                names.push(queries[i].as_str().to_owned());
                assert(strings_view(names@) =~= before.push(queries@[i as int]@));
                assert(query_ids_view(queries@).take(i + 1) =~= query_ids_view(queries@).take(
                    i as int,
                ).push(queries@[i as int]@));
                i += 1;
            }
            assert(query_ids_view(queries@).take(i as int) =~= query_ids_view(queries@));
            Ok(
                ClientDto {
                    id: id.as_str().to_owned(),
                    since: info.since,
                    last_seen: elapsed(now, info.last_seen),
                    query_handlers: names,
                },
            )
        },
    }
}

/// The version control facts of the build.
#[derive(Debug, Clone, PartialEq, Eq)]
pub struct GitInfoDto {
    pub branch: String,
    pub commit_id: String,
}

/// What the server says about itself.
#[derive(Debug, Clone, PartialEq, Eq)]
pub struct AppInfo {
    pub name: String,
    pub version: String,
    pub environment: String,
    pub git_info: GitInfoDto,
}

impl AppInfo {
    /// The description of the server from its settings and build facts.
    pub fn from_config(cfg: &Config, branch: String, commit_id: String) -> (r: Self)
        ensures
            r.name@ == cfg@.app_name,
            r.version@ == cfg@.app_version,
            r.environment@ == cfg@.environment,
            r.git_info.branch == branch,
            r.git_info.commit_id == commit_id,
    {
        AppInfo {
            name: cfg.app_name().to_owned(),
            version: cfg.app_version().to_owned(),
            environment: cfg.environment().to_owned(),
            git_info: GitInfoDto { branch, commit_id },
        }
    }
}

} // verus!
