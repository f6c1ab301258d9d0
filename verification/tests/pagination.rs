use revent::rest::{
    clients_page_response, default_limit, default_offset, Page, Pagination, BAD_REQUEST,
};
use revent::ids::ClientId;
use revent::messages::{ClientMessage, RegisterClientMessage};
use revent::source_events::UtcTimestamp;
use revent::state::{MessageOutcome, PageRequest, State};
use revent::text::decimal_string;

#[test]
fn test_pagination_link_generation() {
    let page: Page<String> = Page::new(&[], 0, 20, 100, 5).with_pagination_links("/api/clients");

    // First page, should have next but no prev
    assert!(page.next.is_some(), "first page should have next link");
    assert!(page.prev.is_none(), "first page should not have prev link");
    assert_eq!(page.next.unwrap(), "/api/clients?offset=20&limit=20");
}

#[test]
fn test_pagination_link_middle_page() {
    let page: Page<String> = Page::new(&[], 20, 20, 100, 5).with_pagination_links("/api/clients");

    // Middle page, should have both prev and next
    assert!(page.next.is_some(), "middle page should have next link");
    assert!(page.prev.is_some(), "middle page should have prev link");
    assert_eq!(page.prev.unwrap(), "/api/clients?offset=0&limit=20");
    assert_eq!(page.next.unwrap(), "/api/clients?offset=40&limit=20");
}

#[test]
fn test_pagination_link_last_page() {
    let page: Page<String> = Page::new(&[], 80, 20, 100, 5).with_pagination_links("/api/clients");

    // Last page, should have prev but no next
    assert!(page.next.is_none(), "last page should not have next link");
    assert!(page.prev.is_some(), "last page should have prev link");
    assert_eq!(page.prev.unwrap(), "/api/clients?offset=60&limit=20");
}

#[test]
fn pagination_prev_link_does_not_go_below_zero() {
    let page: Page<String> = Page::new(&[], 5, 20, 100, 5).with_pagination_links("/x");
    assert_eq!(page.prev.unwrap(), "/x?offset=0&limit=20");
    assert_eq!(page.next.unwrap(), "/x?offset=25&limit=20");
}

#[test]
fn page_new_copies_content_and_counts_it() {
    let page = Page::new(&["a".to_string(), "b".to_string()], 3, 4, 9, 3);
    assert_eq!(page.content, vec!["a".to_string(), "b".to_string()]);
    assert_eq!(page.size, 2);
    assert_eq!(page.offset, 3);
    assert_eq!(page.limit, 4);
    assert_eq!(page.total_elements, 9);
    assert_eq!(page.total_pages, 3);
    assert!(page.next.is_none() && page.prev.is_none());
}

#[test]
fn decimal_rendering_matches_to_string() {
    for n in [0usize, 7, 10, 99, 100, 12345, usize::MAX] {
        assert_eq!(decimal_string(n), n.to_string());
    }
}

#[test]
fn pagination_defaults() {
    assert_eq!(default_offset(), 0);
    assert_eq!(default_limit(), 20);
}

fn register(state: &mut State, id: &str, now: u128) {
    let msg = RegisterClientMessage::new(ClientId::new(id).expect("valid client id"), &[]);
    let outcome = state.handle_message(&ClientMessage::RegisterClient(msg), now);
    let MessageOutcome::ReplyToSession(_) = outcome else {
        panic!("a registration is answered on its session")
    };
    let msg = RegisterClientMessage::new(ClientId::new(id).expect("valid client id"), &[]);
    state.registration_sent(&msg, true, now, UtcTimestamp { seconds: 100, nanos: 5 });
}

#[test]
fn clients_page_lists_clients_with_links() {
    let mut state = State::new();
    register(&mut state, "client-2", 1);
    register(&mut state, "client-1", 2);
    register(&mut state, "client-3", 3);
    let page = clients_page_response(&Pagination { offset: 1, limit: 1 }, &state)
        .expect("valid paging");
    assert_eq!(page.total_elements, 3);
    assert_eq!(page.total_pages, 3);
    assert_eq!(page.size, 1);
    assert_eq!(page.content.len(), 1);
    assert_eq!(page.content[0].id, "client-2");
    assert_eq!(page.content[0].link, "http://localhost:10001/api/clients/client-2");
    assert_eq!(page.content[0].since, UtcTimestamp { seconds: 100, nanos: 5 });
    assert_eq!(
        page.prev.as_deref(),
        Some("http://localhost:10001/api/clients?offset=0&limit=1")
    );
    assert_eq!(
        page.next.as_deref(),
        Some("http://localhost:10001/api/clients?offset=2&limit=1")
    );
}

#[test]
fn clients_page_counts_pages_by_rounding_up() {
    let mut state = State::new();
    for id in ["aaa", "bbb", "ccc", "ddd", "eee"] {
        register(&mut state, id, 1);
    }
    let page = clients_page_response(&Pagination { offset: 0, limit: 2 }, &state).expect("valid");
    assert_eq!(page.total_pages, 3);
    let empty = State::new();
    let page = clients_page_response(&Pagination { offset: 0, limit: 2 }, &empty).expect("valid");
    assert_eq!(page.total_pages, 0);
    assert!(page.content.is_empty());
}

#[test]
fn clients_page_refuses_bad_paging_with_every_problem() {
    let state = State::new();
    let err = clients_page_response(&Pagination { offset: 100_001, limit: 0 }, &state)
        .expect_err("refused");
    assert_eq!(err.code, BAD_REQUEST);
    assert_eq!(err.message, "Invalid parameters");
    assert_eq!(err.errors.len(), 2);
    assert_eq!(err.errors[0].reason, "invalidParameters");
    assert_eq!(
        err.errors[0].message,
        "Failed to deserialize query string: offset must be <= 100000"
    );
    assert_eq!(err.errors[0].location_type, "query");
    assert_eq!(
        err.errors[1].message,
        "Failed to deserialize query string: limit must be between 1 and 100"
    );
    let err = clients_page_response(&Pagination { offset: 0, limit: 101 }, &state)
        .expect_err("refused");
    assert_eq!(err.errors.len(), 1);
    assert!(clients_page_response(&Pagination { offset: 100_000, limit: 100 }, &state).is_ok());
}

#[test]
fn page_request_getters() {
    let r = PageRequest::new(4, 7);
    assert_eq!(r.page(), 4);
    assert_eq!(r.offset(), 7);
}
