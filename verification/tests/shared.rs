use request_counter::reply::{ContentType, Reply, CAT_PAGE};
use request_counter::service::Request;
use request_counter::shared::SharedState;

fn add(number: &str) -> Request {
    Request::CounterAdd { number: String::from(number) }
}

fn served(shared: &SharedState, request: Request) -> Reply {
    shared.serve(&request).unwrap()
}

#[test]
fn shared_state_counts_from_zero() {
    let shared = SharedState::new(String::from("rust-actix-web"));

    let reply = served(&shared, Request::Index);
    assert_eq!(reply.content_type, ContentType::Html);
    assert_eq!(reply.body, "Hey there, <b>rust-actix-web</b>!<br/>Request number: 1.");

    let reply = served(&shared, Request::Counter);
    assert_eq!(reply.content_type, ContentType::PlainText);
    assert_eq!(reply.body, "Request number: 2");

    let reply = served(&shared, add("5"));
    assert_eq!(reply.content_type, ContentType::PlainText);
    assert_eq!(reply.body, "Added: 5\nRequest number: 7");

    let reply = served(&shared, add("xyz"));
    assert_eq!(reply.content_type, ContentType::PlainText);
    assert_eq!(reply.body, "Invalid number! ('invalid digit found in string')");

    let reply = served(&shared, Request::Counter);
    assert_eq!(reply.body, "Request number: 8");
}

#[test]
fn shared_state_lets_go_of_the_lock_after_each_request() {
    let shared = SharedState::new(String::from("n"));
    let mut asked: i32 = 0;
    while asked < 500 {
        asked += 1;
        let reply = served(&shared, Request::Counter);
        assert_eq!(reply.body, format!("Request number: {}", asked));
    }
}

#[test]
fn shared_state_serves_the_page_and_keeps_counting() {
    let shared = SharedState::new(String::from("n"));
    served(&shared, add("41"));
    let page = served(&shared, Request::Cat);
    assert_eq!(page.content_type, ContentType::Html);
    assert_eq!(page.body, CAT_PAGE);
    assert_eq!(served(&shared, Request::Counter).body, "Request number: 42");
}

#[test]
fn shared_state_gives_nothing_where_the_counter_would_not_fit() {
    let shared = SharedState::new(String::from("n"));
    served(&shared, add("2147483647"));
    assert!(shared.serve(&Request::Index).is_none());
    assert!(shared.serve(&Request::Counter).is_none());
    assert!(shared.serve(&add("1")).is_none());
    // What was refused has changed nothing.
    assert_eq!(served(&shared, add("0")).body, "Added: 0\nRequest number: 2147483647");
    assert_eq!(served(&shared, add("-2147483647")).body, "Added: -2147483647\nRequest number: 0");
    assert_eq!(served(&shared, add("-2147483648")).body, "Added: -2147483648\nRequest number: -2147483648");
    assert!(shared.serve(&add("-1")).is_none());
    assert_eq!(served(&shared, Request::Index).body, "Hey there, <b>n</b>!<br/>Request number: -2147483647.");
}
