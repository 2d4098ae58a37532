use request_counter::reply::{ContentType, Reply};

#[test]
fn an_html_reply_holds_its_body() {
    let reply = Reply::html(String::from("<p>hello</p>"));
    assert_eq!(reply.content_type, ContentType::Html);
    assert_eq!(reply.body, "<p>hello</p>");
}

#[test]
fn a_plain_reply_holds_its_body() {
    let reply = Reply::plain(String::from("hello"));
    assert_eq!(reply.content_type, ContentType::PlainText);
    assert_eq!(reply.body, "hello");
}
