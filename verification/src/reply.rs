//! Replies: what a handler hands back, and the text of each body.

use crate::decimal::{int_text, push_i32, NumberError};
use vstd::prelude::*;

verus! {

/// The page that is served as it stands, whatever the counter holds.
pub const CAT_PAGE: &'static str = "<!DOCTYPE html>\n\
<html lang=\"en\">\n\
<head>\n\
<meta charset=\"utf-8\">\n\
<title>Cat</title>\n\
</head>\n\
<body>\n\
<h1>Cat</h1>\n\
<pre>\n /\\_/\\\n( o.o )\n > ^ <\n</pre>\n\
<p>This page never changes.</p>\n\
</body>\n\
</html>\n";

/// The kind of text that a body holds.
#[derive(Clone, Copy, Debug, PartialEq, Eq, Structural)]
pub enum ContentType {
    /// An HTML document.
    Html,
    /// Plain text.
    PlainText,
}

impl ContentType {
    /// The value of the content type header for this kind of body.
    pub open spec fn header_text(self) -> Seq<char> {
        match self {
            ContentType::Html => "text/html; charset=utf-8"@,
            ContentType::PlainText => "text/plain; charset=utf-8"@,
        }
    }

    /// The value of the content type header for this kind of body.
    pub fn header(&self) -> (value: &'static str)
        ensures
            value@ == self.header_text(),
    {
        match self {
            ContentType::Html => "text/html; charset=utf-8",
            ContentType::PlainText => "text/plain; charset=utf-8",
        }
    }
}

/// A reply: a body and the kind of text it holds. Every reply reports
/// success; a request that could not be served says so in its body.
#[derive(Debug)]
pub struct Reply {
    pub content_type: ContentType,
    pub body: String,
}

/// A reply as a value: the kind of its body, and the body as characters.
pub struct ReplyView {
    pub content_type: ContentType,
    pub body: Seq<char>,
}

impl View for Reply {
    type V = ReplyView;

    open spec fn view(&self) -> ReplyView {
        ReplyView { content_type: self.content_type, body: self.body@ }
    }
}

/// The reply whose body is the HTML document `body`.
pub open spec fn html_reply(body: Seq<char>) -> ReplyView {
    ReplyView { content_type: ContentType::Html, body }
}

/// The reply whose body is the plain text `body`.
pub open spec fn plain_reply(body: Seq<char>) -> ReplyView {
    ReplyView { content_type: ContentType::PlainText, body }
}

impl Reply {
    /// The reply whose body is the HTML document `body`.
    pub fn html(body: String) -> (reply: Reply)
        ensures
            reply@ == html_reply(body@),
    {
        Reply { content_type: ContentType::Html, body }
    }

    /// The reply whose body is the plain text `body`.
    pub fn plain(body: String) -> (reply: Reply)
        ensures
            reply@ == plain_reply(body@),
    {
        Reply { content_type: ContentType::PlainText, body }
    }
}

impl NumberError {
    /// The sentence that describes this error.
    pub open spec fn description(self) -> Seq<char> {
        match self {
            NumberError::Empty => "cannot parse integer from empty string"@,
            NumberError::InvalidDigit => "invalid digit found in string"@,
            NumberError::PosOverflow => "number too large to fit in target type"@,
            NumberError::NegOverflow => "number too small to fit in target type"@,
        }
    }

    /// The sentence that describes this error.
    pub fn message(&self) -> (text: &'static str)
        ensures
            text@ == self.description(),
    {
        match self {
            NumberError::Empty => "cannot parse integer from empty string",
            NumberError::InvalidDigit => "invalid digit found in string",
            NumberError::PosOverflow => "number too large to fit in target type",
            NumberError::NegOverflow => "number too small to fit in target type",
        }
    }
}

/// The greeting: the name of the application and the number of the request.
pub open spec fn greeting_body(app_name: Seq<char>, count: int) -> Seq<char> {
    "Hey there, <b>"@ + app_name + "</b>!<br/>Request number: "@ + int_text(count) + "."@
}

/// The body that reports the number of the request.
pub open spec fn count_body(count: int) -> Seq<char> {
    "Request number: "@ + int_text(count)
}

/// The body that reports what was added and the number reached.
pub open spec fn added_body(added: int, count: int) -> Seq<char> {
    "Added: "@ + int_text(added) + "\nRequest number: "@ + int_text(count)
}

/// The body that reports why a text was not taken as a number.
pub open spec fn invalid_number_body(error: NumberError) -> Seq<char> {
    "Invalid number! ('"@ + error.description() + "')"@
}

/// Writes the greeting for `app_name` and the request numbered `count`.
pub fn greeting(app_name: &str, count: i32) -> (body: String)
    ensures
        body@ == greeting_body(app_name@, count as int),
{
    let mut body = String::new();
    body.append("Hey there, <b>");
    body.append(app_name);
    body.append("</b>!<br/>Request number: ");
    push_i32(&mut body, count);
    body.append(".");
    body
}

/// Writes the body that reports the request numbered `count`.
pub fn count_report(count: i32) -> (body: String)
    ensures
        body@ == count_body(count as int),
{
    let mut body = String::new();
    body.append("Request number: ");
    push_i32(&mut body, count);
    body
}

/// Writes the body that reports that `added` was added and `count` reached.
pub fn added_report(added: i32, count: i32) -> (body: String)
    ensures
        body@ == added_body(added as int, count as int),
{
    let mut body = String::new();
    body.append("Added: ");
    push_i32(&mut body, added);
    body.append("\nRequest number: ");
    push_i32(&mut body, count);
    body
}

/// Writes the body that reports `error`.
pub fn invalid_number_report(error: NumberError) -> (body: String)
    ensures
        body@ == invalid_number_body(error),
{
    let mut body = String::new();
    body.append("Invalid number! ('");
    body.append(error.message());
    body.append("')");
    body
}

} // verus!
