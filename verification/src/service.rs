//! The state of the application and the four handlers that serve requests.
//!
//! A handler takes the state by `&mut`: while it runs, nobody else reads or
//! changes the counter, so what it reports is what it left there. It is one
//! step from a state and a request to the next state and a reply, which
//! `next_state` and `reply_to` describe.
//!
//! The counter is an `i32`. A handler asks of its caller that the value it
//! is about to leave there fits; `can_serve` tells whether it does.

use crate::counter::{in_range, lemma_counter_in_range, Counter};
use crate::decimal::{parse_i32, parse_text};
use crate::reply::{
    added_body, added_report, count_body, count_report, greeting, greeting_body, html_reply,
    invalid_number_body, invalid_number_report, plain_reply, Reply, ReplyView, CAT_PAGE,
};
use vstd::prelude::*;

verus! {

/// The state of the application: its name, which never changes, and the
/// counter, which starts at zero.
pub struct AppStateWithCounter {
    app_name: String,
    counter: Counter,
}

/// The state of the application as a value.
pub struct AppStateView {
    pub app_name: Seq<char>,
    pub counter: int,
}

impl View for AppStateWithCounter {
    type V = AppStateView;

    closed spec fn view(&self) -> AppStateView {
        AppStateView { app_name: self.app_name@, counter: self.counter@ }
    }
}

impl AppStateWithCounter {
    /// The state of an application named `app_name` that has served nothing.
    pub fn new(app_name: String) -> (data: AppStateWithCounter)
        ensures
            data@ == (AppStateView { app_name: app_name@, counter: 0 }),
    {
        AppStateWithCounter { app_name, counter: Counter::new() }
    }

    /// The name of the application.
    pub fn app_name(&self) -> (name: &str)
        ensures
            name@ == self@.app_name,
    {
        self.app_name.as_str()
    }

    /// The value that the counter holds.
    pub fn counter(&self) -> (value: i32)
        ensures
            value == self@.counter,
    {
        self.counter.get()
    }
}

/// The counter of every state holds a value of the counter's range.
pub proof fn lemma_state_in_range(data: AppStateWithCounter)
    ensures
        in_range(data@.counter),
{
    lemma_counter_in_range(data.counter);
}

/// A request, by the handler that serves it.
#[derive(Debug)]
pub enum Request {
    /// Asks for the greeting.
    Index,
    /// Asks for the number of the request.
    Counter,
    /// Asks to add the number that `number` is the text of.
    CounterAdd { number: String },
    /// Asks for the page that never changes.
    Cat,
}

/// A request as a value.
pub enum RequestView {
    Index,
    Counter,
    CounterAdd { number: Seq<char> },
    Cat,
}

impl View for Request {
    type V = RequestView;

    open spec fn view(&self) -> RequestView {
        match self {
            Request::Index => RequestView::Index,
            Request::Counter => RequestView::Counter,
            Request::CounterAdd { number } => RequestView::CounterAdd { number: number@ },
            Request::Cat => RequestView::Cat,
        }
    }
}

/// By how much serving `request` changes the counter: by one for the
/// greeting and for the number of the request, by the number asked for where
/// its text is the text of a number, and not at all otherwise.
pub open spec fn counter_change(request: RequestView) -> int {
    match request {
        RequestView::Index => 1,
        RequestView::Counter => 1,
        RequestView::CounterAdd { number } => match parse_text(number) {
            Ok(k) => k as int,
            Err(_) => 0,
        },
        RequestView::Cat => 0,
    }
}

/// The state after `request` was served in `state`.
pub open spec fn next_state(state: AppStateView, request: RequestView) -> AppStateView {
    AppStateView { app_name: state.app_name, counter: state.counter + counter_change(request) }
}

/// The reply to `request` when it is served in `state`.
pub open spec fn reply_to(state: AppStateView, request: RequestView) -> ReplyView {
    let count = next_state(state, request).counter;
    match request {
        RequestView::Index => html_reply(greeting_body(state.app_name, count)),
        RequestView::Counter => plain_reply(count_body(count)),
        RequestView::CounterAdd { number } => match parse_text(number) {
            Ok(k) => plain_reply(added_body(k as int, count)),
            Err(e) => plain_reply(invalid_number_body(e)),
        },
        RequestView::Cat => html_reply(CAT_PAGE@),
    }
}

/// Whether `request` can be served in `state`: whether the counter that it
/// leaves is one that the state can hold.
pub open spec fn servable(state: AppStateView, request: RequestView) -> bool {
    in_range(next_state(state, request).counter)
}

/// The greeting: counts the request and replies with an HTML body that holds
/// the name of the application and the number of the request.
pub fn index(data: &mut AppStateWithCounter) -> (reply: Reply)
    requires
        in_range(old(data)@.counter + 1),
    ensures
        final(data)@.app_name == old(data)@.app_name,
        final(data)@.counter == old(data)@.counter + 1,
        reply@ == html_reply(greeting_body(old(data)@.app_name, old(data)@.counter + 1)),
        final(data)@ == next_state(old(data)@, RequestView::Index),
        reply@ == reply_to(old(data)@, RequestView::Index),
{
    let count = data.counter.increment_and_read();
    Reply::html(greeting(data.app_name.as_str(), count))
}

/// The number of the request: counts the request and replies with a plain
/// body that holds its number.
pub fn manual_counter(data: &mut AppStateWithCounter) -> (body: String)
    requires
        in_range(old(data)@.counter + 1),
    ensures
        final(data)@.app_name == old(data)@.app_name,
        final(data)@.counter == old(data)@.counter + 1,
        body@ == count_body(old(data)@.counter + 1),
        final(data)@ == next_state(old(data)@, RequestView::Counter),
        body@ == reply_to(old(data)@, RequestView::Counter).body,
{
    let count = data.counter.increment_and_read();
    count_report(count)
}

/// Adds to the counter the number that `number` is the text of, and replies
/// with a plain body that holds what was added and the number reached. Where
/// `number` is not the text of a number, the state stays as it is and the
/// body says why the text was not taken.
///
/// Such a body is a reply like any other: that the text was not taken shows
/// in the body alone. A caller that would rather answer with a client error
/// can tell from `parse_i32` whether the text is the text of a number.
pub fn manual_counter_add(data: &mut AppStateWithCounter, number: &str) -> (body: String)
    requires
        parse_text(number@) matches Ok(k) ==> in_range(old(data)@.counter + k),
    ensures
        final(data)@.app_name == old(data)@.app_name,
        parse_text(number@) matches Ok(k) ==> final(data)@.counter == old(data)@.counter + k
            && body@ == added_body(k as int, old(data)@.counter + k),
        parse_text(number@) matches Err(e) ==> final(data)@.counter == old(data)@.counter
            && body@ == invalid_number_body(e),
        final(data)@ == next_state(old(data)@, (RequestView::CounterAdd { number: number@ })),
        body@ == reply_to(old(data)@, (RequestView::CounterAdd { number: number@ })).body,
{
    match parse_i32(number) {
        Ok(k) => {
            let count = data.counter.add_and_read(k);
            added_report(k, count)
        },
        Err(e) => invalid_number_report(e),
    }
}

/// The page that never changes, as an HTML body.
pub fn manual_cat() -> (reply: Reply)
    ensures
        reply@ == html_reply(CAT_PAGE@),
        forall|state: AppStateView| reply@ == #[trigger] reply_to(state, RequestView::Cat),
{
    Reply::html(CAT_PAGE.to_owned())
}

/// Whether `request` can be served in `data`.
pub fn can_serve(data: &AppStateWithCounter, request: &Request) -> (ok: bool)
    ensures
        ok == servable(data@, request@),
{
    proof {
        lemma_counter_in_range(data.counter);
    }
    match request {
        Request::Index => data.counter.can_add(1),
        Request::Counter => data.counter.can_add(1),
        Request::CounterAdd { number } => match parse_i32(number.as_str()) {
            Ok(k) => data.counter.can_add(k),
            Err(_) => true,
        },
        Request::Cat => true,
    }
}

/// Serves `request` with the handler that it names.
pub fn handle(data: &mut AppStateWithCounter, request: &Request) -> (reply: Reply)
    requires
        servable(old(data)@, request@),
    ensures
        final(data)@ == next_state(old(data)@, request@),
        reply@ == reply_to(old(data)@, request@),
{
    match request {
        Request::Index => index(data),
        Request::Counter => Reply::plain(manual_counter(data)),
        Request::CounterAdd { number } => Reply::plain(manual_counter_add(data, number.as_str())),
        Request::Cat => manual_cat(),
    }
}

} // verus!
