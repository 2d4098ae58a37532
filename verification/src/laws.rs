//! What holds of the service whatever is asked of it, and in whatever order.
//!
//! Requests that arrive together are served one at a time, in an order that
//! the callers do not choose. The laws below are stated of every order, so
//! they hold of the one that comes about.

use crate::decimal::{int_text, lemma_text_reads_back, parse_text};
use crate::reply::{added_body, html_reply, invalid_number_body, plain_reply, CAT_PAGE};
use crate::service::{counter_change, next_state, reply_to, AppStateView, RequestView};
use vstd::prelude::*;

verus! {

/// The state after `requests` were served in `state`, one after the other,
/// the first of them first.
pub open spec fn state_after(state: AppStateView, requests: Seq<RequestView>) -> AppStateView
    decreases requests.len(),
{
    if requests.len() == 0 {
        state
    } else {
        next_state(state_after(state, requests.drop_last()), requests.last())
    }
}

/// By how much serving all of `requests` changes the counter.
pub open spec fn total_change(requests: Seq<RequestView>) -> int
    decreases requests.len(),
{
    if requests.len() == 0 {
        0
    } else {
        total_change(requests.drop_last()) + counter_change(requests.last())
    }
}

/// Whether `request` asks for the greeting or for the number of the request.
pub open spec fn counts_one(request: RequestView) -> bool {
    request is Index || request is Counter
}

/// Whether `request` asks to add a number whose text is the text of a number.
pub open spec fn adds_number(request: RequestView) -> bool {
    request matches RequestView::CounterAdd { number } && parse_text(number) is Ok
}

/// Serving requests never changes the name of the application, and changes
/// the counter by the sum of what each request changes it by: no change is
/// lost.
pub proof fn lemma_no_change_is_lost(state: AppStateView, requests: Seq<RequestView>)
    ensures
        state_after(state, requests).app_name == state.app_name,
        state_after(state, requests).counter == state.counter + total_change(requests),
    decreases requests.len(),
{
    if requests.len() > 0 {
        lemma_no_change_is_lost(state, requests.drop_last());
    }
}

/// How many of `requests` ask for the greeting or for the number of the
/// request.
pub open spec fn counted(requests: Seq<RequestView>) -> nat
    decreases requests.len(),
{
    if requests.len() == 0 {
        0
    } else if counts_one(requests.last()) {
        counted(requests.drop_last()) + 1
    } else {
        counted(requests.drop_last())
    }
}

/// While nobody asks to add a number, the counter grows by one for each
/// request for the greeting or for the number of the request, and by nothing
/// else: after requests of these two kinds alone, it has grown by their
/// number.
pub proof fn lemma_every_request_is_counted(state: AppStateView, requests: Seq<RequestView>)
    requires
        forall|i: int| 0 <= i < requests.len() ==> !(#[trigger] requests[i] is CounterAdd),
    ensures
        state_after(state, requests).counter == state.counter + counted(requests),
        (forall|i: int| 0 <= i < requests.len() ==> counts_one(#[trigger] requests[i]))
            ==> state_after(state, requests).counter == state.counter + requests.len(),
    decreases requests.len(),
{
    if requests.len() > 0 {
        let earlier = requests.drop_last();
        assert forall|i: int| 0 <= i < earlier.len() implies !(#[trigger] earlier[i]
            is CounterAdd) by {
            assert(earlier[i] == requests[i]);
        }
        lemma_every_request_is_counted(state, earlier);
        assert(!(requests[requests.len() - 1] is CounterAdd));
        if forall|i: int| 0 <= i < requests.len() ==> counts_one(#[trigger] requests[i]) {
            assert forall|i: int| 0 <= i < earlier.len() implies counts_one(
                #[trigger] earlier[i],
            ) by {
                assert(earlier[i] == requests[i]);
            }
            assert(counts_one(requests[requests.len() - 1]));
        }
    }
}

/// The number that the request at place `i` of `requests` is given when they
/// are served in `state`, one after the other: what the counter holds once
/// that request was served.
pub open spec fn number_given(state: AppStateView, requests: Seq<RequestView>, i: int) -> int {
    next_state(state_after(state, requests.take(i)), requests[i]).counter
}

/// Among requests for the greeting or for the number of the request, each is
/// given the number of its place, counted on from what the counter held: no
/// two of them find the same counter, and no two are given the same number.
pub proof fn lemma_each_request_gets_its_own_number(
    state: AppStateView,
    requests: Seq<RequestView>,
    i: int,
    j: int,
)
    requires
        forall|k: int| 0 <= k < requests.len() ==> counts_one(#[trigger] requests[k]),
        0 <= i < requests.len(),
        0 <= j < requests.len(),
    ensures
        state_after(state, requests.take(i)).counter == state.counter + i,
        number_given(state, requests, i) == state.counter + i + 1,
        i != j ==> number_given(state, requests, i) != number_given(state, requests, j),
{
    lemma_counting_prefix(state, requests, i);
    lemma_counting_prefix(state, requests, j);
    assert(counts_one(requests[i]));
    assert(counts_one(requests[j]));
}

/// Before the request at place `n`, among requests for the greeting or for
/// the number of the request, the counter has grown by `n`.
proof fn lemma_counting_prefix(state: AppStateView, requests: Seq<RequestView>, n: int)
    requires
        forall|k: int| 0 <= k < requests.len() ==> counts_one(#[trigger] requests[k]),
        0 <= n <= requests.len(),
    ensures
        state_after(state, requests.take(n)).counter == state.counter + n,
{
    let before = requests.take(n);
    assert forall|k: int| 0 <= k < before.len() implies counts_one(#[trigger] before[k]) by {
        assert(before[k] == requests[k]);
    }
    lemma_every_request_is_counted(state, before);
}

/// The state that requests leave does not depend on the order in which they
/// were served.
pub proof fn lemma_order_does_not_matter(
    state: AppStateView,
    one_order: Seq<RequestView>,
    other_order: Seq<RequestView>,
)
    requires
        one_order.to_multiset() == other_order.to_multiset(),
    ensures
        state_after(state, one_order) == state_after(state, other_order),
{
    let serve = |s: AppStateView, r: RequestView| next_state(s, r);
    lemma_state_after_is_fold(state, one_order);
    lemma_state_after_is_fold(state, other_order);
    assert(vstd::seq_lib::commutative_foldl(serve)) by {
        assert forall|x: RequestView, y: RequestView, s: AppStateView| #[trigger]
            serve(serve(s, x), y) == serve(serve(s, y), x) by {}
    }
    vstd::seq_lib::lemma_fold_left_permutation(one_order, other_order, serve, state);
}

/// Serving requests one after the other is folding `next_state` over them.
proof fn lemma_state_after_is_fold(state: AppStateView, requests: Seq<RequestView>)
    ensures
        state_after(state, requests) == requests.fold_left(
            state,
            |s: AppStateView, r: RequestView| next_state(s, r),
        ),
    decreases requests.len(),
{
    if requests.len() > 0 {
        lemma_state_after_is_fold(state, requests.drop_last());
    }
}

/// Asking to add the number `k`, written as its decimal text, to a counter
/// that holds `state.counter` leaves the counter at the sum of the two, and
/// the reply reports `k` and that sum.
pub proof fn lemma_adding_a_number(state: AppStateView, k: int)
    requires
        i32::MIN <= k <= i32::MAX,
    ensures
        ({
            let request = RequestView::CounterAdd { number: int_text(k) };
            &&& next_state(state, request).counter == state.counter + k
            &&& next_state(state, request).app_name == state.app_name
            &&& reply_to(state, request) == plain_reply(added_body(k, state.counter + k))
        }),
{
    lemma_text_reads_back(k);
}

/// Asking to add a text that is not the text of a number leaves the state
/// as it was, and the reply says why the text was not taken.
pub proof fn lemma_rejected_text_changes_nothing(state: AppStateView, number: Seq<char>)
    requires
        parse_text(number) is Err,
    ensures
        ({
            let request = RequestView::CounterAdd { number };
            &&& next_state(state, request) == state
            &&& reply_to(state, request) == plain_reply(
                invalid_number_body(parse_text(number)->Err_0),
            )
        }),
{
}

/// Only three things change the counter: the greeting and the number of the
/// request, each by one, and adding a number, by that number. The page that
/// never changes, and a text that is not taken as a number, leave the state
/// as it was. Nothing changes the name of the application.
pub proof fn lemma_what_changes_the_counter(state: AppStateView, request: RequestView)
    ensures
        next_state(state, request).app_name == state.app_name,
        counts_one(request) ==> next_state(state, request).counter == state.counter + 1,
        !counts_one(request) && !adds_number(request) ==> next_state(state, request) == state,
        next_state(state, request).counter != state.counter ==> counts_one(request)
            || adds_number(request),
{
}

/// The page that never changes is the same whatever was served before it,
/// and serving it leaves the state as it was.
pub proof fn lemma_page_never_changes(
    state: AppStateView,
    before: Seq<RequestView>,
)
    ensures
        reply_to(state_after(state, before), RequestView::Cat) == html_reply(CAT_PAGE@),
        state_after(state, before.push(RequestView::Cat)) == state_after(state, before),
{
    assert(before.push(RequestView::Cat).drop_last() == before);
}

} // verus!
