//! The state as several threads share it: a lock around it, and one way in.
//!
//! A request is served while the lock is held, from the first look at the
//! counter to the last, and the lock is let go of before the reply is handed
//! back. What a caller can know of the reply is that it is the reply to its
//! request in the state that the call found, whichever that was.

use crate::counter::in_range;
use crate::decimal::parse_text;
use crate::reply::{html_reply, invalid_number_body, plain_reply, Reply, ReplyView, CAT_PAGE};
use crate::service::{
    can_serve, handle, lemma_state_in_range, reply_to, servable, AppStateView,
    AppStateWithCounter, Request, RequestView,
};
use vstd::prelude::*;
use vstd::rwlock::{RwLock, RwLockPredicate};

verus! {

/// What holds of the state whenever nobody holds the lock: the name of the
/// application is the one that the state was made with.
pub struct NameKept {
    pub app_name: Seq<char>,
}

impl RwLockPredicate<AppStateWithCounter> for NameKept {
    open spec fn inv(self, state: AppStateWithCounter) -> bool {
        state@.app_name == self.app_name
    }
}

/// The state of the application behind a lock.
pub struct SharedState {
    lock: RwLock<AppStateWithCounter, NameKept>,
}

/// What serving `request` in `state` gives: the reply, or nothing where the
/// request cannot be served there.
pub open spec fn outcome(state: AppStateView, request: RequestView) -> Option<ReplyView> {
    if servable(state, request) {
        Some(reply_to(state, request))
    } else {
        None
    }
}

/// An optional reply as a value.
pub open spec fn reply_view(reply: Option<Reply>) -> Option<ReplyView> {
    match reply {
        Some(r) => Some(r@),
        None => None,
    }
}

impl SharedState {
    /// The name of the application.
    pub closed spec fn app_name(&self) -> Seq<char> {
        self.lock.pred().app_name
    }

    /// The shared state of an application named `app_name` that has served
    /// nothing.
    pub fn new(app_name: String) -> (shared: SharedState)
        ensures
            shared.app_name() == app_name@,
    {
        let ghost name = app_name@;
        let state = AppStateWithCounter::new(app_name);
        SharedState { lock: RwLock::new(state, Ghost(NameKept { app_name: name })) }
    }

    /// Takes the lock, serves `request` in the state that it finds, leaves
    /// there the state that follows, and lets go of the lock. Gives nothing,
    /// and leaves the state as it was, where the request cannot be served in
    /// the state found.
    ///
    /// Which state the call finds is not for the caller to know: the reply is
    /// the one to its request in some state with this name. For the page
    /// that never changes, and for a text that is not taken as a number,
    /// that is one reply, whatever the state.
    pub fn serve(&self, request: &Request) -> (reply: Option<Reply>)
        ensures
            exists|found: AppStateView|
                found.app_name == self.app_name() && in_range(found.counter)
                    && reply_view(reply) == #[trigger] outcome(found, request@),
            request@ is Cat ==> reply_view(reply) == Some(html_reply(CAT_PAGE@)),
            request@ matches RequestView::CounterAdd { number } ==> (parse_text(number) matches Err(e)
                ==> reply_view(reply) == Some(plain_reply(invalid_number_body(e)))),
    {
        let (mut state, held) = self.lock.acquire_write();
        let ghost found = state@;
        proof {
            lemma_state_in_range(state);
        }
        let reply = if can_serve(&state, request) {
            Some(handle(&mut state, request))
        } else {
            None
        };
        held.release_write(state);
        assert(reply_view(reply) == outcome(found, request@));
        reply
    }
}

} // verus!
