//! The walk through the pages of a listing.
//!
//! The engine is a state machine. Whoever holds the browser session performs
//! each action it asks for and reports back with an event:
//!
//! ```text
//! Ready --Proceed--> Extracting --Extracted(more)--> Advancing --Advanced--> Ready
//!                               --Extracted(last)--> Done
//! ```
//!
//! A failure of the transport, or an event that does not fit the state, ends
//! the walk at once. `Done` is final: nothing an event can say leaves it, and
//! no page is extracted from it.

use vstd::prelude::*;

verus! {

/// Where the walk stands.
#[derive(Clone, Copy, Debug, PartialEq, Eq, Structural)]
pub enum PaginationState {
    /// A page is on display and has not been extracted.
    Ready,
    /// The rows of the current page are being extracted and emitted.
    Extracting,
    /// The control that leads to the next page is being clicked.
    Advancing,
    /// The walk is over.
    Done,
}

/// What the session reports.
#[derive(Clone, Copy, Debug, PartialEq, Eq, Structural)]
pub enum PageEvent {
    /// The page on display has settled and may be extracted.
    Proceed,
    /// The current page was extracted and its batch emitted; `has_next` says
    /// whether the pagination control offers a further page.
    Extracted { has_next: bool },
    /// The click that leads to the next page went through.
    Advanced,
    /// A wait, a click or a read failed.
    Failed,
}

/// What the session is to do next.
#[derive(Clone, Copy, Debug, PartialEq, Eq, Structural)]
pub enum PageAction {
    /// Wait for the pagination control, collect the rows, emit their batch and
    /// look for a next page; then report `Extracted`.
    ExtractPage,
    /// Click the control that leads to the next page; then report `Advanced`.
    ClickNext,
    /// Let the page settle; then report `Proceed`.
    Settle,
    /// The last page was extracted: finish with success.
    Finish,
    /// Give up: the scrape has failed. Batches already emitted stay valid.
    Abort,
    /// The walk was over already: do nothing.
    Nothing,
}

/// The state that follows `state` on `event`.
pub open spec fn next_state(state: PaginationState, event: PageEvent) -> PaginationState {
    match (state, event) {
        (PaginationState::Ready, PageEvent::Proceed) => PaginationState::Extracting,
        (PaginationState::Extracting, PageEvent::Extracted { has_next: true }) => {
            PaginationState::Advancing
        },
        (PaginationState::Advancing, PageEvent::Advanced) => PaginationState::Ready,
        _ => PaginationState::Done,
    }
}

/// The action that `event` calls for in `state`.
pub open spec fn next_action(state: PaginationState, event: PageEvent) -> PageAction {
    match (state, event) {
        (PaginationState::Done, _) => PageAction::Nothing,
        (PaginationState::Ready, PageEvent::Proceed) => PageAction::ExtractPage,
        (PaginationState::Extracting, PageEvent::Extracted { has_next: true }) => {
            PageAction::ClickNext
        },
        (PaginationState::Extracting, PageEvent::Extracted { has_next: false }) => {
            PageAction::Finish
        },
        (PaginationState::Advancing, PageEvent::Advanced) => PageAction::Settle,
        _ => PageAction::Abort,
    }
}

/// One step of the walk.
pub fn step(state: PaginationState, event: PageEvent) -> (r: (PaginationState, PageAction))
    ensures
        r.0 == next_state(state, event),
        r.1 == next_action(state, event),
{
    match state {
        PaginationState::Done => (PaginationState::Done, PageAction::Nothing),
        PaginationState::Ready => match event {
            PageEvent::Proceed => (PaginationState::Extracting, PageAction::ExtractPage),
            _ => (PaginationState::Done, PageAction::Abort),
        },
        PaginationState::Extracting => match event {
            PageEvent::Extracted { has_next } => if has_next {
                (PaginationState::Advancing, PageAction::ClickNext)
            } else {
                (PaginationState::Done, PageAction::Finish)
            },
            _ => (PaginationState::Done, PageAction::Abort),
        },
        PaginationState::Advancing => match event {
            PageEvent::Advanced => (PaginationState::Ready, PageAction::Settle),
            _ => (PaginationState::Done, PageAction::Abort),
        },
    }
}

/// The state in which every walk starts.
pub fn start() -> (s: PaginationState)
    ensures
        s == PaginationState::Ready,
{
    PaginationState::Ready
}

/// The state after the first `n` of `events`, starting from `Ready`.
pub open spec fn state_after(events: Seq<PageEvent>, n: int) -> PaginationState
    decreases n,
{
    if n <= 0 {
        PaginationState::Ready
    } else {
        next_state(state_after(events, n - 1), events[n - 1])
    }
}

/// The action taken on event number `n`.
pub open spec fn action_at(events: Seq<PageEvent>, n: int) -> PageAction {
    next_action(state_after(events, n), events[n])
}

/// Event number `n` takes the walk from another state into `Done`.
pub open spec fn enters_done(events: Seq<PageEvent>, n: int) -> bool {
    &&& state_after(events, n) != PaginationState::Done
    &&& state_after(events, n + 1) == PaginationState::Done
}

/// `Done` is final.
pub proof fn lemma_done_is_final(event: PageEvent)
    ensures
        next_state(PaginationState::Done, event) == PaginationState::Done,
        next_action(PaginationState::Done, event) == PageAction::Nothing,
{
}

/// Once a walk is `Done` it stays so.
pub proof fn lemma_done_stays(events: Seq<PageEvent>, i: int, j: int)
    requires
        0 <= i <= j,
        state_after(events, i) == PaginationState::Done,
    ensures
        state_after(events, j) == PaginationState::Done,
    decreases j - i,
{
    if i < j {
        lemma_done_stays(events, i, j - 1);
    }
}

/// A walk enters `Done` at most once.
pub proof fn lemma_enters_done_once(events: Seq<PageEvent>, i: int, j: int)
    requires
        0 <= i,
        0 <= j,
        enters_done(events, i),
        enters_done(events, j),
    ensures
        i == j,
{
    if i < j {
        lemma_done_stays(events, i + 1, j);
    } else if j < i {
        lemma_done_stays(events, j + 1, i);
    }
}

/// A walk that is `Done` after `n` events entered `Done` at exactly one of
/// them.
pub proof fn lemma_done_was_entered(events: Seq<PageEvent>, n: int) -> (i: int)
    requires
        0 <= n,
        state_after(events, n) == PaginationState::Done,
    ensures
        0 <= i < n,
        enters_done(events, i),
        forall|j: int| 0 <= j && enters_done(events, j) ==> j == i,
    decreases n,
{
    let i = if state_after(events, n - 1) == PaginationState::Done {
        lemma_done_was_entered(events, n - 1)
    } else {
        n - 1
    };
    assert forall|j: int| 0 <= j && enters_done(events, j) implies j == i by {
        lemma_enters_done_once(events, i, j);
    }
    i
}

/// After `Done`, no page is extracted and nothing else is asked for.
pub proof fn lemma_nothing_after_done(events: Seq<PageEvent>, i: int, j: int)
    requires
        0 <= i <= j,
        state_after(events, i) == PaginationState::Done,
    ensures
        action_at(events, j) == PageAction::Nothing,
        action_at(events, j) != PageAction::ExtractPage,
{
    lemma_done_stays(events, i, j);
}

/// A page is extracted only from `Ready`, and that leads to `Extracting`.
pub proof fn lemma_extract_only_when_ready(state: PaginationState, event: PageEvent)
    ensures
        next_action(state, event) == PageAction::ExtractPage <==> (state == PaginationState::Ready
            && event == PageEvent::Proceed),
        next_action(state, event) == PageAction::ExtractPage ==> next_state(state, event)
            == PaginationState::Extracting,
{
}

/// The check for a next page ends the walk exactly when it finds none.
pub proof fn lemma_last_page_finishes(has_next: bool)
    ensures
        next_state(PaginationState::Extracting, PageEvent::Extracted { has_next })
            == PaginationState::Done <==> !has_next,
        next_action(PaginationState::Extracting, PageEvent::Extracted { has_next })
            == PageAction::Finish <==> !has_next,
{
}

} // verus!
