//! What a stream does over time: the items that a consumer receives from it,
//! and the page requests that it has open, stated over the transitions of
//! [`crate::cont`].

use crate::cont::{buffered, deliver, pull, resolved, StateView, StepView};
use crate::error::MwError;
use crate::params::FieldView;
use crate::token::Token;
use vstd::prelude::*;

verus! {

/// A page as the stream takes it in: the items that the mapping made of its
/// payload, and its token.
pub type Page<T> = (Seq<T>, Option<Token>);

/// How a page request ends: with a page, or with an error of the transport or
/// of the mapping.
pub type Outcome<T> = Result<Page<T>, MwError>;

/// How many more pulls a state can answer without a response.
pub open spec fn rank<T>(state: StateView<T>) -> nat {
    match state {
        StateView::Values(items, _) => items.len() + 2,
        StateView::Init => 1,
        StateView::Cont(_) => 1,
        StateView::Fut => 0,
        StateView::Done => 0,
    }
}

/// What the pull that waited for a response passes on to the consumer.
pub open spec fn received<T>(out: Option<Result<T, MwError>>) -> Seq<Result<T, MwError>> {
    match out {
        Some(item) => seq![item],
        None => Seq::empty(),
    }
}

/// Everything that a consumer receives who pulls, from `state` on, until the
/// stream says that it has ended.  Each query that the stream hands out is
/// sent at once, and the requests are answered by `outcomes`, one after the
/// other.  How often the consumer pulls while a request is in flight makes no
/// difference: such a pull changes nothing.  Where the outcomes run out while
/// a request waits, nothing more is received.
pub open spec fn drain<T>(state: StateView<T>, base: Seq<FieldView>, outcomes: Seq<Outcome<T>>) -> Seq<
    Result<T, MwError>,
>
    decreases outcomes.len(), rank(state),
{
    let (next, step) = pull(state, base);
    match step {
        StepView::Item(item) => seq![item] + drain(next, base, outcomes),
        StepView::End => Seq::empty(),
        StepView::Send(_) => drain(next, base, outcomes),
        StepView::Pending => {
            if outcomes.len() == 0 {
                Seq::empty()
            } else {
                let (after, out) = resolved(outcomes[0]);
                received(out) + drain(after, base, outcomes.skip(1))
            }
        },
    }
}

/// The given items, each as a success.
pub open spec fn oks<T>(items: Seq<T>) -> Seq<Result<T, MwError>> {
    items.map_values(|item: T| Ok::<T, MwError>(item))
}

/// The given pages, each as the outcome of its request.
pub open spec fn answers<T>(pages: Seq<Page<T>>) -> Seq<Outcome<T>> {
    pages.map_values(|page: Page<T>| Ok::<Page<T>, MwError>(page))
}

/// The items of all pages, page after page.
pub open spec fn all_items<T>(pages: Seq<Page<T>>) -> Seq<T>
    decreases pages.len(),
{
    if pages.len() == 0 {
        Seq::empty()
    } else {
        pages[0].0 + all_items(pages.skip(1))
    }
}

/// The pages of one complete answer: every page but the last has items and a
/// token, the last has no token.
pub open spec fn chained<T>(pages: Seq<Page<T>>) -> bool {
    &&& pages.len() > 0
    &&& forall|i: int|
        0 <= i < pages.len() - 1 ==> (#[trigger] pages[i]).0.len() > 0 && pages[i].1 is Some
    &&& pages.last().1 is None
}

/// A stream with items in hand gives them out in order before anything else.
pub proof fn lemma_buffer_first<T>(
    items: Seq<T>,
    cont: Option<Token>,
    base: Seq<FieldView>,
    outcomes: Seq<Outcome<T>>,
)
    ensures
        drain(buffered(items, cont), base, outcomes) == oks(items) + drain(
            buffered(Seq::<T>::empty(), cont),
            base,
            outcomes,
        ),
    decreases items.len(),
{
    if items.len() == 0 {
        assert(items == Seq::<T>::empty());
        assert(oks(items) == Seq::<Result<T, MwError>>::empty());
    } else {
        lemma_buffer_first(items.skip(1), cont, base, outcomes);
        assert(oks(items) == seq![Ok::<T, MwError>(items[0])] + oks(items.skip(1)));
    }
}

/// While a request is in flight and the pages of a complete answer are on
/// their way, the consumer will receive the items of those pages, in order,
/// and nothing else.
pub proof fn lemma_pages_after_request<T>(base: Seq<FieldView>, pages: Seq<Page<T>>)
    requires
        chained(pages),
    ensures
        drain(StateView::Fut, base, answers(pages)) == oks(all_items(pages)),
    decreases pages.len(),
{
    let items = pages[0].0;
    let cont = pages[0].1;
    let rest = pages.skip(1);
    assert(answers(pages)[0] == Ok::<Page<T>, MwError>(pages[0]));
    assert(answers(pages).skip(1) == answers(rest));
    let (after, out) = deliver(items, cont);
    assert(drain(StateView::Fut, base, answers(pages)) == received(out) + drain(
        after,
        base,
        answers(rest),
    ));
    let tail = drain(buffered(Seq::<T>::empty(), cont), base, answers(rest));
    assert(received(out) + drain(after, base, answers(rest)) == oks(items) + tail) by {
        if items.len() > 0 {
            lemma_buffer_first(items.skip(1), cont, base, answers(rest));
            assert(oks(items) == seq![Ok::<T, MwError>(items[0])] + oks(items.skip(1)));
        } else {
            assert(pages.len() == 1);
            assert(oks(items) == Seq::<Result<T, MwError>>::empty());
        }
    }
    assert(tail == oks(all_items(rest))) by {
        if pages.len() == 1 {
            assert(all_items(rest) == Seq::<T>::empty());
            assert(oks(all_items(rest)) == Seq::<Result<T, MwError>>::empty());
        } else {
            assert forall|i: int| 0 <= i < rest.len() - 1 implies (#[trigger] rest[i]).0.len() > 0
                && rest[i].1 is Some by {
                assert(rest[i] == pages[i + 1]);
            }
            assert(rest.last() == pages.last());
            lemma_pages_after_request(base, rest);
        }
    }
    assert(oks(items) + oks(all_items(rest)) == oks(items + all_items(rest)));
}

/// Order.  Whatever pages make up a complete answer, a consumer of a new
/// stream receives exactly their items, page after page and within each page
/// in the order of the mapping, and then the end of the stream.
pub proof fn lemma_pages_in_order<T>(base: Seq<FieldView>, pages: Seq<Page<T>>)
    requires
        chained(pages),
    ensures
        drain(StateView::Init, base, answers(pages)) == oks(all_items(pages)),
{
    lemma_pages_after_request(base, pages);
}

/// A page without items and without a token ends the stream at once: the
/// consumer receives nothing more, and no error.
pub proof fn lemma_empty_last_page<T>(base: Seq<FieldView>, later: Seq<Outcome<T>>)
    ensures
        drain(
            StateView::Fut,
            base,
            seq![Ok::<Page<T>, MwError>((Seq::<T>::empty(), None::<Token>))] + later,
        ) == Seq::<Result<T, MwError>>::empty(),
{
    let outcomes = seq![Ok::<Page<T>, MwError>((Seq::<T>::empty(), None::<Token>))] + later;
    assert(outcomes[0] == Ok::<Page<T>, MwError>((Seq::<T>::empty(), None::<Token>)));
    assert(resolved(outcomes[0]) == (StateView::<T>::Done, None::<Result<T, MwError>>));
    assert(drain(StateView::<T>::Done, base, outcomes.skip(1)) == Seq::<Result<T, MwError>>::empty());
    assert(drain(StateView::Fut, base, outcomes) == received(None::<Result<T, MwError>>) + drain(
        StateView::<T>::Done,
        base,
        outcomes.skip(1),
    ));
}

/// A page without items that still carries a token breaks the protocol: the
/// consumer receives that one error and then the end of the stream, whatever
/// else the server would have sent.
pub proof fn lemma_empty_page_with_token<T>(
    base: Seq<FieldView>,
    token: Token,
    later: Seq<Outcome<T>>,
)
    ensures
        drain(
            StateView::Fut,
            base,
            seq![Ok::<Page<T>, MwError>((Seq::<T>::empty(), Some(token)))] + later,
        ) == seq![Err::<T, MwError>(MwError::Protocol)],
{
    let outcomes = seq![Ok::<Page<T>, MwError>((Seq::<T>::empty(), Some(token)))] + later;
    assert(outcomes[0] == Ok::<Page<T>, MwError>((Seq::<T>::empty(), Some(token))));
    assert(resolved(outcomes[0]) == (
        StateView::<T>::Done,
        Some(Err::<T, MwError>(MwError::Protocol)),
    ));
    assert(drain(StateView::<T>::Done, base, outcomes.skip(1)) == Seq::<Result<T, MwError>>::empty());
    assert(drain(StateView::Fut, base, outcomes) == received(
        Some(Err::<T, MwError>(MwError::Protocol)),
    ) + drain(StateView::<T>::Done, base, outcomes.skip(1)));
}

/// A failed request ends the stream: the consumer receives that error, once,
/// and then the end of the stream.
pub proof fn lemma_error_is_last<T>(base: Seq<FieldView>, e: MwError, later: Seq<Outcome<T>>)
    ensures
        drain(StateView::Fut, base, seq![Err::<Page<T>, MwError>(e)] + later) == seq![
            Err::<T, MwError>(e),
        ],
{
    let outcomes = seq![Err::<Page<T>, MwError>(e)] + later;
    assert(outcomes[0] == Err::<Page<T>, MwError>(e));
    assert(drain(StateView::<T>::Done, base, outcomes.skip(1)) == Seq::<Result<T, MwError>>::empty());
    assert(drain(StateView::Fut, base, outcomes) == received(Some(Err::<T, MwError>(e))) + drain(
        StateView::<T>::Done,
        base,
        outcomes.skip(1),
    ));
}

/// Pages that each lead on to a next one: every one of them has items and a
/// token.
pub open spec fn continuing<T>(pages: Seq<Page<T>>) -> bool {
    forall|i: int|
        0 <= i < pages.len() ==> (#[trigger] pages[i]).0.len() > 0 && pages[i].1 is Some
}

/// While a request is in flight and pages that lead on are on their way, the
/// consumer will receive the items of those pages, in order, and after them
/// whatever the outcomes behind these pages bring, as if they had been the
/// first.
pub proof fn lemma_continuing_pages<T>(
    base: Seq<FieldView>,
    pages: Seq<Page<T>>,
    later: Seq<Outcome<T>>,
)
    requires
        continuing(pages),
    ensures
        drain(StateView::Fut, base, answers(pages) + later) == oks(all_items(pages)) + drain(
            StateView::Fut,
            base,
            later,
        ),
    decreases pages.len(),
{
    let outcomes = answers(pages) + later;
    if pages.len() == 0 {
        assert(outcomes == later);
        assert(oks(all_items(pages)) == Seq::<Result<T, MwError>>::empty());
        assert(oks(all_items(pages)) + drain(StateView::Fut, base, later) == drain(
            StateView::Fut,
            base,
            later,
        ));
    } else {
        let items = pages[0].0;
        let cont = pages[0].1;
        let rest = pages.skip(1);
        let next = answers(rest) + later;
        assert(outcomes[0] == Ok::<Page<T>, MwError>(pages[0]));
        assert(outcomes.skip(1) == next);
        assert(drain(StateView::Fut, base, outcomes) == seq![Ok::<T, MwError>(items[0])] + drain(
            buffered(items.skip(1), cont),
            base,
            next,
        ));
        lemma_buffer_first(items.skip(1), cont, base, next);
        assert(drain(buffered(Seq::<T>::empty(), cont), base, next) == drain(
            StateView::Fut,
            base,
            next,
        ));
        assert forall|i: int| 0 <= i < rest.len() implies (#[trigger] rest[i]).0.len() > 0
            && rest[i].1 is Some by {
            assert(rest[i] == pages[i + 1]);
        }
        lemma_continuing_pages(base, rest, later);
        assert(oks(items) == seq![Ok::<T, MwError>(items[0])] + oks(items.skip(1)));
        assert(oks(items) + oks(all_items(rest)) == oks(items + all_items(rest)));
        assert(seq![Ok::<T, MwError>(items[0])] + (oks(items.skip(1)) + (oks(all_items(rest))
            + drain(StateView::Fut, base, later))) == oks(items) + oks(all_items(rest)) + drain(
            StateView::Fut,
            base,
            later,
        ));
    }
}

/// One error, and it comes last.  When a request fails after pages that led
/// on, the consumer receives the items of those pages, then the error, and
/// then the end of the stream: nothing of what the server might still send
/// is asked for.
pub proof fn lemma_failure_after_pages<T>(
    base: Seq<FieldView>,
    pages: Seq<Page<T>>,
    e: MwError,
    later: Seq<Outcome<T>>,
)
    requires
        continuing(pages),
    ensures
        drain(StateView::Init, base, answers(pages) + (seq![Err::<Page<T>, MwError>(e)] + later))
            == oks(all_items(pages)) + seq![Err::<T, MwError>(e)],
{
    let tail = seq![Err::<Page<T>, MwError>(e)] + later;
    lemma_continuing_pages(base, pages, tail);
    lemma_error_is_last(base, e, later);
    assert(drain(StateView::Init, base, answers(pages) + tail) == drain(
        StateView::Fut,
        base,
        answers(pages) + tail,
    ));
}

/// A page without items that carries a token, after pages that led on: the
/// consumer receives the items of those pages, then the one error that names
/// the breach, and then the end of the stream.
pub proof fn lemma_violation_after_pages<T>(
    base: Seq<FieldView>,
    pages: Seq<Page<T>>,
    token: Token,
    later: Seq<Outcome<T>>,
)
    requires
        continuing(pages),
    ensures
        drain(
            StateView::Init,
            base,
            answers(pages) + (seq![Ok::<Page<T>, MwError>((Seq::<T>::empty(), Some(token)))]
                + later),
        ) == oks(all_items(pages)) + seq![Err::<T, MwError>(MwError::Protocol)],
{
    let tail = seq![Ok::<Page<T>, MwError>((Seq::<T>::empty(), Some(token)))] + later;
    lemma_continuing_pages(base, pages, tail);
    lemma_empty_page_with_token(base, token, later);
    assert(drain(StateView::Init, base, answers(pages) + tail) == drain(
        StateView::Fut,
        base,
        answers(pages) + tail,
    ));
}

/// What happens to a stream: the consumer pulls, or the caller reports how
/// the request in flight ended.
pub enum Event<T> {
    Pull,
    Resolve(Outcome<T>),
}

/// The state after one event.
pub open spec fn apply<T>(state: StateView<T>, base: Seq<FieldView>, event: Event<T>) -> StateView<T> {
    match event {
        Event::Pull => pull(state, base).0,
        Event::Resolve(outcome) => resolved(outcome).0,
    }
}

/// Whether the event makes the stream hand out the query of a page request.
pub open spec fn sends<T>(state: StateView<T>, base: Seq<FieldView>, event: Event<T>) -> bool {
    event is Pull && pull(state, base).1 is Send
}

/// Whether each response in `events` is reported while a request is in
/// flight, as [`crate::cont::ContinueStream::resolve`] asks.
pub open spec fn admissible<T>(state: StateView<T>, base: Seq<FieldView>, events: Seq<Event<T>>) -> bool
    decreases events.len(),
{
    events.len() == 0 || {
        &&& events[0] is Resolve ==> state is Fut
        &&& admissible(apply(state, base, events[0]), base, events.skip(1))
    }
}

/// The state after all of `events`.
pub open spec fn after<T>(state: StateView<T>, base: Seq<FieldView>, events: Seq<Event<T>>) -> StateView<T>
    decreases events.len(),
{
    if events.len() == 0 {
        state
    } else {
        after(apply(state, base, events[0]), base, events.skip(1))
    }
}

/// How many page requests the stream hands out in the course of `events`.
pub open spec fn sent<T>(state: StateView<T>, base: Seq<FieldView>, events: Seq<Event<T>>) -> nat
    decreases events.len(),
{
    if events.len() == 0 {
        0
    } else {
        let now: nat = if sends(state, base, events[0]) {
            1
        } else {
            0
        };
        now + sent(apply(state, base, events[0]), base, events.skip(1))
    }
}

/// How many responses are reported in the course of `events`.
pub open spec fn answered<T>(events: Seq<Event<T>>) -> nat
    decreases events.len(),
{
    if events.len() == 0 {
        0
    } else {
        let now: nat = if events[0] is Resolve {
            1
        } else {
            0
        };
        now + answered(events.skip(1))
    }
}

/// The number of requests that a state has open: one while a request is in
/// flight, none otherwise.
pub open spec fn in_flight<T>(state: StateView<T>) -> nat {
    if state is Fut {
        1
    } else {
        0
    }
}

/// At most one request in flight.  Over any course of events, the requests
/// handed out and the responses reported balance with what is open before
/// and after; and what is open is never more than one request.  So the stream
/// hands out a request only when the one before it has been answered.
pub proof fn lemma_one_request_in_flight<T>(
    state: StateView<T>,
    base: Seq<FieldView>,
    events: Seq<Event<T>>,
)
    requires
        admissible(state, base, events),
    ensures
        in_flight(state) + sent(state, base, events) == answered(events) + in_flight(
            after(state, base, events),
        ),
        in_flight(after(state, base, events)) <= 1,
        events.len() > 0 && sends(state, base, events[0]) ==> in_flight(state) == 0,
    decreases events.len(),
{
    if events.len() > 0 {
        lemma_one_request_in_flight(apply(state, base, events[0]), base, events.skip(1));
    }
}

/// A new stream never has asked for more than one page beyond those that
/// were answered.
pub proof fn lemma_requests_follow_responses<T>(base: Seq<FieldView>, events: Seq<Event<T>>)
    requires
        admissible(StateView::<T>::Init, base, events),
    ensures
        answered(events) <= sent(StateView::<T>::Init, base, events) <= answered(events) + 1,
{
    lemma_one_request_in_flight(StateView::<T>::Init, base, events);
}

/// A pull while a request is in flight changes nothing and hands out
/// nothing: however often the consumer asks before the response is there, the
/// stream is the same afterwards.
pub proof fn lemma_waiting_changes_nothing<T>(base: Seq<FieldView>)
    ensures
        pull(StateView::<T>::Fut, base) == (StateView::<T>::Fut, StepView::<T>::Pending),
{
}

/// After the end nothing happens any more: every pull says that the stream
/// has ended, and no request is handed out.
pub proof fn lemma_done_is_final<T>(base: Seq<FieldView>, outcomes: Seq<Outcome<T>>)
    ensures
        pull(StateView::<T>::Done, base) == (StateView::<T>::Done, StepView::<T>::End),
        drain(StateView::<T>::Done, base, outcomes) == Seq::<Result<T, MwError>>::empty(),
{
}

} // verus!
