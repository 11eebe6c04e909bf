//! The stream of items behind a query whose answer comes in pages.
//!
//! A [`ContinueStream`] never sends anything.  Pulling it either hands out an
//! item, or says that the stream has ended, or hands out the query of the next
//! page request; the caller sends that request and reports the response with
//! [`ContinueStream::resolve`].

use crate::error::MwError;
use crate::params::{page_fields, views, Adhoc, Field, FieldView, Params, Standard};
use crate::queue::from_vec;
use crate::token::Token;
use std::collections::VecDeque;
use vstd::prelude::*;

verus! {

/// One decoded page: the payload, and the continuation token if the server
/// sent one.
#[derive(Debug)]
pub struct MaybeContinue<T> {
    pub cont: Option<Token>,
    pub inner: T,
}

/// Where a stream stands.
#[derive(Debug)]
pub enum State<T> {
    /// Nothing has been requested yet.
    Init,
    /// A page request is in flight.
    Fut,
    /// Items of the current page that wait to be handed out, and the token
    /// that came with the page.
    Values(VecDeque<T>, Option<Token>),
    /// The current page is used up and the next one has yet to be requested.
    Cont(Token),
    /// The stream has ended.
    Done,
}

/// What a [`State`] stands for.
pub enum StateView<T> {
    Init,
    Fut,
    Values(Seq<T>, Option<Token>),
    Cont(Token),
    Done,
}

impl<T> View for State<T> {
    type V = StateView<T>;

    open spec fn view(&self) -> StateView<T> {
        match self {
            State::Init => StateView::Init,
            State::Fut => StateView::Fut,
            State::Values(items, cont) => StateView::Values(items@, *cont),
            State::Cont(token) => StateView::Cont(*token),
            State::Done => StateView::Done,
        }
    }
}

/// What one pull of a stream comes to.
#[derive(Debug)]
pub enum Step<T> {
    /// The next item, or the error that ends the stream.
    Item(Result<T, MwError>),
    /// The stream has ended.
    End,
    /// The query of the page request that has to be sent now.
    Send(Vec<Field>),
    /// A page request is in flight and its response has not been reported.
    Pending,
}

/// What a [`Step`] stands for.
pub enum StepView<T> {
    Item(Result<T, MwError>),
    End,
    Send(Seq<FieldView>),
    Pending,
}

impl<T> View for Step<T> {
    type V = StepView<T>;

    open spec fn view(&self) -> StepView<T> {
        match self {
            Step::Item(item) => StepView::Item(*item),
            Step::End => StepView::End,
            Step::Send(query) => StepView::Send(views(query@)),
            Step::Pending => StepView::Pending,
        }
    }
}

/// The state in which a stream holds `items` and `cont`: it waits with the
/// items while there are any, otherwise it is ready for the next page if
/// there is a token, and has ended if there is none.
pub open spec fn buffered<T>(items: Seq<T>, cont: Option<Token>) -> StateView<T> {
    if items.len() > 0 {
        StateView::Values(items, cont)
    } else {
        match cont {
            Some(token) => StateView::Cont(token),
            None => StateView::Done,
        }
    }
}

/// One pull: the state after it and what it comes to.  `base` holds the
/// base parameters of the stream.
pub open spec fn pull<T>(state: StateView<T>, base: Seq<FieldView>) -> (StateView<T>, StepView<T>) {
    match state {
        StateView::Init => (StateView::Fut, StepView::Send(page_fields(base, None))),
        StateView::Fut => (StateView::Fut, StepView::Pending),
        StateView::Values(items, cont) => {
            if items.len() > 0 {
                (buffered(items.skip(1), cont), StepView::Item(Ok(items[0])))
            } else {
                match cont {
                    Some(token) => (
                        StateView::Fut,
                        StepView::Send(page_fields(base, Some(token))),
                    ),
                    None => (StateView::Done, StepView::End),
                }
            }
        },
        StateView::Cont(token) => (StateView::Fut, StepView::Send(page_fields(base, Some(token)))),
        StateView::Done => (StateView::Done, StepView::End),
    }
}

/// What a page with the given items and token leads to: the state after it
/// and what the pull that waited for it receives (`None`: the stream has
/// ended).  A page without items ends the stream; if it still carries a token,
/// the server broke the protocol and the stream ends with that error.
pub open spec fn deliver<T>(items: Seq<T>, cont: Option<Token>) -> (
    StateView<T>,
    Option<Result<T, MwError>>,
) {
    if items.len() > 0 {
        (buffered(items.skip(1), cont), Some(Ok(items[0])))
    } else if cont is Some {
        (StateView::Done, Some(Err(MwError::Protocol)))
    } else {
        (StateView::Done, None)
    }
}

/// What the outcome of a page request leads to, the mapping from payload to
/// items already applied: a failure ends the stream with its error, a page
/// goes by [`deliver`].
pub open spec fn resolved<T>(outcome: Result<(Seq<T>, Option<Token>), MwError>) -> (
    StateView<T>,
    Option<Result<T, MwError>>,
) {
    match outcome {
        Ok(page) => deliver(page.0, page.1),
        Err(e) => (StateView::Done, Some(Err(e))),
    }
}

impl<T> State<T> {
    /// The state that holds `v` and `cont`.
    pub fn values(v: VecDeque<T>, cont: Option<Token>) -> (state: Self)
        ensures
            state@ == buffered(v@, cont),
    {
        if v.len() == 0 {
            if let Some(c) = cont {
                State::Cont(c)
            } else {
                State::Done
            }
        } else {
            State::Values(v, cont)
        }
    }

    /// Takes in a page: `items` is what the mapping made of its payload,
    /// `cont` the token that came with it.  Gives the state after the page and
    /// what the waiting pull receives.
    pub fn page(items: Vec<T>, cont: Option<Token>) -> (out: (Self, Option<Result<T, MwError>>))
        ensures
            (out.0@, out.1) == deliver(items@, cont),
            items@.len() == 0 && cont is None ==> out.0@ is Done && out.1 is None,
            items@.len() == 0 && cont is Some ==> out.0@ is Done && out.1 == Some(
                Err::<T, MwError>(MwError::Protocol),
            ),
    {
        let mut queue = from_vec(items);
        match queue.pop_front() {
            Some(first) => (State::values(queue, cont), Some(Ok(first))),
            None => {
                if cont.is_some() {
                    (State::Done, Some(Err(MwError::Protocol)))
                } else {
                    (State::Done, None)
                }
            },
        }
    }
}

impl<T> Default for State<T> {
    fn default() -> (state: Self)
        ensures
            state@ is Init,
    {
        State::Init
    }
}

/// A lazily advanced stream over the items of all pages of one query.
pub struct ContinueStream<P, F, T> {
    params: P,
    state: State<T>,
    map: F,
}

impl<P: Params, F, T> ContinueStream<P, F, T> {
    /// Where the stream stands.
    pub closed spec fn state(&self) -> StateView<T> {
        self.state@
    }

    /// The base parameters, which go into every page request.
    pub closed spec fn base(&self) -> Seq<FieldView> {
        self.params.fields()
    }

    /// The mapping from the payload of a page to its items.
    pub closed spec fn mapping(&self) -> F {
        self.map
    }

    /// Whether a page request is in flight.
    pub fn is_awaiting(&self) -> (b: bool)
        ensures
            b == (self.state() is Fut),
    {
        match &self.state {
            State::Fut => true,
            _ => false,
        }
    }

    /// Whether the stream has ended.
    pub fn is_done(&self) -> (b: bool)
        ensures
            b == (self.state() is Done),
    {
        match &self.state {
            State::Done => true,
            _ => false,
        }
    }

    /// Pulls the stream once.
    ///
    /// Items that wait are handed out first, in order.  With none left, the
    /// stream asks for the next page by handing out its query, and from then
    /// on answers `Pending` until the response is reported.  After the end,
    /// every pull says `End`.
    pub fn poll_next(&mut self) -> (step: Step<T>)
        ensures
            (final(self).state(), step@) == pull(old(self).state(), old(self).base()),
            final(self).base() == old(self).base(),
            final(self).mapping() == old(self).mapping(),
    {
        let mut state = State::Fut;
        std::mem::swap(&mut self.state, &mut state);
        let extra = match state {
            State::Init => None,
            State::Cont(token) => Some(token),
            State::Values(mut items, cont) => {
                match items.pop_front() {
                    Some(item) => {
                        self.state = State::values(items, cont);
                        return Step::Item(Ok(item));
                    },
                    None => {
                        if cont.is_none() {
                            self.state = State::Done;
                            return Step::End;
                        }
                        cont
                    },
                }
            },
            State::Fut => {
                return Step::Pending;
            },
            State::Done => {
                self.state = State::Done;
                return Step::End;
            },
        };
        let query = Standard(Adhoc { params: &self.params, extra }).serialize();
        Step::Send(query)
    }

    /// Reports the outcome of the page request that is in flight: the decoded
    /// page, or the error of the transport.
    ///
    /// An error ends the stream and comes back as its last item.  The payload
    /// of a page goes through the mapping; if the mapping fails, its error
    /// ends the stream in the same way, otherwise the items and the token of
    /// the page decide as [`deliver`] says.
    pub fn resolve<R>(&mut self, response: Result<MaybeContinue<R>, MwError>) -> (out: Option<
        Result<T, MwError>,
    >) where F: Fn(R) -> Result<Vec<T>, MwError>
        requires
            old(self).state() is Fut,
            response matches Ok(page) ==> call_requires(old(self).mapping(), (page.inner,)),
        ensures
            final(self).base() == old(self).base(),
            final(self).mapping() == old(self).mapping(),
            response matches Err(e) ==> final(self).state() is Done && out == Some(
                Err::<T, MwError>(e),
            ),
            response matches Ok(page) ==> exists|mapped: Result<Vec<T>, MwError>|
                call_ensures(old(self).mapping(), (page.inner,), mapped) && (
                    final(self).state(),
                    out,
                ) == #[trigger] resolved(paged(mapped, page.cont)),
    {
        match response {
            Err(e) => {
                self.state = State::Done;
                Some(Err(e))
            },
            Ok(page) => {
                let mapped = (self.map)(page.inner);
                let ghost witness = mapped;
                match mapped {
                    Err(e) => {
                        self.state = State::Done;
                        proof {
                            assert((self.state(), Some(Err::<T, MwError>(e))) == resolved(
                                paged(witness, page.cont),
                            ));
                        }
                        Some(Err(e))
                    },
                    Ok(items) => {
                        let (state, out) = State::page(items, page.cont);
                        self.state = state;
                        proof {
                            assert((self.state(), out) == resolved(paged(witness, page.cont)));
                        }
                        out
                    },
                }
            },
        }
    }
}

/// The outcome of a page request once the mapping has been applied: the items
/// with the token of the page, or the error of the mapping.
pub open spec fn paged<T>(mapped: Result<Vec<T>, MwError>, cont: Option<Token>) -> Result<
    (Seq<T>, Option<Token>),
    MwError,
> {
    match mapped {
        Ok(items) => Ok((items@, cont)),
        Err(e) => Err(e),
    }
}

/// A stream over all pages of the query with the given base parameters.
/// `map` turns the payload of each page into the items of that page.
pub fn get_all<P: Params, R, T, F: Fn(R) -> Result<Vec<T>, MwError>>(params: P, map: F) -> (stream:
    ContinueStream<P, F, T>)
    ensures
        stream.state() is Init,
        stream.base() == params.fields(),
        stream.mapping() == map,
{
    ContinueStream { params, state: State::Init, map }
}

} // verus!
