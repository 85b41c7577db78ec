//! Message bodies, whichever protocol they come by.
//!
//! A body is polled through a function that the caller hands in; what is decided here is which
//! one runs, what it runs on, and what is made of its outcome.
use vstd::prelude::*;

use crate::uri;

verus! {

/// What polling gives: a value, or nothing yet.
pub enum Async<T> {
    Ready(T),
    NotReady,
}

/// Why an HTTP/2 stream failed: it was reset with a reason code, or for a cause of its own.
pub enum StreamError<E> {
    Reset(u32),
    Inner(E),
}

/// The reason code of a stream that is reset for an internal error.
pub const INTERNAL_ERROR: u32 = 2;

/// Reads the code of `h2::Reason::INTERNAL_ERROR`, which is that of `INTERNAL_ERROR`.
#[verifier::external_body]
pub(crate) fn internal_error() -> (code: u32)
    ensures
        code == INTERNAL_ERROR,
{
    u32::from(h2::Reason::INTERNAL_ERROR)
}

/// An I/O error of no particular kind, with what is said of it.
pub struct OtherError {
    pub message: Option<String>,
}

impl OtherError {
    /// The error comes with just this message, or with none.
    pub open spec fn says(self, message: Option<Seq<char>>) -> bool {
        uri::text_view(self.message) == message
    }
}

/// `f` can be run on a place that holds `value`.
pub open spec fn can_run<T, R, F: FnOnce(&mut T) -> R>(f: F, value: T) -> bool {
    forall|place: &mut T| *place == value ==> f.requires((place,))
}

/// The pieces that polls gave, in order.
pub open spec fn pieces<D, E>(polls: Seq<Result<Async<Option<D>>, E>>) -> Seq<D>
    decreases polls.len(),
{
    if polls.len() == 0 {
        Seq::empty()
    } else {
        let before = pieces(polls.drop_last());
        match polls.last() {
            Ok(Async::Ready(Some(piece))) => before.push(piece),
            _ => before,
        }
    }
}

/// What is made of an HTTP/1 body's outcome: each error becomes a reset for an internal error.
pub open spec fn from_http1<D, E1, E2>(out: Result<Async<Option<D>>, E1>) -> Result<
    Async<Option<D>>,
    StreamError<E2>,
> {
    match out {
        Ok(data) => Ok(data),
        Err(_) => Err(StreamError::Reset(INTERNAL_ERROR)),
    }
}

/// What is made of an HTTP/2 body's outcome, which is passed on as it is.
pub open spec fn from_http2<D, E>(out: Result<Async<Option<D>>, E>) -> Result<
    Async<Option<D>>,
    StreamError<E>,
> {
    match out {
        Ok(data) => Ok(data),
        Err(e) => Err(StreamError::Inner(e)),
    }
}

/// The body of a message that came by HTTP/1 or by HTTP/2.
pub enum HttpBody<A, B> {
    Http1(A),
    Http2(B),
}

impl<A, B> HttpBody<A, B> {
    /// Whether the body is known to have ended. Of an HTTP/1 body this is never known before
    /// it is polled; an HTTP/2 body is asked.
    pub fn is_end_stream<F: FnOnce(&B) -> bool>(&self, recv: F) -> (ended: bool)
        requires
            *self matches HttpBody::Http2(b) ==> recv.requires((&b,)),
        ensures
            match *self {
                HttpBody::Http1(_) => !ended,
                HttpBody::Http2(b) => recv.ensures((&b,), ended),
            },
    {
        match self {
            HttpBody::Http1(_) => false,
            HttpBody::Http2(b) => recv(b),
        }
    }

    /// Polls for the next piece of the body. What an HTTP/1 body gives is passed on, but for
    /// its errors, each of which becomes a reset for an internal error; what an HTTP/2 body
    /// gives is passed on as it is.
    pub fn poll_data<D, E1, E2, F1, F2>(&mut self, h1: F1, h2: F2) -> (polled: Result<
        Async<Option<D>>,
        StreamError<E2>,
    >) where
        F1: FnOnce(&mut A) -> Result<Async<Option<D>>, E1>,
        F2: FnOnce(&mut B) -> Result<Async<Option<D>>, E2>,

        requires
            match *old(self) {
                HttpBody::Http1(a) => can_run(h1, a),
                HttpBody::Http2(b) => can_run(h2, b),
            },
        ensures
            match (*old(self), *final(self)) {
                (HttpBody::Http1(a), HttpBody::Http1(after)) => exists|
                    place: &mut A,
                    out: Result<Async<Option<D>>, E1>,
                | #[trigger]
                    h1.ensures((place,), out) && *place == a && *final(place) == after && polled
                        == from_http1::<D, E1, E2>(out),
                (HttpBody::Http2(b), HttpBody::Http2(after)) => exists|
                    place: &mut B,
                    out: Result<Async<Option<D>>, E2>,
                | #[trigger]
                    h2.ensures((place,), out) && *place == b && *final(place) == after && polled
                        == from_http2(out),
                _ => false,
            },
    {
        match self {
            HttpBody::Http1(b) => match h1(b) {
                Ok(data) => Ok(data),
                Err(_) => Err(StreamError::Reset(internal_error())),
            },
            HttpBody::Http2(b) => match h2(b) {
                Ok(data) => Ok(data),
                Err(e) => Err(StreamError::Inner(e)),
            },
        }
    }

    /// Polls for the trailers. An HTTP/1 body has none; an HTTP/2 body is asked.
    pub fn poll_trailers<T, E, F>(&mut self, recv: F) -> (polled: Result<Async<Option<T>>, E>)
        where F: FnOnce(&mut B) -> Result<Async<Option<T>>, E>
        requires
            *old(self) matches HttpBody::Http2(b) ==> can_run(recv, b),
        ensures
            match (*old(self), *final(self)) {
                (HttpBody::Http1(a), HttpBody::Http1(after)) => after == a && polled == Ok::<
                    Async<Option<T>>,
                    E,
                >(Async::Ready(None)),
                (HttpBody::Http2(b), HttpBody::Http2(after)) => exists|place: &mut B| #[trigger]
                    recv.ensures((place,), polled) && *place == b && *final(place) == after,
                _ => false,
            },
    {
        match self {
            HttpBody::Http1(_) => Ok(Async::Ready(None)),
            HttpBody::Http2(b) => recv(b),
        }
    }
}

impl<A, B: Default> Default for HttpBody<A, B> {
    /// The body of a message without one.
    fn default() -> (body: HttpBody<A, B>)
        ensures
            body matches HttpBody::Http2(b) && B::default.ensures((), b),
    {
        HttpBody::Http2(B::default())
    }
}

/// What a body that is sent out over HTTP/1 makes of an outcome: a piece is wrapped, and each
/// error becomes an I/O error.
pub open spec fn is_sent<T, E>(
    out: Result<Async<Option<T>>, E>,
    polled: Result<Async<Option<BufAsRef<T>>>, OtherError>,
) -> bool {
    match (out, polled) {
        (Ok(Async::Ready(Some(buf))), Ok(Async::Ready(Some(sent)))) => sent.0 == buf,
        (Ok(Async::Ready(None)), Ok(Async::Ready(None))) => true,
        (Ok(Async::NotReady), Ok(Async::NotReady)) => true,
        (Err(_), Err(e)) => e.says(None),
        _ => false,
    }
}

/// A body that is sent out over HTTP/1.
#[derive(Debug)]
pub struct BodyStream<B>(pub B);

impl<B> BodyStream<B> {
    /// Polls for the next piece of the body. What the body gives is passed on, with its errors
    /// turned into I/O errors.
    pub fn poll<T, E, F>(&mut self, poll_data: F) -> (polled: Result<
        Async<Option<BufAsRef<T>>>,
        OtherError,
    >) where F: FnOnce(&mut B) -> Result<Async<Option<T>>, E>
        requires
            can_run(poll_data, old(self).0),
        ensures
            exists|place: &mut B, out: Result<Async<Option<T>>, E>| #[trigger]
                poll_data.ensures((place,), out) && *place == old(self).0 && *final(place)
                    == final(self).0 && is_sent(out, polled),
    {
        match poll_data(&mut self.0) {
            Ok(Async::Ready(Some(buf))) => Ok(Async::Ready(Some(BufAsRef(buf)))),
            Ok(Async::Ready(None)) => Ok(Async::Ready(None)),
            Ok(Async::NotReady) => Ok(Async::NotReady),
            Err(_) => Err(OtherError { message: None }),
        }
    }
}

/// A piece of a body, seen as the bytes that are left in it.
#[derive(Debug)]
pub struct BufAsRef<B>(pub B);

impl<B> BufAsRef<B> {
    /// The bytes that are left, as `bytes` gives them.
    pub fn as_ref<F>(&self, bytes: F) -> (left: &[u8]) where F: FnOnce(&B) -> &[u8]
        requires
            bytes.requires((&self.0,)),
        ensures
            bytes.ensures((&self.0,), left),
    {
        bytes(&self.0)
    }
}

/// Over any number of polls, the pieces that are sent are those that the body gave, one for one
/// and in order. Each poll ends the stream, is not ready or fails just where the body does.
pub proof fn law_pieces_are_sent_in_order<T, E>(
    outs: Seq<Result<Async<Option<T>>, E>>,
    polls: Seq<Result<Async<Option<BufAsRef<T>>>, OtherError>>,
)
    requires
        polls.len() == outs.len(),
        forall|i: int| 0 <= i < outs.len() ==> is_sent(#[trigger] outs[i], polls[i]),
    ensures
        pieces(polls).len() == pieces(outs).len(),
        forall|k: int| 0 <= k < pieces(outs).len() ==> (#[trigger] pieces(polls)[k]).0 == pieces(
            outs,
        )[k],
        forall|i: int|
            0 <= i < outs.len() ==> {
                &&& (#[trigger] polls[i] matches Ok(Async::Ready(None))) <==> (
                outs[i] matches Ok(Async::Ready(None)))
                &&& (polls[i] matches Ok(Async::NotReady)) <==> (
                outs[i] matches Ok(Async::NotReady))
                &&& polls[i] is Err <==> outs[i] is Err
            },
    decreases outs.len(),
{
    if outs.len() > 0 {
        assert forall|i: int| 0 <= i < outs.drop_last().len() implies is_sent(
            #[trigger] outs.drop_last()[i],
            polls.drop_last()[i],
        ) by {
            assert(outs.drop_last()[i] == outs[i]);
        }
        law_pieces_are_sent_in_order(outs.drop_last(), polls.drop_last());
        assert(is_sent(outs.last(), polls.last()));
    }
    assert forall|i: int| 0 <= i < outs.len() implies is_sent(outs[i], #[trigger] polls[i]) by {
        assert(is_sent(outs[i], polls[i]));
    }
}

/// Over any number of polls, the pieces of a body that came by HTTP/1 or by HTTP/2 are passed on
/// as they are, one for one and in order.
pub proof fn law_pieces_are_passed_on<D, E1, E2>(
    h1: Seq<Result<Async<Option<D>>, E1>>,
    h2: Seq<Result<Async<Option<D>>, E2>>,
)
    ensures
        pieces(h1.map_values(|out: Result<Async<Option<D>>, E1>| from_http1::<D, E1, E2>(out)))
            == pieces(h1),
        pieces(h2.map_values(|out: Result<Async<Option<D>>, E2>| from_http2(out))) == pieces(h2),
    decreases h1.len() + h2.len(),
{
    let f1 = |out: Result<Async<Option<D>>, E1>| from_http1::<D, E1, E2>(out);
    let f2 = |out: Result<Async<Option<D>>, E2>| from_http2(out);
    if h1.len() > 0 {
        law_pieces_are_passed_on::<D, E1, E2>(h1.drop_last(), h2);
        assert(h1.map_values(f1).drop_last() =~= h1.drop_last().map_values(f1));
    }
    if h2.len() > 0 {
        law_pieces_are_passed_on::<D, E1, E2>(h1, h2.drop_last());
        assert(h2.map_values(f2).drop_last() =~= h2.drop_last().map_values(f2));
    }
}

/// An outcome of a body of either protocol is passed on for what it is: a piece as that piece,
/// the end just where the body ends, nothing yet just where there is nothing yet, and a failure
/// just where the body fails. An HTTP/2 body's own error is passed on; an HTTP/1 body's becomes a
/// reset.
pub proof fn law_outcomes_are_passed_on<D, E1, E2>(
    h1: Result<Async<Option<D>>, E1>,
    h2: Result<Async<Option<D>>, E2>,
)
    ensures
        ({
            let p1: Result<Async<Option<D>>, StreamError<E2>> = from_http1(h1);
            let p2: Result<Async<Option<D>>, StreamError<E2>> = from_http2(h2);
            &&& (p1 matches Ok(Async::Ready(None))) <==> (h1 matches Ok(Async::Ready(None)))
            &&& (p1 matches Ok(Async::NotReady)) <==> (h1 matches Ok(Async::NotReady))
            &&& (h1 matches Ok(Async::Ready(Some(d))) ==> p1 == Ok::<_, StreamError<E2>>(
                Async::Ready(Some(d)),
            ))
            &&& p1 is Err <==> h1 is Err
            &&& (p1 matches Err(e) ==> e == StreamError::<E2>::Reset(INTERNAL_ERROR))
            &&& (p2 matches Ok(Async::Ready(None))) <==> (h2 matches Ok(Async::Ready(None)))
            &&& (p2 matches Ok(Async::NotReady)) <==> (h2 matches Ok(Async::NotReady))
            &&& (h2 matches Ok(Async::Ready(Some(d))) ==> p2 == Ok::<_, StreamError<E2>>(
                Async::Ready(Some(d)),
            ))
            &&& p2 is Err <==> h2 is Err
            &&& (h2 matches Err(e) ==> p2 == Err::<Async<Option<D>>, _>(StreamError::Inner(e)))
        }),
{
}

/// An outcome of a body is sent for what it is: a piece as that piece, the end just where the
/// body ends, nothing yet just where there is nothing yet, and an I/O error without a message just
/// where the body fails.
pub proof fn law_outcomes_are_sent<T, E>(
    out: Result<Async<Option<T>>, E>,
    polled: Result<Async<Option<BufAsRef<T>>>, OtherError>,
)
    requires
        is_sent(out, polled),
    ensures
        (polled matches Ok(Async::Ready(None))) <==> (out matches Ok(Async::Ready(None))),
        (polled matches Ok(Async::NotReady)) <==> (out matches Ok(Async::NotReady)),
        out matches Ok(Async::Ready(Some(piece))) ==> (polled matches Ok(Async::Ready(Some(sent)))
            && sent.0 == piece),
        polled is Err <==> out is Err,
        polled matches Err(e) ==> e.message is None,
{
}

/// The pieces of a body that came by either protocol, sent out over HTTP/1: however often it is
/// polled, each poll gives the piece that the body gave then, and the end where it ended.
pub proof fn law_relayed_pieces_are_the_pieces<D, E1, E2>(
    outs: Seq<Result<Async<Option<D>>, E1>>,
    h2_outs: Seq<Result<Async<Option<D>>, E2>>,
    polls: Seq<Result<Async<Option<BufAsRef<D>>>, OtherError>>,
    h2_polls: Seq<Result<Async<Option<BufAsRef<D>>>, OtherError>>,
)
    requires
        polls.len() == outs.len(),
        h2_polls.len() == h2_outs.len(),
        forall|i: int|
            0 <= i < outs.len() ==> is_sent(from_http1::<D, E1, E2>(#[trigger] outs[i]), polls[i]),
        forall|i: int|
            0 <= i < h2_outs.len() ==> is_sent(from_http2(#[trigger] h2_outs[i]), h2_polls[i]),
    ensures
        forall|i: int|
            0 <= i < outs.len() ==> {
                &&& (#[trigger] outs[i] matches Ok(Async::Ready(Some(piece))) ==> (
                polls[i] matches Ok(Async::Ready(Some(sent))) && sent.0 == piece))
                &&& (outs[i] matches Ok(Async::Ready(None))) <==> (
                polls[i] matches Ok(Async::Ready(None)))
                &&& outs[i] is Err <==> polls[i] is Err
            },
        forall|i: int|
            0 <= i < h2_outs.len() ==> {
                &&& (#[trigger] h2_outs[i] matches Ok(Async::Ready(Some(piece))) ==> (
                h2_polls[i] matches Ok(Async::Ready(Some(sent))) && sent.0 == piece))
                &&& (h2_outs[i] matches Ok(Async::Ready(None))) <==> (
                h2_polls[i] matches Ok(Async::Ready(None)))
                &&& h2_outs[i] is Err <==> h2_polls[i] is Err
            },
{
}

/// An error says the message that it holds, and no other.
pub proof fn law_error_says_its_message(e: OtherError, message: Seq<char>)
    ensures
        e.says(None) <==> e.message is None,
        e.says(Some(message)) <==> (e.message matches Some(m) && m@ == message),
{
}

/// A function that can be run wherever the value is can be run on it.
pub proof fn law_what_can_be_run<T, R, F: FnOnce(&mut T) -> R>(f: F, value: T)
    ensures
        can_run(f, value) <==> forall|place: &mut T| *place == value ==> #[trigger] f.requires(
            (place,),
        ),
{
}

} // verus!
