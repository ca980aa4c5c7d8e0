//! What goes out of a request, and what a client makes of the answer.

use crate::http_client::body::{
    ends_in, law_refusal_is_reported, message_of, ChunkView, ErrorBody,
};
use crate::http_client::error::{reports_status, retry_after_of, Cause, Error};
use crate::http_client::headers::header_entries;
use crate::http_client::status::{is_success_code, StatusCode};
use vstd::prelude::*;

verus! {

/// `http::Version`, carried through.
#[verifier::external_type_specification]
#[verifier::external_body]
pub struct ExVersion(http::Version);

/// `http::Method`, carried through.
#[verifier::external_type_specification]
#[verifier::external_body]
pub struct ExMethod(http::Method);

/// `http::Uri`, whose text [`uri_text`] names.
#[verifier::external_type_specification]
#[verifier::external_body]
pub struct ExUri(http::Uri);

/// A URI as it is written.
pub uninterp spec fn uri_text(uri: http::Uri) -> Seq<char>;

/// Calls `Uri`'s `Display`. The contract names what it writes.
#[verifier::external_body]
fn write_uri(uri: &http::Uri) -> (text: String)
    ensures
        text@ == uri_text(*uri),
{
    uri.to_string()
}

/// What is sent before the body.
pub struct OutgoingHead {
    /// The method.
    pub method: http::Method,
    /// Where it goes, as it is written.
    pub url: String,
    /// The headers.
    pub headers: http::HeaderMap<http::HeaderValue>,
}

/// How the body of a response is to be had.
#[derive(Clone, Copy, PartialEq, Eq, Structural)]
pub enum Delivery {
    /// All at once.
    Whole,
    /// Chunk by chunk.
    Streamed,
}

/// What a server sends before the body.
pub struct ReceivedHead {
    /// The status.
    pub status: StatusCode,
    /// The version of the protocol.
    pub version: http::Version,
    /// The headers.
    pub headers: http::HeaderMap<http::HeaderValue>,
}

/// What is handed on before the body.
pub struct ResponseHead {
    /// The status.
    pub status: StatusCode,
    /// The version of the protocol, where it is handed on.
    pub version: Option<http::Version>,
    /// The headers.
    pub headers: http::HeaderMap<http::HeaderValue>,
}

/// What comes of a request.
pub enum Exchange {
    /// A response to hand on, with its body.
    Accepted(ResponseHead),
    /// A refusal, whose body tells the reason and is to be read.
    Refused(ErrorBody),
    /// No response.
    Failed(Error),
}

/// The error for a failure of the client itself.
pub fn instance_error(cause: Cause) -> (error: Error)
    ensures
        error == Error::Instance(cause),
{
    Error::Instance(cause)
}

/// `sent` is what goes out of a request.
pub open spec fn goes_out_as(
    method: http::Method,
    uri: http::Uri,
    headers: http::HeaderMap<http::HeaderValue>,
    sent: OutgoingHead,
) -> bool {
    &&& sent.method == method
    &&& sent.url@ == uri_text(uri)
    &&& sent.headers == headers
}

/// What goes out of a request before its body: the method, the text of the URI and the headers, as
/// they are.
pub fn outgoing_head(
    method: http::Method,
    uri: &http::Uri,
    headers: http::HeaderMap<http::HeaderValue>,
) -> (sent: OutgoingHead)
    ensures
        goes_out_as(method, *uri, headers, sent),
        sent.method == method,
        sent.url@ == uri_text(*uri),
        sent.headers == headers,
{
    OutgoingHead { method, url: write_uri(uri), headers }
}

/// `body` is what is handed on of a body, or of a chunk of it, that has been read.
pub open spec fn hands_on<B>(read: Result<B, Cause>, body: Result<B, Error>) -> bool {
    match (read, body) {
        (Ok(bytes), Ok(same)) => same == bytes,
        (Err(cause), Err(error)) => error == Error::Instance(cause),
        _ => false,
    }
}

/// Hands on the body of a response, or a chunk of it, as it was read. A failure to read it is one
/// of the client.
pub fn on_body<B>(read: Result<B, Cause>) -> (body: Result<B, Error>)
    ensures
        hands_on(read, body),
        read matches Ok(bytes) ==> body == Ok::<B, Error>(bytes),
        read matches Err(cause) ==> body == Err::<B, Error>(Error::Instance(cause)),
{
    match read {
        Ok(bytes) => Ok(bytes),
        Err(cause) => Err(instance_error(cause)),
    }
}

/// `next` is what comes of a request that has been sent.
pub open spec fn decides(
    outcome: Result<ReceivedHead, Cause>,
    delivery: Delivery,
    next: Exchange,
) -> bool {
    match (outcome, next) {
        (Err(cause), Exchange::Failed(error)) => error == Error::Instance(cause),
        (Ok(received), Exchange::Accepted(head)) => {
            &&& is_success_code(received.status.code())
            &&& head.status == received.status
            &&& head.headers == received.headers
            &&& head.version == if delivery is Streamed {
                Some(received.version)
            } else {
                None
            }
        },
        (Ok(received), Exchange::Refused(body)) => {
            &&& !is_success_code(received.status.code())
            &&& body.status() == received.status
            &&& body.entries() == header_entries(received.headers)
            &&& body.read() == Seq::<u8>::empty()
        },
        _ => false,
    }
}

/// Decides what comes of a request that has been sent: a response with a success status is handed
/// on as it is, the version of the protocol only with a stream; every other one is a refusal.
pub fn on_response(outcome: Result<ReceivedHead, Cause>, delivery: Delivery) -> (next: Exchange)
    ensures
        decides(outcome, delivery, next),
        outcome matches Err(cause) ==> next == Exchange::Failed(Error::Instance(cause)),
        outcome matches Ok(received) ==> {
            &&& next is Accepted <==> 200 <= received.status.code() <= 299
            &&& next is Refused <==> !(200 <= received.status.code() <= 299)
        },
{
    match outcome {
        Err(cause) => Exchange::Failed(instance_error(cause)),
        Ok(received) => if !received.status.is_success() {
            Exchange::Refused(ErrorBody::new(received.status, received.headers))
        } else {
            let version = match delivery {
                Delivery::Whole => None,
                Delivery::Streamed => Some(received.version),
            };
            Exchange::Accepted(
                ResponseHead { status: received.status, version, headers: received.headers },
            )
        },
    }
}

/// A response is handed on if and only if its status is from 200 to 299, and is a refusal if and
/// only if it is not. What is handed on has the status and the headers of the response, and its
/// version where it is streamed; a refusal has them too, and an unread body. A request without a
/// response has failed, by the cause that there is none.
pub proof fn law_success_alone_is_handed_on(
    outcome: Result<ReceivedHead, Cause>,
    delivery: Delivery,
    next: Exchange,
)
    requires
        decides(outcome, delivery, next),
    ensures
        outcome matches Ok(received) ==> {
            let code = received.status.code();
            &&& next is Accepted <==> 200 <= code && code <= 299
            &&& next is Refused <==> code < 200 || 299 < code
            &&& next matches Exchange::Accepted(head) ==> {
                &&& head.status.code() == code
                &&& header_entries(head.headers) == header_entries(received.headers)
                &&& delivery == Delivery::Streamed ==> head.version == Some(received.version)
                &&& delivery == Delivery::Whole ==> head.version is None
            }
            &&& next matches Exchange::Refused(body) ==> {
                &&& body.status().code() == code
                &&& body.entries() == header_entries(received.headers)
                &&& body.read().len() == 0
            }
        },
        outcome matches Err(cause) ==> {
            next matches Exchange::Failed(Error::Instance(same)) && same.display@
                == cause.display@ && same.debug@ == cause.debug@ && same.debug_pretty@
                == cause.debug_pretty@
        },
{
}

/// `result` is what a request ends in that is answered by `outcome` and, where that is a refusal, by
/// a body that yields `events`.
pub open spec fn comes_to(
    outcome: Result<ReceivedHead, Cause>,
    delivery: Delivery,
    events: Seq<ChunkView>,
    result: Result<ResponseHead, Error>,
) -> bool {
    exists|next: Exchange| #[trigger]
        decides(outcome, delivery, next) && match next {
            Exchange::Accepted(head) => result == Ok::<ResponseHead, Error>(head),
            Exchange::Failed(error) => result == Err::<ResponseHead, Error>(error),
            Exchange::Refused(body) => result matches Err(error) && exists|bodies: Seq<ErrorBody>|
                #[trigger] ends_in(bodies, events, error) && bodies[0] == body,
        }
}

/// The two causes say the same.
pub open spec fn same_cause(a: Cause, b: Cause) -> bool {
    &&& a.display@ == b.display@
    &&& a.debug@ == b.debug@
    &&& a.debug_pretty@ == b.debug_pretty@
}

/// The two requests were answered alike.
pub open spec fn same_answer(
    a: Result<ReceivedHead, Cause>,
    b: Result<ReceivedHead, Cause>,
) -> bool {
    match (a, b) {
        (Ok(x), Ok(y)) => {
            &&& x.status == y.status
            &&& x.version == y.version
            &&& header_entries(x.headers) == header_entries(y.headers)
        },
        (Err(x), Err(y)) => same_cause(x, y),
        _ => false,
    }
}

/// The two requests ended alike: with the same head, with the same report of a refusal, or with the
/// same failure of the client.
pub open spec fn same_result(a: Result<ResponseHead, Error>, b: Result<ResponseHead, Error>) -> bool {
    match (a, b) {
        (Ok(x), Ok(y)) => {
            &&& x.status == y.status
            &&& x.version == y.version
            &&& header_entries(x.headers) == header_entries(y.headers)
        },
        (
            Err(Error::Status { status: s, retry_after_secs: r, message: m }),
            Err(Error::Status { status: t, retry_after_secs: u, message: n }),
        ) => s == t && r == u && m@ == n@,
        (Err(Error::Instance(x)), Err(Error::Instance(y))) => same_cause(x, y),
        _ => false,
    }
}

/// Whichever client sent it, a request that is answered alike ends alike.
pub proof fn law_same_answer_same_result(
    a: Result<ReceivedHead, Cause>,
    b: Result<ReceivedHead, Cause>,
    delivery: Delivery,
    events: Seq<ChunkView>,
    x: Result<ResponseHead, Error>,
    y: Result<ResponseHead, Error>,
)
    requires
        same_answer(a, b),
        comes_to(a, delivery, events, x),
        comes_to(b, delivery, events, y),
    ensures
        same_result(x, y),
{
    if let (Ok(received), Err(error), Err(other)) = (a, x, y) {
        let bodies = choose|bodies: Seq<ErrorBody>| #[trigger]
            ends_in(bodies, events, error) && bodies[0].status() == received.status
                && bodies[0].entries() == header_entries(received.headers) && bodies[0].read()
                == Seq::<u8>::empty();
        let others = choose|bodies: Seq<ErrorBody>| #[trigger]
            ends_in(bodies, events, other) && bodies[0].status() == received.status
                && bodies[0].entries() == header_entries(received.headers) && bodies[0].read()
                == Seq::<u8>::empty();
        law_refusal_is_reported(bodies, events, error);
        law_refusal_is_reported(others, events, other);
    }
}

/// One request on its way through a client.
pub struct Run<B> {
    /// The method that it was given.
    pub method: http::Method,
    /// The URI that it was given.
    pub uri: http::Uri,
    /// The headers that it was given.
    pub headers: http::HeaderMap<http::HeaderValue>,
    /// What goes out.
    pub sent: OutgoingHead,
    /// What comes back.
    pub outcome: Result<ReceivedHead, Cause>,
    /// What the body of a refusal yields.
    pub events: Seq<ChunkView>,
    /// What it ends in.
    pub result: Result<ResponseHead, Error>,
    /// How the body of a response is read.
    pub read: Result<B, Cause>,
    /// What is handed on of it.
    pub body: Result<B, Error>,
}

/// The request went the way that the functions of this module decide.
pub open spec fn runs<B>(run: Run<B>, delivery: Delivery) -> bool {
    &&& goes_out_as(run.method, run.uri, run.headers, run.sent)
    &&& comes_to(run.outcome, delivery, run.events, run.result)
    &&& hands_on(run.read, run.body)
}

/// The two requests were the same.
pub open spec fn same_request<B>(a: Run<B>, b: Run<B>) -> bool {
    &&& a.method == b.method
    &&& uri_text(a.uri) == uri_text(b.uri)
    &&& header_entries(a.headers) == header_entries(b.headers)
}

/// The same went out.
pub open spec fn same_sent(a: OutgoingHead, b: OutgoingHead) -> bool {
    &&& a.method == b.method
    &&& a.url@ == b.url@
    &&& header_entries(a.headers) == header_entries(b.headers)
}

/// The two bodies were read alike.
pub open spec fn same_read<B>(a: Result<B, Cause>, b: Result<B, Cause>) -> bool {
    match (a, b) {
        (Ok(x), Ok(y)) => x == y,
        (Err(x), Err(y)) => same_cause(x, y),
        _ => false,
    }
}

/// The same body was handed on, or the same failure to read it.
pub open spec fn same_body<B>(a: Result<B, Error>, b: Result<B, Error>) -> bool {
    match (a, b) {
        (Ok(x), Ok(y)) => x == y,
        (Err(Error::Instance(x)), Err(Error::Instance(y))) => same_cause(x, y),
        _ => false,
    }
}

/// Of the same request the same goes out through every client, and where the answers are the same,
/// so are the results: the head and the body, or the error.
pub proof fn law_clients_agree<B>(a: Run<B>, b: Run<B>, delivery: Delivery)
    requires
        runs(a, delivery),
        runs(b, delivery),
        same_request(a, b),
        same_answer(a.outcome, b.outcome),
        a.events == b.events,
        same_read(a.read, b.read),
    ensures
        same_sent(a.sent, b.sent),
        same_result(a.result, b.result),
        same_body(a.body, b.body),
{
    law_same_answer_same_result(
        a.outcome,
        b.outcome,
        delivery,
        a.events,
        a.result,
        b.result,
    );
}

/// Every refusal is answered with an error that has the status of the response, the delay that its
/// headers ask for and the message that its body comes to.
pub proof fn law_refusal_is_answered(
    received: ReceivedHead,
    delivery: Delivery,
    events: Seq<ChunkView>,
    result: Result<ResponseHead, Error>,
)
    requires
        !is_success_code(received.status.code()),
        comes_to(Ok(received), delivery, events, result),
    ensures
        result matches Err(error) && message_of(Seq::empty(), events) matches Some(message)
            && reports_status(error, received.status, header_entries(received.headers), message),
{
    let error = result->Err_0;
    let bodies = choose|bodies: Seq<ErrorBody>| #[trigger]
        ends_in(bodies, events, error) && bodies[0].status() == received.status
            && bodies[0].entries() == header_entries(received.headers) && bodies[0].read()
            == Seq::<u8>::empty();
    law_refusal_is_reported(bodies, events, error);
}

/// A response of any other status than 200 to 299 ends in a status error with its code, so every
/// code from 400 to 599 does.
pub proof fn law_other_codes_end_in_an_error(
    received: ReceivedHead,
    delivery: Delivery,
    events: Seq<ChunkView>,
    result: Result<ResponseHead, Error>,
)
    requires
        received.status.code() < 200 || 299 < received.status.code(),
        comes_to(Ok(received), delivery, events, result),
    ensures
        result matches Err(Error::Status { status, retry_after_secs, message }) && status.code()
            == received.status.code() && retry_after_secs == retry_after_of(
            header_entries(received.headers),
        ),
{
    law_refusal_is_answered(received, delivery, events, result);
}

/// A response with a status from 200 to 299 is no error, and keeps its status and headers.
pub proof fn law_success_is_no_error(
    received: ReceivedHead,
    delivery: Delivery,
    events: Seq<ChunkView>,
    result: Result<ResponseHead, Error>,
)
    requires
        200 <= received.status.code() <= 299,
        comes_to(Ok(received), delivery, events, result),
    ensures
        result matches Ok(head) && head.status.code() == received.status.code() && header_entries(
            head.headers,
        ) == header_entries(received.headers),
{
}

} // verus!
